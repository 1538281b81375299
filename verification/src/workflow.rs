use vstd::prelude::*;

use std::sync::Arc;

use crate::params_construction::{build_delete_tag_path, build_delete_tag_scope};
use crate::resp::{image_rule_outcome, tag_rule_outcome, RepositoriesList, Tag, TagList};
use crate::setting::Config;

verus! {

/// What one poll of a work queue found.
pub enum QueueEvent<T> {
    Received(T),
    Empty,
    Closed,
}

/// What a polling stage does next.
pub enum StageStep<T> {
    Work(T),
    Pause,
    Finish,
}

/// The polling discipline every consuming stage follows: work on a
/// received item, pause briefly when the queue is transiently empty,
/// and finish when the queue is closed because every producer is gone.
pub fn stage_step<T>(event: QueueEvent<T>) -> (r: StageStep<T>)
    ensures
        match event {
            QueueEvent::Received(x) => r matches StageStep::Work(y) && y == x,
            QueueEvent::Empty => r matches StageStep::Pause,
            QueueEvent::Closed => r matches StageStep::Finish,
        },
{
    match event {
        QueueEvent::Received(x) => StageStep::Work(x),
        QueueEvent::Empty => StageStep::Pause,
        QueueEvent::Closed => StageStep::Finish,
    }
}

/// The repository stage's handling of a fetched catalog: the names that
/// survive the repository rules, to be handed downstream one by one; or
/// nothing when the policy refuses the catalog, which is logged and
/// ends the stage with zero items emitted.
pub fn process_repositories(list: RepositoriesList, config: Arc<Config>) -> (r: Option<
    Vec<String>,
>)
    ensures
        match image_rule_outcome(list.repositories@, *config) {
            Ok(names) => r matches Some(v) && v@ == names,
            Err(_) => r is None,
        },
{
    match list.filter_by_image_rule(config) {
        Ok(l) => Some(l.repositories()),
        Err(_) => None,
    }
}

/// The tag stage's handling of one fetched tag listing: the deletion
/// candidates to hand to the delete stage, or nothing when the policy
/// refuses the listing or leaves no candidate.
pub fn process_tag_list(list: TagList, config: Arc<Config>) -> (r: Option<TagList>)
    ensures
        match tag_rule_outcome(list.tags@, *config) {
            Ok(t) => if t.len() == 0 {
                r is None
            } else {
                r matches Some(out) && out.tags@ == t && out.registry == list.registry
                    && out.image_name == list.image_name
            },
            Err(_) => r is None,
        },
{
    match list.filter_by_tag_rule(config) {
        Ok(l) => if l.tags.len() == 0 {
            None
        } else {
            Some(l)
        },
        Err(_) => None,
    }
}

/// The scope and the two references a tag's deletion uses: first the
/// delete by tag name, then the follow-up delete by digest.
pub struct DeletionPlan {
    pub scope: String,
    pub tag_path: String,
    pub digest_path: String,
}

/// Scope and paths for deleting one tag of one repository.
pub fn plan_tag_deletion(image_name: &str, tag: &Tag) -> (r: DeletionPlan)
    ensures
        r.scope@ == "repository:"@ + image_name@ + ":delete"@,
        r.tag_path@ == "/acr/v1/"@ + image_name@ + "/_tags/"@ + tag.name@,
        r.digest_path@ == "/acr/v1/"@ + image_name@ + "/_tags/"@ + tag.digest@,
{
    DeletionPlan {
        scope: build_delete_tag_scope(image_name),
        tag_path: build_delete_tag_path(image_name, tag.name.as_str()),
        digest_path: build_delete_tag_path(image_name, tag.digest.as_str()),
    }
}

/// What one tag's deletion reported: identifying fields, plus the HTTP
/// status of the delete by tag reference when the call was answered.
pub struct DeletionOutcome {
    pub repository: String,
    pub tag_name: String,
    pub digest: String,
    pub success: bool,
    pub status: Option<u16>,
}

/// Record the outcome of one tag's deletion. An answered call, whatever
/// its HTTP status, counts as success; an unanswered one is a failure.
pub fn record_deletion(
    repository: String,
    tag_name: String,
    digest: String,
    status: Option<u16>,
) -> (r: DeletionOutcome)
    ensures
        r.repository == repository,
        r.tag_name == tag_name,
        r.digest == digest,
        r.status == status,
        r.success == (status is Some),
{
    let success = status.is_some();
    DeletionOutcome { repository, tag_name, digest, success, status }
}

/// The coordinator's states, from process start to its exit status.
#[derive(Clone, Copy, Debug, PartialEq, Eq, Structural)]
pub enum PipelineState {
    Idle,
    Authenticating,
    Running,
    Completed,
    Failed,
}

/// The events the coordinator observes.
#[derive(Clone, Copy, Debug, PartialEq, Eq, Structural)]
pub enum PipelineEvent {
    Started,
    AuthSucceeded,
    AuthFailed,
    StagesFinished,
    StageFailed,
}

/// The coordinator's transition relation: start moves into
/// authentication; both chained exchanges succeeding starts the stages;
/// an exchange failing is fatal; the run completes when all stages
/// return and fails when any stage raises an unrecoverable error. An
/// event out of place leaves the state unchanged.
pub open spec fn pipeline_next(s: PipelineState, e: PipelineEvent) -> PipelineState {
    match (s, e) {
        (PipelineState::Idle, PipelineEvent::Started) => PipelineState::Authenticating,
        (PipelineState::Authenticating, PipelineEvent::AuthSucceeded) => PipelineState::Running,
        (PipelineState::Authenticating, PipelineEvent::AuthFailed) => PipelineState::Failed,
        (PipelineState::Running, PipelineEvent::StagesFinished) => PipelineState::Completed,
        (PipelineState::Running, PipelineEvent::StageFailed) => PipelineState::Failed,
        (_, _) => s,
    }
}

impl PipelineState {
    /// Advance by one observed event.
    pub fn step(self, event: PipelineEvent) -> (r: Self)
        ensures
            r == pipeline_next(self, event),
    {
        match (self, event) {
            (PipelineState::Idle, PipelineEvent::Started) => PipelineState::Authenticating,
            (PipelineState::Authenticating, PipelineEvent::AuthSucceeded) => PipelineState::Running,
            (PipelineState::Authenticating, PipelineEvent::AuthFailed) => PipelineState::Failed,
            (PipelineState::Running, PipelineEvent::StagesFinished) => PipelineState::Completed,
            (PipelineState::Running, PipelineEvent::StageFailed) => PipelineState::Failed,
            (s, _) => s,
        }
    }

    /// Whether a terminal state maps to a successful process exit.
    pub fn exit_success(&self) -> (r: bool)
        ensures
            r == (*self == PipelineState::Completed),
    {
        matches!(self, PipelineState::Completed)
    }
}

} // verus!
