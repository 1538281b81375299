//! Registry-maintenance pipeline: derive a chain of credentials from
//! client credentials, enumerate a container registry's repositories,
//! list each repository's tags, decide by rule which tags are stale, and
//! plan their deletion.
//!
//! The library holds everything that decides: the retention policy over
//! tags and repository names (`resp`), the timestamp model and the
//! creation-time parser (`datetime`), the construction of every request
//! the chain sends (`req`, `params_construction`), the stages' queue
//! discipline and the coordinator's state machine (`workflow`), and the
//! proofs of the policy's laws (`laws`). The binary around it only moves
//! bytes: it reads the configuration, performs the HTTP calls, and runs
//! the queues.

pub mod datetime;
pub mod error;
pub mod laws;
pub mod params_construction;
pub mod req;
pub mod resp;
pub mod setting;
pub mod text;
pub mod workflow;

pub use datetime::Timestamp;
pub use error::StageError;
pub use params_construction::{
    build_delete_tag_path, build_delete_tag_scope, build_repos_path, build_repos_scope,
    build_tag_path, build_tag_scope,
};
pub use req::GrantType;
pub use resp::{
    FinalToken, LoginToken, Primary, RefreshToken, RepositoriesList, Tag, TagList, Token,
};
pub use setting::{
    AcrAuth, AzureAuth, Config, DefaultRule, Filter, ImageRule, KeepRule, Rule, TagRule,
};
