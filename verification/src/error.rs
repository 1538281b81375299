use vstd::prelude::*;

verus! {

/// The failure taxonomy of the pipeline: one variant per kind of failure.
///
/// `AuthError` covers a failed credential exchange, `FetchError` a failed
/// catalog or tag-list fetch, `PolicyError` a filtering call made with no
/// retention rule configured, and `DeleteError` a failed delete call.
#[derive(Clone, Copy, Debug, PartialEq, Eq, Structural)]
pub enum StageError {
    AuthError,
    FetchError,
    PolicyError,
    DeleteError,
}

pub open spec fn message_of(e: StageError) -> Seq<char> {
    match e {
        StageError::AuthError => "credential exchange failed"@,
        StageError::FetchError => "catalog or tag list fetch failed"@,
        StageError::PolicyError => "no rules configured"@,
        StageError::DeleteError => "delete call failed"@,
    }
}

impl StageError {
    /// A short description of the failure, for status reporting.
    pub fn message(&self) -> (r: &'static str)
        ensures
            r@ == message_of(*self),
    {
        match self {
            StageError::AuthError => "credential exchange failed",
            StageError::FetchError => "catalog or tag list fetch failed",
            StageError::PolicyError => "no rules configured",
            StageError::DeleteError => "delete call failed",
        }
    }
}

} // verus!
