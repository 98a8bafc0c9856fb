use vstd::prelude::*;
use crate::text::{contains, str_contains};

verus! {

/// Errors of the control plane, each with its message.
#[derive(Debug, Clone)]
pub enum AppError {
    /// The worker could not be reached or refused the call.
    Aria2(String),
    Config(String),
    Fs(String),
    TaskNotFound(String),
    Validation(String),
    Other(String),
}

/// Whether a worker error message says that the id is unknown to it.
pub open spec fn says_not_found(m: Seq<char>) -> bool {
    contains(m, "not found"@)
}

impl AppError {
    pub fn aria2(msg: String) -> (r: AppError)
        ensures
            r matches AppError::Aria2(m) && m@ == msg@,
    {
        AppError::Aria2(msg)
    }

    pub fn config(msg: String) -> (r: AppError)
        ensures
            r matches AppError::Config(m) && m@ == msg@,
    {
        AppError::Config(msg)
    }

    pub fn task_not_found(gid: String) -> (r: AppError)
        ensures
            r matches AppError::TaskNotFound(m) && m@ == gid@,
    {
        AppError::TaskNotFound(gid)
    }

    pub fn validation(msg: String) -> (r: AppError)
        ensures
            r matches AppError::Validation(m) && m@ == msg@,
    {
        AppError::Validation(msg)
    }

    pub fn io(msg: String) -> (r: AppError)
        ensures
            r matches AppError::Fs(m) && m@ == msg@,
    {
        AppError::Fs(msg)
    }

    /// Whether this is the worker saying that it does not know the id: a best-effort
    /// reading of its message.
    pub open spec fn spec_is_not_found(&self) -> bool {
        match self {
            AppError::Aria2(m) => says_not_found(m@),
            _ => false,
        }
    }

    pub fn is_aria2_not_found(&self) -> (r: bool)
        ensures
            r == self.spec_is_not_found(),
    {
        proof {
            reveal_strlit("not found");
        }
        match self {
            AppError::Aria2(m) => str_contains(m.as_str(), "not found"),
            _ => false,
        }
    }
}

} // verus!
