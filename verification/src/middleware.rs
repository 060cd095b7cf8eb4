//! Request middleware: what each one contributes to a request.
use vstd::prelude::*;
use crate::ua::{random_ua, user_agent_pool};

verus! {

/// Logs each request.
#[derive(Debug, Clone, Copy)]
pub struct LoggingMiddleware;

/// Sets a random User-Agent on each request.
#[derive(Debug, Clone, Copy)]
pub struct UserAgentRotationMiddleware;

impl UserAgentRotationMiddleware {
    /// The User-Agent to set on the next request: one of the built-in pool.
    pub fn next_user_agent(&self) -> (res: &'static str)
        ensures
            exists|i: int| 0 <= i < user_agent_pool().len() && user_agent_pool()[i] == res@,
    {
        random_ua()
    }
}

} // verus!
