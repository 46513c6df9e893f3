//! Waiting for the compositor's activation token.
use vstd::prelude::*;

verus! {

/// How long a token is waited for before activation goes on without one.
pub const TOKEN_TIMEOUT_MS: u128 = 100;

/// What has come of a request for a token.
#[derive(Debug)]
pub struct TokenState {
    pub token: Option<String>,
}

/// What is done next while a token is waited for.
#[derive(Debug, PartialEq, Eq)]
pub enum TokenStep {
    /// The token is there.
    Done(String),
    /// Nothing came in time.
    TimedOut,
    /// The next events are read.
    Wait,
}

impl TokenState {
    pub fn new() -> (r: Self)
        ensures
            r.token is None,
    {
        TokenState { token: None }
    }

    /// The compositor handed a token out. A later one replaces it.
    pub fn done(&mut self, token: String)
        ensures
            final(self).token == Some(token),
    {
        self.token = Some(token);
    }

    /// What is done next, `waited` milliseconds after the request. A token
    /// that is there counts even when it is late.
    pub fn step(&self, waited: u128) -> (r: TokenStep)
        ensures
            match self.token {
                Some(t) => r matches TokenStep::Done(s) && s@ == t@,
                None => if waited >= TOKEN_TIMEOUT_MS {
                    r == TokenStep::TimedOut
                } else {
                    r == TokenStep::Wait
                },
            },
    {
        match &self.token {
            Some(t) => TokenStep::Done(t.clone()),
            None => if waited >= TOKEN_TIMEOUT_MS {
                TokenStep::TimedOut
            } else {
                TokenStep::Wait
            },
        }
    }
}

} // verus!
