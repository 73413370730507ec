use vstd::prelude::*;

verus! {

/// The server's answer to a handshake.
#[derive(Debug)]
pub enum AuthResponse {
    Success,
    Error(String),
}

impl AuthResponse {
    pub fn is_success(&self) -> (r: bool)
        ensures
            r == (self is Success),
    {
        match self {
            AuthResponse::Success => true,
            AuthResponse::Error(_) => false,
        }
    }

    /// The reason given, as shown to people; empty for a success.
    pub fn message(&self) -> (s: String)
        ensures
            self matches AuthResponse::Error(reason) ==> s@ == reason@,
            self is Success ==> s@.len() == 0,
    {
        match self {
            AuthResponse::Success => String::new(),
            AuthResponse::Error(reason) => reason.clone(),
        }
    }
}

} // verus!
