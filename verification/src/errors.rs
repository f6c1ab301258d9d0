//! Errors of the server's plumbing.

use vstd::prelude::*;

verus! {

/// A server could not start.
#[derive(Debug)]
pub struct ErrorStartingServer {
    pub reason: String,
}

impl ErrorStartingServer {
    /// The error in words.
    pub fn message(&self) -> (r: String)
        ensures
            r@ == "Error starting server: "@ + self.reason@,
    {
        let mut s = "Error starting server: ".to_owned();
        s.append(self.reason.as_str());
        s
    }
}

/// A message could not be sent to a client.
#[derive(Debug)]
pub enum TxError {
    SendError(String),
}

impl TxError {
    /// The error in words.
    pub fn message(&self) -> (r: String)
        ensures
            match self {
                TxError::SendError(m) => r@ == "send error: "@ + m@,
            },
    {
        match self {
            TxError::SendError(m) => {
                let mut s = "send error: ".to_owned();
                s.append(m.as_str());
                s
            },
        }
    }
}

} // verus!
