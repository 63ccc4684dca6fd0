//! The failures that end a run.

use crate::text::{decimal, push_decimal};
use vstd::prelude::*;
use vstd::string::StringExecFns;

verus! {

/// Why a run produced no result.
#[derive(Debug, PartialEq, Eq)]
pub enum MatchError {
    /// The match API gave no broadcast address for the match.
    EndpointUnavailable {
        /// The match that was asked for.
        match_id: u64,
        /// What went wrong.
        cause: String,
    },
    /// Every attempt to open the broadcast failed.
    ConnectionExhausted {
        /// Number of attempts made.
        attempts: u32,
        /// The failure of the last attempt; empty where none was made.
        last_error: String,
    },
    /// The stream was read and no valid player appeared.
    NoPlayersFound,
}

impl MatchError {
    /// The text shown to the caller.
    pub open spec fn text(self) -> Seq<char> {
        match self {
            MatchError::EndpointUnavailable { match_id, cause } => "Failed to get broadcast URL: "@
                + cause@,
            MatchError::ConnectionExhausted { attempts, last_error } => if attempts == 0 {
                "Connection error: Maximum retry attempts exceeded"@
            } else {
                "Connection error: Failed to connect after "@ + decimal(attempts as nat)
                    + " attempts: "@ + last_error@
            },
            MatchError::NoPlayersFound => "No players found"@,
        }
    }

    /// Renders the failure for the caller.
    pub fn message(&self) -> (r: String)
        ensures
            r@ == self.text(),
    {
        match self {
            MatchError::EndpointUnavailable { match_id, cause } => {
                String::from_str("Failed to get broadcast URL: ").concat(cause.as_str())
            },
            MatchError::ConnectionExhausted { attempts, last_error } => {
                if *attempts == 0 {
                    String::from_str("Connection error: Maximum retry attempts exceeded")
                } else {
                    let mut out = String::from_str("Connection error: Failed to connect after ");
                    push_decimal(&mut out, *attempts as u64);
                    out.append(" attempts: ");
                    out.append(last_error.as_str());
                    out
                }
            },
            MatchError::NoPlayersFound => String::from_str("No players found"),
        }
    }
}

} // verus!
