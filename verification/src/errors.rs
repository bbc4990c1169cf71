//! The failure taxonomy of the fractal resolution pipeline. Each variant
//! names one failure kind and carries its cause; `message` renders the
//! user-visible text that the dispatcher puts into an "Error" embed.

use vstd::prelude::*;
use crate::numbers::dec_rep;
use crate::numbers::append_dec_u64;

verus! {

/// What went wrong while resolving tomorrow's daily fractals.
#[derive(Debug, Clone, PartialEq)]
pub enum BotError {
    /// The HTTP transport failed before a response body was read; carries
    /// the transport's own description.
    NetworkError(String),
    /// A response body was read but was not the expected JSON shape;
    /// carries a description of the mismatch.
    DecodeError(String),
    /// The achievements endpoint returned fewer entries than the fixed
    /// category indices require; carries the length actually returned.
    IndexError(usize),
}

impl BotError {
    /// The user-visible text of this error.
    pub open spec fn message_spec(&self) -> Seq<char> {
        match self {
            BotError::NetworkError(t) => "Network Error: "@ + t@,
            BotError::DecodeError(t) => "Decode Error: "@ + t@,
            BotError::IndexError(n) => "Index Error: the achievements endpoint returned "@
                + dec_rep(*n as nat) + " entries where at least 15 are required"@,
        }
    }

    /// Renders the user-visible text of this error.
    pub fn message(&self) -> (r: String)
        ensures
            r@ == self.message_spec(),
    {
        match self {
            BotError::NetworkError(t) => {
                let mut out = String::new();
                out.append("Network Error: ");
                out.append(t.as_str());
                proof {
                    assert(out@ =~= self.message_spec());
                }
                out
            },
            BotError::DecodeError(t) => {
                let mut out = String::new();
                out.append("Decode Error: ");
                out.append(t.as_str());
                proof {
                    assert(out@ =~= self.message_spec());
                }
                out
            },
            BotError::IndexError(n) => {
                let mut out = String::new();
                out.append("Index Error: the achievements endpoint returned ");
                append_dec_u64(&mut out, *n as u64);
                out.append(" entries where at least 15 are required");
                proof {
                    assert(out@ =~= self.message_spec());
                }
                out
            },
        }
    }
}

} // verus!
