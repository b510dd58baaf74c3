use vstd::prelude::*;
use vstd::string::StringExecFns;
use crate::text::render_u64;
use crate::text::spec_dec;

verus! {

/// Every error a command-level operation can report. Each is recoverable:
/// the interactive loop reports it and returns to awaiting input.
#[derive(Clone, Copy, Debug, PartialEq, Eq, Structural)]
pub enum OccuError {
    /// An insertion collided with an identifier already in the store.
    EventExists,
    /// An identifier's embedded time could not be decoded or rendered.
    InvalidUuidTimestamp,
    /// A removal target could not be parsed as a valid index.
    InvalidIndex,
    /// A command was invoked with fewer arguments than it requires.
    RequiresArgs(u8),
}

/// The diagnostic line reported for an error.
pub open spec fn spec_error_message(e: OccuError) -> Seq<char> {
    match e {
        OccuError::EventExists => "Duplicate Event exists in memory."@,
        OccuError::InvalidUuidTimestamp => "Couldn't parse timestamp from UUID v7."@,
        OccuError::InvalidIndex => "Invalid index."@,
        OccuError::RequiresArgs(count) => "Command requires "@ + spec_dec(count as nat)
            + " argument(s)."@,
    }
}

/// Renders the human-readable diagnostic for an error.
pub fn error_message(e: &OccuError) -> (r: String)
    ensures
        r@ == spec_error_message(*e),
{
    match e {
        OccuError::EventExists => String::from_str("Duplicate Event exists in memory."),
        OccuError::InvalidUuidTimestamp => String::from_str(
            "Couldn't parse timestamp from UUID v7.",
        ),
        OccuError::InvalidIndex => String::from_str("Invalid index."),
        OccuError::RequiresArgs(count) => {
            let mut s = String::from_str("Command requires ");
            let digits = render_u64(*count as u64);
            s.append(digits.as_str());
            s.append(" argument(s).");
            s
        },
    }
}

} // verus!
