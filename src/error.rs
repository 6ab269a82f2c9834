use vstd::prelude::*;

verus! {

/// The kinds of failure that a command or an interaction can end in.
#[derive(Clone, Copy, Debug, PartialEq, Eq, Structural)]
pub enum Error {
    AmbiguousTime,
    Fatal,
    InvalidArgs,
    MissingPayload,
    MissingRequired,
    UnknownCommand,
    UnknownTimezone,
    UnsupportedInteractionType,
    OutOfRange,
}

/// The readable description shown to the user for each kind of failure.
pub open spec fn error_message(e: Error) -> Seq<char> {
    match e {
        Error::AmbiguousTime =>
            "Provided date and time are ambiguous (i.e. more than one possible interpretation)."@,
        Error::Fatal =>
            "Unrecoverable error. This is unexpected behavior. Please file a bug report."@,
        Error::InvalidArgs => "Invalid command arguments."@,
        Error::MissingPayload => "No interaction data present."@,
        Error::MissingRequired => "Required arguments not provided."@,
        Error::UnknownCommand => "Unknown command name."@,
        Error::UnknownTimezone =>
            "Unknown timezone. Please ensure that it is in the IANA Time Zone Database."@,
        Error::UnsupportedInteractionType => "Unsupported interaction type."@,
        Error::OutOfRange => "A value is out of range. It is either too large or too small."@,
    }
}

impl Error {
    /// The description of this failure, as shown to the invoking user.
    pub fn message(&self) -> (r: &'static str)
        ensures
            r@ == error_message(*self),
    {
        match self {
            Error::AmbiguousTime =>
                "Provided date and time are ambiguous (i.e. more than one possible interpretation).",
            Error::Fatal =>
                "Unrecoverable error. This is unexpected behavior. Please file a bug report.",
            Error::InvalidArgs => "Invalid command arguments.",
            Error::MissingPayload => "No interaction data present.",
            Error::MissingRequired => "Required arguments not provided.",
            Error::UnknownCommand => "Unknown command name.",
            Error::UnknownTimezone =>
                "Unknown timezone. Please ensure that it is in the IANA Time Zone Database.",
            Error::UnsupportedInteractionType => "Unsupported interaction type.",
            Error::OutOfRange => "A value is out of range. It is either too large or too small.",
        }
    }
}

} // verus!
