//! The closed error taxonomy of the wrapper, and the total mapping from
//! native integer status codes into it.

use vstd::prelude::*;

verus! {

/// Every failure the wrapper can report: one member per distinguishable
/// native status code, plus the codec-specific kinds, plus a catch-all.
#[derive(Clone, Copy, Debug, PartialEq, Eq, Structural)]
pub enum Error {
    Io,
    InvalidParam,
    Access,
    NoDevice,
    NotFound,
    Busy,
    Timeout,
    Overflow,
    Pipe,
    Interrupted,
    NoMem,
    NotSupported,
    NoValidEEPROMHeader,
    StringValueTooLong,
    StringDescriptorInvalid,
    StringDescriptorTooLong,
    Unknown,
}

/// The total mapping from a native status code to an error: each known
/// negative code has its own kind, and every other integer maps to
/// `Unknown`.
pub open spec fn spec_from_status(e: int) -> Error {
    if e == -1 {
        Error::Io
    } else if e == -2 {
        Error::InvalidParam
    } else if e == -3 {
        Error::Access
    } else if e == -4 {
        Error::NoDevice
    } else if e == -5 {
        Error::NotFound
    } else if e == -6 {
        Error::Busy
    } else if e == -7 {
        Error::Timeout
    } else if e == -8 {
        Error::Overflow
    } else if e == -9 {
        Error::Pipe
    } else if e == -10 {
        Error::Interrupted
    } else if e == -11 {
        Error::NoMem
    } else if e == -12 {
        Error::NotSupported
    } else if e == -13 {
        Error::NoValidEEPROMHeader
    } else if e == -14 {
        Error::StringValueTooLong
    } else if e == -15 {
        Error::StringDescriptorInvalid
    } else if e == -16 {
        Error::StringDescriptorTooLong
    } else {
        Error::Unknown
    }
}

impl From<i32> for Error {
    fn from(e: i32) -> (r: Error) {
        match e {
            -1 => Error::Io,
            -2 => Error::InvalidParam,
            -3 => Error::Access,
            -4 => Error::NoDevice,
            -5 => Error::NotFound,
            -6 => Error::Busy,
            -7 => Error::Timeout,
            -8 => Error::Overflow,
            -9 => Error::Pipe,
            -10 => Error::Interrupted,
            -11 => Error::NoMem,
            -12 => Error::NotSupported,
            -13 => Error::NoValidEEPROMHeader,
            -14 => Error::StringValueTooLong,
            -15 => Error::StringDescriptorInvalid,
            -16 => Error::StringDescriptorTooLong,
            _ => Error::Unknown,
        }
    }
}

impl vstd::std_specs::convert::FromSpecImpl<i32> for Error {
    open spec fn obeys_from_spec() -> bool {
        true
    }

    open spec fn from_spec(e: i32) -> Error {
        spec_from_status(e as int)
    }
}

/// The human-readable description of an error, as a spec-level sequence of
/// characters. Codes past `Overflow` share one generic description.
pub open spec fn spec_message(e: Error) -> Seq<char> {
    match e {
        Error::Io => "Input/output error"@,
        Error::InvalidParam => "Invalid parameter"@,
        Error::Access => "Access denied"@,
        Error::NoDevice => "No such device"@,
        Error::NotFound => "Not found"@,
        Error::Busy => "Resource busy"@,
        Error::Timeout => "Operation timed out"@,
        Error::Overflow => "Overflow"@,
        _ => "An unknown error occurred"@,
    }
}

impl Error {
    /// A human-readable description of the error.
    pub fn message(&self) -> (r: &'static str)
        ensures
            r@ == spec_message(*self),
    {
        match self {
            Error::Io => "Input/output error",
            Error::InvalidParam => "Invalid parameter",
            Error::Access => "Access denied",
            Error::NoDevice => "No such device",
            Error::NotFound => "Not found",
            Error::Busy => "Resource busy",
            Error::Timeout => "Operation timed out",
            Error::Overflow => "Overflow",
            _ => "An unknown error occurred",
        }
    }
}

} // verus!
