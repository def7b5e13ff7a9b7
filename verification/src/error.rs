//! The error taxonomy shared by the whole crate.

use plist::Error as PlistError;
use vstd::prelude::*;

verus! {

/// The codec's error type appears inside [`Error`], so Verus must know the
/// type exists; its values stay opaque and are only carried through.
#[verifier::external_type_specification]
#[verifier::external_body]
pub struct ExPlistError(PlistError);

/// Everything that can go wrong while building or (de)serializing a
/// descriptor.
#[derive(Debug)]
pub enum Error {
    /// A numeric calendar field fell outside its inclusive allowed range.
    /// Carries the range bounds and the offending value.
    CalendarFieldOutOfBounds { min: u8, max: u8, value: u8 },
    /// A failure reported by the property-list codec while reading.
    Read(plist::Error),
    /// A failure reported by the property-list codec while writing.
    Write(plist::Error),
    /// An incoming string matched no variant of a closed enumeration.
    /// Carries the raw string verbatim.
    EnumDeserialization(String),
    /// A cron ordinal could not be converted to the calendar field type.
    /// Carries the raw ordinal.
    InvalidCronField(u32),
    /// A document did not fit the descriptor schema: an unrecognized or
    /// duplicate-shaped key, a missing mandatory key, or a value of the
    /// wrong shape. Carries a short description or the offending key.
    Schema(String),
}

impl Error {
    /// A short, fixed description of the error kind, usable where the
    /// error must be printed.
    pub fn describe(&self) -> (r: &'static str)
        ensures
            (match self {
                Error::CalendarFieldOutOfBounds { .. } => r@
                    == "calendar field value out of its inclusive range"@,
                Error::Read(_) => r@ == "failed to read a property-list document"@,
                Error::Write(_) => r@ == "failed to write a property-list document"@,
                Error::EnumDeserialization(_) => r@
                    == "failed to deserialize an enumeration value"@,
                Error::InvalidCronField(_) => r@ == "a generated crontab value is invalid"@,
                Error::Schema(_) => r@ == "the document does not fit the descriptor schema"@,
            }),
    {
        let r = match self {
            Error::CalendarFieldOutOfBounds { .. } => "calendar field value out of its inclusive range",
            Error::Read(_) => "failed to read a property-list document",
            Error::Write(_) => "failed to write a property-list document",
            Error::EnumDeserialization(_) => "failed to deserialize an enumeration value",
            Error::InvalidCronField(_) => "a generated crontab value is invalid",
            Error::Schema(_) => "the document does not fit the descriptor schema",
        };
        proof {
            reveal_strlit("calendar field value out of its inclusive range");
            reveal_strlit("failed to read a property-list document");
            reveal_strlit("failed to write a property-list document");
            reveal_strlit("failed to deserialize an enumeration value");
            reveal_strlit("a generated crontab value is invalid");
            reveal_strlit("the document does not fit the descriptor schema");
        }
        r
    }
}

} // verus!
