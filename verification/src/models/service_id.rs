use vstd::prelude::*;

verus! {

/// The error of the `uuid` crate's parser.
#[verifier::external_type_specification]
#[verifier::external_body]
pub struct ExUuidError(uuid::Error);

/// The 128-bit value of a UUID text in any of the forms that the `uuid`
/// crate reads; `None` where it reads none.
pub uninterp spec fn uuid_parsed(text: Seq<char>) -> Option<u128>;

/// The lower-case hyphenated text of a 128-bit UUID value.
pub uninterp spec fn uuid_hyphenated(value: u128) -> Seq<char>;

/// Calls `Uuid::parse_str` and hands out the big-endian value of the UUID
/// that it read (`Uuid::as_u128`). The contract names the outcome.
#[verifier::external_body]
fn parse_uuid(text: &str) -> (parsed: Result<u128, uuid::Error>)
    ensures
        parsed matches Ok(v) ==> uuid_parsed(text@) == Some(v),
        parsed is Err ==> uuid_parsed(text@) is None,
{
    uuid::Uuid::parse_str(text).map(|id| id.as_u128())
}

/// Formats `Uuid::from_u128(value)` through `Uuid::hyphenated`. The contract
/// names the text and claims that it has 36 characters and that the parser
/// reads the value back from it.
#[verifier::external_body]
fn format_uuid(value: u128) -> (text: String)
    ensures
        text@ == uuid_hyphenated(value),
        text@.len() == 36,
        uuid_parsed(text@) == Some(value),
{
    uuid::Uuid::from_u128(value).hyphenated().to_string()
}

/// A text that is no scope identifier.
#[derive(Debug, Clone, Copy, PartialEq, Eq, Structural)]
pub struct InvalidServiceId;

/// The scope identifier: the 128-bit value that groups the records of one
/// tenant.
#[derive(Debug, Clone, Copy, PartialEq, Eq, Hash, Structural)]
pub struct ServiceId(pub u128);

impl ServiceId {
    /// The 128-bit value of the identifier.
    pub open spec fn value(self) -> u128 {
        self.0
    }

    pub fn new(id: u128) -> (service_id: ServiceId)
        ensures
            service_id.value() == id,
    {
        ServiceId(id)
    }

    /// The 128-bit value of the identifier.
    pub fn as_u128(&self) -> (id: u128)
        ensures
            id == self.value(),
    {
        self.0
    }

    /// What a parser's outcome means for a scope identifier.
    pub open spec fn of_parsed(parsed: Option<u128>) -> Result<ServiceId, InvalidServiceId> {
        match parsed {
            Some(v) => Ok(ServiceId(v)),
            None => Err(InvalidServiceId),
        }
    }

    /// Reads a scope identifier from UUID text.
    pub fn parse(text: &str) -> (service_id: Result<ServiceId, InvalidServiceId>)
        ensures
            service_id == Self::of_parsed(uuid_parsed(text@)),
    {
        match parse_uuid(text) {
            Ok(v) => Ok(ServiceId(v)),
            Err(_) => Err(InvalidServiceId),
        }
    }

    /// Writes the identifier as hyphenated UUID text, from which `parse`
    /// reads it back.
    pub fn to_hyphenated(&self) -> (text: String)
        ensures
            text@ == uuid_hyphenated(self.value()),
            text@.len() == 36,
            Self::of_parsed(uuid_parsed(text@)) == Ok::<ServiceId, InvalidServiceId>(*self),
    {
        format_uuid(self.0)
    }
}

impl Default for ServiceId {
    fn default() -> (service_id: ServiceId)
        ensures
            service_id.value() == 0,
    {
        ServiceId(0)
    }
}

impl core::str::FromStr for ServiceId {
    type Err = InvalidServiceId;

    /// Reads a scope identifier from UUID text, as `parse` does.
    fn from_str(s: &str) -> (service_id: Result<Self, Self::Err>)
        ensures
            service_id == Self::of_parsed(uuid_parsed(s@)),
    {
        ServiceId::parse(s)
    }
}

} // verus!
