//! The identifier type for user roles.

use vstd::prelude::*;

use crate::decimal;
use crate::snowflake;

verus! {

/// Concrete type for role identifiers: a packed snowflake value.
#[derive(PartialEq, Eq, Structural, Copy, Clone, Debug, Hash)]
pub struct RoleId(pub u64);

impl RoleId {
    /// Packs a timestamp, instance and sequence into a role identifier.
    pub fn from_parts(timestamp: u64, instance: u64, sequence: u64) -> (id: Self)
        requires
            snowflake::parts_in_range(timestamp, instance, sequence),
        ensures
            id.0 == snowflake::spec_pack(timestamp, instance, sequence),
    {
        RoleId(snowflake::from_parts(timestamp, instance, sequence))
    }

    /// The millisecond-timestamp component of the identifier.
    pub fn timestamp(&self) -> (t: u64)
        ensures
            t == self.0 / snowflake::TIMESTAMP_UNIT,
    {
        snowflake::timestamp_of(self.0)
    }

    /// The generator-instance component of the identifier.
    pub fn instance(&self) -> (i: u64)
        ensures
            i == (self.0 / snowflake::INSTANCE_UNIT) % snowflake::INSTANCE_LIMIT,
    {
        snowflake::instance_of(self.0)
    }

    /// The sequence-number component of the identifier.
    pub fn sequence(&self) -> (s: u64)
        ensures
            s == self.0 % snowflake::SEQUENCE_LIMIT,
    {
        snowflake::sequence_of(self.0)
    }

    /// The canonical decimal string for the identifier.
    pub fn to_string(&self) -> (s: String)
        ensures
            s@ == decimal::spec_decimal(self.0 as nat),
    {
        decimal::u64_to_string(self.0)
    }

    /// Parses a decimal string as a role identifier.
    pub fn from_str(s: &str) -> (r: Option<Self>)
        ensures
            r matches Some(id) ==> decimal::spec_parse_u64(s@) == Some(id.0),
            r is None ==> decimal::spec_parse_u64(s@) is None,
    {
        match decimal::parse_u64(s) {
            Some(v) => Some(RoleId(v)),
            None => None,
        }
    }
}

} // verus!
