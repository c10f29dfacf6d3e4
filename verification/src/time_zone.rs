//! The time zone of the client: an IANA identifier that resolved against the
//! time-zone database when the record was built. The database itself belongs
//! to the environment, so resolution is an outside call and the library only
//! carries the resolved name.

use vstd::prelude::*;

verus! {

/// Whether `name` resolves in the IANA time-zone database available to this
/// process.
///
/// Relies on `jiff::tz::TimeZone::get`, which returns `Ok` exactly when the
/// identifier is found in the database the process sees. Which names those
/// are depends on the installed database, so nothing is promised about the
/// outcome.
#[verifier::external_body]
pub(crate) fn resolve_time_zone(name: &str) -> bool {
    jiff::tz::TimeZone::get(name).is_ok()
}

/// A resolved IANA time-zone identifier.
#[derive(Debug, Clone, PartialEq)]
pub struct TimeZone {
    name: String,
}

impl View for TimeZone {
    type V = Seq<char>;

    closed spec fn view(&self) -> Seq<char> {
        self.name@
    }
}

impl TimeZone {
    /// Wrap an identifier; the metadata builder calls this only after the
    /// name resolved.
    pub fn from_name(name: String) -> (t: TimeZone)
        ensures
            t@ == name@,
    {
        TimeZone { name }
    }

    /// The IANA identifier.
    pub fn iana_name(&self) -> (r: &str)
        ensures
            r@ == self@,
    {
        self.name.as_str()
    }
}

} // verus!
