//! Points in time, carried as RFC 3339 text that chrono reads.
use vstd::prelude::*;

verus! {

/// Whether chrono reads the text as an RFC 3339 date and time.
pub uninterp spec fn is_rfc3339(s: Seq<char>) -> bool;

/// Relies on chrono's `DateTime::parse_from_rfc3339`: whether it accepts the text.
#[verifier::external_body]
fn rfc3339_accepts(s: &str) -> (r: bool)
    ensures
        r == is_rfc3339(s@),
{
    chrono::DateTime::parse_from_rfc3339(s).is_ok()
}

/// Relies on chrono's `Utc::now` and `to_rfc3339_opts`: the current time as RFC 3339 text
/// in UTC, with as many fractional digits as it needs. `to_rfc3339_opts` is documented to
/// write RFC 3339, and `parse_from_rfc3339` to read every RFC 3339 value.
#[verifier::external_body]
fn now_rfc3339() -> (r: String)
    ensures
        is_rfc3339(r@),
{
    chrono::Utc::now().to_rfc3339_opts(chrono::SecondsFormat::AutoSi, true)
}

/// A point in time, held as RFC 3339 text that chrono reads; the text is kept as given.
#[derive(Debug)]
pub struct Timestamp {
    text: String,
}

impl Timestamp {
    #[verifier::type_invariant]
    spec fn readable(self) -> bool {
        is_rfc3339(self.text@)
    }

    /// The RFC 3339 text.
    pub closed spec fn text(self) -> Seq<char> {
        self.text@
    }

    /// The timestamp written as `s`, if chrono reads it as RFC 3339.
    pub fn parse(s: &str) -> (r: Option<Timestamp>)
        ensures
            r is Some <==> is_rfc3339(s@),
            r is Some ==> r->0.text() == s@,
    {
        if rfc3339_accepts(s) {
            Some(Timestamp { text: s.to_owned() })
        } else {
            None
        }
    }

    /// The current time, as chrono writes it.
    pub fn now() -> (r: Timestamp) {
        Timestamp { text: now_rfc3339() }
    }

    /// The RFC 3339 text.
    pub fn as_str(&self) -> (r: &str)
        ensures
            r@ == self.text(),
    {
        self.text.as_str()
    }

    /// A copy of the timestamp.
    pub fn copy(&self) -> (r: Timestamp)
        ensures
            r.text() == self.text(),
            is_rfc3339(self.text()),
    {
        proof {
            use_type_invariant(self);
        }
        Timestamp { text: self.text.clone() }
    }
}

} // verus!
