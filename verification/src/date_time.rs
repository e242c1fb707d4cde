//! Points in time (UTC), as used in `Date` headers and file metadata.
use vstd::prelude::*;
use crate::codec::{is_ascii_str, MailEncodable, MailEncoder, ascii_bytes};
use crate::error::EncodingError;

verus! {

/// The RFC 2822 text chrono produces for the UTC time `secs` seconds (plus `nanos`)
/// after the unix epoch.
pub uninterp spec fn rfc2822_text(secs: i64, nanos: u32) -> Seq<char>;

/// A point in time in UTC, as seconds and nanoseconds since the unix epoch.
#[derive(Debug, Clone, Copy, PartialEq, Eq, Structural)]
pub struct DateTime {
    pub secs: i64,
    pub nanos: u32,
}

/// Seconds of `0000-01-01T00:00:00Z` and `9999-12-31T23:59:59Z`.
pub open spec fn spec_rfc2822_representable(secs: i64, nanos: u32) -> bool {
    -62167219200 <= secs <= 253402300799 && nanos < 1_000_000_000
}

/// Calls `chrono::Utc::now()` and returns its unix timestamp and sub-second nanos.
/// Which time it is is not stated; chrono takes it as the duration since the epoch
/// of the system time (so it is not negative) and builds it from whole seconds and
/// sub-second nanos (below one second, so no leap second).
#[verifier::external_body]
fn utc_now_timestamp() -> (r: (i64, u32))
    ensures
        r.0 >= 0,
        r.1 < 1_000_000_000,
{
    let now = chrono::Utc::now();
    (now.timestamp(), now.timestamp_subsec_nanos())
}

/// Calls `chrono::DateTime::<Utc>::from_timestamp(secs, nanos)` and formats the
/// result with `to_rfc2822`. For times in the years 0 to 9999 chrono neither
/// fails nor panics; the produced text is ascii (names, digits, `,`, `:`, `+`, spaces).
#[verifier::external_body]
fn chrono_rfc2822(secs: i64, nanos: u32) -> (r: String)
    requires
        spec_rfc2822_representable(secs, nanos),
    ensures
        r@ == rfc2822_text(secs, nanos),
        is_ascii_str(r@),
{
    chrono::DateTime::<chrono::Utc>::from_timestamp(secs, nanos).unwrap().to_rfc2822()
}

impl DateTime {
    /// The current time (at or after the unix epoch).
    pub fn now() -> (r: DateTime)
        ensures
            r.secs >= 0,
            r.nanos < 1_000_000_000,
    {
        let (secs, nanos) = utc_now_timestamp();
        DateTime { secs, nanos }
    }

    /// Whether the time can be written as an RFC 2822 date (years 0 to 9999).
    pub fn is_rfc2822_representable(&self) -> (r: bool)
        ensures
            r == spec_rfc2822_representable(self.secs, self.nanos),
    {
        -62167219200 <= self.secs && self.secs <= 253402300799 && self.nanos < 1_000_000_000
    }

    /// The RFC 2822 representation, e.g. `Mon, 25 May 1992 23:41:12 +0000`.
    pub fn to_rfc2822(&self) -> (r: String)
        requires
            spec_rfc2822_representable(self.secs, self.nanos),
        ensures
            r@ == rfc2822_text(self.secs, self.nanos),
    {
        chrono_rfc2822(self.secs, self.nanos)
    }
}

impl MailEncodable for DateTime {
    /// Writes the RFC 2822 representation; times outside of the years 0 to 9999
    /// can not be represented and are rejected.
    fn encode(&self, encoder: &mut MailEncoder) -> (r: Result<(), EncodingError>)
        ensures
            r is Ok <==> spec_rfc2822_representable(self.secs, self.nanos),
            r is Ok ==> final(encoder)@.data == old(encoder)@.data + ascii_bytes(
                rfc2822_text(self.secs, self.nanos),
            ),
            r is Err ==> final(encoder)@ == old(encoder)@,
    {
        if !self.is_rfc2822_representable() {
            return Err(EncodingError::Malformed);
        }
        let as_str = chrono_rfc2822(self.secs, self.nanos);
        encoder.write_str(as_str.as_str());
        Ok(())
    }
}

} // verus!
