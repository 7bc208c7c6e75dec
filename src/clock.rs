use vstd::prelude::*;

verus! {

/// The earliest instant that chrono can represent, in seconds since the Unix
/// epoch (the first second of January 1, 262144 BCE).
pub const EARLIEST_SECS: i64 = -8334601228800;

/// The latest instant that chrono can represent, in seconds since the Unix
/// epoch (the last second of December 31, 262142).
pub const LATEST_SECS: i64 = 8210266876799;

/// One reading of the local wall clock: a Unix timestamp, the nanoseconds
/// past that second, and the local offset from UTC in seconds.
#[derive(Clone, Copy, Debug, PartialEq, Eq, Structural)]
pub struct LocalTime {
    pub secs: i64,
    pub nanos: u32,
    pub offset: i32,
}

impl LocalTime {
    /// A reading that chrono can represent: an instant between the earliest and
    /// the latest one, a nanosecond part under one second, and an offset of
    /// less than a day either way.
    pub open spec fn valid(&self) -> bool {
        &&& EARLIEST_SECS <= self.secs <= LATEST_SECS
        &&& self.nanos < 1_000_000_000
        &&& -86_400 < self.offset < 86_400
    }

    /// A reading built from its parts, or `None` where they are out of range.
    pub fn new(secs: i64, nanos: u32, offset: i32) -> (r: Option<LocalTime>)
        ensures
            r matches Some(t) ==> t.valid() && t == (LocalTime { secs, nanos, offset }),
            r is None <==> !(LocalTime { secs, nanos, offset }).valid(),
    {
        let t = LocalTime { secs, nanos, offset };
        if EARLIEST_SECS <= secs && secs <= LATEST_SECS && nanos < 1_000_000_000 && -86_400 < offset
            && offset < 86_400 {
            Some(t)
        } else {
            None
        }
    }
}

/// The text of chrono's `%Y-%m-%dT%H:%M:%SZ` rendering of an instant in the
/// given offset (the local date and time, to the second).
pub uninterp spec fn second_stamp(secs: int, offset: int) -> Seq<char>;

/// The text of chrono's RFC 3339 rendering of an instant in the given offset
/// (the local date and time with its fraction of a second and the offset).
pub uninterp spec fn rfc3339_stamp(secs: int, nanos: int, offset: int) -> Seq<char>;

/// Relies on chrono's `DateTime::format` with `%Y-%m-%dT%H:%M:%SZ`, on the
/// instant that `DateTime::from_timestamp` and `FixedOffset::east_opt` build
/// from a valid reading (both succeed in that range).
#[verifier::external_body]
pub(crate) fn format_seconds(t: &LocalTime) -> (r: String)
    requires
        t.valid(),
    ensures
        r@ == second_stamp(t.secs as int, t.offset as int),
{
    let offset = chrono::FixedOffset::east_opt(t.offset).unwrap();
    let at = chrono::DateTime::from_timestamp(t.secs, t.nanos).unwrap().with_timezone(&offset);
    at.format("%Y-%m-%dT%H:%M:%SZ").to_string()
}

/// Relies on chrono's `DateTime::to_rfc3339`, on the instant that
/// `DateTime::from_timestamp` and `FixedOffset::east_opt` build from a valid
/// reading (both succeed in that range).
#[verifier::external_body]
pub(crate) fn format_rfc3339(t: &LocalTime) -> (r: String)
    requires
        t.valid(),
    ensures
        r@ == rfc3339_stamp(t.secs as int, t.nanos as int, t.offset as int),
{
    let offset = chrono::FixedOffset::east_opt(t.offset).unwrap();
    let at = chrono::DateTime::from_timestamp(t.secs, t.nanos).unwrap().with_timezone(&offset);
    at.to_rfc3339()
}

} // verus!
