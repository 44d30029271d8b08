//! Wall-clock time and its rendering, through `chrono`.
use vstd::prelude::*;

verus! {

/// `secs` seconds after the Unix epoch is a time `chrono` can represent: from
/// -262143-01-01T00:00:00Z (`-8_334_601_228_800`) to +262142-12-31T23:59:59Z
/// (`8_210_266_876_799`). chrono's `NaiveDate` refuses every year below -262143,
/// so the day before the lower bound has no `DateTime`.
pub open spec fn representable(secs: int) -> bool {
    -8_334_601_228_800 <= secs && secs <= 8_210_266_876_799
}

/// The UTC time `secs` seconds after the Unix epoch, rendered as `%Y-%m-%d %H:%M UTC`
/// by `chrono`.
pub uninterp spec fn utc_minute_text(secs: i64) -> Seq<char>;

/// `DateTime::from_timestamp` followed by `format("%Y-%m-%d %H:%M UTC")`: the
/// contract names the rendered text and states nothing of its characters.
#[verifier::external_body]
pub(crate) fn format_utc_minute(secs: i64) -> (s: String)
    requires
        representable(secs as int),
    ensures
        s@ == utc_minute_text(secs),
{
    chrono::DateTime::from_timestamp(secs, 0).unwrap().format("%Y-%m-%d %H:%M UTC").to_string()
}

/// The UTC time `secs` seconds after the Unix epoch, rendered as `%Y-%m-%dT%H:%M:%SZ`
/// by `chrono`.
pub uninterp spec fn utc_second_z_text(secs: i64) -> Seq<char>;

/// `DateTime::from_timestamp` followed by `format("%Y-%m-%dT%H:%M:%SZ")`: the
/// contract names the rendered text and states nothing of its characters.
#[verifier::external_body]
pub(crate) fn format_utc_second_z(secs: i64) -> (s: String)
    requires
        representable(secs as int),
    ensures
        s@ == utc_second_z_text(secs),
{
    chrono::DateTime::from_timestamp(secs, 0).unwrap().format("%Y-%m-%dT%H:%M:%SZ").to_string()
}

/// The UTC time `secs` seconds and `nanos` nanoseconds after the Unix epoch, rendered
/// by `chrono`'s `to_rfc3339`.
pub uninterp spec fn rfc3339_text(secs: i64, nanos: u32) -> Seq<char>;

/// `DateTime::from_timestamp` followed by `to_rfc3339`: the contract names the
/// rendered text and states nothing of its characters.
#[verifier::external_body]
pub(crate) fn format_rfc3339(secs: i64, nanos: u32) -> (s: String)
    requires
        representable(secs as int),
        nanos < 1_000_000_000,
    ensures
        s@ == rfc3339_text(secs, nanos),
{
    chrono::DateTime::from_timestamp(secs, nanos).unwrap().to_rfc3339()
}

/// `SystemTime::now()` measured from `UNIX_EPOCH` with `duration_since`: whole
/// seconds and the nanoseconds past them, or `None` when the clock reads before the
/// epoch (where `duration_since` fails). The value depends on the clock; what holds
/// of every outcome is that the nanoseconds stay below a second.
#[verifier::external_body]
fn system_clock() -> (t: Option<(u64, u32)>)
    ensures
        t matches Some(x) ==> x.1 < 1_000_000_000,
{
    std::time::SystemTime::now().duration_since(std::time::UNIX_EPOCH).ok().map(|d| (d.as_secs(), d.subsec_nanos()))
}

/// The last second `chrono` can represent.
pub open spec fn last_representable() -> int {
    8_210_266_876_799
}

/// An instant the system clock gave: seconds after the Unix epoch and the
/// nanoseconds past them. Its fields are private and only `read_clock` makes one,
/// so a reading held anywhere in the library is a reading of the clock.
#[derive(Debug, Clone, Copy, PartialEq, Eq, Structural)]
pub struct ClockReading {
    secs: i64,
    nanos: u32,
}

impl ClockReading {
    /// The reading's whole seconds after the Unix epoch.
    pub closed spec fn secs_of(self) -> i64 {
        self.secs
    }

    /// The reading's nanoseconds past its whole seconds.
    pub closed spec fn nanos_of(self) -> u32 {
        self.nanos
    }

    /// The reading's whole seconds after the Unix epoch.
    pub fn secs(&self) -> (s: i64)
        ensures
            s == self.secs_of(),
    {
        self.secs
    }

    /// The reading's nanoseconds past its whole seconds.
    pub fn nanos(&self) -> (n: u32)
        ensures
            n == self.nanos_of(),
    {
        self.nanos
    }
}

/// Reads the clock. A clock that reads before the epoch, or past the last time
/// `chrono` can represent, reads as the epoch itself, so reading never fails.
pub(crate) fn read_clock() -> (t: ClockReading)
    ensures
        t.secs_of() >= 0,
        representable(t.secs_of() as int),
        t.nanos_of() < 1_000_000_000,
{
    match system_clock() {
        Some((secs, nanos)) => {
            if secs <= 8_210_266_876_799 {
                ClockReading { secs: secs as i64, nanos }
            } else {
                ClockReading { secs: 0, nanos: 0 }
            }
        },
        None => ClockReading { secs: 0, nanos: 0 },
    }
}

/// The present instant, in seconds after the Unix epoch and the nanoseconds past
/// them, as `read_clock` reads it.
pub(crate) fn clock_now() -> (t: (i64, u32))
    ensures
        t.0 >= 0,
        representable(t.0 as int),
        t.1 < 1_000_000_000,
{
    let r = read_clock();
    (r.secs, r.nanos)
}

} // verus!
