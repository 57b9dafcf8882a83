//! The machine's clock.

use vstd::prelude::*;
use crate::base::text::{decimal, digit_char, padded};

verus! {

/// Nanoseconds since the Unix epoch, as `std::time::SystemTime::now` tells
/// them; zero where the clock stands before the epoch. Nothing is claimed of
/// the value: it depends on the machine.
#[verifier::external_body]
pub(crate) fn system_time_ns() -> (ns: u128)
{
    std::time::SystemTime::now().duration_since(std::time::UNIX_EPOCH).unwrap_or_default().as_nanos()
}

/// A count of `unit` nanoseconds each, modulo the range of `u64`.
pub open spec fn units_of(ns: u128, unit: u128) -> u64 {
    (ns as int / unit as int % 0x1_0000_0000_0000_0000) as u64
}

/// Nanoseconds, modulo the range of `u64`.
pub fn nanos_of(ns: u128) -> (r: u64)
    ensures
        r == ns % 0x1_0000_0000_0000_0000,
        r == units_of(ns, 1),
{
    (ns % 0x1_0000_0000_0000_0000u128) as u64
}

/// Whole microseconds, modulo the range of `u64`.
pub fn micros_of(ns: u128) -> (r: u64)
    ensures
        r == (ns / 1_000) % 0x1_0000_0000_0000_0000,
        r == units_of(ns, 1_000),
{
    (ns / 1_000 % 0x1_0000_0000_0000_0000u128) as u64
}

/// Whole milliseconds, modulo the range of `u64`.
pub fn millis_of(ns: u128) -> (r: u64)
    ensures
        r == (ns / 1_000_000) % 0x1_0000_0000_0000_0000,
        r == units_of(ns, 1_000_000),
{
    (ns / 1_000_000 % 0x1_0000_0000_0000_0000u128) as u64
}

/// Whole seconds, modulo the range of `u64`.
pub fn secs_of(ns: u128) -> (r: u64)
    ensures
        r == (ns / 1_000_000_000) % 0x1_0000_0000_0000_0000,
        r == units_of(ns, 1_000_000_000),
{
    (ns / 1_000_000_000 % 0x1_0000_0000_0000_0000u128) as u64
}

/// The current time in nanoseconds since the Unix epoch, modulo the range of
/// `u64`.
pub fn now_ns() -> (r: u64)
    ensures
        exists|ns: u128| r == #[trigger] units_of(ns, 1),
{
    nanos_of(system_time_ns())
}

/// The current time in microseconds since the Unix epoch, modulo the range of
/// `u64`.
pub fn now_us() -> (r: u64)
    ensures
        exists|ns: u128| r == #[trigger] units_of(ns, 1_000),
{
    micros_of(system_time_ns())
}

/// The current time in milliseconds since the Unix epoch, modulo the range of
/// `u64`.
pub fn now_ms() -> (r: u64)
    ensures
        exists|ns: u128| r == #[trigger] units_of(ns, 1_000_000),
{
    millis_of(system_time_ns())
}

/// The current time in whole seconds since the Unix epoch, modulo the range of
/// `u64`.
pub fn now_secs() -> (r: u64)
    ensures
        exists|ns: u128| r == #[trigger] units_of(ns, 1_000_000_000),
{
    secs_of(system_time_ns())
}

/// A moment: whole seconds since the Unix epoch, and the nanoseconds past them.
#[derive(Debug, Clone, Copy, PartialEq, Eq, Structural)]
pub struct UtcInstant {
    pub secs: i64,
    pub nanos: u32,
}

impl UtcInstant {
    /// Whether the moment lies in the years that `chrono` knows, from the start
    /// of -262143 to the end of 262142.
    pub open spec fn wf(&self) -> bool {
        -8_334_601_228_800 <= self.secs <= 8_210_266_876_799 && self.nanos < 1_000_000_000
    }
}

/// The moment that `chrono::Utc::now` tells, taken apart by `timestamp` and
/// `timestamp_subsec_nanos`. Of its value only that `chrono` can hold it is
/// claimed: it depends on the machine. `chrono` panics where the clock stands
/// before the epoch or beyond its years, which no argument here decides.
#[verifier::external_body]
pub(crate) fn utc_now() -> (at: UtcInstant)
    ensures
        at.wf(),
{
    let now = chrono::Utc::now();
    UtcInstant { secs: now.timestamp(), nanos: now.timestamp_subsec_nanos() }
}

/// A number below a hundred with two digits.
pub open spec fn two_digits(n: int) -> Seq<char> {
    seq![digit_char((n / 10) as nat), digit_char((n % 10) as nat)]
}

/// The time of day in UTC with nine digits behind the seconds.
pub open spec fn time_of_day(at: UtcInstant) -> Seq<char> {
    let day = at.secs as int % 86_400;
    two_digits(day / 3_600).push(':') + two_digits(day / 60 % 60).push(':') + two_digits(
        day % 60,
    ).push('.') + padded(decimal(at.nanos as nat), 9, '0')
}

/// Whether a text ends with another.
pub open spec fn ends_with(s: Seq<char>, tail: Seq<char>) -> bool {
    tail.len() <= s.len() && s.skip(s.len() - tail.len()) == tail
}

/// The text that `chrono` makes of a moment in UTC by a format.
pub uninterp spec fn utc_text(secs: int, nanos: int, format: Seq<char>) -> Seq<char>;

/// `chrono::DateTime::format` on the moment that `from_timestamp` makes. Only
/// the two formats in use are admitted, since `chrono` panics on a format that
/// it cannot read. The text is a function of the moment and the format. It
/// ends with what both formats end with: the mark between date and time, the
/// hour, minute and second with two digits, nine digits of nanoseconds, and
/// the closing `Z` where the format has it. The date before them is left to
/// the name.
#[verifier::external_body]
pub(crate) fn utc_text_of(at: UtcInstant, format: &str) -> (s: String)
    requires
        at.wf(),
        format@ == "%Y%m%d-%H:%M:%S.%f"@ || format@ == "%Y-%m-%dT%H:%M:%S.%fZ"@,
    ensures
        s@ == utc_text(at.secs as int, at.nanos as int, format@),
        format@ == "%Y%m%d-%H:%M:%S.%f"@ ==> ends_with(s@, seq!['-'] + time_of_day(at)),
        format@ == "%Y-%m-%dT%H:%M:%S.%fZ"@ ==> ends_with(
            s@,
            (seq!['T'] + time_of_day(at)).push('Z'),
        ),
{
    chrono::DateTime::from_timestamp(at.secs, at.nanos).unwrap_or_default().format(format).to_string()
}

/// A moment as a FIX message writes it, such as `20240131-12:30:45.000000001`.
pub open spec fn fix_stamp(at: UtcInstant) -> Seq<char> {
    utc_text(at.secs as int, at.nanos as int, "%Y%m%d-%H:%M:%S.%f"@)
}

/// A moment in ISO form, such as `2024-01-31T12:30:45.000000001Z`.
pub open spec fn iso_stamp(at: UtcInstant) -> Seq<char> {
    utc_text(at.secs as int, at.nanos as int, "%Y-%m-%dT%H:%M:%S.%fZ"@)
}

/// Writes a moment as a FIX message does.
pub fn fix_time(at: UtcInstant) -> (s: String)
    requires
        at.wf(),
    ensures
        s@ == fix_stamp(at),
        ends_with(s@, seq!['-'] + time_of_day(at)),
{
    utc_text_of(at, "%Y%m%d-%H:%M:%S.%f")
}

/// Writes a moment in ISO form.
pub fn iso_time(at: UtcInstant) -> (s: String)
    requires
        at.wf(),
    ensures
        s@ == iso_stamp(at),
        ends_with(s@, (seq!['T'] + time_of_day(at)).push('Z')),
{
    utc_text_of(at, "%Y-%m-%dT%H:%M:%S.%fZ")
}

} // verus!
