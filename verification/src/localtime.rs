//! The local wall clock, read through `chrono`.
use vstd::prelude::*;

use chrono::Datelike;

use crate::number::is_digit;

verus! {

/// `%H:%M:%S`: two digits, a colon, two digits, a colon, two digits.
pub open spec fn is_hms(s: Seq<char>) -> bool {
    &&& s.len() == 8
    &&& s[2] == ':'
    &&& s[5] == ':'
    &&& is_digit(s[0]) && is_digit(s[1])
    &&& is_digit(s[3]) && is_digit(s[4])
    &&& is_digit(s[6]) && is_digit(s[7])
}

/// A date and time ending in a space and `%H:%M:%S`, at least 19 characters
/// long (as `%Y-%m-%d %H:%M:%S` is).
pub open spec fn is_timestamp(s: Seq<char>) -> bool {
    &&& s.len() >= 19
    &&& s[s.len() - 9] == ' '
    &&& is_hms(s.skip(s.len() - 8))
}

/// A date written `%Y年%m月%d日`: a year of at least four characters, then
/// 年, two digits, 月, two digits, 日.
pub open spec fn is_cn_date(s: Seq<char>) -> bool {
    let n = s.len() as int;
    &&& n >= 11
    &&& s[n - 7] == '年'
    &&& is_digit(s[n - 6]) && is_digit(s[n - 5])
    &&& s[n - 4] == '月'
    &&& is_digit(s[n - 3]) && is_digit(s[n - 2])
    &&& s[n - 1] == '日'
}

/// One reading of the local clock, as the clock module shows it.
pub struct ClockReading {
    /// `%H:%M:%S`.
    pub time: String,
    /// `%Y年%m月%d日`.
    pub date: String,
    /// The day of the week counted from Sunday = 1.
    pub weekday_from_sunday: u32,
    /// The ISO week number.
    pub iso_week: u32,
}

/// One reading of the local wall clock.
pub(crate) struct LocalTime {
    /// `%H:%M:%S`.
    pub time: String,
    /// `%Y-%m-%d %H:%M:%S`.
    pub timestamp: String,
    /// `%Y年%m月%d日`.
    pub date: String,
    /// The day of the week counted from Sunday = 1.
    pub weekday_from_sunday: u32,
    /// The ISO week number.
    pub iso_week: u32,
}

/// `chrono::Local::now()`, formatted with `%H:%M:%S`, `%Y-%m-%d %H:%M:%S`
/// and `%Y年%m月%d日`, with `Weekday::number_from_sunday` (1 to 7, as
/// documented) and `IsoWeek::week` (1 to 53, as documented). The contract
/// states the shapes that chrono's strftime table documents (hour, minute,
/// second, month and day zero-padded to two digits, the year to four);
/// which moment it is depends on the clock and is left unsaid.
#[verifier::external_body]
pub(crate) fn local_now() -> (r: LocalTime)
    ensures
        is_hms(r.time@),
        is_timestamp(r.timestamp@),
        is_cn_date(r.date@),
        1 <= r.weekday_from_sunday <= 7,
        1 <= r.iso_week <= 53,
{
    let now = chrono::Local::now();
    LocalTime {
        time: now.format("%H:%M:%S").to_string(),
        timestamp: now.format("%Y-%m-%d %H:%M:%S").to_string(),
        date: now.format("%Y年%m月%d日").to_string(),
        weekday_from_sunday: now.weekday().number_from_sunday(),
        iso_week: now.iso_week().week(),
    }
}

/// The local time of day, `%H:%M:%S`.
pub(crate) fn local_hms() -> (r: String)
    ensures
        is_hms(r@),
{
    local_now().time
}

/// The local date and time, `%Y-%m-%d %H:%M:%S`.
pub(crate) fn local_timestamp() -> (r: String)
    ensures
        is_timestamp(r@),
{
    local_now().timestamp
}

/// A reading of the local clock for the clock module.
pub(crate) fn local_clock() -> (r: ClockReading)
    ensures
        is_hms(r.time@),
        is_cn_date(r.date@),
        1 <= r.weekday_from_sunday <= 7,
        1 <= r.iso_week <= 53,
{
    let now = local_now();
    ClockReading {
        time: now.time,
        date: now.date,
        weekday_from_sunday: now.weekday_from_sunday,
        iso_week: now.iso_week,
    }
}

} // verus!
