//! The study-day window: the millisecond interval one calendar date
//! covers, anchored at the configured day-rollover hour, and its
//! rendering in the store's search syntax.

use vstd::prelude::*;
use vstd::string::StringExecFns;
use crate::date::Date;
use crate::date::day_index;
use crate::date::day_number;
use crate::date::valid_date;
use crate::utils::int_dec;
use crate::utils::push_i64_dec;

verus! {

/// Days from the store's timestamp epoch (1970-01-01) to `d`.
pub open spec fn days_from_epoch(d: Date) -> int {
    day_index(d) - day_index(Date { year: 1970, month: 1, day: 1 })
}

/// The UTC milliseconds of `d` at wall-clock `hour`:00:00.
pub open spec fn utc_millis_at(d: Date, hour: int) -> int {
    days_from_epoch(d) * 86_400_000 + hour * 3_600_000
}

pub open spec fn is_digit_byte(b: u8) -> bool {
    48 <= b <= 57
}

/// The hour a stored rollover value spells. Well-formed values satisfy
/// `rollover_ok`.
pub open spec fn rollover_value(bytes: Seq<u8>) -> int {
    if bytes.len() == 1 {
        bytes[0] - 48
    } else {
        (bytes[0] - 48) * 10 + (bytes[1] - 48)
    }
}

/// A stored rollover value is one or two ASCII digits spelling an hour
/// of day, 0 through 23.
pub open spec fn rollover_ok(bytes: Seq<u8>) -> bool {
    &&& 1 <= bytes.len() <= 2
    &&& forall|i: int| 0 <= i < bytes.len() ==> is_digit_byte(bytes[i])
    &&& 0 <= rollover_value(bytes) <= 23
}

/// The stored rollover configuration could not be read as an hour.
#[derive(Clone, Copy, PartialEq, Eq, Structural, Debug)]
pub enum ConfigError {
    Corrupt,
}

/// Reads the stored rollover hour: one or two ASCII digits spelling 0
/// through 23. Anything else - other bytes, other lengths, a larger
/// number - is corrupt configuration.
pub fn parse_rollover(val: &Vec<u8>) -> (r: Result<u8, ConfigError>)
    ensures
        match r {
            Ok(h) => rollover_ok(val@) && h == rollover_value(val@) && h <= 23,
            Err(e) => !rollover_ok(val@) && e == ConfigError::Corrupt,
        },
{
    if val.len() == 1 {
        let b = val[0];
        if 48 <= b && b <= 57 {
            Ok(b - 48)
        } else {
            Err(ConfigError::Corrupt)
        }
    } else if val.len() == 2 {
        let b0 = val[0];
        let b1 = val[1];
        if 48 <= b0 && b0 <= 57 && 48 <= b1 && b1 <= 57 {
            let h = (b0 - 48) * 10 + (b1 - 48);
            if h <= 23 {
                Ok(h)
            } else {
                Err(ConfigError::Corrupt)
            }
        } else {
            Err(ConfigError::Corrupt)
        }
    } else {
        Err(ConfigError::Corrupt)
    }
}

/// The study-day window of `d` at a fixed timezone offset
/// (milliseconds east of UTC): it starts at the local wall-clock
/// instant `hour`:00:00 and spans exactly one day.
pub fn rollover_window(d: &Date, hour: u8, tz_offset_ms: i64) -> (r: (i64, i64))
    requires
        valid_date(*d),
        hour <= 23,
        -86_400_000 <= tz_offset_ms <= 86_400_000,
    ensures
        r.0 == utc_millis_at(*d, hour as int) - tz_offset_ms,
        r.1 == r.0 + 86_400_000,
{
    let dn = day_number(d);
    let epoch = Date { year: 1970, month: 1, day: 1 };
    let en = day_number(&epoch);
    let start: i64 = ((dn as i64) - (en as i64)) * 86_400_000 + (hour as i64) * 3_600_000
        - tz_offset_ms;
    (start, start + 86_400_000)
}

/// The window in the store's search syntax: `rid:<start>:<end>`.
pub open spec fn rid_render(start: int, end: int) -> Seq<char> {
    "rid:"@ + int_dec(start) + ":"@ + int_dec(end)
}

/// Renders a window in the store's search syntax.
pub fn rid_string_for_window(start: i64, end: i64) -> (r: String)
    requires
        start > i64::MIN,
        end > i64::MIN,
    ensures
        r@ == rid_render(start as int, end as int),
{
    let mut s = String::from_str("rid:");
    push_i64_dec(&mut s, start);
    s.append(":");
    push_i64_dec(&mut s, end);
    s
}

/// Renders the study-day window of `date` at a fixed timezone offset.
pub fn generate_rid_string_at_offset(date: &Date, rollover_hours: u8, tz_offset_ms: i64) -> (r:
    String)
    requires
        valid_date(*date),
        rollover_hours <= 23,
        -86_400_000 <= tz_offset_ms <= 86_400_000,
    ensures
        ({
            let start = utc_millis_at(*date, rollover_hours as int) - tz_offset_ms;
            r@ == rid_render(start, start + 86_400_000)
        }),
{
    proof {
        lemma_utc_millis_at_bounds(*date, rollover_hours as int);
    }
    let (start, end) = rollover_window(date, rollover_hours, tz_offset_ms);
    rid_string_for_window(start, end)
}

/// The local wall-clock instant does not exist once in the machine's
/// timezone (a daylight-saving gap or fold), so no window can be
/// anchored there.
#[derive(Clone, Copy, PartialEq, Eq, Structural, Debug)]
pub enum WindowError {
    InvalidLocalTime,
}

/// Relies on chrono: builds the naive datetime `y-m-d h:00:00` with
/// `NaiveDate::from_ymd_opt` and `and_hms_opt`, resolves it in the
/// machine's timezone with `Local.from_local_datetime(..).single()`,
/// and reads `timestamp_millis()`. A local offset is a `FixedOffset`,
/// smaller than one day in magnitude, so the result stays within a day
/// of the same instant read as UTC.
#[verifier::external_body]
fn local_epoch_millis(year: u16, month: u8, day: u8, hour: u8) -> (r: Option<i64>)
    requires
        valid_date(Date { year, month, day }),
        hour <= 23,
    ensures
        r matches Some(t) ==> utc_millis_at(Date { year, month, day }, hour as int) - 86_400_000
            <= t <= utc_millis_at(Date { year, month, day }, hour as int) + 86_400_000,
{
    let nd = chrono::NaiveDate::from_ymd_opt(year as i32, month as u32, day as u32)?;
    let ndt = nd.and_hms_opt(hour as u32, 0, 0)?;
    let ldt = chrono::TimeZone::from_local_datetime(&chrono::Local, &ndt).single()?;
    Some(ldt.timestamp_millis())
}

/// The study-day window of `date` in the machine's local timezone, or
/// an error when the wall-clock instant is ambiguous or nonexistent.
pub fn local_rollover_window(date: &Date, rollover_hours: u8) -> (r: Result<(i64, i64), WindowError>)
    requires
        valid_date(*date),
        rollover_hours <= 23,
    ensures
        ({
            let utc = utc_millis_at(*date, rollover_hours as int);
            match r {
                Ok(w) => utc - 86_400_000 <= w.0 <= utc + 86_400_000 && w.1 == w.0 + 86_400_000,
                Err(e) => e == WindowError::InvalidLocalTime,
            }
        }),
{
    proof {
        lemma_utc_millis_at_bounds(*date, rollover_hours as int);
    }
    match local_epoch_millis(date.year, date.month, date.day, rollover_hours) {
        Some(t) => Ok((t, t + 86_400_000)),
        None => Err(WindowError::InvalidLocalTime),
    }
}

/// The UTC milliseconds of any representable date stay far inside 64
/// bits.
proof fn lemma_utc_millis_at_bounds(d: Date, hour: int)
    requires
        valid_date(d),
        0 <= hour <= 23,
    ensures
        -1_000_000_000_000_000 <= utc_millis_at(d, hour) <= 1_000_000_000_000_000,
{
    crate::date::lemma_day_index_nonneg(d);
    lemma_day_index_upper(d);
    crate::date::lemma_day_index_nonneg(Date { year: 1970, month: 1, day: 1 });
    lemma_day_index_upper(Date { year: 1970, month: 1, day: 1 });
}

/// `day_index` of a valid date stays below 3.7 million.
proof fn lemma_day_index_upper(d: Date)
    requires
        valid_date(d),
    ensures
        day_index(d) <= 3_700_000,
{
    lemma_days_before_year_upper(d.year as int);
    lemma_days_before_month_upper(d.year as int, d.month as int);
}

proof fn lemma_days_before_year_upper(y: int)
    requires
        0 <= y <= 10000,
    ensures
        crate::date::days_before_year(y) <= 366 * y,
    decreases y,
{
    if y > 0 {
        lemma_days_before_year_upper(y - 1);
    }
}

proof fn lemma_days_before_month_upper(y: int, m: int)
    requires
        0 <= m <= 13,
    ensures
        crate::date::days_before_month(y, m) <= 31 * m,
    decreases m,
{
    if m > 1 {
        lemma_days_before_month_upper(y, m - 1);
    }
}

/// Renders the study-day window of `date` in the machine's local
/// timezone as `rid:<start>:<end>`, an interval exactly one day wide.
pub fn generate_rid_string(date: &Date, rollover_hours: u8) -> (r: Result<String, WindowError>)
    requires
        valid_date(*date),
        rollover_hours <= 23,
    ensures
        ({
            let utc = utc_millis_at(*date, rollover_hours as int);
            match r {
                Ok(s) => exists|st: int|
                    utc - 86_400_000 <= st <= utc + 86_400_000 && s@ == #[trigger] rid_render(
                        st,
                        st + 86_400_000,
                    ),
                Err(e) => e == WindowError::InvalidLocalTime,
            }
        }),
{
    proof {
        lemma_utc_millis_at_bounds(*date, rollover_hours as int);
    }
    match local_rollover_window(date, rollover_hours) {
        Ok((start, end)) => {
            let s = rid_string_for_window(start, end);
            proof {
                let st = start as int;
                assert(s@ == rid_render(st, st + 86_400_000));
            }
            Ok(s)
        },
        Err(e) => Err(e),
    }
}

} // verus!
