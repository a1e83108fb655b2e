//! Calendar dates and exact day arithmetic.
//!
//! A `Date` is a proleptic Gregorian calendar date with a four-digit year,
//! the only years the accepted text formats can spell. Day arithmetic is
//! defined through `day_index`, the number of days since 0000-01-01.

use vstd::prelude::*;

verus! {

/// A calendar date. Valid values satisfy `valid_date`.
#[derive(Clone, Copy, PartialEq, Eq, Structural, Debug)]
pub struct Date {
    pub year: u16,
    pub month: u8,
    pub day: u8,
}

pub open spec fn is_leap_year(y: int) -> bool {
    y % 4 == 0 && (y % 100 != 0 || y % 400 == 0)
}

pub open spec fn year_length(y: int) -> int {
    if is_leap_year(y) {
        366
    } else {
        365
    }
}

pub open spec fn month_length(y: int, m: int) -> int {
    if m == 2 {
        if is_leap_year(y) {
            29
        } else {
            28
        }
    } else if m == 4 || m == 6 || m == 9 || m == 11 {
        30
    } else {
        31
    }
}

pub open spec fn valid_date(d: Date) -> bool {
    &&& d.year <= 9999
    &&& 1 <= d.month <= 12
    &&& 1 <= d.day
    &&& d.day as int <= month_length(d.year as int, d.month as int)
}

/// Days contributed by all years before `y`.
pub open spec fn days_before_year(y: int) -> int
    decreases y,
{
    if y <= 0 {
        0
    } else {
        days_before_year(y - 1) + year_length(y - 1)
    }
}

/// Days contributed by the months of `y` before month `m`.
pub open spec fn days_before_month(y: int, m: int) -> int
    decreases m,
{
    if m <= 1 {
        0
    } else {
        days_before_month(y, m - 1) + month_length(y, m - 1)
    }
}

/// The number of days from 0000-01-01 to `d`; the calendar's ruler.
pub open spec fn day_index(d: Date) -> int {
    days_before_year(d.year as int) + days_before_month(d.year as int, d.month as int) + d.day - 1
}

impl Date {
    pub open spec fn wf(self) -> bool {
        valid_date(self)
    }

    /// Builds the date if year, month and day form a valid calendar date
    /// with a four-digit year, and nothing otherwise.
    pub fn from_ymd_opt(year: i32, month: u32, day: u32) -> (r: Option<Date>)
        ensures
            match r {
                Some(d) => {
                    &&& valid_date(d)
                    &&& d.year == year
                    &&& d.month == month
                    &&& d.day == day
                },
                None => !exists|d: Date|
                    valid_date(d) && d.year == year && d.month == month && d.day == day,
            },
    {
        if 0 <= year && year <= 9999 && 1 <= month && month <= 12 && 1 <= day {
            let d = Date { year: year as u16, month: month as u8, day: day as u8 };
            if day <= month_length_exec(d.year, d.month) as u32 {
                Some(d)
            } else {
                None
            }
        } else {
            None
        }
    }
}

pub fn is_leap_year_exec(y: u16) -> (r: bool)
    ensures
        r == is_leap_year(y as int),
{
    y % 4 == 0 && (y % 100 != 0 || y % 400 == 0)
}

pub fn month_length_exec(y: u16, m: u8) -> (r: u8)
    ensures
        r as int == month_length(y as int, m as int),
{
    if m == 2 {
        if is_leap_year_exec(y) {
            29
        } else {
            28
        }
    } else if m == 4 || m == 6 || m == 9 || m == 11 {
        30
    } else {
        31
    }
}

/// Computes `day_index` of a valid date; at most 3_652_424.
pub fn day_number(d: &Date) -> (r: u32)
    requires
        valid_date(*d),
    ensures
        r as int == day_index(*d),
        r <= 3_700_000,
{
    let mut acc: u32 = 0;
    let mut y: u16 = 0;
    while y < d.year
        invariant
            y <= d.year,
            d.year <= 9999,
            acc as int == days_before_year(y as int),
            acc as int <= 366 * (y as int),
        decreases d.year - y,
    {
        if is_leap_year_exec(y) {
            acc = acc + 366;
        } else {
            acc = acc + 365;
        }
        y = y + 1;
    }
    let mut m: u8 = 1;
    while m < d.month
        invariant
            1 <= m <= d.month,
            d.month <= 12,
            acc as int == days_before_year(d.year as int) + days_before_month(
                d.year as int,
                m as int,
            ),
            acc as int <= 366 * (d.year as int) + 31 * (m as int),
        decreases d.month - m,
    {
        acc = acc + month_length_exec(d.year, m) as u32;
        m = m + 1;
    }
    acc + d.day as u32 - 1
}

pub proof fn lemma_days_before_year_nonneg(y: int)
    ensures
        days_before_year(y) >= 0,
    decreases y,
{
    if y > 0 {
        lemma_days_before_year_nonneg(y - 1);
    }
}

pub proof fn lemma_days_before_month_nonneg(y: int, m: int)
    ensures
        days_before_month(y, m) >= 0,
    decreases m,
{
    if m > 1 {
        lemma_days_before_month_nonneg(y, m - 1);
    }
}

/// A valid date never sits before the first representable day.
pub proof fn lemma_day_index_nonneg(d: Date)
    requires
        valid_date(d),
    ensures
        day_index(d) >= 0,
{
    lemma_days_before_year_nonneg(d.year as int);
    lemma_days_before_month_nonneg(d.year as int, d.month as int);
}

/// True when `a` falls strictly before `b` on the calendar.
pub fn date_before(a: &Date, b: &Date) -> (r: bool)
    requires
        valid_date(*a),
        valid_date(*b),
    ensures
        r == (day_index(*a) < day_index(*b)),
{
    day_number(a) < day_number(b)
}

/// The months of a year and one trailing day of the twelfth add up to
/// the year's length.
proof fn lemma_months_fill_year(y: int)
    ensures
        days_before_month(y, 12) + 31 == year_length(y),
{
    reveal_with_fuel(days_before_month, 13);
}

/// The calendar day right before `d`, or nothing when `d` is the first
/// representable date.
pub fn prev_date(d: &Date) -> (r: Option<Date>)
    requires
        valid_date(*d),
    ensures
        match r {
            Some(p) => valid_date(p) && day_index(p) == day_index(*d) - 1,
            None => *d == (Date { year: 0, month: 1, day: 1 }),
        },
{
    if d.day > 1 {
        Some(Date { year: d.year, month: d.month, day: d.day - 1 })
    } else if d.month > 1 {
        let p = Date { year: d.year, month: d.month - 1, day: month_length_exec(d.year, d.month - 1) };
        Some(p)
    } else if d.year > 0 {
        let p = Date { year: d.year - 1, month: 12, day: 31 };
        proof {
            lemma_months_fill_year(p.year as int);
        }
        Some(p)
    } else {
        None
    }
}

/// Signed whole-day distance `to - from`; zero for the same day.
pub fn days_between(from: Date, to: Date) -> (r: i64)
    requires
        valid_date(from),
        valid_date(to),
    ensures
        r == day_index(to) - day_index(from),
{
    let a = day_number(&from);
    let b = day_number(&to);
    (b as i64) - (a as i64)
}

/// Swapping the endpoints of a day count flips its sign, and the count
/// from a date to itself is zero. This is the law behind
/// `days_between`, whose result is exactly this difference of day
/// indices.
pub proof fn lemma_days_between_antisym(d1: Date, d2: Date)
    requires
        valid_date(d1),
        valid_date(d2),
    ensures
        day_index(d2) - day_index(d1) == -(day_index(d1) - day_index(d2)),
        day_index(d1) - day_index(d1) == 0int,
{
}

/// The millisecond offset that moves review identifiers by `days` whole
/// days. The bound keeps the product inside 64 bits.
pub fn calculate_id_offset(days: i64) -> (r: i64)
    requires
        -106_751_991_167 <= days <= 106_751_991_167,
    ensures
        r == days * 86_400_000,
{
    days * 86_400_000
}

/// The text form of a date: zero-padded `YYYY-MM-DD`.
pub open spec fn date_display(d: Date) -> Seq<char> {
    crate::utils::pad4(d.year as int) + seq!['-'] + crate::utils::pad2(d.month as int)
        + seq!['-'] + crate::utils::pad2(d.day as int)
}

/// Appends the `YYYY-MM-DD` form of a valid date to the string.
pub fn push_date(s: &mut String, d: &Date)
    requires
        valid_date(*d),
    ensures
        final(s)@ == old(s)@ + date_display(*d),
{
    crate::utils::push_pad4(s, d.year);
    s.push('-');
    crate::utils::push_pad2(s, d.month);
    s.push('-');
    crate::utils::push_pad2(s, d.day);
    proof {
        assert(s@ =~= old(s)@ + date_display(*d));
    }
}

pub open spec fn is_digit(c: char) -> bool {
    48 <= c as u32 <= 57
}

pub open spec fn digit_val(c: char) -> int {
    c as u32 - 48
}

/// The value of the two digits of `s` starting at `i`.
pub open spec fn num2(s: Seq<char>, i: int) -> int {
    10 * digit_val(s[i]) + digit_val(s[i + 1])
}

/// The value of the four digits of `s` starting at `i`.
pub open spec fn num4(s: Seq<char>, i: int) -> int {
    1000 * digit_val(s[i]) + 100 * digit_val(s[i + 1]) + 10 * digit_val(s[i + 2]) + digit_val(
        s[i + 3],
    )
}

/// The strict `YYYY-MM-DD` shape.
pub open spec fn dashed_format(s: Seq<char>) -> bool {
    &&& s.len() == 10
    &&& is_digit(s[0]) && is_digit(s[1]) && is_digit(s[2]) && is_digit(s[3])
    &&& s[4] == '-'
    &&& is_digit(s[5]) && is_digit(s[6])
    &&& s[7] == '-'
    &&& is_digit(s[8]) && is_digit(s[9])
}

pub open spec fn dashed_date(s: Seq<char>) -> Date {
    Date { year: num4(s, 0) as u16, month: num2(s, 5) as u8, day: num2(s, 8) as u8 }
}

/// The strict `YYYYMMDD` shape.
pub open spec fn compact_format(s: Seq<char>) -> bool {
    &&& s.len() == 8
    &&& forall|i: int| 0 <= i < 8 ==> is_digit(s[i])
}

pub open spec fn compact_date(s: Seq<char>) -> Date {
    Date { year: num4(s, 0) as u16, month: num2(s, 4) as u8, day: num2(s, 6) as u8 }
}

/// `c` spells the lowercase ASCII letter `l`, ignoring ASCII case.
pub open spec fn eq_ignore_ascii_case(c: char, l: char) -> bool {
    c == l || c as u32 + 32 == l as u32
}

/// The token spells `today`, ignoring ASCII case.
pub open spec fn keyword_today(s: Seq<char>) -> bool {
    &&& s.len() == 5
    &&& eq_ignore_ascii_case(s[0], 't')
    &&& eq_ignore_ascii_case(s[1], 'o')
    &&& eq_ignore_ascii_case(s[2], 'd')
    &&& eq_ignore_ascii_case(s[3], 'a')
    &&& eq_ignore_ascii_case(s[4], 'y')
}

/// The token spells `yesterday`, ignoring ASCII case.
pub open spec fn keyword_yesterday(s: Seq<char>) -> bool {
    &&& s.len() == 9
    &&& eq_ignore_ascii_case(s[0], 'y')
    &&& eq_ignore_ascii_case(s[1], 'e')
    &&& eq_ignore_ascii_case(s[2], 's')
    &&& eq_ignore_ascii_case(s[3], 't')
    &&& eq_ignore_ascii_case(s[4], 'e')
    &&& eq_ignore_ascii_case(s[5], 'r')
    &&& eq_ignore_ascii_case(s[6], 'd')
    &&& eq_ignore_ascii_case(s[7], 'a')
    &&& eq_ignore_ascii_case(s[8], 'y')
}

pub open spec fn format_err_msg() -> Seq<char> {
    "Invalid date format. Please use YYYY-MM-DD, YYYYMMDD, 'today', or 'yesterday'"@
}

pub open spec fn yesterday_err_msg() -> Seq<char> {
    "Failed to calculate yesterday's date"@
}

pub open spec fn clock_err_msg() -> Seq<char> {
    "Failed to determine the current date"@
}

/// What parsing a non-keyword token must return: the date a strict
/// dashed or compact form encodes when it is a real calendar date, and
/// the format error otherwise.
pub open spec fn parse_format_post(s: Seq<char>, r: Result<Date, String>) -> bool {
    &&& (dashed_format(s) && valid_date(dashed_date(s)) ==> r == Ok::<Date, String>(
        dashed_date(s),
    ))
    &&& (compact_format(s) && valid_date(compact_date(s)) ==> r == Ok::<Date, String>(
        compact_date(s),
    ))
    &&& (!(dashed_format(s) && valid_date(dashed_date(s))) && !(compact_format(s)
        && valid_date(compact_date(s))) ==> (r matches Err(m) && m@ == format_err_msg()))
}

fn eq_ic(c: char, l: char) -> (r: bool)
    ensures
        r == eq_ignore_ascii_case(c, l),
{
    c == l || (c as u32) + 32 == l as u32
}

/// Reads the digit character at position `i`.
fn digit_at(s: &str, i: usize) -> (r: u32)
    requires
        i < s@.len(),
        is_digit(s@[i as int]),
    ensures
        r == digit_val(s@[i as int]),
        r <= 9,
{
    (s.get_char(i) as u32) - 48
}

fn is_digit_at(s: &str, i: usize) -> (r: bool)
    requires
        i < s@.len(),
    ensures
        r == is_digit(s@[i as int]),
{
    let v = s.get_char(i) as u32;
    48 <= v && v <= 57
}

/// Turns four digits starting at `i` and two digit pairs starting at
/// `mi` and `di` into a date, if the result is a real calendar date.
fn date_from_digits(s: &str, yi: usize, mi: usize, di: usize) -> (r: Option<Date>)
    requires
        s@.len() <= usize::MAX,
        yi + 4 <= s@.len(),
        mi + 2 <= s@.len(),
        di + 2 <= s@.len(),
        is_digit(s@[yi as int]) && is_digit(s@[yi + 1]) && is_digit(s@[yi + 2]) && is_digit(
            s@[yi + 3],
        ),
        is_digit(s@[mi as int]) && is_digit(s@[mi + 1]),
        is_digit(s@[di as int]) && is_digit(s@[di + 1]),
    ensures
        match r {
            Some(d) => {
                &&& valid_date(d)
                &&& d.year == num4(s@, yi as int)
                &&& d.month == num2(s@, mi as int)
                &&& d.day == num2(s@, di as int)
            },
            None => !valid_date(
                Date {
                    year: num4(s@, yi as int) as u16,
                    month: num2(s@, mi as int) as u8,
                    day: num2(s@, di as int) as u8,
                },
            ),
        },
{
    let year = 1000 * digit_at(s, yi) + 100 * digit_at(s, yi + 1) + 10 * digit_at(s, yi + 2)
        + digit_at(s, yi + 3);
    let month = 10 * digit_at(s, mi) + digit_at(s, mi + 1);
    let day = 10 * digit_at(s, di) + digit_at(s, di + 1);
    Date::from_ymd_opt(year as i32, month, day)
}

/// Parses a date token against a given current date: `today` and
/// `yesterday` (ASCII case-insensitive), strict `YYYY-MM-DD`, strict
/// `YYYYMMDD`; everything else is a format error.
pub fn parse_date_with_today(date_str: &str, today: Date) -> (r: Result<Date, String>)
    requires
        valid_date(today),
    ensures
        r matches Ok(d) ==> valid_date(d),
        keyword_today(date_str@) ==> r == Ok::<Date, String>(today),
        keyword_yesterday(date_str@) && day_index(today) > 0 ==> (r matches Ok(d) && day_index(d)
            == day_index(today) - 1),
        keyword_yesterday(date_str@) && day_index(today) == 0 ==> (r matches Err(m) && m@
            == yesterday_err_msg()),
        !keyword_today(date_str@) && !keyword_yesterday(date_str@) ==> parse_format_post(
            date_str@,
            r,
        ),
{
    let n = date_str.unicode_len();
    if n == 5 && eq_ic(date_str.get_char(0), 't') && eq_ic(date_str.get_char(1), 'o') && eq_ic(
        date_str.get_char(2),
        'd',
    ) && eq_ic(date_str.get_char(3), 'a') && eq_ic(date_str.get_char(4), 'y') {
        return Ok(today);
    }
    if n == 9 && eq_ic(date_str.get_char(0), 'y') && eq_ic(date_str.get_char(1), 'e') && eq_ic(
        date_str.get_char(2),
        's',
    ) && eq_ic(date_str.get_char(3), 't') && eq_ic(date_str.get_char(4), 'e') && eq_ic(
        date_str.get_char(5),
        'r',
    ) && eq_ic(date_str.get_char(6), 'd') && eq_ic(date_str.get_char(7), 'a') && eq_ic(
        date_str.get_char(8),
        'y',
    ) {
        return match prev_date(&today) {
            Some(p) => {
                proof {
                    lemma_day_index_nonneg(p);
                }
                Ok(p)
            },
            None => Err(String::from_str("Failed to calculate yesterday's date")),
        };
    }
    if n == 10 && is_digit_at(date_str, 0) && is_digit_at(date_str, 1) && is_digit_at(date_str, 2)
        && is_digit_at(date_str, 3) && date_str.get_char(4) == '-' && is_digit_at(date_str, 5)
        && is_digit_at(date_str, 6) && date_str.get_char(7) == '-' && is_digit_at(date_str, 8)
        && is_digit_at(date_str, 9) {
        if let Some(d) = date_from_digits(date_str, 0, 5, 8) {
            return Ok(d);
        }
    }
    if n == 8 && is_digit_at(date_str, 0) && is_digit_at(date_str, 1) && is_digit_at(date_str, 2)
        && is_digit_at(date_str, 3) && is_digit_at(date_str, 4) && is_digit_at(date_str, 5)
        && is_digit_at(date_str, 6) && is_digit_at(date_str, 7) {
        if let Some(d) = date_from_digits(date_str, 0, 4, 6) {
            return Ok(d);
        }
    }
    Err(String::from_str("Invalid date format. Please use YYYY-MM-DD, YYYYMMDD, 'today', or 'yesterday'"))
}

/// Relies on chrono: `Local::now().date_naive()` with the `Datelike`
/// accessors `year`, `month` and `day`, which document a month in 1..=12
/// and a day in 1..=31.
#[verifier::external_body]
fn current_date_parts() -> (r: (i32, u32, u32))
    ensures
        1 <= r.1 <= 12,
        1 <= r.2 <= 31,
{
    let d = chrono::Local::now().date_naive();
    (chrono::Datelike::year(&d), chrono::Datelike::month(&d), chrono::Datelike::day(&d))
}

/// The current date of the local clock, when it falls in the
/// representable four-digit-year range.
pub fn current_date() -> (r: Option<Date>)
    ensures
        r matches Some(d) ==> valid_date(d),
{
    let (y, m, d) = current_date_parts();
    Date::from_ymd_opt(y, m, d)
}

/// Parses a date token, resolving `today` and `yesterday` against the
/// local clock. Non-keyword tokens are parsed exactly as
/// `parse_date_with_today` does.
pub fn parse_date(date_str: &str) -> (r: Result<Date, String>)
    ensures
        r matches Ok(d) ==> valid_date(d),
        !keyword_today(date_str@) && !keyword_yesterday(date_str@) ==> parse_format_post(
            date_str@,
            r,
        ),
        keyword_today(date_str@) || keyword_yesterday(date_str@) ==> (r matches Err(m) ==> m@
            == clock_err_msg() || m@ == yesterday_err_msg()),
{
    match current_date() {
        Some(today) => {
            proof {
                lemma_day_index_nonneg(today);
            }
            parse_date_with_today(date_str, today)
        },
        None => {
            // Only the keyword tokens need the clock; anything else
            // parses the same against any current date.
            let probe = Date { year: 2000, month: 1, day: 1 };
            let r = parse_date_with_today(date_str, probe);
            if keyword_probe(date_str) {
                Err(String::from_str("Failed to determine the current date"))
            } else {
                r
            }
        },
    }
}

/// True when the token is one of the clock-relative keywords.
fn keyword_probe(date_str: &str) -> (r: bool)
    ensures
        r == (keyword_today(date_str@) || keyword_yesterday(date_str@)),
{
    let n = date_str.unicode_len();
    if n == 5 {
        eq_ic(date_str.get_char(0), 't') && eq_ic(date_str.get_char(1), 'o') && eq_ic(
            date_str.get_char(2),
            'd',
        ) && eq_ic(date_str.get_char(3), 'a') && eq_ic(date_str.get_char(4), 'y')
    } else if n == 9 {
        eq_ic(date_str.get_char(0), 'y') && eq_ic(date_str.get_char(1), 'e') && eq_ic(
            date_str.get_char(2),
            's',
        ) && eq_ic(date_str.get_char(3), 't') && eq_ic(date_str.get_char(4), 'e') && eq_ic(
            date_str.get_char(5),
            'r',
        ) && eq_ic(date_str.get_char(6), 'd') && eq_ic(date_str.get_char(7), 'a') && eq_ic(
            date_str.get_char(8),
            'y',
        )
    } else {
        false
    }
}

pub open spec fn to_future_msg(to: Date) -> Seq<char> {
    "Invalid 'to_date': "@ + date_display(to) + " is in the future."@
}

pub open spec fn from_future_msg(from: Date) -> Seq<char> {
    "Invalid 'from_date': "@ + date_display(from) + " is in the future."@
}

pub open spec fn range_msg(from: Date, to: Date) -> Seq<char> {
    "Invalid date range: 'from_date' ("@ + date_display(from) + ") must be after 'to_date' ("@
        + date_display(to) + ")."@
}

/// The inputs a date-range check accepts: neither endpoint after the
/// current date, and `from` strictly after `to` when both are present.
pub open spec fn dates_acceptable(from_date: Option<Date>, to_date: Option<Date>, today: Date) -> bool {
    &&& (to_date matches Some(t) ==> day_index(t) <= day_index(today))
    &&& (from_date matches Some(f) ==> day_index(f) <= day_index(today))
    &&& (from_date matches Some(f) ==> (to_date matches Some(t) ==> day_index(f) > day_index(t)))
}

/// Checks an optional date window against the current date: rejects an
/// endpoint in the future and, when both endpoints are present, a
/// `from` date that does not fall strictly after the `to` date. The
/// error names the constraint that failed and the offending dates.
pub fn validate_dates(from_date: Option<Date>, to_date: Option<Date>, today: Date) -> (r: Result<
    (),
    String,
>)
    requires
        valid_date(today),
        from_date matches Some(f) ==> valid_date(f),
        to_date matches Some(t) ==> valid_date(t),
    ensures
        r is Ok <==> dates_acceptable(from_date, to_date, today),
        to_date is Some && day_index(to_date->Some_0) > day_index(today) ==> (r matches Err(m)
            && m@ == to_future_msg(to_date->Some_0)),
        (to_date is Some ==> day_index(to_date->Some_0) <= day_index(today)) && from_date is Some
            && day_index(from_date->Some_0) > day_index(today) ==> (r matches Err(m) && m@
            == from_future_msg(from_date->Some_0)),
        (to_date is Some ==> day_index(to_date->Some_0) <= day_index(today)) && (from_date is Some
            ==> day_index(from_date->Some_0) <= day_index(today)) && from_date is Some && to_date
            is Some && day_index(from_date->Some_0) <= day_index(to_date->Some_0) ==> (r
            matches Err(m) && m@ == range_msg(from_date->Some_0, to_date->Some_0)),
{
    if let Some(t) = to_date {
        if date_before(&today, &t) {
            let mut m = String::from_str("Invalid 'to_date': ");
            push_date(&mut m, &t);
            m.append(" is in the future.");
            return Err(m);
        }
    }
    if let Some(f) = from_date {
        if date_before(&today, &f) {
            let mut m = String::from_str("Invalid 'from_date': ");
            push_date(&mut m, &f);
            m.append(" is in the future.");
            return Err(m);
        }
    }
    if let (Some(f), Some(t)) = (from_date, to_date) {
        if !date_before(&t, &f) {
            let mut m = String::from_str("Invalid date range: 'from_date' (");
            push_date(&mut m, &f);
            m.append(") must be after 'to_date' (");
            push_date(&mut m, &t);
            m.append(").");
            return Err(m);
        }
    }
    Ok(())
}

} // verus!
