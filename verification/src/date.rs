//! Calendar dates in the proleptic Gregorian calendar, over the same range
//! of years that `chrono::NaiveDate` represents.
use std::fmt::Write;

use chrono::Datelike;
use vstd::prelude::*;

verus! {

/// First representable year.
pub const MIN_YEAR: i32 = -262143;

/// Last representable year.
pub const MAX_YEAR: i32 = 262142;

/// Leap years: divisible by 4, except centuries not divisible by 400.
pub open spec fn is_leap_year(y: int) -> bool {
    y % 4 == 0 && (y % 100 != 0 || y % 400 == 0)
}

/// Number of days in month `m` of year `y`.
pub open spec fn days_in_month(y: int, m: int) -> int {
    if m == 2 {
        if is_leap_year(y) { 29 } else { 28 }
    } else if m == 4 || m == 6 || m == 9 || m == 11 {
        30
    } else {
        31
    }
}

/// `(y, m, d)` names an existing, representable calendar day.
pub open spec fn valid_ymd(y: int, m: int, d: int) -> bool {
    &&& MIN_YEAR <= y <= MAX_YEAR
    &&& 1 <= m <= 12
    &&& 1 <= d <= days_in_month(y, m)
}

/// Chronological order on `(year, month, day)` triples.
pub open spec fn ymd_lt(a: (int, int, int), b: (int, int, int)) -> bool {
    ||| a.0 < b.0
    ||| a.0 == b.0 && a.1 < b.1
    ||| a.0 == b.0 && a.1 == b.1 && a.2 < b.2
}

/// The calendar day after `(y, m, d)`, or `None` past the last representable day.
pub open spec fn next_ymd(y: int, m: int, d: int) -> Option<(int, int, int)> {
    if d < days_in_month(y, m) {
        Some((y, m, d + 1))
    } else if m < 12 {
        Some((y, m + 1, 1))
    } else if y < MAX_YEAR {
        Some((y + 1, 1, 1))
    } else {
        None
    }
}

/// A calendar date.
#[derive(Clone, Copy, Debug, PartialEq, Eq, Structural)]
pub struct Date {
    year: i32,
    month: u32,
    day: u32,
}

impl Date {
    #[verifier::type_invariant]
    spec fn inv(self) -> bool {
        valid_ymd(self.year as int, self.month as int, self.day as int)
    }

    /// The year.
    pub closed spec fn y(self) -> int {
        self.year as int
    }

    /// The month, `1..=12`.
    pub closed spec fn m(self) -> int {
        self.month as int
    }

    /// The day of the month, starting at 1.
    pub closed spec fn d(self) -> int {
        self.day as int
    }

    /// The date as a `(year, month, day)` triple.
    pub open spec fn ymd(self) -> (int, int, int) {
        (self.y(), self.m(), self.d())
    }

    /// Two dates with the same year, month and day are the same date.
    pub proof fn lemma_ymd_injective(self, other: Date)
        ensures
            self.ymd() == other.ymd() ==> self == other,
    {
    }

    /// Builds a date, or `None` when the day does not exist or the year is out of range.
    pub fn from_ymd_opt(year: i32, month: u32, day: u32) -> (r: Option<Date>)
        ensures
            r is Some <==> valid_ymd(year as int, month as int, day as int),
            r matches Some(dt) ==> dt.ymd() == (year as int, month as int, day as int),
    {
        if year < MIN_YEAR || year > MAX_YEAR || month < 1 || month > 12 || day < 1 {
            return None;
        }
        if day > days_in_month_exec(year, month) {
            return None;
        }
        Some(Date { year, month, day })
    }

    /// The year.
    pub fn year(&self) -> (r: i32)
        ensures
            r as int == self.y(),
            MIN_YEAR <= r <= MAX_YEAR,
    {
        proof {
            use_type_invariant(self);
        }
        self.year
    }

    /// The month, `1..=12`.
    pub fn month(&self) -> (r: u32)
        ensures
            r as int == self.m(),
            1 <= r <= 12,
    {
        proof {
            use_type_invariant(self);
        }
        self.month
    }

    /// The day of the month.
    pub fn day(&self) -> (r: u32)
        ensures
            r as int == self.d(),
            1 <= r <= 31,
    {
        proof {
            use_type_invariant(self);
        }
        self.day
    }

    /// `self` is strictly earlier than `other`.
    pub fn is_before(&self, other: &Date) -> (r: bool)
        ensures
            r == ymd_lt(self.ymd(), other.ymd()),
    {
        if self.year != other.year {
            self.year < other.year
        } else if self.month != other.month {
            self.month < other.month
        } else {
            self.day < other.day
        }
    }

    /// The next calendar day, or `None` for the last representable day.
    pub fn succ_opt(&self) -> (r: Option<Date>)
        ensures
            match next_ymd(self.y(), self.m(), self.d()) {
                Some(t) => r matches Some(n) && n.ymd() == t,
                None => r is None,
            },
    {
        proof {
            use_type_invariant(self);
        }
        if self.day < days_in_month_exec(self.year, self.month) {
            Some(Date { year: self.year, month: self.month, day: self.day + 1 })
        } else if self.month < 12 {
            Some(Date { year: self.year, month: self.month + 1, day: 1 })
        } else if self.year < MAX_YEAR {
            Some(Date { year: self.year + 1, month: 1, day: 1 })
        } else {
            None
        }
    }
}

/// Leap-year test on representable years.
fn is_leap_year_exec(year: i32) -> (r: bool)
    requires
        MIN_YEAR <= year <= MAX_YEAR,
    ensures
        r == is_leap_year(year as int),
{
    // Shifting by a multiple of 400 keeps every divisibility test the same
    // and makes the value non-negative.
    let shifted: u32 = (year as i64 + 262400i64) as u32;
    proof {
        let y = year as int;
        let s = shifted as int;
        assert(s == y + 262400);
        assert(s % 4 == y % 4) by {
            vstd::arithmetic::div_mod::lemma_mod_add_multiples_vanish(y, 4);
            assert(262400int == 4 * 65600);
            vstd::arithmetic::div_mod::lemma_mod_multiples_vanish(65600, y, 4);
        }
        assert(s % 100 == y % 100) by {
            vstd::arithmetic::div_mod::lemma_mod_multiples_vanish(2624, y, 100);
        }
        assert(s % 400 == y % 400) by {
            vstd::arithmetic::div_mod::lemma_mod_multiples_vanish(656, y, 400);
        }
    }
    shifted % 4 == 0 && (shifted % 100 != 0 || shifted % 400 == 0)
}

/// Number of days in a month of a representable year.
fn days_in_month_exec(year: i32, month: u32) -> (r: u32)
    requires
        MIN_YEAR <= year <= MAX_YEAR,
    ensures
        r as int == days_in_month(year as int, month as int),
{
    if month == 2 {
        if is_leap_year_exec(year) { 29 } else { 28 }
    } else if month == 4 || month == 6 || month == 9 || month == 11 {
        30
    } else {
        31
    }
}


/// The dates from `start` to `end`, both included, one per calendar day and in
/// order; empty when `end` is earlier than `start`.
pub fn dates_in_range(start: &Date, end: &Date) -> (r: Vec<Date>)
    ensures
        r.len() == 0 <==> ymd_lt(end.ymd(), start.ymd()),
        r.len() > 0 ==> r[0] == *start && r[r.len() - 1] == *end,
        forall|i: int|
            0 <= i < r.len() - 1 ==> next_ymd(r[i].y(), r[i].m(), r[i].d()) == Some(
                #[trigger] r[i + 1].ymd(),
            ),
        forall|i: int|
            0 <= i < r.len() ==> !ymd_lt(#[trigger] r[i].ymd(), start.ymd()) && !ymd_lt(
                end.ymd(),
                r[i].ymd(),
            ),
{
    let mut out: Vec<Date> = Vec::new();
    if end.is_before(start) {
        return out;
    }
    proof {
        use_type_invariant(end);
    }
    let mut cur: Date = *start;
    loop
        invariant_except_break
            !ymd_lt(end.ymd(), cur.ymd()),
            out.len() > 0 ==> next_ymd(out[out.len() - 1].y(), out[out.len() - 1].m(), out[out.len() - 1].d()) == Some(cur.ymd()),
            out.len() == 0 ==> cur == *start,
        invariant
            valid_ymd(end.y(), end.m(), end.d()),
            !ymd_lt(end.ymd(), start.ymd()),
            !ymd_lt(cur.ymd(), start.ymd()),
            out.len() > 0 ==> out[0] == *start,
            forall|i: int|
                0 <= i < out.len() - 1 ==> next_ymd(out[i].y(), out[i].m(), out[i].d()) == Some(
                    #[trigger] out[i + 1].ymd(),
                ),
            forall|i: int|
                0 <= i < out.len() ==> !ymd_lt(#[trigger] out[i].ymd(), start.ymd()) && !ymd_lt(
                    end.ymd(),
                    out[i].ymd(),
                ),
        ensures
            out.len() > 0,
            out[out.len() - 1] == *end,
        decreases end.y() - cur.y(), 12 - cur.m(), 31 - cur.d(),
    {
        proof {
            use_type_invariant(cur);
        }
        let ghost prev = out@;
        out.push(cur);
        proof {
            assert forall|i: int| 0 <= i < out.len() - 1 implies next_ymd(out[i].y(), out[i].m(), out[i].d()) == Some(
                    #[trigger] out[i + 1].ymd()) by {
                if i < prev.len() - 1 {
                    assert(out[i] == prev[i] && out[i + 1] == prev[i + 1]);
                }
            }
        }
        if cur.year() == end.year() && cur.month() == end.month() && cur.day() == end.day() {
            proof {
                cur.lemma_ymd_injective(*end);
            }
            break;
        }
        let next = cur.succ_opt();
        match next {
            Some(n) => {
                proof {
                    lemma_next_not_past(cur.ymd(), end.ymd());
                }
                cur = n;
            },
            None => {
                proof {
                    lemma_next_not_past(cur.ymd(), end.ymd());
                }
                break;
            },
        }
    }
    out
}

/// For valid days `a` earlier than `b`, the day after `a` exists and is not later than `b`.
proof fn lemma_next_not_past(a: (int, int, int), b: (int, int, int))
    requires
        valid_ymd(a.0, a.1, a.2),
        valid_ymd(b.0, b.1, b.2),
        ymd_lt(a, b),
    ensures
        next_ymd(a.0, a.1, a.2) matches Some(n) && !ymd_lt(b, n) && valid_ymd(n.0, n.1, n.2),
{
}


/// Month lengths of the Gregorian calendar: February has 29 days in a leap
/// year and 28 otherwise; any other month has 31 days when its number is
/// odd up to July and even from August on, and 30 days otherwise.
pub proof fn law_month_lengths(y: int, m: int)
    requires
        1 <= m <= 12,
    ensures
        m == 2 ==> days_in_month(y, m) == (if is_leap_year(y) { 29int } else { 28int }),
        m != 2 ==> days_in_month(y, m) == 30 + (m + m / 8) % 2,
{
}

/// A year has 366 days when it is a leap year and 365 otherwise.
pub proof fn law_year_length(y: int)
    ensures
        days_in_month(y, 1) + days_in_month(y, 2) + days_in_month(y, 3) + days_in_month(y, 4)
            + days_in_month(y, 5) + days_in_month(y, 6) + days_in_month(y, 7) + days_in_month(y, 8)
            + days_in_month(y, 9) + days_in_month(y, 10) + days_in_month(y, 11) + days_in_month(y, 12)
            == (if is_leap_year(y) { 366int } else { 365int }),
{
}

/// Leap years repeat every 400 years; a year not divisible by 4 is never a
/// leap year, one divisible by 400 always is, and among the other
/// multiples of 4 the centuries are not.
pub proof fn law_leap_years(y: int)
    ensures
        is_leap_year(y) == is_leap_year(y + 400),
        y % 4 != 0 ==> !is_leap_year(y),
        y % 400 == 0 ==> is_leap_year(y),
        y % 4 == 0 && y % 100 != 0 ==> is_leap_year(y),
        y % 100 == 0 && y % 400 != 0 ==> !is_leap_year(y),
{
}

/// The day after the last day of a month is the first of the next month,
/// and every other day is followed by the next day of its month: no day of
/// the calendar is skipped, and the days of each month are exactly
/// `1..=days_in_month`.
pub proof fn law_next_day_steps_by_one(y: int, m: int, d: int)
    requires
        valid_ymd(y, m, d),
    ensures
        d < days_in_month(y, m) ==> next_ymd(y, m, d) == Some((y, m, d + 1)) && valid_ymd(y, m, d + 1),
        d == days_in_month(y, m) && m < 12 ==> next_ymd(y, m, d) == Some((y, m + 1, 1int)) && !valid_ymd(
            y,
            m,
            d + 1,
        ),
        d == days_in_month(y, m) && m == 12 && y < MAX_YEAR ==> next_ymd(y, m, d) == Some((y + 1, 1int, 1int)),
        valid_ymd(y, m, 28),
        m != 2 ==> valid_ymd(y, m, 30),
{
}

/// What `chrono` renders for the date `(year, month, day)` under the
/// strftime-style format `fmt`, or `None` when `fmt` holds a specifier that
/// `chrono` rejects.
pub uninterp spec fn chrono_format(year: i32, month: u32, day: u32, fmt: Seq<char>) -> Option<Seq<char>>;

/// The date that `chrono` reads from `s` under the format `fmt`, as
/// `(year, month, day)`, or `None` when `s` does not match.
pub uninterp spec fn chrono_parse(s: Seq<char>, fmt: Seq<char>) -> Option<(i32, u32, u32)>;

/// The views of an optional string.
pub open spec fn opt_view(o: Option<String>) -> Option<Seq<char>> {
    match o {
        Some(s) => Some(s@),
        None => None,
    }
}

/// Renders a date with `chrono::NaiveDate::format`; `None` where the
/// formatter reports an error for `fmt`.
#[verifier::external_body]
fn chrono_format_ymd(year: i32, month: u32, day: u32, fmt: &str) -> (r: Option<String>)
    requires
        valid_ymd(year as int, month as int, day as int),
    ensures
        opt_view(r) == chrono_format(year, month, day, fmt@),
{
    #[allow(deprecated)]
    let date = chrono::NaiveDate::from_ymd(year, month, day);
    let mut out = String::new();
    match write!(out, "{}", date.format(fmt)) {
        Ok(()) => Some(out),
        Err(_) => None,
    }
}

/// Renders a date with the `Display` impl of `chrono::NaiveDate`, which
/// its documentation gives as the same text as `format("%Y-%m-%d")`.
#[verifier::external_body]
fn chrono_display_ymd(year: i32, month: u32, day: u32) -> (r: String)
    requires
        valid_ymd(year as int, month as int, day as int),
    ensures
        chrono_format(year, month, day, "%Y-%m-%d"@) == Some(r@),
{
    #[allow(deprecated)]
    let date = chrono::NaiveDate::from_ymd(year, month, day);
    date.to_string()
}

/// Reads a date with `chrono::NaiveDate::parse_from_str`; every date that
/// `chrono` returns is a valid day of its representable range.
#[verifier::external_body]
fn chrono_parse_ymd(s: &str, fmt: &str) -> (r: Option<(i32, u32, u32)>)
    ensures
        r == chrono_parse(s@, fmt@),
        r matches Some(t) ==> valid_ymd(t.0 as int, t.1 as int, t.2 as int),
{
    match chrono::NaiveDate::parse_from_str(s, fmt) {
        Ok(d) => Some((d.year(), d.month(), d.day())),
        Err(_) => None,
    }
}

impl Date {
    /// The date rendered under the strftime-style format `fmt`, or `None`
    /// when `fmt` holds a specifier that the formatter rejects.
    pub fn format(&self, fmt: &str) -> (r: Option<String>)
        ensures
            opt_view(r) == chrono_format(self.y() as i32, self.m() as u32, self.d() as u32, fmt@),
    {
        proof {
            use_type_invariant(self);
        }
        chrono_format_ymd(self.year, self.month, self.day, fmt)
    }

    /// The date in ISO form, `YYYY-MM-DD`.
    pub fn to_iso_string(&self) -> (r: String)
        ensures
            chrono_format(self.y() as i32, self.m() as u32, self.d() as u32, "%Y-%m-%d"@) == Some(r@),
    {
        proof {
            use_type_invariant(self);
        }
        chrono_display_ymd(self.year, self.month, self.day)
    }

    /// Reads a date from `s` under the format `fmt`.
    pub fn parse_from_str(s: &str, fmt: &str) -> (r: Option<Date>)
        ensures
            match chrono_parse(s@, fmt@) {
                Some(t) => r matches Some(d) && d.ymd() == (t.0 as int, t.1 as int, t.2 as int),
                None => r is None,
            },
    {
        match chrono_parse_ymd(s, fmt) {
            Some(t) => Some(Date { year: t.0, month: t.1, day: t.2 }),
            None => None,
        }
    }
}

} // verus!
