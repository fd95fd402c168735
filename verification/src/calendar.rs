//! The date picker: which month, year or run of twelve years it shows, which
//! day is chosen, and which days may not be chosen.
//!
//! The header text of the picker ("March 2024", "2024" or "2016 - 2027") is
//! its state: navigation reads the shown month and year back from it.

use vstd::prelude::*;
use vstd::string::*;
use chrono::{Datelike, NaiveDate};
use crate::strings::{owned, concat2, concat3, push_char, chars_of, same_text, decimal,
    decimal_string, ws_words, split_whitespace, char_is_whitespace};
use crate::number_words::{all_ascii_digits, digits_value};

verus! {

/// The first year that chrono's dates reach.
pub const MIN_DATE_YEAR: i32 = -262143;

/// The last year that chrono's dates reach.
pub const MAX_DATE_YEAR: i32 = 262142;

/// A day of the proleptic Gregorian calendar.
#[derive(Clone, Copy, Debug, PartialEq, Eq, Structural)]
pub struct Date {
    pub year: i32,
    pub month: u32,
    pub day: u32,
}

/// Whether `year` is a leap year of the Gregorian calendar.
pub open spec fn is_leap_year(year: int) -> bool {
    year % 4 == 0 && (year % 100 != 0 || year % 400 == 0)
}

/// The number of days of month `month` (1 to 12) of `year`.
pub open spec fn month_length(year: int, month: int) -> int {
    if month == 2 {
        if is_leap_year(year) {
            29
        } else {
            28
        }
    } else if month == 4 || month == 6 || month == 9 || month == 11 {
        30
    } else {
        31
    }
}

/// Whether year, month and day name a day that chrono can hold.
pub open spec fn valid_date(year: int, month: int, day: int) -> bool {
    &&& MIN_DATE_YEAR <= year <= MAX_DATE_YEAR
    &&& 1 <= month <= 12
    &&& 1 <= day <= month_length(year, month)
}

impl Date {
    /// Whether the date names a day that chrono can hold.
    pub open spec fn is_valid(self) -> bool {
        valid_date(self.year as int, self.month as int, self.day as int)
    }
}

/// Whether `a` is an earlier day than `b`.
pub open spec fn date_before(a: Date, b: Date) -> bool {
    ||| a.year < b.year
    ||| a.year == b.year && a.month < b.month
    ||| a.year == b.year && a.month == b.month && a.day < b.day
}

/// Whether `a` is an earlier day than `b` (the order of chrono's dates).
pub fn is_before(a: Date, b: Date) -> (r: bool)
    ensures
        r == date_before(a, b),
{
    a.year < b.year || (a.year == b.year && a.month < b.month) || (a.year == b.year && a.month
        == b.month && a.day < b.day)
}

/// The days in the years before `year`, counted from 1 January of year 1.
pub open spec fn days_before_year(year: int) -> int {
    let p = year - 1;
    365 * p + p / 4 - p / 100 + p / 400
}

/// The days of the months of `year` before month `month`.
pub open spec fn days_before_month(year: int, month: int) -> int
    decreases month,
{
    if month <= 1 {
        0
    } else {
        days_before_month(year, month - 1) + month_length(year, month - 1)
    }
}

/// The weekday of a day as the number of days since the last Monday (1 January
/// of year 1 was a Monday).
pub open spec fn weekday_index(year: int, month: int, day: int) -> int {
    (days_before_year(year) + days_before_month(year, month) + day - 1) % 7
}

/// `NaiveDate::from_ymd_opt` of chrono: the day of `year`, `month` and `day`
/// when it exists in chrono's range of years, nothing otherwise.
#[verifier::external_body]
fn from_ymd(year: i32, month: u32, day: u32) -> (r: Option<Date>)
    ensures
        r == (if valid_date(year as int, month as int, day as int) {
            Some(Date { year, month, day })
        } else {
            None
        }),
{
    match NaiveDate::from_ymd_opt(year, month, day) {
        Some(d) => Some(Date { year: d.year(), month: d.month(), day: d.day() }),
        None => None,
    }
}

/// `Datelike::weekday` of chrono, as `Weekday::num_days_from_monday`: the
/// days since the last Monday.
#[verifier::external_body]
fn weekday_from_monday(date: Date) -> (r: u32)
    requires
        date.is_valid(),
    ensures
        r == weekday_index(date.year as int, date.month as int, date.day as int),
{
    NaiveDate::from_ymd_opt(date.year, date.month, date.day).unwrap().weekday().num_days_from_monday()
}

/// `zeros` copies of the digit zero.
pub open spec fn zeros(n: int) -> Seq<char> {
    Seq::new(if n > 0 { n as nat } else { 0 }, |i: int| '0')
}

/// `digits` padded on the left with zeros to at least `width` characters.
pub open spec fn zero_padded(digits: Seq<char>, width: int) -> Seq<char> {
    zeros(width - digits.len()) + digits
}

/// A year as chrono's `%Y` writes it: four digits at least, with a sign
/// before years outside 0 to 9999.
pub open spec fn chrono_year_text(year: int) -> Seq<char> {
    if 0 <= year <= 9999 {
        zero_padded(decimal(year as nat), 4)
    } else if year < 0 {
        seq!['-'] + zero_padded(decimal((-year) as nat), 4)
    } else {
        seq!['+'] + zero_padded(decimal(year as nat), 4)
    }
}

/// A day as chrono writes it with the pattern `%Y-%m-%d`.
pub open spec fn iso_date_text(date: Date) -> Seq<char> {
    chrono_year_text(date.year as int) + seq!['-'] + zero_padded(decimal(date.month as nat), 2)
        + seq!['-'] + zero_padded(decimal(date.day as nat), 2)
}

/// `NaiveDate::format` of chrono with the pattern `%Y-%m-%d`, written out
/// with `to_string`.
#[verifier::external_body]
fn format_iso(date: Date) -> (r: String)
    requires
        date.is_valid(),
    ensures
        r@ == iso_date_text(date),
{
    NaiveDate::from_ymd_opt(date.year, date.month, date.day).unwrap().format("%Y-%m-%d").to_string()
}

/// The year, month and day that chrono's `NaiveDate::parse_from_str` reads
/// from `text` with the pattern `%Y-%m-%d`, when it reads a date.
pub uninterp spec fn chrono_parsed_date(text: Seq<char>) -> Option<(i32, u32, u32)>;

/// `NaiveDate::parse_from_str` of chrono with the pattern `%Y-%m-%d`: the
/// date read is the one named `chrono_parsed_date`, and is a day that chrono
/// can hold.
#[verifier::external_body]
fn parse_iso(text: &str) -> (r: Option<Date>)
    ensures
        r == (match chrono_parsed_date(text@) {
            Some(t) => Some(Date { year: t.0, month: t.1, day: t.2 }),
            None => None,
        }),
        r matches Some(d) ==> d.is_valid(),
{
    match NaiveDate::parse_from_str(text, "%Y-%m-%d") {
        Ok(d) => Some(Date { year: d.year(), month: d.month(), day: d.day() }),
        Err(_) => None,
    }
}

/// The date that chrono reads from `text` with the pattern `%Y-%m-%d`.
pub open spec fn parsed_date(text: Seq<char>) -> Option<Date> {
    match chrono_parsed_date(text) {
        Some(t) => Some(Date { year: t.0, month: t.1, day: t.2 }),
        None => None,
    }
}

/// `Local::now().date_naive()` of chrono: today in the machine's time zone.
#[verifier::external_body]
fn local_today() -> (r: Date)
    ensures
        r.is_valid(),
{
    let d = chrono::Local::now().date_naive();
    Date { year: d.year(), month: d.month(), day: d.day() }
}

/// Today's date, read from the clock.
pub fn current_date() -> (r: Date)
    ensures
        r.is_valid(),
{
    local_today()
}

} // verus!

verus! {

/// An integer as `to_string` writes it: its decimal digits, after a `-` when
/// it is negative.
pub open spec fn int_text(n: int) -> Seq<char> {
    if n < 0 {
        seq!['-'] + decimal((-n) as nat)
    } else {
        decimal(n as nat)
    }
}

/// An integer as `format!` writes it with zero padding to `width`
/// characters (`{:0width$}`): the sign first, then the digits padded with
/// zeros.
pub open spec fn zero_padded_int(n: int, width: int) -> Seq<char> {
    if n < 0 {
        seq!['-'] + zero_padded(decimal((-n) as nat), width - 1)
    } else {
        zero_padded(decimal(n as nat), width)
    }
}

/// The text of an `i32` (`to_string`).
pub fn int_string(n: i32) -> (r: String)
    ensures
        r@ == int_text(n as int),
{
    proof {
        reveal_strlit("-");
    }
    if n < 0 {
        let m: i64 = n as i64;
        let digits = decimal_string((-m) as u64);
        concat2("-", digits.as_str())
    } else {
        decimal_string(n as u64)
    }
}

/// `digits` padded on the left with zeros to at least `width` characters.
fn pad_with_zeros(digits: &str, width: usize) -> (r: String)
    ensures
        r@ == zero_padded(digits@, width as int),
{
    let mut out = String::new();
    let n = digits.unicode_len();
    let mut k: usize = 0;
    let missing: usize = if width > n { width - n } else { 0 };
    while k < missing
        invariant
            k <= missing,
            missing == (if width > n { width - n } else { 0 }),
            n == digits@.len(),
            out@ == zeros(k as int),
        decreases missing - k,
    {
        push_char(&mut out, '0');
        k = k + 1;
        assert(out@ =~= zeros(k as int));
    }
    out.append(digits);
    assert(out@ =~= zero_padded(digits@, width as int));
    out
}

/// An `i32` written with zero padding to `width` characters (`{:0width$}`).
pub fn zero_padded_string(n: i32, width: usize) -> (r: String)
    requires
        width >= 1,
    ensures
        r@ == zero_padded_int(n as int, width as int),
{
    proof {
        reveal_strlit("-");
    }
    if n < 0 {
        let m: i64 = n as i64;
        let digits = decimal_string((-m) as u64);
        let padded = pad_with_zeros(digits.as_str(), width - 1);
        concat2("-", padded.as_str())
    } else {
        let digits = decimal_string(n as u64);
        pad_with_zeros(digits.as_str(), width)
    }
}

/// The value of a text as an `i32` (`str::parse::<i32>`): an optional sign
/// and then one or more ASCII digits, worth a value in the range of `i32`.
pub open spec fn parsed_i32(s: Seq<char>) -> Option<int> {
    let negative = s.len() > 0 && s[0] == '-';
    let digits = if s.len() > 0 && (s[0] == '-' || s[0] == '+') {
        s.drop_first()
    } else {
        s
    };
    if digits.len() > 0 && all_ascii_digits(digits) {
        let v = if negative {
            -(digits_value(digits) as int)
        } else {
            digits_value(digits) as int
        };
        if i32::MIN <= v <= i32::MAX {
            Some(v)
        } else {
            None
        }
    } else {
        None
    }
}

/// The value of a text as an `i32` (`str::parse::<i32>`), if it is one.
pub fn parse_i32(s: &str) -> (r: Option<i32>)
    ensures
        r == (match parsed_i32(s@) {
            Some(v) => Some(v as i32),
            None => None,
        }),
{
    let cs = chars_of(s);
    if cs.len() == 0 {
        return None;
    }
    let negative = cs[0] == '-';
    let start: usize = if cs[0] == '-' || cs[0] == '+' { 1 } else { 0 };
    let ghost digits = if s@[0] == '-' || s@[0] == '+' { s@.drop_first() } else { s@ };
    assert(digits =~= s@.subrange(start as int, s@.len() as int));
    if start >= cs.len() {
        return None;
    }
    let mut acc: i64 = 0;
    let mut i = start;
    while i < cs.len()
        invariant
            cs@ == s@,
            start <= i <= cs@.len(),
            digits == s@.subrange(start as int, s@.len() as int),
            s@.len() > 0,
            digits == (if s@[0] == '-' || s@[0] == '+' { s@.drop_first() } else { s@ }),
            negative == (s@[0] == '-'),
            all_ascii_digits(s@.subrange(start as int, i as int)),
            acc == digits_value(s@.subrange(start as int, i as int)),
            acc <= 2147483648,
        decreases cs@.len() - i,
    {
        let c = cs[i];
        let ghost prefix = s@.subrange(start as int, i as int);
        let ghost next = s@.subrange(start as int, i + 1);
        proof {
            assert(next.drop_last() =~= prefix);
            assert(next.last() == c);
        }
        if !('0' <= c && c <= '9') {
            proof {
                assert(digits[i - start] == c);
                assert(!all_ascii_digits(digits));
            }
            return None;
        }
        let d = (c as u32 - '0' as u32) as i64;
        acc = acc * 10 + d;
        assert(all_ascii_digits(next)) by {
            assert forall|k: int| 0 <= k < next.len() implies '0' <= #[trigger] next[k] <= '9' by {
                if k < prefix.len() {
                    assert(next[k] == prefix[k]);
                }
            }
        }
        if acc > 2147483648 {
            proof {
                assert(digits.take(i - start + 1) =~= next);
                if all_ascii_digits(digits) {
                    crate::speech_screen::lemma_digits_value_prefix_bound(digits, i - start + 1);
                    assert(digits_value(digits) > 2147483648);
                }
            }
            return None;
        }
        i = i + 1;
    }
    assert(s@.subrange(start as int, i as int) =~= digits);
    if negative {
        Some((-acc) as i32)
    } else if acc > 2147483647 {
        None
    } else {
        Some(acc as i32)
    }
}

/// The name of month `i` counted from 0 for January.
pub open spec fn month_name(i: int) -> Seq<char> {
    if i == 0 {
        "January"@
    } else if i == 1 {
        "February"@
    } else if i == 2 {
        "March"@
    } else if i == 3 {
        "April"@
    } else if i == 4 {
        "May"@
    } else if i == 5 {
        "June"@
    } else if i == 6 {
        "July"@
    } else if i == 7 {
        "August"@
    } else if i == 8 {
        "September"@
    } else if i == 9 {
        "October"@
    } else if i == 10 {
        "November"@
    } else {
        "December"@
    }
}

/// The name of month `i` counted from 0 for January.
pub fn month_label(i: usize) -> (r: &'static str)
    requires
        i < 12,
    ensures
        r@ == month_name(i as int),
{
    if i == 0 {
        "January"
    } else if i == 1 {
        "February"
    } else if i == 2 {
        "March"
    } else if i == 3 {
        "April"
    } else if i == 4 {
        "May"
    } else if i == 5 {
        "June"
    } else if i == 6 {
        "July"
    } else if i == 7 {
        "August"
    } else if i == 8 {
        "September"
    } else if i == 9 {
        "October"
    } else if i == 10 {
        "November"
    } else {
        "December"
    }
}

/// The first month from month `i` on whose name is `word`.
pub open spec fn month_position_from(word: Seq<char>, i: int) -> Option<int>
    decreases 12 - i,
{
    if i >= 12 || i < 0 {
        None
    } else if month_name(i) == word {
        Some(i)
    } else {
        month_position_from(word, i + 1)
    }
}

/// The month, counted from 0, whose name is `word`.
pub open spec fn month_position(word: Seq<char>) -> Option<int> {
    month_position_from(word, 0)
}

/// The month, counted from 0, whose name is `word`, if there is one.
pub fn find_month(word: &str) -> (r: Option<usize>)
    ensures
        r == (match month_position(word@) {
            Some(i) => Some(i as usize),
            None => None,
        }),
{
    let mut i: usize = 0;
    while i < 12
        invariant
            i <= 12,
            month_position(word@) == month_position_from(word@, i as int),
        decreases 12 - i,
    {
        if same_text(month_label(i), word) {
            return Some(i);
        }
        i = i + 1;
    }
    None
}

/// The header of a month: its name and its year ("March 2024").
pub open spec fn month_header(i: int, year: int) -> Seq<char> {
    month_name(i) + " "@ + int_text(year)
}

/// The header of a run of years: its first and its last year
/// ("2016 - 2027").
pub open spec fn range_header(first: int, last: int) -> Seq<char> {
    int_text(first) + " - "@ + int_text(last)
}

/// The month (counted from 0) and the year that a header shows: its first
/// word must be a month's name and its second word a year.
pub open spec fn shown_month(header: Seq<char>) -> Option<(int, int)> {
    let words = ws_words(header);
    if words.len() >= 2 {
        match parsed_i32(words[1]) {
            Some(year) => match month_position(words[0]) {
                Some(i) => Some((i, year)),
                None => None,
            },
            None => None,
        }
    } else {
        None
    }
}

/// The month (counted from 0) and the year that a header shows, if it shows
/// one.
pub fn read_shown_month(header: &str) -> (r: Option<(usize, i32)>)
    ensures
        r == (match shown_month(header@) {
            Some(p) => Some((p.0 as usize, p.1 as i32)),
            None => None,
        }),
        r matches Some(p) ==> p.0 < 12 && shown_month(header@) == Some((p.0 as int, p.1 as int)),
{
    proof {
        lemma_shown_month_bounds(header@);
    }
    let words = split_whitespace(header);
    proof {
        assert(words.deep_view().len() == words@.len());
    }
    if words.len() < 2 {
        return None;
    }
    assert(words.deep_view()[1] == words@[1]@);
    assert(words.deep_view()[0] == words@[0]@);
    match parse_i32(words[1].as_str()) {
        Some(year) => match find_month(words[0].as_str()) {
            Some(i) => {
                proof {
                    lemma_month_position_below(words@[0]@, 0);
                }
                Some((i, year))
            },
            None => None,
        },
        None => None,
    }
}

/// A header shows one of the twelve months and a year within `i32`.
proof fn lemma_shown_month_bounds(header: Seq<char>)
    ensures
        shown_month(header) matches Some(p) ==> 0 <= p.0 < 12 && i32::MIN <= p.1 <= i32::MAX,
{
    let words = ws_words(header);
    if words.len() >= 2 {
        lemma_month_position_below(words[0], 0);
    }
}

/// A month found by name is one of the twelve.
proof fn lemma_month_position_below(word: Seq<char>, i: int)
    ensures
        month_position_from(word, i) matches Some(k) ==> 0 <= k < 12,
    decreases 12 - i,
{
    if 0 <= i < 12 && month_name(i) != word {
        lemma_month_position_below(word, i + 1);
    }
}

} // verus!

verus! {

/// What the picker shows: the days of a month, the months of a year, or a
/// run of twelve years.
#[derive(Clone, Copy, Debug, PartialEq, Eq, Structural)]
pub enum ViewType {
    Month,
    Year,
    Years12,
}

/// The settings of a date picker.
pub struct CalendarProps {
    /// The padding classes (`"py-2 px-4"` unless set).
    pub padding: String,
    /// The day shown first, as `YYYY-MM-DD`.
    pub default_date: Option<String>,
    /// Whether days before the minimum date may not be chosen.
    pub prevent_back_date: bool,
    /// The first day that may be chosen, as `YYYY-MM-DD` (today unless set).
    pub minimum_date: Option<String>,
}

impl CalendarProps {
    /// The settings with nothing set.
    pub fn new() -> (r: Self)
        ensures
            r.padding@ == "py-2 px-4"@,
            r.default_date is None,
            !r.prevent_back_date,
            r.minimum_date is None,
    {
        CalendarProps {
            padding: owned("py-2 px-4"),
            default_date: None,
            prevent_back_date: false,
            minimum_date: None,
        }
    }
}

/// The state of a date picker.
pub struct CalendarState {
    /// The header: the month and year, the year, or the run of years shown.
    pub current_month: String,
    /// The chosen day.
    pub current_selected_day: Option<Date>,
    /// The number of days of the month shown.
    pub month_days_count: usize,
    /// What is shown.
    pub view_type: ViewType,
    /// The first day of the month shown, as `YYYY-MM-01`.
    pub current_selected_month: String,
    /// The number of empty cells before the first day of the month shown.
    pub first_day_position: u32,
    /// Today's day of the month when the month shown is the current one,
    /// 0 otherwise.
    pub today_date: usize,
    /// The first day that may be chosen, as `YYYY-MM-DD`.
    pub minimum_date: Option<String>,
    /// Whether days before the minimum date may not be chosen.
    pub prevent_back_date: bool,
    /// The run of years shown in the years view.
    pub years_12: Vec<i32>,
}

/// The header shown for `date` in view `view`; the header of the years view
/// is kept when no run of years is known.
pub open spec fn header_for(view: ViewType, years: Seq<i32>, date: Date, old_header: Seq<char>) -> Seq<char> {
    match view {
        ViewType::Month => month_header(date.month - 1, date.year as int),
        ViewType::Year => int_text(date.year as int),
        ViewType::Years12 => if years.len() > 0 {
            range_header(years[0] as int, years.last() as int)
        } else {
            old_header
        },
    }
}

/// The first day of the month of `date`, as `YYYY-MM-01`.
pub open spec fn month_start_text(date: Date) -> Seq<char> {
    zero_padded_int(date.year as int, 4) + "-"@ + zero_padded_int(date.month as int, 2) + "-01"@
}

/// The picker `new` shows the month of `date` as `old` would: the header,
/// the length of the month, its first day and its weekday, and today's day
/// follow `date`; the view, the run of years and the settings are kept.
pub open spec fn date_fields(old: CalendarState, new: CalendarState, date: Date, today: Date) -> bool {
    &&& new.current_month@ == header_for(old.view_type, old.years_12@, date, old.current_month@)
    &&& new.month_days_count == month_length(date.year as int, date.month as int)
    &&& new.current_selected_month@ == month_start_text(date)
    &&& new.first_day_position == weekday_index(date.year as int, date.month as int, 1)
    &&& new.today_date == (if date.year == today.year && date.month == today.month {
        today.day as int
    } else {
        0
    })
    &&& new.years_12@ == old.years_12@
    &&& new.minimum_date == old.minimum_date
    &&& new.prevent_back_date == old.prevent_back_date
}

/// The picker `new` is `old` turned to the month of `date`; `date` becomes
/// the chosen day when none was chosen.
pub open spec fn shows_date(old: CalendarState, new: CalendarState, date: Date, today: Date) -> bool {
    &&& date_fields(old, new, date, today)
    &&& new.current_selected_day == (if old.current_selected_day is None {
        Some(date)
    } else {
        old.current_selected_day
    })
    &&& new.view_type == old.view_type
}

/// The twelve years from `first` on.
pub open spec fn years_from(first: int) -> Seq<i32> {
    Seq::new(12, |k: int| (first + k) as i32)
}

/// The twelve years a run starting (going forward) or ending (going
/// backward) at `start_year` holds, in increasing order.
pub open spec fn year_run(start_year: int, forward: bool) -> Seq<i32> {
    if forward {
        years_from(start_year)
    } else {
        years_from(start_year - 11)
    }
}

/// Whether a run of twelve years from `start_year` in the given direction
/// stays within `i32`.
pub open spec fn year_run_fits(start_year: int, forward: bool) -> bool {
    if forward {
        start_year + 11 <= i32::MAX
    } else {
        start_year - 11 >= i32::MIN
    }
}

impl CalendarState {
    /// Turns the picker to the month of `date`.
    pub fn set_calendar_date(&mut self, date: Date, today: Date)
        requires
            date.is_valid(),
        ensures
            shows_date(*old(self), *final(self), date, today),
    {
        proof {
            reveal_strlit("-");
        }
        match self.view_type {
            ViewType::Month => {
                let name = month_label((date.month - 1) as usize);
                let year = int_string(date.year);
                self.current_month = concat3(name, " ", year.as_str());
            },
            ViewType::Year => {
                self.current_month = int_string(date.year);
            },
            ViewType::Years12 => {
                let n = self.years_12.len();
                if n > 0 {
                    let first = int_string(self.years_12[0]);
                    let last = int_string(self.years_12[n - 1]);
                    self.current_month = concat3(first.as_str(), " - ", last.as_str());
                }
            },
        }
        self.month_days_count = days_in_month(date.year, date.month);
        let year_text = zero_padded_string(date.year, 4);
        let month_text = zero_padded_string(date.month as i32, 2);
        let mut start = concat3(year_text.as_str(), "-", month_text.as_str());
        start.append("-01");
        self.current_selected_month = start;
        if self.current_selected_day.is_none() {
            self.current_selected_day = Some(date);
        }
        let first_day = match from_ymd(date.year, date.month, 1) {
            Some(d) => d,
            None => date,
        };
        self.first_day_position = weekday_from_monday(first_day);
        if date.year == today.year && date.month == today.month {
            self.today_date = today.day as usize;
        } else {
            self.today_date = 0;
        }
    }

    /// Sets the run of twelve years shown: from `start_year` on when going
    /// forward, up to `start_year` when going backward.
    pub fn set_current_12_years(&mut self, start_year: i32, forward: bool)
        requires
            year_run_fits(start_year as int, forward),
        ensures
            final(self).years_12@ == year_run(start_year as int, forward),
            final(self).current_month == old(self).current_month,
            final(self).current_selected_day == old(self).current_selected_day,
            final(self).month_days_count == old(self).month_days_count,
            final(self).view_type == old(self).view_type,
            final(self).current_selected_month == old(self).current_selected_month,
            final(self).first_day_position == old(self).first_day_position,
            final(self).today_date == old(self).today_date,
            final(self).minimum_date == old(self).minimum_date,
            final(self).prevent_back_date == old(self).prevent_back_date,
    {
        let mut list: Vec<i32> = Vec::new();
        let first: i32 = if forward { start_year } else { start_year - 11 };
        let mut k: i32 = 0;
        while k < 12
            invariant
                0 <= k <= 12,
                first as int + 11 <= i32::MAX,
                list@ == years_from(first as int).take(k as int),
            decreases 12 - k,
        {
            list.push(first + k);
            k = k + 1;
            assert(list@ =~= years_from(first as int).take(k as int));
        }
        assert(years_from(first as int).take(12) =~= years_from(first as int));
        self.years_12 = list;
    }
}

/// The number of days of month `month` of `year`.
pub fn days_in_month(year: i32, month: u32) -> (r: usize)
    ensures
        r == month_length(year as int, month as int),
{
    if month == 2 {
        if year % 4 == 0 && (year % 100 != 0 || year % 400 == 0) {
            29
        } else {
            28
        }
    } else if month == 4 || month == 6 || month == 9 || month == 11 {
        30
    } else {
        31
    }
}

} // verus!

verus! {

/// The text of an optional string.
pub open spec fn opt_text(o: Option<String>) -> Option<Seq<char>> {
    match o {
        Some(s) => Some(s@),
        None => None,
    }
}

/// A copy of an optional string.
fn copy_opt(o: &Option<String>) -> (r: Option<String>)
    ensures
        opt_text(r) == opt_text(*o),
{
    match o {
        Some(s) => Some(owned(s.as_str())),
        None => None,
    }
}

/// The day shown first: the default date when chrono reads one from it,
/// today otherwise.
pub open spec fn initial_date(props: CalendarProps, today: Date) -> Date {
    match props.default_date {
        Some(s) => match parsed_date(s@) {
            Some(d) => d,
            None => today,
        },
        None => today,
    }
}

/// The picker `r` is a picker just opened with `props` on `today`: it shows
/// the month of the initial day, which is chosen, and the twelve years from
/// its year.
pub open spec fn initialized(props: CalendarProps, r: CalendarState, today: Date) -> bool {
    let d = initial_date(props, today);
    &&& r.current_month@ == month_header(d.month - 1, d.year as int)
    &&& r.current_selected_day == Some(d)
    &&& r.month_days_count == month_length(d.year as int, d.month as int)
    &&& r.current_selected_month@ == month_start_text(d)
    &&& r.first_day_position == weekday_index(d.year as int, d.month as int, 1)
    &&& r.today_date == (if d.year == today.year && d.month == today.month {
        today.day as int
    } else {
        0
    })
    &&& r.view_type == ViewType::Month
    &&& r.years_12@ == years_from(d.year as int)
    &&& opt_text(r.minimum_date) == opt_text(props.minimum_date)
    &&& r.prevent_back_date == props.prevent_back_date
}

/// The first day that may be chosen: the minimum date when chrono reads one
/// from it, today otherwise.
pub open spec fn minimum_day(minimum: Option<Seq<char>>, today: Date) -> Date {
    match minimum {
        Some(t) => match parsed_date(t) {
            Some(d) => d,
            None => today,
        },
        None => today,
    }
}

/// Whether `date` may not be chosen: only when back dates are prevented, and
/// then for the days before the minimum day.
pub open spec fn day_disabled(s: CalendarState, date: Date, today: Date) -> bool {
    s.prevent_back_date && date_before(date, minimum_day(opt_text(s.minimum_date), today))
}

/// The day `day` of the month a header shows, when the header shows a month
/// and that day exists.
pub open spec fn shown_day(header: Seq<char>, day: usize) -> Option<Date> {
    match shown_month(header) {
        Some(p) => if valid_date(p.1, p.0 + 1, (day as u32) as int) {
            Some(Date { year: p.1 as i32, month: (p.0 + 1) as u32, day: day as u32 })
        } else {
            None
        },
        None => None,
    }
}

/// Whether day `day` of the month the header shows exists and is the chosen
/// day.
pub open spec fn day_selected(s: CalendarState, day: usize) -> bool {
    match (s.current_selected_day, shown_day(s.current_month@, day)) {
        (Some(chosen), Some(d)) => chosen == d,
        _ => false,
    }
}

/// The year a header ends with; `fallback` when its last word is not a
/// year or it has no words.
pub open spec fn header_year(header: Seq<char>, fallback: int) -> int {
    let words = ws_words(header);
    if words.len() > 0 {
        match parsed_i32(words.last()) {
            Some(y) => y,
            None => fallback,
        }
    } else {
        fallback
    }
}

/// The month next to month `i` (counted from 0) of `year`, forward or
/// backward, as year and month counted from 1.
pub open spec fn neighbour_month(i: int, year: int, forward: bool) -> (int, int) {
    if forward {
        if i == 11 {
            (year + 1, 1)
        } else {
            (year, i + 2)
        }
    } else {
        if i == 0 {
            (year - 1, 12)
        } else {
            (year, i)
        }
    }
}

/// Everything but the header and the run of years is kept.
pub open spec fn same_but_years(old: CalendarState, new: CalendarState) -> bool {
    &&& new.current_selected_day == old.current_selected_day
    &&& new.month_days_count == old.month_days_count
    &&& new.view_type == old.view_type
    &&& new.current_selected_month == old.current_selected_month
    &&& new.first_day_position == old.first_day_position
    &&& new.today_date == old.today_date
    &&& new.minimum_date == old.minimum_date
    &&& new.prevent_back_date == old.prevent_back_date
}

/// The picker `new` is `old` turned one page forward or backward: to the
/// next or previous month, year, or run of twelve years; nothing changes
/// when the header does not show what the view needs or the new month is
/// outside chrono's range.
pub open spec fn page_turned(old: CalendarState, new: CalendarState, forward: bool, today: Date) -> bool {
    match old.view_type {
        ViewType::Month => match shown_month(old.current_month@) {
            Some(p) => {
                let n = neighbour_month(p.0, p.1, forward);
                if valid_date(n.0, n.1, 1) {
                    shows_date(old, new, Date { year: n.0 as i32, month: n.1 as u32, day: 1 }, today)
                } else {
                    new == old
                }
            },
            None => new == old,
        },
        ViewType::Year => match parsed_i32(old.current_month@) {
            Some(y) => {
                let ny = if forward {
                    y + 1
                } else {
                    y - 1
                };
                if valid_date(ny, 1, 1) {
                    shows_date(old, new, Date { year: ny as i32, month: 1, day: 1 }, today)
                } else {
                    new == old
                }
            },
            None => new == old,
        },
        ViewType::Years12 => if old.years_12@.len() > 0 {
            let run = if forward {
                years_from(old.years_12@.last() + 1)
            } else {
                years_from(old.years_12@[0] - 12)
            };
            &&& new.years_12@ == run
            &&& new.current_month@ == range_header(run[0] as int, run.last() as int)
            &&& same_but_years(old, new)
        } else {
            new == old
        },
    }
}

/// Whether turning the run of years a page stays within `i32`.
pub open spec fn page_fits(s: CalendarState, forward: bool) -> bool {
    s.view_type == ViewType::Years12 && s.years_12@.len() > 0 ==> if forward {
        s.years_12@.last() + 12 <= i32::MAX
    } else {
        s.years_12@[0] - 12 >= i32::MIN
    }
}

impl CalendarState {
    /// The picker opened with `props` on `today`.
    pub fn initialize(props: &CalendarProps, today: Date) -> (r: Self)
        requires
            today.is_valid(),
        ensures
            initialized(*props, r, today),
    {
        let initial = match &props.default_date {
            Some(text) => match parse_iso(text.as_str()) {
                Some(d) => d,
                None => today,
            },
            None => today,
        };
        let mut state = CalendarState {
            current_month: String::new(),
            current_selected_day: None,
            month_days_count: 31,
            view_type: ViewType::Month,
            current_selected_month: String::new(),
            first_day_position: 0,
            today_date: 0,
            minimum_date: copy_opt(&props.minimum_date),
            prevent_back_date: props.prevent_back_date,
            years_12: Vec::new(),
        };
        state.set_calendar_date(initial, today);
        state.set_current_12_years(initial.year, true);
        state
    }

    /// The picker opened with `props`, on the day the clock gives.
    pub fn new(props: &CalendarProps) -> (r: Self)
        ensures
            exists|today: Date| today.is_valid() && #[trigger] initialized(*props, r, today),
    {
        let today = local_today();
        let r = Self::initialize(props, today);
        assert(today.is_valid() && initialized(*props, r, today));
        r
    }

    /// The first day that may be chosen.
    pub fn get_minimum_date(&self, today: Date) -> (r: Date)
        ensures
            r == minimum_day(opt_text(self.minimum_date), today),
            today.is_valid() ==> r.is_valid(),
    {
        match &self.minimum_date {
            Some(text) => match parse_iso(text.as_str()) {
                Some(d) => d,
                None => today,
            },
            None => today,
        }
    }

    /// Whether `date` may not be chosen.
    pub fn disable_date(&self, date: Date, today: Date) -> (r: bool)
        ensures
            r == day_disabled(*self, date, today),
    {
        if !self.prevent_back_date {
            return false;
        }
        let min_date = self.get_minimum_date(today);
        is_before(date, min_date)
    }

    /// The day `day` of the month the header shows, if it shows one and the
    /// day exists.
    fn day_of_shown_month(&self, day: usize) -> (r: Option<Date>)
        ensures
            r == shown_day(self.current_month@, day),
            r matches Some(d) ==> d.is_valid(),
    {
        match read_shown_month(self.current_month.as_str()) {
            Some(p) => from_ymd(p.1, (p.0 as u32) + 1, day as u32),
            None => None,
        }
    }

    /// Chooses month `month_index` (counted from 1) of the year the header
    /// ends with (this year when it ends with none) and shows its days.
    pub fn select_year_month(&mut self, month_index: usize, today: Date)
        ensures
            ({
                let y = header_year(old(self).current_month@, today.year as int);
                let m = month_index as u32;
                if valid_date(y, m as int, 1) {
                    let d = Date { year: y as i32, month: m, day: 1 };
                    &&& date_fields(*old(self), *final(self), d, today)
                    &&& final(self).current_selected_day == Some(d)
                    &&& final(self).view_type == ViewType::Month
                } else {
                    *final(self) == *old(self)
                }
            }),
    {
        let words = split_whitespace(self.current_month.as_str());
        let n = words.len();
        let current_year: i32 = if n > 0 {
            assert(words.deep_view()[n - 1] == words@[n - 1]@);
            match parse_i32(words[n - 1].as_str()) {
                Some(y) => y,
                None => today.year,
            }
        } else {
            today.year
        };
        match from_ymd(current_year, month_index as u32, 1) {
            Some(selected_month) => {
                self.set_calendar_date(selected_month, today);
                self.current_selected_day = Some(selected_month);
                self.view_type = ViewType::Month;
            },
            None => {},
        }
    }

    /// Shows the months of `year`.
    pub fn select_year(&mut self, year: i32)
        ensures
            final(self).current_month@ == int_text(year as int),
            final(self).view_type == ViewType::Year,
            final(self).years_12 == old(self).years_12,
            final(self).current_selected_day == old(self).current_selected_day,
            final(self).month_days_count == old(self).month_days_count,
            final(self).current_selected_month == old(self).current_selected_month,
            final(self).first_day_position == old(self).first_day_position,
            final(self).today_date == old(self).today_date,
            final(self).minimum_date == old(self).minimum_date,
            final(self).prevent_back_date == old(self).prevent_back_date,
    {
        self.current_month = int_string(year);
        self.view_type = ViewType::Year;
    }

    /// Whether day `day` of the month shown is the chosen day.
    pub fn date_is_selected(&self, day: usize) -> (r: bool)
        ensures
            r == day_selected(*self, day),
    {
        match self.current_selected_day {
            Some(chosen) => match self.day_of_shown_month(day) {
                Some(d) => d == chosen,
                None => false,
            },
            None => false,
        }
    }

    /// Whether day `day` of the month shown may not be chosen.
    pub fn day_is_disabled(&self, day: usize, today: Date) -> (r: bool)
        ensures
            r == (match shown_day(self.current_month@, day) {
                Some(d) => day_disabled(*self, d, today),
                None => false,
            }),
    {
        match self.day_of_shown_month(day) {
            Some(d) => self.disable_date(d, today),
            None => false,
        }
    }

    /// Chooses day `day` of the month shown, unless it does not exist or may
    /// not be chosen; the chosen day is given back as `YYYY-MM-DD`.
    pub fn select_date(&mut self, day: usize, today: Date) -> (r: Option<String>)
        ensures
            match shown_day(old(self).current_month@, day) {
                Some(d) => if !day_disabled(*old(self), d, today) {
                    &&& r matches Some(text) && text@ == iso_date_text(d)
                    &&& final(self).current_selected_day == Some(d)
                    &&& *final(self) == (CalendarState { current_selected_day: Some(d), ..*old(self) })
                } else {
                    r is None && *final(self) == *old(self)
                },
                None => r is None && *final(self) == *old(self),
            },
    {
        match self.day_of_shown_month(day) {
            Some(d) => {
                if !self.disable_date(d, today) {
                    self.current_selected_day = Some(d);
                    Some(format_iso(d))
                } else {
                    None
                }
            },
            None => None,
        }
    }

    /// Switches to the run of years, whose header is shown when it is known;
    /// the years view stays as it is.
    pub fn select_view(&mut self)
        ensures
            old(self).view_type == ViewType::Years12 ==> *final(self) == *old(self),
            old(self).view_type != ViewType::Years12 ==> {
                &&& final(self).view_type == ViewType::Years12
                &&& final(self).current_month@ == (if old(self).years_12@.len() > 0 {
                    range_header(old(self).years_12@[0] as int, old(self).years_12@.last() as int)
                } else {
                    old(self).current_month@
                })
                &&& final(self).years_12 == old(self).years_12
                &&& final(self).current_selected_day == old(self).current_selected_day
                &&& final(self).month_days_count == old(self).month_days_count
                &&& final(self).current_selected_month == old(self).current_selected_month
                &&& final(self).first_day_position == old(self).first_day_position
                &&& final(self).today_date == old(self).today_date
                &&& final(self).minimum_date == old(self).minimum_date
                &&& final(self).prevent_back_date == old(self).prevent_back_date
            },
    {
        match self.view_type {
            ViewType::Years12 => {},
            _ => {
                self.view_type = ViewType::Years12;
                let n = self.years_12.len();
                if n > 0 {
                    let first = int_string(self.years_12[0]);
                    let last = int_string(self.years_12[n - 1]);
                    self.current_month = concat3(first.as_str(), " - ", last.as_str());
                }
            },
        }
    }

    /// Turns one page forward or backward.
    fn turn_page(&mut self, forward: bool, today: Date)
        requires
            page_fits(*old(self), forward),
        ensures
            page_turned(*old(self), *final(self), forward, today),
    {
        match self.view_type {
            ViewType::Month => {
                match read_shown_month(self.current_month.as_str()) {
                    Some(p) => {
                        let i = p.0;
                        let year = p.1;
                        if forward {
                            if i == 11 {
                                if year < MAX_DATE_YEAR {
                                    if let Some(d) = from_ymd(year + 1, 1, 1) {
                                        self.set_calendar_date(d, today);
                                    }
                                }
                            } else if let Some(d) = from_ymd(year, (i as u32) + 2, 1) {
                                self.set_calendar_date(d, today);
                            }
                        } else {
                            if i == 0 {
                                if year > MIN_DATE_YEAR {
                                    if let Some(d) = from_ymd(year - 1, 12, 1) {
                                        self.set_calendar_date(d, today);
                                    }
                                }
                            } else if let Some(d) = from_ymd(year, i as u32, 1) {
                                self.set_calendar_date(d, today);
                            }
                        }
                    },
                    None => {},
                }
            },
            ViewType::Year => {
                match parse_i32(self.current_month.as_str()) {
                    Some(year) => {
                        if forward {
                            if year < MAX_DATE_YEAR {
                                if let Some(d) = from_ymd(year + 1, 1, 1) {
                                    self.set_calendar_date(d, today);
                                }
                            }
                        } else {
                            if year > MIN_DATE_YEAR {
                                if let Some(d) = from_ymd(year - 1, 1, 1) {
                                    self.set_calendar_date(d, today);
                                }
                            }
                        }
                    },
                    None => {},
                }
            },
            ViewType::Years12 => {
                let n = self.years_12.len();
                if n > 0 {
                    if forward {
                        let last = self.years_12[n - 1];
                        self.set_current_12_years(last + 1, true);
                    } else {
                        let first = self.years_12[0];
                        self.set_current_12_years(first - 1, false);
                    }
                    let first = int_string(self.years_12[0]);
                    let last = int_string(self.years_12[11]);
                    self.current_month = concat3(first.as_str(), " - ", last.as_str());
                }
            },
        }
    }

    /// Turns a page: `"prev"` backward, `"next"` forward; any other
    /// direction changes nothing.
    pub fn go_to_page(&mut self, direction: &str, today: Date)
        requires
            direction@ == "prev"@ ==> page_fits(*old(self), false),
            direction@ == "next"@ ==> page_fits(*old(self), true),
        ensures
            direction@ == "prev"@ ==> page_turned(*old(self), *final(self), false, today),
            direction@ == "next"@ ==> page_turned(*old(self), *final(self), true, today),
            direction@ != "prev"@ && direction@ != "next"@ ==> *final(self) == *old(self),
    {
        proof {
            reveal_strlit("prev");
            reveal_strlit("next");
        }
        assert("next"@[0] != "prev"@[0]);
        if same_text(direction, "prev") {
            self.turn_page(false, today);
        } else if same_text(direction, "next") {
            self.turn_page(true, today);
        }
    }
}

} // verus!

verus! {

/// The digits of a number are ASCII digits, at least one, and are worth the
/// number.
pub proof fn lemma_decimal_digits(n: nat)
    ensures
        decimal(n).len() > 0,
        all_ascii_digits(decimal(n)),
        digits_value(decimal(n)) == n,
    decreases n,
{
    let s = decimal(n);
    if n < 10 {
        assert(s.drop_last() =~= Seq::<char>::empty());
        assert(s.last() as int == n + 48);
        assert(digits_value(s) == digits_value(s.drop_last()) * 10 + ((s.last() as int) - ('0' as int)) as nat);
        assert(digits_value(Seq::<char>::empty()) == 0);
    } else {
        lemma_decimal_digits(n / 10);
        assert(s.drop_last() =~= decimal(n / 10));
        assert(s.last() as int == n % 10 + 48);
        assert(all_ascii_digits(s)) by {
            assert forall|i: int| 0 <= i < s.len() implies '0' <= #[trigger] s[i] <= '9' by {
                if i < s.len() - 1 {
                    assert(s[i] == decimal(n / 10)[i]);
                }
            }
        }
        assert(n == (n / 10) * 10 + n % 10) by (nonlinear_arith);
        assert(digits_value(s) == digits_value(s.drop_last()) * 10 + ((s.last() as int) - ('0' as int)) as nat);
    }
}

/// A number written with `to_string` is read back by `parse::<i32>`.
pub proof fn lemma_int_text_round_trip(n: int)
    requires
        i32::MIN <= n <= i32::MAX,
    ensures
        parsed_i32(int_text(n)) == Some(n),
        int_text(n).len() > 0,
        forall|k: int| 0 <= k < int_text(n).len() ==> !char_is_whitespace(#[trigger] int_text(n)[k]),
{
    if n < 0 {
        lemma_decimal_digits((-n) as nat);
        let t = int_text(n);
        assert(t.drop_first() =~= decimal((-n) as nat));
        assert forall|k: int| 0 <= k < t.len() implies !char_is_whitespace(#[trigger] t[k]) by {
            if k > 0 {
                assert(t[k] == decimal((-n) as nat)[k - 1]);
            }
        }
    } else {
        lemma_decimal_digits(n as nat);
        let t = int_text(n);
        assert('0' <= t[0] <= '9');
    }
}

/// The names of the twelve months differ.
proof fn lemma_month_names_differ(i: int, j: int)
    requires
        0 <= i < 12,
        0 <= j < 12,
        i != j,
    ensures
        month_name(i) != month_name(j),
{
    reveal_strlit("January");
    reveal_strlit("February");
    reveal_strlit("March");
    reveal_strlit("April");
    reveal_strlit("May");
    reveal_strlit("June");
    reveal_strlit("July");
    reveal_strlit("August");
    reveal_strlit("September");
    reveal_strlit("October");
    reveal_strlit("November");
    reveal_strlit("December");
    if month_name(i).len() == month_name(j).len() {
        if month_name(i)[0] == month_name(j)[0] {
            assert(month_name(i)[2] != month_name(j)[2]);
        } else {
            assert(month_name(i)[0] != month_name(j)[0]);
        }
    }
}

/// Looking from month `j` on, the name of month `i` (at or after `j`) finds
/// month `i`.
proof fn lemma_month_found_from(i: int, j: int)
    requires
        0 <= j <= i < 12,
    ensures
        month_position_from(month_name(i), j) == Some(i),
    decreases i - j,
{
    if j < i {
        lemma_month_names_differ(i, j);
        lemma_month_found_from(i, j + 1);
    }
}

/// The names of the months hold no white space, and each month is found by
/// its name.
pub proof fn lemma_month_name_found(i: int)
    requires
        0 <= i < 12,
    ensures
        month_position(month_name(i)) == Some(i),
        month_name(i).len() > 0,
        forall|k: int| 0 <= k < month_name(i).len() ==> !char_is_whitespace(#[trigger] month_name(i)[k]),
{
    reveal_strlit("January");
    reveal_strlit("February");
    reveal_strlit("March");
    reveal_strlit("April");
    reveal_strlit("May");
    reveal_strlit("June");
    reveal_strlit("July");
    reveal_strlit("August");
    reveal_strlit("September");
    reveal_strlit("October");
    reveal_strlit("November");
    reveal_strlit("December");
    lemma_month_found_from(i, 0);
    let w = month_name(i);
    assert forall|k: int| 0 <= k < w.len() implies !char_is_whitespace(#[trigger] w[k]) by {
        assert('A' <= w[k] <= 'z');
    }
}

/// The header the picker writes for a month is read back as that month and
/// year.
pub proof fn lemma_month_header_round_trip(i: int, year: int)
    requires
        0 <= i < 12,
        i32::MIN <= year <= i32::MAX,
    ensures
        shown_month(month_header(i, year)) == Some((i, year)),
{
    reveal_strlit(" ");
    let name = month_name(i);
    let t = int_text(year);
    lemma_month_name_found(i);
    lemma_int_text_round_trip(year);
    crate::strings::lemma_ws_words_push_word(Seq::empty(), name);
    assert(Seq::<char>::empty() + name =~= name);
    assert(ws_words(Seq::<char>::empty()) =~= Seq::<Seq<char>>::empty());
    crate::strings::lemma_ws_words_push_space(name, ' ');
    assert(name + " "@ =~= name.push(' '));
    crate::strings::lemma_ws_words_push_word(name + " "@, t);
    assert(month_header(i, year) =~= (name + " "@) + t);
    assert(ws_words(month_header(i, year)) =~= seq![name, t]);
}

} // verus!

verus! {

/// Turning the month view a page forward and then a page back shows the
/// month shown before, with the same chosen day.
pub proof fn lemma_month_pages_round_trip(
    s0: CalendarState,
    s1: CalendarState,
    s2: CalendarState,
    today: Date,
    i: int,
    year: int,
)
    requires
        s0.view_type == ViewType::Month,
        shown_month(s0.current_month@) == Some((i, year)),
        s0.current_selected_day is Some,
        valid_date(year, i + 1, 1),
        valid_date(neighbour_month(i, year, true).0, neighbour_month(i, year, true).1, 1),
        page_turned(s0, s1, true, today),
        page_turned(s1, s2, false, today),
    ensures
        s2.view_type == ViewType::Month,
        s2.current_month@ == month_header(i, year),
        s2.month_days_count == month_length(year, i + 1),
        s2.current_selected_month@ == month_start_text(
            Date { year: year as i32, month: (i + 1) as u32, day: 1 },
        ),
        s2.first_day_position == weekday_index(year, i + 1, 1),
        s2.current_selected_day == s0.current_selected_day,
        s2.years_12@ == s0.years_12@,
        s2.minimum_date == s0.minimum_date,
        s2.prevent_back_date == s0.prevent_back_date,
{
    lemma_shown_month_bounds(s0.current_month@);
    let n = neighbour_month(i, year, true);
    lemma_month_header_round_trip(n.1 - 1, n.0);
    assert(shown_month(s1.current_month@) == Some((n.1 - 1, n.0)));
    assert(neighbour_month(n.1 - 1, n.0, false) == (year, i + 1));
}

/// Turning the year view a page forward and then a page back shows the
/// year shown before, with the same chosen day.
pub proof fn lemma_year_pages_round_trip(
    s0: CalendarState,
    s1: CalendarState,
    s2: CalendarState,
    today: Date,
    year: int,
)
    requires
        s0.view_type == ViewType::Year,
        parsed_i32(s0.current_month@) == Some(year),
        s0.current_selected_day is Some,
        valid_date(year, 1, 1),
        valid_date(year + 1, 1, 1),
        page_turned(s0, s1, true, today),
        page_turned(s1, s2, false, today),
    ensures
        s2.view_type == ViewType::Year,
        s2.current_month@ == int_text(year),
        s2.month_days_count == 31,
        s2.current_selected_month@ == month_start_text(Date { year: year as i32, month: 1, day: 1 }),
        s2.first_day_position == weekday_index(year, 1, 1),
        s2.current_selected_day == s0.current_selected_day,
        s2.years_12@ == s0.years_12@,
        s2.minimum_date == s0.minimum_date,
        s2.prevent_back_date == s0.prevent_back_date,
{
    lemma_int_text_round_trip(year + 1);
}

/// Turning the run of years a page forward and then a page back shows the
/// run shown before.
pub proof fn lemma_year_run_pages_round_trip(
    s0: CalendarState,
    s1: CalendarState,
    s2: CalendarState,
    today: Date,
    first: int,
)
    requires
        s0.view_type == ViewType::Years12,
        s0.years_12@ == years_from(first),
        i32::MIN <= first,
        first + 23 <= i32::MAX,
        page_turned(s0, s1, true, today),
        page_turned(s1, s2, false, today),
    ensures
        s2.years_12@ == s0.years_12@,
        s2.current_month@ == range_header(first, first + 11),
        same_but_years(s0, s2),
{
    assert(s0.years_12@.last() == (first + 11) as i32);
    assert(s1.years_12@ == years_from(first + 12));
    assert(s1.years_12@[0] == (first + 12) as i32);
    assert(years_from(first + 12 - 12) =~= years_from(first));
}

} // verus!

verus! {

/// A day that has just been chosen (as `select_date` chooses it) is shown
/// as the chosen day.
pub proof fn lemma_chosen_day_is_selected(s0: CalendarState, s1: CalendarState, day: usize)
    requires
        shown_day(s0.current_month@, day) is Some,
        s1 == (CalendarState { current_selected_day: shown_day(s0.current_month@, day), ..s0 }),
    ensures
        day_selected(s1, day),
{
}

/// The months of a year add up to 365 days, 366 in a leap year.
proof fn lemma_year_length(year: int)
    ensures
        days_before_month(year, 12) + month_length(year, 12) == if is_leap_year(year) {
            366int
        } else {
            365int
        },
{
    assert(days_before_month(year, 1) == 0);
    assert(days_before_month(year, 2) == 31);
    assert(days_before_month(year, 3) == 31 + month_length(year, 2));
    assert(days_before_month(year, 4) == days_before_month(year, 3) + 31);
    assert(days_before_month(year, 5) == days_before_month(year, 4) + 30);
    assert(days_before_month(year, 6) == days_before_month(year, 5) + 31);
    assert(days_before_month(year, 7) == days_before_month(year, 6) + 30);
    assert(days_before_month(year, 8) == days_before_month(year, 7) + 31);
    assert(days_before_month(year, 9) == days_before_month(year, 8) + 31);
    assert(days_before_month(year, 10) == days_before_month(year, 9) + 30);
    assert(days_before_month(year, 11) == days_before_month(year, 10) + 31);
    assert(days_before_month(year, 12) == days_before_month(year, 11) + 30);
}

/// A year starts 365 days after the one before it, 366 after a leap year.
proof fn lemma_next_year_start(year: int)
    ensures
        days_before_year(year + 1) == days_before_year(year) + if is_leap_year(year) {
            366int
        } else {
            365int
        },
{
    let p = year - 1;
    lemma_step_by_4(p);
    lemma_step_by_100(p);
    lemma_step_by_400(p);
    lemma_leap_divisors(year);
}

/// One more day count adds one to the count of whole fours exactly when it
/// is divisible by four.
proof fn lemma_step_by_4(p: int)
    ensures
        (p + 1) / 4 - p / 4 == (if (p + 1) % 4 == 0 { 1int } else { 0int }),
{
}

/// One more adds one to the count of whole hundreds exactly when it is
/// divisible by a hundred.
proof fn lemma_step_by_100(p: int)
    ensures
        (p + 1) / 100 - p / 100 == (if (p + 1) % 100 == 0 { 1int } else { 0int }),
{
}

/// One more adds one to the count of whole four hundreds exactly when it is
/// divisible by four hundred.
proof fn lemma_step_by_400(p: int)
    ensures
        (p + 1) / 400 - p / 400 == (if (p + 1) % 400 == 0 { 1int } else { 0int }),
{
}

/// A year not divisible by four is not divisible by a hundred, and one not
/// divisible by a hundred is not divisible by four hundred.
proof fn lemma_leap_divisors(year: int)
    ensures
        year % 4 != 0 ==> year % 100 != 0,
        year % 100 != 0 ==> year % 400 != 0,
{
}

/// The first day of the next month falls as many weekdays later as the
/// month has days.
pub proof fn lemma_next_month_weekday(year: int, month: int)
    requires
        1 <= month <= 12,
    ensures
        ({
            let n = neighbour_month(month - 1, year, true);
            weekday_index(n.0, n.1, 1) == (weekday_index(year, month, 1) + month_length(year, month)) % 7
        }),
{
    let n = neighbour_month(month - 1, year, true);
    let before = days_before_year(year) + days_before_month(year, month);
    if month < 12 {
        assert(days_before_month(year, month + 1) == days_before_month(year, month) + month_length(year, month));
        assert(n == (year, month + 1));
    } else {
        lemma_year_length(year);
        lemma_next_year_start(year);
        assert(n == (year + 1, 1int));
        assert(days_before_month(year + 1, 1) == 0);
    }
    lemma_mod_seven_shift(before, month_length(year, month));
}

/// Adding to a day count moves its weekday by as much, modulo seven.
proof fn lemma_mod_seven_shift(days: int, more: int)
    ensures
        (days + more) % 7 == ((days % 7) + more) % 7,
{
    assert(days == (days / 7) * 7 + days % 7);
    assert((days + more) % 7 == ((days % 7) + more + (days / 7) * 7) % 7);
    vstd::arithmetic::div_mod::lemma_mod_multiples_vanish(days / 7, (days % 7) + more, 7);
}

} // verus!

verus! {

/// In the month view, the next arrow shows the header of the following month
/// ("December 2024" becomes "January 2025"), and the previous arrow then
/// shows the header it had before, with the same chosen day.
pub proof fn lemma_next_then_previous_month(
    s0: CalendarState,
    s1: CalendarState,
    s2: CalendarState,
    today: Date,
    i: int,
    year: int,
)
    requires
        s0.view_type == ViewType::Month,
        0 <= i < 12,
        s0.current_month@ == month_header(i, year),
        s0.current_selected_day is Some,
        valid_date(year, i + 1, 1),
        valid_date(neighbour_month(i, year, true).0, neighbour_month(i, year, true).1, 1),
        page_turned(s0, s1, true, today),
        page_turned(s1, s2, false, today),
    ensures
        s1.current_month@ == month_header(
            neighbour_month(i, year, true).1 - 1,
            neighbour_month(i, year, true).0,
        ),
        s2.current_month@ == s0.current_month@,
        s2.view_type == ViewType::Month,
        s2.current_selected_day == s0.current_selected_day,
{
    lemma_month_header_round_trip(i, year);
    lemma_month_pages_round_trip(s0, s1, s2, today, i, year);
}

} // verus!
