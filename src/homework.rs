//! Dates as the homework page shows them ("lun. 15 mars", words separated by
//! non-breaking spaces), and the labels of its month picker ("Mars 2024").

use vstd::prelude::*;
use crate::bootstrap::{digits_value, is_digit, all_digits};
use crate::query::split_on;
use crate::text::{chars_of, decimal, decimal_chars, push_all, string_of};

verus! {

/// The separator between the words of a date label.
pub const NBSP: char = '\u{a0}';

/// A day as the homework page names it: day of the week (0 for Sunday), day
/// of the month (1 to 31) and month (0 for January).
#[derive(Debug, Clone, Copy, PartialEq, Eq, Structural)]
pub struct DayDate {
    pub weekday: u8,
    pub day: u8,
    pub month: u8,
}

/// Which page the browser shows.
#[derive(Debug, Clone, Copy, PartialEq, Eq, Structural)]
pub enum Page {
    Login,
    Home,
    /// The homework list, with the date it starts from when known.
    Homework(Option<DayDate>),
}

/// Why a date label could not be read.
#[derive(Debug, PartialEq, Eq)]
pub enum DateError {
    /// The label has no day of the month.
    MissingDay,
    /// The day of the month is not a number.
    InvalidDay,
    /// The day of the month is not between 1 and 31.
    DayOutOfRange,
    /// The label has no month.
    MissingMonth,
    /// The first word is no abbreviated day of the week.
    InvalidWeekday(String),
    /// The third word is no abbreviated month.
    InvalidMonth(String),
}

/// Number of the abbreviated day of the week `w`.
pub open spec fn weekday_of(w: Seq<char>) -> Option<u8> {
    if w == "dim."@ { Some(0u8) }
    else if w == "lun."@ { Some(1u8) }
    else if w == "mar."@ { Some(2u8) }
    else if w == "mer."@ { Some(3u8) }
    else if w == "jeu."@ { Some(4u8) }
    else if w == "ven."@ { Some(5u8) }
    else if w == "sam."@ { Some(6u8) }
    else { None }
}

/// Number of the abbreviated month `m`.
pub open spec fn month_of(m: Seq<char>) -> Option<u8> {
    if m == "janv."@ { Some(0u8) }
    else if m == "févr."@ { Some(1u8) }
    else if m == "mars"@ { Some(2u8) }
    else if m == "avr."@ { Some(3u8) }
    else if m == "mai"@ { Some(4u8) }
    else if m == "juin"@ { Some(5u8) }
    else if m == "juil."@ { Some(6u8) }
    else if m == "août"@ { Some(7u8) }
    else if m == "sept."@ { Some(8u8) }
    else if m == "oct."@ { Some(9u8) }
    else if m == "nov."@ { Some(10u8) }
    else if m == "déc."@ { Some(11u8) }
    else { None }
}

/// The unsigned number that `s` spells as `u32::from_str` reads it: an
/// optional `+`, then one or more decimal digits, the value fitting in `u32`.
pub open spec fn u32_of(s: Seq<char>) -> Option<u32> {
    let digits = if s.len() > 0 && s[0] == '+' { s.subrange(1, s.len() as int) } else { s };
    if digits.len() > 0 && all_digits(digits) && digits_value(digits) <= u32::MAX {
        Some(digits_value(digits) as u32)
    } else {
        None
    }
}

/// What a date label gives, word by word.
pub open spec fn date_of(label: Seq<char>) -> Result<DayDate, DateError> {
    let words = split_on(label, NBSP);
    if weekday_of(words[0]) is None {
        Err(DateError::InvalidWeekday(arbitrary()))
    } else if words.len() < 2 {
        Err(DateError::MissingDay)
    } else if u32_of(words[1]) is None {
        Err(DateError::InvalidDay)
    } else if !(1 <= u32_of(words[1])->0 <= 31) {
        Err(DateError::DayOutOfRange)
    } else if words.len() < 3 {
        Err(DateError::MissingMonth)
    } else if month_of(words[2]) is None {
        Err(DateError::InvalidMonth(arbitrary()))
    } else {
        Ok(DayDate { weekday: weekday_of(words[0])->0, day: u32_of(words[1])->0 as u8, month: month_of(words[2])->0 })
    }
}

/// Whether `r` is the outcome `date_of` gives, the text carried by an
/// invalid-word error being that word.
pub open spec fn is_date_of(label: Seq<char>, r: Result<DayDate, DateError>) -> bool {
    let words = split_on(label, NBSP);
    match date_of(label) {
        Ok(d) => r == Ok::<DayDate, DateError>(d),
        Err(DateError::InvalidWeekday(_)) => r matches Err(DateError::InvalidWeekday(w)) && w@ == words[0],
        Err(DateError::InvalidMonth(_)) => r matches Err(DateError::InvalidMonth(m)) && m@ == words[2],
        Err(e) => r == Err::<DayDate, DateError>(e),
    }
}

/// Whether `a` and `b` hold the same characters.
pub(crate) fn same_chars(a: &[char], b: &[char]) -> (r: bool)
    ensures
        r == (a@ == b@),
{
    if a.len() != b.len() {
        return false;
    }
    let mut i: usize = 0;
    while i < a.len()
        invariant
            a@.len() == b@.len(),
            i <= a@.len(),
            forall|j: int| 0 <= j < i ==> a@[j] == b@[j],
        decreases a@.len() - i,
    {
        if a[i] != b[i] {
            return false;
        }
        i = i + 1;
    }
    assert(a@ =~= b@);
    true
}

fn is_word(w: &[char], lit: &str) -> (r: bool)
    ensures
        r == (w@ == lit@),
{
    same_chars(w, chars_of(lit).as_slice())
}

fn parse_weekday(w: &[char]) -> (r: Option<u8>)
    ensures
        r == weekday_of(w@),
{
    if is_word(w, "dim.") { Some(0) }
    else if is_word(w, "lun.") { Some(1) }
    else if is_word(w, "mar.") { Some(2) }
    else if is_word(w, "mer.") { Some(3) }
    else if is_word(w, "jeu.") { Some(4) }
    else if is_word(w, "ven.") { Some(5) }
    else if is_word(w, "sam.") { Some(6) }
    else { None }
}

fn parse_month(m: &[char]) -> (r: Option<u8>)
    ensures
        r == month_of(m@),
{
    if is_word(m, "janv.") { Some(0) }
    else if is_word(m, "févr.") { Some(1) }
    else if is_word(m, "mars") { Some(2) }
    else if is_word(m, "avr.") { Some(3) }
    else if is_word(m, "mai") { Some(4) }
    else if is_word(m, "juin") { Some(5) }
    else if is_word(m, "juil.") { Some(6) }
    else if is_word(m, "août") { Some(7) }
    else if is_word(m, "sept.") { Some(8) }
    else if is_word(m, "oct.") { Some(9) }
    else if is_word(m, "nov.") { Some(10) }
    else if is_word(m, "déc.") { Some(11) }
    else { None }
}

proof fn lemma_digits_value_prefix(s: Seq<char>, k: int)
    requires
        0 <= k <= s.len(),
    ensures
        digits_value(s.subrange(0, k)) <= digits_value(s),
    decreases s.len() - k,
{
    if k < s.len() {
        let t = s.subrange(0, k + 1);
        assert(t.drop_last() =~= s.subrange(0, k));
        lemma_digits_value_prefix(s, k + 1);
    } else {
        assert(s.subrange(0, k) =~= s);
    }
}

/// Reads an unsigned number as `u32::from_str` does.
pub fn parse_u32(s: &[char]) -> (r: Option<u32>)
    ensures
        r == u32_of(s@),
{
    let start: usize = if s.len() > 0 && s[0] == '+' { 1 } else { 0 };
    let ghost digits = if s@.len() > 0 && s@[0] == '+' { s@.subrange(1, s@.len() as int) } else { s@ };
    assert(digits =~= s@.subrange(start as int, s@.len() as int));
    if start == s.len() {
        return None;
    }
    let mut value: u64 = 0;
    let mut i: usize = start;
    while i < s.len()
        invariant
            start <= i <= s@.len(),
            start < s@.len(),
            digits == s@.subrange(start as int, s@.len() as int),
            u32_of(s@) == (if digits.len() > 0 && all_digits(digits) && digits_value(digits) <= u32::MAX {
                Some(digits_value(digits) as u32)
            } else {
                None
            }),
            all_digits(digits.subrange(0, i - start)),
            value as nat == digits_value(digits.subrange(0, i - start)),
            value <= u32::MAX,
        decreases s@.len() - i,
    {
        let c = s[i];
        if !('0' <= c && c <= '9') {
            assert(!all_digits(digits)) by {
                assert(digits[i - start] == c);
            }
            return None;
        }
        proof {
            let t = digits.subrange(0, i - start + 1);
            assert(t.drop_last() =~= digits.subrange(0, i - start));
            assert(t.last() == c);
            assert(all_digits(t)) by {
                assert forall|m: int| 0 <= m < t.len() implies is_digit(#[trigger] t[m]) by {
                    if m < i - start {
                        assert(t[m] == digits.subrange(0, i - start)[m]);
                    }
                }
            }
        }
        value = value * 10 + (c as u32 - 48) as u64;
        i = i + 1;
        if value > 4294967295 {
            proof {
                lemma_digits_value_prefix(digits, i - start);
            }
            return None;
        }
    }
    assert(digits.subrange(0, i - start) =~= digits);
    Some(value as u32)
}

/// Reads a date label of the homework page.
pub fn parse_homework_date(label: &str) -> (r: Result<DayDate, DateError>)
    ensures
        is_date_of(label@, r),
{
    let chars = chars_of(label);
    let words = crate::query::split_chars(chars.as_slice(), NBSP);
    proof {
        crate::query::lemma_split_on_nonempty(label@, NBSP);
    }
    let weekday = match parse_weekday(words[0].as_slice()) {
        Some(w) => w,
        None => return Err(DateError::InvalidWeekday(string_of(words[0].as_slice()))),
    };
    if words.len() < 2 {
        return Err(DateError::MissingDay);
    }
    let day = match parse_u32(words[1].as_slice()) {
        Some(d) => d,
        None => return Err(DateError::InvalidDay),
    };
    if day < 1 || day > 31 {
        return Err(DateError::DayOutOfRange);
    }
    if words.len() < 3 {
        return Err(DateError::MissingMonth);
    }
    let month = match parse_month(words[2].as_slice()) {
        Some(m) => m,
        None => return Err(DateError::InvalidMonth(string_of(words[2].as_slice()))),
    };
    Ok(DayDate { weekday, day: day as u8, month })
}

/// Name of month `m` (0 for January) in the month picker.
pub open spec fn month_name(m: nat) -> Seq<char> {
    if m == 0 { "Janvier"@ }
    else if m == 1 { "Février"@ }
    else if m == 2 { "Mars"@ }
    else if m == 3 { "Avril"@ }
    else if m == 4 { "Mai"@ }
    else if m == 5 { "Juin"@ }
    else if m == 6 { "Juillet"@ }
    else if m == 7 { "Août"@ }
    else if m == 8 { "Septembre"@ }
    else if m == 9 { "Octobre"@ }
    else if m == 10 { "Novembre"@ }
    else { "Décembre"@ }
}

/// The label of month `month` (0 for January) of `year` in the month picker,
/// or `None` when there is no such month.
pub fn month_label(month: u32, year: u32) -> (r: Option<String>)
    ensures
        month > 11 <==> r is None,
        r matches Some(l) ==> l@ == month_name(month as nat) + " "@ + decimal(year as nat),
{
    let name = if month == 0 { "Janvier" }
        else if month == 1 { "Février" }
        else if month == 2 { "Mars" }
        else if month == 3 { "Avril" }
        else if month == 4 { "Mai" }
        else if month == 5 { "Juin" }
        else if month == 6 { "Juillet" }
        else if month == 7 { "Août" }
        else if month == 8 { "Septembre" }
        else if month == 9 { "Octobre" }
        else if month == 10 { "Novembre" }
        else if month == 11 { "Décembre" }
        else { return None; };
    let mut label = chars_of(name);
    push_all(&mut label, chars_of(" ").as_slice());
    push_all(&mut label, decimal_chars(year).as_slice());
    Some(string_of(label.as_slice()))
}

} // verus!
