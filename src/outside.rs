//! The calls this library makes into std and into outside crates, each with
//! the contract that the callers rely on.

use vstd::prelude::*;

use chrono::Datelike;
use convert_case::Casing;
use std::fmt::Write;

verus! {

/// The HTML that `markdown::to_html` (CommonMark defaults) gives for a text.
pub uninterp spec fn markdown_html_of(s: Seq<char>) -> Seq<char>;

/// The HTML that `markdown::to_html_with_options` with GitHub-flavoured
/// options gives for a text.
pub uninterp spec fn gfm_html_of(s: Seq<char>) -> Seq<char>;

/// The highlighted HTML that inkjet gives for GDScript source, or `None`
/// where the highlighter reports an error.
pub uninterp spec fn gdscript_html_of(code: Seq<char>) -> Option<Seq<char>>;

/// Whether `char::is_alphanumeric` holds of a character.
pub uninterp spec fn is_alphanumeric_of(c: char) -> bool;

/// The snake-case form that convert_case gives for a text.
pub uninterp spec fn snake_case_of(s: Seq<char>) -> Seq<char>;

/// The lines that `str::lines` yields for a text.
pub uninterp spec fn lines_of(s: Seq<char>) -> Seq<Seq<char>>;

/// The view of an optional string.
pub open spec fn opt_view(o: Option<String>) -> Option<Seq<char>> {
    match o {
        Some(s) => Some(s@),
        None => None,
    }
}

/// The views of a list of strings.
pub open spec fn views(v: Seq<String>) -> Seq<Seq<char>> {
    v.map_values(|s: String| s@)
}

/// Relies on `markdown::to_html`: the result depends on the text alone.
#[verifier::external_body]
pub(crate) fn markdown_html(s: &str) -> (r: String)
    ensures
        r@ == markdown_html_of(s@),
{
    markdown::to_html(s)
}

/// Relies on `markdown::to_html_with_options` with `Options::gfm()`: the
/// result depends on the text alone; with MDX off it never fails.
#[verifier::external_body]
pub(crate) fn gfm_html(s: &str) -> (r: String)
    ensures
        r@ == gfm_html_of(s@),
{
    markdown::to_html_with_options(s, &markdown::Options::gfm()).unwrap_or_default()
}

/// Relies on inkjet's `Highlighter::highlight_to_string` for GDScript with
/// the HTML formatter: the result depends on the source alone.
#[verifier::external_body]
pub(crate) fn highlight_gdscript(code: &str) -> (r: Option<String>)
    ensures
        opt_view(r) == gdscript_html_of(code@),
{
    let mut highlighter = inkjet::Highlighter::new();
    highlighter
        .highlight_to_string(inkjet::Language::Gdscript, &inkjet::formatter::Html, code)
        .ok()
}

/// Relies on `char::is_alphanumeric`: the result depends on the character
/// alone.
#[verifier::external_body]
pub(crate) fn is_alphanumeric(c: char) -> (r: bool)
    ensures
        r == is_alphanumeric_of(c),
{
    c.is_alphanumeric()
}

/// Relies on convert_case's `to_case(Case::Snake)`: the result depends on
/// the text alone.
#[verifier::external_body]
pub(crate) fn snake_case(s: &str) -> (r: String)
    ensures
        r@ == snake_case_of(s@),
{
    s.to_case(convert_case::Case::Snake)
}

/// Relies on `str::lines`: the text cut at line ends.
#[verifier::external_body]
pub(crate) fn split_lines(s: &str) -> (r: Vec<String>)
    ensures
        views(r@) == lines_of(s@),
{
    s.lines().map(|l| l.to_string()).collect()
}

/// Relies on `str::chars`: the characters of a text, in order.
#[verifier::external_body]
pub(crate) fn to_chars(s: &str) -> (r: Vec<char>)
    ensures
        r@ == s@,
{
    s.chars().collect()
}

/// Relies on `String::push`: one character added at the end.
#[verifier::external_body]
pub(crate) fn push_char(s: &mut String, c: char)
    ensures
        final(s)@ == old(s)@.push(c),
{
    s.push(c)
}


/// A Gregorian leap year.
pub open spec fn is_leap_year(y: int) -> bool {
    (y % 4 == 0 && y % 100 != 0) || y % 400 == 0
}

/// The number of days in a month of a year.
pub open spec fn days_in_month(y: int, m: int) -> int {
    if m == 2 {
        if is_leap_year(y) {
            29
        } else {
            28
        }
    } else if m == 4 || m == 6 || m == 9 || m == 11 {
        30
    } else {
        31
    }
}

/// A calendar date that chrono's `NaiveDate` can hold.
pub open spec fn is_valid_date(y: i32, m: u32, d: u32) -> bool {
    -262143 <= y <= 262142 && 1 <= m <= 12 && 1 <= d <= days_in_month(y as int, m as int)
}

/// The year, month and day that chrono's `NaiveDate::parse_from_str` reads
/// from a text with a format, or `None` where it fails.
pub uninterp spec fn parsed_date_of(s: Seq<char>, fmt: Seq<char>) -> Option<(i32, u32, u32)>;

/// The text that chrono's `NaiveDate::format` writes for a date with a
/// format.
pub uninterp spec fn date_text_of(y: i32, m: u32, d: u32, fmt: Seq<char>) -> Seq<char>;

/// Relies on chrono's `NaiveDate::parse_from_str`: the year, month and day
/// read depend on the text and the format alone, and form a date that
/// `NaiveDate` holds.
#[verifier::external_body]
pub(crate) fn parse_date(s: &str, fmt: &str) -> (r: Option<(i32, u32, u32)>)
    ensures
        r == parsed_date_of(s@, fmt@),
        r matches Some((y, m, d)) ==> is_valid_date(y, m, d),
{
    chrono::NaiveDate::parse_from_str(s, fmt).ok().map(|d| (d.year(), d.month(), d.day()))
}

/// Relies on chrono's `NaiveDate::from_ymd_opt` and `NaiveDate::format`:
/// the text depends on the date and the format alone; `from_ymd_opt`
/// accepts every valid date, and month name, padded day and year are
/// date items that never fail to write.
#[verifier::external_body]
pub(crate) fn format_date(y: i32, m: u32, d: u32, fmt: &str) -> (r: Option<String>)
    ensures
        r matches Some(t) ==> t@ == date_text_of(y, m, d, fmt@),
        is_valid_date(y, m, d) && fmt@ == "%B %e, %Y"@ ==> r is Some,
{
    let date = chrono::NaiveDate::from_ymd_opt(y, m, d)?;
    let mut out = String::new();
    write!(out, "{}", date.format(fmt)).ok()?;
    Some(out)
}

} // verus!
