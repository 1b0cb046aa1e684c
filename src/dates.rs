//! Dates of posts, as shown to readers.

use vstd::prelude::*;

use crate::outside::{date_text_of, format_date, parse_date, parsed_date_of};
use crate::page::BlogPost;

verus! {

/// The format in which posts give their dates.
pub open spec fn iso_format() -> Seq<char> {
    "%Y-%m-%d"@
}

/// The format in which dates are shown: month name, space-padded day, year.
pub open spec fn long_format() -> Seq<char> {
    "%B %e, %Y"@
}

/// The label of a `YYYY-MM-DD` date: that same day in the long format, or
/// `None` where the text is no date.
pub open spec fn date_label_spec(date: Seq<char>) -> Option<Seq<char>> {
    match parsed_date_of(date, iso_format()) {
        Some((y, m, d)) => Some(date_text_of(y, m, d, long_format())),
        None => None,
    }
}

/// The label of a post date: `Some` exactly where the text is a
/// `YYYY-MM-DD` date, holding that day in the long format. It does not
/// depend on the machine's time zone.
pub fn date_label(date: &str) -> (r: Option<String>)
    ensures
        r is Some <==> parsed_date_of(date@, iso_format()) is Some,
        r matches Some(t) ==> date_label_spec(date@) == Some(t@),
{
    match parse_date(date, "%Y-%m-%d") {
        Some((y, m, d)) => format_date(y, m, d, "%B %e, %Y"),
        None => None,
    }
}

impl BlogPost {
    /// The publication date as shown to readers; `Some` exactly where it is
    /// a date.
    pub fn published_label(&self) -> (r: Option<String>)
        ensures
            r is Some <==> parsed_date_of(self.published@, iso_format()) is Some,
            r matches Some(t) ==> date_label_spec(self.published@) == Some(t@),
    {
        date_label(self.published.as_str())
    }

    /// The update date as shown to readers; `Some` exactly where it is a
    /// date.
    pub fn updated_label(&self) -> (r: Option<String>)
        ensures
            r is Some <==> parsed_date_of(self.updated@, iso_format()) is Some,
            r matches Some(t) ==> date_label_spec(self.updated@) == Some(t@),
    {
        date_label(self.updated.as_str())
    }

    /// The publication date as year, month and day, the key by which posts
    /// are ordered; `None` where it is no date.
    pub fn published_key(&self) -> (r: Option<(i32, u32, u32)>)
        ensures
            r == parsed_date_of(self.published@, iso_format()),
    {
        parse_date(self.published.as_str(), "%Y-%m-%d")
    }
}

} // verus!
