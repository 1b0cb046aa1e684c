//! How entries of the source directory are named.

use vstd::prelude::*;

use crate::outside::to_chars;
use crate::text::{rest, string_of_range};

verus! {

/// The value of a decimal digit.
pub open spec fn digit_value(c: char) -> int {
    c as int - '0' as int
}

/// A page directory is named `<digit>_<id>`: the digit orders the pages.
/// Names that are too short, that do not start with a digit, or whose id
/// is hidden (starts with a dot) name no page.
pub open spec fn page_dir_spec(name: Seq<char>) -> Option<(u8, Seq<char>)> {
    if name.len() >= 2 && '0' <= name[0] <= '9' && !(name.len() > 2 && name[2] == '.') {
        Some((digit_value(name[0]) as u8, rest(name, 2)))
    } else {
        None
    }
}

/// The order and id of a page directory, or `None` where the name is no
/// page's.
pub fn page_dir_entry(name: &str) -> (r: Option<(u8, String)>)
    ensures
        match (r, page_dir_spec(name@)) {
            (Some((o, id)), Some((so, sid))) => o == so && id@ == sid,
            (None, None) => true,
            _ => false,
        },
{
    let c = to_chars(name);
    if c.len() >= 2 && '0' <= c[0] && c[0] <= '9' && !(c.len() > 2 && c[2] == '.') {
        let order = (c[0] as u32 - '0' as u32) as u8;
        let id = string_of_range(&c, 2, c.len());
        Some((order, id))
    } else {
        None
    }
}

/// A post directory is named by its id; hidden names (starting with a dot)
/// name no post.
pub fn post_dir_entry(name: &str) -> (r: Option<String>)
    ensures
        r is None <==> (name@.len() > 0 && name@[0] == '.'),
        r matches Some(id) ==> id@ == name@,
{
    let c = to_chars(name);
    if c.len() > 0 && c[0] == '.' {
        None
    } else {
        assert(c@.subrange(0, c@.len() as int) =~= name@);
        Some(string_of_range(&c, 0, c.len()))
    }
}

} // verus!
