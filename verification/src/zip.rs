//! Paths inside export archives.

use vstd::prelude::*;
use crate::text::{chars_of, push_str, starts_with, starts_with_chars, string_from_chars, sub_chars, to_string};
use crate::collation::str_eq;

verus! {

/// A folder inside the archive relative to its top folder: none for the top
/// folder itself; without the leading `top/` where it has one.
pub open spec fn spec_strip_prefix(p: Seq<char>, top: Seq<char>) -> Option<Seq<char>> {
    if p == top {
        None
    } else if starts_with(p, top + "/"@) {
        Some(p.subrange((top.len() + 1) as int, p.len() as int))
    } else {
        Some(p)
    }
}

pub fn strip_prefix(p: &str, top_folder_name: &str) -> (r: Option<String>)
    ensures
        match spec_strip_prefix(p@, top_folder_name@) {
            Some(s) => r matches Some(x) && x@ == s,
            None => r is None,
        },
{
    if str_eq(p, top_folder_name) {
        return None;
    }
    let pc = chars_of(p);
    let mut pre = chars_of(top_folder_name);
    push_str(&mut pre, "/");
    proof {
        reveal_strlit("/");
    }
    if starts_with_chars(&pc, &pre) {
        let rest = sub_chars(&pc, pre.len(), pc.len());
        Some(string_from_chars(rest.as_slice()))
    } else {
        Some(to_string(p))
    }
}

} // verus!
