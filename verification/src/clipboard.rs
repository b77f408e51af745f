//! Choice of the clipboard format copied to the host.
use vstd::prelude::*;

use crate::text::{chars_to_string, str_to_chars, text_is};

verus! {

pub open spec fn offers(mime_types: Seq<String>, m: Seq<char>) -> bool {
    exists|i: int| 0 <= i < mime_types.len() && (#[trigger] mime_types[i])@ == m
}

/// The format to copy: UTF-8 plain text when offered, else plain text, else
/// the first format offered.
pub open spec fn preferred_mime_spec(mime_types: Seq<String>) -> Option<Seq<char>> {
    if offers(mime_types, "text/plain;charset=utf-8"@) {
        Some("text/plain;charset=utf-8"@)
    } else if offers(mime_types, "text/plain"@) {
        Some("text/plain"@)
    } else if mime_types.len() > 0 {
        Some(mime_types[0]@)
    } else {
        None
    }
}

fn offered(mime_types: &[String], m: &str) -> (r: bool)
    ensures
        r == offers(mime_types@, m@),
{
    let mut i: usize = 0;
    while i < mime_types.len()
        invariant
            i <= mime_types@.len(),
            forall|k: int| 0 <= k < i ==> (#[trigger] mime_types@[k])@ != m@,
        decreases mime_types@.len() - i,
    {
        let c = str_to_chars(mime_types[i].as_str());
        if text_is(&c, m) {
            return true;
        }
        i += 1;
    }
    false
}

/// Chooses the clipboard format to copy to the host from those the source offers.
pub fn preferred_clipboard_mime_type(mime_types: &[String]) -> (r: Option<String>)
    ensures
        match r {
            Some(m) => preferred_mime_spec(mime_types@) == Some(m@),
            None => preferred_mime_spec(mime_types@) is None,
        },
{
    if offered(mime_types, "text/plain;charset=utf-8") {
        Some(chars_to_string(&str_to_chars("text/plain;charset=utf-8")))
    } else if offered(mime_types, "text/plain") {
        Some(chars_to_string(&str_to_chars("text/plain")))
    } else if mime_types.len() > 0 {
        Some(chars_to_string(&str_to_chars(mime_types[0].as_str())))
    } else {
        None
    }
}

} // verus!
