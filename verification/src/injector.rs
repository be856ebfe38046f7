//! What is pasted into the focused application.

use vstd::prelude::*;

use crate::text::{chars_of, lemma_trim, string_from_chars, trim, trim_chars, is_trimmed};

verus! {

/// The text to put on the clipboard and paste for `text`: `text` without
/// surrounding whitespace, or nothing when that leaves no text at all.
pub fn paste_payload(text: &str) -> (r: Option<String>)
    ensures
        match r {
            Some(t) => t@ == trim(text@) && t@.len() > 0 && is_trimmed(t@),
            None => trim(text@).len() == 0,
        },
{
    let chars = chars_of(text);
    let trimmed = trim_chars(&chars);
    proof {
        lemma_trim(text@);
    }
    if trimmed.len() == 0 {
        None
    } else {
        Some(string_from_chars(&trimmed))
    }
}

} // verus!
