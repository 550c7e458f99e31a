//! The persisted ScreenCast portal restore token.
use vstd::prelude::*;

use crate::text::{chars_of, string_of, trim, trim_chars};

verus! {

/// The token a token file holds: its content trimmed, none when that is
/// empty.
pub open spec fn token_spec(contents: Seq<char>) -> Option<Seq<char>> {
    if trim(contents).len() == 0 {
        None
    } else {
        Some(trim(contents))
    }
}

/// Read the restore token from the token file's content (a missing or
/// unreadable file reads as no token).
pub fn load_token(contents: &str) -> (r: Option<String>)
    ensures
        match r {
            Some(t) => token_spec(contents@) == Some(t@),
            None => token_spec(contents@) is None,
        },
{
    let v = chars_of(contents);
    let t = trim_chars(&v);
    if t.len() == 0 {
        None
    } else {
        Some(string_of(&t))
    }
}

} // verus!
