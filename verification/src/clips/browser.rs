//! Text shown on the clips page.
use vstd::prelude::*;

use crate::text::{append_str, decimal, decimal_string, push_char, string_of_str};

verus! {

/// Longest display name a user may type, in characters.
pub const MAX_DISPLAY_NAME_CHARS: usize = 80;

/// `m:ss` for a duration in milliseconds, the sub-second part dropped.
pub open spec fn format_duration_spec(ms: u64) -> Seq<char> {
    let total = ms / 1000;
    let mins = total / 60;
    let secs = total % 60;
    decimal(mins as nat) + seq![':'] + (if secs < 10 { seq!['0'] } else { seq![] }) + decimal(secs as nat)
}

pub fn format_duration_ms(duration_ms: u64) -> (r: String)
    ensures
        r@ == format_duration_spec(duration_ms),
{
    let total = duration_ms / 1000;
    let mins = total / 60;
    let secs = total % 60;
    let mut s = decimal_string(mins);
    push_char(&mut s, ':');
    if secs < 10 {
        push_char(&mut s, '0');
    }
    append_str(&mut s, decimal_string(secs).as_str());
    s
}

/// `1 clip`, otherwise `<n> clips`.
pub open spec fn format_clip_count_spec(n: u32) -> Seq<char> {
    if n == 1 {
        "1 clip"@
    } else {
        decimal(n as nat) + " clips"@
    }
}

pub fn format_clip_count(n: u32) -> (r: String)
    ensures
        r@ == format_clip_count_spec(n),
{
    if n == 1 {
        string_of_str("1 clip")
    } else {
        let mut s = decimal_string(n as u64);
        append_str(&mut s, " clips");
        s
    }
}

} // verus!
