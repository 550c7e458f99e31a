//! Where a remixed clip is written.
use vstd::prelude::*;

use crate::paths::{base_name, dir_prefix, file_stem, split_path, stem_of};
use crate::text::{append_chars, append_str, chars_of, string_of, string_of_str};

verus! {

/// `<stem>-remix.mp4` beside the input. The stem keeps every dot but the
/// last (`cs2.2026-05-09.mp4` gives `cs2.2026-05-09-remix.mp4`); an input
/// without a file name gives `clip-remix.mp4`, in `.` when the input has no
/// directory either.
pub open spec fn remix_output_path_spec(input: Seq<char>) -> Seq<char> {
    if input.len() == 0 || input == seq!['/'] {
        "./clip-remix.mp4"@
    } else {
        let stem = match stem_of(base_name(input)) {
            Some(s) => s,
            None => "clip"@,
        };
        dir_prefix(input) + stem + "-remix.mp4"@
    }
}

pub fn remix_output_path(input: &str) -> (r: String)
    ensures
        r@ == remix_output_path_spec(input@),
{
    let v = chars_of(input);
    if v.len() == 0 || (v.len() == 1 && v[0] == '/') {
        if v.len() == 1 {
            assert(input@ =~= seq!['/']);
        }
        return string_of_str("./clip-remix.mp4");
    }
    assert(input@ != seq!['/']) by {
        if input@ == seq!['/'] {
            assert(input@.len() == 1 && input@[0] == '/');
        }
    }
    let (dir, name) = split_path(input);
    let mut out = string_of(&dir);
    match file_stem(&name) {
        Some(s) => append_chars(&mut out, &s),
        None => append_str(&mut out, "clip"),
    }
    append_str(&mut out, "-remix.mp4");
    out
}

} // verus!
