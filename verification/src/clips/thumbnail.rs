//! Where clip thumbnails are cached.
use vstd::prelude::*;

use crate::paths::{base_name, file_stem, join, join_spec, split_path, stem_of};
use crate::text::{append_str, string_of};

verus! {

pub open spec fn thumb_dir_spec(storage_dir: Seq<char>) -> Seq<char> {
    join_spec(storage_dir, ".cache/thumbs"@)
}

/// Directory under the clips storage root where thumbnails are cached.
pub fn thumb_dir(storage_dir: &str) -> (r: String)
    ensures
        r@ == thumb_dir_spec(storage_dir@),
{
    join(storage_dir, ".cache/thumbs")
}

/// The stem of a clip's file name, empty when it has none.
pub open spec fn clip_stem(clip_filename: Seq<char>) -> Seq<char> {
    match stem_of(base_name(clip_filename)) {
        Some(s) => s,
        None => seq![],
    }
}

pub open spec fn thumb_path_spec(storage_dir: Seq<char>, clip_filename: Seq<char>) -> Seq<char> {
    join_spec(thumb_dir_spec(storage_dir), clip_stem(clip_filename) + ".jpg"@)
}

/// Path to the thumbnail JPEG for a clip: `<thumb dir>/<stem>.jpg`.
pub fn thumb_path(storage_dir: &str, clip_filename: &str) -> (r: String)
    ensures
        r@ == thumb_path_spec(storage_dir@, clip_filename@),
{
    let (_, name) = split_path(clip_filename);
    let mut file = match file_stem(&name) {
        Some(s) => string_of(&s),
        None => String::new(),
    };
    append_str(&mut file, ".jpg");
    let dir = thumb_dir(storage_dir);
    join(dir.as_str(), file.as_str())
}

} // verus!
