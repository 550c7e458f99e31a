//! The global save-clip shortcuts: what is proposed to the desktop, and
//! what each one does when pressed.
use vstd::prelude::*;

use crate::clips::backend::SaveLength;
use crate::text::{chars_eq_str, chars_of, string_of_str};

verus! {

/// A shortcut proposed to the GlobalShortcuts portal: its id, its
/// description, and the preferred trigger in the portal's key syntax.
pub struct ShortcutBinding {
    pub id: String,
    pub description: String,
    pub preferred_trigger: String,
}

pub open spec fn binding_view(b: ShortcutBinding) -> (Seq<char>, Seq<char>, Seq<char>) {
    (b.id@, b.description@, b.preferred_trigger@)
}

pub open spec fn suggested_spec() -> Seq<(Seq<char>, Seq<char>, Seq<char>)> {
    seq![
        ("save-clip"@, "Save the last N seconds of gameplay"@, "ALT+S"@),
        ("save-clip-short"@, "Save the last 30 seconds"@, "LOGO+SHIFT+1"@),
        ("save-clip-medium"@, "Save the last 60 seconds"@, "LOGO+SHIFT+2"@),
        ("save-clip-long"@, "Save the last 120 seconds"@, "LOGO+SHIFT+3"@)
    ]
}

fn binding(id: &str, description: &str, trigger: &str) -> (r: ShortcutBinding)
    ensures
        binding_view(r) == (id@, description@, trigger@),
{
    ShortcutBinding {
        id: string_of_str(id),
        description: string_of_str(description),
        preferred_trigger: string_of_str(trigger),
    }
}

/// The shortcuts to bind, in order.
pub fn suggested_bindings() -> (r: Vec<ShortcutBinding>)
    ensures
        r@.map_values(|b: ShortcutBinding| binding_view(b)) == suggested_spec(),
{
    let mut v: Vec<ShortcutBinding> = Vec::new();
    v.push(binding("save-clip", "Save the last N seconds of gameplay", "ALT+S"));
    v.push(binding("save-clip-short", "Save the last 30 seconds", "LOGO+SHIFT+1"));
    v.push(binding("save-clip-medium", "Save the last 60 seconds", "LOGO+SHIFT+2"));
    v.push(binding("save-clip-long", "Save the last 120 seconds", "LOGO+SHIFT+3"));
    assert(v@.map_values(|b: ShortcutBinding| binding_view(b)) =~= suggested_spec());
    v
}

pub open spec fn shortcut_save_spec(id: Seq<char>) -> Option<SaveLength> {
    if id == "save-clip"@ {
        Some(SaveLength::Full)
    } else if id == "save-clip-short"@ {
        Some(SaveLength::Short)
    } else if id == "save-clip-medium"@ {
        Some(SaveLength::Medium)
    } else if id == "save-clip-long"@ {
        Some(SaveLength::Long)
    } else {
        None
    }
}

/// The save a pressed shortcut asks for; unknown ids are ignored.
pub fn shortcut_save(id: &str) -> (r: Option<SaveLength>)
    ensures
        r == shortcut_save_spec(id@),
{
    let v = chars_of(id);
    if chars_eq_str(&v, "save-clip") {
        Some(SaveLength::Full)
    } else if chars_eq_str(&v, "save-clip-short") {
        Some(SaveLength::Short)
    } else if chars_eq_str(&v, "save-clip-medium") {
        Some(SaveLength::Medium)
    } else if chars_eq_str(&v, "save-clip-long") {
        Some(SaveLength::Long)
    } else {
        None
    }
}

} // verus!
