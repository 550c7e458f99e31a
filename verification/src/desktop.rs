//! Desktop integration files: the autostart entry and the application entry
//! the portals look the app id up in.
use vstd::prelude::*;

use crate::paths::{config_base, config_base_spec, join, join_opt, join_spec, opt_str};
use crate::text::{append_str, string_of_str};

verus! {

pub const APP_ID: &'static str = "com.github.arctis_chatmix.ArctisNovaEliteChatMix";

pub open spec fn autostart_path_spec(xdg_config_home: Option<Seq<char>>, home: Option<Seq<char>>) -> Option<Seq<char>> {
    join_opt(
        join_opt(config_base_spec(xdg_config_home, home), "autostart"@),
        "com.github.arctis_chatmix.ArctisNovaEliteChatMix.desktop"@,
    )
}

/// The autostart entry: `<config>/autostart/<app id>.desktop`.
pub fn desktop_file_path(xdg_config_home: Option<&str>, home: Option<&str>) -> (r: Option<String>)
    ensures
        match r {
            Some(p) => autostart_path_spec(opt_str(xdg_config_home), opt_str(home)) == Some(p@),
            None => autostart_path_spec(opt_str(xdg_config_home), opt_str(home)) is None,
        },
{
    match config_base(xdg_config_home, home) {
        Some(b) => {
            let d = join(b.as_str(), "autostart");
            Some(join(d.as_str(), "com.github.arctis_chatmix.ArctisNovaEliteChatMix.desktop"))
        },
        None => None,
    }
}

/// Whether autostart is on: the entry's path is known and `file_exists` says a
/// file is there.
pub fn is_enabled<F: Fn(&str) -> bool>(desktop_file: Option<&str>, file_exists: F) -> (r: bool)
    requires
        forall|p: &str| #[trigger] file_exists.requires((p,)),
    ensures
        desktop_file is None ==> !r,
        desktop_file matches Some(p) ==> call_ensures(file_exists, (p,), r),
{
    match desktop_file {
        Some(p) => file_exists(p),
        None => false,
    }
}

/// The autostart entry's content for the executable at `exe`; the app
/// starts hidden in the tray.
pub open spec fn autostart_entry_spec(exe: Seq<char>) -> Seq<char> {
    "[Desktop Entry]\nType=Application\nName=Arctis Nova Elite ChatMix\nComment=ChatMix and battery monitoring for SteelSeries Arctis Nova Elite\nExec="@
        + exe + " --hidden\nIcon=audio-headphones\nTerminal=false\nCategories=AudioVideo;\nX-GNOME-Autostart-enabled=true\n"@
}

pub fn autostart_entry(exe: &str) -> (r: String)
    ensures
        r@ == autostart_entry_spec(exe@),
{
    let mut s = string_of_str(
        "[Desktop Entry]\nType=Application\nName=Arctis Nova Elite ChatMix\nComment=ChatMix and battery monitoring for SteelSeries Arctis Nova Elite\nExec=",
    );
    append_str(&mut s, exe);
    append_str(
        &mut s,
        " --hidden\nIcon=audio-headphones\nTerminal=false\nCategories=AudioVideo;\nX-GNOME-Autostart-enabled=true\n",
    );
    s
}

/// The application entry's path under `home`:
/// `<home>/.local/share/applications/<app id>.desktop`.
pub open spec fn app_entry_path_spec(home: Seq<char>, app_id: Seq<char>) -> Seq<char> {
    join_spec(join_spec(home, ".local/share/applications"@), app_id + ".desktop"@)
}

pub fn app_entry_path(home: &str, app_id: &str) -> (r: String)
    ensures
        r@ == app_entry_path_spec(home@, app_id@),
{
    let d = join(home, ".local/share/applications");
    let mut f = string_of_str(app_id);
    append_str(&mut f, ".desktop");
    join(d.as_str(), f.as_str())
}

/// The hidden application entry's content for the executable at `exec`.
pub open spec fn app_entry_spec(exec: Seq<char>) -> Seq<char> {
    "[Desktop Entry]\nType=Application\nName=ChatMix\nComment=SteelSeries Arctis Nova Elite ChatMix and clipping\nExec="@
        + exec + "\nIcon=audio-headphones\nCategories=AudioVideo;Audio;\nStartupWMClass=arctis-chatmix\nNoDisplay=true\n"@
}

pub fn app_entry(exec: &str) -> (r: String)
    ensures
        r@ == app_entry_spec(exec@),
{
    let mut s = string_of_str(
        "[Desktop Entry]\nType=Application\nName=ChatMix\nComment=SteelSeries Arctis Nova Elite ChatMix and clipping\nExec=",
    );
    append_str(&mut s, exec);
    append_str(&mut s, "\nIcon=audio-headphones\nCategories=AudioVideo;Audio;\nStartupWMClass=arctis-chatmix\nNoDisplay=true\n");
    s
}

/// The entry is rewritten only when the file is missing, unreadable, or
/// holds something else.
pub fn needs_write(existing: Option<&str>, body: &str) -> (r: bool)
    ensures
        r == (match existing {
            Some(e) => e@ != body@,
            None => true,
        }),
{
    match existing {
        Some(e) => {
            let a = crate::text::chars_of(e);
            !crate::text::chars_eq_str(&a, body)
        },
        None => true,
    }
}

} // verus!
