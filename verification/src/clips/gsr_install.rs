//! Installing gpu-screen-recorder from Flathub: the commands and how the
//! installer's output reads.
use vstd::prelude::*;

use crate::text::{append_str, chars_of, push_string, string_of, string_of_str, string_views, trim, trim_chars};

verus! {

pub const GSR_APP_ID: &'static str = "com.dec05eba.gpu_screen_recorder";

pub const GSR_TERMINAL_INSTALL_COMMAND: &'static str =
    "flatpak install --user flathub com.dec05eba.gpu_screen_recorder";

/// Progress of an install, as the onboarding wizard shows it.
#[derive(Debug)]
pub enum InstallProgress {
    Started,
    /// A status line from the installer's error stream.
    Status(String),
    Done,
    Failed { reason: String },
}

/// `flatpak info <app id>`: exits 0 when the recorder is installed.
pub fn info_args() -> (r: Vec<String>)
    ensures
        string_views(r@) == seq!["info"@, "com.dec05eba.gpu_screen_recorder"@],
{
    let mut v: Vec<String> = Vec::new();
    push_string(&mut v, "info");
    push_string(&mut v, "com.dec05eba.gpu_screen_recorder");
    v
}

/// `flatpak install --user --noninteractive --assumeyes flathub <app id>`.
pub fn install_args() -> (r: Vec<String>)
    ensures
        string_views(r@) == seq![
            "install"@, "--user"@, "--noninteractive"@, "--assumeyes"@, "flathub"@,
            "com.dec05eba.gpu_screen_recorder"@
        ],
{
    let mut v: Vec<String> = Vec::new();
    push_string(&mut v, "install");
    push_string(&mut v, "--user");
    push_string(&mut v, "--noninteractive");
    push_string(&mut v, "--assumeyes");
    push_string(&mut v, "flathub");
    push_string(&mut v, "com.dec05eba.gpu_screen_recorder");
    v
}

/// A line the installer wrote to its error stream, as progress: the line
/// trimmed, nothing for a blank line.
pub fn status_line(line: &str) -> (r: Option<InstallProgress>)
    ensures
        match r {
            Some(p) => trim(line@).len() > 0 && (p matches InstallProgress::Status(t) && t@ == trim(line@)),
            None => trim(line@).len() == 0,
        },
{
    let v = chars_of(line);
    let t = trim_chars(&v);
    if t.len() == 0 {
        None
    } else {
        Some(InstallProgress::Status(string_of(&t)))
    }
}

/// The AppStream URI that opens the recorder's page in the software store.
pub fn app_store_url() -> (r: String)
    ensures
        r@ == "appstream://"@ + "com.dec05eba.gpu_screen_recorder"@,
{
    let mut s = string_of_str("appstream://");
    append_str(&mut s, GSR_APP_ID);
    s
}

} // verus!
