//! Clip settings: the `key=value` file and its defaults.
use vstd::prelude::*;

use crate::paths::{join, join_spec};
use crate::text::{
    append_str, chars_eq_str, chars_of, decimal, decimal_string, filter_map, join_lines,
    lemma_filter_map_step, lines_seq, lines_str, parse_u32_chars, parse_unsigned, push_line,
    split_once, split_once_chars, string_of, string_of_str, trim, trim_chars, views,
};

verus! {

/// The clip settings.
#[derive(Debug, Clone)]
pub struct ClipSettings {
    pub buffer_length: u32,
    pub bitrate_mbps: u32,
    pub auto_arm: bool,
    pub always_armed: bool,
    pub per_source_tracks: bool,
    pub mic_capture: bool,
    pub storage_path: String,
    /// None means no disk cap.
    pub disk_cap_gb: Option<u32>,
    /// Set once the user has confirmed the screen pick in the onboarding
    /// wizard.
    pub onboarding_complete: bool,
}

/// The abstract value of the settings, the storage path by its characters.
pub struct SettingsView {
    pub buffer_length: u32,
    pub bitrate_mbps: u32,
    pub auto_arm: bool,
    pub always_armed: bool,
    pub per_source_tracks: bool,
    pub mic_capture: bool,
    pub storage_path: Seq<char>,
    pub disk_cap_gb: Option<u32>,
    pub onboarding_complete: bool,
}

pub open spec fn settings_view(s: ClipSettings) -> SettingsView {
    SettingsView {
        buffer_length: s.buffer_length,
        bitrate_mbps: s.bitrate_mbps,
        auto_arm: s.auto_arm,
        always_armed: s.always_armed,
        per_source_tracks: s.per_source_tracks,
        mic_capture: s.mic_capture,
        storage_path: s.storage_path@,
        disk_cap_gb: s.disk_cap_gb,
        onboarding_complete: s.onboarding_complete,
    }
}

/// 60 s buffer, 25 Mbps, armed automatically but not always, every audio
/// track, clips in `$HOME/Videos/Clips`, no disk cap, onboarding not done.
pub open spec fn defaults_spec(home: Seq<char>) -> SettingsView {
    SettingsView {
        buffer_length: 60,
        bitrate_mbps: 25,
        auto_arm: true,
        always_armed: false,
        per_source_tracks: true,
        mic_capture: true,
        storage_path: join_spec(home, "Videos/Clips"@),
        disk_cap_gb: None,
        onboarding_complete: false,
    }
}

impl ClipSettings {
    /// The defaults for a user whose home directory is `home`.
    pub fn with_home(home: &str) -> (r: ClipSettings)
        ensures
            settings_view(r) == defaults_spec(home@),
    {
        ClipSettings {
            buffer_length: 60,
            bitrate_mbps: 25,
            auto_arm: true,
            always_armed: false,
            per_source_tracks: true,
            mic_capture: true,
            storage_path: join(home, "Videos/Clips"),
            disk_cap_gb: None,
            onboarding_complete: false,
        }
    }
}

impl Default for ClipSettings {
    /// The defaults with no home directory known.
    fn default() -> (r: ClipSettings)
        ensures
            settings_view(r) == defaults_spec(Seq::<char>::empty()),
    {
        proof {
            reveal_strlit("");
        }
        ClipSettings::with_home("")
    }
}

pub open spec fn parse_u32_opt(s: Seq<char>) -> Option<u32> {
    match parse_unsigned(s, u32::MAX as nat) {
        Some(n) => Some(n as u32),
        None => None,
    }
}

/// One `key=value` line (both sides trimmed); lines without `=` and unknown
/// keys change nothing, and a number that does not parse leaves the old
/// value, except for the disk cap, which it clears.
pub open spec fn settings_line(s: SettingsView, line: Seq<char>) -> SettingsView {
    match split_once(line, '=') {
        None => s,
        Some((k0, v0)) => settings_kv(s, trim(k0), trim(v0)),
    }
}

/// The setting `k` given the value `v`.
pub open spec fn settings_kv(s: SettingsView, k: Seq<char>, v: Seq<char>) -> SettingsView {
    if k == "buffer_length"@ {
        match parse_u32_opt(v) {
            Some(n) => SettingsView { buffer_length: n, ..s },
            None => s,
        }
    } else if k == "bitrate_mbps"@ {
        match parse_u32_opt(v) {
            Some(n) => SettingsView { bitrate_mbps: n, ..s },
            None => s,
        }
    } else if k == "auto_arm"@ {
        SettingsView { auto_arm: v == "1"@, ..s }
    } else if k == "always_armed"@ {
        SettingsView { always_armed: v == "1"@, ..s }
    } else if k == "per_source_tracks"@ {
        SettingsView { per_source_tracks: v == "1"@, ..s }
    } else if k == "mic_capture"@ {
        SettingsView { mic_capture: v == "1"@, ..s }
    } else if k == "storage_path"@ {
        SettingsView { storage_path: v, ..s }
    } else if k == "disk_cap_gb"@ {
        SettingsView { disk_cap_gb: parse_u32_opt(v), ..s }
    } else if k == "onboarding_complete"@ {
        SettingsView { onboarding_complete: v == "1"@, ..s }
    } else {
        s
    }
}

pub open spec fn settings_lines(start: SettingsView, lines: Seq<Seq<char>>) -> SettingsView
    decreases lines.len(),
{
    if lines.len() == 0 {
        start
    } else {
        settings_line(settings_lines(start, lines.drop_last()), lines.last())
    }
}

/// The settings a file holds, starting from the defaults for `home`.
pub open spec fn parse_settings_spec(contents: Seq<char>, home: Seq<char>) -> SettingsView {
    settings_lines(defaults_spec(home), lines_seq(contents))
}

fn parse_u32_exec(v: &Vec<char>) -> (r: Option<u32>)
    ensures
        r == parse_u32_opt(v@),
{
    match parse_u32_chars(v) {
        Some(n) => Some(n),
        None => None,
    }
}

/// Read the settings file's content; a missing file reads as empty.
pub fn parse_settings(contents: &str, home: &str) -> (r: ClipSettings)
    ensures
        settings_view(r) == parse_settings_spec(contents@, home@),
{
    let mut s = ClipSettings::with_home(home);
    let lines = lines_str(contents);
    let ghost ls = lines_seq(contents@);
    let ghost start = defaults_spec(home@);
    let mut i: usize = 0;
    while i < lines.len()
        invariant
            i <= lines.len(),
            views(lines@) == ls,
            ls == lines_seq(contents@),
            settings_view(s) == settings_lines(start, ls.take(i as int)),
        decreases lines.len() - i,
    {
        assert(ls.take(i + 1).drop_last() =~= ls.take(i as int));
        assert(ls.take(i + 1).last() == lines@[i as int]@);
        match split_once_chars(&lines[i], '=') {
            None => {},
            Some((k0, v0)) => {
                let k = trim_chars(&k0);
                let v = trim_chars(&v0);
                if chars_eq_str(&k, "buffer_length") {
                    match parse_u32_exec(&v) {
                        Some(n) => s.buffer_length = n,
                        None => {},
                    }
                } else if chars_eq_str(&k, "bitrate_mbps") {
                    match parse_u32_exec(&v) {
                        Some(n) => s.bitrate_mbps = n,
                        None => {},
                    }
                } else if chars_eq_str(&k, "auto_arm") {
                    s.auto_arm = chars_eq_str(&v, "1");
                } else if chars_eq_str(&k, "always_armed") {
                    s.always_armed = chars_eq_str(&v, "1");
                } else if chars_eq_str(&k, "per_source_tracks") {
                    s.per_source_tracks = chars_eq_str(&v, "1");
                } else if chars_eq_str(&k, "mic_capture") {
                    s.mic_capture = chars_eq_str(&v, "1");
                } else if chars_eq_str(&k, "storage_path") {
                    s.storage_path = string_of(&v);
                } else if chars_eq_str(&k, "disk_cap_gb") {
                    s.disk_cap_gb = parse_u32_exec(&v);
                } else if chars_eq_str(&k, "onboarding_complete") {
                    s.onboarding_complete = chars_eq_str(&v, "1");
                }
            },
        }
        i = i + 1;
    }
    assert(ls.take(lines.len() as int) =~= ls);
    s
}

pub open spec fn flag(b: bool) -> Seq<char> {
    if b {
        "1"@
    } else {
        "0"@
    }
}

/// The lines of the settings file, in order; the disk cap only when set.
pub open spec fn settings_file_lines(s: SettingsView) -> Seq<Seq<char>> {
    seq![
        "buffer_length="@ + decimal(s.buffer_length as nat),
        "bitrate_mbps="@ + decimal(s.bitrate_mbps as nat),
        "auto_arm="@ + flag(s.auto_arm),
        "always_armed="@ + flag(s.always_armed),
        "per_source_tracks="@ + flag(s.per_source_tracks),
        "mic_capture="@ + flag(s.mic_capture),
        "storage_path="@ + s.storage_path
    ] + (match s.disk_cap_gb {
        Some(c) => seq!["disk_cap_gb="@ + decimal(c as nat)],
        None => seq![],
    }) + seq!["onboarding_complete="@ + flag(s.onboarding_complete)]
}

fn push_setting(out: &mut String, ghost_lines: Ghost<Seq<Seq<char>>>, key: &str, value: &str) -> (r: Ghost<Seq<Seq<char>>>)
    requires
        old(out)@ == join_lines(ghost_lines@),
    ensures
        final(out)@ == join_lines(r@),
        r@ == ghost_lines@.push(key@ + value@),
{
    let mut line = string_of_str(key);
    append_str(&mut line, value);
    proof {
        crate::text::lemma_join_lines_push(ghost_lines@, line@);
    }
    push_line(out, line.as_str());
    Ghost(ghost_lines@.push(key@ + value@))
}

fn flag_str(b: bool) -> (r: &'static str)
    ensures
        r@ == flag(b),
{
    if b {
        "1"
    } else {
        "0"
    }
}

/// The capture configuration the settings call for, recording the headset
/// through `monitor`; no portal token yet, 60 frames per second.
pub fn capture_config(s: &ClipSettings, monitor: &str) -> (r: crate::clips::CaptureConfig)
    ensures
        r.buffer_secs == s.buffer_length,
        r.bitrate_mbps == s.bitrate_mbps,
        r.framerate == 60,
        r.portal_restore_token is None,
        r.headset_sink_monitor@ == monitor@,
        r.include_per_source_tracks == s.per_source_tracks,
        r.include_mic == s.mic_capture,
        r.output_dir@ == s.storage_path@,
{
    crate::clips::CaptureConfig {
        buffer_secs: s.buffer_length,
        bitrate_mbps: s.bitrate_mbps,
        framerate: 60,
        portal_restore_token: None,
        headset_sink_monitor: string_of_str(monitor),
        include_per_source_tracks: s.per_source_tracks,
        include_mic: s.mic_capture,
        output_dir: string_of_str(s.storage_path.as_str()),
    }
}

/// Write the settings file.
pub fn serialize_settings(s: &ClipSettings) -> (r: String)
    ensures
        r@ == join_lines(settings_file_lines(settings_view(*s))),
{
    let mut out = String::new();
    let g = Ghost(Seq::<Seq<char>>::empty());
    assert(out@ =~= join_lines(g@));
    let g = push_setting(&mut out, g, "buffer_length=", decimal_string(s.buffer_length as u64).as_str());
    let g = push_setting(&mut out, g, "bitrate_mbps=", decimal_string(s.bitrate_mbps as u64).as_str());
    let g = push_setting(&mut out, g, "auto_arm=", flag_str(s.auto_arm));
    let g = push_setting(&mut out, g, "always_armed=", flag_str(s.always_armed));
    let g = push_setting(&mut out, g, "per_source_tracks=", flag_str(s.per_source_tracks));
    let g = push_setting(&mut out, g, "mic_capture=", flag_str(s.mic_capture));
    let g = push_setting(&mut out, g, "storage_path=", s.storage_path.as_str());
    let g = match s.disk_cap_gb {
        Some(c) => push_setting(&mut out, g, "disk_cap_gb=", decimal_string(c as u64).as_str()),
        None => g,
    };
    let g = push_setting(&mut out, g, "onboarding_complete=", flag_str(s.onboarding_complete));
    assert(g@ =~= settings_file_lines(settings_view(*s)));
    out
}


proof fn lemma_setting_line(key_eq: Seq<char>, key: Seq<char>, v: Seq<char>)
    requires
        key_eq =~= key + seq!['='],
        crate::text::free_of(key, '='),
        crate::text::plain_line(key_eq),
        crate::text::plain_line(v),
        key.len() > 0,
        !crate::text::is_ws(key[0]),
        !crate::text::is_ws(key.last()),
        trim(v) == v,
    ensures
        split_once(key_eq + v, '=') == Some((key, v)),
        trim(key) == key,
        crate::text::plain_line(key_eq + v),
{
    assert(key_eq + v =~= key + seq!['='] + v);
    crate::text::lemma_split_cons_at(key, '=', v);
    assert(crate::text::trim_start(key) == key);
    assert(crate::text::trim_end(key) == key);
    crate::text::lemma_plain_concat(key_eq, v);
}

proof fn lemma_trim_flag(b: bool)
    ensures
        trim(flag(b)) == flag(b),
        crate::text::plain_line(flag(b)),
{
    reveal_strlit("1");
    reveal_strlit("0");
    let f = flag(b);
    assert(f.len() == 1);
    assert(crate::text::trim_start(f) == f);
    assert(crate::text::trim_end(f) == f);
}

proof fn lemma_flag_one(b: bool)
    ensures
        (flag(b) == "1"@) == b,
{
    reveal_strlit("1");
    reveal_strlit("0");
    assert("0"@[0] == '0');
}

/// The keys the settings file knows, pairwise distinct.
proof fn lemma_keys()
    ensures
        "buffer_length"@.len() == 13,
        "bitrate_mbps"@.len() == 12,
        "auto_arm"@.len() == 8,
        "always_armed"@.len() == 12,
        "per_source_tracks"@.len() == 17,
        "mic_capture"@.len() == 11,
        "storage_path"@.len() == 12,
        "disk_cap_gb"@.len() == 11,
        "onboarding_complete"@.len() == 19,
        "bitrate_mbps"@[0] == 'b',
        "always_armed"@[0] == 'a',
        "storage_path"@[0] == 's',
        "mic_capture"@[0] == 'm',
        "disk_cap_gb"@[0] == 'd',
{
    reveal_strlit("buffer_length");
    reveal_strlit("bitrate_mbps");
    reveal_strlit("auto_arm");
    reveal_strlit("always_armed");
    reveal_strlit("per_source_tracks");
    reveal_strlit("mic_capture");
    reveal_strlit("storage_path");
    reveal_strlit("disk_cap_gb");
    reveal_strlit("onboarding_complete");
}

proof fn lemma_line_buffer(st: SettingsView, n: u32)
    ensures
        settings_line(st, "buffer_length="@ + decimal(n as nat)) == (SettingsView { buffer_length: n, ..st }),
        crate::text::plain_line("buffer_length="@ + decimal(n as nat)),
{
    reveal_strlit("buffer_length=");
    reveal_strlit("buffer_length");
    crate::text::lemma_trim_decimal(n as nat);
    crate::text::lemma_parse_decimal(n as nat, u32::MAX as nat);
    lemma_setting_line("buffer_length="@, "buffer_length"@, decimal(n as nat));
}

proof fn lemma_line_bitrate(st: SettingsView, n: u32)
    ensures
        settings_line(st, "bitrate_mbps="@ + decimal(n as nat)) == (SettingsView { bitrate_mbps: n, ..st }),
        crate::text::plain_line("bitrate_mbps="@ + decimal(n as nat)),
{
    reveal_strlit("bitrate_mbps=");
    reveal_strlit("bitrate_mbps");
    lemma_keys();
    crate::text::lemma_trim_decimal(n as nat);
    crate::text::lemma_parse_decimal(n as nat, u32::MAX as nat);
    lemma_setting_line("bitrate_mbps="@, "bitrate_mbps"@, decimal(n as nat));
}

proof fn lemma_line_auto_arm(st: SettingsView, b: bool)
    ensures
        settings_line(st, "auto_arm="@ + flag(b)) == (SettingsView { auto_arm: b, ..st }),
        crate::text::plain_line("auto_arm="@ + flag(b)),
{
    reveal_strlit("auto_arm=");
    reveal_strlit("auto_arm");
    lemma_keys();
    lemma_trim_flag(b);
    lemma_flag_one(b);
    lemma_setting_line("auto_arm="@, "auto_arm"@, flag(b));
}

proof fn lemma_line_always_armed(st: SettingsView, b: bool)
    ensures
        settings_line(st, "always_armed="@ + flag(b)) == (SettingsView { always_armed: b, ..st }),
        crate::text::plain_line("always_armed="@ + flag(b)),
{
    reveal_strlit("always_armed=");
    reveal_strlit("always_armed");
    lemma_keys();
    lemma_trim_flag(b);
    lemma_flag_one(b);
    lemma_setting_line("always_armed="@, "always_armed"@, flag(b));
}

proof fn lemma_line_per_source(st: SettingsView, b: bool)
    ensures
        settings_line(st, "per_source_tracks="@ + flag(b)) == (SettingsView { per_source_tracks: b, ..st }),
        crate::text::plain_line("per_source_tracks="@ + flag(b)),
{
    reveal_strlit("per_source_tracks=");
    reveal_strlit("per_source_tracks");
    lemma_keys();
    lemma_trim_flag(b);
    lemma_flag_one(b);
    lemma_setting_line("per_source_tracks="@, "per_source_tracks"@, flag(b));
}

proof fn lemma_line_mic(st: SettingsView, b: bool)
    ensures
        settings_line(st, "mic_capture="@ + flag(b)) == (SettingsView { mic_capture: b, ..st }),
        crate::text::plain_line("mic_capture="@ + flag(b)),
{
    reveal_strlit("mic_capture=");
    reveal_strlit("mic_capture");
    lemma_keys();
    lemma_trim_flag(b);
    lemma_flag_one(b);
    lemma_setting_line("mic_capture="@, "mic_capture"@, flag(b));
}

proof fn lemma_line_storage(st: SettingsView, p: Seq<char>)
    requires
        crate::text::plain_line(p),
        trim(p) == p,
    ensures
        settings_line(st, "storage_path="@ + p) == (SettingsView { storage_path: p, ..st }),
        crate::text::plain_line("storage_path="@ + p),
{
    reveal_strlit("storage_path=");
    reveal_strlit("storage_path");
    lemma_keys();
    lemma_setting_line("storage_path="@, "storage_path"@, p);
}

proof fn lemma_line_cap(st: SettingsView, c: u32)
    ensures
        settings_line(st, "disk_cap_gb="@ + decimal(c as nat)) == (SettingsView { disk_cap_gb: Some(c), ..st }),
        crate::text::plain_line("disk_cap_gb="@ + decimal(c as nat)),
{
    reveal_strlit("disk_cap_gb=");
    reveal_strlit("disk_cap_gb");
    lemma_keys();
    crate::text::lemma_trim_decimal(c as nat);
    crate::text::lemma_parse_decimal(c as nat, u32::MAX as nat);
    lemma_setting_line("disk_cap_gb="@, "disk_cap_gb"@, decimal(c as nat));
}

proof fn lemma_line_onboarding(st: SettingsView, b: bool)
    ensures
        settings_line(st, "onboarding_complete="@ + flag(b)) == (SettingsView { onboarding_complete: b, ..st }),
        crate::text::plain_line("onboarding_complete="@ + flag(b)),
{
    reveal_strlit("onboarding_complete=");
    reveal_strlit("onboarding_complete");
    reveal_strlit("disk_cap_gb");
    lemma_keys();
    assert("onboarding_complete"@[0] == 'o');
    lemma_trim_flag(b);
    lemma_flag_one(b);
    lemma_setting_line("onboarding_complete="@, "onboarding_complete"@, flag(b));
}

/// Reading lines one after the other: the settings after `lines` and then
/// one more line.
proof fn lemma_lines_push(d: SettingsView, lines: Seq<Seq<char>>, line: Seq<char>)
    ensures
        settings_lines(d, lines.push(line)) == settings_line(settings_lines(d, lines), line),
{
    assert(lines.push(line).drop_last() =~= lines);
}

/// Writing the settings and reading them back gives the same settings,
/// whatever the defaults, provided the storage path holds no line break and
/// no surrounding whitespace (the reader trims values).
pub proof fn law_settings_round_trip(s: SettingsView, home: Seq<char>)
    requires
        crate::text::plain_line(s.storage_path),
        trim(s.storage_path) == s.storage_path,
    ensures
        parse_settings_spec(join_lines(settings_file_lines(s)), home) == s,
{
    let d = defaults_spec(home);
    let a1 = "buffer_length="@ + decimal(s.buffer_length as nat);
    let a2 = "bitrate_mbps="@ + decimal(s.bitrate_mbps as nat);
    let a3 = "auto_arm="@ + flag(s.auto_arm);
    let a4 = "always_armed="@ + flag(s.always_armed);
    let a5 = "per_source_tracks="@ + flag(s.per_source_tracks);
    let a6 = "mic_capture="@ + flag(s.mic_capture);
    let a7 = "storage_path="@ + s.storage_path;
    let last = "onboarding_complete="@ + flag(s.onboarding_complete);
    let e: Seq<Seq<char>> = Seq::empty();
    assert(settings_lines(d, e) == d);
    lemma_line_buffer(d, s.buffer_length);
    lemma_lines_push(d, e, a1);
    let s1 = SettingsView { buffer_length: s.buffer_length, ..d };
    lemma_line_bitrate(s1, s.bitrate_mbps);
    lemma_lines_push(d, e.push(a1), a2);
    let s2 = SettingsView { bitrate_mbps: s.bitrate_mbps, ..s1 };
    lemma_line_auto_arm(s2, s.auto_arm);
    lemma_lines_push(d, e.push(a1).push(a2), a3);
    let s3 = SettingsView { auto_arm: s.auto_arm, ..s2 };
    lemma_line_always_armed(s3, s.always_armed);
    lemma_lines_push(d, e.push(a1).push(a2).push(a3), a4);
    let s4 = SettingsView { always_armed: s.always_armed, ..s3 };
    lemma_line_per_source(s4, s.per_source_tracks);
    lemma_lines_push(d, e.push(a1).push(a2).push(a3).push(a4), a5);
    let s5 = SettingsView { per_source_tracks: s.per_source_tracks, ..s4 };
    lemma_line_mic(s5, s.mic_capture);
    lemma_lines_push(d, e.push(a1).push(a2).push(a3).push(a4).push(a5), a6);
    let s6 = SettingsView { mic_capture: s.mic_capture, ..s5 };
    lemma_line_storage(s6, s.storage_path);
    let l7 = e.push(a1).push(a2).push(a3).push(a4).push(a5).push(a6).push(a7);
    lemma_lines_push(d, e.push(a1).push(a2).push(a3).push(a4).push(a5).push(a6), a7);
    let s7 = SettingsView { storage_path: s.storage_path, ..s6 };
    assert(settings_lines(d, l7) == s7);
    let l = settings_file_lines(s);
    match s.disk_cap_gb {
        Some(c) => {
            let cap = "disk_cap_gb="@ + decimal(c as nat);
            lemma_line_cap(s7, c);
            lemma_lines_push(d, l7, cap);
            let s8 = SettingsView { disk_cap_gb: Some(c), ..s7 };
            lemma_line_onboarding(s8, s.onboarding_complete);
            lemma_lines_push(d, l7.push(cap), last);
            assert(l =~= l7.push(cap).push(last));
            assert forall|i: int| 0 <= i < l.len() implies crate::text::plain_line(#[trigger] l[i]) by {
            }
            crate::text::lemma_lines_join(l);
        },
        None => {
            lemma_line_onboarding(s7, s.onboarding_complete);
            lemma_lines_push(d, l7, last);
            assert(l =~= l7.push(last));
            assert forall|i: int| 0 <= i < l.len() implies crate::text::plain_line(#[trigger] l[i]) by {
            }
            crate::text::lemma_lines_join(l);
        },
    }
}

} // verus!
