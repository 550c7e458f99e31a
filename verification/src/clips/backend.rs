//! The capture backend's own logic: where its fixtures live, the recorder's
//! command line, the checks a save-callback line must pass, and the
//! supervisor that decides what to do on each command and each recorder
//! exit. Spawning, signalling and reading the FIFO are done by the caller.
use vstd::prelude::*;


use crate::clips::{BackendEvent, CaptureConfig, ClipCommand};
use crate::paths::{base_name, join, join_spec, split_path};
use crate::text::{
    chars_of, decimal, decimal_string, ends_with, ends_with_str, push_char, push_string,
    starts_with, starts_with_chars, starts_with_str, string_of, string_of_str, string_views,
    trim, trim_chars,
};

verus! {

pub open spec fn fixtures_dir_spec(storage_dir: Seq<char>) -> Seq<char> {
    join_spec(storage_dir, ".arctis"@)
}

/// Hidden subdirectory inside the storage dir for save-callback fixtures.
pub fn fixtures_dir(storage_dir: &str) -> (r: String)
    ensures
        r@ == fixtures_dir_spec(storage_dir@),
{
    join(storage_dir, ".arctis")
}

/// Path to the extracted save-callback script.
pub fn save_callback_path(storage_dir: &str) -> (r: String)
    ensures
        r@ == join_spec(fixtures_dir_spec(storage_dir@), "save_callback.sh"@),
{
    let d = fixtures_dir(storage_dir);
    join(d.as_str(), "save_callback.sh")
}

/// Path to the FIFO the callback writes to.
pub fn save_fifo_path(storage_dir: &str) -> (r: String)
    ensures
        r@ == join_spec(fixtures_dir_spec(storage_dir@), "save.fifo"@),
{
    let d = fixtures_dir(storage_dir);
    join(d.as_str(), "save.fifo")
}

pub open spec fn gsr_portal_token_path_spec(storage_dir: Seq<char>) -> Seq<char> {
    join_spec(fixtures_dir_spec(storage_dir), "gsr_portal.token"@)
}

/// Path to the recorder's portal session restore-token file, kept beside the
/// other fixtures so it is not shared with a standalone recorder.
pub fn gsr_portal_token_path(storage_dir: &str) -> (r: String)
    ensures
        r@ == gsr_portal_token_path_spec(storage_dir@),
{
    let d = fixtures_dir(storage_dir);
    join(d.as_str(), "gsr_portal.token")
}

/// The recorder's arguments that do not depend on the audio tracks.
pub open spec fn gsr_base_args(c: CaptureConfig, save_callback_path: Seq<char>, output_dir: Seq<char>) -> Seq<Seq<char>> {
    seq![
        "-w"@, "portal"@,
        "-restore-portal-session"@, "yes"@,
        "-portal-session-token-filepath"@, gsr_portal_token_path_spec(c.output_dir@),
        "-r"@, decimal(c.buffer_secs as nat),
        "-bm"@, "cbr"@,
        "-q"@, decimal(c.bitrate_mbps as nat),
        "-k"@, "h264"@,
        "-c"@, "mp4"@,
        "-ac"@, "aac"@,
        "-f"@, decimal(c.framerate as nat),
        "-o"@, output_dir,
        "-sc"@, save_callback_path,
        "-restart-replay-on-save"@, "yes"@
    ]
}

/// The audio tracks: the headset mix-down first, then the four per-source
/// sink monitors when enabled, then the virtual mic source when enabled.
pub open spec fn gsr_audio_args(c: CaptureConfig) -> Seq<Seq<char>> {
    seq!["-a"@, "device:"@ + c.headset_sink_monitor@] + (if c.include_per_source_tracks {
        seq![
            "-a"@, "device:SteelSeries_Game.monitor"@,
            "-a"@, "device:SteelSeries_Chat.monitor"@,
            "-a"@, "device:SteelSeries_Music.monitor"@,
            "-a"@, "device:SteelSeries_Aux.monitor"@
        ]
    } else {
        seq![]
    }) + (if c.include_mic {
        seq!["-a"@, "device:SteelSeries_Mic"@]
    } else {
        seq![]
    })
}

pub open spec fn gsr_args_spec(c: CaptureConfig, save_callback_path: Seq<char>, output_dir: Seq<char>) -> Seq<Seq<char>> {
    gsr_base_args(c, save_callback_path, output_dir) + gsr_audio_args(c)
}

/// The recorder's audio tracks follow its other arguments: first the
/// headset mix-down, then, with per-source tracks on, the monitor of each
/// of the app's virtual sinks (Game, Chat, Music, Aux) in that order, each
/// once, then the virtual mic when it is included; each track is given
/// with `-a`.
pub proof fn law_tracks_are_the_virtual_sink_monitors(c: CaptureConfig, cb: Seq<char>, out: Seq<char>)
    ensures
        ({
            let a = gsr_args_spec(c, cb, out);
            let b = gsr_base_args(c, cb, out).len() as int;
            let n: int = if c.include_per_source_tracks {
                crate::audio::sinks::all_sinks().len() as int
            } else {
                0
            };
            &&& a.len() == b + 2 + 2 * n + if c.include_mic {
                2int
            } else {
                0
            }
            &&& a[b] == "-a"@
            &&& a[b + 1] == "device:"@ + c.headset_sink_monitor@
            &&& forall|k: int|
                0 <= k < n ==> a[b + 2 + 2 * k] == "-a"@ && #[trigger] a[b + 3 + 2 * k] == "device:"@
                    + crate::audio::sinks::all_sinks()[k].0 + ".monitor"@
            &&& c.include_mic ==> a[b + 2 + 2 * n] == "-a"@ && a[b + 3 + 2 * n] == "device:"@
                + crate::audio::sinks::all_sources()[0].0
        }),
{
    reveal_strlit("device:");
    reveal_strlit(".monitor");
    reveal_strlit("SteelSeries_Game");
    reveal_strlit("SteelSeries_Chat");
    reveal_strlit("SteelSeries_Music");
    reveal_strlit("SteelSeries_Aux");
    reveal_strlit("SteelSeries_Mic");
    reveal_strlit("device:SteelSeries_Game.monitor");
    reveal_strlit("device:SteelSeries_Chat.monitor");
    reveal_strlit("device:SteelSeries_Music.monitor");
    reveal_strlit("device:SteelSeries_Aux.monitor");
    reveal_strlit("device:SteelSeries_Mic");
    let sinks = crate::audio::sinks::all_sinks();
    assert("device:SteelSeries_Game.monitor"@ =~= "device:"@ + sinks[0].0 + ".monitor"@);
    assert("device:SteelSeries_Chat.monitor"@ =~= "device:"@ + sinks[1].0 + ".monitor"@);
    assert("device:SteelSeries_Music.monitor"@ =~= "device:"@ + sinks[2].0 + ".monitor"@);
    assert("device:SteelSeries_Aux.monitor"@ =~= "device:"@ + sinks[3].0 + ".monitor"@);
    assert("device:SteelSeries_Mic"@ =~= "device:"@ + crate::audio::sinks::all_sources()[0].0);
    let a = gsr_args_spec(c, cb, out);
    let b = gsr_base_args(c, cb, out).len() as int;
    let tr = gsr_audio_args(c);
    assert forall|j: int| 0 <= j < tr.len() implies a[b + j] == tr[j] by {}
}

/// Each setting reaches the recorder behind its own flag: the buffer length
/// behind `-r`, the bitrate behind `-q`, the frame rate behind `-f`, the
/// output directory behind `-o` and the save callback behind `-sc`.
pub proof fn law_settings_follow_their_flags(c: CaptureConfig, cb: Seq<char>, out: Seq<char>)
    ensures
        ({
            let a = gsr_args_spec(c, cb, out);
            &&& exists|i: int| 0 <= i < a.len() - 1 && #[trigger] a[i] == "-r"@ && a[i + 1] == decimal(c.buffer_secs as nat)
            &&& exists|i: int| 0 <= i < a.len() - 1 && #[trigger] a[i] == "-q"@ && a[i + 1] == decimal(c.bitrate_mbps as nat)
            &&& exists|i: int| 0 <= i < a.len() - 1 && #[trigger] a[i] == "-f"@ && a[i + 1] == decimal(c.framerate as nat)
            &&& exists|i: int| 0 <= i < a.len() - 1 && #[trigger] a[i] == "-o"@ && a[i + 1] == out
            &&& exists|i: int| 0 <= i < a.len() - 1 && #[trigger] a[i] == "-sc"@ && a[i + 1] == cb
        }),
{
    let a = gsr_args_spec(c, cb, out);
    let base = gsr_base_args(c, cb, out);
    assert forall|j: int| 0 <= j < base.len() implies a[j] == base[j] by {}
    assert(a[6] == "-r"@ && a[7] == decimal(c.buffer_secs as nat));
    assert(a[10] == "-q"@ && a[11] == decimal(c.bitrate_mbps as nat));
    assert(a[18] == "-f"@ && a[19] == decimal(c.framerate as nat));
    assert(a[20] == "-o"@ && a[21] == out);
    assert(a[22] == "-sc"@ && a[23] == cb);
}

/// Build the gpu-screen-recorder command line for a capture config.
pub fn build_gsr_args(config: &CaptureConfig, save_callback_path: &str, output_dir: &str) -> (args: Vec<String>)
    ensures
        string_views(args@) == gsr_args_spec(*config, save_callback_path@, output_dir@),
{
    let token = gsr_portal_token_path(config.output_dir.as_str());
    let mut args: Vec<String> = Vec::new();
    push_string(&mut args, "-w");
    push_string(&mut args, "portal");
    push_string(&mut args, "-restore-portal-session");
    push_string(&mut args, "yes");
    push_string(&mut args, "-portal-session-token-filepath");
    push_string(&mut args, token.as_str());
    push_string(&mut args, "-r");
    let secs = decimal_string(config.buffer_secs as u64);
    push_string(&mut args, secs.as_str());
    push_string(&mut args, "-bm");
    push_string(&mut args, "cbr");
    push_string(&mut args, "-q");
    let rate = decimal_string(config.bitrate_mbps as u64);
    push_string(&mut args, rate.as_str());
    push_string(&mut args, "-k");
    push_string(&mut args, "h264");
    push_string(&mut args, "-c");
    push_string(&mut args, "mp4");
    push_string(&mut args, "-ac");
    push_string(&mut args, "aac");
    push_string(&mut args, "-f");
    let fps = decimal_string(config.framerate as u64);
    push_string(&mut args, fps.as_str());
    push_string(&mut args, "-o");
    push_string(&mut args, output_dir);
    push_string(&mut args, "-sc");
    push_string(&mut args, save_callback_path);
    push_string(&mut args, "-restart-replay-on-save");
    push_string(&mut args, "yes");
    assert(string_views(args@) =~= gsr_base_args(*config, save_callback_path@, output_dir@));
    let ghost base = string_views(args@);
    push_string(&mut args, "-a");
    let mut track0 = string_of_str("device:");
    crate::text::append_str(&mut track0, config.headset_sink_monitor.as_str());
    push_string(&mut args, track0.as_str());
    let ghost after_mix = string_views(args@);
    assert(after_mix =~= base + seq!["-a"@, "device:"@ + config.headset_sink_monitor@]);
    if config.include_per_source_tracks {
        push_string(&mut args, "-a");
        push_string(&mut args, "device:SteelSeries_Game.monitor");
        push_string(&mut args, "-a");
        push_string(&mut args, "device:SteelSeries_Chat.monitor");
        push_string(&mut args, "-a");
        push_string(&mut args, "device:SteelSeries_Music.monitor");
        push_string(&mut args, "-a");
        push_string(&mut args, "device:SteelSeries_Aux.monitor");
    }
    let ghost after_sources = string_views(args@);
    if config.include_mic {
        push_string(&mut args, "-a");
        push_string(&mut args, "device:SteelSeries_Mic");
    }
    assert(string_views(args@) =~= gsr_args_spec(*config, save_callback_path@, output_dir@));
    args
}


/// `char::is_control`: the Unicode general category Cc, U+0000 to U+001F
/// and U+007F to U+009F.
pub open spec fn is_control(c: char) -> bool {
    (c as u32) <= 0x1f || (0x7f <= (c as u32) && (c as u32) <= 0x9f)
}

pub fn is_control_char(c: char) -> (r: bool)
    ensures
        r == is_control(c),
{
    let n = c as u32;
    n <= 0x1f || (0x7f <= n && n <= 0x9f)
}

/// The characters of `s` that are not control characters, in order.
pub open spec fn strip_controls(s: Seq<char>) -> Seq<char>
    decreases s.len(),
{
    if s.len() == 0 {
        seq![]
    } else if is_control(s.last()) {
        strip_controls(s.drop_last())
    } else {
        strip_controls(s.drop_last()).push(s.last())
    }
}

/// At most the first `n` characters of `s`.
pub open spec fn first_chars(s: Seq<char>, n: nat) -> Seq<char> {
    if s.len() <= n {
        s
    } else {
        s.take(n as int)
    }
}

/// A log-safe rendering of an untrusted line: control characters removed,
/// at most `max` characters kept, and an ellipsis appended when the line is
/// longer than `max` bytes.
pub open spec fn truncate_for_log_spec(s: &str, max: usize) -> Seq<char> {
    let cleaned = first_chars(strip_controls(s@), max as nat);
    if s.len() > max {
        cleaned.push('\u{2026}')
    } else {
        cleaned
    }
}

pub fn truncate_for_log(s: &str, max: usize) -> (r: String)
    ensures
        r@ == truncate_for_log_spec(s, max),
{
    let v = chars_of(s);
    let mut out = String::new();
    let mut kept: usize = 0;
    let mut i: usize = 0;
    while i < v.len()
        invariant
            i <= v.len(),
            v@ == s@,
            kept <= max,
            out@.len() == kept,
            out@ == first_chars(strip_controls(v@.take(i as int)), max as nat),
        decreases v.len() - i,
    {
        let ghost t = v@.take(i + 1);
        assert(t.drop_last() =~= v@.take(i as int));
        assert(t.last() == v@[i as int]);
        let c = v[i];
        if !is_control_char(c) && kept < max {
            push_char(&mut out, c);
            kept = kept + 1;
            assert(out@ =~= first_chars(strip_controls(t), max as nat));
        } else if !is_control_char(c) {
            assert(strip_controls(t).take(max as int) =~= strip_controls(v@.take(i as int)).take(max as int));
        }
        i = i + 1;
    }
    assert(v@.take(v.len() as int) =~= v@);
    if s.len() > max {
        push_char(&mut out, '\u{2026}');
    }
    out
}

/// Why a save-callback line was refused.
#[derive(Debug, Clone, Copy, PartialEq, Eq, Structural)]
pub enum FifoLineRejection {
    Empty,
    NotCanonicalizable,
    OutsideStorageDir,
    NotMp4,
    DoesNotExist,
    NotARegularFile,
    Stale,
}

/// Oldest file modification, in nanoseconds before now, that a save line may
/// name: the recorder writes the file and the line within milliseconds.
pub const FIFO_MAX_MTIME_AGE_NANOS: u64 = 30_000_000_000;

/// `Path::starts_with` on canonical paths (absolute, no `.` or `..`
/// components, no doubled or trailing separators): `p` is `dir` or lies
/// under it, component-wise.
pub open spec fn path_within(p: Seq<char>, dir: Seq<char>) -> bool {
    p == dir || starts_with(p, dir + seq!['/']) || (dir.len() > 0 && dir.last() == '/' && starts_with(p, dir))
}

/// `p.extension() == Some("mp4")`: the file name ends in `.mp4` after at
/// least one other character.
pub open spec fn has_mp4_extension(p: Seq<char>) -> bool {
    base_name(p).len() > 4 && ends_with(base_name(p), ".mp4"@)
}

/// What the filesystem said about the file a save line names: whether it is
/// a regular file, and its age (how long before now it was modified; zero
/// when the modification time lies in the future; None when it could not
/// be read).
pub type FileFacts = (bool, Option<u64>);

/// The checks on one save-callback line, in order. `canon_path` is the
/// canonical form of the trimmed line and `canon_storage` that of the storage
/// dir (None where canonicalisation failed); `facts` describe `canon_path`
/// (None where its metadata could not be read).
pub open spec fn validate_fifo_spec(
    line: Seq<char>,
    canon_path: Option<Seq<char>>,
    canon_storage: Option<Seq<char>>,
    facts: Option<FileFacts>,
) -> Result<Seq<char>, FifoLineRejection> {
    if trim(line).len() == 0 {
        Err(FifoLineRejection::Empty)
    } else if canon_path is None || canon_storage is None {
        Err(FifoLineRejection::NotCanonicalizable)
    } else if !path_within(canon_path.unwrap(), canon_storage.unwrap()) {
        Err(FifoLineRejection::OutsideStorageDir)
    } else if !has_mp4_extension(canon_path.unwrap()) {
        Err(FifoLineRejection::NotMp4)
    } else {
        match facts {
            None => Err(FifoLineRejection::DoesNotExist),
            Some((is_file, age)) => if !is_file {
                Err(FifoLineRejection::NotARegularFile)
            } else {
                match age {
                    None => Err(FifoLineRejection::Stale),
                    Some(a) => if a > FIFO_MAX_MTIME_AGE_NANOS {
                        Err(FifoLineRejection::Stale)
                    } else {
                        Ok(canon_path.unwrap())
                    },
                }
            },
        }
    }
}

pub open spec fn opt_view(o: Option<String>) -> Option<Seq<char>> {
    match o {
        Some(s) => Some(s@),
        None => None,
    }
}

fn path_within_exec(p: &Vec<char>, dir: &Vec<char>) -> (r: bool)
    ensures
        r == path_within(p@, dir@),
{
    if crate::text::chars_eq(p, dir) {
        return true;
    }
    let mut with_sep = dir.clone();
    with_sep.push('/');
    assert(with_sep@ =~= dir@ + seq!['/']);
    if starts_with_chars(p, &with_sep) {
        return true;
    }
    dir.len() > 0 && dir[dir.len() - 1] == '/' && starts_with_chars(p, dir)
}

/// Validate one line read from the save-callback FIFO against what the
/// filesystem said about it (see `validate_fifo_spec`). On success the
/// canonical path comes back.
pub fn validate_fifo_line(
    line: &str,
    canon_path: &Option<String>,
    canon_storage: &Option<String>,
    facts: Option<FileFacts>,
) -> (r: Result<String, FifoLineRejection>)
    ensures
        match r {
            Ok(p) => validate_fifo_spec(line@, opt_view(*canon_path), opt_view(*canon_storage), facts) == Ok::<Seq<char>, FifoLineRejection>(p@),
            Err(e) => validate_fifo_spec(line@, opt_view(*canon_path), opt_view(*canon_storage), facts) == Err::<Seq<char>, FifoLineRejection>(e),
        },
{
    let v = chars_of(line);
    let t = trim_chars(&v);
    if t.len() == 0 {
        return Err(FifoLineRejection::Empty);
    }
    let (p, d) = match (canon_path, canon_storage) {
        (Some(p), Some(d)) => (p, d),
        _ => {
            return Err(FifoLineRejection::NotCanonicalizable);
        },
    };
    let pv = chars_of(p.as_str());
    let dv = chars_of(d.as_str());
    if !path_within_exec(&pv, &dv) {
        return Err(FifoLineRejection::OutsideStorageDir);
    }
    let (_, name) = split_path(p.as_str());
    if !(name.len() > 4 && ends_with_str(&name, ".mp4")) {
        return Err(FifoLineRejection::NotMp4);
    }
    match facts {
        None => Err(FifoLineRejection::DoesNotExist),
        Some((is_file, age)) => {
            if !is_file {
                Err(FifoLineRejection::NotARegularFile)
            } else {
                match age {
                    None => Err(FifoLineRejection::Stale),
                    Some(a) => {
                        if a > FIFO_MAX_MTIME_AGE_NANOS {
                            Err(FifoLineRejection::Stale)
                        } else {
                            Ok(p.clone())
                        }
                    },
                }
            }
        },
    }
}


// ---------------------------------------------------------------------------
// Restart budget
// ---------------------------------------------------------------------------

/// Automatic restarts allowed within one window before the supervisor gives
/// up: a single transient failure heals, a runaway loop is stopped quickly.
pub const MAX_RESTARTS_PER_WINDOW: usize = 3;

/// The rolling window over which restarts are counted, in milliseconds.
pub const RESTART_WINDOW_MS: u64 = 30_000;

/// Time from `then` to `now`, zero when `then` is later.
pub open spec fn elapsed(now: u64, then: u64) -> nat {
    if now >= then {
        (now - then) as nat
    } else {
        0
    }
}

/// The attempts left after dropping, from the front, those a full window or
/// more before `now`.
pub open spec fn age_out(q: Seq<u64>, now: u64) -> Seq<u64>
    decreases q.len(),
{
    if q.len() > 0 && elapsed(now, q[0]) >= RESTART_WINDOW_MS {
        age_out(q.drop_first(), now)
    } else {
        q
    }
}

#[derive(Debug, Clone, Copy, PartialEq, Eq, Structural)]
pub enum RestartOutcome {
    /// An attempt was recorded: restart the recorder.
    Restarted,
    /// The window is full: report and do not restart.
    Surrendered,
}

/// A recorder death at `now`: age out old attempts, then record one more if
/// the window has room.
pub open spec fn died_spec(q: Seq<u64>, now: u64) -> (Seq<u64>, RestartOutcome) {
    let a = age_out(q, now);
    if a.len() < MAX_RESTARTS_PER_WINDOW {
        (a.push(now), RestartOutcome::Restarted)
    } else {
        (a, RestartOutcome::Surrendered)
    }
}

fn window_passed(now: u64, then: u64) -> (r: bool)
    ensures
        r == (elapsed(now, then) >= RESTART_WINDOW_MS),
{
    let e = if now >= then {
        now - then
    } else {
        0
    };
    e >= RESTART_WINDOW_MS
}

/// The timestamps (milliseconds) of recent automatic restart attempts.
pub struct RestartLimiter {
    attempts: Vec<u64>,
}

impl View for RestartLimiter {
    type V = Seq<u64>;

    closed spec fn view(&self) -> Seq<u64> {
        self.attempts@
    }
}

impl RestartLimiter {
    pub fn new() -> (r: RestartLimiter)
        ensures
            r@ == Seq::<u64>::empty(),
    {
        RestartLimiter { attempts: Vec::new() }
    }

    /// Forget every attempt: the user asked for a fresh start.
    pub fn clear(&mut self)
        ensures
            final(self)@ == Seq::<u64>::empty(),
    {
        self.attempts = Vec::new();
    }

    /// How many attempts are on record.
    pub fn len(&self) -> (n: usize)
        ensures
            n == self@.len(),
    {
        self.attempts.len()
    }

    /// The recorder died at `now_ms`; decide whether to restart it.
    pub fn on_child_died(&mut self, now_ms: u64) -> (o: RestartOutcome)
        ensures
            (final(self)@, o) == died_spec(old(self)@, now_ms),
    {
        while self.attempts.len() > 0 && window_passed(now_ms, self.attempts[0])
            invariant
                age_out(old(self)@, now_ms) == age_out(self@, now_ms),
            decreases self.attempts.len(),
        {
            let ghost before = self.attempts@;
            self.attempts.remove(0);
            assert(self.attempts@ =~= before.drop_first());
        }
        if self.attempts.len() < MAX_RESTARTS_PER_WINDOW {
            self.attempts.push(now_ms);
            RestartOutcome::Restarted
        } else {
            RestartOutcome::Surrendered
        }
    }
}

// ---------------------------------------------------------------------------
// Supervisor
// ---------------------------------------------------------------------------

/// Which of the recorder's save signals to send.
#[derive(Debug, Clone, Copy, PartialEq, Eq, Structural)]
pub enum SaveLength {
    /// The whole buffer.
    Full,
    /// The last 30 s.
    Short,
    /// The last 60 s.
    Medium,
    /// The last 120 s.
    Long,
}

/// Why the recorder is being armed; names the error reported on failure.
#[derive(Debug, Clone, Copy, PartialEq, Eq, Structural)]
pub enum ArmContext {
    StartReplay,
    Reconfigure,
    AutoRestart,
}

pub open spec fn context_label(c: ArmContext) -> Seq<char> {
    match c {
        ArmContext::StartReplay => "StartReplay"@,
        ArmContext::Reconfigure => "Reconfigure"@,
        ArmContext::AutoRestart => "auto-restart"@,
    }
}

impl ArmContext {
    pub fn label(&self) -> (r: String)
        ensures
            r@ == context_label(*self),
    {
        match self {
            ArmContext::StartReplay => string_of_str("StartReplay"),
            ArmContext::Reconfigure => string_of_str("Reconfigure"),
            ArmContext::AutoRestart => string_of_str("auto-restart"),
        }
    }
}

/// What happened next to the backend.
pub enum BackendInput {
    /// A command from the UI.
    Command(ClipCommand),
    /// The recorder process was seen to have exited, at `now_ms`.
    ChildExited { reason: String, now_ms: u64 },
    /// The outcome of the last `Arm` action; the error text on failure.
    ArmFinished(Result<(), String>),
}

/// What the caller must do, in order.
pub enum BackendAction {
    /// Prepare the fixtures and spawn the recorder with this config, then
    /// report the outcome as `ArmFinished`.
    Arm(CaptureConfig),
    /// Stop the recorder, if one is running.
    Disarm,
    /// Signal the running recorder to save.
    Save(SaveLength),
    /// Send this event to the UI.
    Emit(BackendEvent),
    /// Leave the backend loop.
    Exit,
}

/// The abstract value of a backend event.
pub enum EventView {
    Armed,
    Disarmed,
    Saved(Seq<char>, u64),
    BackendDied(Seq<char>),
    Error(Seq<char>, Seq<char>),
}

pub open spec fn event_view(e: BackendEvent) -> EventView {
    match e {
        BackendEvent::Armed => EventView::Armed,
        BackendEvent::Disarmed => EventView::Disarmed,
        BackendEvent::Saved { path, duration_ms } => EventView::Saved(path@, duration_ms),
        BackendEvent::BackendDied { reason } => EventView::BackendDied(reason@),
        BackendEvent::Error { context, message } => EventView::Error(context@, message@),
    }
}

/// The abstract value of a backend action.
pub enum ActionView {
    Arm(CaptureConfig),
    Disarm,
    Save(SaveLength),
    Emit(EventView),
    Exit,
}

pub open spec fn action_view(a: BackendAction) -> ActionView {
    match a {
        BackendAction::Arm(c) => ActionView::Arm(c),
        BackendAction::Disarm => ActionView::Disarm,
        BackendAction::Save(l) => ActionView::Save(l),
        BackendAction::Emit(e) => ActionView::Emit(event_view(e)),
        BackendAction::Exit => ActionView::Exit,
    }
}

pub open spec fn actions_view(v: Seq<BackendAction>) -> Seq<ActionView> {
    v.map_values(|a: BackendAction| action_view(a))
}

/// The abstract value of an input.
pub enum InputView {
    Command(ClipCommand),
    ChildExited(Seq<char>, u64),
    ArmFinished(Result<(), Seq<char>>),
}

pub open spec fn input_view(i: BackendInput) -> InputView {
    match i {
        BackendInput::Command(c) => InputView::Command(c),
        BackendInput::ChildExited { reason, now_ms } => InputView::ChildExited(reason@, now_ms),
        BackendInput::ArmFinished(r) => InputView::ArmFinished(
            match r {
                Ok(()) => Ok(()),
                Err(m) => Err(m@),
            },
        ),
    }
}

/// The supervisor's state: whether a recorder runs, the config it was last
/// armed with, the arm in flight and why, and the restart attempts.
pub struct SupervisorView {
    pub armed: bool,
    pub active_config: Option<CaptureConfig>,
    pub pending: Option<(CaptureConfig, ArmContext)>,
    pub attempts: Seq<u64>,
}

pub open spec fn surrender_message() -> Seq<char> {
    "GSR died 3 times in 30s; not auto-restarting. Check 'gsr stderr' lines above for the cause."@
}

pub open spec fn save_spec(s: SupervisorView, len: SaveLength) -> (SupervisorView, Seq<ActionView>) {
    if s.armed {
        (s, seq![ActionView::Save(len)])
    } else {
        (s, seq![ActionView::Emit(EventView::Error("SaveClip"@, "Not armed; nothing to save"@))])
    }
}

pub open spec fn command_spec(s: SupervisorView, c: ClipCommand) -> (SupervisorView, Seq<ActionView>) {
    match c {
        ClipCommand::StartReplay { config } => {
            let s1 = SupervisorView { attempts: seq![], ..s };
            if s.armed {
                (s1, seq![ActionView::Emit(EventView::Armed)])
            } else {
                (SupervisorView { pending: Some((config, ArmContext::StartReplay)), ..s1 }, seq![ActionView::Arm(config)])
            }
        },
        ClipCommand::StopReplay => (SupervisorView { armed: false, ..s }, seq![ActionView::Disarm, ActionView::Emit(EventView::Disarmed)]),
        ClipCommand::SaveClip => save_spec(s, SaveLength::Full),
        ClipCommand::SaveClipShort => save_spec(s, SaveLength::Short),
        ClipCommand::SaveClipMedium => save_spec(s, SaveLength::Medium),
        ClipCommand::SaveClipLong => save_spec(s, SaveLength::Long),
        ClipCommand::Reconfigure { config } => (
            SupervisorView { armed: false, attempts: seq![], pending: Some((config, ArmContext::Reconfigure)), ..s },
            seq![ActionView::Disarm, ActionView::Arm(config)],
        ),
        ClipCommand::PauseRecording => (
            SupervisorView { armed: false, attempts: seq![], ..s },
            if s.armed { seq![ActionView::Disarm] } else { seq![] },
        ),
        ClipCommand::ResumeRecording => (SupervisorView { attempts: seq![], ..s }, seq![]),
        ClipCommand::Shutdown => (SupervisorView { armed: false, ..s }, seq![ActionView::Disarm, ActionView::Exit]),
    }
}

/// One step of the backend loop.
pub open spec fn supervisor_step(s: SupervisorView, i: InputView) -> (SupervisorView, Seq<ActionView>) {
    match i {
        InputView::Command(c) => command_spec(s, c),
        InputView::ChildExited(reason, now) => if !s.armed {
            (s, seq![])
        } else {
            let (q, o) = died_spec(s.attempts, now);
            let died = ActionView::Emit(EventView::BackendDied(reason));
            match o {
                RestartOutcome::Restarted => match s.active_config {
                    Some(c) => (
                        SupervisorView { armed: false, attempts: q, pending: Some((c, ArmContext::AutoRestart)), ..s },
                        seq![died, ActionView::Arm(c)],
                    ),
                    None => (SupervisorView { armed: false, attempts: q, ..s }, seq![died]),
                },
                RestartOutcome::Surrendered => (
                    SupervisorView { armed: false, attempts: q, ..s },
                    seq![died, ActionView::Emit(EventView::Error("supervision"@, surrender_message()))],
                ),
            }
        },
        InputView::ArmFinished(res) => match s.pending {
            None => (s, seq![]),
            Some((c, ctx)) => match res {
                Ok(()) => (
                    SupervisorView { armed: true, active_config: Some(c), pending: None, ..s },
                    seq![ActionView::Emit(EventView::Armed)],
                ),
                Err(m) => (
                    SupervisorView { pending: None, ..s },
                    seq![ActionView::Emit(EventView::Error(context_label(ctx), m))],
                ),
            },
        },
    }
}

/// The decisions of the capture backend's loop.
pub struct BackendSupervisor {
    armed: bool,
    active_config: Option<CaptureConfig>,
    pending: Option<(CaptureConfig, ArmContext)>,
    limiter: RestartLimiter,
}

impl View for BackendSupervisor {
    type V = SupervisorView;

    closed spec fn view(&self) -> SupervisorView {
        SupervisorView {
            armed: self.armed,
            active_config: self.active_config,
            pending: self.pending,
            attempts: self.limiter@,
        }
    }
}

fn error_event(context: &str, message: &str) -> (e: BackendEvent)
    ensures
        event_view(e) == EventView::Error(context@, message@),
{
    BackendEvent::Error { context: string_of_str(context), message: string_of_str(message) }
}

impl BackendSupervisor {
    /// Nothing armed, no config, no restart on record.
    pub fn new() -> (r: BackendSupervisor)
        ensures
            r@ == (SupervisorView { armed: false, active_config: None, pending: None, attempts: seq![] }),
    {
        BackendSupervisor { armed: false, active_config: None, pending: None, limiter: RestartLimiter::new() }
    }

    /// Whether a recorder is running.
    pub fn armed(&self) -> (r: bool)
        ensures
            r == self@.armed,
    {
        self.armed
    }

    /// How many automatic restarts are on record.
    pub fn restart_attempts(&self) -> (n: usize)
        ensures
            n == self@.attempts.len(),
    {
        self.limiter.len()
    }

    fn save(&self, len: SaveLength) -> (r: Vec<BackendAction>)
        ensures
            actions_view(r@) == save_spec(self@, len).1,
    {
        let mut out: Vec<BackendAction> = Vec::new();
        if self.armed {
            out.push(BackendAction::Save(len));
        } else {
            out.push(BackendAction::Emit(error_event("SaveClip", "Not armed; nothing to save")));
        }
        assert(actions_view(out@) =~= save_spec(self@, len).1);
        out
    }

    /// Take one input and say what to do (see `supervisor_step`).
    pub fn step(&mut self, input: BackendInput) -> (actions: Vec<BackendAction>)
        ensures
            final(self)@ == supervisor_step(old(self)@, input_view(input)).0,
            actions_view(actions@) == supervisor_step(old(self)@, input_view(input)).1,
    {
        let mut out: Vec<BackendAction> = Vec::new();
        match input {
            BackendInput::Command(cmd) => match cmd {
                ClipCommand::StartReplay { config } => {
                    self.limiter.clear();
                    if self.armed {
                        out.push(BackendAction::Emit(BackendEvent::Armed));
                    } else {
                        let c2 = config.duplicate();
                        self.pending = Some((config, ArmContext::StartReplay));
                        out.push(BackendAction::Arm(c2));
                    }
                },
                ClipCommand::StopReplay => {
                    self.armed = false;
                    out.push(BackendAction::Disarm);
                    out.push(BackendAction::Emit(BackendEvent::Disarmed));
                },
                ClipCommand::SaveClip => {
                    out = self.save(SaveLength::Full);
                },
                ClipCommand::SaveClipShort => {
                    out = self.save(SaveLength::Short);
                },
                ClipCommand::SaveClipMedium => {
                    out = self.save(SaveLength::Medium);
                },
                ClipCommand::SaveClipLong => {
                    out = self.save(SaveLength::Long);
                },
                ClipCommand::Reconfigure { config } => {
                    self.limiter.clear();
                    self.armed = false;
                    let c2 = config.duplicate();
                    self.pending = Some((config, ArmContext::Reconfigure));
                    out.push(BackendAction::Disarm);
                    out.push(BackendAction::Arm(c2));
                },
                ClipCommand::PauseRecording => {
                    self.limiter.clear();
                    if self.armed {
                        out.push(BackendAction::Disarm);
                    }
                    self.armed = false;
                },
                ClipCommand::ResumeRecording => {
                    self.limiter.clear();
                },
                ClipCommand::Shutdown => {
                    self.armed = false;
                    out.push(BackendAction::Disarm);
                    out.push(BackendAction::Exit);
                },
            },
            BackendInput::ChildExited { reason, now_ms } => {
                if self.armed {
                    self.armed = false;
                    out.push(BackendAction::Emit(BackendEvent::BackendDied { reason }));
                    match self.limiter.on_child_died(now_ms) {
                        RestartOutcome::Restarted => match &self.active_config {
                            Some(c) => {
                                let c2 = c.duplicate();
                                let c3 = c.duplicate();
                                self.pending = Some((c2, ArmContext::AutoRestart));
                                out.push(BackendAction::Arm(c3));
                            },
                            None => {},
                        },
                        RestartOutcome::Surrendered => {
                            out.push(
                                BackendAction::Emit(
                                    error_event(
                                        "supervision",
                                        "GSR died 3 times in 30s; not auto-restarting. Check 'gsr stderr' lines above for the cause.",
                                    ),
                                ),
                            );
                        },
                    }
                }
            },
            BackendInput::ArmFinished(res) => {
                match self.pending.take() {
                    None => {},
                    Some((c, ctx)) => match res {
                        Ok(()) => {
                            self.armed = true;
                            self.active_config = Some(c);
                            out.push(BackendAction::Emit(BackendEvent::Armed));
                        },
                        Err(m) => {
                            out.push(BackendAction::Emit(BackendEvent::Error { context: ctx.label(), message: m }));
                        },
                    },
                }
            },
        }
        proof {
            let r = supervisor_step(old(self)@, input_view(input)).1;
            assert(actions_view(out@) =~= r);
        }
        out
    }
}


/// Starting from a fresh budget, recorder deaths at nondecreasing times all
/// within one window restart three times and surrender on the fourth.
pub proof fn law_fourth_death_in_window_surrenders(t0: u64, t1: u64, t2: u64, t3: u64)
    requires
        t0 <= t1 <= t2 <= t3,
        t3 - t0 < RESTART_WINDOW_MS,
    ensures
        ({
            let (q1, o1) = died_spec(seq![], t0);
            let (q2, o2) = died_spec(q1, t1);
            let (q3, o3) = died_spec(q2, t2);
            let (q4, o4) = died_spec(q3, t3);
            &&& o1 == RestartOutcome::Restarted
            &&& o2 == RestartOutcome::Restarted
            &&& o3 == RestartOutcome::Restarted
            &&& o4 == RestartOutcome::Surrendered
            &&& q4.len() == MAX_RESTARTS_PER_WINDOW
        }),
{
    let q0: Seq<u64> = seq![];
    assert(age_out(q0, t0) == q0);
    let q1 = q0.push(t0);
    assert(age_out(q1, t1) == q1);
    let q2 = q1.push(t1);
    assert(q2[0] == t0);
    assert(age_out(q2, t2) == q2);
    let q3 = q2.push(t2);
    assert(q3[0] == t0);
    assert(age_out(q3, t3) == q3);
}

/// Attempts that all lie a full window or more in the past are forgotten:
/// the next death restarts, with only itself on record.
pub proof fn law_old_attempts_age_out(q: Seq<u64>, now: u64)
    requires
        forall|i: int| 0 <= i < q.len() ==> elapsed(now, #[trigger] q[i]) >= RESTART_WINDOW_MS,
    ensures
        died_spec(q, now) == (seq![now], RestartOutcome::Restarted),
    decreases q.len(),
{
    if q.len() > 0 {
        let d = q.drop_first();
        assert forall|i: int| 0 <= i < d.len() implies elapsed(now, #[trigger] d[i]) >= RESTART_WINDOW_MS by {
            assert(d[i] == q[i + 1]);
        }
        law_old_attempts_age_out(d, now);
        assert(age_out(q, now) == age_out(d, now));
    } else {
        assert(seq![now] =~= Seq::<u64>::empty().push(now));
    }
}

proof fn lemma_age_out_shrinks(q: Seq<u64>, now: u64)
    ensures
        age_out(q, now).len() <= q.len(),
    decreases q.len(),
{
    if q.len() > 0 && elapsed(now, q[0]) >= RESTART_WINDOW_MS {
        lemma_age_out_shrinks(q.drop_first(), now);
    }
}

/// The supervisor never holds more than the per-window budget of restart
/// attempts.
pub proof fn law_attempts_bounded(s: SupervisorView, i: InputView)
    requires
        s.attempts.len() <= MAX_RESTARTS_PER_WINDOW,
    ensures
        supervisor_step(s, i).0.attempts.len() <= MAX_RESTARTS_PER_WINDOW,
{
    match i {
        InputView::ChildExited(_, now) => {
            lemma_age_out_shrinks(s.attempts, now);
        },
        _ => {},
    }
}

/// A user's start, reconfigure, pause or resume wipes the restart budget,
/// so an earlier surrender does not carry over.
pub proof fn law_user_intent_clears_budget(s: SupervisorView, c: ClipCommand)
    requires
        c is StartReplay || c is Reconfigure || c is PauseRecording || c is ResumeRecording,
    ensures
        supervisor_step(s, InputView::Command(c)).0.attempts == Seq::<u64>::empty(),
{
}

/// The backend is armed after a step only when the step was a successful
/// arm, or when it was armed before and the step neither stopped, paused,
/// reconfigured, shut it down nor saw the recorder die.
pub proof fn law_armed_only_by_success(s: SupervisorView, i: InputView)
    ensures
        supervisor_step(s, i).0.armed ==> (i matches InputView::ArmFinished(res) && res is Ok && s.pending is Some) || (
        s.armed && match i {
            InputView::Command(c) => !(c is StopReplay || c is Reconfigure || c is PauseRecording
                || c is Shutdown),
            InputView::ChildExited(_, _) => false,
            InputView::ArmFinished(_) => true,
        }),
{
    match i {
        InputView::Command(c) => {},
        InputView::ChildExited(_, now) => {},
        InputView::ArmFinished(res) => {
            match res {
                Ok(()) => {},
                Err(_) => {},
            }
        },
    }
}

/// Attempt times that never go back.
pub open spec fn in_time_order(q: Seq<u64>) -> bool {
    forall|i: int, j: int| 0 <= i <= j < q.len() ==> q[i] <= q[j]
}

/// No attempt later than `now`.
pub open spec fn none_after(q: Seq<u64>, now: u64) -> bool {
    forall|i: int| 0 <= i < q.len() ==> q[i] <= now
}

proof fn lemma_age_out_split(q: Seq<u64>, now: u64) -> (k: int)
    requires
        in_time_order(q),
        none_after(q, now),
    ensures
        0 <= k <= q.len(),
        age_out(q, now) == q.subrange(k, q.len() as int),
        forall|i: int| 0 <= i < k ==> now - q[i] >= RESTART_WINDOW_MS,
        forall|i: int| k <= i < q.len() ==> now - q[i] < RESTART_WINDOW_MS,
    decreases q.len(),
{
    if q.len() > 0 && elapsed(now, q[0]) >= RESTART_WINDOW_MS {
        let d = q.drop_first();
        assert forall|i: int, j: int| 0 <= i <= j < d.len() implies d[i] <= d[j] by {
            assert(d[i] == q[i + 1] && d[j] == q[j + 1]);
        }
        assert forall|i: int| 0 <= i < d.len() implies d[i] <= now by {
            assert(d[i] == q[i + 1]);
        }
        let k0 = lemma_age_out_split(d, now);
        assert(q.subrange(k0 + 1, q.len() as int) =~= d.subrange(k0, d.len() as int));
        assert forall|i: int| 0 <= i < k0 + 1 implies now - q[i] >= RESTART_WINDOW_MS by {
            if i > 0 {
                assert(q[i] == d[i - 1]);
            }
        }
        assert forall|i: int| k0 + 1 <= i < q.len() implies now - q[i] < RESTART_WINDOW_MS by {
            assert(q[i] == d[i - 1]);
        }
        k0 + 1
    } else {
        assert(q.subrange(0, q.len() as int) =~= q);
        if q.len() > 0 {
            assert forall|i: int| 0 <= i < q.len() implies now - q[i] < RESTART_WINDOW_MS by {
                assert(q[0] <= q[i]);
            }
        }
        0
    }
}

/// With the attempts in time order and none later than `now`, a death at
/// `now` forgets exactly the attempts a full window or more before it,
/// restarts exactly when fewer than the budget remain (recording `now`),
/// and leaves the attempts in time order and none later than `now`: so
/// there are never more than three automatic restarts in any window.
pub proof fn law_restart_window(q: Seq<u64>, now: u64)
    requires
        in_time_order(q),
        none_after(q, now),
    ensures
        ({
            let a = age_out(q, now);
            &&& exists|k: int|
                0 <= k <= q.len() && a == q.subrange(k, q.len() as int) && (forall|i: int|
                    0 <= i < k ==> now - q[i] >= RESTART_WINDOW_MS) && (forall|i: int|
                    k <= i < q.len() ==> now - q[i] < RESTART_WINDOW_MS)
            &&& died_spec(q, now).1 == if a.len() < MAX_RESTARTS_PER_WINDOW {
                RestartOutcome::Restarted
            } else {
                RestartOutcome::Surrendered
            }
            &&& in_time_order(died_spec(q, now).0)
            &&& none_after(died_spec(q, now).0, now)
            &&& forall|i: int|
                0 <= i < died_spec(q, now).0.len() ==> now - died_spec(q, now).0[i] < RESTART_WINDOW_MS
        }),
{
    let k = lemma_age_out_split(q, now);
    let a = age_out(q, now);
    assert forall|i: int| 0 <= i < a.len() implies a[i] == q[k + i] by {}
    let r = died_spec(q, now).0;
    if a.len() < MAX_RESTARTS_PER_WINDOW {
        assert(r == a.push(now));
        assert forall|i: int| 0 <= i < r.len() implies now - r[i] < RESTART_WINDOW_MS by {
            if i < a.len() {
                assert(r[i] == q[k + i]);
            }
        }
        assert forall|i: int, j: int| 0 <= i <= j < r.len() implies r[i] <= r[j] by {
            if j < a.len() {
                assert(r[i] == q[k + i] && r[j] == q[k + j]);
            } else if i < a.len() {
                assert(r[i] == q[k + i]);
            }
        }
    } else {
        assert forall|i: int, j: int| 0 <= i <= j < r.len() implies r[i] <= r[j] by {
            assert(r[i] == q[k + i] && r[j] == q[k + j]);
        }
        assert forall|i: int| 0 <= i < r.len() implies now - r[i] < RESTART_WINDOW_MS by {
            assert(r[i] == q[k + i]);
        }
    }
}

/// Every step of the supervisor keeps the attempts in time order, when
/// recorder exits are reported at times no earlier than the attempts on
/// record.
pub proof fn law_attempts_stay_in_time_order(s: SupervisorView, i: InputView)
    requires
        in_time_order(s.attempts),
        i matches InputView::ChildExited(_, now) ==> none_after(s.attempts, now),
    ensures
        in_time_order(supervisor_step(s, i).0.attempts),
{
    match i {
        InputView::ChildExited(_, now) => {
            law_restart_window(s.attempts, now);
        },
        _ => {},
    }
}

} // verus!
