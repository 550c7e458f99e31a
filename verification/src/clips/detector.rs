//! Game detection: Steam ACF parsing, process matching, and the debouncing
//! detector that announces games after two consecutive scans.
use vstd::prelude::*;

use crate::text::{
    chars_eq_str, chars_of, contains_seq, contains_str, find_str, is_digit, is_first_occurrence,
    lines_seq, lines_str, slice_chars, split_whitespace_chars, split_ws, starts_with,
    string_of, strip_prefix, strip_prefix_str, trim, trim_chars, trim_start, trim_start_chars,
    views,
};

verus! {

// ---------------------------------------------------------------------------
// Steam appmanifest (ACF) "name" field
// ---------------------------------------------------------------------------

/// Reads a quoted value: characters up to the first `"` not preceded by a
/// backslash; a backslash before a quote is dropped. `prev` is the previous
/// character (a space before the first one); None when no closing quote.
pub open spec fn acf_quoted(chars: Seq<char>, prev: char, value: Seq<char>) -> Option<Seq<char>>
    decreases chars.len(),
{
    if chars.len() == 0 {
        None
    } else {
        let c = chars[0];
        if c == '"' && prev != '\\' {
            Some(value)
        } else {
            let v = if c == '"' && value.len() > 0 {
                value.drop_last()
            } else {
                value
            };
            acf_quoted(chars.drop_first(), c, v.push(c))
        }
    }
}

/// The name on one ACF line: `"name"`, whitespace, then a quoted value.
pub open spec fn acf_line_name(line: Seq<char>) -> Option<Seq<char>> {
    match strip_prefix(trim(line), "\"name\""@) {
        Some(rest) => {
            let r = trim_start(rest);
            if r.len() > 0 && r[0] == '"' {
                acf_quoted(r.drop_first(), ' ', seq![])
            } else {
                None
            }
        },
        None => None,
    }
}

/// The first line, in order, that carries a name.
pub open spec fn first_named(lines: Seq<Seq<char>>) -> Option<Seq<char>>
    decreases lines.len(),
{
    if lines.len() == 0 {
        None
    } else {
        match acf_line_name(lines[0]) {
            Some(v) => Some(v),
            None => first_named(lines.drop_first()),
        }
    }
}

proof fn lemma_first_named_skip(lines: Seq<Seq<char>>, i: int)
    requires
        0 <= i < lines.len(),
        forall|j: int| 0 <= j < i ==> acf_line_name(#[trigger] lines[j]) is None,
    ensures
        first_named(lines) == first_named(lines.subrange(i, lines.len() as int)),
    decreases i,
{
    if i > 0 {
        let t = lines.drop_first();
        assert forall|j: int| 0 <= j < i - 1 implies acf_line_name(#[trigger] t[j]) is None by {
            assert(t[j] == lines[j + 1]);
        }
        lemma_first_named_skip(t, i - 1);
        assert(t.subrange(i - 1, t.len() as int) =~= lines.subrange(i, lines.len() as int));
    } else {
        assert(lines.subrange(0, lines.len() as int) =~= lines);
    }
}

fn acf_quoted_exec(r: &Vec<char>) -> (out: Option<String>)
    requires
        r.len() > 0,
    ensures
        match out {
            Some(s) => acf_quoted(r@.drop_first(), ' ', seq![]) == Some(s@),
            None => acf_quoted(r@.drop_first(), ' ', seq![]) is None,
        },
{
    let mut value: Vec<char> = Vec::new();
    let mut prev = ' ';
    let mut i: usize = 1;
    assert(r@.drop_first() =~= r@.subrange(1, r.len() as int));
    while i < r.len()
        invariant
            1 <= i <= r.len(),
            acf_quoted(r@.drop_first(), ' ', seq![]) == acf_quoted(
                r@.subrange(i as int, r.len() as int),
                prev,
                value@,
            ),
        decreases r.len() - i,
    {
        let c = r[i];
        let ghost rest = r@.subrange(i as int, r.len() as int);
        assert(rest[0] == c);
        if c == '"' && prev != '\\' {
            return Some(string_of(&value));
        }
        if c == '"' && value.len() > 0 {
            value.pop();
        }
        value.push(c);
        prev = c;
        i = i + 1;
        assert(rest.drop_first() =~= r@.subrange(i as int, r.len() as int));
    }
    None
}

/// The `"name"` value of a Steam appmanifest, or None when no line carries
/// one.
pub fn parse_acf_name(contents: &str) -> (out: Option<String>)
    ensures
        match out {
            Some(s) => first_named(lines_seq(contents@)) == Some(s@),
            None => first_named(lines_seq(contents@)) is None,
        },
{
    let lines = lines_str(contents);
    let ghost ls = lines_seq(contents@);
    let mut i: usize = 0;
    while i < lines.len()
        invariant
            views(lines@) == ls,
            ls == lines_seq(contents@),
            i <= lines.len(),
            forall|j: int| 0 <= j < i ==> acf_line_name(#[trigger] ls[j]) is None,
        decreases lines.len() - i,
    {
        let line = &lines[i];
        assert(line@ == ls[i as int]);
        let trimmed = trim_chars(line);
        let found: Option<String> = match strip_prefix_str(&trimmed, "\"name\"") {
            Some(rest) => {
                let r = trim_start_chars(&rest);
                if r.len() > 0 && r[0] == '"' {
                    acf_quoted_exec(&r)
                } else {
                    None
                }
            },
            None => None,
        };
        match found {
            Some(v) => {
                proof {
                    lemma_first_named_skip(ls, i as int);
                    assert(ls.subrange(i as int, ls.len() as int)[0] == ls[i as int]);
                }
                return Some(v);
            },
            None => {},
        }
        i = i + 1;
    }
    proof {
        if ls.len() > 0 {
            lemma_first_named_skip(ls, ls.len() - 1);
            let t = ls.subrange(ls.len() - 1, ls.len() as int);
            assert(t[0] == ls[ls.len() - 1]);
            assert(acf_line_name(t[0]) is None);
            assert(t.drop_first() =~= Seq::<Seq<char>>::empty());
            assert(first_named(t.drop_first()) is None);
        }
    }
    None
}

// ---------------------------------------------------------------------------
// Matching a process against the known launchers
// ---------------------------------------------------------------------------

/// A detected game, keyed by PID.
#[derive(Debug, Clone, PartialEq, Eq)]
pub struct DetectedGame {
    pub pid: u32,
    pub name: String,
}

impl DetectedGame {
    /// A copy equal to `self`.
    pub fn copy(&self) -> (r: DetectedGame)
        ensures
            r == *self,
    {
        DetectedGame { pid: self.pid, name: self.name.clone() }
    }
}

/// The first index at which `p` occurs in `s`.
pub open spec fn first_occurrence(s: Seq<char>, p: Seq<char>) -> int {
    choose|i: int| is_first_occurrence(s, p, i)
}

pub proof fn lemma_first_occurrence(s: Seq<char>, p: Seq<char>, i: int)
    requires
        is_first_occurrence(s, p, i),
    ensures
        first_occurrence(s, p) == i,
{
    let j = first_occurrence(s, p);
    assert(is_first_occurrence(s, p, j));
    if j < i {
        assert(!crate::text::occurs_at(s, p, j));
    }
    if i < j {
        assert(!crate::text::occurs_at(s, p, i));
    }
}

/// The ASCII digits at the start of `s`.
pub open spec fn leading_digits(s: Seq<char>) -> Seq<char>
    decreases s.len(),
{
    if s.len() > 0 && is_digit(s[0]) {
        seq![s[0]] + leading_digits(s.drop_first())
    } else {
        seq![]
    }
}

proof fn lemma_leading_digits(s: Seq<char>, k: int)
    requires
        0 <= k <= s.len(),
        forall|j: int| 0 <= j < k ==> is_digit(#[trigger] s[j]),
        k < s.len() ==> !is_digit(s[k]),
    ensures
        leading_digits(s) == s.subrange(0, k),
    decreases k,
{
    if k > 0 {
        let t = s.drop_first();
        assert forall|j: int| 0 <= j < k - 1 implies is_digit(#[trigger] t[j]) by {
            assert(t[j] == s[j + 1]);
        }
        if k - 1 < t.len() {
            assert(t[k - 1] == s[k]);
        }
        lemma_leading_digits(t, k - 1);
        assert(seq![s[0]] + t.subrange(0, k - 1) =~= s.subrange(0, k));
    } else {
        assert(s.subrange(0, 0) =~= Seq::<char>::empty());
    }
}

fn leading_digits_exec(s: &Vec<char>, from: usize) -> (out: Vec<char>)
    requires
        from <= s.len(),
    ensures
        out@ == leading_digits(s@.subrange(from as int, s.len() as int)),
{
    let mut i = from;
    while i < s.len() && '0' <= s[i] && s[i] <= '9'
        invariant
            from <= i <= s.len(),
            forall|j: int| from <= j < i ==> is_digit(#[trigger] s@[j]),
        decreases s.len() - i,
    {
        i = i + 1;
    }
    proof {
        let t = s@.subrange(from as int, s.len() as int);
        assert forall|j: int| 0 <= j < i - from implies is_digit(#[trigger] t[j]) by {
            assert(t[j] == s@[from + j]);
        }
        if i < s.len() {
            assert(t[i - from] == s@[i as int]);
        }
        lemma_leading_digits(t, (i - from) as int);
        assert(t.subrange(0, (i - from) as int) =~= s@.subrange(from as int, i as int));
    }
    slice_chars(s, from, i)
}

/// The value of the last `(key, value)` pair whose key is `key`: an
/// environment read into a map keeps the last of duplicate keys.
pub open spec fn env_lookup(env: Seq<(String, String)>, key: Seq<char>) -> Option<String>
    decreases env.len(),
{
    if env.len() == 0 {
        None
    } else if env.last().0@ == key {
        Some(env.last().1)
    } else {
        env_lookup(env.drop_last(), key)
    }
}

fn env_lookup_exec(env: &Vec<(String, String)>, key: &str) -> (r: Option<String>)
    ensures
        r == env_lookup(env@, key@),
{
    let mut i: usize = env.len();
    assert(env@.subrange(0, env.len() as int) =~= env@);
    while i > 0
        invariant
            i <= env.len(),
            env_lookup(env@, key@) == env_lookup(env@.subrange(0, i as int), key@),
        decreases i,
    {
        let ghost pre = env@.subrange(0, i as int);
        assert(pre.last() == env@[i - 1]);
        let k = chars_of(env[i - 1].0.as_str());
        if chars_eq_str(&k, key) {
            return Some(env[i - 1].1.clone());
        }
        i = i - 1;
        assert(pre.drop_last() =~= env@.subrange(0, i as int));
    }
    None
}

/// The Steam app id a process belongs to: the digits after
/// `SteamLaunch AppId=` on its command line, or else its `SteamAppId`
/// environment variable.
pub open spec fn steam_app_id_spec(cmdline: Seq<char>, env: Seq<(String, String)>) -> Option<Seq<char>> {
    let key = "SteamLaunch AppId="@;
    let from_cmd = if contains_seq(cmdline, key) {
        leading_digits(cmdline.subrange(first_occurrence(cmdline, key) + key.len(), cmdline.len() as int))
    } else {
        seq![]
    };
    if from_cmd.len() > 0 {
        Some(from_cmd)
    } else {
        match env_lookup(env, "SteamAppId"@) {
            Some(v) => Some(v@),
            None => None,
        }
    }
}

/// The Steam app id of a process (see `steam_app_id_spec`); `environ` holds
/// the process environment as (key, value) pairs.
pub fn steam_app_id(cmdline: &str, environ: &Vec<(String, String)>) -> (r: Option<String>)
    ensures
        match r {
            Some(s) => steam_app_id_spec(cmdline@, environ@) == Some(s@),
            None => steam_app_id_spec(cmdline@, environ@) is None,
        },
{
    let cmd = chars_of(cmdline);
    let key = "SteamLaunch AppId=";
    let kv = chars_of(key);
    match find_str(&cmd, key) {
        Some(idx) => {
            proof {
                lemma_first_occurrence(cmd@, key@, idx as int);
                assert(crate::text::occurs_at(cmd@, key@, idx as int));
            }
            assert(kv@ == key@);
            assert(kv@.len() == kv.len());
            assert(idx as int + kv@.len() <= cmd@.len());
            let n = cmd.len();
            assert(n as int == cmd@.len());
            let digits = leading_digits_exec(&cmd, idx + kv.len());
            if digits.len() > 0 {
                return Some(string_of(&digits));
            }
        },
        None => {},
    }
    env_lookup_exec(environ, "SteamAppId")
}

/// Index of the first word that contains `p`, or -1.
pub open spec fn first_word_with(words: Seq<Seq<char>>, p: Seq<char>) -> int
    decreases words.len(),
{
    if words.len() == 0 {
        -1
    } else if contains_seq(words[0], p) {
        0
    } else {
        let r = first_word_with(words.drop_first(), p);
        if r < 0 {
            -1
        } else {
            r + 1
        }
    }
}

/// The first word that does not start with `-`.
pub open spec fn first_non_flag(words: Seq<Seq<char>>) -> Option<Seq<char>>
    decreases words.len(),
{
    if words.len() == 0 {
        None
    } else if !starts_with(words[0], seq!['-']) {
        Some(words[0])
    } else {
        first_non_flag(words.drop_first())
    }
}

/// The game name of a `lutris-wrapper` command line: the first non-flag word
/// after the wrapper, or else the process name.
pub open spec fn lutris_name(cmdline: Seq<char>, comm: Seq<char>) -> Seq<char> {
    let words = split_ws(cmdline);
    let k = first_word_with(words, "lutris-wrapper"@);
    if k >= 0 {
        match first_non_flag(words.subrange(k + 1, words.len() as int)) {
            Some(w) => w,
            None => comm,
        }
    } else {
        comm
    }
}

/// The name of the game a process is, when it is one. Matchers are tried
/// in order and the first wins: Steam (by command line or environment, named
/// by `steam_name`, the appmanifest name of its app id, or else the process
/// name), Lutris, Heroic, gamescope, mangohud.
pub open spec fn match_game_spec(
    comm: Seq<char>,
    cmdline: Seq<char>,
    env: Seq<(String, String)>,
    steam_name: Option<String>,
) -> Option<Seq<char>> {
    if steam_app_id_spec(cmdline, env) is Some {
        Some(
            match steam_name {
                Some(n) => n@,
                None => comm,
            },
        )
    } else if contains_seq(cmdline, "lutris-wrapper"@) {
        Some(lutris_name(cmdline, comm))
    } else if comm == "heroic"@ || contains_seq(cmdline, "HeroicGamesLauncher"@) {
        Some("Heroic Game"@)
    } else if comm == "gamescope"@ {
        Some("Gamescope Game"@)
    } else if comm == "mangohud"@ {
        Some(comm)
    } else {
        None
    }
}

proof fn lemma_env_lookup_absent(env: Seq<(String, String)>, key: Seq<char>)
    requires
        forall|i: int| 0 <= i < env.len() ==> (#[trigger] env[i]).0@ != key,
    ensures
        env_lookup(env, key) is None,
    decreases env.len(),
{
    if env.len() > 0 {
        let d = env.drop_last();
        assert forall|i: int| 0 <= i < d.len() implies (#[trigger] d[i]).0@ != key by {
            assert(d[i] == env[i]);
        }
        lemma_env_lookup_absent(d, key);
        assert(env.last() == env[env.len() - 1]);
    }
}

/// A process that has no Steam app id (no `SteamLaunch AppId=` on its
/// command line and no `SteamAppId` in its environment) and is not run by
/// the Lutris wrapper is a game named "Heroic Game" whenever its command
/// line names the Heroic Games Launcher, whatever the process is called.
pub proof fn law_heroic_launch_is_a_game(
    comm: Seq<char>,
    cmdline: Seq<char>,
    env: Seq<(String, String)>,
    steam_name: Option<String>,
)
    requires
        !contains_seq(cmdline, "SteamLaunch AppId="@),
        forall|i: int| 0 <= i < env.len() ==> (#[trigger] env[i]).0@ != "SteamAppId"@,
        !contains_seq(cmdline, "lutris-wrapper"@),
        contains_seq(cmdline, "HeroicGamesLauncher"@),
    ensures
        match_game_spec(comm, cmdline, env, steam_name) == Some("Heroic Game"@),
{
    lemma_env_lookup_absent(env, "SteamAppId"@);
}

/// Without a Steam app id, the Lutris wrapper or the Heroic launcher on
/// its command line, a process is a game only by its name: `heroic` is
/// "Heroic Game", `gamescope` is "Gamescope Game", `mangohud` keeps its
/// name, and any other process is no game.
pub proof fn law_game_by_process_name(
    comm: Seq<char>,
    cmdline: Seq<char>,
    env: Seq<(String, String)>,
    steam_name: Option<String>,
)
    requires
        !contains_seq(cmdline, "SteamLaunch AppId="@),
        forall|i: int| 0 <= i < env.len() ==> (#[trigger] env[i]).0@ != "SteamAppId"@,
        !contains_seq(cmdline, "lutris-wrapper"@),
        !contains_seq(cmdline, "HeroicGamesLauncher"@),
    ensures
        match_game_spec(comm, cmdline, env, steam_name) == if comm == "heroic"@ {
            Some("Heroic Game"@)
        } else if comm == "gamescope"@ {
            Some("Gamescope Game"@)
        } else if comm == "mangohud"@ {
            Some(comm)
        } else {
            None::<Seq<char>>
        },
{
    lemma_env_lookup_absent(env, "SteamAppId"@);
}

/// A process is a game named after its Steam appmanifest (or else its
/// process name) whenever its command line carries `SteamLaunch AppId=`
/// followed by a digit, whatever else it looks like.
pub proof fn law_steam_launch_is_a_game(
    comm: Seq<char>,
    cmdline: Seq<char>,
    env: Seq<(String, String)>,
    steam_name: Option<String>,
    i: int,
)
    requires
        0 <= i,
        i + "SteamLaunch AppId="@.len() < cmdline.len(),
        cmdline.subrange(i, i + "SteamLaunch AppId="@.len()) == "SteamLaunch AppId="@,
        is_digit(cmdline[i + "SteamLaunch AppId="@.len()]),
        forall|j: int| 0 <= j < i ==> !crate::text::occurs_at(cmdline, "SteamLaunch AppId="@, j),
    ensures
        match_game_spec(comm, cmdline, env, steam_name) == Some(
            match steam_name {
                Some(n) => n@,
                None => comm,
            },
        ),
{
    let key = "SteamLaunch AppId="@;
    assert(crate::text::occurs_at(cmdline, key, i));
    lemma_first_occurrence(cmdline, key, i);
    let rest = cmdline.subrange(i + key.len(), cmdline.len() as int);
    assert(rest[0] == cmdline[i + key.len()]);
    assert(leading_digits(rest).len() > 0);
}

fn first_word_with_exec(words: &Vec<Vec<char>>, p: &str) -> (r: Option<usize>)
    ensures
        match r {
            Some(k) => first_word_with(views(words@), p@) == k as int && k < words.len(),
            None => first_word_with(views(words@), p@) == -1,
        },
{
    let mut i: usize = 0;
    while i < words.len()
        invariant
            i <= words.len(),
            forall|j: int| 0 <= j < i ==> !contains_seq(#[trigger] views(words@)[j], p@),
        decreases words.len() - i,
    {
        if contains_str(&words[i], p) {
            proof {
                lemma_first_word_with_at(views(words@), p@, i as int);
            }
            return Some(i);
        }
        i = i + 1;
    }
    proof {
        lemma_first_word_with_at(views(words@), p@, words.len() as int);
    }
    None
}

proof fn lemma_first_word_with_at(words: Seq<Seq<char>>, p: Seq<char>, k: int)
    requires
        0 <= k <= words.len(),
        forall|j: int| 0 <= j < k ==> !contains_seq(#[trigger] words[j], p),
        k < words.len() ==> contains_seq(words[k], p),
    ensures
        first_word_with(words, p) == if k < words.len() {
            k
        } else {
            -1
        },
    decreases k,
{
    if k > 0 {
        let t = words.drop_first();
        assert forall|j: int| 0 <= j < k - 1 implies !contains_seq(#[trigger] t[j], p) by {
            assert(t[j] == words[j + 1]);
        }
        if k < words.len() {
            assert(t[k - 1] == words[k]);
        }
        assert(!contains_seq(words[0], p));
        lemma_first_word_with_at(t, p, k - 1);
    } else if words.len() == 0 {
    }
}

fn first_non_flag_exec(words: &Vec<Vec<char>>, from: usize) -> (r: Option<String>)
    requires
        from <= words.len(),
    ensures
        match r {
            Some(w) => first_non_flag(views(words@).subrange(from as int, words.len() as int))
                == Some(w@),
            None => first_non_flag(views(words@).subrange(from as int, words.len() as int)) is None,
        },
{
    let mut i = from;
    let dash = vec!['-'];
    assert(views(words@).subrange(from as int, words.len() as int) =~= views(words@).subrange(from as int, words.len() as int));
    while i < words.len()
        invariant
            from <= i <= words.len(),
            dash@ == seq!['-'],
            first_non_flag(views(words@).subrange(from as int, words.len() as int))
                == first_non_flag(views(words@).subrange(i as int, words.len() as int)),
        decreases words.len() - i,
    {
        let ghost rest = views(words@).subrange(i as int, words.len() as int);
        assert(rest[0] == words@[i as int]@);
        if !crate::text::starts_with_chars(&words[i], &dash) {
            return Some(string_of(&words[i]));
        }
        i = i + 1;
        assert(rest.drop_first() =~= views(words@).subrange(i as int, words.len() as int));
    }
    None
}

/// Identifies a game from a process snapshot: `pid`, its `comm`, its command
/// line, its environment as (key, value) pairs, and `steam_name`, the
/// appmanifest name of the process's Steam app id when that was found.
pub fn match_game(
    pid: u32,
    comm: &str,
    cmdline: &str,
    environ: &Vec<(String, String)>,
    steam_name: Option<String>,
) -> (r: Option<DetectedGame>)
    ensures
        match r {
            Some(g) => g.pid == pid && match_game_spec(comm@, cmdline@, environ@, steam_name)
                == Some(g.name@),
            None => match_game_spec(comm@, cmdline@, environ@, steam_name) is None,
        },
{
    if steam_app_id(cmdline, environ).is_some() {
        let name = match steam_name {
            Some(n) => n,
            None => string_of_str_local(comm),
        };
        return Some(DetectedGame { pid, name });
    }
    let cmd = chars_of(cmdline);
    if contains_str(&cmd, "lutris-wrapper") {
        let words = split_whitespace_chars(&cmd);
        let name = match first_word_with_exec(&words, "lutris-wrapper") {
            Some(k) => match first_non_flag_exec(&words, k + 1) {
                Some(w) => w,
                None => string_of_str_local(comm),
            },
            None => string_of_str_local(comm),
        };
        return Some(DetectedGame { pid, name });
    }
    let c = chars_of(comm);
    if chars_eq_str(&c, "heroic") || contains_str(&cmd, "HeroicGamesLauncher") {
        return Some(DetectedGame { pid, name: string_of_str_local("Heroic Game") });
    }
    if chars_eq_str(&c, "gamescope") {
        return Some(DetectedGame { pid, name: string_of_str_local("Gamescope Game") });
    }
    if chars_eq_str(&c, "mangohud") {
        return Some(DetectedGame { pid, name: string_of_str_local(comm) });
    }
    None
}

fn string_of_str_local(s: &str) -> (r: String)
    ensures
        r@ == s@,
{
    crate::text::string_of_str(s)
}

// ---------------------------------------------------------------------------
// The debouncing detector
// ---------------------------------------------------------------------------

/// Output event from the detector.
#[derive(Debug, Clone, PartialEq, Eq)]
pub enum DetectorEvent {
    GameStarted(DetectedGame),
    GameStopped { pid: u32 },
}

/// What the detector remembers of one PID: the game as first seen, how many
/// consecutive scans have seen it (saturating; zero after a miss), whether
/// it missed the last scan, and whether it was announced.
pub struct Track {
    pub game: DetectedGame,
    pub seen: u32,
    pub missed: bool,
    pub announced: bool,
}

/// Index of the first track for `pid`, or -1.
pub open spec fn find_track(ts: Seq<Track>, pid: u32) -> int
    decreases ts.len(),
{
    if ts.len() == 0 {
        -1
    } else if ts[0].game.pid == pid {
        0
    } else {
        let r = find_track(ts.drop_first(), pid);
        if r < 0 {
            -1
        } else {
            r + 1
        }
    }
}

pub proof fn lemma_find_track(ts: Seq<Track>, pid: u32)
    ensures
        -1 <= find_track(ts, pid) < ts.len(),
        find_track(ts, pid) >= 0 ==> ts[find_track(ts, pid)].game.pid == pid,
        forall|j: int| 0 <= j < find_track(ts, pid) ==> ts[j].game.pid != pid,
        find_track(ts, pid) < 0 ==> forall|j: int| 0 <= j < ts.len() ==> ts[j].game.pid != pid,
    decreases ts.len(),
{
    if ts.len() > 0 && ts[0].game.pid != pid {
        let t = ts.drop_first();
        lemma_find_track(t, pid);
        assert forall|j: int| 0 <= j < find_track(ts, pid) implies ts[j].game.pid != pid by {
            if j > 0 {
                assert(ts[j] == t[j - 1]);
            }
        }
        if find_track(ts, pid) < 0 {
            assert forall|j: int| 0 <= j < ts.len() implies ts[j].game.pid != pid by {
                if j > 0 {
                    assert(ts[j] == t[j - 1]);
                }
            }
        }
    }
}

proof fn lemma_find_track_at(ts: Seq<Track>, pid: u32, k: int)
    requires
        0 <= k <= ts.len(),
        forall|j: int| 0 <= j < k ==> ts[j].game.pid != pid,
        k < ts.len() ==> ts[k].game.pid == pid,
    ensures
        find_track(ts, pid) == if k < ts.len() {
            k
        } else {
            -1
        },
{
    lemma_find_track(ts, pid);
    let f = find_track(ts, pid);
    if f >= 0 && f < k {
        assert(ts[f].game.pid == pid);
    }
    if k < ts.len() && (f < 0 || f > k) {
        assert(ts[k].game.pid == pid);
    }
}

/// A scan that sees `g`: the track of `g.pid` (a fresh one, appended, when
/// there is none) counts one more sighting and forgets any miss; at its
/// second consecutive sighting an unannounced game is announced.
pub open spec fn sighting(ts: Seq<Track>, g: DetectedGame) -> (Seq<Track>, Seq<DetectorEvent>) {
    let k = find_track(ts, g.pid);
    let t = if k >= 0 {
        ts[k]
    } else {
        Track { game: g, seen: 0, missed: false, announced: false }
    };
    let seen = if t.seen == u32::MAX {
        t.seen
    } else {
        (t.seen + 1) as u32
    };
    let fire = seen >= 2 && !t.announced;
    let t2 = Track { seen: seen, missed: false, announced: t.announced || fire, ..t };
    (
        if k >= 0 {
            ts.update(k, t2)
        } else {
            ts.push(t2)
        },
        if fire {
            seq![DetectorEvent::GameStarted(g)]
        } else {
            seq![]
        },
    )
}

/// All the sightings of a scan, in order.
pub open spec fn sightings(ts: Seq<Track>, current: Seq<DetectedGame>) -> (Seq<Track>, Seq<DetectorEvent>)
    decreases current.len(),
{
    if current.len() == 0 {
        (ts, seq![])
    } else {
        let (a, e1) = sightings(ts, current.drop_last());
        let (b, e2) = sighting(a, current.last());
        (b, e1 + e2)
    }
}

pub open spec fn pid_in(current: Seq<DetectedGame>, pid: u32) -> bool {
    exists|j: int| 0 <= j < current.len() && current[j].pid == pid
}

/// The tracks a scan did not see: one that missed the previous scan too is
/// dropped (with GameStopped when it was announced), any other is marked
/// as having missed and its run of sightings starts again from zero, so
/// that only consecutive sightings count. Seen tracks stay as they are;
/// order is kept.
pub open spec fn misses(ts: Seq<Track>, current: Seq<DetectedGame>) -> (Seq<Track>, Seq<DetectorEvent>)
    decreases ts.len(),
{
    if ts.len() == 0 {
        (seq![], seq![])
    } else {
        let (r, e) = misses(ts.drop_last(), current);
        let t = ts.last();
        if pid_in(current, t.game.pid) {
            (r.push(t), e)
        } else if t.missed {
            (
                r,
                if t.announced {
                    e.push(DetectorEvent::GameStopped { pid: t.game.pid })
                } else {
                    e
                },
            )
        } else {
            (r.push(Track { seen: 0, missed: true, ..t }), e)
        }
    }
}

/// One scan: sightings first, then misses.
pub open spec fn tick_spec(ts: Seq<Track>, current: Seq<DetectedGame>) -> (Seq<Track>, Seq<DetectorEvent>) {
    let (a, e1) = sightings(ts, current);
    let (b, e2) = misses(a, current);
    (b, e1 + e2)
}

/// Stateful detector: call `tick` every scan with the games identified in
/// the current process snapshot; it returns the start and stop events.
pub struct GameDetector {
    tracks: Vec<Track>,
}

impl View for GameDetector {
    type V = Seq<Track>;

    closed spec fn view(&self) -> Seq<Track> {
        self.tracks@
    }
}

impl GameDetector {
    pub fn new() -> (r: Self)
        ensures
            r@ == Seq::<Track>::empty(),
    {
        GameDetector { tracks: Vec::new() }
    }

    fn find(&self, pid: u32) -> (r: Option<usize>)
        ensures
            match r {
                Some(k) => find_track(self@, pid) == k as int,
                None => find_track(self@, pid) == -1,
            },
    {
        let mut i: usize = 0;
        while i < self.tracks.len()
            invariant
                i <= self.tracks.len(),
                forall|j: int| 0 <= j < i ==> self.tracks@[j].game.pid != pid,
            decreases self.tracks.len() - i,
        {
            if self.tracks[i].game.pid == pid {
                proof {
                    lemma_find_track_at(self@, pid, i as int);
                }
                return Some(i);
            }
            i = i + 1;
        }
        proof {
            lemma_find_track_at(self@, pid, self.tracks.len() as int);
        }
        None
    }

    fn see(&mut self, g: &DetectedGame, events: &mut Vec<DetectorEvent>)
        ensures
            final(self)@ == sighting(old(self)@, *g).0,
            final(events)@ == old(events)@ + sighting(old(self)@, *g).1,
    {
        let ghost ts = self@;
        proof {
            lemma_find_track(ts, g.pid);
        }
        let k = match self.find(g.pid) {
            Some(k) => k,
            None => {
                self.tracks.push(Track { game: g.copy(), seen: 0, missed: false, announced: false });
                self.tracks.len() - 1
            },
        };
        let old_seen = self.tracks[k].seen;
        let seen = if old_seen == u32::MAX {
            old_seen
        } else {
            old_seen + 1
        };
        let was_announced = self.tracks[k].announced;
        let fire = seen >= 2 && !was_announced;
        let t = Track {
            game: self.tracks[k].game.copy(),
            seen,
            missed: false,
            announced: was_announced || fire,
        };
        let ghost t2 = t;
        self.tracks.set(k, t);
        if fire {
            let ge = g.copy();
            events.push(DetectorEvent::GameStarted(ge));
            assert(events@ =~= old(events)@ + seq![DetectorEvent::GameStarted(*g)]);
        } else {
            assert(events@ =~= old(events)@ + Seq::<DetectorEvent>::empty());
        }
        proof {
            if find_track(ts, g.pid) < 0 {
                assert(self@ =~= ts.push(t2));
            } else {
                assert(self@ =~= ts.update(k as int, t2));
            }
        }
    }

    /// Processes a snapshot of the currently detected games: a game is
    /// announced (GameStarted) at its second consecutive sighting, and a
    /// stop (GameStopped) is announced after two consecutive misses.
    pub fn tick(&mut self, current: &Vec<DetectedGame>) -> (events: Vec<DetectorEvent>)
        ensures
            final(self)@ == tick_spec(old(self)@, current@).0,
            events@ == tick_spec(old(self)@, current@).1,
    {
        let mut events: Vec<DetectorEvent> = Vec::new();
        let ghost ts0 = self@;
        let mut i: usize = 0;
        assert(current@.subrange(0, 0) =~= Seq::<DetectedGame>::empty());
        while i < current.len()
            invariant
                i <= current.len(),
                ts0 == old(self)@,
                (self@, events@) == sightings(ts0, current@.subrange(0, i as int)),
            decreases current.len() - i,
        {
            let ghost before = (self@, events@);
            self.see(&current[i], &mut events);
            proof {
                let cur = current@.subrange(0, (i + 1) as int);
                assert(cur.drop_last() =~= current@.subrange(0, i as int));
                assert(cur.last() == current@[i as int]);
            }
            i = i + 1;
        }
        assert(current@.subrange(0, current.len() as int) =~= current@);
        let ghost after_sightings = self@;
        let ghost e1 = events@;
        let mut kept: Vec<Track> = Vec::new();
        let mut stops: Vec<DetectorEvent> = Vec::new();
        let mut j: usize = 0;
        let n = self.tracks.len();
        assert(self@.subrange(0, 0) =~= Seq::<Track>::empty());
        while j < n
            invariant
                n == self.tracks.len(),
                self@ == after_sightings,
                j <= n,
                (kept@, stops@) == misses(after_sightings.subrange(0, j as int), current@),
            decreases n - j,
        {
            let t = &self.tracks[j];
            let mut present = false;
            let mut q: usize = 0;
            while q < current.len()
                invariant
                    q <= current.len(),
                    present == exists|x: int| 0 <= x < q && current@[x].pid == t.game.pid,
                decreases current.len() - q,
            {
                if current[q].pid == t.game.pid {
                    present = true;
                }
                q = q + 1;
            }
            proof {
                let pre = after_sightings.subrange(0, (j + 1) as int);
                assert(pre.drop_last() =~= after_sightings.subrange(0, j as int));
                assert(pre.last() == *t);
            }
            if present {
                kept.push(Track {
                    game: t.game.copy(),
                    seen: t.seen,
                    missed: t.missed,
                    announced: t.announced,
                });
            } else if t.missed {
                if t.announced {
                    stops.push(DetectorEvent::GameStopped { pid: t.game.pid });
                }
            } else {
                kept.push(Track {
                    game: t.game.copy(),
                    seen: 0,
                    missed: true,
                    announced: t.announced,
                });
            }
            j = j + 1;
        }
        assert(after_sightings.subrange(0, n as int) =~= after_sightings);
        self.tracks = kept;
        let mut all = events;
        let ghost e2 = stops@;
        let mut stops = stops;
        all.append(&mut stops);
        assert(all@ =~= e1 + e2);
        all
    }
}

// ---------------------------------------------------------------------------
// Laws of the detector
// ---------------------------------------------------------------------------

pub open spec fn starts_pid(e: DetectorEvent, pid: u32) -> bool {
    e matches DetectorEvent::GameStarted(g) && g.pid == pid
}

pub open spec fn is_start(e: DetectorEvent) -> bool {
    e is GameStarted
}

proof fn lemma_find_track_update(ts: Seq<Track>, k: int, x: Track, pid: u32)
    requires
        0 <= k < ts.len(),
        x.game.pid == ts[k].game.pid,
    ensures
        find_track(ts.update(k, x), pid) == find_track(ts, pid),
{
    let u = ts.update(k, x);
    lemma_find_track(ts, pid);
    let f = find_track(ts, pid);
    if f >= 0 {
        assert forall|j: int| 0 <= j < f implies u[j].game.pid != pid by {
            assert(ts[j].game.pid != pid);
        }
        lemma_find_track_at(u, pid, f);
    } else {
        assert forall|j: int| 0 <= j < u.len() implies u[j].game.pid != pid by {
            assert(ts[j].game.pid != pid);
        }
        lemma_find_track_at(u, pid, u.len() as int);
    }
}

proof fn lemma_find_track_push(ts: Seq<Track>, x: Track, pid: u32)
    requires
        find_track(ts, pid) >= 0,
    ensures
        find_track(ts.push(x), pid) == find_track(ts, pid),
{
    let u = ts.push(x);
    lemma_find_track(ts, pid);
    let f = find_track(ts, pid);
    assert forall|j: int| 0 <= j < f implies u[j].game.pid != pid by {
        assert(u[j] == ts[j]);
    }
    assert(u[f] == ts[f]);
    lemma_find_track_at(u, pid, f);
}

proof fn lemma_sightings_keep_announced(ts: Seq<Track>, current: Seq<DetectedGame>, pid: u32)
    requires
        find_track(ts, pid) >= 0,
        ts[find_track(ts, pid)].announced,
    ensures
        find_track(sightings(ts, current).0, pid) == find_track(ts, pid),
        sightings(ts, current).0[find_track(ts, pid)].announced,
        forall|i: int|
            0 <= i < sightings(ts, current).1.len() ==> !starts_pid(
                #[trigger] sightings(ts, current).1[i],
                pid,
            ),
    decreases current.len(),
{
    lemma_find_track(ts, pid);
    if current.len() > 0 {
        let (a, e1) = sightings(ts, current.drop_last());
        lemma_sightings_keep_announced(ts, current.drop_last(), pid);
        let g = current.last();
        let k = find_track(a, g.pid);
        let f = find_track(ts, pid);
        lemma_find_track(a, pid);
        lemma_find_track(a, g.pid);
        let (b, e2) = sighting(a, g);
        if k >= 0 {
            let t = a[k];
            let seen: u32 = if t.seen == u32::MAX { t.seen } else { (t.seen + 1) as u32 };
            let fire = seen >= 2 && !t.announced;
            let t2 = Track { seen: seen, missed: false, announced: t.announced || fire, ..t };
            lemma_find_track_update(a, k, t2, pid);
            if g.pid == pid {
                assert(k == f);
                assert(!fire);
            }
        } else {
            lemma_find_track_push(a, Track {
                seen: 1,
                missed: false,
                announced: false,
                game: g,
            }, pid);
            assert(g.pid != pid);
        }
        assert forall|i: int| 0 <= i < e1.len() + e2.len() implies !starts_pid(#[trigger] (e1 + e2)[i], pid) by {
            if i < e1.len() {
                assert((e1 + e2)[i] == e1[i]);
            } else {
                assert((e1 + e2)[i] == e2[i - e1.len()]);
            }
        }
    }
}

proof fn lemma_misses_only_stops(ts: Seq<Track>, current: Seq<DetectedGame>)
    ensures
        forall|i: int| 0 <= i < misses(ts, current).1.len() ==> !is_start(#[trigger] misses(ts, current).1[i]),
        forall|i: int|
            0 <= i < misses(ts, current).1.len() ==> (#[trigger] misses(ts, current).1[i] matches DetectorEvent::GameStopped { pid } && exists|j: int|
                0 <= j < ts.len() && ts[j].game.pid == pid && ts[j].missed && ts[j].announced
                    && !pid_in(current, pid)),
    decreases ts.len(),
{
    if ts.len() > 0 {
        lemma_misses_only_stops(ts.drop_last(), current);
        let (r, e) = misses(ts.drop_last(), current);
        let t = ts.last();
        let out = misses(ts, current).1;
        assert forall|i: int| 0 <= i < out.len() implies (#[trigger] out[i] matches DetectorEvent::GameStopped { pid } && exists|j: int|
            0 <= j < ts.len() && ts[j].game.pid == pid && ts[j].missed && ts[j].announced
                && !pid_in(current, pid)) by {
            if i < e.len() {
                assert(out[i] == e[i]);
                let pid = out[i]->pid;
                let j = choose|j: int| 0 <= j < ts.drop_last().len() && ts.drop_last()[j].game.pid == pid
                    && ts.drop_last()[j].missed && ts.drop_last()[j].announced && !pid_in(current, pid);
                assert(ts[j] == ts.drop_last()[j]);
            } else {
                assert(ts[ts.len() - 1] == t);
            }
        }
    }
}

/// A game already announced is never announced again while it stays
/// tracked: a scan emits no GameStarted for its PID.
pub proof fn law_announced_at_most_once(ts: Seq<Track>, current: Seq<DetectedGame>, pid: u32, i: int)
    requires
        find_track(ts, pid) >= 0,
        ts[find_track(ts, pid)].announced,
        0 <= i < tick_spec(ts, current).1.len(),
    ensures
        !starts_pid(tick_spec(ts, current).1[i], pid),
{
    lemma_sightings_keep_announced(ts, current, pid);
    let (a, e1) = sightings(ts, current);
    lemma_misses_only_stops(a, current);
    let e2 = misses(a, current).1;
    if i < e1.len() {
        assert((e1 + e2)[i] == e1[i]);
    } else {
        assert((e1 + e2)[i] == e2[i - e1.len()]);
        assert(!is_start(e2[i - e1.len()]));
    }
}

/// The first scan that sees a game does not announce it.
pub proof fn law_first_sighting_is_silent(ts: Seq<Track>, g: DetectedGame, i: int)
    requires
        find_track(ts, g.pid) == -1,
        0 <= i < tick_spec(ts, seq![g]).1.len(),
    ensures
        !is_start(tick_spec(ts, seq![g]).1[i]),
{
    let cur = seq![g];
    assert(cur.drop_last() =~= Seq::<DetectedGame>::empty());
    assert(cur.last() == g);
    assert(sightings(ts, cur.drop_last()) == (ts, Seq::<DetectorEvent>::empty()));
    assert(sightings(ts, cur) == (sighting(ts, g).0, Seq::<DetectorEvent>::empty() + sighting(ts, g).1));
    let (a, e1) = sightings(ts, cur);
    assert(sighting(ts, g).1.len() == 0);
    assert(e1.len() == 0);
    lemma_misses_only_stops(a, cur);
    assert(tick_spec(ts, cur).1 =~= misses(a, cur).1);
}

/// The second consecutive scan that sees a game announces it, first among
/// the scan's events.
pub proof fn law_second_sighting_announces(ts: Seq<Track>, g: DetectedGame)
    requires
        0 <= find_track(ts, g.pid) < ts.len(),
        ts[find_track(ts, g.pid)].seen == 1,
        !ts[find_track(ts, g.pid)].announced,
    ensures
        tick_spec(ts, seq![g]).1.len() >= 1,
        tick_spec(ts, seq![g]).1[0] == DetectorEvent::GameStarted(g),
{
    lemma_find_track(ts, g.pid);
    let cur = seq![g];
    assert(cur.drop_last() =~= Seq::<DetectedGame>::empty());
    assert(cur.last() == g);
    assert(sightings(ts, cur.drop_last()) == (ts, Seq::<DetectorEvent>::empty()));
    assert(sightings(ts, cur) == (sighting(ts, g).0, Seq::<DetectorEvent>::empty() + sighting(ts, g).1));
    assert(sighting(ts, g).1 == seq![DetectorEvent::GameStarted(g)]);
    let (a, e1) = sightings(ts, cur);
    assert(e1 =~= seq![DetectorEvent::GameStarted(g)]);
}

/// A stop is only announced for a game that was announced, that missed the
/// previous scan, and that this scan does not see either.
pub proof fn law_stop_after_two_misses(ts: Seq<Track>, current: Seq<DetectedGame>, i: int)
    requires
        0 <= i < tick_spec(ts, current).1.len(),
        tick_spec(ts, current).1[i] is GameStopped,
    ensures
        ({
            let pid = tick_spec(ts, current).1[i]->pid;
            &&& !pid_in(current, pid)
            &&& exists|j: int|
                0 <= j < ts.len() && ts[j].game.pid == pid && ts[j].missed && ts[j].announced
        }),
{
    let (a, e1) = sightings(ts, current);
    lemma_sightings_unseen_unchanged(ts, current);
    lemma_sightings_only_starts(ts, current);
    lemma_misses_only_stops(a, current);
    let e2 = misses(a, current).1;
    if i < e1.len() {
        assert((e1 + e2)[i] == e1[i]);
        assert(is_start(e1[i]));
    } else {
        assert((e1 + e2)[i] == e2[i - e1.len()]);
        let pid = e2[i - e1.len()]->pid;
        let j = choose|j: int| 0 <= j < a.len() && a[j].game.pid == pid && a[j].missed && a[j].announced
            && !pid_in(current, pid);
        assert(j < ts.len() && a[j] == ts[j]);
    }
}

proof fn lemma_sightings_only_starts(ts: Seq<Track>, current: Seq<DetectedGame>)
    ensures
        forall|i: int| 0 <= i < sightings(ts, current).1.len() ==> is_start(#[trigger] sightings(ts, current).1[i]),
    decreases current.len(),
{
    if current.len() > 0 {
        lemma_sightings_only_starts(ts, current.drop_last());
        let (a, e1) = sightings(ts, current.drop_last());
        let (b, e2) = sighting(a, current.last());
        assert forall|i: int| 0 <= i < e1.len() + e2.len() implies is_start(#[trigger] (e1 + e2)[i]) by {
            if i < e1.len() {
                assert((e1 + e2)[i] == e1[i]);
            } else {
                assert((e1 + e2)[i] == e2[i - e1.len()]);
            }
        }
    }
}

proof fn lemma_sightings_unseen_unchanged(ts: Seq<Track>, current: Seq<DetectedGame>)
    ensures
        sightings(ts, current).0.len() >= ts.len(),
        forall|j: int|
            0 <= j < sightings(ts, current).0.len() && !pid_in(current, #[trigger] sightings(ts, current).0[j].game.pid)
                ==> j < ts.len() && sightings(ts, current).0[j] == ts[j],
    decreases current.len(),
{
    if current.len() > 0 {
        let prev = current.drop_last();
        lemma_sightings_unseen_unchanged(ts, prev);
        let (a, e1) = sightings(ts, prev);
        let g = current.last();
        let k = find_track(a, g.pid);
        lemma_find_track(a, g.pid);
        let b = sighting(a, g).0;
        assert forall|j: int| 0 <= j < b.len() && !pid_in(current, #[trigger] b[j].game.pid) implies j < ts.len() && b[j] == ts[j] by {
            assert(current[current.len() - 1] == g);
            if k >= 0 {
                assert(j != k);
                assert(b[j] == a[j]);
            } else {
                assert(j < a.len());
                assert(b[j] == a[j]);
            }
            if pid_in(prev, b[j].game.pid) {
                let x = choose|x: int| 0 <= x < prev.len() && prev[x].pid == b[j].game.pid;
                assert(current[x] == prev[x]);
            }
        }
    }
}


/// Whether some track of `p` has been announced.
pub open spec fn announced_pid(ts: Seq<Track>, p: u32) -> bool {
    exists|j: int| 0 <= j < ts.len() && ts[j].game.pid == p && ts[j].announced
}

/// Whether some track is of `p`.
pub open spec fn has_pid(ts: Seq<Track>, p: u32) -> bool {
    exists|j: int| 0 <= j < ts.len() && ts[j].game.pid == p
}

/// No two tracks share a PID.
pub open spec fn unique_pids(ts: Seq<Track>) -> bool {
    forall|i: int, j: int| 0 <= i < j < ts.len() ==> ts[i].game.pid != ts[j].game.pid
}

/// The PID an event is about.
pub open spec fn event_pid(e: DetectorEvent) -> u32 {
    match e {
        DetectorEvent::GameStarted(g) => g.pid,
        DetectorEvent::GameStopped { pid } => pid,
    }
}

/// Reading the events about `p` in order, starting from whether `p` is
/// announced: a start is allowed only while `p` is not announced and a stop
/// only while it is. None when the events break this; else whether `p` is
/// announced after them.
pub open spec fn alternation(evs: Seq<DetectorEvent>, p: u32, announced: bool) -> Option<bool>
    decreases evs.len(),
{
    if evs.len() == 0 {
        Some(announced)
    } else {
        match alternation(evs.drop_last(), p, announced) {
            None => None,
            Some(b) => {
                let e = evs.last();
                if event_pid(e) != p {
                    Some(b)
                } else if e is GameStarted {
                    if b {
                        None
                    } else {
                        Some(true)
                    }
                } else if b {
                    Some(false)
                } else {
                    None
                }
            },
        }
    }
}

/// The tracks and all the events, in order, after a sequence of scans.
pub open spec fn run_scans(ts: Seq<Track>, scans: Seq<Seq<DetectedGame>>) -> (Seq<Track>, Seq<DetectorEvent>)
    decreases scans.len(),
{
    if scans.len() == 0 {
        (ts, seq![])
    } else {
        let (a, e1) = run_scans(ts, scans.drop_last());
        let (b, e2) = tick_spec(a, scans.last());
        (b, e1 + e2)
    }
}

proof fn lemma_alternation_concat(e1: Seq<DetectorEvent>, e2: Seq<DetectorEvent>, p: u32, a: bool)
    ensures
        alternation(e1 + e2, p, a) == match alternation(e1, p, a) {
            None => None,
            Some(b) => alternation(e2, p, b),
        },
    decreases e2.len(),
{
    if e2.len() == 0 {
        assert(e1 + e2 =~= e1);
    } else {
        lemma_alternation_concat(e1, e2.drop_last(), p, a);
        assert((e1 + e2).drop_last() =~= e1 + e2.drop_last());
        assert((e1 + e2).last() == e2.last());
    }
}

proof fn lemma_alternation_other(evs: Seq<DetectorEvent>, p: u32, a: bool)
    requires
        forall|i: int| 0 <= i < evs.len() ==> event_pid(#[trigger] evs[i]) != p,
    ensures
        alternation(evs, p, a) == Some(a),
    decreases evs.len(),
{
    if evs.len() > 0 {
        assert forall|i: int| 0 <= i < evs.drop_last().len() implies event_pid(#[trigger] evs.drop_last()[i]) != p by {
            assert(evs.drop_last()[i] == evs[i]);
        }
        lemma_alternation_other(evs.drop_last(), p, a);
        assert(evs.last() == evs[evs.len() - 1]);
    }
}

proof fn lemma_alternation_one(e: DetectorEvent, p: u32, a: bool)
    ensures
        alternation(seq![e], p, a) == if event_pid(e) != p {
            Some(a)
        } else if e is GameStarted {
            if a {
                None
            } else {
                Some(true)
            }
        } else if a {
            Some(false)
        } else {
            None
        },
{
    assert(seq![e].drop_last() =~= Seq::<DetectorEvent>::empty());
    assert(seq![e].last() == e);
    assert(alternation(Seq::<DetectorEvent>::empty(), p, a) == Some(a));
}

proof fn lemma_sighting_alternates(a: Seq<Track>, g: DetectedGame)
    requires
        unique_pids(a),
    ensures
        unique_pids(sighting(a, g).0),
        forall|p: u32|
            alternation(sighting(a, g).1, p, announced_pid(a, p)) == Some(
                #[trigger] announced_pid(sighting(a, g).0, p),
            ),
        forall|i: int| 0 <= i < sighting(a, g).1.len() ==> #[trigger] sighting(a, g).1[i] == DetectorEvent::GameStarted(g),
{
    lemma_find_track(a, g.pid);
    let k = find_track(a, g.pid);
    let (b, e) = sighting(a, g);
    let t = if k >= 0 {
        a[k]
    } else {
        Track { game: g, seen: 0, missed: false, announced: false }
    };
    let seen: u32 = if t.seen == u32::MAX { t.seen } else { (t.seen + 1) as u32 };
    let fire = seen >= 2 && !t.announced;
    let t2 = Track { seen: seen, missed: false, announced: t.announced || fire, ..t };
    let pos = if k >= 0 { k } else { a.len() as int };
    if k >= 0 {
        assert(b == a.update(k, t2));
    } else {
        assert(b == a.push(t2));
    }
    assert(b[pos] == t2 && t2.game.pid == g.pid);
    assert forall|j: int| 0 <= j < b.len() && j != pos implies b[j] == a[j] by {}
    assert forall|i: int, j: int| 0 <= i < j < b.len() implies b[i].game.pid != b[j].game.pid by {
        if i != pos && j != pos {
            assert(b[i] == a[i] && b[j] == a[j]);
        } else if i == pos {
            assert(b[j] == a[j]);
            if k < 0 {
                assert(j < a.len());
            }
        } else {
            assert(b[i] == a[i]);
        }
    }
    assert forall|p: u32| alternation(e, p, announced_pid(a, p)) == Some(#[trigger] announced_pid(b, p)) by {
        if fire {
            assert(e == seq![DetectorEvent::GameStarted(g)]);
        } else {
            assert(e == Seq::<DetectorEvent>::empty());
        }
        if p != g.pid {
            if announced_pid(a, p) {
                let j = choose|j: int| 0 <= j < a.len() && a[j].game.pid == p && a[j].announced;
                assert(j != pos);
                assert(b[j] == a[j]);
            }
            if announced_pid(b, p) {
                let j = choose|j: int| 0 <= j < b.len() && b[j].game.pid == p && b[j].announced;
                assert(j != pos);
                assert(b[j] == a[j]);
            }
            if fire {
                lemma_alternation_one(DetectorEvent::GameStarted(g), p, announced_pid(a, p));
            }
        } else {
            assert(announced_pid(a, p) == t.announced) by {
                if announced_pid(a, p) {
                    let j = choose|j: int| 0 <= j < a.len() && a[j].game.pid == p && a[j].announced;
                    assert(j == k);
                }
                if k >= 0 && t.announced {
                    assert(a[k].game.pid == p);
                }
            }
            assert(announced_pid(b, p) == t2.announced) by {
                if announced_pid(b, p) {
                    let j = choose|j: int| 0 <= j < b.len() && b[j].game.pid == p && b[j].announced;
                    if j != pos {
                        assert(b[j] == a[j]);
                        assert(j == k);
                    }
                }
                if t2.announced {
                    assert(b[pos].game.pid == p);
                }
            }
            if fire {
                lemma_alternation_one(DetectorEvent::GameStarted(g), p, announced_pid(a, p));
            }
        }
    }
}

proof fn lemma_sightings_alternate(ts: Seq<Track>, current: Seq<DetectedGame>)
    requires
        unique_pids(ts),
    ensures
        unique_pids(sightings(ts, current).0),
        forall|p: u32|
            alternation(sightings(ts, current).1, p, announced_pid(ts, p)) == Some(
                #[trigger] announced_pid(sightings(ts, current).0, p),
            ),
    decreases current.len(),
{
    if current.len() > 0 {
        let c0 = current.drop_last();
        let g = current.last();
        lemma_sightings_alternate(ts, c0);
        let (a, e1) = sightings(ts, c0);
        lemma_sighting_alternates(a, g);
        let (b, e2) = sighting(a, g);
        assert forall|p: u32| alternation(e1 + e2, p, announced_pid(ts, p)) == Some(
            #[trigger] announced_pid(b, p),
        ) by {
            lemma_alternation_concat(e1, e2, p, announced_pid(ts, p));
            assert(announced_pid(a, p) == announced_pid(a, p));
        }
    }
}

proof fn lemma_misses_alternate(ts: Seq<Track>, current: Seq<DetectedGame>)
    requires
        unique_pids(ts),
    ensures
        unique_pids(misses(ts, current).0),
        forall|j: int| 0 <= j < misses(ts, current).0.len() ==> has_pid(ts, #[trigger] misses(ts, current).0[j].game.pid),
        forall|i: int| 0 <= i < misses(ts, current).1.len() ==> has_pid(ts, event_pid(#[trigger] misses(ts, current).1[i])),
        forall|p: u32|
            alternation(misses(ts, current).1, p, announced_pid(ts, p)) == Some(
                #[trigger] announced_pid(misses(ts, current).0, p),
            ),
    decreases ts.len(),
{
    if ts.len() > 0 {
        let ts0 = ts.drop_last();
        let t = ts.last();
        assert(t == ts[ts.len() - 1]);
        assert forall|i: int, j: int| 0 <= i < j < ts0.len() implies ts0[i].game.pid != ts0[j].game.pid by {
            assert(ts0[i] == ts[i] && ts0[j] == ts[j]);
        }
        lemma_misses_alternate(ts0, current);
        let (r0, e0) = misses(ts0, current);
        let (r, e) = misses(ts, current);
        let q = t.game.pid;
        assert(!has_pid(ts0, q)) by {
            if has_pid(ts0, q) {
                let j = choose|j: int| 0 <= j < ts0.len() && ts0[j].game.pid == q;
                assert(ts[j] == ts0[j]);
            }
        }
        assert forall|x: u32| has_pid(ts0, x) implies has_pid(ts, x) by {
            let j = choose|j: int| 0 <= j < ts0.len() && ts0[j].game.pid == x;
            assert(ts[j] == ts0[j]);
        }
        assert forall|j: int| 0 <= j < r0.len() implies r0[j].game.pid != q by {
            assert(has_pid(ts0, r0[j].game.pid));
        }
        assert forall|i: int| 0 <= i < e0.len() implies event_pid(#[trigger] e0[i]) != q by {
            assert(has_pid(ts0, event_pid(e0[i])));
        }
        // the shape of this step
        let pushed = !(!pid_in(current, q) && t.missed);
        let stopped = !pid_in(current, q) && t.missed && t.announced;
        let nt = if pid_in(current, q) { t } else { Track { seen: 0, missed: true, ..t } };
        if pushed {
            assert(r == r0.push(nt) && e == e0);
        } else if stopped {
            assert(r == r0 && e == e0.push(DetectorEvent::GameStopped { pid: q }));
        } else {
            assert(r == r0 && e == e0);
        }
        assert(has_pid(ts, q));
        assert forall|i: int, j: int| 0 <= i < j < r.len() implies r[i].game.pid != r[j].game.pid by {
            if pushed && j == r0.len() {
                assert(r[i] == r0[i]);
            } else {
                assert(r[i] == r0[i] && r[j] == r0[j]);
            }
        }
        assert forall|j: int| 0 <= j < r.len() implies has_pid(ts, #[trigger] r[j].game.pid) by {
            if j < r0.len() {
                assert(r[j] == r0[j]);
                assert(has_pid(ts0, r0[j].game.pid));
            }
        }
        assert forall|i: int| 0 <= i < e.len() implies has_pid(ts, event_pid(#[trigger] e[i])) by {
            if i < e0.len() {
                assert(e[i] == e0[i]);
                assert(has_pid(ts0, event_pid(e0[i])));
            }
        }
        assert forall|p: u32| alternation(e, p, announced_pid(ts, p)) == Some(#[trigger] announced_pid(r, p)) by {
            assert forall|j: int| 0 <= j < ts0.len() implies ts0[j] == ts[j] by {}
            assert forall|j: int| 0 <= j < r0.len() implies r0[j] == r[j] by {
                if pushed {
                    assert(r[j] == r0.push(nt)[j]);
                }
            }
            if p != q {
                assert(announced_pid(ts, p) == announced_pid(ts0, p)) by {
                    if announced_pid(ts, p) {
                        let j = choose|j: int| 0 <= j < ts.len() && ts[j].game.pid == p && ts[j].announced;
                        assert(j < ts0.len());
                    }
                    if announced_pid(ts0, p) {
                        let j = choose|j: int| 0 <= j < ts0.len() && ts0[j].game.pid == p && ts0[j].announced;
                        assert(ts[j] == ts0[j]);
                    }
                }
                assert(announced_pid(r, p) == announced_pid(r0, p)) by {
                    if announced_pid(r, p) {
                        let j = choose|j: int| 0 <= j < r.len() && r[j].game.pid == p && r[j].announced;
                        assert(j < r0.len());
                    }
                    if announced_pid(r0, p) {
                        let j = choose|j: int| 0 <= j < r0.len() && r0[j].game.pid == p && r0[j].announced;
                        assert(r[j] == r0[j]);
                    }
                }
                if stopped {
                    lemma_alternation_concat(e0, seq![DetectorEvent::GameStopped { pid: q }], p, announced_pid(ts, p));
                    assert(e0.push(DetectorEvent::GameStopped { pid: q }) =~= e0 + seq![DetectorEvent::GameStopped { pid: q }]);
                    lemma_alternation_one(DetectorEvent::GameStopped { pid: q }, p, announced_pid(r0, p));
                }
            } else {
                assert(announced_pid(ts, p) == t.announced) by {
                    if announced_pid(ts, p) {
                        let j = choose|j: int| 0 <= j < ts.len() && ts[j].game.pid == p && ts[j].announced;
                        if j < ts0.len() {
                            assert(ts0[j] == ts[j]);
                        }
                    }
                }
                assert(!announced_pid(r0, p)) by {
                    if announced_pid(r0, p) {
                        let j = choose|j: int| 0 <= j < r0.len() && r0[j].game.pid == p && r0[j].announced;
                    }
                }
                assert(announced_pid(r, p) == (pushed && t.announced)) by {
                    if announced_pid(r, p) {
                        let j = choose|j: int| 0 <= j < r.len() && r[j].game.pid == p && r[j].announced;
                        if j < r0.len() {
                            assert(r[j] == r0[j]);
                        }
                    }
                    if pushed && t.announced {
                        assert(r[r0.len() as int] == nt);
                    }
                }
                lemma_alternation_other(e0, p, t.announced);
                if stopped {
                    lemma_alternation_concat(e0, seq![DetectorEvent::GameStopped { pid: q }], p, t.announced);
                    assert(e0.push(DetectorEvent::GameStopped { pid: q }) =~= e0 + seq![DetectorEvent::GameStopped { pid: q }]);
                    lemma_alternation_one(DetectorEvent::GameStopped { pid: q }, p, t.announced);
                }
            }
        }
    }
}

/// One scan keeps the PIDs of the tracks distinct, and reads, for every PID,
/// as an alternation of starts and stops from whether it was announced
/// before the scan to whether it is announced after.
pub proof fn lemma_tick_alternates(ts: Seq<Track>, current: Seq<DetectedGame>)
    requires
        unique_pids(ts),
    ensures
        unique_pids(tick_spec(ts, current).0),
        forall|p: u32|
            alternation(tick_spec(ts, current).1, p, announced_pid(ts, p)) == Some(
                #[trigger] announced_pid(tick_spec(ts, current).0, p),
            ),
{
    lemma_sightings_alternate(ts, current);
    let (a, e1) = sightings(ts, current);
    lemma_misses_alternate(a, current);
    let (b, e2) = misses(a, current);
    assert forall|p: u32| alternation(e1 + e2, p, announced_pid(ts, p)) == Some(#[trigger] announced_pid(b, p)) by {
        lemma_alternation_concat(e1, e2, p, announced_pid(ts, p));
        assert(announced_pid(a, p) == announced_pid(a, p));
    }
}

proof fn lemma_run_alternates(scans: Seq<Seq<DetectedGame>>)
    ensures
        unique_pids(run_scans(seq![], scans).0),
        forall|p: u32|
            alternation(run_scans(seq![], scans).1, p, false) == Some(
                #[trigger] announced_pid(run_scans(seq![], scans).0, p),
            ),
    decreases scans.len(),
{
    if scans.len() > 0 {
        lemma_run_alternates(scans.drop_last());
        let (a, e1) = run_scans(seq![], scans.drop_last());
        lemma_tick_alternates(a, scans.last());
        let (b, e2) = tick_spec(a, scans.last());
        assert forall|p: u32| alternation(e1 + e2, p, false) == Some(#[trigger] announced_pid(b, p)) by {
            lemma_alternation_concat(e1, e2, p, false);
            assert(announced_pid(a, p) == announced_pid(a, p));
        }
    }
}

/// Over any sequence of scans of a new detector, the events about each PID
/// alternate: GameStarted first, never a second start while the game is
/// announced, never a stop without a start.
pub proof fn law_starts_and_stops_alternate(scans: Seq<Seq<DetectedGame>>, p: u32)
    ensures
        alternation(run_scans(seq![], scans).1, p, false) is Some,
{
    lemma_run_alternates(scans);
    assert(alternation(run_scans(seq![], scans).1, p, false) == Some(
        announced_pid(run_scans(seq![], scans).0, p),
    ));
}

/// Every GameStarted a scan returns names a game of that scan, and every
/// GameStopped a PID that the scan did not see.
pub proof fn law_events_match_the_scan(ts: Seq<Track>, current: Seq<DetectedGame>, i: int)
    requires
        0 <= i < tick_spec(ts, current).1.len(),
    ensures
        tick_spec(ts, current).1[i] matches DetectorEvent::GameStarted(g) ==> current.contains(g),
        tick_spec(ts, current).1[i] matches DetectorEvent::GameStopped { pid } ==> !pid_in(current, pid),
{
    lemma_sightings_start_from_scan(ts, current);
    let (a, e1) = sightings(ts, current);
    lemma_misses_only_stops(a, current);
    let e2 = misses(a, current).1;
    if i < e1.len() {
        assert((e1 + e2)[i] == e1[i]);
    } else {
        assert((e1 + e2)[i] == e2[i - e1.len()]);
    }
}

proof fn lemma_sightings_start_from_scan(ts: Seq<Track>, current: Seq<DetectedGame>)
    ensures
        forall|i: int|
            0 <= i < sightings(ts, current).1.len() ==> (#[trigger] sightings(ts, current).1[i] matches DetectorEvent::GameStarted(g)
                && current.contains(g)),
    decreases current.len(),
{
    if current.len() > 0 {
        let c0 = current.drop_last();
        let g = current.last();
        lemma_sightings_start_from_scan(ts, c0);
        let (a, e1) = sightings(ts, c0);
        let (b, e2) = sighting(a, g);
        lemma_find_track(a, g.pid);
        assert forall|i: int| 0 <= i < (e1 + e2).len() implies (#[trigger] (e1 + e2)[i] matches DetectorEvent::GameStarted(x)
            && current.contains(x)) by {
            if i < e1.len() {
                assert((e1 + e2)[i] == e1[i]);
                let x = e1[i]->0;
                let j = choose|j: int| 0 <= j < c0.len() && c0[j] == x;
                assert(current[j] == c0[j]);
            } else {
                assert((e1 + e2)[i] == e2[i - e1.len()]);
                assert(e2[i - e1.len()] == DetectorEvent::GameStarted(g));
                assert(current[current.len() - 1] == g);
            }
        }
    }
}


/// What was read about one process: its pid, `comm`, command line and
/// environment, and the appmanifest name of its Steam app id when that was
/// found.
pub struct ProcessSnapshot {
    pub pid: u32,
    pub comm: String,
    pub cmdline: String,
    pub environ: Vec<(String, String)>,
    pub steam_name: Option<String>,
}

pub open spec fn snapshot_match(p: ProcessSnapshot) -> Option<(u32, Seq<char>)> {
    match match_game_spec(p.comm@, p.cmdline@, p.environ@, p.steam_name) {
        Some(n) => Some((p.pid, n)),
        None => None,
    }
}

pub open spec fn games_view(v: Seq<DetectedGame>) -> Seq<(u32, Seq<char>)> {
    v.map_values(|g: DetectedGame| (g.pid, g.name@))
}

/// The games among a snapshot of the process table, in table order.
pub fn scan_once(procs: &Vec<ProcessSnapshot>) -> (r: Vec<DetectedGame>)
    ensures
        games_view(r@) == crate::text::filter_map(procs@, |p: ProcessSnapshot| snapshot_match(p)),
{
    let ghost f = |p: ProcessSnapshot| snapshot_match(p);
    let mut out: Vec<DetectedGame> = Vec::new();
    let mut i: usize = 0;
    assert(games_view(out@) =~= crate::text::filter_map(procs@.take(0), f));
    while i < procs.len()
        invariant
            i <= procs.len(),
            f == (|p: ProcessSnapshot| snapshot_match(p)),
            games_view(out@) == crate::text::filter_map(procs@.take(i as int), f),
        decreases procs.len() - i,
    {
        proof {
            crate::text::lemma_filter_map_step(procs@, f, i as int);
        }
        let p = &procs[i];
        let ghost before = games_view(out@);
        match match_game(p.pid, p.comm.as_str(), p.cmdline.as_str(), &p.environ, crate::clips::copy_token(&p.steam_name)) {
            Some(g) => {
                let ghost gv = (g.pid, g.name@);
                out.push(g);
                assert(games_view(out@) =~= before.push(gv));
            },
            None => {},
        }
        i = i + 1;
    }
    assert(procs@.take(procs.len() as int) =~= procs@);
    out
}

// ---------------------------------------------------------------------------
// /proc/<pid>/cmdline and /proc/<pid>/environ
// ---------------------------------------------------------------------------

/// What `String::from_utf8_lossy` makes of some bytes.
pub uninterp spec fn utf8_lossy(b: Seq<u8>) -> Seq<char>;

/// `String::from_utf8_lossy(b).into_owned()`: the text of the bytes, each
/// invalid sequence replaced with U+FFFD; bytes that are the UTF-8 encoding
/// of a text give that text back.
#[verifier::external_body]
fn lossy_text(b: &[u8]) -> (r: String)
    ensures
        r@ == utf8_lossy(b@),
        forall|s: Seq<char>| crate::eq::sonar::utf8_encode(s) == b@ ==> r@ == s,
{
    String::from_utf8_lossy(b).into_owned()
}

/// The NUL-separated chunks read so far and the chunk being read.
pub open spec fn chunk_state(b: Seq<u8>) -> (Seq<Seq<u8>>, Seq<u8>)
    decreases b.len(),
{
    if b.len() == 0 {
        (seq![], seq![])
    } else {
        let (done, cur) = chunk_state(b.drop_last());
        if b.last() == 0 {
            (if cur.len() > 0 { done.push(cur) } else { done }, seq![])
        } else {
            (done, cur.push(b.last()))
        }
    }
}

/// The non-empty NUL-separated chunks of `b`, in order.
pub open spec fn nul_chunks(b: Seq<u8>) -> Seq<Seq<u8>> {
    let (done, cur) = chunk_state(b);
    if cur.len() > 0 {
        done.push(cur)
    } else {
        done
    }
}

/// The words joined with one space between each two.
pub open spec fn join_spaces(w: Seq<Seq<char>>) -> Seq<char>
    decreases w.len(),
{
    if w.len() == 0 {
        seq![]
    } else if w.len() == 1 {
        w[0]
    } else {
        join_spaces(w.drop_last()) + seq![' '] + w.last()
    }
}

/// The command line of a process: its non-empty arguments as text, joined
/// with spaces.
pub open spec fn cmdline_spec(b: Seq<u8>) -> Seq<char> {
    join_spaces(nul_chunks(b).map_values(|c: Seq<u8>| utf8_lossy(c)))
}

/// One environment entry: `KEY=value` split at the first `=`; entries
/// without `=` are dropped.
pub open spec fn env_entry(c: Seq<u8>) -> Option<(Seq<char>, Seq<char>)> {
    crate::text::split_once(utf8_lossy(c), '=')
}

/// The environment of a process, in the order of the file.
pub open spec fn environ_spec(b: Seq<u8>) -> Seq<(Seq<char>, Seq<char>)> {
    crate::text::filter_map(nul_chunks(b), |c: Seq<u8>| env_entry(c))
}

pub open spec fn byte_views(v: Seq<Vec<u8>>) -> Seq<Seq<u8>> {
    v.map_values(|x: Vec<u8>| x@)
}

/// Split `b` at its NUL bytes, leaving out empty chunks.
pub fn split_nul(b: &[u8]) -> (r: Vec<Vec<u8>>)
    ensures
        byte_views(r@) == nul_chunks(b@),
{
    let mut done: Vec<Vec<u8>> = Vec::new();
    let mut cur: Vec<u8> = Vec::new();
    let mut i: usize = 0;
    while i < b.len()
        invariant
            i <= b.len(),
            (byte_views(done@), cur@) == chunk_state(b@.take(i as int)),
        decreases b.len() - i,
    {
        assert(b@.take(i + 1).drop_last() =~= b@.take(i as int));
        assert(b@.take(i + 1).last() == b@[i as int]);
        if b[i] == 0 {
            if cur.len() > 0 {
                let ghost before = byte_views(done@);
                let ghost c = cur@;
                done.push(cur);
                assert(byte_views(done@) =~= before.push(c));
            }
            cur = Vec::new();
            assert(cur@ =~= Seq::<u8>::empty());
        } else {
            cur.push(b[i]);
        }
        i = i + 1;
    }
    assert(b@.take(b.len() as int) =~= b@);
    if cur.len() > 0 {
        let ghost before = byte_views(done@);
        let ghost c = cur@;
        done.push(cur);
        assert(byte_views(done@) =~= before.push(c));
    }
    done
}

/// `/proc/<pid>/cmdline` as one line (see `cmdline_spec`).
pub fn cmdline_from_bytes(b: &[u8]) -> (r: String)
    ensures
        r@ == cmdline_spec(b@),
{
    let chunks = split_nul(b);
    let ghost words = nul_chunks(b@).map_values(|c: Seq<u8>| utf8_lossy(c));
    let mut out = String::new();
    let mut i: usize = 0;
    while i < chunks.len()
        invariant
            i <= chunks.len(),
            byte_views(chunks@) == nul_chunks(b@),
            words == nul_chunks(b@).map_values(|c: Seq<u8>| utf8_lossy(c)),
            out@ == join_spaces(words.take(i as int)),
        decreases chunks.len() - i,
    {
        let w = lossy_text(chunks[i].as_slice());
        assert(chunks@[i as int]@ == nul_chunks(b@)[i as int]);
        assert(w@ == words[i as int]);
        assert(words.take(i + 1).drop_last() =~= words.take(i as int));
        if i > 0 {
            crate::text::push_char(&mut out, ' ');
        }
        crate::text::append_str(&mut out, w.as_str());
        assert(out@ =~= join_spaces(words.take(i + 1)));
        i = i + 1;
    }
    assert(words.take(chunks.len() as int) =~= words);
    out
}

/// `/proc/<pid>/environ` as (key, value) pairs (see `environ_spec`).
pub fn environ_from_bytes(b: &[u8]) -> (r: Vec<(String, String)>)
    ensures
        crate::audio::persistence::pairs_view(r@) == environ_spec(b@),
{
    let chunks = split_nul(b);
    let ghost cs = nul_chunks(b@);
    let ghost f = |c: Seq<u8>| env_entry(c);
    let mut out: Vec<(String, String)> = Vec::new();
    let mut i: usize = 0;
    assert(crate::audio::persistence::pairs_view(out@) =~= crate::text::filter_map(cs.take(0), f));
    while i < chunks.len()
        invariant
            i <= chunks.len(),
            byte_views(chunks@) == cs,
            cs == nul_chunks(b@),
            f == (|c: Seq<u8>| env_entry(c)),
            crate::audio::persistence::pairs_view(out@) == crate::text::filter_map(cs.take(i as int), f),
        decreases chunks.len() - i,
    {
        proof {
            crate::text::lemma_filter_map_step(cs, f, i as int);
        }
        assert(chunks@[i as int]@ == cs[i as int]);
        let t = lossy_text(chunks[i].as_slice());
        let tv = chars_of(t.as_str());
        let ghost before = crate::audio::persistence::pairs_view(out@);
        match crate::text::split_once_chars(&tv, '=') {
            Some((k, v)) => {
                out.push((string_of(&k), string_of(&v)));
                assert(crate::audio::persistence::pairs_view(out@) =~= before.push((k@, v@)));
            },
            None => {},
        }
        i = i + 1;
    }
    assert(cs.take(chunks.len() as int) =~= cs);
    out
}

} // verus!
