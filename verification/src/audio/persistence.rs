//! Persisted routing: which app goes to which virtual sink, which physical
//! device each mixer channel plays on, the preferred microphone, and the
//! volumes of the virtual nodes. Files and `pactl` are read and written by
//! the caller; this module parses what was read and decides what to write
//! and which streams to move.
use std::collections::HashSet;
use vstd::prelude::*;

use crate::audio::sinks::{is_managed, is_managed_spec, migrate_legacy_name, migrate_spec};
use crate::text::{
    append_chars, append_str, chars_eq_str, chars_of, decimal, decimal_string, filter_map,
    free_of, lemma_filter_map_all, lemma_filter_map_push_none, lemma_filter_map_total,
    lemma_lines_join, lemma_plain_concat, lemma_split_alone, lemma_split_cons_at,
    lemma_trim_decimal, plain_line,
    join_lines, lemma_filter_map_step, lemma_join_lines_push, lines_seq, lines_str, push_line,
    parse_u32_chars, parse_unsigned, split_chars, split_once, split_once_chars, split_seq,
    string_of, string_of_str, strip_prefix, strip_prefix_str, trim, trim_chars, trim_end_char,
    trim_end_char_chars, trim_start, trim_start_chars, views,
};

verus! {

broadcast use vstd::std_specs::hash::group_hash_axioms;

/// `s.parse::<u32>()`.
pub open spec fn parse_u32_spec(s: Seq<char>) -> Option<u32> {
    match parse_unsigned(s, u32::MAX as nat) {
        Some(n) => Some(n as u32),
        None => None,
    }
}

// ---------------------------------------------------------------------------
// Keyed lists (what the files hold as maps)
// ---------------------------------------------------------------------------

/// Key/value pairs, read as a map in which a later pair overrides an
/// earlier one with the same key.
pub type Pairs = Seq<(Seq<char>, Seq<char>)>;

/// A keyed list's abstract value: each key by its characters, each value by
/// its view.
pub open spec fn kv_view<V: View>(v: Seq<(String, V)>) -> Seq<(Seq<char>, V::V)> {
    v.map_values(|p: (String, V)| (p.0@, p.1@))
}

pub open spec fn pairs_view(v: Seq<(String, String)>) -> Pairs {
    kv_view(v)
}

pub open spec fn pairs_map<T>(l: Seq<(Seq<char>, T)>) -> Map<Seq<char>, T>
    decreases l.len(),
{
    if l.len() == 0 {
        Map::empty()
    } else {
        pairs_map(l.drop_last()).insert(l.last().0, l.last().1)
    }
}

/// The value for `k`, if any.
pub open spec fn get<T>(l: Seq<(Seq<char>, T)>, k: Seq<char>) -> Option<T> {
    if pairs_map(l).dom().contains(k) {
        Some(pairs_map(l)[k])
    } else {
        None
    }
}

/// The value for `k` in a keyed list.
pub fn find_value(v: &Vec<(String, String)>, k: &String) -> (r: Option<String>)
    ensures
        match r {
            Some(x) => get(pairs_view(v@), k@) == Some(x@),
            None => get(pairs_view(v@), k@) is None,
        },
{
    let ghost l = pairs_view(v@);
    let mut i: usize = v.len();
    assert(l.take(i as int) =~= l);
    while i > 0
        invariant
            i <= v.len(),
            l == pairs_view(v@),
            get(l, k@) == get(l.take(i as int), k@),
        decreases i,
    {
        let ghost t = l.take(i as int);
        assert(t.drop_last() =~= l.take(i - 1));
        assert(t.last() == (v@[i - 1].0@, v@[i - 1].1@));
        if v[i - 1].0 == *k {
            return Some(v[i - 1].1.clone());
        }
        i = i - 1;
    }
    assert(pairs_map(l.take(0)) == Map::<Seq<char>, Seq<char>>::empty());
    None
}

/// Sink ids with their names, read as a map in which a later pair wins.
pub open spec fn id_lookup(l: Seq<(u32, Seq<char>)>, id: u32) -> Option<Seq<char>>
    decreases l.len(),
{
    if l.len() == 0 {
        None
    } else if l.last().0 == id {
        Some(l.last().1)
    } else {
        id_lookup(l.drop_last(), id)
    }
}

pub open spec fn id_pairs_view(v: Seq<(u32, String)>) -> Seq<(u32, Seq<char>)> {
    v.map_values(|p: (u32, String)| (p.0, p.1@))
}

fn find_sink_name(v: &Vec<(u32, String)>, id: u32) -> (r: Option<String>)
    ensures
        match r {
            Some(x) => id_lookup(id_pairs_view(v@), id) == Some(x@),
            None => id_lookup(id_pairs_view(v@), id) is None,
        },
{
    let ghost l = id_pairs_view(v@);
    let mut i: usize = v.len();
    assert(l.take(i as int) =~= l);
    while i > 0
        invariant
            i <= v.len(),
            l == id_pairs_view(v@),
            id_lookup(l, id) == id_lookup(l.take(i as int), id),
        decreases i,
    {
        let ghost t = l.take(i as int);
        assert(t.drop_last() =~= l.take(i - 1));
        assert(t.last() == (v@[i - 1].0, v@[i - 1].1@));
        if v[i - 1].0 == id {
            return Some(v[i - 1].1.clone());
        }
        i = i - 1;
    }
    None
}

// ---------------------------------------------------------------------------
// `pactl list sink-inputs` and `pactl list sinks short`
// ---------------------------------------------------------------------------

/// A playing stream: its sink-input id, the id of the sink it plays on, and
/// the `application.name` of its app.
#[derive(Debug)]
pub struct SinkInput {
    pub id: u32,
    pub sink_id: u32,
    pub app_name: String,
}

pub type SinkInputView = (u32, u32, Seq<char>);

pub open spec fn sink_input_view(s: SinkInput) -> SinkInputView {
    (s.id, s.sink_id, s.app_name@)
}

pub open spec fn sink_inputs_view(v: Seq<SinkInput>) -> Seq<SinkInputView> {
    v.map_values(|s: SinkInput| sink_input_view(s))
}

/// The listing parser's state: streams so far and the fields of the
/// current one.
pub struct SiParse {
    pub out: Seq<SinkInputView>,
    pub id: Option<u32>,
    pub sink: Option<u32>,
    pub app: Option<Seq<char>>,
}

/// Close the current stream: keep it when all three fields were seen, then
/// clear them.
pub open spec fn si_flush(s: SiParse) -> SiParse {
    let out = match (s.id, s.sink, s.app) {
        (Some(i), Some(k), Some(a)) => s.out.push((i, k, a)),
        _ => s.out,
    };
    SiParse { out, id: None, sink: None, app: None }
}

pub open spec fn si_line(s: SiParse, line: Seq<char>) -> SiParse {
    match strip_prefix(line, "Sink Input #"@) {
        Some(rest) => SiParse { id: parse_u32_spec(trim(rest)), ..si_flush(s) },
        None => {
            let t = trim_start(line);
            match strip_prefix(t, "Sink: "@) {
                Some(rest) => SiParse { sink: parse_u32_spec(trim(rest)), ..s },
                None => match strip_prefix(t, "application.name = \""@) {
                    Some(rest) => SiParse { app: Some(trim_end_char(rest, '"')), ..s },
                    None => s,
                },
            }
        },
    }
}

pub open spec fn si_lines(lines: Seq<Seq<char>>) -> SiParse
    decreases lines.len(),
{
    if lines.len() == 0 {
        SiParse { out: seq![], id: None, sink: None, app: None }
    } else {
        si_line(si_lines(lines.drop_last()), lines.last())
    }
}

/// The streams of a `pactl list sink-inputs` listing.
pub open spec fn sink_inputs_spec(text: Seq<char>) -> Seq<SinkInputView> {
    si_flush(si_lines(lines_seq(text))).out
}

fn parse_u32_opt(s: &Vec<char>) -> (r: Option<u32>)
    ensures
        r == parse_u32_spec(s@),
{
    match parse_u32_chars(s) {
        Some(n) => Some(n),
        None => None,
    }
}

struct SiState {
    out: Vec<SinkInput>,
    id: Option<u32>,
    sink: Option<u32>,
    app: Option<Vec<char>>,
}

spec fn si_state_view(s: SiState) -> SiParse {
    SiParse {
        out: sink_inputs_view(s.out@),
        id: s.id,
        sink: s.sink,
        app: match s.app {
            Some(a) => Some(a@),
            None => None,
        },
    }
}

fn si_flush_exec(s: &mut SiState)
    ensures
        si_state_view(*final(s)) == si_flush(si_state_view(*old(s))),
{
    let ghost before = sink_inputs_view(s.out@);
    match (s.id, s.sink, &s.app) {
        (Some(i), Some(k), Some(a)) => {
            let rec = SinkInput { id: i, sink_id: k, app_name: string_of(a) };
            s.out.push(rec);
            assert(sink_inputs_view(s.out@) =~= before.push(sink_input_view(rec)));
        },
        _ => {},
    }
    s.id = None;
    s.sink = None;
    s.app = None;
}

/// Parse `pactl list sink-inputs` output (see `sink_inputs_spec`).
pub fn parse_sink_inputs(text: &str) -> (r: Vec<SinkInput>)
    ensures
        sink_inputs_view(r@) == sink_inputs_spec(text@),
{
    let lines = lines_str(text);
    let ghost ls = lines_seq(text@);
    let mut st = SiState { out: Vec::new(), id: None, sink: None, app: None };
    assert(sink_inputs_view(st.out@) =~= Seq::<SinkInputView>::empty());
    let mut i: usize = 0;
    while i < lines.len()
        invariant
            i <= lines.len(),
            views(lines@) == ls,
            ls == lines_seq(text@),
            si_state_view(st) == si_lines(ls.take(i as int)),
        decreases lines.len() - i,
    {
        assert(ls.take(i + 1).drop_last() =~= ls.take(i as int));
        assert(ls.take(i + 1).last() == lines@[i as int]@);
        let line = &lines[i];
        match strip_prefix_str(line, "Sink Input #") {
            Some(rest) => {
                si_flush_exec(&mut st);
                st.id = parse_u32_opt(&trim_chars(&rest));
            },
            None => {
                let t = trim_start_chars(line);
                match strip_prefix_str(&t, "Sink: ") {
                    Some(rest) => {
                        st.sink = parse_u32_opt(&trim_chars(&rest));
                    },
                    None => match strip_prefix_str(&t, "application.name = \"") {
                        Some(rest) => {
                            st.app = Some(trim_end_char_chars(&rest, '"'));
                        },
                        None => {},
                    },
                }
            },
        }
        i = i + 1;
    }
    assert(ls.take(lines.len() as int) =~= ls);
    si_flush_exec(&mut st);
    st.out
}

/// One line of `pactl list sinks short`: a numeric id, a tab, the name.
pub open spec fn sink_short_line(line: Seq<char>) -> Option<(u32, Seq<char>)> {
    let p = split_seq(line, '\t');
    if p.len() >= 2 {
        match parse_u32_spec(p[0]) {
            Some(id) => Some((id, p[1])),
            None => None,
        }
    } else {
        None
    }
}

/// The sink ids and names of a `pactl list sinks short` listing.
pub fn parse_sinks_by_id(text: &str) -> (r: Vec<(u32, String)>)
    ensures
        id_pairs_view(r@) == filter_map(lines_seq(text@), |l: Seq<char>| sink_short_line(l)),
{
    let lines = lines_str(text);
    let ghost ls = lines_seq(text@);
    let ghost f = |l: Seq<char>| sink_short_line(l);
    let mut out: Vec<(u32, String)> = Vec::new();
    let mut i: usize = 0;
    assert(id_pairs_view(out@) =~= filter_map(ls.take(0), f));
    while i < lines.len()
        invariant
            i <= lines.len(),
            views(lines@) == ls,
            ls == lines_seq(text@),
            f == (|l: Seq<char>| sink_short_line(l)),
            id_pairs_view(out@) == filter_map(ls.take(i as int), f),
        decreases lines.len() - i,
    {
        proof {
            lemma_filter_map_step(ls, f, i as int);
        }
        assert(ls[i as int] == lines@[i as int]@);
        let parts = split_chars(&lines[i], '\t');
        let ghost before = id_pairs_view(out@);
        if parts.len() >= 2 {
            assert(parts@[0]@ == split_seq(ls[i as int], '\t')[0]);
            assert(parts@[1]@ == split_seq(ls[i as int], '\t')[1]);
            match parse_u32_opt(&parts[0]) {
                Some(id) => {
                    out.push((id, string_of(&parts[1])));
                    assert(id_pairs_view(out@) =~= before.push((id, parts@[1]@)));
                },
                None => {},
            }
        }
        i = i + 1;
    }
    assert(ls.take(lines.len() as int) =~= ls);
    out
}

// ---------------------------------------------------------------------------
// App -> sink assignments
// ---------------------------------------------------------------------------

/// A sink name as stored, with a legacy name translated to the current one.
pub open spec fn migrated(sink: Seq<char>) -> Seq<char> {
    match migrate_spec(sink) {
        Some(n) => n,
        None => sink,
    }
}

/// One line of the assignments file: the app, a tab, the sink.
pub open spec fn saved_line(line: Seq<char>) -> Option<(Seq<char>, Seq<char>)> {
    match split_once(line, '\t') {
        Some((app, sink)) => Some((app, migrated(sink))),
        None => None,
    }
}

pub open spec fn saved_spec(content: Seq<char>) -> Pairs {
    filter_map(lines_seq(content), |l: Seq<char>| saved_line(l))
}

/// Read the saved app -> sink assignments from the file's content, legacy
/// sink names translated.
pub fn parse_saved(content: &str) -> (r: Vec<(String, String)>)
    ensures
        pairs_view(r@) == saved_spec(content@),
{
    let lines = lines_str(content);
    let ghost ls = lines_seq(content@);
    let ghost f = |l: Seq<char>| saved_line(l);
    let mut out: Vec<(String, String)> = Vec::new();
    let mut i: usize = 0;
    assert(pairs_view(out@) =~= filter_map(ls.take(0), f));
    while i < lines.len()
        invariant
            i <= lines.len(),
            views(lines@) == ls,
            ls == lines_seq(content@),
            f == (|l: Seq<char>| saved_line(l)),
            pairs_view(out@) == filter_map(ls.take(i as int), f),
        decreases lines.len() - i,
    {
        proof {
            lemma_filter_map_step(ls, f, i as int);
        }
        assert(ls[i as int] == lines@[i as int]@);
        let ghost before = pairs_view(out@);
        match split_once_chars(&lines[i], '\t') {
            Some((app, sink)) => {
                let sink_s = string_of(&sink);
                let target = match migrate_legacy_name(sink_s.as_str()) {
                    Some(n) => string_of_str(n),
                    None => sink_s,
                };
                out.push((string_of(&app), target));
                assert(pairs_view(out@) =~= before.push((app@, migrated(sink@))));
            },
            None => {},
        }
        i = i + 1;
    }
    assert(ls.take(lines.len() as int) =~= ls);
    out
}

/// The moves that put each listed stream back on its saved sink.
pub open spec fn restore_spec(saved: Pairs, inputs: Seq<SinkInputView>) -> Seq<(u32, Seq<char>)> {
    filter_map(
        inputs,
        |i: SinkInputView|
            match get(saved, i.2) {
                Some(t) => Some((i.0, t)),
                None => None,
            },
    )
}

/// The (sink-input id, sink) moves that restore the saved assignments of
/// the streams now playing.
pub fn restore_assignments(saved: &Vec<(String, String)>, inputs: &Vec<SinkInput>) -> (r: Vec<(u32, String)>)
    ensures
        id_pairs_view(r@) == restore_spec(pairs_view(saved@), sink_inputs_view(inputs@)),
{
    let ghost iv = sink_inputs_view(inputs@);
    let ghost sv = pairs_view(saved@);
    let ghost f = |i: SinkInputView|
        match get(sv, i.2) {
            Some(t) => Some((i.0, t)),
            None => None,
        };
    let mut out: Vec<(u32, String)> = Vec::new();
    let mut k: usize = 0;
    assert(id_pairs_view(out@) =~= filter_map(iv.take(0), f));
    while k < inputs.len()
        invariant
            k <= inputs.len(),
            iv == sink_inputs_view(inputs@),
            sv == pairs_view(saved@),
            f == (|i: SinkInputView|
                match get(sv, i.2) {
                    Some(t) => Some((i.0, t)),
                    None => None,
                }),
            id_pairs_view(out@) == filter_map(iv.take(k as int), f),
        decreases inputs.len() - k,
    {
        proof {
            lemma_filter_map_step(iv, f, k as int);
        }
        let ghost before = id_pairs_view(out@);
        let inp = &inputs[k];
        match find_value(saved, &inp.app_name) {
            Some(t) => {
                out.push((inp.id, t));
                assert(id_pairs_view(out@) =~= before.push((inp.id, t@)));
            },
            None => {},
        }
        k = k + 1;
    }
    assert(iv.take(inputs.len() as int) =~= iv);
    out
}

pub open spec fn input_ids(inputs: Seq<SinkInputView>) -> Set<u32> {
    Set::new(|id: u32| exists|i: int| 0 <= i < inputs.len() && (#[trigger] inputs[i]).0 == id)
}

/// The ids of the streams now playing, so that a watcher leaves them alone.
pub fn initial_seen_ids(inputs: &Vec<SinkInput>) -> (r: HashSet<u32>)
    ensures
        r@ == input_ids(sink_inputs_view(inputs@)),
{
    let ghost iv = sink_inputs_view(inputs@);
    let mut seen: HashSet<u32> = HashSet::new();
    let mut k: usize = 0;
    while k < inputs.len()
        invariant
            k <= inputs.len(),
            iv == sink_inputs_view(inputs@),
            seen@ == input_ids(iv.take(k as int)),
        decreases inputs.len() - k,
    {
        seen.insert(inputs[k].id);
        assert(seen@ =~= input_ids(iv.take(k + 1))) by {
            let t = iv.take(k + 1);
            assert(t[k as int] == iv[k as int]);
            assert forall|id: u32| input_ids(t).contains(id) implies seen@.contains(id) by {
                let i = choose|i: int| 0 <= i < t.len() && (#[trigger] t[i]).0 == id;
                if i < k {
                    assert(iv.take(k as int)[i] == t[i]);
                }
            }
            assert forall|id: u32| seen@.contains(id) implies input_ids(t).contains(id) by {
                if id != inputs@[k as int].id {
                    let i = choose|i: int| 0 <= i < k && (#[trigger] iv.take(k as int)[i]).0 == id;
                    assert(t[i] == iv.take(k as int)[i]);
                }
            }
        }
        k = k + 1;
    }
    assert(iv.take(inputs.len() as int) =~= iv);
    seen
}

/// One stream seen by the watcher: a stream already seen is never touched
/// again; a new one is marked seen and, unless it is one of our own EQ
/// streams or already on its saved sink, moved to its saved sink.
pub open spec fn new_stream_step(
    st: (Set<u32>, Seq<(u32, Seq<char>)>),
    saved: Pairs,
    sinks: Seq<(u32, Seq<char>)>,
    inp: SinkInputView,
) -> (Set<u32>, Seq<(u32, Seq<char>)>) {
    if st.0.contains(inp.0) {
        st
    } else {
        let seen = st.0.insert(inp.0);
        if inp.2 == "pw-cli"@ {
            (seen, st.1)
        } else {
            match get(saved, inp.2) {
                None => (seen, st.1),
                Some(t) => if id_lookup(sinks, inp.1) == Some(t) {
                    (seen, st.1)
                } else {
                    (seen, st.1.push((inp.0, t)))
                },
            }
        }
    }
}

pub open spec fn new_streams_fold(
    seen: Set<u32>,
    saved: Pairs,
    sinks: Seq<(u32, Seq<char>)>,
    inputs: Seq<SinkInputView>,
) -> (Set<u32>, Seq<(u32, Seq<char>)>)
    decreases inputs.len(),
{
    if inputs.len() == 0 {
        (seen, seq![])
    } else {
        new_stream_step(new_streams_fold(seen, saved, sinks, inputs.drop_last()), saved, sinks, inputs.last())
    }
}

/// With nothing saved, every stream is only marked seen (so that a later
/// save does not move old streams); otherwise each is handled in order.
pub open spec fn restore_new_streams_spec(
    seen: Set<u32>,
    saved: Pairs,
    sinks: Seq<(u32, Seq<char>)>,
    inputs: Seq<SinkInputView>,
) -> (Set<u32>, Seq<(u32, Seq<char>)>) {
    if saved.len() == 0 {
        (seen.union(input_ids(inputs)), seq![])
    } else {
        new_streams_fold(seen, saved, sinks, inputs)
    }
}

/// Route newly appeared streams to their saved sinks. Returns the
/// (sink-input id, sink) moves to make; `seen_ids` gains every listed id.
pub fn restore_new_streams(
    seen_ids: &mut HashSet<u32>,
    saved: &Vec<(String, String)>,
    sinks_by_id: &Vec<(u32, String)>,
    inputs: &Vec<SinkInput>,
) -> (r: Vec<(u32, String)>)
    ensures
        (final(seen_ids)@, id_pairs_view(r@)) == restore_new_streams_spec(
            old(seen_ids)@,
            pairs_view(saved@),
            id_pairs_view(sinks_by_id@),
            sink_inputs_view(inputs@),
        ),
{
    let ghost iv = sink_inputs_view(inputs@);
    let ghost sv = pairs_view(saved@);
    let ghost kv = id_pairs_view(sinks_by_id@);
    let ghost seen0 = seen_ids@;
    let mut out: Vec<(u32, String)> = Vec::new();
    if saved.len() == 0 {
        let mut k: usize = 0;
        while k < inputs.len()
            invariant
                k <= inputs.len(),
                iv == sink_inputs_view(inputs@),
                seen_ids@ == seen0.union(input_ids(iv.take(k as int))),
            decreases inputs.len() - k,
        {
            seen_ids.insert(inputs[k].id);
            assert(seen_ids@ =~= seen0.union(input_ids(iv.take(k + 1)))) by {
                let t = iv.take(k + 1);
                assert(t[k as int] == iv[k as int]);
                assert forall|id: u32| input_ids(t).contains(id) implies seen_ids@.contains(id) by {
                    let i = choose|i: int| 0 <= i < t.len() && (#[trigger] t[i]).0 == id;
                    if i < k {
                        assert(iv.take(k as int)[i] == t[i]);
                    }
                }
                assert forall|id: u32| seen_ids@.contains(id) && !seen0.contains(id) implies input_ids(t).contains(id) by {
                    if id != inputs@[k as int].id {
                        let i = choose|i: int| 0 <= i < k && (#[trigger] iv.take(k as int)[i]).0 == id;
                        assert(t[i] == iv.take(k as int)[i]);
                    }
                }
            }
            k = k + 1;
        }
        assert(iv.take(inputs.len() as int) =~= iv);
        assert(sv.len() == 0);
        assert(id_pairs_view(out@) =~= Seq::<(u32, Seq<char>)>::empty());
        return out;
    }
    let mut k: usize = 0;
    assert(id_pairs_view(out@) =~= Seq::<(u32, Seq<char>)>::empty());
    while k < inputs.len()
        invariant
            k <= inputs.len(),
            iv == sink_inputs_view(inputs@),
            sv == pairs_view(saved@),
            kv == id_pairs_view(sinks_by_id@),
            (seen_ids@, id_pairs_view(out@)) == new_streams_fold(seen0, sv, kv, iv.take(k as int)),
        decreases inputs.len() - k,
    {
        assert(iv.take(k + 1).drop_last() =~= iv.take(k as int));
        assert(iv.take(k + 1).last() == iv[k as int]);
        let ghost before = id_pairs_view(out@);
        let inp = &inputs[k];
        let was_new = seen_ids.insert(inp.id);
        if was_new {
            let app = chars_of(inp.app_name.as_str());
            if !chars_eq_str(&app, "pw-cli") {
                match find_value(saved, &inp.app_name) {
                    Some(target) => {
                        let current = find_sink_name(sinks_by_id, inp.sink_id);
                        let already = match &current {
                            Some(c) => *c == target,
                            None => false,
                        };
                        if !already {
                            out.push((inp.id, target));
                            assert(id_pairs_view(out@) =~= before.push((inp.id, target@)));
                        }
                    },
                    None => {},
                }
            }
        }
        k = k + 1;
    }
    assert(iv.take(inputs.len() as int) =~= iv);
    out
}


// ---------------------------------------------------------------------------
// Updating keyed lists
// ---------------------------------------------------------------------------

/// `l` without the pairs whose key is `k`.
pub open spec fn drop_key<T>(l: Seq<(Seq<char>, T)>, k: Seq<char>) -> Seq<(Seq<char>, T)>
    decreases l.len(),
{
    if l.len() == 0 {
        seq![]
    } else if l.last().0 == k {
        drop_key(l.drop_last(), k)
    } else {
        drop_key(l.drop_last(), k).push(l.last())
    }
}

/// No key occurs twice.
pub open spec fn keys_unique<T>(l: Seq<(Seq<char>, T)>) -> bool {
    forall|i: int, j: int| 0 <= i < j < l.len() ==> (#[trigger] l[i]).0 != (#[trigger] l[j]).0
}

pub open spec fn has_key<T>(l: Seq<(Seq<char>, T)>, k: Seq<char>) -> bool {
    exists|i: int| 0 <= i < l.len() && (#[trigger] l[i]).0 == k
}

pub proof fn lemma_drop_key_generic<T>(l: Seq<(Seq<char>, T)>, k: Seq<char>)
    ensures
        pairs_map(drop_key(l, k)) == pairs_map(l).remove(k),
        !has_key(drop_key(l, k), k),
        forall|q: Seq<char>| has_key(drop_key(l, k), q) ==> has_key(l, q),
        keys_unique(l) ==> keys_unique(drop_key(l, k)),
    decreases l.len(),
{
    if l.len() == 0 {
        assert(pairs_map(drop_key(l, k)) =~= pairs_map(l).remove(k));
    } else {
        let d = l.drop_last();
        lemma_drop_key_generic(d, k);
        let r = drop_key(d, k);
        assert forall|q: Seq<char>| has_key(d, q) implies has_key(l, q) by {
            let i = choose|i: int| 0 <= i < d.len() && (#[trigger] d[i]).0 == q;
            assert(l[i] == d[i]);
        }
        if l.last().0 == k {
            assert(pairs_map(drop_key(l, k)) =~= pairs_map(l).remove(k));
        } else {
            let e = l.last();
            assert(drop_key(l, k) == r.push(e));
            assert(r.push(e).drop_last() =~= r);
            assert(pairs_map(r.push(e)) == pairs_map(r).insert(e.0, e.1));
            assert(pairs_map(drop_key(l, k)) =~= pairs_map(l).remove(k));
            assert forall|i: int| 0 <= i < r.push(e).len() implies (#[trigger] r.push(e)[i]).0 != k by {
                if i < r.len() {
                    assert(r.push(e)[i] == r[i]);
                    if r[i].0 == k {
                        assert(has_key(r, k));
                    }
                }
            }
            assert forall|q: Seq<char>| has_key(r.push(e), q) implies has_key(l, q) by {
                let i = choose|i: int| 0 <= i < r.push(e).len() && (#[trigger] r.push(e)[i]).0 == q;
                if i < r.len() {
                    assert(r.push(e)[i] == r[i]);
                    assert(has_key(r, q));
                } else {
                    assert(l[l.len() - 1].0 == q);
                }
            }
            if keys_unique(l) {
                assert forall|i: int| 0 <= i < d.len() implies (#[trigger] d[i]).0 != e.0 by {
                    assert(l[i] == d[i]);
                    assert(l[i].0 != l[l.len() - 1].0);
                }
                assert(keys_unique(d)) by {
                    assert forall|i: int, j: int| 0 <= i < j < d.len() implies (#[trigger] d[i]).0 != (#[trigger] d[j]).0 by {
                        assert(l[i] == d[i]);
                        assert(l[j] == d[j]);
                    }
                }
                assert(!has_key(r, e.0)) by {
                    if has_key(r, e.0) {
                        assert(has_key(d, e.0));
                        let i = choose|i: int| 0 <= i < d.len() && (#[trigger] d[i]).0 == e.0;
                    }
                }
                assert forall|i: int, j: int| 0 <= i < j < r.push(e).len() implies (#[trigger] r.push(e)[i]).0 != (#[trigger] r.push(e)[j]).0 by {
                    assert(r.push(e)[i] == r[i]);
                    if j < r.len() {
                        assert(r.push(e)[j] == r[j]);
                    } else {
                        if r[i].0 == e.0 {
                            assert(has_key(r, e.0));
                        }
                    }
                }
            }
        }
    }
}

/// Remove every pair whose key is `k`.
pub fn remove_key<V: View>(v: &mut Vec<(String, V)>, k: &String)
    ensures
        kv_view(final(v)@) == drop_key(kv_view(old(v)@), k@),
{
    let ghost orig = kv_view(v@);
    let mut i: usize = 0;
    let ghost mut j: int = 0;
    assert(orig.subrange(0, orig.len() as int) =~= orig);
    while i < v.len()
        invariant
            0 <= j <= orig.len(),
            i <= v.len(),
            kv_view(v@) == drop_key(orig.take(j), k@) + orig.subrange(j, orig.len() as int),
            i == drop_key(orig.take(j), k@).len(),
        decreases v.len() - i,
    {
        let ghost done = drop_key(orig.take(j), k@);
        let ghost rest = orig.subrange(j, orig.len() as int);
        assert(kv_view(v@)[i as int] == rest[0]);
        assert(orig.take(j + 1).drop_last() =~= orig.take(j));
        assert(orig.take(j + 1).last() == orig[j]);
        assert(rest[0] == orig[j]);
        if v[i].0 == *k {
            let ghost before = kv_view(v@);
            v.remove(i);
            assert(kv_view(v@) =~= before.remove(i as int));
            assert(kv_view(v@) =~= done + orig.subrange(j + 1, orig.len() as int));
        } else {
            assert(kv_view(v@) =~= done.push(orig[j]) + orig.subrange(j + 1, orig.len() as int));
            i = i + 1;
        }
        proof {
            j = j + 1;
        }
    }
    assert(j == orig.len()) by {
        if j < orig.len() {
            assert(kv_view(v@).len() == i + (orig.len() - j));
        }
    }
    assert(orig.take(j) =~= orig);
    assert(kv_view(v@) =~= drop_key(orig, k@));
}

/// Set the value of `k`: any pair with that key is removed and the new pair
/// appended.
pub fn insert_key<V: View>(v: &mut Vec<(String, V)>, k: String, val: V)
    ensures
        kv_view(final(v)@) == drop_key(kv_view(old(v)@), k@).push((k@, val@)),
{
    remove_key(v, &k);
    let ghost before = kv_view(v@);
    let ghost kk = k@;
    let ghost vv = val@;
    v.push((k, val));
    assert(kv_view(v@) =~= before.push((kk, vv)));
}

pub proof fn lemma_insert_key_unique<T>(l: Seq<(Seq<char>, T)>, k: Seq<char>, x: T)
    ensures
        pairs_map(drop_key(l, k).push((k, x))) == pairs_map(l).insert(k, x),
        keys_unique(l) ==> keys_unique(drop_key(l, k).push((k, x))),
{
    lemma_drop_key_generic(l, k);
    let r = drop_key(l, k);
    assert(r.push((k, x)).drop_last() =~= r);
    assert(pairs_map(r.push((k, x))) == pairs_map(r).insert(k, x));
    assert(pairs_map(r.push((k, x))) =~= pairs_map(l).insert(k, x));
    if keys_unique(l) {
        assert forall|i: int, j: int| 0 <= i < j < r.push((k, x)).len() implies (#[trigger] r.push((k, x))[i]).0 != (#[trigger] r.push((k, x))[j]).0 by {
            assert(r.push((k, x))[i] == r[i]);
            if j < r.len() {
                assert(r.push((k, x))[j] == r[j]);
            } else if r[i].0 == k {
                assert(has_key(r, k));
            }
        }
    }
}


// ---------------------------------------------------------------------------
// Saving assignments
// ---------------------------------------------------------------------------

/// One stream's effect on the saved assignments: an app playing on one of
/// our sinks is saved with it; an app playing elsewhere is forgotten (the
/// user moved it out); a stream on an unknown sink changes nothing.
pub open spec fn merge_step(m: Map<Seq<char>, Seq<char>>, sinks: Seq<(u32, Seq<char>)>, inp: SinkInputView) -> Map<Seq<char>, Seq<char>> {
    match id_lookup(sinks, inp.1) {
        None => m,
        Some(name) => if is_managed_spec(name) {
            m.insert(inp.2, name)
        } else {
            m.remove(inp.2)
        },
    }
}

pub open spec fn merge_fold(m: Map<Seq<char>, Seq<char>>, sinks: Seq<(u32, Seq<char>)>, inputs: Seq<SinkInputView>) -> Map<Seq<char>, Seq<char>>
    decreases inputs.len(),
{
    if inputs.len() == 0 {
        m
    } else {
        merge_step(merge_fold(m, sinks, inputs.drop_last()), sinks, inputs.last())
    }
}

/// The assignments to save: the saved ones, updated by every stream now
/// playing (see `merge_step`); apps that are not running keep their entry.
/// No app occurs twice.
pub fn merge_assignments(saved: &Vec<(String, String)>, sinks: &Vec<(u32, String)>, inputs: &Vec<SinkInput>) -> (r: Vec<(String, String)>)
    ensures
        pairs_map(pairs_view(r@)) == merge_fold(pairs_map(pairs_view(saved@)), id_pairs_view(sinks@), sink_inputs_view(inputs@)),
        keys_unique(pairs_view(r@)),
{
    let ghost sv = pairs_view(saved@);
    let ghost kv = id_pairs_view(sinks@);
    let ghost iv = sink_inputs_view(inputs@);
    let mut cur: Vec<(String, String)> = Vec::new();
    let mut i: usize = 0;
    assert(pairs_map(pairs_view(cur@)) =~= pairs_map(sv.take(0)));
    while i < saved.len()
        invariant
            i <= saved.len(),
            sv == pairs_view(saved@),
            pairs_map(pairs_view(cur@)) == pairs_map(sv.take(i as int)),
            keys_unique(pairs_view(cur@)),
        decreases saved.len() - i,
    {
        assert(sv.take(i + 1).drop_last() =~= sv.take(i as int));
        assert(sv.take(i + 1).last() == sv[i as int]);
        let ghost before = pairs_view(cur@);
        proof {
            lemma_insert_key_unique(before, saved@[i as int].0@, saved@[i as int].1@);
        }
        insert_key(&mut cur, saved[i].0.clone(), saved[i].1.clone());
        i = i + 1;
    }
    assert(sv.take(saved.len() as int) =~= sv);
    let ghost m0 = pairs_map(sv);
    let mut k: usize = 0;
    while k < inputs.len()
        invariant
            k <= inputs.len(),
            kv == id_pairs_view(sinks@),
            iv == sink_inputs_view(inputs@),
            pairs_map(pairs_view(cur@)) == merge_fold(m0, kv, iv.take(k as int)),
            keys_unique(pairs_view(cur@)),
        decreases inputs.len() - k,
    {
        assert(iv.take(k + 1).drop_last() =~= iv.take(k as int));
        assert(iv.take(k + 1).last() == iv[k as int]);
        let inp = &inputs[k];
        let ghost before = pairs_view(cur@);
        match find_sink_name(sinks, inp.sink_id) {
            None => {},
            Some(name) => {
                if is_managed(name.as_str()) {
                    proof {
                        lemma_insert_key_unique(before, inp.app_name@, name@);
                    }
                    insert_key(&mut cur, inp.app_name.clone(), name);
                } else {
                    proof {
                        lemma_drop_key_generic(before, inp.app_name@);
                    }
                    remove_key(&mut cur, &inp.app_name);
                }
            },
        }
        k = k + 1;
    }
    assert(iv.take(inputs.len() as int) =~= iv);
    cur
}

pub open spec fn tab() -> Seq<char> {
    seq!['\t']
}

/// `key\tvalue` for each pair.
pub open spec fn pair_lines(l: Pairs) -> Seq<Seq<char>> {
    l.map_values(|p: (Seq<char>, Seq<char>)| p.0 + tab() + p.1)
}

/// A keyed file's content: one `key\tvalue` line per pair.
pub open spec fn pairs_file(l: Pairs) -> Seq<char> {
    join_lines(pair_lines(l))
}

/// Write key/value pairs one `key\tvalue` line each.
pub fn serialize_pairs(v: &Vec<(String, String)>) -> (r: String)
    ensures
        r@ == pairs_file(pairs_view(v@)),
{
    let ghost l = pairs_view(v@);
    let mut out = String::new();
    let mut i: usize = 0;
    assert(pair_lines(l).take(0) =~= Seq::<Seq<char>>::empty());
    while i < v.len()
        invariant
            i <= v.len(),
            l == pairs_view(v@),
            out@ == join_lines(pair_lines(l).take(i as int)),
        decreases v.len() - i,
    {
        let mut line = v[i].0.clone();
        crate::text::push_char(&mut line, '\t');
        append_str(&mut line, v[i].1.as_str());
        proof {
            assert(l[i as int] == (v@[i as int].0@, v@[i as int].1@));
            assert(line@ =~= l[i as int].0 + tab() + l[i as int].1);
            assert(pair_lines(l)[i as int] == line@);
            lemma_join_lines_push(pair_lines(l).take(i as int), line@);
            assert(pair_lines(l).take(i + 1) =~= pair_lines(l).take(i as int).push(line@));
        }
        push_line(&mut out, line.as_str());
        i = i + 1;
    }
    assert(pair_lines(l).take(v.len() as int) =~= pair_lines(l));
    out
}

// ---------------------------------------------------------------------------
// Mixer routing (channel -> device) and the preferred microphone
// ---------------------------------------------------------------------------

/// One line of the mixer routing file: a channel, a tab, a device. The
/// `mic` record has its own reader and is skipped here.
pub open spec fn routing_line(line: Seq<char>) -> Option<(Seq<char>, Seq<char>)> {
    match split_once(line, '\t') {
        Some((ch, dev)) => if ch == "mic"@ {
            None
        } else {
            Some((ch, dev))
        },
        None => None,
    }
}

pub open spec fn routing_spec(content: Seq<char>) -> Pairs {
    filter_map(lines_seq(content), |l: Seq<char>| routing_line(l))
}

/// Read the saved mixer routing (channel -> device) from the file's content.
pub fn load_mixer_routing(content: &str) -> (r: Vec<(String, String)>)
    ensures
        pairs_view(r@) == routing_spec(content@),
{
    let lines = lines_str(content);
    let ghost ls = lines_seq(content@);
    let ghost f = |l: Seq<char>| routing_line(l);
    let mut out: Vec<(String, String)> = Vec::new();
    let mut i: usize = 0;
    assert(pairs_view(out@) =~= filter_map(ls.take(0), f));
    while i < lines.len()
        invariant
            i <= lines.len(),
            views(lines@) == ls,
            ls == lines_seq(content@),
            f == (|l: Seq<char>| routing_line(l)),
            pairs_view(out@) == filter_map(ls.take(i as int), f),
        decreases lines.len() - i,
    {
        proof {
            lemma_filter_map_step(ls, f, i as int);
        }
        assert(ls[i as int] == lines@[i as int]@);
        let ghost before = pairs_view(out@);
        match split_once_chars(&lines[i], '\t') {
            Some((ch, dev)) => {
                if !chars_eq_str(&ch, "mic") {
                    out.push((string_of(&ch), string_of(&dev)));
                    assert(pairs_view(out@) =~= before.push((ch@, dev@)));
                }
            },
            None => {},
        }
        i = i + 1;
    }
    assert(ls.take(lines.len() as int) =~= ls);
    out
}

/// Route `channel` to `device`, replacing any earlier entry for it.
pub fn set_mixer_routing_entry(routing: &mut Vec<(String, String)>, channel: &str, device: &str)
    ensures
        pairs_view(final(routing)@) == drop_key(pairs_view(old(routing)@), channel@).push((channel@, device@)),
        pairs_map(pairs_view(final(routing)@)) == pairs_map(pairs_view(old(routing)@)).insert(channel@, device@),
        keys_unique(pairs_view(old(routing)@)) ==> keys_unique(pairs_view(final(routing)@)),
{
    proof {
        lemma_insert_key_unique(pairs_view(routing@), channel@, device@);
    }
    insert_key(routing, string_of_str(channel), string_of_str(device));
}

/// The preferred microphone: its node name and the stable ids that let it be
/// found again after a port change or a Bluetooth rename.
#[derive(Debug, Clone, Default)]
pub struct MicPreference {
    pub node_name: String,
    pub product_name: String,
    pub bus_path: String,
    pub bluez_address: String,
}

pub type MicView = (Seq<char>, Seq<char>, Seq<char>, Seq<char>);

pub open spec fn mic_view(m: MicPreference) -> MicView {
    (m.node_name@, m.product_name@, m.bus_path@, m.bluez_address@)
}

impl MicPreference {
    pub fn from_fields(node: String, product: String, bus_path: String, bluez: String) -> (r: MicPreference)
        ensures
            mic_view(r) == (node@, product@, bus_path@, bluez@),
    {
        MicPreference { node_name: node, product_name: product, bus_path, bluez_address: bluez }
    }
}

/// Field `i` of a split line, empty when the line has fewer fields.
pub open spec fn field_or_empty(p: Seq<Seq<char>>, i: int) -> Seq<char> {
    if i < p.len() {
        p[i]
    } else {
        seq![]
    }
}

/// The first `mic` record: `mic\tnode\tproduct\tbus_path\tbluez_address`,
/// the last three optional. A `mic` record without a node name ends the
/// search with nothing.
pub open spec fn mic_pref_spec(lines: Seq<Seq<char>>) -> Option<MicView>
    decreases lines.len(),
{
    if lines.len() == 0 {
        None
    } else {
        let p = split_seq(lines[0], '\t');
        if p[0] == "mic"@ {
            if p.len() >= 2 {
                Some((p[1], field_or_empty(p, 2), field_or_empty(p, 3), field_or_empty(p, 4)))
            } else {
                None
            }
        } else {
            mic_pref_spec(lines.drop_first())
        }
    }
}

pub open spec fn opt_mic_view(o: Option<MicPreference>) -> Option<MicView> {
    match o {
        Some(m) => Some(mic_view(m)),
        None => None,
    }
}

fn field_string(p: &Vec<Vec<char>>, i: usize) -> (r: String)
    ensures
        r@ == field_or_empty(views(p@), i as int),
{
    if i < p.len() {
        string_of(&p[i])
    } else {
        String::new()
    }
}

/// Read the preferred microphone from the mixer routing file's content.
pub fn load_mixer_routing_mic(content: &str) -> (r: Option<MicPreference>)
    ensures
        opt_mic_view(r) == mic_pref_spec(lines_seq(content@)),
{
    let lines = lines_str(content);
    let ghost ls = lines_seq(content@);
    let mut i: usize = 0;
    assert(ls.subrange(0, ls.len() as int) =~= ls);
    while i < lines.len()
        invariant
            i <= lines.len(),
            views(lines@) == ls,
            ls == lines_seq(content@),
            mic_pref_spec(ls) == mic_pref_spec(ls.subrange(i as int, ls.len() as int)),
        decreases lines.len() - i,
    {
        let ghost rest = ls.subrange(i as int, ls.len() as int);
        assert(rest[0] == lines@[i as int]@);
        assert(rest.drop_first() =~= ls.subrange(i + 1, ls.len() as int));
        let parts = split_chars(&lines[i], '\t');
        proof {
            crate::text::lemma_split_len(lines@[i as int]@, '\t');
        }
        if chars_eq_str(&parts[0], "mic") {
            if parts.len() >= 2 {
                let m = MicPreference {
                    node_name: string_of(&parts[1]),
                    product_name: field_string(&parts, 2),
                    bus_path: field_string(&parts, 3),
                    bluez_address: field_string(&parts, 4),
                };
                return Some(m);
            } else {
                return None;
            }
        }
        i = i + 1;
    }
    None
}

/// The `mic` record's line.
pub open spec fn mic_line(m: MicView) -> Seq<char> {
    "mic"@ + tab() + m.0 + tab() + m.1 + tab() + m.2 + tab() + m.3
}

/// The mixer routing file: one line per channel, then the `mic` record when
/// there is one.
pub open spec fn routing_file(routing: Pairs, mic: Option<MicView>) -> Seq<char> {
    join_lines(
        pair_lines(routing) + match mic {
            Some(m) => seq![mic_line(m)],
            None => seq![],
        },
    )
}

/// Write the mixer routing file: every channel entry, then the `mic`
/// record if given.
pub fn serialize_mixer_routing(routing: &Vec<(String, String)>, mic: &Option<MicPreference>) -> (r: String)
    ensures
        r@ == routing_file(pairs_view(routing@), opt_mic_view(*mic)),
{
    let mut out = serialize_pairs(routing);
    let ghost l = pair_lines(pairs_view(routing@));
    match mic {
        Some(m) => {
            let mut line = string_of_str("mic");
            crate::text::push_char(&mut line, '\t');
            append_str(&mut line, m.node_name.as_str());
            crate::text::push_char(&mut line, '\t');
            append_str(&mut line, m.product_name.as_str());
            crate::text::push_char(&mut line, '\t');
            append_str(&mut line, m.bus_path.as_str());
            crate::text::push_char(&mut line, '\t');
            append_str(&mut line, m.bluez_address.as_str());
            proof {
                reveal_strlit("mic");
                assert(line@ =~= mic_line(mic_view(*m)));
                lemma_join_lines_push(l, line@);
                assert(l + seq![mic_line(mic_view(*m))] =~= l.push(line@));
            }
            push_line(&mut out, line.as_str());
        },
        None => {
            assert(l + Seq::<Seq<char>>::empty() =~= l);
        },
    }
    out
}

// ---------------------------------------------------------------------------
// Volumes of the virtual nodes
// ---------------------------------------------------------------------------

pub open spec fn clamp_percent(p: u32) -> u32 {
    if p > 100 {
        100
    } else {
        p
    }
}

/// One line of the volumes file: a node name, a tab, a percentage (spaces
/// around it allowed), capped at 100.
pub open spec fn volume_line(line: Seq<char>) -> Option<(Seq<char>, u32)> {
    match split_once(line, '\t') {
        Some((ch, rest)) => match parse_u32_spec(trim(rest)) {
            Some(p) => Some((ch, clamp_percent(p))),
            None => None,
        },
        None => None,
    }
}

pub open spec fn volumes_spec(content: Seq<char>) -> Seq<(Seq<char>, u32)> {
    filter_map(lines_seq(content), |l: Seq<char>| volume_line(l))
}

/// Read the saved volumes (node name -> percent) from the file's content.
pub fn load_volumes(content: &str) -> (r: Vec<(String, u32)>)
    ensures
        kv_view(r@) == volumes_spec(content@),
{
    let lines = lines_str(content);
    let ghost ls = lines_seq(content@);
    let ghost f = |l: Seq<char>| volume_line(l);
    let mut out: Vec<(String, u32)> = Vec::new();
    let mut i: usize = 0;
    assert(kv_view(out@) =~= filter_map(ls.take(0), f));
    while i < lines.len()
        invariant
            i <= lines.len(),
            views(lines@) == ls,
            ls == lines_seq(content@),
            f == (|l: Seq<char>| volume_line(l)),
            kv_view(out@) == filter_map(ls.take(i as int), f),
        decreases lines.len() - i,
    {
        proof {
            lemma_filter_map_step(ls, f, i as int);
        }
        assert(ls[i as int] == lines@[i as int]@);
        let ghost before = kv_view(out@);
        match split_once_chars(&lines[i], '\t') {
            Some((ch, rest)) => {
                match parse_u32_opt(&trim_chars(&rest)) {
                    Some(p) => {
                        let v = if p > 100 {
                            100
                        } else {
                            p
                        };
                        out.push((string_of(&ch), v));
                        assert(kv_view(out@) =~= before.push((ch@, v)));
                    },
                    None => {},
                }
            },
            None => {},
        }
        i = i + 1;
    }
    assert(ls.take(lines.len() as int) =~= ls);
    out
}

/// Save `percent` (capped at 100) for `channel`, replacing any earlier entry.
pub fn set_volume_entry(volumes: &mut Vec<(String, u32)>, channel: &str, percent: u32)
    ensures
        kv_view(final(volumes)@) == drop_key(kv_view(old(volumes)@), channel@).push((channel@, clamp_percent(percent))),
        pairs_map(kv_view(final(volumes)@)) == pairs_map(kv_view(old(volumes)@)).insert(channel@, clamp_percent(percent)),
        keys_unique(kv_view(old(volumes)@)) ==> keys_unique(kv_view(final(volumes)@)),
{
    let v = if percent > 100 {
        100
    } else {
        percent
    };
    proof {
        lemma_insert_key_unique(kv_view(volumes@), channel@, v);
    }
    insert_key(volumes, string_of_str(channel), v);
}

/// `name\tpercent` for each entry.
pub open spec fn volume_lines(l: Seq<(Seq<char>, u32)>) -> Seq<Seq<char>> {
    l.map_values(|p: (Seq<char>, u32)| p.0 + tab() + decimal(p.1 as nat))
}

/// Write the volumes file: one `name\tpercent` line per entry.
pub fn serialize_volumes(v: &Vec<(String, u32)>) -> (r: String)
    ensures
        r@ == join_lines(volume_lines(kv_view(v@))),
{
    let ghost l = kv_view(v@);
    let mut out = String::new();
    let mut i: usize = 0;
    assert(volume_lines(l).take(0) =~= Seq::<Seq<char>>::empty());
    while i < v.len()
        invariant
            i <= v.len(),
            l == kv_view(v@),
            out@ == join_lines(volume_lines(l).take(i as int)),
        decreases v.len() - i,
    {
        let mut line = v[i].0.clone();
        crate::text::push_char(&mut line, '\t');
        let d = decimal_string(v[i].1 as u64);
        append_str(&mut line, d.as_str());
        proof {
            assert(l[i as int] == (v@[i as int].0@, v@[i as int].1));
            assert(line@ =~= l[i as int].0 + tab() + decimal(l[i as int].1 as nat));
            assert(volume_lines(l)[i as int] == line@);
            lemma_join_lines_push(volume_lines(l).take(i as int), line@);
            assert(volume_lines(l).take(i + 1) =~= volume_lines(l).take(i as int).push(line@));
        }
        push_line(&mut out, line.as_str());
        i = i + 1;
    }
    assert(volume_lines(l).take(v.len() as int) =~= volume_lines(l));
    out
}


// ---------------------------------------------------------------------------
// Laws
// ---------------------------------------------------------------------------

/// A key that can be written on a `key\tvalue` line and read back.
pub open spec fn writable_key(k: Seq<char>) -> bool {
    plain_line(k) && free_of(k, '\t')
}

proof fn lemma_pair_line(k: Seq<char>, v: Seq<char>)
    requires
        writable_key(k),
        plain_line(v),
    ensures
        plain_line(k + tab() + v),
        split_once(k + tab() + v, '\t') == Some((k, v)),
        split_seq(k + tab() + v, '\t')[0] == k,
{
    lemma_plain_concat(k, tab());
    lemma_plain_concat(k + tab(), v);
    lemma_split_cons_at(k, '\t', v);
    crate::text::lemma_split_len(v, '\t');
}

/// Saving assignments and reading them back gives the same assignments,
/// provided app names hold no tab or line break and sink names hold no line
/// break and are current names.
pub proof fn law_assignments_round_trip(l: Pairs)
    requires
        forall|i: int|
            0 <= i < l.len() ==> writable_key((#[trigger] l[i]).0) && plain_line(l[i].1) && migrate_spec(l[i].1) is None,
    ensures
        saved_spec(pairs_file(l)) == l,
{
    let ls = pair_lines(l);
    assert forall|i: int| 0 <= i < ls.len() implies plain_line(#[trigger] ls[i]) by {
        lemma_pair_line(l[i].0, l[i].1);
    }
    lemma_lines_join(ls);
    let f = |x: Seq<char>| saved_line(x);
    assert forall|i: int| 0 <= i < ls.len() implies (#[trigger] f(ls[i])) is Some by {
        lemma_pair_line(l[i].0, l[i].1);
    }
    lemma_filter_map_total(ls, f);
    assert forall|i: int| 0 <= i < l.len() implies f(ls[i]).unwrap() == l[i] by {
        lemma_pair_line(l[i].0, l[i].1);
    }
    assert(ls.map_values(|a: Seq<char>| f(a).unwrap()) =~= l);
}

/// The routing reader never yields the `mic` record as a channel, and every
/// volume read is at most 100.
pub proof fn law_read_values_in_range(content: Seq<char>)
    ensures
        forall|i: int| 0 <= i < routing_spec(content).len() ==> (#[trigger] routing_spec(content)[i]).0 != "mic"@,
        forall|i: int| 0 <= i < volumes_spec(content).len() ==> (#[trigger] volumes_spec(content)[i]).1 <= 100,
{
    let ls = lines_seq(content);
    lemma_filter_map_all(ls, |l: Seq<char>| routing_line(l), |p: (Seq<char>, Seq<char>)| p.0 != "mic"@);
    lemma_filter_map_all(ls, |l: Seq<char>| volume_line(l), |p: (Seq<char>, u32)| p.1 <= 100);
}

proof fn lemma_mic_skips(a: Seq<Seq<char>>, b: Seq<Seq<char>>)
    requires
        forall|i: int| 0 <= i < a.len() ==> split_seq(#[trigger] a[i], '\t')[0] != "mic"@,
    ensures
        mic_pref_spec(a + b) == mic_pref_spec(b),
    decreases a.len(),
{
    if a.len() > 0 {
        let t = a.drop_first();
        assert forall|i: int| 0 <= i < t.len() implies split_seq(#[trigger] t[i], '\t')[0] != "mic"@ by {
            assert(t[i] == a[i + 1]);
        }
        lemma_mic_skips(t, b);
        assert((a + b)[0] == a[0]);
        assert((a + b).drop_first() =~= t + b);
    } else {
        assert(a + b =~= b);
    }
}

/// Writing the mixer routing file and reading it back gives the same
/// channel entries and the same microphone, provided channel names hold no
/// tab or line break and are not `mic`, and the other fields hold no tab or
/// line break.
pub proof fn law_routing_round_trip(routing: Pairs, mic: Option<MicView>)
    requires
        forall|i: int|
            0 <= i < routing.len() ==> writable_key((#[trigger] routing[i]).0) && plain_line(routing[i].1)
                && routing[i].0 != "mic"@,
        mic matches Some(m) ==> writable_key(m.0) && writable_key(m.1) && writable_key(m.2) && writable_key(m.3),
    ensures
        routing_spec(routing_file(routing, mic)) == routing,
        mic_pref_spec(lines_seq(routing_file(routing, mic))) == mic,
{
    reveal_strlit("mic");
    let a = pair_lines(routing);
    let extra: Seq<Seq<char>> = match mic {
        Some(m) => seq![mic_line(m)],
        None => seq![],
    };
    let ls = a + extra;
    assert forall|i: int| 0 <= i < a.len() implies plain_line(#[trigger] a[i]) && split_seq(a[i], '\t')[0] != "mic"@ by {
        lemma_pair_line(routing[i].0, routing[i].1);
    }
    let f = |x: Seq<char>| routing_line(x);
    assert forall|i: int| 0 <= i < a.len() implies (#[trigger] f(a[i])) is Some by {
        lemma_pair_line(routing[i].0, routing[i].1);
    }
    lemma_filter_map_total(a, f);
    assert forall|i: int| 0 <= i < routing.len() implies f(a[i]).unwrap() == routing[i] by {
        lemma_pair_line(routing[i].0, routing[i].1);
    }
    assert(a.map_values(|x: Seq<char>| f(x).unwrap()) =~= routing);
    match mic {
        Some(m) => {
            let ml = mic_line(m);
            let m_t = "mic"@;
            assert(free_of(m_t, '\t'));
            assert(plain_line(m_t));
            let r4 = m.3;
            let r3 = m.2 + tab() + r4;
            let r2 = m.1 + tab() + r3;
            let r1 = m.0 + tab() + r2;
            assert(ml =~= m_t + tab() + r1);
            lemma_split_cons_at(m_t, '\t', r1);
            lemma_split_cons_at(m.0, '\t', r2);
            lemma_split_cons_at(m.1, '\t', r3);
            lemma_split_cons_at(m.2, '\t', r4);
            lemma_split_alone(m.3, '\t');
            let p = split_seq(ml, '\t');
            assert(p =~= seq![m_t, m.0, m.1, m.2, m.3]);
            lemma_plain_concat(m.2, tab());
            lemma_plain_concat(m.2 + tab(), r4);
            lemma_plain_concat(m.1, tab());
            lemma_plain_concat(m.1 + tab(), r3);
            lemma_plain_concat(m.0, tab());
            lemma_plain_concat(m.0 + tab(), r2);
            lemma_plain_concat(m_t, tab());
            lemma_plain_concat(m_t + tab(), r1);
            assert(plain_line(ml));
            assert forall|i: int| 0 <= i < ls.len() implies plain_line(#[trigger] ls[i]) by {
                if i < a.len() {
                    assert(ls[i] == a[i]);
                } else {
                    assert(ls[i] == ml);
                }
            }
            lemma_lines_join(ls);
            assert(ls == a.push(ml));
            assert(f(ml) is None);
            lemma_filter_map_push_none(a, f, ml);
            lemma_mic_skips(a, extra);
            assert(mic_pref_spec(extra) == Some(m)) by {
                assert(extra[0] == ml);
                assert(extra.drop_first() =~= Seq::<Seq<char>>::empty());
            }
        },
        None => {
            assert(ls =~= a);
            lemma_lines_join(ls);
            lemma_mic_skips(a, extra);
        },
    }
}

/// Writing the volumes file and reading it back gives the same entries,
/// provided node names hold no tab or line break and every volume is at
/// most 100.
pub proof fn law_volumes_round_trip(l: Seq<(Seq<char>, u32)>)
    requires
        forall|i: int| 0 <= i < l.len() ==> writable_key((#[trigger] l[i]).0) && l[i].1 <= 100,
    ensures
        volumes_spec(join_lines(volume_lines(l))) == l,
{
    let ls = volume_lines(l);
    assert forall|i: int| 0 <= i < ls.len() implies plain_line(#[trigger] ls[i]) by {
        lemma_trim_decimal(l[i].1 as nat);
        lemma_pair_line(l[i].0, decimal(l[i].1 as nat));
    }
    lemma_lines_join(ls);
    let f = |x: Seq<char>| volume_line(x);
    assert forall|i: int| 0 <= i < ls.len() implies (#[trigger] f(ls[i])) is Some && f(ls[i]).unwrap() == l[i] by {
        lemma_trim_decimal(l[i].1 as nat);
        lemma_pair_line(l[i].0, decimal(l[i].1 as nat));
        crate::text::lemma_parse_decimal(l[i].1 as nat, u32::MAX as nat);
    }
    lemma_filter_map_total(ls, f);
    assert(ls.map_values(|a: Seq<char>| f(a).unwrap()) =~= l);
}

/// What the watcher may do: every listed stream ends up seen; a stream
/// moved was not seen before, is moved once, is not one of our EQ streams,
/// and goes to its app's saved sink.
pub open spec fn new_streams_ok(
    seen: Set<u32>,
    saved: Pairs,
    inputs: Seq<SinkInputView>,
    r: (Set<u32>, Seq<(u32, Seq<char>)>),
) -> bool {
    &&& r.0 == seen.union(input_ids(inputs))
    &&& forall|j: int| 0 <= j < r.1.len() ==> !seen.contains(#[trigger] r.1[j].0)
    &&& forall|j: int, k: int| 0 <= j < k < r.1.len() ==> (#[trigger] r.1[j]).0 != (#[trigger] r.1[k]).0
    &&& forall|j: int| 0 <= j < r.1.len() ==> r.0.contains(#[trigger] r.1[j].0)
    &&& forall|j: int|
        0 <= j < r.1.len() ==> exists|i: int|
            0 <= i < inputs.len() && (#[trigger] inputs[i]).0 == (#[trigger] r.1[j]).0 && inputs[i].2 != "pw-cli"@
                && get(saved, inputs[i].2) == Some(r.1[j].1)
}

proof fn lemma_new_streams_fold(seen: Set<u32>, saved: Pairs, sinks: Seq<(u32, Seq<char>)>, inputs: Seq<SinkInputView>)
    ensures
        new_streams_ok(seen, saved, inputs, new_streams_fold(seen, saved, sinks, inputs)),
    decreases inputs.len(),
{
    if inputs.len() == 0 {
        assert(input_ids(inputs) =~= Set::<u32>::empty());
        assert(seen.union(Set::<u32>::empty()) =~= seen);
    } else {
        let d = inputs.drop_last();
        let inp = inputs.last();
        lemma_new_streams_fold(seen, saved, sinks, d);
        let st = new_streams_fold(seen, saved, sinks, d);
        let r = new_stream_step(st, saved, sinks, inp);
        assert(input_ids(inputs) =~= input_ids(d).insert(inp.0)) by {
            assert forall|id: u32| input_ids(inputs).contains(id) implies input_ids(d).insert(inp.0).contains(id) by {
                let i = choose|i: int| 0 <= i < inputs.len() && (#[trigger] inputs[i]).0 == id;
                if i < d.len() {
                    assert(d[i] == inputs[i]);
                }
            }
            assert forall|id: u32| input_ids(d).insert(inp.0).contains(id) implies input_ids(inputs).contains(id) by {
                if id == inp.0 {
                    assert(inputs[inputs.len() - 1].0 == id);
                } else {
                    let i = choose|i: int| 0 <= i < d.len() && (#[trigger] d[i]).0 == id;
                    assert(inputs[i] == d[i]);
                }
            }
        }
        assert(r.0 =~= seen.union(input_ids(inputs)));
        assert forall|j: int| 0 <= j < r.1.len() implies exists|i: int|
            0 <= i < inputs.len() && (#[trigger] inputs[i]).0 == (#[trigger] r.1[j]).0 && inputs[i].2 != "pw-cli"@
                && get(saved, inputs[i].2) == Some(r.1[j].1) by {
            if j < st.1.len() {
                assert(r.1[j] == st.1[j]);
                let i = choose|i: int|
                    0 <= i < d.len() && (#[trigger] d[i]).0 == (#[trigger] st.1[j]).0 && d[i].2 != "pw-cli"@
                        && get(saved, d[i].2) == Some(st.1[j].1);
                assert(inputs[i] == d[i]);
            } else {
                assert(inputs[inputs.len() - 1] == inp);
            }
        }
        assert forall|j: int| 0 <= j < r.1.len() implies r.0.contains(#[trigger] r.1[j].0) by {
            if j < st.1.len() {
                assert(r.1[j] == st.1[j]);
            }
        }
        assert forall|j: int| 0 <= j < r.1.len() implies !seen.contains(#[trigger] r.1[j].0) by {
            if j < st.1.len() {
                assert(r.1[j] == st.1[j]);
            }
        }
        assert forall|j: int, k: int| 0 <= j < k < r.1.len() implies (#[trigger] r.1[j]).0 != (#[trigger] r.1[k]).0 by {
            assert(r.1[j] == st.1[j]);
            if k < st.1.len() {
                assert(r.1[k] == st.1[k]);
            } else {
                assert(st.0.contains(st.1[j].0));
            }
        }
    }
}

/// The watcher never touches a stream it has seen before: it moves only
/// streams new to it, each at most once, never our own EQ streams, and only
/// to the app's saved sink; afterwards every listed stream counts as seen.
pub proof fn law_new_streams_touch_only_new(
    seen: Set<u32>,
    saved: Pairs,
    sinks: Seq<(u32, Seq<char>)>,
    inputs: Seq<SinkInputView>,
)
    ensures
        new_streams_ok(seen, saved, inputs, restore_new_streams_spec(seen, saved, sinks, inputs)),
{
    if saved.len() == 0 {
    } else {
        lemma_new_streams_fold(seen, saved, sinks, inputs);
    }
}

/// Saving never drops or changes the entry of an app that is not running:
/// only apps with a stream now playing are updated or forgotten.
pub proof fn law_merge_keeps_apps_not_running(
    m: Map<Seq<char>, Seq<char>>,
    sinks: Seq<(u32, Seq<char>)>,
    inputs: Seq<SinkInputView>,
    app: Seq<char>,
)
    requires
        forall|i: int| 0 <= i < inputs.len() ==> (#[trigger] inputs[i]).2 != app,
    ensures
        merge_fold(m, sinks, inputs).dom().contains(app) == m.dom().contains(app),
        m.dom().contains(app) ==> merge_fold(m, sinks, inputs)[app] == m[app],
    decreases inputs.len(),
{
    if inputs.len() > 0 {
        let d = inputs.drop_last();
        assert forall|i: int| 0 <= i < d.len() implies (#[trigger] d[i]).2 != app by {
            assert(d[i] == inputs[i]);
        }
        law_merge_keeps_apps_not_running(m, sinks, d, app);
        assert(inputs.last() == inputs[inputs.len() - 1]);
    }
}

} // verus!
