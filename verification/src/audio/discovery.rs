//! Finding the headset's nodes in `pactl` listings and the microphone's
//! links in `pw-link` listings.
use vstd::prelude::*;

use crate::text::{
    chars_eq_str, contains_seq, contains_str, ends_with, ends_with_str, filter_map, lines_seq,
    lines_str, split_whitespace_chars, split_ws, starts_with, string_of, strip_prefix,
    strip_prefix_str, trim, trim_chars, views,
};

verus! {

/// A `pactl list … short` line of the headset.
pub open spec fn headset_line(l: Seq<char>) -> bool {
    contains_seq(l, "SteelSeries"@) && contains_seq(l, "Arctis_Nova_Elite"@)
}

/// A line that names a source the microphone cannot be taken from: our
/// virtual mic or a monitor.
pub open spec fn not_a_mic(l: Seq<char>) -> bool {
    contains_seq(l, "SteelSeries_Mic"@) || contains_seq(l, ".monitor"@)
}

/// The node name: the second whitespace-separated field.
pub open spec fn second_word(l: Seq<char>) -> Option<Seq<char>> {
    if split_ws(l).len() > 1 {
        Some(split_ws(l)[1])
    } else {
        None
    }
}

/// The first headset line, in order, that names a node (for sources, one
/// that is neither our virtual mic nor a monitor), by that name.
pub open spec fn find_headset(ls: Seq<Seq<char>>, source: bool) -> Option<Seq<char>>
    decreases ls.len(),
{
    if ls.len() == 0 {
        None
    } else {
        let l = ls[0];
        if headset_line(l) && !(source && not_a_mic(l)) && second_word(l) is Some {
            second_word(l)
        } else {
            find_headset(ls.drop_first(), source)
        }
    }
}

fn find_headset_exec(listing: &str, source: bool) -> (r: Option<String>)
    ensures
        match r {
            Some(n) => find_headset(lines_seq(listing@), source) == Some(n@),
            None => find_headset(lines_seq(listing@), source) is None,
        },
{
    let lines = lines_str(listing);
    let ghost ls = lines_seq(listing@);
    let mut i: usize = 0;
    assert(ls.subrange(0, ls.len() as int) =~= ls);
    while i < lines.len()
        invariant
            i <= lines.len(),
            views(lines@) == ls,
            find_headset(lines_seq(listing@), source) == find_headset(ls.subrange(i as int, ls.len() as int), source),
            ls == lines_seq(listing@),
        decreases lines.len() - i,
    {
        let ghost rest = ls.subrange(i as int, ls.len() as int);
        assert(rest[0] == lines@[i as int]@);
        assert(rest.drop_first() =~= ls.subrange(i + 1, ls.len() as int));
        let l = &lines[i];
        if contains_str(l, "SteelSeries") && contains_str(l, "Arctis_Nova_Elite") {
            let skip = source && (contains_str(l, "SteelSeries_Mic") || contains_str(l, ".monitor"));
            if !skip {
                let words = split_whitespace_chars(l);
                if words.len() > 1 {
                    assert(views(words@)[1] == words@[1]@);
                    return Some(string_of(&words[1]));
                }
            }
        }
        i = i + 1;
    }
    None
}

/// The headset's output sink in `pactl list sinks short` output.
pub fn headset_sink_from_listing(listing: &str) -> (r: Option<String>)
    ensures
        match r {
            Some(n) => find_headset(lines_seq(listing@), false) == Some(n@),
            None => find_headset(lines_seq(listing@), false) is None,
        },
{
    find_headset_exec(listing, false)
}

/// The headset's microphone in `pactl list sources short` output.
pub fn headset_source_from_listing(listing: &str) -> (r: Option<String>)
    ensures
        match r {
            Some(n) => find_headset(lines_seq(listing@), true) == Some(n@),
            None => find_headset(lines_seq(listing@), true) is None,
        },
{
    find_headset_exec(listing, true)
}

/// A line of `pw-link -o` output that is one of `source`'s ports, trimmed.
pub open spec fn port_of(l: Seq<char>, source: Seq<char>) -> Option<Seq<char>> {
    if starts_with(trim(l), source + seq![':']) {
        Some(trim(l))
    } else {
        None
    }
}

/// The output ports of `source`, in listing order.
pub fn source_output_ports(listing: &str, source: &str) -> (r: Vec<String>)
    ensures
        crate::text::string_views(r@) == filter_map(lines_seq(listing@), |l: Seq<char>| port_of(l, source@)),
{
    let lines = lines_str(listing);
    let ghost ls = lines_seq(listing@);
    let ghost f = |l: Seq<char>| port_of(l, source@);
    let mut prefix = crate::text::string_of_str(source);
    crate::text::push_char(&mut prefix, ':');
    let mut out: Vec<String> = Vec::new();
    let mut i: usize = 0;
    assert(crate::text::string_views(out@) =~= filter_map(ls.take(0), f));
    while i < lines.len()
        invariant
            i <= lines.len(),
            views(lines@) == ls,
            ls == lines_seq(listing@),
            prefix@ == source@ + seq![':'],
            f == (|l: Seq<char>| port_of(l, source@)),
            crate::text::string_views(out@) == filter_map(ls.take(i as int), f),
        decreases lines.len() - i,
    {
        proof {
            crate::text::lemma_filter_map_step(ls, f, i as int);
        }
        assert(ls[i as int] == lines@[i as int]@);
        let t = trim_chars(&lines[i]);
        let ghost before = crate::text::string_views(out@);
        if crate::text::starts_with_str(&t, prefix.as_str()) {
            out.push(string_of(&t));
            assert(crate::text::string_views(out@) =~= before.push(t@));
        }
        i = i + 1;
    }
    assert(ls.take(lines.len() as int) =~= ls);
    out
}

/// The first port, in order, whose name ends in `suffix`.
pub open spec fn first_ending(ps: Seq<Seq<char>>, suffix: Seq<char>) -> Option<Seq<char>>
    decreases ps.len(),
{
    if ps.len() == 0 {
        None
    } else if ends_with(ps[0], suffix) {
        Some(ps[0])
    } else {
        first_ending(ps.drop_first(), suffix)
    }
}

/// The port to link the microphone from: a mono capture port, else the
/// front-left one, else the first.
pub open spec fn mic_port_spec(ps: Seq<Seq<char>>) -> Option<Seq<char>> {
    match first_ending(ps, ":capture_MONO"@) {
        Some(p) => Some(p),
        None => match first_ending(ps, ":capture_FL"@) {
            Some(p) => Some(p),
            None => if ps.len() > 0 {
                Some(ps[0])
            } else {
                None
            },
        },
    }
}

fn first_ending_exec(ps: &Vec<String>, suffix: &str) -> (r: Option<String>)
    ensures
        match r {
            Some(p) => first_ending(crate::text::string_views(ps@), suffix@) == Some(p@),
            None => first_ending(crate::text::string_views(ps@), suffix@) is None,
        },
{
    let ghost s = crate::text::string_views(ps@);
    let mut i: usize = 0;
    assert(s.subrange(0, s.len() as int) =~= s);
    while i < ps.len()
        invariant
            i <= ps.len(),
            s == crate::text::string_views(ps@),
            first_ending(s, suffix@) == first_ending(s.subrange(i as int, s.len() as int), suffix@),
        decreases ps.len() - i,
    {
        let ghost rest = s.subrange(i as int, s.len() as int);
        assert(rest[0] == ps@[i as int]@);
        assert(rest.drop_first() =~= s.subrange(i + 1, s.len() as int));
        if ends_with_str(&crate::text::chars_of(ps[i].as_str()), suffix) {
            return Some(ps[i].clone());
        }
        i = i + 1;
    }
    None
}

/// The port to link the microphone from (see `mic_port_spec`).
pub fn choose_mic_port(ports: &Vec<String>) -> (r: Option<String>)
    ensures
        match r {
            Some(p) => mic_port_spec(crate::text::string_views(ports@)) == Some(p@),
            None => mic_port_spec(crate::text::string_views(ports@)) is None,
        },
{
    match first_ending_exec(ports, ":capture_MONO") {
        Some(p) => Some(p),
        None => match first_ending_exec(ports, ":capture_FL") {
            Some(p) => Some(p),
            None => {
                if ports.len() > 0 {
                    assert(crate::text::string_views(ports@)[0] == ports@[0]@);
                    Some(ports[0].clone())
                } else {
                    None
                }
            },
        },
    }
}

/// A `pw-link -l` line that starts a port's block (it is not indented).
pub open spec fn block_start(l: Seq<char>) -> bool {
    !(l.len() > 0 && (l[0] == ' ' || l[0] == '\t'))
}

/// Reading `pw-link -l` output: whether the current block is our mic's
/// input port, and the source ports linked into it so far.
pub open spec fn mic_links_fold(ls: Seq<Seq<char>>) -> (bool, Seq<Seq<char>>)
    decreases ls.len(),
{
    if ls.len() == 0 {
        (false, seq![])
    } else {
        let (in_mic, found) = mic_links_fold(ls.drop_last());
        let l = ls.last();
        let t = trim(l);
        if block_start(l) {
            (t == "SteelSeries_Mic:input_MONO"@, found)
        } else if in_mic {
            match strip_prefix(t, "|<- "@) {
                Some(p) => (in_mic, found.push(p)),
                None => (in_mic, found),
            }
        } else {
            (in_mic, found)
        }
    }
}

/// The source ports linked into our virtual mic's input, in listing order.
pub fn mic_links(listing: &str) -> (r: Vec<String>)
    ensures
        crate::text::string_views(r@) == mic_links_fold(lines_seq(listing@)).1,
{
    let lines = lines_str(listing);
    let ghost ls = lines_seq(listing@);
    let mut in_mic = false;
    let mut out: Vec<String> = Vec::new();
    let mut i: usize = 0;
    assert(crate::text::string_views(out@) =~= Seq::<Seq<char>>::empty());
    while i < lines.len()
        invariant
            i <= lines.len(),
            views(lines@) == ls,
            ls == lines_seq(listing@),
            (in_mic, crate::text::string_views(out@)) == mic_links_fold(ls.take(i as int)),
        decreases lines.len() - i,
    {
        assert(ls.take(i + 1).drop_last() =~= ls.take(i as int));
        assert(ls.take(i + 1).last() == lines@[i as int]@);
        let l = &lines[i];
        let t = trim_chars(l);
        let indented = l.len() > 0 && (l[0] == ' ' || l[0] == '\t');
        if !indented {
            in_mic = chars_eq_str(&t, "SteelSeries_Mic:input_MONO");
        } else if in_mic {
            match strip_prefix_str(&t, "|<- ") {
                Some(p) => {
                    let ghost before = crate::text::string_views(out@);
                    out.push(string_of(&p));
                    assert(crate::text::string_views(out@) =~= before.push(p@));
                },
                None => {},
            }
        }
        i = i + 1;
    }
    assert(ls.take(lines.len() as int) =~= ls);
    out
}

} // verus!
