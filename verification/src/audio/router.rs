//! The pieces of EQ routing that read `pw-cli` and `pactl` output and
//! decide when a filter chain must be rebuilt.
use vstd::prelude::*;

use crate::eq::model::FilterType;
use crate::text::{
    chars_of, contains_seq, contains_str, find_str, is_first_occurrence, lines_seq, lines_str,
    parse_u32_chars, parse_unsigned, slice_chars, split_whitespace_chars, split_ws, views,
};

verus! {

/// The leading ASCII digits of `s`.
pub open spec fn leading_digits(s: Seq<char>) -> Seq<char>
    decreases s.len(),
{
    if s.len() > 0 && '0' <= s[0] && s[0] <= '9' {
        seq![s[0]] + leading_digits(s.drop_first())
    } else {
        seq![]
    }
}

fn leading_digits_exec(s: &Vec<char>, from: usize) -> (r: Vec<char>)
    requires
        from <= s.len(),
    ensures
        r@ == leading_digits(s@.subrange(from as int, s.len() as int)),
{
    let mut j = from;
    while j < s.len() && '0' <= s[j] && s[j] <= '9'
        invariant
            from <= j <= s.len(),
            leading_digits(s@.subrange(from as int, s.len() as int)) == s@.subrange(from as int, j as int)
                + leading_digits(s@.subrange(j as int, s.len() as int)),
        decreases s.len() - j,
    {
        let ghost t = s@.subrange(j as int, s.len() as int);
        assert(t.drop_first() =~= s@.subrange(j + 1, s.len() as int));
        assert(s@.subrange(from as int, j + 1) =~= s@.subrange(from as int, j as int) + seq![s@[j as int]]);
        j = j + 1;
    }
    assert(leading_digits(s@.subrange(j as int, s.len() as int)) =~= Seq::<char>::empty());
    slice_chars(s, from, j)
}

/// The number that the digits right after the first occurrence of `marker`
/// write, when there are any and they fit a `u32`.
pub open spec fn number_after(line: Seq<char>, marker: Seq<char>) -> Option<u32> {
    if contains_seq(line, marker) {
        let i = crate::clips::detector::first_occurrence(line, marker);
        let d = leading_digits(line.subrange(i + marker.len(), line.len() as int));
        if d.len() == 0 {
            None
        } else {
            match parse_unsigned(d, u32::MAX as nat) {
                Some(n) => Some(n as u32),
                None => None,
            }
        }
    } else {
        None
    }
}

fn number_after_exec(v: &Vec<char>, marker: &str) -> (r: Option<u32>)
    ensures
        r == number_after(v@, marker@),
{
    match find_str(v, marker) {
        Some(i) => {
            proof {
                crate::clips::detector::lemma_first_occurrence(v@, marker@, i as int);
            }
            let m = chars_of(marker);
            assert(crate::text::occurs_at(v@, marker@, i as int));
            let vl = v.len();
            let ml = m.len();
            assert(i + ml <= vl);
            let start = i + ml;
            let d = leading_digits_exec(v, start);
            if d.len() == 0 {
                None
            } else {
                match parse_u32_chars(&d) {
                    Some(n) => Some(n),
                    None => None,
                }
            }
        },
        None => None,
    }
}

/// The module id in a `pw-cli` reply line of the form `N = @module:M`.
pub fn parse_module_id_from_line(line: &str) -> (r: Option<u32>)
    ensures
        r == number_after(line@, "@module:"@),
{
    let v = chars_of(line);
    number_after_exec(&v, "@module:")
}

/// The node id in a `pw-cli` "added global" event line:
/// `remote 0 added global: \tid <N>, type PipeWire:Interface:Node/3`.
pub open spec fn added_node_id_spec(line: Seq<char>) -> Option<u32> {
    if !contains_seq(line, "added global:"@) || !contains_seq(line, "Node"@) {
        None
    } else {
        number_after(line, "id "@)
    }
}

pub fn parse_added_node_global_id(line: &str) -> (r: Option<u32>)
    ensures
        r == added_node_id_spec(line@),
{
    let v = chars_of(line);
    if !contains_str(&v, "added global:") || !contains_str(&v, "Node") {
        return None;
    }
    number_after_exec(&v, "id ")
}

/// What has been read so far of the `pw-cli` replies that follow the loading
/// of a filter chain: the module's proxy id, the id of the node that was
/// announced last, and the id of the chain's capture node once its name
/// has been seen.
#[derive(Debug, Clone, Copy, PartialEq, Eq, Structural)]
pub struct FilterChainScan {
    pub module_id: Option<u32>,
    pub last_node: Option<u32>,
    pub capture_node: Option<u32>,
}

/// The property line that names the capture node `cap_name`.
pub open spec fn capture_marker(cap_name: Seq<char>) -> Seq<char> {
    "node.name = \""@ + cap_name + "\""@
}

/// One line of `pw-cli` output read into the scan. The first module id
/// that is seen stays; every node announcement replaces the last node;
/// the capture node is the node announced last when the line that names
/// it arrives, and then stays.
pub open spec fn scan_step(s: FilterChainScan, line: Seq<char>, cap_name: Seq<char>) -> FilterChainScan {
    let module_id = if s.module_id is None {
        number_after(line, "@module:"@)
    } else {
        s.module_id
    };
    let last_node = match added_node_id_spec(line) {
        Some(id) => Some(id),
        None => s.last_node,
    };
    let capture_node = if s.capture_node is None && contains_seq(line, capture_marker(cap_name)) {
        last_node
    } else {
        s.capture_node
    };
    FilterChainScan { module_id, last_node, capture_node }
}

/// The scan is done once both the module and the capture node are known.
pub open spec fn scan_done(s: FilterChainScan) -> bool {
    s.module_id is Some && s.capture_node is Some
}

/// Whatever lines follow, a module id or capture node once found stays,
/// so a scan that is done stays done with the same answer.
pub proof fn law_scan_keeps_what_it_found(s: FilterChainScan, line: Seq<char>, cap_name: Seq<char>)
    ensures
        s.module_id is Some ==> scan_step(s, line, cap_name).module_id == s.module_id,
        s.capture_node is Some ==> scan_step(s, line, cap_name).capture_node == s.capture_node,
        scan_done(s) ==> scan_done(scan_step(s, line, cap_name)),
{
}

impl FilterChainScan {
    /// A scan that has read nothing.
    pub fn new() -> (r: Self)
        ensures
            r.module_id is None,
            r.last_node is None,
            r.capture_node is None,
    {
        FilterChainScan { module_id: None, last_node: None, capture_node: None }
    }

    /// Reads one line; the result says whether the scan is done, so that
    /// the reader can stop waiting for more.
    pub fn feed(&mut self, line: &str, cap_name: &str) -> (done: bool)
        ensures
            *final(self) == scan_step(*old(self), line@, cap_name@),
            done == scan_done(*final(self)),
    {
        if self.module_id.is_none() {
            self.module_id = parse_module_id_from_line(line);
        }
        match parse_added_node_global_id(line) {
            Some(id) => {
                self.last_node = Some(id);
            },
            None => {},
        }
        if self.capture_node.is_none() {
            let mut marker = String::new();
            crate::text::append_str(&mut marker, "node.name = \"");
            crate::text::append_str(&mut marker, cap_name);
            crate::text::append_str(&mut marker, "\"");
            let v = chars_of(line);
            let m = chars_of(marker.as_str());
            match crate::text::find_sub(&v, &m) {
                Some(i) => {
                    proof {
                        assert(crate::text::occurs_at(line@, capture_marker(cap_name@), i as int));
                    }
                    self.capture_node = self.last_node;
                },
                None => {},
            }
        }
        self.module_id.is_some() && self.capture_node.is_some()
    }

    /// What the scan found once the replies have ended or the wait has run
    /// out: the chain, whose capture node may be unknown, or an error when
    /// no module id was seen.
    pub fn finish(&self) -> (r: Result<crate::audio::eq_chains::ChainInfo, String>)
        ensures
            match r {
                Ok(c) => self.module_id == Some(c.module_id) && c.capture_node == self.capture_node,
                Err(e) => self.module_id is None && e@ == "No module ID found in pw-cli output"@,
            },
    {
        match self.module_id {
            Some(m) => Ok(crate::audio::eq_chains::ChainInfo { module_id: m, capture_node: self.capture_node }),
            None => Err(crate::text::string_of_str("No module ID found in pw-cli output")),
        }
    }
}

/// The filter-chain label of a band: disabled bands pass through as a
/// peaking filter.
pub open spec fn effective_label_spec(enabled: bool, f: FilterType) -> Seq<char> {
    if !enabled {
        "bq_peaking"@
    } else {
        match f {
            FilterType::Peaking => "bq_peaking"@,
            FilterType::LowShelf => "bq_lowshelf"@,
            FilterType::HighShelf => "bq_highshelf"@,
            FilterType::LowPass => "bq_lowpass"@,
            FilterType::HighPass => "bq_highpass"@,
            FilterType::Notch => "bq_notch"@,
        }
    }
}

pub fn effective_label(enabled: bool, filter_type: FilterType) -> (r: &'static str)
    ensures
        r@ == effective_label_spec(enabled, filter_type),
{
    if !enabled {
        "bq_peaking"
    } else {
        match filter_type {
            FilterType::Peaking => "bq_peaking",
            FilterType::LowShelf => "bq_lowshelf",
            FilterType::HighShelf => "bq_highshelf",
            FilterType::LowPass => "bq_lowpass",
            FilterType::HighPass => "bq_highpass",
            FilterType::Notch => "bq_notch",
        }
    }
}

/// Whether a chain must be rebuilt: some band's label changed (pairing the
/// bands in order). When only frequencies, gains and Qs change, the
/// controls are updated in place.
pub open spec fn needs_rebuild_spec(old: Seq<(bool, FilterType)>, new: Seq<(bool, FilterType)>) -> bool {
    exists|i: int|
        0 <= i < old.len() && i < new.len() && effective_label_spec(old[i].0, old[i].1)
            != effective_label_spec(#[trigger] new[i].0, new[i].1)
}

fn same_label(a: (bool, FilterType), b: (bool, FilterType)) -> (r: bool)
    ensures
        r == (effective_label_spec(a.0, a.1) == effective_label_spec(b.0, b.1)),
{
    proof {
        lemma_label_codes();
    }
    let ka: u8 = label_code(a.0, a.1);
    let kb: u8 = label_code(b.0, b.1);
    ka == kb
}

fn label_code(enabled: bool, f: FilterType) -> (r: u8)
    ensures
        r == label_code_spec(enabled, f),
{
    if !enabled {
        0
    } else {
        match f {
            FilterType::Peaking => 0,
            FilterType::LowShelf => 1,
            FilterType::HighShelf => 2,
            FilterType::LowPass => 3,
            FilterType::HighPass => 4,
            FilterType::Notch => 5,
        }
    }
}

pub open spec fn label_code_spec(enabled: bool, f: FilterType) -> u8 {
    if !enabled {
        0
    } else {
        match f {
            FilterType::Peaking => 0,
            FilterType::LowShelf => 1,
            FilterType::HighShelf => 2,
            FilterType::LowPass => 3,
            FilterType::HighPass => 4,
            FilterType::Notch => 5,
        }
    }
}

proof fn lemma_label_codes()
    ensures
        forall|e1: bool, f1: FilterType, e2: bool, f2: FilterType|
            (effective_label_spec(e1, f1) == effective_label_spec(e2, f2)) <==> label_code_spec(e1, f1)
                == label_code_spec(e2, f2),
{
    reveal_strlit("bq_peaking");
    reveal_strlit("bq_lowshelf");
    reveal_strlit("bq_highshelf");
    reveal_strlit("bq_lowpass");
    reveal_strlit("bq_highpass");
    reveal_strlit("bq_notch");
    assert("bq_peaking"@.len() == 10 && "bq_lowshelf"@.len() == 11 && "bq_highshelf"@.len() == 12);
    assert("bq_lowpass"@.len() == 10 && "bq_highpass"@.len() == 11 && "bq_notch"@.len() == 8);
    assert("bq_peaking"@[3] == 'p' && "bq_lowpass"@[3] == 'l');
    assert("bq_lowshelf"@[3] == 'l' && "bq_highpass"@[3] == 'h');
}

pub fn needs_rebuild(old: &Vec<(bool, FilterType)>, new: &Vec<(bool, FilterType)>) -> (r: bool)
    ensures
        r == needs_rebuild_spec(old@, new@),
{
    let mut i: usize = 0;
    while i < old.len() && i < new.len()
        invariant
            i <= old.len(),
            forall|k: int|
                0 <= k < i && k < new.len() ==> effective_label_spec(old@[k].0, old@[k].1)
                    == effective_label_spec(#[trigger] new@[k].0, new@[k].1),
        decreases old.len() - i,
    {
        if !same_label(old[i], new[i]) {
            return true;
        }
        i = i + 1;
    }
    false
}

/// The managed and legacy node names a loopback module may reference.
pub open spec fn known_loopback_names() -> Seq<Seq<char>> {
    seq![
        "SteelSeries_Game"@, "SteelSeries_Chat"@, "SteelSeries_Music"@, "SteelSeries_Aux"@,
        "ChatMix_Game"@, "ChatMix_Chat"@, "ChatMix_Music"@, "ChatMix_Aux"@, "ChatMix_Mic"@
    ]
}

/// A `module-loopback` line that references one of our nodes as its source
/// (or that node's monitor) or its sink.
pub open spec fn references_known(line: Seq<char>) -> bool {
    exists|k: int|
        0 <= k < known_loopback_names().len() && {
            let n = #[trigger] known_loopback_names()[k];
            contains_seq(line, "source="@ + n + ".monitor"@) || contains_seq(line, "source="@ + n)
                || contains_seq(line, "sink="@ + n)
        }
}

/// The module to unload for one line of `pactl list modules short`: a
/// loopback that references our nodes, by its leading numeric id.
pub open spec fn orphan_line(line: Seq<char>) -> Option<u32> {
    if contains_seq(line, "module-loopback"@) && references_known(line) && split_ws(line).len() > 0 {
        match parse_unsigned(split_ws(line)[0], u32::MAX as nat) {
            Some(n) => Some(n as u32),
            None => None,
        }
    } else {
        None
    }
}

fn known_names() -> (r: Vec<&'static str>)
    ensures
        r@.map_values(|s: &'static str| s@) == known_loopback_names(),
{
    let r = vec![
        "SteelSeries_Game", "SteelSeries_Chat", "SteelSeries_Music", "SteelSeries_Aux", "ChatMix_Game",
        "ChatMix_Chat", "ChatMix_Music", "ChatMix_Aux", "ChatMix_Mic",
    ];
    assert(r@.map_values(|s: &'static str| s@) =~= known_loopback_names());
    r
}

fn contains_joined(line: &Vec<char>, a: &str, b: &str, c: &str) -> (r: bool)
    ensures
        r == contains_seq(line@, a@ + b@ + c@),
{
    let mut p = crate::text::string_of_str(a);
    crate::text::append_str(&mut p, b);
    crate::text::append_str(&mut p, c);
    contains_str(line, p.as_str())
}

fn references_known_exec(line: &Vec<char>) -> (r: bool)
    ensures
        r == references_known(line@),
{
    let names = known_names();
    let ghost ks = known_loopback_names();
    let mut k: usize = 0;
    while k < names.len()
        invariant
            k <= names.len(),
            names@.map_values(|s: &'static str| s@) == ks,
            ks == known_loopback_names(),
            forall|j: int|
                0 <= j < k ==> !{
                    let n = #[trigger] ks[j];
                    contains_seq(line@, "source="@ + n + ".monitor"@) || contains_seq(line@, "source="@ + n)
                        || contains_seq(line@, "sink="@ + n)
                },
        decreases names.len() - k,
    {
        let n = names[k];
        assert(ks[k as int] == n@);
        let hit = contains_joined(line, "source=", n, ".monitor") || contains_joined(line, "source=", n, "")
            || contains_joined(line, "sink=", n, "");
        proof {
            reveal_strlit("");
            assert("source="@ + n@ + ""@ =~= "source="@ + n@);
            assert("sink="@ + n@ + ""@ =~= "sink="@ + n@);
        }
        if hit {
            return true;
        }
        k = k + 1;
    }
    false
}

/// The ids of the loopback modules left behind by earlier runs, in listing
/// order, from `pactl list modules short` output.
pub fn orphaned_loopback_ids(listing: &str) -> (r: Vec<u32>)
    ensures
        r@ == crate::text::filter_map(lines_seq(listing@), |l: Seq<char>| orphan_line(l)),
{
    let lines = lines_str(listing);
    let ghost ls = lines_seq(listing@);
    let ghost f = |l: Seq<char>| orphan_line(l);
    let mut out: Vec<u32> = Vec::new();
    let mut i: usize = 0;
    assert(out@ =~= crate::text::filter_map(ls.take(0), f));
    while i < lines.len()
        invariant
            i <= lines.len(),
            views(lines@) == ls,
            ls == lines_seq(listing@),
            f == (|l: Seq<char>| orphan_line(l)),
            out@ == crate::text::filter_map(ls.take(i as int), f),
        decreases lines.len() - i,
    {
        proof {
            crate::text::lemma_filter_map_step(ls, f, i as int);
        }
        assert(ls[i as int] == lines@[i as int]@);
        let line = &lines[i];
        if contains_str(line, "module-loopback") && references_known_exec(line) {
            let words = split_whitespace_chars(line);
            if words.len() > 0 {
                assert(words@[0]@ == split_ws(line@)[0]);
                match parse_u32_chars(&words[0]) {
                    Some(n) => out.push(n),
                    None => {},
                }
            }
        }
        i = i + 1;
    }
    assert(ls.take(lines.len() as int) =~= ls);
    out
}

} // verus!
