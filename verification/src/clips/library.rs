//! Clip metadata index: the tab-separated line format, reconciliation of the
//! index with the clips on disk, and in-place updates of index entries.
use vstd::prelude::*;

use crate::text::{
    append_chars, chars_eq, chars_of, decimal, decimal_chars, lemma_decimal, lemma_first_index,
    lemma_first_index_at, lemma_first_index_none, parse_u32_chars, parse_u64_chars,
    parse_unsigned, split_chars, split_seq, string_of, views,
};

verus! {

#[derive(Debug, Clone, Default, PartialEq, Eq)]
pub struct ClipMeta {
    pub filename: String,
    pub duration_ms: u64,
    pub created_unix: u64,
    pub bitrate_kbps: u32,
    pub resolution: String,
    /// User-facing label; empty for entries written before labels existed.
    pub display_name: String,
}

/// The abstract value of a ClipMeta: (filename, duration_ms, created_unix,
/// bitrate_kbps, resolution, display_name).
pub type MetaView = (Seq<char>, u64, u64, u32, Seq<char>, Seq<char>);

pub open spec fn meta_view(m: ClipMeta) -> MetaView {
    (m.filename@, m.duration_ms, m.created_unix, m.bitrate_kbps, m.resolution@, m.display_name@)
}

pub open spec fn tab() -> Seq<char> {
    seq!['\t']
}

/// `filename\tduration_ms\tcreated_unix\tbitrate_kbps\tresolution\tdisplay_name`.
pub open spec fn serialize_meta_spec(m: MetaView) -> Seq<char> {
    m.0 + tab() + decimal(m.1 as nat) + tab() + decimal(m.2 as nat) + tab() + decimal(m.3 as nat)
        + tab() + m.4 + tab() + m.5
}

/// One index line, read back. Five fields are the shape without a label;
/// six fields are the current shape when fields 3 and 4 read as numbers, and
/// otherwise the legacy shape whose third field was a game name (dropped).
/// Any other field count, or a number that does not parse, gives None.
pub open spec fn parse_meta_spec(line: Seq<char>) -> Option<MetaView> {
    let p = split_seq(line, '\t');
    let u64max = u64::MAX as nat;
    let u32max = u32::MAX as nat;
    if p.len() == 5 {
        match (parse_unsigned(p[1], u64max), parse_unsigned(p[2], u64max), parse_unsigned(p[3], u32max)) {
            (Some(d), Some(c), Some(b)) => Some((p[0], d as u64, c as u64, b as u32, p[4], seq![])),
            _ => None,
        }
    } else if p.len() == 6 {
        if parse_unsigned(p[2], u64max) is Some && parse_unsigned(p[3], u32max) is Some {
            match (parse_unsigned(p[1], u64max), parse_unsigned(p[2], u64max), parse_unsigned(p[3], u32max)) {
                (Some(d), Some(c), Some(b)) => Some((p[0], d as u64, c as u64, b as u32, p[4], p[5])),
                _ => None,
            }
        } else {
            match (parse_unsigned(p[1], u64max), parse_unsigned(p[3], u64max), parse_unsigned(p[4], u32max)) {
                (Some(d), Some(c), Some(b)) => Some((p[0], d as u64, c as u64, b as u32, p[5], seq![])),
                _ => None,
            }
        }
    } else {
        None
    }
}

/// Serialize a clip into one tab-separated index line.
pub fn serialize_meta(m: &ClipMeta) -> (s: String)
    ensures
        s@ == serialize_meta_spec(meta_view(*m)),
{
    let mut out = String::new();
    let tab_v = vec!['\t'];
    append_chars(&mut out, &chars_of(m.filename.as_str()));
    append_chars(&mut out, &tab_v);
    append_chars(&mut out, &decimal_chars(m.duration_ms));
    append_chars(&mut out, &tab_v);
    append_chars(&mut out, &decimal_chars(m.created_unix));
    append_chars(&mut out, &tab_v);
    append_chars(&mut out, &decimal_chars(m.bitrate_kbps as u64));
    append_chars(&mut out, &tab_v);
    append_chars(&mut out, &chars_of(m.resolution.as_str()));
    append_chars(&mut out, &tab_v);
    append_chars(&mut out, &chars_of(m.display_name.as_str()));
    assert(out@ =~= serialize_meta_spec(meta_view(*m)));
    out
}

/// Parse one index line (see `parse_meta_spec`).
pub fn parse_meta(line: &str) -> (r: Option<ClipMeta>)
    ensures
        match r {
            Some(m) => parse_meta_spec(line@) == Some(meta_view(m)),
            None => parse_meta_spec(line@) is None,
        },
{
    let v = chars_of(line);
    let parts = split_chars(&v, '\t');
    let ghost p = split_seq(line@, '\t');
    assert(views(parts@) == p);
    if parts.len() == 5 {
        assert(parts@[1]@ == p[1] && parts@[2]@ == p[2] && parts@[3]@ == p[3]);
        assert(parts@[0]@ == p[0] && parts@[4]@ == p[4]);
        let d = parse_u64_chars(&parts[1]);
        let c = parse_u64_chars(&parts[2]);
        let b = parse_u32_chars(&parts[3]);
        match (d, c, b) {
            (Some(d), Some(c), Some(b)) => {
                let m = ClipMeta {
                    filename: string_of(&parts[0]),
                    duration_ms: d,
                    created_unix: c,
                    bitrate_kbps: b,
                    resolution: string_of(&parts[4]),
                    display_name: String::new(),
                };
                Some(m)
            },
            _ => None,
        }
    } else if parts.len() == 6 {
        assert(parts@[1]@ == p[1] && parts@[2]@ == p[2] && parts@[3]@ == p[3]);
        assert(parts@[0]@ == p[0] && parts@[4]@ == p[4] && parts@[5]@ == p[5]);
        let new_shape = parse_u64_chars(&parts[2]).is_some() && parse_u32_chars(&parts[3]).is_some();
        if new_shape {
            let d = parse_u64_chars(&parts[1]);
            let c = parse_u64_chars(&parts[2]);
            let b = parse_u32_chars(&parts[3]);
            match (d, c, b) {
                (Some(d), Some(c), Some(b)) => Some(
                    ClipMeta {
                        filename: string_of(&parts[0]),
                        duration_ms: d,
                        created_unix: c,
                        bitrate_kbps: b,
                        resolution: string_of(&parts[4]),
                        display_name: string_of(&parts[5]),
                    },
                ),
                _ => None,
            }
        } else {
            let d = parse_u64_chars(&parts[1]);
            let c = parse_u64_chars(&parts[3]);
            let b = parse_u32_chars(&parts[4]);
            match (d, c, b) {
                (Some(d), Some(c), Some(b)) => Some(
                    ClipMeta {
                        filename: string_of(&parts[0]),
                        duration_ms: d,
                        created_unix: c,
                        bitrate_kbps: b,
                        resolution: string_of(&parts[5]),
                        display_name: String::new(),
                    },
                ),
                _ => None,
            }
        }
    } else {
        None
    }
}

/// `s` holds no tab.
pub open spec fn tab_free(s: Seq<char>) -> bool {
    forall|i: int| 0 <= i < s.len() ==> s[i] != '\t'
}

proof fn lemma_split_cons(a: Seq<char>, b: Seq<char>)
    requires
        tab_free(a),
    ensures
        split_seq(a + tab() + b, '\t') == seq![a] + split_seq(b, '\t'),
{
    let s = a + tab() + b;
    assert forall|j: int| 0 <= j < a.len() implies s[j] != '\t' by {
        assert(s[j] == a[j]);
    }
    assert(s[a.len() as int] == '\t');
    lemma_first_index_at(s, '\t', a.len() as int);
    assert(s.subrange(0, a.len() as int) =~= a);
    assert(s.subrange((a.len() + 1) as int, s.len() as int) =~= b);
}

proof fn lemma_split_single(a: Seq<char>)
    requires
        tab_free(a),
    ensures
        split_seq(a, '\t') == seq![a],
{
    lemma_first_index_none(a, '\t');
}

proof fn lemma_decimal_tab_free(n: nat)
    ensures
        tab_free(decimal(n)),
{
    lemma_decimal(n);
    assert forall|i: int| 0 <= i < decimal(n).len() implies decimal(n)[i] != '\t' by {
        assert(crate::text::is_digit(decimal(n)[i]));
    }
}

/// Reading back a serialized clip gives the same clip, provided filename,
/// resolution and display name hold no tab.
pub proof fn law_meta_round_trip(m: MetaView)
    requires
        tab_free(m.0),
        tab_free(m.4),
        tab_free(m.5),
    ensures
        parse_meta_spec(serialize_meta_spec(m)) == Some(m),
{
    let d1 = decimal(m.1 as nat);
    let d2 = decimal(m.2 as nat);
    let d3 = decimal(m.3 as nat);
    lemma_decimal_tab_free(m.1 as nat);
    lemma_decimal_tab_free(m.2 as nat);
    lemma_decimal_tab_free(m.3 as nat);
    let s5 = m.4 + tab() + m.5;
    let s4 = d3 + tab() + s5;
    let s3 = d2 + tab() + s4;
    let s2 = d1 + tab() + s3;
    let s1 = m.0 + tab() + s2;
    assert(serialize_meta_spec(m) =~= s1);
    lemma_split_cons(m.0, s2);
    lemma_split_cons(d1, s3);
    lemma_split_cons(d2, s4);
    lemma_split_cons(d3, s5);
    lemma_split_cons(m.4, m.5);
    lemma_split_single(m.5);
    let p = split_seq(s1, '\t');
    assert(p =~= seq![m.0, d1, d2, d3, m.4, m.5]);
    crate::text::lemma_parse_decimal(m.1 as nat, u64::MAX as nat);
    crate::text::lemma_parse_decimal(m.2 as nat, u64::MAX as nat);
    crate::text::lemma_parse_decimal(m.3 as nat, u32::MAX as nat);
}


impl ClipMeta {
    /// A copy equal to `self` in every field.
    pub fn duplicate(&self) -> (r: ClipMeta)
        ensures
            r == *self,
    {
        ClipMeta {
            filename: self.filename.clone(),
            duration_ms: self.duration_ms,
            created_unix: self.created_unix,
            bitrate_kbps: self.bitrate_kbps,
            resolution: self.resolution.clone(),
            display_name: self.display_name.clone(),
        }
    }
}

pub open spec fn metas_view(v: Seq<ClipMeta>) -> Seq<MetaView> {
    Seq::new(v.len(), |i: int| meta_view(v[i]))
}

/// A `.mp4` file found directly under the storage directory: its file name
/// and its modification time in unix seconds (0 where it could not be read).
pub open spec fn disk_view(d: Seq<(String, u64)>) -> Seq<(Seq<char>, u64)> {
    Seq::new(d.len(), |i: int| (d[i].0@, d[i].1))
}

/// The modification time recorded for `name` on disk (the last listing of
/// that name), or None when no such file is on disk.
pub open spec fn disk_mtime(d: Seq<(Seq<char>, u64)>, name: Seq<char>) -> Option<u64>
    decreases d.len(),
{
    if d.len() == 0 {
        None
    } else if d.last().0 == name {
        Some(d.last().1)
    } else {
        disk_mtime(d.drop_last(), name)
    }
}

/// The stamp to render a default display name from: None when the entry
/// already has a name; otherwise its creation time, or the file's mtime when
/// the creation time is unknown (0).
pub open spec fn name_stamp(m: MetaView, mtime: u64) -> Option<u64> {
    if m.5.len() == 0 {
        Some(if m.2 != 0 { m.2 } else { mtime })
    } else {
        None
    }
}

/// Index entries whose file is still on disk, in index order, each with its
/// display-name stamp.
pub open spec fn retained_spec(idx: Seq<MetaView>, d: Seq<(Seq<char>, u64)>) -> Seq<(MetaView, Option<u64>)>
    decreases idx.len(),
{
    if idx.len() == 0 {
        seq![]
    } else {
        let rest = retained_spec(idx.drop_last(), d);
        let m = idx.last();
        match disk_mtime(d, m.0) {
            None => rest,
            Some(mt) => rest.push((m, name_stamp(m, mt))),
        }
    }
}

pub open spec fn has_filename(known: Seq<(MetaView, Option<u64>)>, name: Seq<char>) -> bool {
    exists|i: int| 0 <= i < known.len() && (#[trigger] known[i]).0.0 == name
}

/// A fresh entry for a file the index does not know yet: no duration,
/// bitrate or resolution, created at the file's mtime.
pub open spec fn fresh_entry(name: Seq<char>, mtime: u64) -> (MetaView, Option<u64>) {
    ((name, 0, mtime, 0, seq![], seq![]), Some(mtime))
}

/// Fresh entries for the files on disk, in listing order, that `known` does
/// not hold.
pub open spec fn added_spec(d: Seq<(Seq<char>, u64)>, known: Seq<(MetaView, Option<u64>)>) -> Seq<(MetaView, Option<u64>)>
    decreases d.len(),
{
    if d.len() == 0 {
        seq![]
    } else {
        let rest = added_spec(d.drop_last(), known);
        if has_filename(known, d.last().0) {
            rest
        } else {
            rest.push(fresh_entry(d.last().0, d.last().1))
        }
    }
}

/// The index reconciled with the directory: entries whose file is gone are
/// dropped, and files that are not indexed are appended.
pub open spec fn reconcile_spec(idx: Seq<MetaView>, d: Seq<(Seq<char>, u64)>) -> Seq<(MetaView, Option<u64>)> {
    let kept = retained_spec(idx, d);
    kept + added_spec(d, kept)
}

/// One entry of a reconciled index.
#[derive(Debug, Clone)]
pub struct ReconciledClip {
    pub meta: ClipMeta,
    /// Unix seconds to render the default display name from; None when the
    /// entry already carries a display name.
    pub name_stamp: Option<u64>,
}

pub open spec fn reconciled_view(r: ReconciledClip) -> (MetaView, Option<u64>) {
    (meta_view(r.meta), r.name_stamp)
}

pub open spec fn reconciled_views(v: Seq<ReconciledClip>) -> Seq<(MetaView, Option<u64>)> {
    Seq::new(v.len(), |i: int| reconciled_view(v[i]))
}

fn find_on_disk(d: &Vec<(String, u64)>, name: &String) -> (r: Option<u64>)
    ensures
        r == disk_mtime(disk_view(d@), name@),
{
    let ghost dv = disk_view(d@);
    let mut i: usize = d.len();
    assert(dv.take(i as int) =~= dv);
    while i > 0
        invariant
            i <= d.len(),
            dv == disk_view(d@),
            disk_mtime(dv, name@) == disk_mtime(dv.take(i as int), name@),
        decreases i,
    {
        let ghost t = dv.take(i as int);
        assert(t.drop_last() =~= dv.take(i - 1));
        assert(t.last() == dv[i - 1]);
        if d[i - 1].0 == *name {
            return Some(d[i - 1].1);
        }
        i = i - 1;
    }
    assert(dv.take(0) =~= Seq::<(Seq<char>, u64)>::empty());
    None
}

fn known_name(v: &Vec<ReconciledClip>, upto: usize, name: &String) -> (r: bool)
    requires
        upto <= v.len(),
    ensures
        r == has_filename(reconciled_views(v@).take(upto as int), name@),
{
    let ghost k = reconciled_views(v@).take(upto as int);
    let mut i: usize = 0;
    while i < upto
        invariant
            i <= upto <= v.len(),
            k == reconciled_views(v@).take(upto as int),
            forall|j: int| 0 <= j < i ==> k[j].0.0 != name@,
        decreases upto - i,
    {
        assert(k[i as int].0.0 == v@[i as int].meta.filename@);
        if v[i].meta.filename == *name {
            assert(k[i as int].0.0 == name@);
            return true;
        }
        i = i + 1;
    }
    false
}

/// Reconcile the index with the `.mp4` files on disk (see `reconcile_spec`).
/// The caller renders a default display name for each entry that comes back
/// with a stamp.
pub fn reconcile(indexed: &Vec<ClipMeta>, on_disk: &Vec<(String, u64)>) -> (r: Vec<ReconciledClip>)
    ensures
        reconciled_views(r@) == reconcile_spec(metas_view(indexed@), disk_view(on_disk@)),
{
    let ghost iv = metas_view(indexed@);
    let ghost dv = disk_view(on_disk@);
    let mut out: Vec<ReconciledClip> = Vec::new();
    let mut i: usize = 0;
    while i < indexed.len()
        invariant
            i <= indexed.len(),
            iv == metas_view(indexed@),
            dv == disk_view(on_disk@),
            reconciled_views(out@) == retained_spec(iv.take(i as int), dv),
        decreases indexed.len() - i,
    {
        let ghost before = reconciled_views(out@);
        assert(iv.take(i + 1).drop_last() =~= iv.take(i as int));
        assert(iv.take(i + 1).last() == meta_view(indexed@[i as int]));
        let m = &indexed[i];
        match find_on_disk(on_disk, &m.filename) {
            None => {},
            Some(mt) => {
                let stamp = if m.display_name.as_str().is_empty() {
                    Some(if m.created_unix != 0 { m.created_unix } else { mt })
                } else {
                    None
                };
                out.push(ReconciledClip { meta: m.duplicate(), name_stamp: stamp });
                assert(reconciled_views(out@) =~= before.push((meta_view(*m), stamp)));
            },
        }
        i = i + 1;
    }
    assert(iv.take(indexed.len() as int) =~= iv);
    let kept_len = out.len();
    let ghost kept = reconciled_views(out@);
    let mut j: usize = 0;
    while j < on_disk.len()
        invariant
            j <= on_disk.len(),
            kept_len <= out.len(),
            dv == disk_view(on_disk@),
            kept == reconciled_views(out@).take(kept_len as int),
            reconciled_views(out@) == kept + added_spec(dv.take(j as int), kept),
        decreases on_disk.len() - j,
    {
        let ghost before = reconciled_views(out@);
        assert(dv.take(j + 1).drop_last() =~= dv.take(j as int));
        assert(dv.take(j + 1).last() == dv[j as int]);
        let (name, mt) = (&on_disk[j].0, on_disk[j].1);
        let known = known_name(&out, kept_len, name);
        if !known {
            let fresh = ClipMeta {
                filename: name.clone(),
                duration_ms: 0,
                created_unix: mt,
                bitrate_kbps: 0,
                resolution: String::new(),
                display_name: String::new(),
            };
            out.push(ReconciledClip { meta: fresh, name_stamp: Some(mt) });
            assert(reconciled_views(out@) =~= before.push(fresh_entry(name@, mt)));
            assert(reconciled_views(out@).take(kept_len as int) =~= before.take(kept_len as int));
        }
        j = j + 1;
    }
    assert(dv.take(on_disk.len() as int) =~= dv);
    out
}


/// What ffprobe reported for entry `i`, if it was probed at all.
pub open spec fn probed_at(p: Seq<Option<u64>>, i: int) -> Option<u64> {
    if 0 <= i < p.len() {
        p[i]
    } else {
        None
    }
}

/// An entry after duration backfill: a zero duration takes the probed one.
pub open spec fn backfilled(m: MetaView, probe: Option<u64>) -> MetaView {
    if m.1 == 0 {
        match probe {
            Some(ms) => (m.0, ms, m.2, m.3, m.4, m.5),
            None => m,
        }
    } else {
        m
    }
}

/// Fill the zero durations of the index from the probe results
/// (`probed[i]` belongs to `idx[i]`; a missing or failed probe leaves the
/// entry alone). Returns whether any entry was filled, i.e. whether the
/// index must be written back.
pub fn backfill_durations(idx: &mut Vec<ClipMeta>, probed: &Vec<Option<u64>>) -> (changed: bool)
    ensures
        final(idx)@.len() == old(idx)@.len(),
        forall|i: int|
            0 <= i < old(idx)@.len() ==> meta_view(#[trigger] final(idx)@[i]) == backfilled(
                meta_view(old(idx)@[i]),
                probed_at(probed@, i),
            ),
        changed == exists|i: int|
            0 <= i < old(idx)@.len() && (#[trigger] old(idx)@[i]).duration_ms == 0
                && probed_at(probed@, i) is Some,
{
    let ghost orig = idx@;
    let mut out: Vec<ClipMeta> = Vec::new();
    let mut changed = false;
    let mut i: usize = 0;
    while i < idx.len()
        invariant
            i <= idx.len(),
            idx@ == orig,
            out@.len() == i,
            forall|k: int|
                0 <= k < i ==> meta_view(#[trigger] out@[k]) == backfilled(
                    meta_view(orig[k]),
                    probed_at(probed@, k),
                ),
            changed == exists|k: int|
                0 <= k < i && (#[trigger] orig[k]).duration_ms == 0 && probed_at(probed@, k) is Some,
        decreases idx.len() - i,
    {
        let mut m = idx[i].duplicate();
        if m.duration_ms == 0 && i < probed.len() {
            match probed[i] {
                Some(ms) => {
                    m.duration_ms = ms;
                    changed = true;
                },
                None => {},
            }
        }
        out.push(m);
        i = i + 1;
    }
    *idx = out;
    changed
}

/// Give every index entry for `filename` the display name `new_name`.
/// Returns whether any entry matched, i.e. whether the index must be
/// written back.
pub fn set_display_name(idx: &mut Vec<ClipMeta>, filename: &str, new_name: &str) -> (changed: bool)
    ensures
        final(idx)@.len() == old(idx)@.len(),
        forall|i: int|
            0 <= i < old(idx)@.len() ==> {
                let m = meta_view(old(idx)@[i]);
                meta_view(#[trigger] final(idx)@[i]) == if m.0 == filename@ {
                    (m.0, m.1, m.2, m.3, m.4, new_name@)
                } else {
                    m
                }
            },
        changed == exists|i: int|
            0 <= i < old(idx)@.len() && (#[trigger] old(idx)@[i]).filename@ == filename@,
{
    let ghost orig = idx@;
    let target = filename.to_owned();
    let mut out: Vec<ClipMeta> = Vec::new();
    let mut changed = false;
    let mut i: usize = 0;
    while i < idx.len()
        invariant
            i <= idx.len(),
            idx@ == orig,
            target@ == filename@,
            out@.len() == i,
            forall|k: int|
                0 <= k < i ==> {
                    let m = meta_view(orig[k]);
                    meta_view(#[trigger] out@[k]) == if m.0 == filename@ {
                        (m.0, m.1, m.2, m.3, m.4, new_name@)
                    } else {
                        m
                    }
                },
            changed == exists|k: int| 0 <= k < i && (#[trigger] orig[k]).filename@ == filename@,
        decreases idx.len() - i,
    {
        let mut m = idx[i].duplicate();
        if m.filename == target {
            m.display_name = new_name.to_owned();
            changed = true;
        }
        out.push(m);
        i = i + 1;
    }
    *idx = out;
    changed
}


proof fn lemma_disk_mtime_some(d: Seq<(Seq<char>, u64)>, n: Seq<char>)
    ensures
        disk_mtime(d, n) is Some <==> exists|i: int| 0 <= i < d.len() && (#[trigger] d[i]).0 == n,
    decreases d.len(),
{
    if d.len() > 0 {
        let dl = d.drop_last();
        lemma_disk_mtime_some(dl, n);
        if d.last().0 == n {
            assert(d[d.len() - 1].0 == n);
        } else {
            if exists|i: int| 0 <= i < d.len() && (#[trigger] d[i]).0 == n {
                let i = choose|i: int| 0 <= i < d.len() && (#[trigger] d[i]).0 == n;
                assert(dl[i] == d[i]);
            }
            if exists|i: int| 0 <= i < dl.len() && (#[trigger] dl[i]).0 == n {
                let i = choose|i: int| 0 <= i < dl.len() && (#[trigger] dl[i]).0 == n;
                assert(d[i] == dl[i]);
            }
        }
    }
}

proof fn lemma_retained_on_disk(idx: Seq<MetaView>, d: Seq<(Seq<char>, u64)>)
    ensures
        forall|k: int|
            0 <= k < retained_spec(idx, d).len() ==> disk_mtime(d, (#[trigger] retained_spec(idx, d)[k]).0.0) is Some,
    decreases idx.len(),
{
    if idx.len() > 0 {
        lemma_retained_on_disk(idx.drop_last(), d);
    }
}

proof fn lemma_added_from_disk(d: Seq<(Seq<char>, u64)>, known: Seq<(MetaView, Option<u64>)>)
    ensures
        forall|k: int|
            0 <= k < added_spec(d, known).len() ==> disk_mtime(d, (#[trigger] added_spec(d, known)[k]).0.0) is Some,
    decreases d.len(),
{
    if d.len() > 0 {
        let dl = d.drop_last();
        lemma_added_from_disk(dl, known);
        let a = added_spec(d, known);
        assert forall|k: int| 0 <= k < a.len() implies disk_mtime(d, (#[trigger] a[k]).0.0) is Some by {
            lemma_disk_mtime_some(d, a[k].0.0);
            lemma_disk_mtime_some(dl, a[k].0.0);
            if k < added_spec(dl, known).len() {
                assert(a[k] == added_spec(dl, known)[k]);
                let i = choose|i: int| 0 <= i < dl.len() && (#[trigger] dl[i]).0 == a[k].0.0;
                assert(d[i] == dl[i]);
            } else {
                assert(a[k].0.0 == d[d.len() - 1].0);
            }
        }
    }
}

proof fn lemma_disk_covered(d: Seq<(Seq<char>, u64)>, known: Seq<(MetaView, Option<u64>)>)
    ensures
        forall|i: int|
            0 <= i < d.len() ==> has_filename(known, (#[trigger] d[i]).0) || has_filename(
                added_spec(d, known),
                d[i].0,
            ),
    decreases d.len(),
{
    if d.len() > 0 {
        let dl = d.drop_last();
        lemma_disk_covered(dl, known);
        let a = added_spec(d, known);
        let al = added_spec(dl, known);
        assert forall|i: int| 0 <= i < d.len() implies has_filename(known, (#[trigger] d[i]).0)
            || has_filename(a, d[i].0) by {
            if i < d.len() - 1 {
                assert(dl[i] == d[i]);
                if !has_filename(known, d[i].0) {
                    assert(has_filename(al, d[i].0));
                    let k = choose|k: int| 0 <= k < al.len() && (#[trigger] al[k]).0.0 == d[i].0;
                    assert(a[k] == al[k]);
                }
            } else if !has_filename(known, d[i].0) {
                assert(a[a.len() - 1].0.0 == d[i].0);
            }
        }
    }
}

/// After reconciling, every entry names a file that is on disk, and every
/// file on disk has an entry.
pub proof fn law_reconcile_matches_disk(idx: Seq<MetaView>, d: Seq<(Seq<char>, u64)>)
    ensures
        forall|k: int|
            0 <= k < reconcile_spec(idx, d).len() ==> disk_mtime(d, (#[trigger] reconcile_spec(idx, d)[k]).0.0) is Some,
        forall|i: int| 0 <= i < d.len() ==> has_filename(reconcile_spec(idx, d), (#[trigger] d[i]).0),
{
    let kept = retained_spec(idx, d);
    let a = added_spec(d, kept);
    let r = reconcile_spec(idx, d);
    lemma_retained_on_disk(idx, d);
    lemma_added_from_disk(d, kept);
    lemma_disk_covered(d, kept);
    assert forall|k: int| 0 <= k < r.len() implies disk_mtime(d, (#[trigger] r[k]).0.0) is Some by {
        if k < kept.len() {
            assert(r[k] == kept[k]);
        } else {
            assert(r[k] == a[k - kept.len()]);
        }
    }
    assert forall|i: int| 0 <= i < d.len() implies has_filename(r, (#[trigger] d[i]).0) by {
        if has_filename(kept, d[i].0) {
            let k = choose|k: int| 0 <= k < kept.len() && (#[trigger] kept[k]).0.0 == d[i].0;
            assert(r[k] == kept[k]);
        } else {
            let k = choose|k: int| 0 <= k < a.len() && (#[trigger] a[k]).0.0 == d[i].0;
            assert(r[kept.len() + k] == a[k]);
        }
    }
}

/// A display name the entry already has survives reconciliation: retained
/// entries come back unchanged, and only those without a name get a stamp.
pub proof fn law_reconcile_keeps_names(idx: Seq<MetaView>, d: Seq<(Seq<char>, u64)>)
    ensures
        forall|k: int|
            0 <= k < retained_spec(idx, d).len() ==> {
                let e = #[trigger] retained_spec(idx, d)[k];
                (e.1 is None <==> e.0.5.len() > 0)
            },
        forall|k: int|
            0 <= k < retained_spec(idx, d).len() ==> reconcile_spec(idx, d)[k] == retained_spec(idx, d)[k],
    decreases idx.len(),
{
    if idx.len() > 0 {
        law_reconcile_keeps_names(idx.drop_last(), d);
    }
}


// ---------------------------------------------------------------------------
// Disk cap
// ---------------------------------------------------------------------------

/// The total size of the clips, in bytes.
pub open spec fn sum_sizes(sizes: Seq<u64>) -> nat
    decreases sizes.len(),
{
    if sizes.len() == 0 {
        0
    } else {
        sum_sizes(sizes.drop_last()) + sizes.last() as nat
    }
}

/// Bytes occupied by the `.mp4` files whose sizes are given.
pub fn total_bytes(sizes: &Vec<u64>) -> (r: u64)
    requires
        sum_sizes(sizes@) <= u64::MAX,
    ensures
        r == sum_sizes(sizes@),
{
    let mut total: u64 = 0;
    let mut i: usize = 0;
    while i < sizes.len()
        invariant
            i <= sizes.len(),
            sum_sizes(sizes@) <= u64::MAX,
            total == sum_sizes(sizes@.take(i as int)),
        decreases sizes.len() - i,
    {
        assert(sizes@.take(i + 1).drop_last() =~= sizes@.take(i as int));
        proof {
            lemma_sum_prefix(sizes@, i + 1);
        }
        total = total + sizes[i];
        i = i + 1;
    }
    assert(sizes@.take(sizes.len() as int) =~= sizes@);
    total
}

proof fn lemma_sum_prefix(s: Seq<u64>, k: int)
    requires
        0 <= k <= s.len(),
    ensures
        sum_sizes(s.take(k)) <= sum_sizes(s),
    decreases s.len(),
{
    if k < s.len() {
        assert(s.drop_last().take(k) =~= s.take(k));
        lemma_sum_prefix(s.drop_last(), k);
    } else {
        assert(s.take(k) =~= s);
    }
}

/// The cap in bytes: `cap_gb` GiB.
pub open spec fn cap_bytes_spec(cap_gb: u32) -> nat {
    cap_gb as nat * 1073741824
}

pub fn cap_bytes(cap_gb: u32) -> (r: u64)
    ensures
        r == cap_bytes_spec(cap_gb),
{
    assert(cap_gb as nat * 1073741824 <= u64::MAX) by (nonlinear_arith)
        requires
            cap_gb <= u32::MAX,
    ;
    (cap_gb as u64) * 1073741824
}

/// `order` lists the indices `0..n` once each.
pub open spec fn is_permutation(order: Seq<usize>, n: nat) -> bool {
    &&& order.len() == n
    &&& forall|i: int| 0 <= i < order.len() ==> (#[trigger] order[i]) < n
    &&& forall|i: int, j: int| 0 <= i < j < order.len() ==> (#[trigger] order[i]) != (#[trigger] order[j])
}

/// `order` lists indices by increasing key, equal keys by increasing index.
pub open spec fn stably_sorted(order: Seq<usize>, keys: Seq<u64>) -> bool {
    forall|i: int, j: int|
        0 <= i < j < order.len() ==> keys[(#[trigger] order[i]) as int] < keys[(#[trigger] order[j]) as int] || (
        keys[order[i] as int] == keys[order[j] as int] && order[i] < order[j])
}

/// The indices of the clips, oldest modification time first; clips with the
/// same time keep their listing order.
pub fn oldest_first(mtimes: &Vec<u64>) -> (r: Vec<usize>)
    ensures
        is_permutation(r@, mtimes@.len()),
        stably_sorted(r@, mtimes@),
{
    let mut out: Vec<usize> = Vec::new();
    let mut k: usize = 0;
    while k < mtimes.len()
        invariant
            k <= mtimes.len(),
            is_permutation(out@, k as nat),
            stably_sorted(out@, mtimes@),
        decreases mtimes.len() - k,
    {
        let key = mtimes[k];
        let mut p: usize = 0;
        while p < out.len() && mtimes[out[p]] <= key
            invariant
                p <= out.len(),
                k < mtimes.len(),
                key == mtimes@[k as int],
                is_permutation(out@, k as nat),
                forall|i: int| 0 <= i < p ==> mtimes@[(#[trigger] out@[i]) as int] <= key,
            decreases out.len() - p,
        {
            p = p + 1;
        }
        let ghost before = out@;
        proof {
            if p < out.len() {
                assert(mtimes@[before[p as int] as int] > key);
            }
        }
        out.insert(p, k);
        assert(out@ == before.insert(p as int, k));
        assert forall|i: int, j: int| 0 <= i < j < out@.len() implies (#[trigger] out@[i]) != (#[trigger] out@[j]) by {
            if i < p && j < p {
                assert(out@[i] == before[i] && out@[j] == before[j]);
            } else if i < p && j == p {
                assert(out@[i] == before[i]);
            } else if i < p {
                assert(out@[i] == before[i] && out@[j] == before[j - 1]);
            } else if i == p {
                assert(out@[j] == before[j - 1]);
            } else {
                assert(out@[i] == before[i - 1] && out@[j] == before[j - 1]);
            }
        }
        assert forall|i: int| 0 <= i < out@.len() implies (#[trigger] out@[i]) < k + 1 by {
            if i < p {
                assert(out@[i] == before[i]);
            } else if i > p {
                assert(out@[i] == before[i - 1]);
            }
        }
        assert forall|i: int, j: int| 0 <= i < j < out@.len() implies mtimes@[(#[trigger] out@[i]) as int]
            < mtimes@[(#[trigger] out@[j]) as int] || (mtimes@[out@[i] as int] == mtimes@[out@[j] as int]
            && out@[i] < out@[j]) by {
            if i < p && j < p {
                assert(out@[i] == before[i] && out@[j] == before[j]);
            } else if i < p && j == p {
                assert(out@[i] == before[i]);
            } else if i < p {
                assert(out@[i] == before[i] && out@[j] == before[j - 1]);
                assert(mtimes@[before[p as int] as int] > key);
                if j - 1 > p {
                    assert(mtimes@[before[p as int] as int] <= mtimes@[before[j - 1] as int]);
                }
            } else if i == p {
                assert(out@[j] == before[j - 1]);
                assert(mtimes@[before[p as int] as int] > key);
                if j - 1 > p {
                    assert(mtimes@[before[p as int] as int] <= mtimes@[before[j - 1] as int]);
                }
            } else {
                assert(out@[i] == before[i - 1] && out@[j] == before[j - 1]);
            }
        }
        k = k + 1;
    }
    out
}

/// One run of the disk-cap enforcement: clips are tried oldest first until
/// the total is within the cap; a clip whose deletion fails is skipped.
/// The caller deletes the clip `next` names and reports with `record`.
pub struct RetentionRun {
    order: Vec<usize>,
    sizes: Vec<u64>,
    pos: usize,
    total: u64,
    cap: u64,
    deleted: Vec<usize>,
}

/// The state of a run: the order, the sizes, how many clips were tried, the
/// total left, the cap, and the clips deleted so far.
pub struct RetentionView {
    pub order: Seq<usize>,
    pub sizes: Seq<u64>,
    pub pos: nat,
    pub total: u64,
    pub cap: u64,
    pub deleted: Seq<usize>,
}

impl View for RetentionRun {
    type V = RetentionView;

    closed spec fn view(&self) -> RetentionView {
        RetentionView {
            order: self.order@,
            sizes: self.sizes@,
            pos: self.pos as nat,
            total: self.total,
            cap: self.cap,
            deleted: self.deleted@,
        }
    }
}

/// The clip to try next, if the run goes on.
pub open spec fn retention_next(v: RetentionView) -> Option<usize> {
    if v.total <= v.cap || v.pos >= v.order.len() {
        None
    } else {
        Some(v.order[v.pos as int])
    }
}

pub open spec fn retention_wf(v: RetentionView) -> bool {
    &&& v.pos <= v.order.len()
    &&& is_permutation(v.order, v.sizes.len())
}

impl RetentionRun {
    /// A run is well formed at every step (see `retention_wf`).
    #[verifier::type_invariant]
    spec fn inv(self) -> bool {
        retention_wf(self@)
    }

    /// Start a run over clips with these (mtime, size) pairs, `total` bytes
    /// in all and a cap of `cap_gb` GiB.
    pub fn new(clips: &Vec<(u64, u64)>, total: u64, cap_gb: u32) -> (r: RetentionRun)
        ensures
            retention_wf(r@),
            r@.pos == 0,
            r@.total == total,
            r@.cap == cap_bytes_spec(cap_gb),
            r@.deleted == Seq::<usize>::empty(),
            r@.sizes == clips@.map_values(|c: (u64, u64)| c.1),
            stably_sorted(r@.order, clips@.map_values(|c: (u64, u64)| c.0)),
    {
        let mut mtimes: Vec<u64> = Vec::new();
        let mut sizes: Vec<u64> = Vec::new();
        let mut i: usize = 0;
        while i < clips.len()
            invariant
                i <= clips.len(),
                mtimes@ == clips@.take(i as int).map_values(|c: (u64, u64)| c.0),
                sizes@ == clips@.take(i as int).map_values(|c: (u64, u64)| c.1),
            decreases clips.len() - i,
        {
            mtimes.push(clips[i].0);
            sizes.push(clips[i].1);
            assert(mtimes@ =~= clips@.take(i + 1).map_values(|c: (u64, u64)| c.0));
            assert(sizes@ =~= clips@.take(i + 1).map_values(|c: (u64, u64)| c.1));
            i = i + 1;
        }
        assert(clips@.take(clips.len() as int) =~= clips@);
        let order = oldest_first(&mtimes);
        RetentionRun { order, sizes, pos: 0, total, cap: cap_bytes(cap_gb), deleted: Vec::new() }
    }

    /// The clip to delete next, or None when the total is within the cap or
    /// every clip was tried.
    pub fn next(&self) -> (r: Option<usize>)
        ensures
            r == retention_next(self@),
    {
        proof {
            use_type_invariant(self);
        }
        if self.total <= self.cap || self.pos >= self.order.len() {
            None
        } else {
            Some(self.order[self.pos])
        }
    }

    /// Report whether deleting the clip `next` named succeeded: a deleted
    /// clip's size leaves the total (down to zero at most).
    pub fn record(&mut self, removed: bool)
        requires
            retention_next(old(self)@) is Some,
        ensures
            retention_wf(final(self)@),
            ({
                let o = old(self)@;
                let i = o.order[o.pos as int];
                final(self)@ == (RetentionView {
                    pos: o.pos + 1,
                    total: if removed {
                        if o.total >= o.sizes[i as int] { (o.total - o.sizes[i as int]) as u64 } else { 0u64 }
                    } else {
                        o.total
                    },
                    deleted: if removed { o.deleted.push(i) } else { o.deleted },
                    ..o
                })
            }),
    {
        proof {
            use_type_invariant(&*self);
        }
        let n = self.order.len();
        assert(self.pos < n);
        let i = self.order[self.pos];
        if removed {
            self.total = self.total.saturating_sub(self.sizes[i]);
            let mut d: Vec<usize> = Vec::new();
            std::mem::swap(&mut d, &mut self.deleted);
            d.push(i);
            self.deleted = d;
        }
        self.pos = self.pos + 1;
    }

    /// The clips deleted so far, oldest first.
    pub fn deleted(&self) -> (r: Vec<usize>)
        ensures
            r@ == self@.deleted,
    {
        self.deleted.clone()
    }
}


// ---------------------------------------------------------------------------
// File name collisions
// ---------------------------------------------------------------------------

/// `base.ext`.
pub open spec fn plain_name(base: Seq<char>, ext: Seq<char>) -> Seq<char> {
    base + seq!['.'] + ext
}

/// `base-n.ext`.
pub open spec fn numbered_name(base: Seq<char>, ext: Seq<char>, n: nat) -> Seq<char> {
    base + seq!['-'] + decimal(n) + seq!['.'] + ext
}

fn numbered(base: &str, ext: &str, n: u64) -> (r: String)
    ensures
        r@ == numbered_name(base@, ext@, n as nat),
{
    let mut s = crate::text::string_of_str(base);
    crate::text::push_char(&mut s, '-');
    crate::text::append_str(&mut s, crate::text::decimal_string(n).as_str());
    crate::text::push_char(&mut s, '.');
    crate::text::append_str(&mut s, ext);
    s
}

/// `taken` was asked about `name` and answered `b`.
pub open spec fn answered<F: Fn(&str) -> bool>(taken: F, name: Seq<char>, b: bool) -> bool {
    exists|p: &str| p@ == name && #[trigger] call_ensures(taken, (p,), b)
}

/// A file name that does not clobber an existing file: `base.ext`, else the
/// first free of `base-2.ext` .. `base-999.ext`, else `base-<pid>.ext`.
/// `taken` says whether a name is in use.
pub fn resolve_collision<F: Fn(&str) -> bool>(base: &str, ext: &str, taken: F, pid: u32) -> (r: String)
    requires
        forall|p: &str| #[trigger] taken.requires((p,)),
    ensures
        (r@ == plain_name(base@, ext@) && answered(taken, plain_name(base@, ext@), false)) || (exists|n: nat|
            2 <= n < 1000 && r@ == numbered_name(base@, ext@, n) && answered(taken, numbered_name(base@, ext@, n), false)
                && answered(taken, plain_name(base@, ext@), true) && forall|m: nat|
                2 <= m < n ==> answered(taken, #[trigger] numbered_name(base@, ext@, m), true)) || (r@
            == numbered_name(base@, ext@, pid as nat) && answered(taken, plain_name(base@, ext@), true) && forall|m: nat|
            2 <= m < 1000 ==> answered(taken, #[trigger] numbered_name(base@, ext@, m), true)),
{
    let mut first = crate::text::string_of_str(base);
    crate::text::push_char(&mut first, '.');
    crate::text::append_str(&mut first, ext);
    let p0 = first.as_str();
    let t0 = taken(p0);
    assert(p0@ =~= plain_name(base@, ext@));
    assert(call_ensures(taken, (p0,), t0));
    assert(answered(taken, plain_name(base@, ext@), t0));
    if !t0 {
        return first;
    }
    let mut n: u64 = 2;
    while n < 1000
        invariant
            2 <= n <= 1000,
            forall|p: &str| #[trigger] taken.requires((p,)),
            answered(taken, plain_name(base@, ext@), true),
            forall|m: nat| 2 <= m < n ==> answered(taken, #[trigger] numbered_name(base@, ext@, m), true),
        decreases 1000 - n,
    {
        let c = numbered(base, ext, n);
        let pc = c.as_str();
        let t = taken(pc);
        assert(call_ensures(taken, (pc,), t));
        assert(answered(taken, numbered_name(base@, ext@, n as nat), t));
        if !t {
            return c;
        }
        n = n + 1;
    }
    numbered(base, ext, pid as u64)
}

// ---------------------------------------------------------------------------
// The clips on disk
// ---------------------------------------------------------------------------

/// A file of the storage directory that is a clip: its name ends in `.mp4`.
pub fn is_clip_file(name: &str) -> (r: bool)
    ensures
        r == crate::text::ends_with(name@, ".mp4"@),
{
    crate::text::ends_with_str(&chars_of(name), ".mp4")
}

// ---------------------------------------------------------------------------
// Default display names
// ---------------------------------------------------------------------------

/// The text with every run of spaces shortened to one space.
pub open spec fn squeeze_spaces(s: Seq<char>) -> Seq<char>
    decreases s.len(),
{
    if s.len() == 0 {
        s
    } else {
        let r = squeeze_spaces(s.drop_last());
        if s.last() == ' ' && r.len() > 0 && r.last() == ' ' {
            r
        } else {
            r.push(s.last())
        }
    }
}

/// A clip's default label from its rendered date (`%B %e, %Y - %l:%M %p`):
/// the padding spaces of single-digit days and hours collapsed, the ends
/// trimmed.
pub fn tidy_display_name(raw: &str) -> (r: String)
    ensures
        r@ == crate::text::trim(squeeze_spaces(raw@)),
{
    let v = chars_of(raw);
    let mut out: Vec<char> = Vec::new();
    let mut i: usize = 0;
    assert(v@.take(0) =~= Seq::<char>::empty());
    while i < v.len()
        invariant
            i <= v.len(),
            v@ == raw@,
            out@ == squeeze_spaces(v@.take(i as int)),
        decreases v.len() - i,
    {
        assert(v@.take(i + 1).drop_last() =~= v@.take(i as int));
        assert(v@.take(i + 1).last() == v@[i as int]);
        let c = v[i];
        if !(c == ' ' && out.len() > 0 && out[out.len() - 1] == ' ') {
            out.push(c);
        }
        i = i + 1;
    }
    assert(v@.take(v.len() as int) =~= v@);
    string_of(&crate::text::trim_chars(&out))
}

} // verus!
