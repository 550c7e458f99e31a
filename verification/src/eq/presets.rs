//! Where EQ presets and the per-sink EQ state live, the built-in preset
//! names, the names of saved custom presets, and the state file's line
//! format. Band values are floats and are read and written by the caller.
use vstd::prelude::*;

use crate::eq::model::{filter_from_key, target_for_sink, target_sink, EqTarget, FilterType};
use crate::paths::{
    base_name, config_base, config_base_spec, join, join_opt, join_spec, opt_str, split_path,
    stem_of,
};
use crate::text::{
    append_str, chars_eq_str, chars_of, ends_with, ends_with_str, lines_seq, lines_str, push_char,
    split_chars, split_once, split_once_chars, split_seq, string_of, string_of_str, string_views,
    views,
};

verus! {

pub open spec fn config_dir_spec(xdg_config_home: Option<Seq<char>>, home: Option<Seq<char>>) -> Option<Seq<char>> {
    join_opt(config_base_spec(xdg_config_home, home), "arctis-chatmix"@)
}

/// This app's configuration directory.
pub fn config_dir(xdg_config_home: Option<&str>, home: Option<&str>) -> (r: Option<String>)
    ensures
        match r {
            Some(p) => config_dir_spec(opt_str(xdg_config_home), opt_str(home)) == Some(p@),
            None => config_dir_spec(opt_str(xdg_config_home), opt_str(home)) is None,
        },
{
    match config_base(xdg_config_home, home) {
        Some(b) => Some(join(b.as_str(), "arctis-chatmix")),
        None => None,
    }
}

/// The directory of saved custom presets.
pub fn presets_dir(xdg_config_home: Option<&str>, home: Option<&str>) -> (r: Option<String>)
    ensures
        match r {
            Some(p) => join_opt(config_dir_spec(opt_str(xdg_config_home), opt_str(home)), "eq_presets"@) == Some(p@),
            None => config_dir_spec(opt_str(xdg_config_home), opt_str(home)) is None,
        },
{
    match config_dir(xdg_config_home, home) {
        Some(d) => Some(join(d.as_str(), "eq_presets")),
        None => None,
    }
}

/// The per-sink EQ state file.
pub fn eq_state_path(xdg_config_home: Option<&str>, home: Option<&str>) -> (r: Option<String>)
    ensures
        match r {
            Some(p) => join_opt(config_dir_spec(opt_str(xdg_config_home), opt_str(home)), "eq_state.txt"@) == Some(p@),
            None => config_dir_spec(opt_str(xdg_config_home), opt_str(home)) is None,
        },
{
    match config_dir(xdg_config_home, home) {
        Some(d) => Some(join(d.as_str(), "eq_state.txt")),
        None => None,
    }
}

pub open spec fn built_in_names_spec() -> Seq<Seq<char>> {
    seq![
        "Flat"@, "Bass Boost"@, "Treble Boost"@, "V-Shape"@, "FPS Competitive"@, "Vocal Clarity"@,
        "Warm"@
    ]
}

/// The built-in presets, in menu order.
pub fn built_in_names() -> (r: Vec<&'static str>)
    ensures
        r@.map_values(|s: &'static str| s@) == built_in_names_spec(),
{
    let r = vec!["Flat", "Bass Boost", "Treble Boost", "V-Shape", "FPS Competitive", "Vocal Clarity", "Warm"];
    assert(r@.map_values(|s: &'static str| s@) =~= built_in_names_spec());
    r
}

/// The file a custom preset is saved in: `<name>.txt` in the presets
/// directory.
pub fn custom_preset_path(presets_dir: &str, name: &str) -> (r: String)
    ensures
        r@ == join_spec(presets_dir@, name@ + ".txt"@),
{
    let mut f = string_of_str(name);
    append_str(&mut f, ".txt");
    join(presets_dir, f.as_str())
}

/// The preset a file in the presets directory holds: its stem, when its
/// extension is `txt`.
pub open spec fn preset_name_of(file_name: Seq<char>) -> Option<Seq<char>> {
    let n = base_name(file_name);
    if n.len() > 4 && ends_with(n, ".txt"@) {
        stem_of(n)
    } else {
        None
    }
}

pub fn preset_name_from_file(file_name: &str) -> (r: Option<String>)
    ensures
        match r {
            Some(s) => preset_name_of(file_name@) == Some(s@),
            None => preset_name_of(file_name@) is None,
        },
{
    let (_, n) = split_path(file_name);
    if n.len() > 4 && ends_with_str(&n, ".txt") {
        match crate::paths::file_stem(&n) {
            Some(s) => Some(string_of(&s)),
            None => None,
        }
    } else {
        None
    }
}

/// One line of the EQ state file: the sink's node name, the preset name
/// (`custom` for none) and the band data, tab-separated; the band data may
/// itself hold tabs. Lines for unknown sinks are skipped.
pub open spec fn eq_state_line_spec(line: Seq<char>) -> Option<(EqTarget, Option<Seq<char>>, Seq<char>)> {
    match split_once(line, '\t') {
        Some((sink, rest)) => match split_once(rest, '\t') {
            Some((preset, data)) => match target_for_sink(sink) {
                Some(t) => Some((t, if preset == "custom"@ { None } else { Some(preset) }, data)),
                None => None,
            },
            None => None,
        },
        None => None,
    }
}

/// A parsed line of the EQ state file.
pub struct EqStateLine {
    pub target: EqTarget,
    pub preset_name: Option<String>,
    pub band_data: String,
}

pub open spec fn eq_state_line_view(l: EqStateLine) -> (EqTarget, Option<Seq<char>>, Seq<char>) {
    (l.target, match l.preset_name { Some(p) => Some(p@), None => None }, l.band_data@)
}

pub fn parse_eq_state_line(line: &str) -> (r: Option<EqStateLine>)
    ensures
        match r {
            Some(l) => eq_state_line_spec(line@) == Some(eq_state_line_view(l)),
            None => eq_state_line_spec(line@) is None,
        },
{
    let v = chars_of(line);
    let (sink, rest) = match split_once_chars(&v, '\t') {
        Some(p) => p,
        None => {
            return None;
        },
    };
    let (preset, data) = match split_once_chars(&rest, '\t') {
        Some(p) => p,
        None => {
            return None;
        },
    };
    let sink_s = string_of(&sink);
    match EqTarget::for_sink(sink_s.as_str()) {
        Some(t) => {
            let p = if chars_eq_str(&preset, "custom") {
                None
            } else {
                Some(string_of(&preset))
            };
            Some(EqStateLine { target: t, preset_name: p, band_data: string_of(&data) })
        },
        None => None,
    }
}

/// The state file line for a sink: `<node>\t<preset or custom>\t<bands>\n`.
pub open spec fn eq_state_line_text(target: EqTarget, preset: Option<Seq<char>>, data: Seq<char>) -> Seq<char> {
    target_sink(target) + seq!['\t'] + (match preset { Some(p) => p, None => "custom"@ }) + seq!['\t'] + data + seq!['\n']
}

pub fn format_eq_state_line(target: EqTarget, preset_name: Option<&str>, band_data: &str) -> (r: String)
    ensures
        r@ == eq_state_line_text(target, opt_str(preset_name), band_data@),
{
    let mut s = string_of_str(target.sink_name());
    push_char(&mut s, '\t');
    match preset_name {
        Some(p) => append_str(&mut s, p),
        None => append_str(&mut s, "custom"),
    }
    push_char(&mut s, '\t');
    append_str(&mut s, band_data);
    push_char(&mut s, '\n');
    s
}

/// A written state line reads back to the same sink, preset and band data,
/// provided the preset name holds no tab and is not `custom`.
pub proof fn law_eq_state_line_round_trip(target: EqTarget, preset: Option<Seq<char>>, data: Seq<char>)
    requires
        preset matches Some(p) ==> crate::text::free_of(p, '\t') && p != "custom"@,
    ensures
        ({
            let t = eq_state_line_text(target, preset, data);
            eq_state_line_spec(t.drop_last()) == Some((target, preset, data))
        }),
{
    reveal_strlit("custom");
    reveal_strlit("SteelSeries_Game");
    reveal_strlit("SteelSeries_Chat");
    reveal_strlit("SteelSeries_Music");
    reveal_strlit("SteelSeries_Aux");
    reveal_strlit("SteelSeries_Mic");
    let sink = target_sink(target);
    let p = match preset {
        Some(p) => p,
        None => "custom"@,
    };
    assert(crate::text::free_of(sink, '\t'));
    assert(crate::text::free_of(p, '\t'));
    let line = eq_state_line_text(target, preset, data).drop_last();
    assert(line =~= sink + seq!['\t'] + (p + seq!['\t'] + data));
    crate::text::lemma_split_cons_at(sink, '\t', p + seq!['\t'] + data);
    crate::text::lemma_split_cons_at(p, '\t', data);
    crate::eq::model::law_target_sink_round_trip(target);
}

// ---------------------------------------------------------------------------
// Band lists: the inline form of the state file and the preset files
// ---------------------------------------------------------------------------

/// One band as stored: frequency, gain and Q as written (the caller reads
/// them as numbers), the filter type and the enabled flag.
pub struct BandText {
    pub frequency: String,
    pub gain_db: String,
    pub q: String,
    pub filter_type: FilterType,
    pub enabled: bool,
}

pub type BandTextView = (Seq<char>, Seq<char>, Seq<char>, FilterType, bool);

pub open spec fn band_text_view(b: BandText) -> BandTextView {
    (b.frequency@, b.gain_db@, b.q@, b.filter_type, b.enabled)
}

pub open spec fn band_texts_view(v: Seq<BandText>) -> Seq<BandTextView> {
    v.map_values(|b: BandText| band_text_view(b))
}

/// `s.parse::<bool>()`.
pub open spec fn parse_bool_spec(s: Seq<char>) -> Option<bool> {
    if s == "true"@ {
        Some(true)
    } else if s == "false"@ {
        Some(false)
    } else {
        None
    }
}

/// A band's fields: at least five, the fourth a filter type and the fifth a
/// flag; further fields are ignored.
pub open spec fn band_fields(f: Seq<Seq<char>>) -> Option<BandTextView> {
    if f.len() < 5 {
        None
    } else {
        match (filter_from_key(f[3]), parse_bool_spec(f[4])) {
            (Some(t), Some(e)) => Some((f[0], f[1], f[2], t, e)),
            _ => None,
        }
    }
}

/// Every item read as a band (its fields separated by `sep`), or None when
/// one is not a band.
pub open spec fn bands_of(items: Seq<Seq<char>>, sep: char) -> Option<Seq<BandTextView>>
    decreases items.len(),
{
    if items.len() == 0 {
        Some(seq![])
    } else {
        match (bands_of(items.drop_last(), sep), band_fields(split_seq(items.last(), sep))) {
            (Some(r), Some(b)) => Some(r.push(b)),
            _ => None,
        }
    }
}

/// The inline band list of the EQ state file: ten bands separated by `|`,
/// each a comma-separated record.
pub open spec fn inline_bands_spec(s: Seq<char>) -> Option<Seq<BandTextView>> {
    let parts = split_seq(s, '|');
    if parts.len() != 10 {
        None
    } else {
        bands_of(parts, ',')
    }
}

/// The lines of a preset file that hold bands: not empty and not comments.
pub open spec fn band_line(l: Seq<char>) -> bool {
    l.len() > 0 && l[0] != '#'
}

pub open spec fn band_kept(l: Seq<char>) -> Option<Seq<char>> {
    if band_line(l) {
        Some(l)
    } else {
        None
    }
}

/// A preset file: ten band lines, each a tab-separated record.
pub open spec fn preset_bands_spec(text: Seq<char>) -> Option<Seq<BandTextView>> {
    let ls = crate::text::filter_map(lines_seq(text), |l: Seq<char>| band_kept(l));
    if ls.len() != 10 {
        None
    } else {
        bands_of(ls, '\t')
    }
}

fn parse_bool_exec(s: &Vec<char>) -> (r: Option<bool>)
    ensures
        r == parse_bool_spec(s@),
{
    if chars_eq_str(s, "true") {
        Some(true)
    } else if chars_eq_str(s, "false") {
        Some(false)
    } else {
        None
    }
}

fn band_from_item(item: &Vec<char>, sep: char) -> (r: Option<BandText>)
    ensures
        match r {
            Some(b) => band_fields(split_seq(item@, sep)) == Some(band_text_view(b)),
            None => band_fields(split_seq(item@, sep)) is None,
        },
{
    let f = split_chars(item, sep);
    if f.len() < 5 {
        return None;
    }
    assert(views(f@)[3] == f@[3]@ && views(f@)[4] == f@[4]@);
    assert(views(f@)[0] == f@[0]@ && views(f@)[1] == f@[1]@ && views(f@)[2] == f@[2]@);
    let t = FilterType::from_str(string_of(&f[3]).as_str());
    let e = parse_bool_exec(&f[4]);
    match (t, e) {
        (Some(t), Some(e)) => Some(
            BandText { frequency: string_of(&f[0]), gain_db: string_of(&f[1]), q: string_of(&f[2]), filter_type: t, enabled: e },
        ),
        _ => None,
    }
}

fn bands_of_exec(items: &Vec<Vec<char>>, sep: char) -> (r: Option<Vec<BandText>>)
    ensures
        match r {
            Some(v) => bands_of(views(items@), sep) == Some(band_texts_view(v@)),
            None => bands_of(views(items@), sep) is None,
        },
{
    let ghost is = views(items@);
    let mut out: Vec<BandText> = Vec::new();
    let mut i: usize = 0;
    assert(is.take(0) =~= Seq::<Seq<char>>::empty());
    assert(band_texts_view(out@) =~= Seq::<BandTextView>::empty());
    while i < items.len()
        invariant
            i <= items.len(),
            is == views(items@),
            bands_of(is.take(i as int), sep) == Some(band_texts_view(out@)),
        decreases items.len() - i,
    {
        assert(is.take(i + 1).drop_last() =~= is.take(i as int));
        assert(is.take(i + 1).last() == items@[i as int]@);
        match band_from_item(&items[i], sep) {
            Some(b) => {
                let ghost before = band_texts_view(out@);
                out.push(b);
                assert(band_texts_view(out@) =~= before.push(band_text_view(b)));
            },
            None => {
                proof {
                    lemma_bands_of_none(is, sep, i as int);
                }
                return None;
            },
        }
        i = i + 1;
    }
    assert(is.take(items.len() as int) =~= is);
    Some(out)
}

/// Once an item is not a band, no longer list is a band list.
proof fn lemma_bands_of_none(is: Seq<Seq<char>>, sep: char, i: int)
    requires
        0 <= i < is.len(),
        band_fields(split_seq(is[i], sep)) is None,
    ensures
        bands_of(is, sep) is None,
    decreases is.len() - i,
{
    if i == is.len() - 1 {
        assert(is.last() == is[i]);
    } else {
        lemma_bands_of_none(is.drop_last(), sep, i);
        assert(is.drop_last()[i] == is[i]);
    }
}

/// Read the inline band list of an EQ state line (see `inline_bands_spec`).
pub fn parse_inline_bands(s: &str) -> (r: Option<Vec<BandText>>)
    ensures
        match r {
            Some(v) => inline_bands_spec(s@) == Some(band_texts_view(v@)),
            None => inline_bands_spec(s@) is None,
        },
{
    let parts = split_chars(&chars_of(s), '|');
    if parts.len() != 10 {
        return None;
    }
    bands_of_exec(&parts, ',')
}

/// Read the bands of a preset file (see `preset_bands_spec`).
pub fn parse_preset_bands(text: &str) -> (r: Option<Vec<BandText>>)
    ensures
        match r {
            Some(v) => preset_bands_spec(text@) == Some(band_texts_view(v@)),
            None => preset_bands_spec(text@) is None,
        },
{
    let lines = lines_str(text);
    let ghost ls = lines_seq(text@);
    let ghost pred = |l: Seq<char>| band_kept(l);
    let mut kept: Vec<Vec<char>> = Vec::new();
    let mut i: usize = 0;
    assert(views(kept@) =~= Seq::<Seq<char>>::empty());
    while i < lines.len()
        invariant
            i <= lines.len(),
            views(lines@) == ls,
            ls == lines_seq(text@),
            pred == (|l: Seq<char>| band_kept(l)),
            views(kept@) == crate::text::filter_map(ls.take(i as int), pred),
        decreases lines.len() - i,
    {
        proof {
            crate::text::lemma_filter_map_step(ls, pred, i as int);
        }
        assert(ls[i as int] == lines@[i as int]@);
        let l = &lines[i];
        if l.len() > 0 && l[0] != '#' {
            let ghost before = views(kept@);
            kept.push(l.clone());
            assert(views(kept@) =~= before.push(lines@[i as int]@));
        }
        i = i + 1;
    }
    assert(ls.take(lines.len() as int) =~= ls);
    if kept.len() != 10 {
        return None;
    }
    bands_of_exec(&kept, '\t')
}

// ---------------------------------------------------------------------------
// The custom presets in the presets directory, in name order
// ---------------------------------------------------------------------------

/// Name order: character by character by code point, a prefix first. This
/// is the order of `str` (UTF-8 bytes compare in code point order).
pub open spec fn str_le(a: Seq<char>, b: Seq<char>) -> bool
    decreases a.len(),
{
    if a.len() == 0 {
        true
    } else if b.len() == 0 {
        false
    } else if a[0] != b[0] {
        a[0] < b[0]
    } else {
        str_le(a.drop_first(), b.drop_first())
    }
}

pub open spec fn name_order() -> spec_fn(Seq<char>, Seq<char>) -> bool {
    |a: Seq<char>, b: Seq<char>| str_le(a, b)
}

proof fn lemma_str_le_reflexive(a: Seq<char>)
    ensures
        str_le(a, a),
    decreases a.len(),
{
    if a.len() > 0 {
        lemma_str_le_reflexive(a.drop_first());
    }
}

proof fn lemma_str_le_antisymmetric(a: Seq<char>, b: Seq<char>)
    requires
        str_le(a, b),
        str_le(b, a),
    ensures
        a == b,
    decreases a.len(),
{
    if a.len() > 0 && b.len() > 0 && a[0] == b[0] {
        lemma_str_le_antisymmetric(a.drop_first(), b.drop_first());
        assert(a =~= seq![a[0]] + a.drop_first());
        assert(b =~= seq![b[0]] + b.drop_first());
    } else if a.len() == 0 && b.len() == 0 {
        assert(a =~= b);
    }
}

proof fn lemma_str_le_transitive(a: Seq<char>, b: Seq<char>, c: Seq<char>)
    requires
        str_le(a, b),
        str_le(b, c),
    ensures
        str_le(a, c),
    decreases a.len(),
{
    if a.len() > 0 && b.len() > 0 && c.len() > 0 {
        if a[0] == b[0] && b[0] == c[0] {
            lemma_str_le_transitive(a.drop_first(), b.drop_first(), c.drop_first());
        }
    }
}

proof fn lemma_str_le_total(a: Seq<char>, b: Seq<char>)
    ensures
        str_le(a, b) || str_le(b, a),
    decreases a.len(),
{
    if a.len() > 0 && b.len() > 0 && a[0] == b[0] {
        lemma_str_le_total(a.drop_first(), b.drop_first());
    }
}

/// Name order is a total order.
pub proof fn lemma_name_order_total()
    ensures
        vstd::relations::total_ordering(name_order()),
{
    assert forall|x: Seq<char>| #[trigger] name_order()(x, x) by {
        lemma_str_le_reflexive(x);
    }
    assert forall|x: Seq<char>, y: Seq<char>| #[trigger] name_order()(x, y) && #[trigger] name_order()(y, x) implies x == y by {
        lemma_str_le_antisymmetric(x, y);
    }
    assert forall|x: Seq<char>, y: Seq<char>, z: Seq<char>| #[trigger] name_order()(x, y) && #[trigger] name_order()(y, z) implies name_order()(x, z) by {
        lemma_str_le_transitive(x, y, z);
    }
    assert forall|x: Seq<char>, y: Seq<char>| #[trigger] name_order()(x, y) || #[trigger] name_order()(y, x) by {
        lemma_str_le_total(x, y);
    }
}

fn str_le_exec(a: &Vec<char>, b: &Vec<char>) -> (r: bool)
    ensures
        r == str_le(a@, b@),
{
    let mut i: usize = 0;
    assert(a@.skip(0) =~= a@);
    assert(b@.skip(0) =~= b@);
    while i < a.len() && i < b.len() && a[i] == b[i]
        invariant
            i <= a.len(),
            i <= b.len(),
            str_le(a@, b@) == str_le(a@.skip(i as int), b@.skip(i as int)),
        decreases a.len() - i,
    {
        assert(a@.skip(i as int).drop_first() =~= a@.skip(i + 1));
        assert(b@.skip(i as int).drop_first() =~= b@.skip(i + 1));
        i = i + 1;
    }
    if i == a.len() {
        true
    } else if i == b.len() {
        false
    } else {
        a[i] < b[i]
    }
}

/// `names` in name order (an insertion sort).
fn sort_names(names: &Vec<Vec<char>>) -> (r: Vec<Vec<char>>)
    ensures
        views(r@) == views(names@).sort_by(name_order()),
{
    let ghost input = views(names@);
    proof {
        lemma_name_order_total();
    }
    let mut out: Vec<Vec<char>> = Vec::new();
    let mut i: usize = 0;
    assert(views(out@) =~= Seq::<Seq<char>>::empty());
    assert(input.take(0) =~= Seq::<Seq<char>>::empty());
    while i < names.len()
        invariant
            i <= names.len(),
            input == views(names@),
            vstd::relations::total_ordering(name_order()),
            vstd::relations::sorted_by(views(out@), name_order()),
            views(out@).to_multiset() == input.take(i as int).to_multiset(),
        decreases names.len() - i,
    {
        let x = &names[i];
        let ghost o = views(out@);
        let mut k: usize = 0;
        while k < out.len() && str_le_exec(&out[k], x)
            invariant
                k <= out.len(),
                o == views(out@),
                forall|j: int| 0 <= j < k ==> str_le(#[trigger] o[j], x@),
            decreases out.len() - k,
        {
            k = k + 1;
        }
        proof {
            if k < out.len() {
                assert(!str_le(o[k as int], x@));
                assert forall|j: int| k <= j < o.len() implies !str_le(#[trigger] o[j], x@) by {
                    if str_le(o[j], x@) {
                        assert(name_order()(o[k as int], o[j]));
                        lemma_str_le_transitive(o[k as int], o[j], x@);
                    }
                }
            }
        }
        out.insert(k, x.clone());
        let ghost n = views(out@);
        assert(n =~= o.insert(k as int, x@));
        proof {
            assert forall|a: int, b: int| 0 <= a < b < n.len() implies #[trigger] name_order()(n[a], n[b]) by {
                if b < k {
                    assert(n[a] == o[a] && n[b] == o[b]);
                } else if b == k {
                    assert(n[a] == o[a]);
                } else if a == k {
                    assert(n[b] == o[b - 1]);
                    assert(!str_le(o[b - 1], x@));
                    lemma_str_le_total(o[b - 1], x@);
                } else if a < k {
                    assert(n[a] == o[a] && n[b] == o[b - 1]);
                } else {
                    assert(n[a] == o[a - 1] && n[b] == o[b - 1]);
                }
            }
            broadcast use vstd::seq_lib::to_multiset_insert;
            assert(input.take(i + 1) =~= input.take(i as int).insert(i as int, input[i as int]));
            assert(input[i as int] == x@);
            assert(n.to_multiset() == o.to_multiset().insert(x@));
            assert(input.take(i + 1).to_multiset() == input.take(i as int).to_multiset().insert(x@));
        }
        i = i + 1;
    }
    proof {
        assert(input.take(names.len() as int) =~= input);
        input.lemma_sort_by_ensures(name_order());
        vstd::seq_lib::lemma_sorted_unique(views(out@), input.sort_by(name_order()), name_order());
    }
    out
}

/// The custom presets among the files of the presets directory (see
/// `preset_name_of`), in name order.
pub fn list_custom_presets(file_names: &Vec<String>) -> (r: Vec<String>)
    ensures
        string_views(r@) == crate::text::filter_map(string_views(file_names@), |f: Seq<char>| preset_name_of(f)).sort_by(
            name_order(),
        ),
{
    let ghost fv = string_views(file_names@);
    let ghost f = |n: Seq<char>| preset_name_of(n);
    let mut names: Vec<Vec<char>> = Vec::new();
    let mut i: usize = 0;
    assert(views(names@) =~= crate::text::filter_map(fv.take(0), f));
    while i < file_names.len()
        invariant
            i <= file_names.len(),
            fv == string_views(file_names@),
            f == (|n: Seq<char>| preset_name_of(n)),
            views(names@) == crate::text::filter_map(fv.take(i as int), f),
        decreases file_names.len() - i,
    {
        proof {
            crate::text::lemma_filter_map_step(fv, f, i as int);
        }
        assert(fv[i as int] == file_names@[i as int]@);
        let ghost before = views(names@);
        match preset_name_from_file(file_names[i].as_str()) {
            Some(n) => {
                names.push(chars_of(n.as_str()));
                assert(views(names@) =~= before.push(n@));
            },
            None => {},
        }
        i = i + 1;
    }
    assert(fv.take(file_names.len() as int) =~= fv);
    let sorted = sort_names(&names);
    let mut out: Vec<String> = Vec::new();
    let mut k: usize = 0;
    while k < sorted.len()
        invariant
            k <= sorted.len(),
            string_views(out@) == views(sorted@).take(k as int),
        decreases sorted.len() - k,
    {
        let name = string_of(&sorted[k]);
        assert(name@ == views(sorted@)[k as int]);
        let ghost before = string_views(out@);
        out.push(name);
        assert(string_views(out@) =~= before.push(views(sorted@)[k as int]));
        assert(string_views(out@) =~= views(sorted@).take(k + 1));
        k = k + 1;
    }
    assert(views(sorted@).take(sorted.len() as int) =~= views(sorted@));
    out
}

// ---------------------------------------------------------------------------
// The preset menu
// ---------------------------------------------------------------------------

/// The preset menu: the built-in presets, then the custom ones in name
/// order.
pub fn preset_menu(file_names: &Vec<String>) -> (r: Vec<String>)
    ensures
        string_views(r@) == built_in_names_spec() + crate::text::filter_map(
            string_views(file_names@),
            |f: Seq<char>| preset_name_of(f),
        ).sort_by(name_order()),
{
    let b = built_in_names();
    let mut out: Vec<String> = Vec::new();
    let mut i: usize = 0;
    while i < b.len()
        invariant
            i <= b.len(),
            b@.map_values(|s: &'static str| s@) == built_in_names_spec(),
            string_views(out@) == built_in_names_spec().take(i as int),
        decreases b.len() - i,
    {
        let ghost before = string_views(out@);
        let n = string_of_str(b[i]);
        assert(n@ == built_in_names_spec()[i as int]);
        out.push(n);
        assert(string_views(out@) =~= before.push(built_in_names_spec()[i as int]));
        assert(built_in_names_spec().take(i + 1) =~= built_in_names_spec().take(i as int).push(built_in_names_spec()[i as int]));
        i = i + 1;
    }
    assert(built_in_names_spec().take(b.len() as int) =~= built_in_names_spec());
    let custom = list_custom_presets(file_names);
    let ghost head = string_views(out@);
    let mut k: usize = 0;
    while k < custom.len()
        invariant
            k <= custom.len(),
            head == built_in_names_spec(),
            string_views(out@) == head + string_views(custom@).take(k as int),
        decreases custom.len() - k,
    {
        let ghost before = string_views(out@);
        let n = string_of_str(custom[k].as_str());
        assert(n@ == string_views(custom@)[k as int]);
        out.push(n);
        assert(string_views(out@) =~= before.push(string_views(custom@)[k as int]));
        assert(string_views(out@) =~= head + string_views(custom@).take(k + 1));
        k = k + 1;
    }
    assert(string_views(custom@).take(custom.len() as int) =~= string_views(custom@));
    out
}

/// The first position of `name` in the menu.
pub open spec fn first_position(menu: Seq<Seq<char>>, name: Seq<char>) -> Option<int>
    decreases menu.len(),
{
    if menu.len() == 0 {
        None
    } else if menu.last() == name && first_position(menu.drop_last(), name) is None {
        Some(menu.len() - 1)
    } else {
        first_position(menu.drop_last(), name)
    }
}

/// The menu entry to select for a sink's preset: the entry of that preset
/// (`Flat` when it has none), else the first entry, else none.
pub open spec fn preset_index_spec(menu: Seq<Seq<char>>, preset: Option<Seq<char>>) -> Option<int> {
    let target = match preset {
        Some(p) => p,
        None => "Flat"@,
    };
    match first_position(menu, target) {
        Some(i) => Some(i),
        None => if menu.len() > 0 {
            Some(0)
        } else {
            None
        },
    }
}

pub fn preset_index(menu: &Vec<String>, preset: Option<&str>) -> (r: Option<usize>)
    ensures
        match r {
            Some(i) => preset_index_spec(string_views(menu@), crate::paths::opt_str(preset)) == Some(i as int),
            None => preset_index_spec(string_views(menu@), crate::paths::opt_str(preset)) is None,
        },
{
    let target = match preset {
        Some(p) => p,
        None => "Flat",
    };
    let ghost m = string_views(menu@);
    let mut i: usize = 0;
    let mut found: Option<usize> = None;
    assert(m.take(0) =~= Seq::<Seq<char>>::empty());
    while i < menu.len()
        invariant
            i <= menu.len(),
            m == string_views(menu@),
            match found {
                Some(j) => first_position(m.take(i as int), target@) == Some(j as int),
                None => first_position(m.take(i as int), target@) is None,
            },
        decreases menu.len() - i,
    {
        assert(m.take(i + 1).drop_last() =~= m.take(i as int));
        assert(m.take(i + 1).last() == menu@[i as int]@);
        if found.is_none() && crate::text::chars_eq_str(&chars_of(menu[i].as_str()), target) {
            found = Some(i);
        }
        i = i + 1;
    }
    assert(m.take(menu.len() as int) =~= m);
    match found {
        Some(j) => Some(j),
        None => if menu.len() > 0 {
            Some(0)
        } else {
            None
        },
    }
}

/// The name an imported preset is saved under: the entered name trimmed,
/// which must not be empty nor the name of a built-in preset.
pub open spec fn preset_name_check(name: Seq<char>) -> Result<Seq<char>, Seq<char>> {
    let t = crate::text::trim(name);
    if t.len() == 0 {
        Err("Preset name cannot be empty."@)
    } else if built_in_names_spec().contains(t) {
        Err("'"@ + t + "' is a built-in preset name. Pick another."@)
    } else {
        Ok(t)
    }
}

pub fn check_preset_name(name: &str) -> (r: Result<String, String>)
    ensures
        crate::eq::sonar::string_result(r) == preset_name_check(name@),
{
    let t = crate::text::trim_str(name);
    if t.len() == 0 {
        return Err(string_of_str("Preset name cannot be empty."));
    }
    let b = built_in_names();
    let mut i: usize = 0;
    while i < b.len()
        invariant
            i <= b.len(),
            b@.map_values(|s: &'static str| s@) == built_in_names_spec(),
            forall|j: int| 0 <= j < i ==> built_in_names_spec()[j] != t@,
            t@ == crate::text::trim(name@),
            t@.len() > 0,
        decreases b.len() - i,
    {
        assert(b@.map_values(|s: &'static str| s@)[i as int] == b@[i as int]@);
        if chars_eq_str(&t, b[i]) {
            assert(built_in_names_spec()[i as int] == t@);
            assert(built_in_names_spec().contains(t@));
            let mut e = string_of_str("'");
            append_str(&mut e, string_of(&t).as_str());
            append_str(&mut e, "' is a built-in preset name. Pick another.");
            return Err(e);
        }
        i = i + 1;
    }
    assert(!built_in_names_spec().contains(t@));
    Ok(string_of(&t))
}

/// Whether `t` is the name of a built-in preset.
fn is_built_in_name(t: &Vec<char>) -> (r: bool)
    ensures
        r == built_in_names_spec().contains(t@),
{
    let b = built_in_names();
    let mut i: usize = 0;
    while i < b.len()
        invariant
            i <= b.len(),
            b@.map_values(|s: &'static str| s@) == built_in_names_spec(),
            forall|j: int| 0 <= j < i ==> built_in_names_spec()[j] != t@,
        decreases b.len() - i,
    {
        assert(b@.map_values(|s: &'static str| s@)[i as int] == b@[i as int]@);
        if chars_eq_str(t, b[i]) {
            assert(built_in_names_spec()[i as int] == t@);
            return true;
        }
        i = i + 1;
    }
    false
}

/// What renaming the preset `original` to the typed `text` comes to, given
/// the names of the custom presets: Ok(None) keeps the name (a built-in
/// preset cannot be renamed, and an unchanged name is no rename), Ok(Some)
/// renames to the trimmed text, and Err gives the message shown when the
/// name is empty, a built-in preset's, or another custom preset's.
pub open spec fn rename_check(text: Seq<char>, original: Seq<char>, customs: Seq<Seq<char>>) -> Result<Option<Seq<char>>, Seq<char>> {
    let t = crate::text::trim(text);
    if built_in_names_spec().contains(original) {
        Ok(None)
    } else if t.len() == 0 {
        Err("Name cannot be empty."@)
    } else if t == original {
        Ok(None)
    } else if built_in_names_spec().contains(t) {
        Err("'"@ + t + "' is a built-in preset name."@)
    } else if customs.contains(t) {
        Err("A custom preset named '"@ + t + "' already exists."@)
    } else {
        Ok(Some(t))
    }
}

pub open spec fn rename_view(r: Result<Option<String>, String>) -> Result<Option<Seq<char>>, Seq<char>> {
    match r {
        Ok(Some(s)) => Ok(Some(s@)),
        Ok(None) => Ok(None),
        Err(e) => Err(e@),
    }
}

/// Checks a rename of the preset `original` to the typed `text` (see
/// `rename_check`).
pub fn check_rename(text: &str, original: &str, custom_names: &Vec<String>) -> (r: Result<Option<String>, String>)
    ensures
        rename_view(r) == rename_check(text@, original@, string_views(custom_names@)),
{
    let o = chars_of(original);
    if is_built_in_name(&o) {
        return Ok(None);
    }
    let t = crate::text::trim_str(text);
    if t.len() == 0 {
        return Err(string_of_str("Name cannot be empty."));
    }
    if chars_eq_str(&t, original) {
        return Ok(None);
    }
    if is_built_in_name(&t) {
        let mut e = string_of_str("'");
        append_str(&mut e, string_of(&t).as_str());
        append_str(&mut e, "' is a built-in preset name.");
        return Err(e);
    }
    let mut i: usize = 0;
    while i < custom_names.len()
        invariant
            i <= custom_names.len(),
            forall|j: int| 0 <= j < i ==> string_views(custom_names@)[j] != t@,
            t@ == crate::text::trim(text@),
            t@.len() > 0,
            t@ != original@,
            !built_in_names_spec().contains(original@),
            !built_in_names_spec().contains(t@),
        decreases custom_names.len() - i,
    {
        let c = chars_of(custom_names[i].as_str());
        assert(string_views(custom_names@)[i as int] == custom_names@[i as int]@);
        if crate::text::chars_eq(&c, &t) {
            assert(string_views(custom_names@).contains(t@));
            let mut e = string_of_str("A custom preset named '");
            append_str(&mut e, string_of(&t).as_str());
            append_str(&mut e, "' already exists.");
            return Err(e);
        }
        i = i + 1;
    }
    assert(!string_views(custom_names@).contains(t@));
    Ok(Some(string_of(&t)))
}

} // verus!
