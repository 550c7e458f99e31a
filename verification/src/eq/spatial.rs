//! Spatial audio: the HRIR profiles and the settings blob kept in the EQ
//! state file. The wet/dry mix is a float; this module hands its text to the
//! caller, which parses and clamps it.
use vstd::prelude::*;

use crate::eq::model::{target_for_sink, EqTarget};
use crate::paths::{cache_base, cache_base_spec, join, join_opt, opt_str};
use crate::text::{
    free_of, lemma_split_alone, lemma_split_cons_at, trim_end, trim_start, append_str, chars_eq_str, chars_of, push_char, split_chars, split_once, split_once_chars,
    split_seq, string_of, string_of_str, trim, trim_chars, views,
};

verus! {

/// A bundled HeSuVi impulse response.
#[derive(Debug, Clone, Copy, PartialEq, Eq, Structural, Hash)]
pub enum SpatialProfile {
    Gsx,
    Dh2,
    DtsHpx,
}

pub open spec fn profile_key(p: SpatialProfile) -> Seq<char> {
    match p {
        SpatialProfile::Gsx => "gsx"@,
        SpatialProfile::Dh2 => "dh2"@,
        SpatialProfile::DtsHpx => "dts"@,
    }
}

pub open spec fn profile_from_key(s: Seq<char>) -> Option<SpatialProfile> {
    if s == "gsx"@ {
        Some(SpatialProfile::Gsx)
    } else if s == "dh2"@ {
        Some(SpatialProfile::Dh2)
    } else if s == "dts"@ {
        Some(SpatialProfile::DtsHpx)
    } else {
        None
    }
}

pub open spec fn all_profiles() -> Seq<SpatialProfile> {
    seq![SpatialProfile::Gsx, SpatialProfile::Dh2, SpatialProfile::DtsHpx]
}

pub open spec fn ir_filename_spec(p: SpatialProfile) -> Seq<char> {
    match p {
        SpatialProfile::Gsx => "gsx.wav"@,
        SpatialProfile::Dh2 => "dh2.wav"@,
        SpatialProfile::DtsHpx => "dts-hpx.wav"@,
    }
}

impl SpatialProfile {
    pub fn all() -> (r: Vec<SpatialProfile>)
        ensures
            r@ == all_profiles(),
    {
        let r = vec![SpatialProfile::Gsx, SpatialProfile::Dh2, SpatialProfile::DtsHpx];
        assert(r@ =~= all_profiles());
        r
    }

    /// The name the profile is stored under.
    pub fn key(self) -> (r: &'static str)
        ensures
            r@ == profile_key(self),
    {
        match self {
            SpatialProfile::Gsx => "gsx",
            SpatialProfile::Dh2 => "dh2",
            SpatialProfile::DtsHpx => "dts",
        }
    }

    pub fn from_key(s: &str) -> (r: Option<SpatialProfile>)
        ensures
            r == profile_from_key(s@),
    {
        let v = chars_of(s);
        if chars_eq_str(&v, "gsx") {
            Some(SpatialProfile::Gsx)
        } else if chars_eq_str(&v, "dh2") {
            Some(SpatialProfile::Dh2)
        } else if chars_eq_str(&v, "dts") {
            Some(SpatialProfile::DtsHpx)
        } else {
            None
        }
    }
}

/// The cache file name of a profile's impulse response.
pub fn ir_filename(profile: SpatialProfile) -> (r: &'static str)
    ensures
        r@ == ir_filename_spec(profile),
{
    match profile {
        SpatialProfile::Gsx => "gsx.wav",
        SpatialProfile::Dh2 => "dh2.wav",
        SpatialProfile::DtsHpx => "dts-hpx.wav",
    }
}

/// Where impulse responses are extracted: `<cache>/arctis-chatmix/hrtf`.
pub fn hrtf_dir(xdg_cache_home: Option<&str>, home: Option<&str>) -> (r: Option<String>)
    ensures
        match r {
            Some(p) => join_opt(cache_base_spec(opt_str(xdg_cache_home), opt_str(home)), "arctis-chatmix/hrtf"@) == Some(p@),
            None => cache_base_spec(opt_str(xdg_cache_home), opt_str(home)) is None,
        },
{
    match cache_base(xdg_cache_home, home) {
        Some(b) => Some(join(b.as_str(), "arctis-chatmix/hrtf")),
        None => None,
    }
}

/// Whether every profile's impulse response can be extracted; `extract`
/// reports one profile's extraction. Profiles are tried in order and the
/// first failure ends the check.
pub fn hrtf_available<F: Fn(SpatialProfile) -> bool>(extract: F) -> (r: bool)
    requires
        forall|p: SpatialProfile| #[trigger] extract.requires((p,)),
    ensures
        r ==> forall|k: int| 0 <= k < 3 ==> call_ensures(extract, (#[trigger] all_profiles()[k],), true),
        !r ==> exists|k: int| 0 <= k < 3 && call_ensures(extract, (#[trigger] all_profiles()[k],), false),
{
    let ps = SpatialProfile::all();
    let mut i: usize = 0;
    while i < 3
        invariant
            i <= 3,
            ps@ == all_profiles(),
            forall|p: SpatialProfile| #[trigger] extract.requires((p,)),
            forall|k: int| 0 <= k < i ==> call_ensures(extract, (#[trigger] all_profiles()[k],), true),
        decreases 3 - i,
    {
        let ok = extract(ps[i]);
        if !ok {
            assert(call_ensures(extract, (all_profiles()[i as int],), false));
            return false;
        }
        i = i + 1;
    }
    true
}

/// The profile whose impulse response a sink should use: spatial must be
/// enabled and the sink must be an output sink this app manages.
pub open spec fn active_spatial_spec(sink_name: Seq<char>, enabled: bool, profile: SpatialProfile) -> Option<SpatialProfile> {
    if !enabled {
        None
    } else {
        match target_for_sink(sink_name) {
            Some(t) => if t is Mic {
                None
            } else {
                Some(profile)
            },
            None => None,
        }
    }
}

/// The profile whose impulse response `sink_name` should be convolved with,
/// if spatial audio applies to it.
pub fn active_spatial_ir(sink_name: &str, enabled: bool, profile: SpatialProfile) -> (r: Option<SpatialProfile>)
    ensures
        r == active_spatial_spec(sink_name@, enabled, profile),
{
    if !enabled {
        return None;
    }
    match EqTarget::for_sink(sink_name) {
        Some(t) => {
            if !t.supports_spatial() {
                None
            } else {
                Some(profile)
            }
        },
        None => None,
    }
}

/// The spatial settings read from a blob: whether spatial is on, the
/// profile, and every `wet` value's text in order (the last one that reads
/// as a number sets the mix).
pub struct SpatialBlob {
    pub enabled: bool,
    pub profile: SpatialProfile,
    pub wet: Vec<String>,
}

pub struct SpatialBlobView {
    pub enabled: bool,
    pub profile: SpatialProfile,
    pub wet: Seq<Seq<char>>,
}

pub open spec fn blob_view(b: SpatialBlob) -> SpatialBlobView {
    SpatialBlobView { enabled: b.enabled, profile: b.profile, wet: crate::text::string_views(b.wet@) }
}

/// One `key=value` item; unknown keys, unknown profiles and items without
/// `=` change nothing.
pub open spec fn blob_item(s: SpatialBlobView, kv: Seq<char>) -> SpatialBlobView {
    match split_once(kv, '=') {
        None => s,
        Some((k, v)) => {
            let key = trim(k);
            let val = trim(v);
            if key == "enabled"@ {
                SpatialBlobView { enabled: val == "1"@, ..s }
            } else if key == "profile"@ {
                match profile_from_key(val) {
                    Some(p) => SpatialBlobView { profile: p, ..s },
                    None => s,
                }
            } else if key == "wet"@ {
                SpatialBlobView { wet: s.wet.push(val), ..s }
            } else {
                s
            }
        },
    }
}

pub open spec fn blob_items(items: Seq<Seq<char>>) -> SpatialBlobView
    decreases items.len(),
{
    if items.len() == 0 {
        SpatialBlobView { enabled: false, profile: SpatialProfile::Gsx, wet: seq![] }
    } else {
        blob_item(blob_items(items.drop_last()), items.last())
    }
}

/// The settings a blob holds; legacy and damaged blobs read as far as they
/// go, defaults (off, GSX) elsewhere.
pub open spec fn parse_spec(blob: Seq<char>) -> SpatialBlobView {
    blob_items(split_seq(blob, ';'))
}

/// Read the `enabled=…;profile=…;wet=…` blob.
pub fn parse(blob: &str) -> (r: SpatialBlob)
    ensures
        blob_view(r) == parse_spec(blob@),
{
    let v = chars_of(blob);
    let items = split_chars(&v, ';');
    let ghost is = split_seq(blob@, ';');
    let mut out = SpatialBlob { enabled: false, profile: SpatialProfile::Gsx, wet: Vec::new() };
    assert(crate::text::string_views(out.wet@) =~= Seq::<Seq<char>>::empty());
    assert(blob_view(out) == blob_items(is.take(0)));
    let mut i: usize = 0;
    while i < items.len()
        invariant
            i <= items.len(),
            views(items@) == is,
            is == split_seq(blob@, ';'),
            blob_view(out) == blob_items(is.take(i as int)),
        decreases items.len() - i,
    {
        assert(is.take(i + 1).drop_last() =~= is.take(i as int));
        assert(is.take(i + 1).last() == items@[i as int]@);
        match split_once_chars(&items[i], '=') {
            None => {},
            Some((k, val)) => {
                let key = trim_chars(&k);
                let value = trim_chars(&val);
                if chars_eq_str(&key, "enabled") {
                    out.enabled = chars_eq_str(&value, "1");
                } else if chars_eq_str(&key, "profile") {
                    let vs = string_of(&value);
                    match SpatialProfile::from_key(vs.as_str()) {
                        Some(p) => {
                            out.profile = p;
                        },
                        None => {},
                    }
                } else if chars_eq_str(&key, "wet") {
                    let ghost before = crate::text::string_views(out.wet@);
                    out.wet.push(string_of(&value));
                    assert(crate::text::string_views(out.wet@) =~= before.push(value@));
                }
            },
        }
        i = i + 1;
    }
    assert(is.take(items.len() as int) =~= is);
    out
}

/// `enabled=<1|0>;profile=<key>;wet=<wet text>`.
pub open spec fn serialize_spec(enabled: bool, profile: SpatialProfile, wet: Seq<char>) -> Seq<char> {
    "enabled="@ + (if enabled { "1"@ } else { "0"@ }) + ";profile="@ + profile_key(profile) + ";wet="@ + wet
}

/// Write the blob; `wet` is the mix already rendered with three decimals.
pub fn serialize(enabled: bool, profile: SpatialProfile, wet: &str) -> (r: String)
    ensures
        r@ == serialize_spec(enabled, profile, wet@),
{
    let mut s = string_of_str("enabled=");
    append_str(&mut s, if enabled { "1" } else { "0" });
    append_str(&mut s, ";profile=");
    append_str(&mut s, profile.key());
    append_str(&mut s, ";wet=");
    append_str(&mut s, wet);
    s
}


proof fn lemma_trim_word(s: Seq<char>)
    requires
        s.len() > 0,
        !crate::text::is_ws(s[0]),
        !crate::text::is_ws(s.last()),
    ensures
        trim(s) == s,
{
    assert(trim_start(s) == s);
    assert(trim_end(s) == s);
}

/// Reading back a written blob gives the same switch and profile, and the
/// mix text (trimmed) as the only `wet` value, provided that text holds no
/// `;`.
pub proof fn law_spatial_round_trip(enabled: bool, profile: SpatialProfile, wet: Seq<char>)
    requires
        free_of(wet, ';'),
    ensures
        parse_spec(serialize_spec(enabled, profile, wet)) == (SpatialBlobView {
            enabled,
            profile,
            wet: seq![trim(wet)],
        }),
{
    reveal_strlit("enabled=");
    reveal_strlit("enabled");
    reveal_strlit("1");
    reveal_strlit("0");
    reveal_strlit(";profile=");
    reveal_strlit("profile");
    reveal_strlit(";wet=");
    reveal_strlit("wet");
    reveal_strlit("gsx");
    reveal_strlit("dh2");
    reveal_strlit("dts");
    let bit: Seq<char> = if enabled { "1"@ } else { "0"@ };
    let key = profile_key(profile);
    assert(bit.len() == 1 && bit[0] != ';' && bit[0] != '=' && !crate::text::is_ws(bit[0]));
    assert(key.len() == 3 && forall|i: int| 0 <= i < 3 ==> key[i] != ';' && key[i] != '=' && !crate::text::is_ws(#[trigger] key[i]));
    let en: Seq<char> = "enabled"@;
    let pr: Seq<char> = "profile"@;
    let we: Seq<char> = "wet"@;
    assert(en.len() == 7 && pr.len() == 7 && we.len() == 3);
    assert(free_of(en, ';') && free_of(en, '='));
    assert(free_of(pr, ';') && free_of(pr, '='));
    assert(free_of(we, ';') && free_of(we, '='));
    let i1 = en + seq!['='] + bit;
    let i2 = pr + seq!['='] + key;
    let i3 = we + seq!['='] + wet;
    assert(free_of(i1, ';'));
    assert(free_of(i2, ';'));
    assert(free_of(i3, ';')) by {
        assert forall|i: int| 0 <= i < i3.len() implies i3[i] != ';' by {
            if i >= 4 {
                assert(i3[i] == wet[i - 4]);
            }
        }
    }
    assert(serialize_spec(enabled, profile, wet) =~= i1 + seq![';'] + (i2 + seq![';'] + i3));
    lemma_split_cons_at(i1, ';', i2 + seq![';'] + i3);
    lemma_split_cons_at(i2, ';', i3);
    lemma_split_alone(i3, ';');
    let items = split_seq(serialize_spec(enabled, profile, wet), ';');
    assert(items =~= seq![i1, i2, i3]);
    lemma_split_cons_at(en, '=', bit);
    lemma_split_cons_at(pr, '=', key);
    lemma_split_cons_at(we, '=', wet);
    lemma_trim_word(en);
    lemma_trim_word(pr);
    lemma_trim_word(we);
    lemma_trim_word(bit);
    lemma_trim_word(key);
    assert(en != pr && en != we && pr != we) by {
        assert(en[0] == 'e' && pr[0] == 'p' && we[0] == 'w');
    }
    assert(profile_from_key(key) == Some(profile)) by {
        assert("gsx"@[0] == 'g' && "dh2"@[0] == 'd' && "dts"@[0] == 'd' && "dh2"@[1] == 'h' && "dts"@[1] == 't');
    }
    assert(("1"@ == "1"@) && ("0"@ != "1"@)) by {
        assert("0"@[0] == '0');
    }
    let s0 = blob_items(seq![]);
    let s1 = blob_item(s0, i1);
    let s2 = blob_item(s1, i2);
    let s3 = blob_item(s2, i3);
    assert(seq![i1, i2, i3].drop_last() =~= seq![i1, i2]);
    assert(seq![i1, i2].drop_last() =~= seq![i1]);
    assert(seq![i1].drop_last() =~= Seq::<Seq<char>>::empty());
    assert(blob_items(seq![i1]) == s1);
    assert(blob_items(seq![i1, i2]) == s2);
    assert(blob_items(seq![i1, i2, i3]) == s3);
    assert(s3.wet =~= seq![trim(wet)]);
}

} // verus!
