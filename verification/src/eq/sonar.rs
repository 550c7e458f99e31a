//! Importing a SteelSeries Sonar preset: finding the config CDN URL behind a
//! share link, and the Sonar filter-type names. Fetching the URL and reading
//! the preset's numbers are done by the caller.
use vstd::prelude::*;

use crate::eq::model::FilterType;
use crate::text::{
    append_chars, append_str, chars_eq_str, chars_of, contains_seq, contains_str, split_chars,
    split_once, split_once_chars, split_seq, string_of, string_of_str, strip_prefix,
    strip_prefix_str, trim, trim_str, views,
};

verus! {

// ---------------------------------------------------------------------------
// Filter-type names
// ---------------------------------------------------------------------------

/// The filter type a Sonar preset names, in any of its spellings.
pub open spec fn sonar_filter_type(s: Seq<char>) -> Option<FilterType> {
    if s == "peakingEQ"@ || s == "peaking"@ {
        Some(FilterType::Peaking)
    } else if s == "lowShelving"@ || s == "lowShelf"@ || s == "low_shelf"@ {
        Some(FilterType::LowShelf)
    } else if s == "highShelving"@ || s == "highShelf"@ || s == "high_shelf"@ {
        Some(FilterType::HighShelf)
    } else if s == "lowPass"@ || s == "low_pass"@ {
        Some(FilterType::LowPass)
    } else if s == "highPass"@ || s == "high_pass"@ {
        Some(FilterType::HighPass)
    } else if s == "notchFilter"@ || s == "notch"@ {
        Some(FilterType::Notch)
    } else {
        None
    }
}

/// Map a Sonar filter-type name onto ours; an unknown name is an error.
pub fn parse_filter_type(s: &str) -> (r: Result<FilterType, String>)
    ensures
        match r {
            Ok(f) => sonar_filter_type(s@) == Some(f),
            Err(e) => sonar_filter_type(s@) is None && e@ == "Unknown Sonar filter type: "@ + s@,
        },
{
    let v = chars_of(s);
    if chars_eq_str(&v, "peakingEQ") || chars_eq_str(&v, "peaking") {
        Ok(FilterType::Peaking)
    } else if chars_eq_str(&v, "lowShelving") || chars_eq_str(&v, "lowShelf") || chars_eq_str(&v, "low_shelf") {
        Ok(FilterType::LowShelf)
    } else if chars_eq_str(&v, "highShelving") || chars_eq_str(&v, "highShelf") || chars_eq_str(&v, "high_shelf") {
        Ok(FilterType::HighShelf)
    } else if chars_eq_str(&v, "lowPass") || chars_eq_str(&v, "low_pass") {
        Ok(FilterType::LowPass)
    } else if chars_eq_str(&v, "highPass") || chars_eq_str(&v, "high_pass") {
        Ok(FilterType::HighPass)
    } else if chars_eq_str(&v, "notchFilter") || chars_eq_str(&v, "notch") {
        Ok(FilterType::Notch)
    } else {
        let mut e = string_of_str("Unknown Sonar filter type: ");
        append_str(&mut e, s);
        Err(e)
    }
}

/// The names Sonar presets use for each filter type.
pub open spec fn sonar_spellings(f: FilterType) -> Seq<Seq<char>> {
    match f {
        FilterType::Peaking => seq!["peakingEQ"@, "peaking"@],
        FilterType::LowShelf => seq!["lowShelving"@, "lowShelf"@, "low_shelf"@],
        FilterType::HighShelf => seq!["highShelving"@, "highShelf"@, "high_shelf"@],
        FilterType::LowPass => seq!["lowPass"@, "low_pass"@],
        FilterType::HighPass => seq!["highPass"@, "high_pass"@],
        FilterType::Notch => seq!["notchFilter"@, "notch"@],
    }
}


/// A name maps to a filter type exactly when it is one of Sonar's names for
/// that type: every spelling of a high shelf reads as a high shelf, every
/// spelling of a low shelf as a low shelf, and so on, and a name of one
/// type never reads as another.
pub proof fn law_sonar_names_map_to_their_type(s: Seq<char>, f: FilterType)
    ensures
        sonar_filter_type(s) == Some(f) <==> sonar_spellings(f).contains(s),
{
    reveal_strlit("peakingEQ");
    reveal_strlit("peaking");
    reveal_strlit("lowShelving");
    reveal_strlit("lowShelf");
    reveal_strlit("low_shelf");
    reveal_strlit("highShelving");
    reveal_strlit("highShelf");
    reveal_strlit("high_shelf");
    reveal_strlit("lowPass");
    reveal_strlit("low_pass");
    reveal_strlit("highPass");
    reveal_strlit("high_pass");
    reveal_strlit("notchFilter");
    reveal_strlit("notch");
    if sonar_spellings(f).contains(s) {
        let i = choose|i: int| 0 <= i < sonar_spellings(f).len() && sonar_spellings(f)[i] == s;
        match f {
            FilterType::Peaking => {
                assert(s == "peakingEQ"@ || s == "peaking"@);
            },
            FilterType::LowShelf => {
                assert(s == "lowShelving"@ || s == "lowShelf"@ || s == "low_shelf"@);
                assert(s[0] == 'l');
            },
            FilterType::HighShelf => {
                assert(s == "highShelving"@ || s == "highShelf"@ || s == "high_shelf"@);
                assert(s[0] == 'h');
                assert(s[4] == 'S' || s[4] == '_');
            },
            FilterType::LowPass => {
                assert(s == "lowPass"@ || s == "low_pass"@);
                assert(s[0] == 'l' && (s[3] == 'P' || s[4] == 'p'));
            },
            FilterType::HighPass => {
                assert(s == "highPass"@ || s == "high_pass"@);
                assert(s[0] == 'h' && (s[4] == 'P' || s[5] == 'p'));
            },
            FilterType::Notch => {
                assert(s == "notchFilter"@ || s == "notch"@);
                assert(s[0] == 'n');
            },
        }
    }
    if sonar_filter_type(s) == Some(f) {
        assert(sonar_spellings(f).contains(s)) by {
            match f {
                FilterType::Peaking => {
                    if s == "peakingEQ"@ { assert(sonar_spellings(f)[0] == s); } else { assert(sonar_spellings(f)[1] == s); }
                },
                FilterType::LowShelf => {
                    if s == "lowShelving"@ { assert(sonar_spellings(f)[0] == s); } else if s == "lowShelf"@ { assert(sonar_spellings(f)[1] == s); } else { assert(sonar_spellings(f)[2] == s); }
                },
                FilterType::HighShelf => {
                    if s == "highShelving"@ { assert(sonar_spellings(f)[0] == s); } else if s == "highShelf"@ { assert(sonar_spellings(f)[1] == s); } else { assert(sonar_spellings(f)[2] == s); }
                },
                FilterType::LowPass => {
                    if s == "lowPass"@ { assert(sonar_spellings(f)[0] == s); } else { assert(sonar_spellings(f)[1] == s); }
                },
                FilterType::HighPass => {
                    if s == "highPass"@ { assert(sonar_spellings(f)[0] == s); } else { assert(sonar_spellings(f)[1] == s); }
                },
                FilterType::Notch => {
                    if s == "notchFilter"@ { assert(sonar_spellings(f)[0] == s); } else { assert(sonar_spellings(f)[1] == s); }
                },
            }
        }
    }
}

/// The name a filter type is stored under is also a Sonar name for it, so
/// stored bands and imported ones agree.
pub proof fn law_stored_key_is_a_sonar_name(f: FilterType)
    ensures
        sonar_spellings(f).contains(crate::eq::model::filter_key(f)),
        sonar_filter_type(crate::eq::model::filter_key(f)) == Some(f),
{
    reveal_strlit("peakingEQ");
    reveal_strlit("peaking");
    reveal_strlit("lowShelving");
    reveal_strlit("lowShelf");
    reveal_strlit("low_shelf");
    reveal_strlit("highShelving");
    reveal_strlit("highShelf");
    reveal_strlit("high_shelf");
    reveal_strlit("lowPass");
    reveal_strlit("low_pass");
    reveal_strlit("highPass");
    reveal_strlit("high_pass");
    reveal_strlit("notchFilter");
    reveal_strlit("notch");
    match f {
        FilterType::Peaking => { assert(sonar_spellings(f)[1] == crate::eq::model::filter_key(f)); },
        FilterType::LowShelf => { assert(sonar_spellings(f)[2] == crate::eq::model::filter_key(f)); },
        FilterType::HighShelf => { assert(sonar_spellings(f)[2] == crate::eq::model::filter_key(f)); },
        FilterType::LowPass => { assert(sonar_spellings(f)[1] == crate::eq::model::filter_key(f)); },
        FilterType::HighPass => { assert(sonar_spellings(f)[1] == crate::eq::model::filter_key(f)); },
        FilterType::Notch => { assert(sonar_spellings(f)[1] == crate::eq::model::filter_key(f)); },
    }
    law_sonar_names_map_to_their_type(crate::eq::model::filter_key(f), f);
}

// ---------------------------------------------------------------------------
// Share links
// ---------------------------------------------------------------------------

/// The value of the first `url=` parameter among `&`-separated pairs.
pub open spec fn first_url_param(pairs: Seq<Seq<char>>) -> Option<Seq<char>>
    decreases pairs.len(),
{
    if pairs.len() == 0 {
        None
    } else {
        match strip_prefix(pairs[0], "url="@) {
            Some(rest) => Some(rest),
            None => first_url_param(pairs.drop_first()),
        }
    }
}

/// The `url=` query parameter of a URL, read without a URL parser: the text
/// after the first `?`, split at `&`.
pub open spec fn query_param_spec(url: Seq<char>) -> Option<Seq<char>> {
    match split_once(url, '?') {
        Some((_, q)) => first_url_param(split_seq(q, '&')),
        None => None,
    }
}

pub fn extract_url_query_param(url: &str) -> (r: Option<String>)
    ensures
        match r {
            Some(v) => query_param_spec(url@) == Some(v@),
            None => query_param_spec(url@) is None,
        },
{
    let v = chars_of(url);
    let q = match split_once_chars(&v, '?') {
        Some((_, q)) => q,
        None => {
            return None;
        },
    };
    let pairs = split_chars(&q, '&');
    let ghost ps = split_seq(q@, '&');
    let mut i: usize = 0;
    assert(ps.subrange(0, ps.len() as int) =~= ps);
    while i < pairs.len()
        invariant
            i <= pairs.len(),
            views(pairs@) == ps,
            query_param_spec(url@) == first_url_param(ps.subrange(i as int, ps.len() as int)),
        decreases pairs.len() - i,
    {
        let ghost rest = ps.subrange(i as int, ps.len() as int);
        assert(rest[0] == pairs@[i as int]@);
        assert(rest.drop_first() =~= ps.subrange(i + 1, ps.len() as int));
        match strip_prefix_str(&pairs[i], "url=") {
            Some(r) => {
                return Some(string_of(&r));
            },
            None => {},
        }
        i = i + 1;
    }
    None
}

/// The UTF-8 encoding of one character.
pub open spec fn utf8_char(c: char) -> Seq<u8> {
    let n = c as u32;
    if n < 0x80 {
        seq![n as u8]
    } else if n < 0x800 {
        seq![(0xC0 + n / 64) as u8, (0x80 + n % 64) as u8]
    } else if n < 0x10000 {
        seq![(0xE0 + n / 4096) as u8, (0x80 + (n / 64) % 64) as u8, (0x80 + n % 64) as u8]
    } else {
        seq![
            (0xF0 + n / 262144) as u8,
            (0x80 + (n / 4096) % 64) as u8,
            (0x80 + (n / 64) % 64) as u8,
            (0x80 + n % 64) as u8
        ]
    }
}

/// `s.as_bytes()`: the UTF-8 encoding of `s`.
pub open spec fn utf8_encode(s: Seq<char>) -> Seq<u8>
    decreases s.len(),
{
    if s.len() == 0 {
        seq![]
    } else {
        utf8_encode(s.drop_last()) + utf8_char(s.last())
    }
}

fn push_utf8(out: &mut Vec<u8>, c: char)
    ensures
        final(out)@ == old(out)@ + utf8_char(c),
{
    let n = c as u32;
    if n < 0x80 {
        out.push(n as u8);
    } else if n < 0x800 {
        out.push((0xC0 + n / 64) as u8);
        out.push((0x80 + n % 64) as u8);
    } else if n < 0x10000 {
        out.push((0xE0 + n / 4096) as u8);
        out.push((0x80 + (n / 64) % 64) as u8);
        out.push((0x80 + n % 64) as u8);
    } else {
        out.push((0xF0 + n / 262144) as u8);
        out.push((0x80 + (n / 4096) % 64) as u8);
        out.push((0x80 + (n / 64) % 64) as u8);
        out.push((0x80 + n % 64) as u8);
    }
    assert(final(out)@ =~= old(out)@ + utf8_char(c));
}

/// The UTF-8 bytes of `s`.
pub fn utf8_bytes(s: &str) -> (r: Vec<u8>)
    ensures
        r@ == utf8_encode(s@),
{
    let v = chars_of(s);
    let mut out: Vec<u8> = Vec::new();
    let mut i: usize = 0;
    assert(v@.take(0) =~= Seq::<char>::empty());
    while i < v.len()
        invariant
            i <= v.len(),
            v@ == s@,
            out@ == utf8_encode(v@.take(i as int)),
        decreases v.len() - i,
    {
        assert(v@.take(i + 1).drop_last() =~= v@.take(i as int));
        assert(v@.take(i + 1).last() == v@[i as int]);
        push_utf8(&mut out, v[i]);
        i = i + 1;
    }
    assert(v@.take(v.len() as int) =~= v@);
    out
}

/// What `base64`'s `STANDARD` engine decodes `input` to, or the text of its
/// error.
pub uninterp spec fn base64_standard(input: Seq<u8>) -> Result<Seq<u8>, Seq<char>>;

/// What `base64`'s `URL_SAFE` engine decodes `input` to, or the text of its
/// error.
pub uninterp spec fn base64_url_safe(input: Seq<u8>) -> Result<Seq<u8>, Seq<char>>;

/// What `base64`'s `STANDARD_NO_PAD` engine decodes `input` to, or the text
/// of its error.
pub uninterp spec fn base64_standard_no_pad(input: Seq<u8>) -> Result<Seq<u8>, Seq<char>>;

/// What `base64`'s `URL_SAFE_NO_PAD` engine decodes `input` to, or the text
/// of its error.
pub uninterp spec fn base64_url_safe_no_pad(input: Seq<u8>) -> Result<Seq<u8>, Seq<char>>;

/// What `String::from_utf8` makes of `bytes`: the characters, or the text of
/// its error.
pub uninterp spec fn utf8_decode(bytes: Seq<u8>) -> Result<Seq<char>, Seq<char>>;

pub open spec fn bytes_result(r: Result<Vec<u8>, String>) -> Result<Seq<u8>, Seq<char>> {
    match r {
        Ok(v) => Ok(v@),
        Err(e) => Err(e@),
    }
}

pub open spec fn string_result(r: Result<String, String>) -> Result<Seq<char>, Seq<char>> {
    match r {
        Ok(v) => Ok(v@),
        Err(e) => Err(e@),
    }
}

/// `base64::engine::general_purpose::STANDARD.decode(input)`, its error
/// rendered with `Display`. The result is named, not described: this crate
/// claims only that it depends on the input alone.
#[verifier::external_body]
fn decode_standard(input: &Vec<u8>) -> (r: Result<Vec<u8>, String>)
    ensures
        bytes_result(r) == base64_standard(input@),
{
    match base64::Engine::decode(&base64::engine::general_purpose::STANDARD, input) {
        Ok(v) => Ok(v),
        Err(e) => Err(e.to_string()),
    }
}

/// `base64::engine::general_purpose::URL_SAFE.decode(input)`, its error
/// rendered with `Display`; the result is named, as for `decode_standard`.
#[verifier::external_body]
fn decode_url_safe(input: &Vec<u8>) -> (r: Result<Vec<u8>, String>)
    ensures
        bytes_result(r) == base64_url_safe(input@),
{
    match base64::Engine::decode(&base64::engine::general_purpose::URL_SAFE, input) {
        Ok(v) => Ok(v),
        Err(e) => Err(e.to_string()),
    }
}

/// `base64::engine::general_purpose::STANDARD_NO_PAD.decode(input)`, its
/// error rendered with `Display`; the result is named, as for
/// `decode_standard`.
#[verifier::external_body]
fn decode_standard_no_pad(input: &Vec<u8>) -> (r: Result<Vec<u8>, String>)
    ensures
        bytes_result(r) == base64_standard_no_pad(input@),
{
    match base64::Engine::decode(&base64::engine::general_purpose::STANDARD_NO_PAD, input) {
        Ok(v) => Ok(v),
        Err(e) => Err(e.to_string()),
    }
}

/// `base64::engine::general_purpose::URL_SAFE_NO_PAD.decode(input)`, its
/// error rendered with `Display`; the result is named, as for
/// `decode_standard`.
#[verifier::external_body]
fn decode_url_safe_no_pad(input: &Vec<u8>) -> (r: Result<Vec<u8>, String>)
    ensures
        bytes_result(r) == base64_url_safe_no_pad(input@),
{
    match base64::Engine::decode(&base64::engine::general_purpose::URL_SAFE_NO_PAD, input) {
        Ok(v) => Ok(v),
        Err(e) => Err(e.to_string()),
    }
}

/// `String::from_utf8(bytes)`, its error rendered with `Display`. The result
/// is named; the facts stated are those std documents: it succeeds exactly
/// when the bytes are the UTF-8 encoding of some text, and then the string's
/// UTF-8 bytes are the input. The error text is left unsaid.
#[verifier::external_body]
fn string_from_utf8(bytes: Vec<u8>) -> (r: Result<String, String>)
    ensures
        string_result(r) == utf8_decode(bytes@),
        r matches Ok(s) ==> utf8_encode(s@) == bytes@,
        (exists|s: Seq<char>| utf8_encode(s) == bytes@) ==> r is Ok,
{
    match String::from_utf8(bytes) {
        Ok(s) => Ok(s),
        Err(e) => Err(e.to_string()),
    }
}

/// The engines tried in turn on a share payload; the last one's error is
/// the one reported.
pub open spec fn decode_chain(b: Seq<u8>) -> Result<Seq<u8>, Seq<char>> {
    match base64_standard(b) {
        Ok(v) => Ok(v),
        Err(_) => match base64_url_safe(b) {
            Ok(v) => Ok(v),
            Err(_) => match base64_standard_no_pad(b) {
                Ok(v) => Ok(v),
                Err(_) => base64_url_safe_no_pad(b),
            },
        },
    }
}

/// Base64-decode a share link's payload, trying the standard, URL-safe,
/// unpadded standard and unpadded URL-safe alphabets in turn.
pub fn decode_share_payload(encoded: &str) -> (r: Result<Vec<u8>, String>)
    ensures
        bytes_result(r) == decode_chain(utf8_encode(encoded@)),
{
    let b = utf8_bytes(encoded);
    match decode_standard(&b) {
        Ok(v) => Ok(v),
        Err(_) => match decode_url_safe(&b) {
            Ok(v) => Ok(v),
            Err(_) => match decode_standard_no_pad(&b) {
                Ok(v) => Ok(v),
                Err(_) => decode_url_safe_no_pad(&b),
            },
        },
    }
}

pub open spec fn cdn_host() -> Seq<char> {
    "community-configs.steelseriescdn.com"@
}

/// What a decoded share payload resolves to: it must be UTF-8 text naming
/// the Sonar config CDN.
pub open spec fn share_target_spec(decoded: Result<Seq<char>, Seq<char>>) -> Result<Seq<char>, Seq<char>> {
    match decoded {
        Err(e) => Err("Decoded share URL is not valid UTF-8: "@ + e),
        Ok(s) => if contains_seq(s, cdn_host()) {
            Ok(s)
        } else {
            Err("Decoded share URL does not point at the Sonar config CDN: "@ + s)
        },
    }
}

/// Accept a decoded share payload only when it names the Sonar config CDN.
pub fn share_target(decoded: Result<String, String>) -> (r: Result<String, String>)
    ensures
        string_result(r) == share_target_spec(string_result(decoded)),
{
    match decoded {
        Err(e) => {
            let mut m = string_of_str("Decoded share URL is not valid UTF-8: ");
            append_str(&mut m, e.as_str());
            Err(m)
        },
        Ok(s) => {
            let v = chars_of(s.as_str());
            if contains_str(&v, "community-configs.steelseriescdn.com") {
                Ok(s)
            } else {
                let mut m = string_of_str("Decoded share URL does not point at the Sonar config CDN: ");
                append_str(&mut m, s.as_str());
                Err(m)
            }
        },
    }
}

/// Where a pasted URL leads: a raw CDN URL is taken as it is; a share
/// deeplink's base64 `url=` payload is decoded and must name the CDN.
pub open spec fn resolve_cdn_url_spec(url: Seq<char>) -> Result<Seq<char>, Seq<char>> {
    let t = trim(url);
    if t.len() == 0 {
        Err("Empty URL"@)
    } else if contains_seq(t, "community-configs.steelseriescdn.com/"@) {
        Ok(t)
    } else {
        match query_param_spec(t) {
            Some(enc) => match decode_chain(utf8_encode(enc)) {
                Err(e) => Err("Failed to base64-decode share URL payload: "@ + e),
                Ok(bytes) => share_target_spec(utf8_decode(bytes)),
            },
            None => Err("URL is neither a Sonar share deeplink nor a community-configs CDN URL"@),
        }
    }
}

/// Resolve a pasted Sonar URL to the config CDN URL to fetch.
pub fn resolve_cdn_url(url: &str) -> (r: Result<String, String>)
    ensures
        string_result(r) == resolve_cdn_url_spec(url@),
{
    let tv = trim_str(url);
    let t = string_of(&tv);
    if tv.len() == 0 {
        return Err(string_of_str("Empty URL"));
    }
    if contains_str(&tv, "community-configs.steelseriescdn.com/") {
        return Ok(t);
    }
    match extract_url_query_param(t.as_str()) {
        Some(enc) => match decode_share_payload(enc.as_str()) {
            Err(e) => {
                let mut m = string_of_str("Failed to base64-decode share URL payload: ");
                append_str(&mut m, e.as_str());
                Err(m)
            },
            Ok(bytes) => share_target(string_from_utf8(bytes)),
        },
        None => Err(string_of_str("URL is neither a Sonar share deeplink nor a community-configs CDN URL")),
    }
}

} // verus!
