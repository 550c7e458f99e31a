//! The virtual sinks and source this app manages, and the parsers for the
//! `pactl` output that concerns them.
use vstd::prelude::*;

use crate::text::{
    append_str, chars_eq_str, chars_of, ends_with, ends_with_str, lines_seq, lines_str,
    parse_u32_chars, parse_unsigned, slice_chars, split_once_str, split_once_sub,
    split_whitespace_chars, split_ws, starts_with, starts_with_str, string_of, string_of_str,
    strip_prefix, strip_prefix_str,
    trim, trim_chars, trim_matches, trim_matches_chars, views,
};

verus! {

/// Sinks whose volumes the HID dial controls.
pub const GAME_SINK_NAME: &'static str = "SteelSeries_Game";
pub const CHAT_SINK_NAME: &'static str = "SteelSeries_Chat";

/// Passive utility sinks: the user routes apps to them by hand.
pub const MUSIC_SINK_NAME: &'static str = "SteelSeries_Music";
pub const AUX_SINK_NAME: &'static str = "SteelSeries_Aux";

/// The virtual microphone, an Audio/Source/Virtual node so that apps list it
/// as an input device.
pub const MIC_SOURCE_NAME: &'static str = "SteelSeries_Mic";

/// The output sinks, in creation order: node name, description, position.
pub open spec fn all_sinks() -> Seq<(Seq<char>, Seq<char>, Seq<char>)> {
    seq![
        ("SteelSeries_Game"@, "SteelSeries Game"@, "FL,FR"@),
        ("SteelSeries_Chat"@, "SteelSeries Chat"@, "FL,FR"@),
        ("SteelSeries_Music"@, "SteelSeries Music"@, "FL,FR"@),
        ("SteelSeries_Aux"@, "SteelSeries Aux"@, "FL,FR"@)
    ]
}

/// The virtual sources: node name, description, position.
pub open spec fn all_sources() -> Seq<(Seq<char>, Seq<char>, Seq<char>)> {
    seq![("SteelSeries_Mic"@, "SteelSeries Mic"@, "MONO"@)]
}

/// Names used by earlier versions, with the current name of each.
pub open spec fn legacy_migrations() -> Seq<(Seq<char>, Seq<char>)> {
    seq![
        ("ChatMix_Game"@, "SteelSeries_Game"@),
        ("ChatMix_Chat"@, "SteelSeries_Chat"@),
        ("ChatMix_Music"@, "SteelSeries_Music"@),
        ("ChatMix_Aux"@, "SteelSeries_Aux"@),
        ("ChatMix_Mic"@, "SteelSeries_Mic"@)
    ]
}

pub open spec fn is_managed_spec(name: Seq<char>) -> bool {
    exists|i: int| 0 <= i < all_sinks().len() && (#[trigger] all_sinks()[i]).0 == name
}

/// True if the name is one of the output sinks this app manages.
pub fn is_managed(sink_name: &str) -> (r: bool)
    ensures
        r == is_managed_spec(sink_name@),
{
    let v = chars_of(sink_name);
    let r = chars_eq_str(&v, "SteelSeries_Game") || chars_eq_str(&v, "SteelSeries_Chat")
        || chars_eq_str(&v, "SteelSeries_Music") || chars_eq_str(&v, "SteelSeries_Aux");
    proof {
        let s = all_sinks();
        if r {
            if v@ == "SteelSeries_Game"@ {
                assert(s[0].0 == sink_name@);
            } else if v@ == "SteelSeries_Chat"@ {
                assert(s[1].0 == sink_name@);
            } else if v@ == "SteelSeries_Music"@ {
                assert(s[2].0 == sink_name@);
            } else {
                assert(s[3].0 == sink_name@);
            }
        } else {
            assert forall|i: int| 0 <= i < s.len() implies (#[trigger] s[i]).0 != sink_name@ by {
                if i == 0 {
                } else if i == 1 {
                } else if i == 2 {
                } else {
                }
            }
        }
    }
    r
}

/// The current name for a legacy name, if it is one.
pub open spec fn migrate_spec(old_name: Seq<char>) -> Option<Seq<char>> {
    let m = legacy_migrations();
    if old_name == m[0].0 {
        Some(m[0].1)
    } else if old_name == m[1].0 {
        Some(m[1].1)
    } else if old_name == m[2].0 {
        Some(m[2].1)
    } else if old_name == m[3].0 {
        Some(m[3].1)
    } else if old_name == m[4].0 {
        Some(m[4].1)
    } else {
        None
    }
}

/// If `old_name` is a legacy name, the current one.
pub fn migrate_legacy_name(old_name: &str) -> (r: Option<&'static str>)
    ensures
        match r {
            Some(n) => migrate_spec(old_name@) == Some(n@),
            None => migrate_spec(old_name@) is None,
        },
{
    let v = chars_of(old_name);
    if chars_eq_str(&v, "ChatMix_Game") {
        Some("SteelSeries_Game")
    } else if chars_eq_str(&v, "ChatMix_Chat") {
        Some("SteelSeries_Chat")
    } else if chars_eq_str(&v, "ChatMix_Music") {
        Some("SteelSeries_Music")
    } else if chars_eq_str(&v, "ChatMix_Aux") {
        Some("SteelSeries_Aux")
    } else if chars_eq_str(&v, "ChatMix_Mic") {
        Some("SteelSeries_Mic")
    } else {
        None
    }
}

/// The volume a word of `pactl` output gives: digits followed by one `%`.
pub open spec fn volume_word(w: Seq<char>) -> Option<nat> {
    if w.len() > 0 && w.last() == '%' {
        parse_unsigned(w.drop_last(), u32::MAX as nat)
    } else {
        None
    }
}

/// The first word, in order, that gives a volume.
pub open spec fn first_volume(words: Seq<Seq<char>>) -> Option<nat>
    decreases words.len(),
{
    if words.len() == 0 {
        None
    } else {
        match volume_word(words[0]) {
            Some(v) => Some(v),
            None => first_volume(words.drop_first()),
        }
    }
}

/// Extract the first `NNN%` value from `pactl get-*-volume` output, e.g.
/// `Volume: front-left: 65536 / 100% / 0.00 dB, ...`.
pub fn parse_volume_percent(output: &str) -> (r: Result<u32, String>)
    ensures
        match r {
            Ok(v) => first_volume(split_ws(output@)) == Some(v as nat),
            Err(_) => first_volume(split_ws(output@)) is None,
        },
{
    let v = chars_of(output);
    let words = split_whitespace_chars(&v);
    let ghost ws = split_ws(output@);
    let mut i: usize = 0;
    assert(ws.subrange(0, ws.len() as int) =~= ws);
    while i < words.len()
        invariant
            i <= words.len(),
            crate::text::views(words@) == ws,
            ws == split_ws(output@),
            first_volume(ws) == first_volume(ws.subrange(i as int, ws.len() as int)),
        decreases words.len() - i,
    {
        let ghost rest = ws.subrange(i as int, ws.len() as int);
        assert(rest[0] == words@[i as int]@);
        assert(rest.drop_first() =~= ws.subrange(i + 1, ws.len() as int));
        let w = &words[i];
        if w.len() > 0 && w[w.len() - 1] == '%' {
            let digits = slice_chars(w, 0, w.len() - 1);
            assert(digits@ =~= w@.drop_last());
            match parse_u32_chars(&digits) {
                Some(n) => {
                    assert(rest.len() > 0);
                    assert(volume_word(rest[0]) == Some(n as nat));
                    return Ok(n);
                },
                None => {},
            }
        }
        i = i + 1;
    }
    Err(string_of_str("Could not parse volume percentage from pactl output"))
}

/// One node to create: node name, description, media class, position.
pub open spec fn node_plan() -> Seq<(Seq<char>, Seq<char>, Seq<char>, Seq<char>)> {
    seq![
        ("SteelSeries_Game"@, "SteelSeries Game"@, "Audio/Sink"@, "FL,FR"@),
        ("SteelSeries_Chat"@, "SteelSeries Chat"@, "Audio/Sink"@, "FL,FR"@),
        ("SteelSeries_Music"@, "SteelSeries Music"@, "Audio/Sink"@, "FL,FR"@),
        ("SteelSeries_Aux"@, "SteelSeries Aux"@, "Audio/Sink"@, "FL,FR"@),
        ("SteelSeries_Mic"@, "SteelSeries Mic"@, "Audio/Source/Virtual"@, "MONO"@)
    ]
}

/// The nodes this app owns, as destroyed on shutdown: sinks, then sources.
pub open spec fn owned_node_names() -> Seq<Seq<char>> {
    seq![
        "SteelSeries_Game"@, "SteelSeries_Chat"@, "SteelSeries_Music"@, "SteelSeries_Aux"@,
        "SteelSeries_Mic"@
    ]
}

/// The nodes removed before creating fresh ones: the owned nodes, then
/// every legacy name.
pub open spec fn orphan_node_names() -> Seq<Seq<char>> {
    owned_node_names() + seq![
        "ChatMix_Game"@, "ChatMix_Chat"@, "ChatMix_Music"@, "ChatMix_Aux"@, "ChatMix_Mic"@
    ]
}

/// The `pw-cli create-node adapter` properties for one node.
pub open spec fn node_props_spec(name: Seq<char>, description: Seq<char>, media_class: Seq<char>, position: Seq<char>) -> Seq<char> {
    "{ factory.name=support.null-audio-sink node.name="@ + name + " node.description=\""@
        + description + "\" media.class="@ + media_class + " object.linger=true audio.position=["@
        + position + "] monitor.channel-volumes=true monitor.passthrough=true }"@
}

pub fn node_props(name: &str, description: &str, media_class: &str, position: &str) -> (r: String)
    ensures
        r@ == node_props_spec(name@, description@, media_class@, position@),
{
    let mut s = string_of_str("{ factory.name=support.null-audio-sink node.name=");
    append_str(&mut s, name);
    append_str(&mut s, " node.description=\"");
    append_str(&mut s, description);
    append_str(&mut s, "\" media.class=");
    append_str(&mut s, media_class);
    append_str(&mut s, " object.linger=true audio.position=[");
    append_str(&mut s, position);
    append_str(&mut s, "] monitor.channel-volumes=true monitor.passthrough=true }");
    s
}


// ---------------------------------------------------------------------------
// `pactl list sinks` / `pactl list sources`
// ---------------------------------------------------------------------------

/// A physical device: node name, description, and the optional stable-id
/// properties `device.product.name`, `device.bus_path` and
/// `api.bluez5.address` that let a picker find the same device again.
pub type PhysicalSourceRecord = (String, String, Option<String>, Option<String>, Option<String>);

/// Which records a device listing leaves out.
#[derive(Debug, Clone, Copy, PartialEq, Eq, Structural)]
pub enum DeviceFilter {
    /// Output sinks: leaves out this app's sinks and sources and EQ nodes.
    PhysicalSinks,
    /// Input sources: leaves out the virtual mic, monitors and EQ nodes.
    PhysicalSources,
    /// Keeps every record.
    KeepAll,
}

pub open spec fn excluded(f: DeviceFilter, n: Seq<char>) -> bool {
    match f {
        DeviceFilter::PhysicalSinks => is_managed_spec(n) || (exists|i: int|
            0 <= i < all_sources().len() && (#[trigger] all_sources()[i]).0 == n) || starts_with(n, "eq_"@),
        DeviceFilter::PhysicalSources => n == "SteelSeries_Mic"@ || ends_with(n, ".monitor"@) || starts_with(n, "eq_"@)
            || (exists|i: int| 0 <= i < all_sinks().len() && (#[trigger] all_sinks()[i]).0 + ".monitor"@ == n),
        DeviceFilter::KeepAll => false,
    }
}

fn is_excluded(f: DeviceFilter, n: &Vec<char>) -> (r: bool)
    ensures
        r == excluded(f, n@),
{
    match f {
        DeviceFilter::PhysicalSinks => {
            let s = string_of(n);
            let managed = is_managed(s.as_str());
            let mic = chars_eq_str(n, "SteelSeries_Mic");
            let eq = starts_with_str(n, "eq_");
            proof {
                if mic {
                    assert(all_sources()[0].0 == n@);
                } else {
                    assert forall|i: int| 0 <= i < all_sources().len() implies (#[trigger] all_sources()[i]).0 != n@ by {
                    }
                }
            }
            managed || mic || eq
        },
        DeviceFilter::PhysicalSources => {
            let mic = chars_eq_str(n, "SteelSeries_Mic");
            let monitor = ends_with_str(n, ".monitor");
            let eq = starts_with_str(n, "eq_");
            proof {
                if !monitor {
                    assert forall|i: int| 0 <= i < all_sinks().len() implies (#[trigger] all_sinks()[i]).0 + ".monitor"@ != n@ by {
                        let m = all_sinks()[i].0 + ".monitor"@;
                        assert(m.subrange(m.len() - ".monitor"@.len(), m.len() as int) =~= ".monitor"@);
                    }
                }
            }
            mic || monitor || eq
        },
        DeviceFilter::KeepAll => false,
    }
}

/// The abstract value of a record.
pub type DeviceView = (Seq<char>, Seq<char>, Option<Seq<char>>, Option<Seq<char>>, Option<Seq<char>>);

/// The parser's state between lines: records so far, the fields of the
/// current record, and whether the current line may be a property.
pub struct DevParse {
    pub out: Seq<DeviceView>,
    pub name: Option<Seq<char>>,
    pub desc: Option<Seq<char>>,
    pub product: Option<Seq<char>>,
    pub bus: Option<Seq<char>>,
    pub bt: Option<Seq<char>>,
    pub in_props: bool,
}

pub open spec fn dev_start() -> DevParse {
    DevParse { out: seq![], name: None, desc: None, product: None, bus: None, bt: None, in_props: false }
}

/// Close the current record: keep it when it has a name the filter does not
/// exclude (a missing description reads as empty), then clear every field.
pub open spec fn dev_flush(s: DevParse, f: DeviceFilter) -> DevParse {
    let out = match s.name {
        Some(n) => if !excluded(f, n) {
            s.out.push((n, match s.desc { Some(d) => d, None => seq![] }, s.product, s.bus, s.bt))
        } else {
            s.out
        },
        None => s.out,
    };
    DevParse { out, name: None, desc: None, product: None, bus: None, bt: None, ..s }
}

/// One line of the listing.
pub open spec fn dev_line(s: DevParse, line: Seq<char>, f: DeviceFilter) -> DevParse {
    let t = trim(line);
    let indented = line != t && t.len() > 0;
    if starts_with(line, "Source #"@) || starts_with(line, "Sink #"@) {
        DevParse { in_props: false, ..dev_flush(s, f) }
    } else if t.len() == 0 {
        DevParse { in_props: false, ..s }
    } else if strip_prefix(t, "Name: "@) is Some {
        DevParse { name: strip_prefix(t, "Name: "@), in_props: false, ..s }
    } else if strip_prefix(t, "Description: "@) is Some {
        DevParse { desc: strip_prefix(t, "Description: "@), in_props: false, ..s }
    } else if t == "Properties:"@ {
        DevParse { in_props: true, ..s }
    } else if s.in_props && indented {
        match split_once_sub(t, " = "@) {
            Some((key, value)) => {
                let v = trim_matches(value, '"');
                if key == "device.product.name"@ {
                    DevParse { product: Some(v), ..s }
                } else if key == "device.bus_path"@ {
                    DevParse { bus: Some(v), ..s }
                } else if key == "api.bluez5.address"@ {
                    DevParse { bt: Some(v), ..s }
                } else {
                    s
                }
            },
            None => s,
        }
    } else if !indented {
        DevParse { in_props: false, ..s }
    } else {
        s
    }
}

pub open spec fn dev_lines(lines: Seq<Seq<char>>, f: DeviceFilter) -> DevParse
    decreases lines.len(),
{
    if lines.len() == 0 {
        dev_start()
    } else {
        dev_line(dev_lines(lines.drop_last(), f), lines.last(), f)
    }
}

/// The records of a `pactl list sinks|sources` listing that the filter keeps.
pub open spec fn device_list_spec(text: Seq<char>, f: DeviceFilter) -> Seq<DeviceView> {
    dev_flush(dev_lines(lines_seq(text), f), f).out
}

/// Every record the parser has kept passed the filter.
pub open spec fn all_kept(out: Seq<DeviceView>, f: DeviceFilter) -> bool {
    forall|k: int| 0 <= k < out.len() ==> !excluded(f, (#[trigger] out[k]).0)
}

proof fn lemma_dev_lines_keep_only_allowed(lines: Seq<Seq<char>>, f: DeviceFilter)
    ensures
        all_kept(dev_lines(lines, f).out, f),
    decreases lines.len(),
{
    if lines.len() > 0 {
        lemma_dev_lines_keep_only_allowed(lines.drop_last(), f);
        let s = dev_lines(lines.drop_last(), f);
        let fl = dev_flush(s, f);
        assert(all_kept(fl.out, f)) by {
            match s.name {
                Some(n) => {
                    if !excluded(f, n) {
                        assert forall|k: int| 0 <= k < fl.out.len() implies !excluded(f, (#[trigger] fl.out[k]).0) by {
                            if k < s.out.len() {
                                assert(fl.out[k] == s.out[k]);
                            }
                        }
                    }
                },
                None => {},
            }
        }
    }
}

proof fn lemma_device_list_keeps_only_allowed(text: Seq<char>, f: DeviceFilter)
    ensures
        all_kept(device_list_spec(text, f), f),
{
    let s = dev_lines(lines_seq(text), f);
    lemma_dev_lines_keep_only_allowed(lines_seq(text), f);
    let fl = dev_flush(s, f);
    match s.name {
        Some(n) => {
            if !excluded(f, n) {
                assert forall|k: int| 0 <= k < fl.out.len() implies !excluded(f, (#[trigger] fl.out[k]).0) by {
                    if k < s.out.len() {
                        assert(fl.out[k] == s.out[k]);
                    }
                }
            }
        },
        None => {},
    }
}

/// The physical outputs offered never include this app's own nodes: no
/// EQ filter-chain node (a name starting `eq_`), none of its virtual sinks
/// and not its virtual mic.
pub proof fn law_physical_sinks_leave_out_own_nodes(text: Seq<char>, k: int)
    requires
        0 <= k < device_list_spec(text, DeviceFilter::PhysicalSinks).len(),
    ensures
        ({
            let n = device_list_spec(text, DeviceFilter::PhysicalSinks)[k].0;
            &&& !starts_with(n, "eq_"@)
            &&& forall|i: int| 0 <= i < all_sinks().len() ==> (#[trigger] all_sinks()[i]).0 != n
            &&& forall|i: int| 0 <= i < all_sources().len() ==> (#[trigger] all_sources()[i]).0 != n
        }),
{
    lemma_device_list_keeps_only_allowed(text, DeviceFilter::PhysicalSinks);
    let n = device_list_spec(text, DeviceFilter::PhysicalSinks)[k].0;
    assert(!excluded(DeviceFilter::PhysicalSinks, n));
}

/// The physical inputs offered never include this app's own nodes or any
/// monitor: no EQ node, no `.monitor` source (so none of its virtual sinks'
/// monitors) and not its virtual mic.
pub proof fn law_physical_sources_leave_out_own_nodes(text: Seq<char>, k: int)
    requires
        0 <= k < device_list_spec(text, DeviceFilter::PhysicalSources).len(),
    ensures
        ({
            let n = device_list_spec(text, DeviceFilter::PhysicalSources)[k].0;
            &&& !starts_with(n, "eq_"@)
            &&& !ends_with(n, ".monitor"@)
            &&& n != "SteelSeries_Mic"@
            &&& forall|i: int| 0 <= i < all_sinks().len() ==> (#[trigger] all_sinks()[i]).0 + ".monitor"@ != n
        }),
{
    lemma_device_list_keeps_only_allowed(text, DeviceFilter::PhysicalSources);
    let n = device_list_spec(text, DeviceFilter::PhysicalSources)[k].0;
    assert(!excluded(DeviceFilter::PhysicalSources, n));
}

pub open spec fn opt_chars(o: Option<Vec<char>>) -> Option<Seq<char>> {
    match o {
        Some(v) => Some(v@),
        None => None,
    }
}

pub open spec fn opt_string(o: Option<String>) -> Option<Seq<char>> {
    match o {
        Some(v) => Some(v@),
        None => None,
    }
}

pub open spec fn record_view(r: PhysicalSourceRecord) -> DeviceView {
    (r.0@, r.1@, opt_string(r.2), opt_string(r.3), opt_string(r.4))
}

pub open spec fn records_view(v: Seq<PhysicalSourceRecord>) -> Seq<DeviceView> {
    v.map_values(|r: PhysicalSourceRecord| record_view(r))
}

fn to_string_opt(o: &Option<Vec<char>>) -> (r: Option<String>)
    ensures
        opt_string(r) == opt_chars(*o),
{
    match o {
        Some(v) => Some(string_of(v)),
        None => None,
    }
}

/// The exec state of the parser.
struct DevState {
    out: Vec<PhysicalSourceRecord>,
    name: Option<Vec<char>>,
    desc: Option<Vec<char>>,
    product: Option<Vec<char>>,
    bus: Option<Vec<char>>,
    bt: Option<Vec<char>>,
    in_props: bool,
}

spec fn dev_state_view(s: DevState) -> DevParse {
    DevParse {
        out: records_view(s.out@),
        name: opt_chars(s.name),
        desc: opt_chars(s.desc),
        product: opt_chars(s.product),
        bus: opt_chars(s.bus),
        bt: opt_chars(s.bt),
        in_props: s.in_props,
    }
}

fn dev_flush_exec(s: &mut DevState, f: DeviceFilter)
    ensures
        dev_state_view(*final(s)) == (DevParse { in_props: old(s).in_props, ..dev_flush(dev_state_view(*old(s)), f) }),
{
    let ghost before = records_view(s.out@);
    match &s.name {
        Some(n) => {
            if !is_excluded(f, n) {
                let d = match &s.desc {
                    Some(d) => string_of(d),
                    None => String::new(),
                };
                let rec: PhysicalSourceRecord = (
                    string_of(n),
                    d,
                    to_string_opt(&s.product),
                    to_string_opt(&s.bus),
                    to_string_opt(&s.bt),
                );
                s.out.push(rec);
                assert(records_view(s.out@) =~= before.push(record_view(rec)));
            }
        },
        None => {},
    }
    s.name = None;
    s.desc = None;
    s.product = None;
    s.bus = None;
    s.bt = None;
}

fn dev_line_exec(s: &mut DevState, line: &Vec<char>, f: DeviceFilter)
    ensures
        dev_state_view(*final(s)) == dev_line(dev_state_view(*old(s)), line@, f),
{
    let t = trim_chars(line);
    let indented = !crate::text::chars_eq(line, &t) && t.len() > 0;
    if starts_with_str(line, "Source #") || starts_with_str(line, "Sink #") {
        dev_flush_exec(s, f);
        s.in_props = false;
        return;
    }
    if t.len() == 0 {
        s.in_props = false;
        return;
    }
    match strip_prefix_str(&t, "Name: ") {
        Some(rest) => {
            s.name = Some(rest);
            s.in_props = false;
            return;
        },
        None => {},
    }
    match strip_prefix_str(&t, "Description: ") {
        Some(rest) => {
            s.desc = Some(rest);
            s.in_props = false;
            return;
        },
        None => {},
    }
    if chars_eq_str(&t, "Properties:") {
        s.in_props = true;
        return;
    }
    if s.in_props && indented {
        match split_once_str(&t, " = ") {
            Some((key, value)) => {
                let v = trim_matches_chars(&value, '"');
                if chars_eq_str(&key, "device.product.name") {
                    s.product = Some(v);
                } else if chars_eq_str(&key, "device.bus_path") {
                    s.bus = Some(v);
                } else if chars_eq_str(&key, "api.bluez5.address") {
                    s.bt = Some(v);
                }
            },
            None => {},
        }
    } else if !indented {
        s.in_props = false;
    }
}

/// Parse a `pactl list sinks|sources` listing into the records the filter
/// keeps (see `device_list_spec`).
pub fn parse_device_list_inner(text: &str, filter: DeviceFilter) -> (r: Vec<PhysicalSourceRecord>)
    ensures
        records_view(r@) == device_list_spec(text@, filter),
{
    let lines = lines_str(text);
    let ghost ls = lines_seq(text@);
    let mut st = DevState {
        out: Vec::new(),
        name: None,
        desc: None,
        product: None,
        bus: None,
        bt: None,
        in_props: false,
    };
    assert(dev_state_view(st) == dev_start()) by {
        assert(records_view(st.out@) =~= Seq::<DeviceView>::empty());
    }
    let mut i: usize = 0;
    while i < lines.len()
        invariant
            i <= lines.len(),
            views(lines@) == ls,
            ls == lines_seq(text@),
            dev_state_view(st) == dev_lines(ls.take(i as int), filter),
        decreases lines.len() - i,
    {
        assert(ls.take(i + 1).drop_last() =~= ls.take(i as int));
        assert(ls.take(i + 1).last() == lines@[i as int]@);
        dev_line_exec(&mut st, &lines[i], filter);
        i = i + 1;
    }
    assert(ls.take(lines.len() as int) =~= ls);
    dev_flush_exec(&mut st, filter);
    st.out
}

/// Physical output sinks in a `pactl list sinks` listing.
pub fn list_physical_sinks(text: &str) -> (r: Vec<PhysicalSourceRecord>)
    ensures
        records_view(r@) == device_list_spec(text@, DeviceFilter::PhysicalSinks),
{
    parse_device_list_inner(text, DeviceFilter::PhysicalSinks)
}

/// Physical input sources in a `pactl list sources` listing.
pub fn list_physical_sources(text: &str) -> (r: Vec<PhysicalSourceRecord>)
    ensures
        records_view(r@) == device_list_spec(text@, DeviceFilter::PhysicalSources),
{
    parse_device_list_inner(text, DeviceFilter::PhysicalSources)
}

/// Every record of a listing, unfiltered.
pub fn parse_device_list_for_test(text: &str) -> (r: Vec<PhysicalSourceRecord>)
    ensures
        records_view(r@) == device_list_spec(text@, DeviceFilter::KeepAll),
{
    parse_device_list_inner(text, DeviceFilter::KeepAll)
}


// ---------------------------------------------------------------------------
// Creating and destroying the virtual nodes
// ---------------------------------------------------------------------------

/// One node to create with `pw-cli create-node adapter <props>`.
pub struct NodeCommand {
    pub name: String,
    pub props: String,
}

/// The nodes to create, in order, as (node name, props).
pub open spec fn node_commands() -> Seq<(Seq<char>, Seq<char>)> {
    node_plan().map_values(
        |n: (Seq<char>, Seq<char>, Seq<char>, Seq<char>)| (n.0, node_props_spec(n.0, n.1, n.2, n.3)),
    )
}

pub open spec fn node_command_view(c: NodeCommand) -> (Seq<char>, Seq<char>) {
    (c.name@, c.props@)
}

fn plan_entry(k: usize) -> (r: NodeCommand)
    requires
        k < 5,
    ensures
        node_command_view(r) == node_commands()[k as int],
{
    let (name, desc, class, pos) = if k == 0 {
        ("SteelSeries_Game", "SteelSeries Game", "Audio/Sink", "FL,FR")
    } else if k == 1 {
        ("SteelSeries_Chat", "SteelSeries Chat", "Audio/Sink", "FL,FR")
    } else if k == 2 {
        ("SteelSeries_Music", "SteelSeries Music", "Audio/Sink", "FL,FR")
    } else if k == 3 {
        ("SteelSeries_Aux", "SteelSeries Aux", "Audio/Sink", "FL,FR")
    } else {
        ("SteelSeries_Mic", "SteelSeries Mic", "Audio/Source/Virtual", "MONO")
    };
    NodeCommand { name: string_of_str(name), props: node_props(name, desc, class, pos) }
}

/// The names destroyed before creating fresh nodes, in order.
pub fn orphan_names() -> (r: Vec<String>)
    ensures
        crate::text::string_views(r@) == orphan_node_names(),
{
    let mut v: Vec<String> = Vec::new();
    crate::text::push_string(&mut v, "SteelSeries_Game");
    crate::text::push_string(&mut v, "SteelSeries_Chat");
    crate::text::push_string(&mut v, "SteelSeries_Music");
    crate::text::push_string(&mut v, "SteelSeries_Aux");
    crate::text::push_string(&mut v, "SteelSeries_Mic");
    crate::text::push_string(&mut v, "ChatMix_Game");
    crate::text::push_string(&mut v, "ChatMix_Chat");
    crate::text::push_string(&mut v, "ChatMix_Music");
    crate::text::push_string(&mut v, "ChatMix_Aux");
    crate::text::push_string(&mut v, "ChatMix_Mic");
    assert(crate::text::string_views(v@) =~= orphan_node_names());
    v
}

/// The names of the nodes this app owns, in the order they are destroyed.
pub fn owned_names() -> (r: Vec<String>)
    ensures
        crate::text::string_views(r@) == owned_node_names(),
{
    let mut v: Vec<String> = Vec::new();
    crate::text::push_string(&mut v, "SteelSeries_Game");
    crate::text::push_string(&mut v, "SteelSeries_Chat");
    crate::text::push_string(&mut v, "SteelSeries_Music");
    crate::text::push_string(&mut v, "SteelSeries_Aux");
    crate::text::push_string(&mut v, "SteelSeries_Mic");
    assert(crate::text::string_views(v@) =~= owned_node_names());
    v
}

/// Whether the planned node `k` was reported created (the hook returns the
/// error of a failed creation, None on success).
pub open spec fn created_ok<F: Fn(&NodeCommand) -> Option<String>>(create_node: F, k: int) -> bool {
    exists|c: NodeCommand| node_command_view(c) == node_commands()[k] && #[trigger] call_ensures(create_node, (&c,), None::<String>)
}

/// Whether creating the planned node `k` was reported failing with `e`.
pub open spec fn failed_at<F: Fn(&NodeCommand) -> Option<String>>(create_node: F, k: int, e: String) -> bool {
    exists|c: NodeCommand| node_command_view(c) == node_commands()[k] && #[trigger] call_ensures(create_node, (&c,), Some(e))
}

/// Some planned node failed with `e` after every earlier one was created.
pub open spec fn creation_failed<F: Fn(&NodeCommand) -> Option<String>>(create_node: F, e: String) -> bool {
    exists|k: int|
        0 <= k < node_commands().len() && (forall|j: int| 0 <= j < k ==> created_ok(create_node, j))
            && #[trigger] failed_at(create_node, k, e)
}

/// The virtual sinks and source, created together.
pub struct VirtualSinks {
    created: bool,
}

impl VirtualSinks {
    /// Remove leftover nodes (this app's and the legacy names, failures
    /// ignored), then create the sinks and the mic source in order. The first
    /// failure stops creation and is returned.
    pub fn create<C, D>(create_node: C, destroy_node: D) -> (r: Result<VirtualSinks, String>) where
        C: Fn(&NodeCommand) -> Option<String>,
        D: Fn(&str),

        requires
            forall|c: &NodeCommand| #[trigger] create_node.requires((c,)),
            forall|n: &str| #[trigger] destroy_node.requires((n,)),
        ensures
            match r {
                Ok(_) => forall|k: int| 0 <= k < node_commands().len() ==> created_ok(create_node, k),
                Err(e) => creation_failed(create_node, e),
            },
    {
        let orphans = orphan_names();
        let mut i: usize = 0;
        while i < orphans.len()
            invariant
                i <= orphans.len(),
                forall|n: &str| #[trigger] destroy_node.requires((n,)),
            decreases orphans.len() - i,
        {
            destroy_node(orphans[i].as_str());
            i = i + 1;
        }
        let mut k: usize = 0;
        while k < 5
            invariant
                k <= 5,
                node_commands().len() == 5,
                forall|c: &NodeCommand| #[trigger] create_node.requires((c,)),
                forall|j: int| 0 <= j < k ==> created_ok(create_node, j),
            decreases 5 - k,
        {
            let cmd = plan_entry(k);
            let outcome = create_node(&cmd);
            match outcome {
                None => {
                    assert(call_ensures(create_node, (&cmd,), None::<String>));
                    assert(created_ok(create_node, k as int));
                },
                Some(e) => {
                    assert(call_ensures(create_node, (&cmd,), Some(e)));
                    assert(failed_at(create_node, k as int, e));
                    assert(creation_failed(create_node, e));
                    return Err(e);
                },
            }
            k = k + 1;
        }
        Ok(VirtualSinks { created: true })
    }

    /// Destroy the sinks, then the source.
    pub fn destroy<D>(&self, destroy_node: D) where D: Fn(&str)
        requires
            forall|n: &str| #[trigger] destroy_node.requires((n,)),
    {
        let names = owned_names();
        let mut i: usize = 0;
        while i < names.len()
            invariant
                i <= names.len(),
                forall|n: &str| #[trigger] destroy_node.requires((n,)),
            decreases names.len() - i,
        {
            destroy_node(names[i].as_str());
            i = i + 1;
        }
    }
}

} // verus!
