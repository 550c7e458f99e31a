use std::cell::RefCell;
use std::collections::HashSet;

use arctis_chatmix::audio::persistence::{
    initial_seen_ids, load_mixer_routing, load_mixer_routing_mic, load_volumes, merge_assignments,
    parse_saved, parse_sink_inputs, parse_sinks_by_id, restore_assignments, restore_new_streams,
    serialize_mixer_routing, serialize_pairs, serialize_volumes, set_mixer_routing_entry,
    set_volume_entry, MicPreference, SinkInput,
};
use arctis_chatmix::audio::router::{
    effective_label, needs_rebuild, orphaned_loopback_ids, parse_added_node_global_id,
    parse_module_id_from_line,
};
use arctis_chatmix::audio::sinks::{
    is_managed, list_physical_sinks, list_physical_sources, migrate_legacy_name, node_props,
    orphan_names, owned_names, parse_device_list_for_test, parse_volume_percent, NodeCommand,
    VirtualSinks, MIC_SOURCE_NAME,
};
use arctis_chatmix::audio::state_sync::{capture_virtual_volumes, StateSyncState};
use arctis_chatmix::eq::model::FilterType;

const SAMPLE_OUTPUT: &str = "\
Source #45
\tState: SUSPENDED
\tName: alsa_input.usb-FOO-00
\tDescription: Foo USB Mic
\tProperties:
\t\tdevice.product.name = \"Foo Mic Pro\"
\t\tdevice.bus_path = \"usb-0000:00:14.0-3\"
Source #46
\tState: SUSPENDED
\tName: bluez_input.AA:BB:CC:DD:EE:FF.headset-head-unit
\tDescription: Sony WH-1000XM4
\tProperties:
\t\tapi.bluez5.address = \"AA:BB:CC:DD:EE:FF\"
\t\tdevice.product.name = \"WH-1000XM4\"
";

#[test]
fn parses_properties_block_for_two_records() {
    let out = parse_device_list_for_test(SAMPLE_OUTPUT);
    assert_eq!(out.len(), 2);
    let (name, _desc, prod, bus, bt) = &out[0];
    assert_eq!(name, "alsa_input.usb-FOO-00");
    assert_eq!(prod.as_deref(), Some("Foo Mic Pro"));
    assert_eq!(bus.as_deref(), Some("usb-0000:00:14.0-3"));
    assert!(bt.is_none());
    let (name, _, prod, bus, bt) = &out[1];
    assert_eq!(name, "bluez_input.AA:BB:CC:DD:EE:FF.headset-head-unit");
    assert_eq!(prod.as_deref(), Some("WH-1000XM4"));
    assert!(bus.is_none());
    assert_eq!(bt.as_deref(), Some("AA:BB:CC:DD:EE:FF"));
}

#[test]
fn device_descriptions_are_read() {
    let out = parse_device_list_for_test(SAMPLE_OUTPUT);
    assert_eq!(out[0].1, "Foo USB Mic");
    assert_eq!(out[1].1, "Sony WH-1000XM4");
}

#[test]
fn physical_listings_leave_out_virtual_and_monitor_nodes() {
    let sinks = "Sink #1\n\tName: SteelSeries_Game\n\tDescription: G\nSink #2\n\tName: alsa_output.pci\n\tDescription: Speakers\n";
    let out = list_physical_sinks(sinks);
    assert_eq!(out.len(), 1);
    assert_eq!(out[0].0, "alsa_output.pci");
    let sources = "Source #3\n\tName: alsa_output.pci.monitor\n\tDescription: Monitor\nSource #4\n\tName: SteelSeries_Mic\n\tDescription: M\nSource #5\n\tName: alsa_input.usb\n\tDescription: Mic\n";
    let out = list_physical_sources(sources);
    assert_eq!(out.len(), 1);
    assert_eq!(out[0].0, "alsa_input.usb");
}

#[test]
fn capture_no_change_writes_nothing() {
    let mut last = vec![(MIC_SOURCE_NAME.to_string(), 100u32)];
    let writes = capture_virtual_volumes(&mut last, None, None, None);
    assert!(writes.is_empty());
    assert_eq!(last, vec![(MIC_SOURCE_NAME.to_string(), 100u32)]);
    let writes = capture_virtual_volumes(&mut last, None, None, Some(100));
    assert!(writes.is_empty());
}

#[test]
fn capture_writes_changed_volumes_only() {
    let mut last = vec![("SteelSeries_Music".to_string(), 40u32)];
    let writes = capture_virtual_volumes(&mut last, Some(40), Some(70), Some(55));
    assert_eq!(
        writes,
        vec![("SteelSeries_Aux".to_string(), 70), ("SteelSeries_Mic".to_string(), 55)]
    );
    let again = capture_virtual_volumes(&mut last, Some(40), Some(70), Some(55));
    assert!(again.is_empty());
}

#[test]
fn load_mic_preference_5_field() {
    let pref = load_mixer_routing_mic(
        "SteelSeries_Game\talsa_output.foo\nmic\tnode_x\tProductX\tusb-0000:00:14.0-3\t00:11:22:33:44:55\n",
    )
    .unwrap();
    assert_eq!(pref.node_name, "node_x");
    assert_eq!(pref.product_name, "ProductX");
    assert_eq!(pref.bus_path, "usb-0000:00:14.0-3");
    assert_eq!(pref.bluez_address, "00:11:22:33:44:55");
}

#[test]
fn load_mic_preference_legacy_2_field() {
    let pref = load_mixer_routing_mic("mic\tnode_legacy\n").unwrap();
    assert_eq!(pref.node_name, "node_legacy");
    assert_eq!(pref.product_name, "");
    assert_eq!(pref.bus_path, "");
    assert_eq!(pref.bluez_address, "");
}

#[test]
fn load_mic_preference_legacy_3_field() {
    let pref = load_mixer_routing_mic("mic\tnode_x\tProductX\n").unwrap();
    assert_eq!(pref.node_name, "node_x");
    assert_eq!(pref.product_name, "ProductX");
    assert_eq!(pref.bus_path, "");
    assert_eq!(pref.bluez_address, "");
}

#[test]
fn load_mixer_routing_skips_mic_lines() {
    let routing =
        load_mixer_routing("SteelSeries_Game\talsa_a\nmic\tnode_x\tP\tB\tM\nSteelSeries_Aux\talsa_b\n");
    let get = |k: &str| routing.iter().find(|(c, _)| c == k).map(|(_, d)| d.as_str());
    assert_eq!(get("SteelSeries_Game"), Some("alsa_a"));
    assert_eq!(get("SteelSeries_Aux"), Some("alsa_b"));
    assert!(get("mic").is_none(), "mic must not be in homogeneous routing map");
}

#[test]
fn mixer_routing_round_trips_with_mic_line() {
    let mut routing = load_mixer_routing("SteelSeries_Game\talsa_a\n");
    set_mixer_routing_entry(&mut routing, "SteelSeries_Chat", "alsa_c");
    set_mixer_routing_entry(&mut routing, "SteelSeries_Game", "alsa_z");
    let mic = Some(MicPreference::from_fields(
        "node".into(),
        "Prod".into(),
        "".into(),
        "AA".into(),
    ));
    let text = serialize_mixer_routing(&routing, &mic);
    assert_eq!(
        text,
        "SteelSeries_Chat\talsa_c\nSteelSeries_Game\talsa_z\nmic\tnode\tProd\t\tAA\n"
    );
    let back = load_mixer_routing(&text);
    assert_eq!(back, routing);
    let m = load_mixer_routing_mic(&text).unwrap();
    assert_eq!(m.node_name, "node");
    assert_eq!(m.bluez_address, "AA");
    assert!(load_mixer_routing_mic("SteelSeries_Game\talsa_a\n").is_none());
}

#[test]
fn volumes_clamp_and_round_trip() {
    let v = load_volumes("SteelSeries_Music\t150\nSteelSeries_Aux\t 42 \nbad\tx\nnoval\n");
    assert_eq!(
        v,
        vec![("SteelSeries_Music".to_string(), 100), ("SteelSeries_Aux".to_string(), 42)]
    );
    let mut v = v;
    set_volume_entry(&mut v, "SteelSeries_Mic", 250);
    set_volume_entry(&mut v, "SteelSeries_Aux", 10);
    let text = serialize_volumes(&v);
    assert_eq!(text, "SteelSeries_Music\t100\nSteelSeries_Mic\t100\nSteelSeries_Aux\t10\n");
    assert_eq!(load_volumes(&text), v);
}

#[test]
fn saved_assignments_migrate_legacy_sink_names() {
    let saved = parse_saved("firefox\tChatMix_Music\ndiscord\tSteelSeries_Chat\nbroken\n");
    assert_eq!(
        saved,
        vec![
            ("firefox".to_string(), "SteelSeries_Music".to_string()),
            ("discord".to_string(), "SteelSeries_Chat".to_string())
        ]
    );
    assert_eq!(serialize_pairs(&saved), "firefox\tSteelSeries_Music\ndiscord\tSteelSeries_Chat\n");
}

const SINK_INPUTS: &str = "\
Sink Input #12
\tDriver: PipeWire
\tSink: 3
\tProperties:
\t\tapplication.name = \"Firefox\"
Sink Input #13
\tSink: 4
\tProperties:
\t\tapplication.name = \"Discord\"
Sink Input #14
\tSink: 4
";

fn inputs() -> Vec<SinkInput> {
    parse_sink_inputs(SINK_INPUTS)
}

#[test]
fn sink_inputs_need_id_sink_and_app() {
    let v = inputs();
    assert_eq!(v.len(), 2);
    assert_eq!((v[0].id, v[0].sink_id, v[0].app_name.as_str()), (12, 3, "Firefox"));
    assert_eq!((v[1].id, v[1].sink_id, v[1].app_name.as_str()), (13, 4, "Discord"));
}

#[test]
fn sinks_by_id_from_short_listing() {
    let s = parse_sinks_by_id("3\tSteelSeries_Music\tPipeWire\n4\talsa_output.x\tPipeWire\nbad line\n");
    assert_eq!(
        s,
        vec![(3, "SteelSeries_Music".to_string()), (4, "alsa_output.x".to_string())]
    );
}

#[test]
fn merge_keeps_absent_apps_and_forgets_moved_ones() {
    let saved = vec![
        ("Spotify".to_string(), "SteelSeries_Music".to_string()),
        ("Discord".to_string(), "SteelSeries_Chat".to_string()),
    ];
    let sinks = vec![(3, "SteelSeries_Music".to_string()), (4, "alsa_output.x".to_string())];
    let merged = merge_assignments(&saved, &sinks, &inputs());
    assert_eq!(
        merged,
        vec![
            ("Spotify".to_string(), "SteelSeries_Music".to_string()),
            ("Firefox".to_string(), "SteelSeries_Music".to_string())
        ]
    );
}

#[test]
fn restore_moves_every_saved_app() {
    let saved = vec![("Discord".to_string(), "SteelSeries_Chat".to_string())];
    let moves = restore_assignments(&saved, &inputs());
    assert_eq!(moves, vec![(13, "SteelSeries_Chat".to_string())]);
}

#[test]
fn new_streams_are_routed_once() {
    let saved = vec![
        ("Discord".to_string(), "SteelSeries_Chat".to_string()),
        ("Firefox".to_string(), "SteelSeries_Music".to_string()),
    ];
    let sinks = vec![(3, "SteelSeries_Music".to_string()), (4, "alsa_output.x".to_string())];
    let mut seen: HashSet<u32> = HashSet::new();
    let moves = restore_new_streams(&mut seen, &saved, &sinks, &inputs());
    assert_eq!(moves, vec![(13, "SteelSeries_Chat".to_string())]);
    assert!(seen.contains(&12) && seen.contains(&13));
    let again = restore_new_streams(&mut seen, &saved, &sinks, &inputs());
    assert!(again.is_empty());
}

#[test]
fn existing_streams_are_seeded_as_seen() {
    let seen = initial_seen_ids(&inputs());
    assert_eq!(seen.len(), 2);
    assert!(seen.contains(&12) && seen.contains(&13));
}

#[test]
fn state_sync_seeds_stream_sinks_and_volumes() {
    let sinks = vec![(3, "SteelSeries_Music".to_string())];
    let st = StateSyncState::new_seeded(&inputs(), &sinks, vec![("SteelSeries_Aux".to_string(), 7)]);
    assert_eq!(st.stream_sinks, vec![(12, "SteelSeries_Music".to_string())]);
    assert_eq!(st.last_saved_volumes, vec![("SteelSeries_Aux".to_string(), 7)]);
}

#[test]
fn managed_and_legacy_names() {
    assert!(is_managed("SteelSeries_Game"));
    assert!(is_managed("SteelSeries_Aux"));
    assert!(!is_managed("SteelSeries_Mic"), "the mic is a source, not a managed sink");
    assert!(!is_managed("alsa_output.pci"));
    assert_eq!(migrate_legacy_name("ChatMix_Aux"), Some("SteelSeries_Aux"));
    assert_eq!(migrate_legacy_name("SteelSeries_Aux"), None);
}

#[test]
fn parse_volume_percent_reads_first_percentage() {
    assert_eq!(
        parse_volume_percent("Volume: front-left: 65536 / 100% / 0.00 dB,   front-right: 32768 /  50% / -18.06 dB"),
        Ok(100)
    );
    assert_eq!(parse_volume_percent("Volume: mono: 19661 /  30% / -31.37 dB"), Ok(30));
    assert!(parse_volume_percent("no volume here").is_err());
}

#[test]
fn node_properties_for_pw_cli() {
    assert_eq!(
        node_props("SteelSeries_Mic", "SteelSeries Mic", "Audio/Source/Virtual", "MONO"),
        "{ factory.name=support.null-audio-sink node.name=SteelSeries_Mic node.description=\"SteelSeries Mic\" media.class=Audio/Source/Virtual object.linger=true audio.position=[MONO] monitor.channel-volumes=true monitor.passthrough=true }"
    );
    assert_eq!(orphan_names().len(), 10);
    assert_eq!(owned_names().len(), 5);
}

#[test]
fn virtual_sinks_create_every_node_after_cleaning_orphans() {
    let destroyed = RefCell::new(Vec::<String>::new());
    let created = RefCell::new(Vec::<String>::new());
    let r = VirtualSinks::create(
        |c: &NodeCommand| {
            created.borrow_mut().push(c.name.clone());
            None
        },
        |n: &str| destroyed.borrow_mut().push(n.to_string()),
    );
    assert!(r.is_ok());
    assert_eq!(destroyed.borrow().len(), 10);
    assert_eq!(
        *created.borrow(),
        vec!["SteelSeries_Game", "SteelSeries_Chat", "SteelSeries_Music", "SteelSeries_Aux", "SteelSeries_Mic"]
    );
    let sinks = r.unwrap();
    destroyed.borrow_mut().clear();
    sinks.destroy(|n: &str| destroyed.borrow_mut().push(n.to_string()));
    assert_eq!(destroyed.borrow().len(), 5);
}

#[test]
fn virtual_sinks_stop_at_first_failure() {
    let created = RefCell::new(0usize);
    let r = VirtualSinks::create(
        |c: &NodeCommand| {
            *created.borrow_mut() += 1;
            if c.name == "SteelSeries_Music" {
                Some("boom".to_string())
            } else {
                None
            }
        },
        |_: &str| {},
    );
    assert_eq!(r.err().as_deref(), Some("boom"));
    assert_eq!(*created.borrow(), 3);
}

#[test]
fn pactl_module_and_pw_cli_ids() {
    assert_eq!(parse_module_id_from_line("1 = @module:536870913"), Some(536870913));
    assert_eq!(parse_module_id_from_line("Failure: No such entity"), None);
    assert_eq!(
        parse_added_node_global_id("remote 0 added global: \tid 42, type PipeWire:Interface:Node/3"),
        Some(42)
    );
    assert_eq!(parse_added_node_global_id("id 42, type PipeWire:Interface:Node/3"), None);
    assert_eq!(parse_added_node_global_id("remote 0 added global: \tid 7, type PipeWire:Interface:Port/3"), None);
}

#[test]
fn orphaned_loopbacks_are_found_by_the_nodes_they_reference() {
    let listing = "\
12\tmodule-loopback\tsource=SteelSeries_Game.monitor sink=alsa_output.x\t
13\tmodule-null-sink\tsink_name=SteelSeries_Chat\t
14\tmodule-loopback\tsource=other sink=alsa_output.x\t
15\tmodule-loopback\tsource=ChatMix_Mic\t
";
    assert_eq!(orphaned_loopback_ids(listing), vec![12, 15]);
}

#[test]
fn rebuild_needed_when_enabled_or_type_changes() {
    let a = vec![(true, FilterType::Peaking), (false, FilterType::LowShelf)];
    assert!(!needs_rebuild(&a, &a.clone()));
    assert!(needs_rebuild(&a, &vec![(true, FilterType::Peaking), (true, FilterType::LowShelf)]));
    assert!(needs_rebuild(&a, &vec![(true, FilterType::HighShelf), (false, FilterType::LowShelf)]));
    // Bands are compared pairwise; only the bands both sides have count.
    assert!(!needs_rebuild(&a, &vec![(true, FilterType::Peaking)]));
    assert_eq!(effective_label(false, FilterType::LowPass), effective_label(true, FilterType::Peaking));
}
