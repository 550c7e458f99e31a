use arctis_chatmix::eq::presets::{check_preset_name, check_rename, preset_index, preset_menu};
use arctis_chatmix::eq::presets::list_custom_presets;
use arctis_chatmix::eq::presets::parse_inline_bands;
use arctis_chatmix::eq::presets::parse_preset_bands;
use arctis_chatmix::eq::model::{EqTarget, FilterType};
use arctis_chatmix::eq::presets::{
    built_in_names, config_dir, custom_preset_path, eq_state_path, format_eq_state_line,
    parse_eq_state_line, preset_name_from_file, presets_dir,
};
use arctis_chatmix::eq::sonar::{
    decode_share_payload, extract_url_query_param, parse_filter_type, resolve_cdn_url,
    share_target, utf8_bytes,
};
use arctis_chatmix::eq::spatial::{
    active_spatial_ir, hrtf_available, hrtf_dir, ir_filename, parse, serialize, SpatialBlob,
    SpatialProfile,
};
use base64::Engine;

const WET_DEFAULT: f64 = 0.7;

/// The mix a parsed blob gives: the last `wet` value that reads as a
/// number, clamped to 0..=1, else the default.
fn wet_mix(b: &SpatialBlob) -> f64 {
    let mut mix = WET_DEFAULT;
    for w in &b.wet {
        if let Ok(n) = w.parse::<f64>() {
            mix = n.clamp(0.0, 1.0);
        }
    }
    mix
}

fn near(a: f64, b: f64) -> bool {
    (a - b).abs() < 1e-3
}

#[test]
fn default_state_is_disabled_gsx_default_wet() {
    let s = parse("");
    assert!(!s.enabled);
    assert_eq!(s.profile, SpatialProfile::Gsx);
    assert!(s.wet.is_empty());
    assert!(near(wet_mix(&s), WET_DEFAULT));
}

#[test]
fn serialize_parse_round_trip() {
    for p in SpatialProfile::all() {
        let blob = serialize(true, p, &format!("{:.3}", 0.42));
        let parsed = parse(&blob);
        assert!(parsed.enabled);
        assert_eq!(parsed.profile, p, "profile round-trip failed for {}", p.key());
        assert!(near(wet_mix(&parsed), 0.42), "wet_mix round-trip failed");
    }
}

#[test]
fn serialized_blob_shape() {
    assert_eq!(serialize(true, SpatialProfile::Gsx, "0.700"), "enabled=1;profile=gsx;wet=0.700");
    assert_eq!(serialize(false, SpatialProfile::DtsHpx, "0.100"), "enabled=0;profile=dts;wet=0.100");
}

#[test]
fn parse_unknown_profile_falls_back_to_gsx() {
    let s = parse("enabled=1;profile=unknown_xyz;wet=0.5");
    assert!(s.enabled);
    assert_eq!(s.profile, SpatialProfile::Gsx);
    assert!(near(wet_mix(&s), 0.5));
}

#[test]
fn parse_legacy_formats_default_cleanly() {
    let s = parse("enabled=1");
    assert!(s.enabled);
    assert_eq!(s.profile, SpatialProfile::Gsx);
    assert!(near(wet_mix(&s), WET_DEFAULT));

    let s = parse("enabled=1;profile=dts");
    assert!(s.enabled);
    assert_eq!(s.profile, SpatialProfile::DtsHpx);
    assert!(near(wet_mix(&s), WET_DEFAULT));

    let s = parse("enabled=1;pi=0.20;d=1.50;fa=45.00");
    assert!(s.enabled);
    assert_eq!(s.profile, SpatialProfile::Gsx);
    assert!(near(wet_mix(&s), WET_DEFAULT));
}

#[test]
fn parse_clamps_wet_out_of_range() {
    let s = parse("wet=2.5");
    assert!(near(wet_mix(&s), 1.0));
    let s = parse("wet=-1.0");
    assert!(near(wet_mix(&s), 0.0));
}

#[test]
fn parse_tolerates_garbage() {
    let s = parse("garbage");
    assert!(!s.enabled);
    let s = parse("");
    assert!(!s.enabled);
}

#[test]
fn parse_keeps_every_wet_text_in_order() {
    let s = parse(" wet = x ;wet=0.3;enabled=0");
    assert_eq!(s.wet, vec!["x".to_string(), "0.3".to_string()]);
    assert!(!s.enabled);
    assert!(near(wet_mix(&s), 0.3));
}

#[test]
fn profile_keys_are_unique_and_stable() {
    let keys: Vec<_> = SpatialProfile::all().iter().map(|p| p.key()).collect();
    let mut sorted = keys.clone();
    sorted.sort();
    sorted.dedup();
    assert_eq!(sorted.len(), keys.len(), "duplicate profile key");
    assert_eq!(keys, vec!["gsx", "dh2", "dts"]);
    for p in SpatialProfile::all() {
        assert_eq!(SpatialProfile::from_key(p.key()), Some(p));
    }
    assert_eq!(SpatialProfile::from_key("nope"), None);
}

#[test]
fn impulse_response_files_and_directory() {
    assert_eq!(ir_filename(SpatialProfile::Gsx), "gsx.wav");
    assert_eq!(ir_filename(SpatialProfile::Dh2), "dh2.wav");
    assert_eq!(ir_filename(SpatialProfile::DtsHpx), "dts-hpx.wav");
    assert_eq!(hrtf_dir(Some("/c"), Some("/h")).as_deref(), Some("/c/arctis-chatmix/hrtf"));
    assert_eq!(hrtf_dir(None, Some("/h")).as_deref(), Some("/h/.cache/arctis-chatmix/hrtf"));
    assert_eq!(hrtf_dir(None, None), None);
}

#[test]
fn hrtf_available_stops_at_first_failure() {
    assert!(hrtf_available(|_: SpatialProfile| true));
    let tried = std::cell::RefCell::new(Vec::new());
    let ok = hrtf_available(|p: SpatialProfile| {
        tried.borrow_mut().push(p);
        p != SpatialProfile::Dh2
    });
    assert!(!ok);
    assert_eq!(*tried.borrow(), vec![SpatialProfile::Gsx, SpatialProfile::Dh2]);
}

#[test]
fn spatial_applies_to_output_sinks_only() {
    assert_eq!(
        active_spatial_ir("SteelSeries_Game", true, SpatialProfile::Dh2),
        Some(SpatialProfile::Dh2)
    );
    assert_eq!(active_spatial_ir("SteelSeries_Mic", true, SpatialProfile::Dh2), None);
    assert_eq!(active_spatial_ir("SteelSeries_Game", false, SpatialProfile::Dh2), None);
    assert_eq!(active_spatial_ir("alsa_output.x", true, SpatialProfile::Gsx), None);
}

#[test]
fn filter_type_keys_round_trip() {
    for f in FilterType::all() {
        assert_eq!(FilterType::from_str(f.to_str()), Some(f));
    }
    assert_eq!(FilterType::from_str("bogus"), None);
    assert_eq!(FilterType::LowShelf.label(), "Low Shelf");
    assert!(FilterType::Peaking.uses_gain());
    assert!(!FilterType::LowPass.uses_gain());
}

#[test]
fn eq_targets_map_to_their_sinks() {
    for t in EqTarget::all() {
        assert_eq!(EqTarget::for_sink(t.sink_name()), Some(t));
    }
    assert_eq!(EqTarget::for_sink("other"), None);
    assert!(!EqTarget::Mic.supports_spatial());
    assert!(EqTarget::Music.supports_spatial());
    assert_eq!(EqTarget::Aux.label(), "Aux");
}

#[test]
fn preset_locations() {
    assert_eq!(config_dir(None, Some("/h")).as_deref(), Some("/h/.config/arctis-chatmix"));
    assert_eq!(presets_dir(Some("/x"), None).as_deref(), Some("/x/arctis-chatmix/eq_presets"));
    assert_eq!(eq_state_path(None, Some("/h")).as_deref(), Some("/h/.config/arctis-chatmix/eq_state.txt"));
    assert_eq!(eq_state_path(None, None), None);
    assert_eq!(custom_preset_path("/p", "Mine"), "/p/Mine.txt");
    assert_eq!(preset_name_from_file("/p/Mine.txt").as_deref(), Some("Mine"));
    assert_eq!(preset_name_from_file("/p/Mine.json"), None);
    assert_eq!(preset_name_from_file(".txt"), None);
    assert_eq!(built_in_names().len(), 7);
    assert_eq!(built_in_names()[0], "Flat");
}

#[test]
fn eq_state_lines_round_trip() {
    let line = format_eq_state_line(EqTarget::Chat, Some("Warm"), "1\t2\t3");
    assert_eq!(line, "SteelSeries_Chat\tWarm\t1\t2\t3\n");
    let parsed = parse_eq_state_line(line.trim_end_matches('\n')).unwrap();
    assert_eq!(parsed.target, EqTarget::Chat);
    assert_eq!(parsed.preset_name.as_deref(), Some("Warm"));
    assert_eq!(parsed.band_data, "1\t2\t3");
    let custom = parse_eq_state_line("SteelSeries_Game\tcustom\tdata").unwrap();
    assert_eq!(custom.preset_name, None);
    assert!(parse_eq_state_line("Unknown\tWarm\tdata").is_none());
    assert!(parse_eq_state_line("SteelSeries_Game\tonly-two").is_none());
}

#[test]
fn sonar_filter_types() {
    assert_eq!(parse_filter_type("peakingEQ"), Ok(FilterType::Peaking));
    assert_eq!(parse_filter_type("lowShelving"), Ok(FilterType::LowShelf));
    assert_eq!(parse_filter_type("highShelf"), Ok(FilterType::HighShelf));
    assert_eq!(parse_filter_type("lowPass"), Ok(FilterType::LowPass));
    assert_eq!(parse_filter_type("high_pass"), Ok(FilterType::HighPass));
    assert_eq!(parse_filter_type("notchFilter"), Ok(FilterType::Notch));
    assert_eq!(
        parse_filter_type("bandPass"),
        Err("Unknown Sonar filter type: bandPass".to_string())
    );
}

#[test]
fn resolves_raw_cdn_url() {
    let url = "https://community-configs.steelseriescdn.com/v1/deadbeef-1234";
    assert_eq!(resolve_cdn_url(url).unwrap(), url);
    assert_eq!(resolve_cdn_url(&format!("  {url}\n")).unwrap(), url);
}

#[test]
fn decodes_deeplink_share_url() {
    let cdn = "https://community-configs.steelseriescdn.com/v1/abc-123";
    let b64 = base64::engine::general_purpose::STANDARD.encode(cdn);
    let deeplink =
        format!("https://www.steelseries.com/deeplink/gg/sonar/config/v1/import?url={b64}");
    assert_eq!(resolve_cdn_url(&deeplink).unwrap(), cdn);
}

#[test]
fn decodes_url_safe_unpadded_payload() {
    let cdn = "https://community-configs.steelseriescdn.com/v1/x??>";
    let b64 = base64::engine::general_purpose::URL_SAFE_NO_PAD.encode(cdn);
    let deeplink = format!("https://www.steelseries.com/import?a=1&url={b64}");
    assert_eq!(resolve_cdn_url(&deeplink).unwrap(), cdn);
}

#[test]
fn rejects_unrelated_url() {
    assert!(resolve_cdn_url("https://example.com/preset").is_err());
    assert_eq!(resolve_cdn_url("   "), Err("Empty URL".to_string()));
}

#[test]
fn rejects_deeplink_pointing_elsewhere() {
    let evil = "https://example.com/evil";
    let b64 = base64::engine::general_purpose::STANDARD.encode(evil);
    let deeplink =
        format!("https://www.steelseries.com/deeplink/gg/sonar/config/v1/import?url={b64}");
    assert!(resolve_cdn_url(&deeplink).is_err());
}

#[test]
fn rejects_payload_that_is_not_base64() {
    let r = resolve_cdn_url("https://www.steelseries.com/import?url=***");
    assert!(r.unwrap_err().starts_with("Failed to base64-decode share URL payload: "));
}

#[test]
fn share_payload_helpers() {
    assert_eq!(
        extract_url_query_param("https://a/b?x=1&url=abc&url=def").as_deref(),
        Some("abc")
    );
    assert_eq!(extract_url_query_param("https://a/b?x=1"), None);
    assert_eq!(extract_url_query_param("https://a/b"), None);
    assert_eq!(utf8_bytes("aé"), vec![0x61, 0xc3, 0xa9]);
    assert_eq!(decode_share_payload("aGk=").unwrap(), b"hi".to_vec());
    assert_eq!(decode_share_payload("aGk").unwrap(), b"hi".to_vec());
    assert!(decode_share_payload("!!").is_err());
    assert!(share_target(Err("bad".into())).unwrap_err().contains("not valid UTF-8: bad"));
    assert_eq!(
        share_target(Ok("https://community-configs.steelseriescdn.com/v1/a".into())).unwrap(),
        "https://community-configs.steelseriescdn.com/v1/a"
    );
}

#[test]
fn inline_band_lists_need_ten_well_formed_bands() {
    let one = "31,0,1,peaking,true";
    let ten = vec![one; 10].join("|");
    let bands = parse_inline_bands(&ten).unwrap();
    assert_eq!(bands.len(), 10);
    assert_eq!(bands[0].frequency, "31");
    assert_eq!(bands[0].filter_type, FilterType::Peaking);
    assert!(bands[0].enabled);
    let mut shaped = vec![one; 10];
    shaped[9] = "16000,-2,0.7,high_shelf,false,extra";
    let b = parse_inline_bands(&shaped.join("|")).unwrap();
    assert_eq!(b[9].filter_type, FilterType::HighShelf);
    assert!(!b[9].enabled);
    assert_eq!(b[9].q, "0.7");
    assert!(parse_inline_bands(&vec![one; 9].join("|")).is_none());
    let mut bad = vec![one; 10];
    bad[3] = "250,0,1,bogus,true";
    assert!(parse_inline_bands(&bad.join("|")).is_none());
    bad[3] = "250,0,1,peaking,yes";
    assert!(parse_inline_bands(&bad.join("|")).is_none());
}

#[test]
fn preset_files_skip_comments_and_blank_lines() {
    let mut text = String::from("# my preset\n\n");
    for f in [31, 62, 125, 250, 500, 1000, 2000, 4000, 8000, 16000] {
        text.push_str(&format!("{f}\t0\t1\tpeaking\ttrue\n"));
    }
    let bands = parse_preset_bands(&text).unwrap();
    assert_eq!(bands.len(), 10);
    assert_eq!(bands[9].frequency, "16000");
    text.push_str("20\t0\t1\tpeaking\ttrue\n");
    assert!(parse_preset_bands(&text).is_none());
}

#[test]
fn custom_presets_are_txt_stems_in_name_order() {
    let files: Vec<String> =
        ["b.txt", "a.txt", "notes.json", "B.txt", "é.txt", "ab.txt", "a"].iter().map(|s| s.to_string()).collect();
    assert_eq!(list_custom_presets(&files), vec!["B", "a", "ab", "b", "é"]);
    assert!(list_custom_presets(&Vec::new()).is_empty());
}

#[test]
fn preset_menu_lists_built_ins_then_custom() {
    let files: Vec<String> = ["zz.txt", "Mine.txt"].iter().map(|s| s.to_string()).collect();
    let menu = preset_menu(&files);
    assert_eq!(menu.len(), 9);
    assert_eq!(menu[0], "Flat");
    assert_eq!(menu[6], "Warm");
    assert_eq!(&menu[7..], &["Mine".to_string(), "zz".to_string()]);
    assert_eq!(preset_index(&menu, Some("Mine")), Some(7));
    assert_eq!(preset_index(&menu, None), Some(0));
    assert_eq!(preset_index(&menu, Some("Gone")), Some(0));
    assert_eq!(preset_index(&menu, Some("Warm")), Some(6));
    assert_eq!(preset_index(&Vec::new(), Some("Warm")), None);
}

#[test]
fn imported_preset_names_are_checked() {
    assert_eq!(check_preset_name("  My EQ "), Ok("My EQ".to_string()));
    assert_eq!(check_preset_name("   "), Err("Preset name cannot be empty.".to_string()));
    assert_eq!(
        check_preset_name("Bass Boost"),
        Err("'Bass Boost' is a built-in preset name. Pick another.".to_string())
    );
}

#[test]
fn rename_checks() {
    let customs = vec!["Mine".to_string(), "Night".to_string()];
    assert_eq!(check_rename("Anything", "Bass Boost", &customs), Ok(None));
    assert_eq!(check_rename("   ", "Mine", &customs), Err("Name cannot be empty.".to_string()));
    assert_eq!(check_rename(" Mine ", "Mine", &customs), Ok(None));
    assert_eq!(
        check_rename("Warm", "Mine", &customs),
        Err("'Warm' is a built-in preset name.".to_string())
    );
    assert_eq!(
        check_rename("Night", "Mine", &customs),
        Err("A custom preset named 'Night' already exists.".to_string())
    );
    assert_eq!(check_rename("  Evening ", "Mine", &customs), Ok(Some("Evening".to_string())));
}
