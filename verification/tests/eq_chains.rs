use arctis_chatmix::audio::eq_chains::{ChainInfo, EqAction, EqChains, SpatialSwitch};
use arctis_chatmix::eq::model::FilterType;
use arctis_chatmix::eq::spatial::SpatialProfile;

fn flat() -> Vec<(bool, FilterType)> {
    vec![(true, FilterType::Peaking); 10]
}

fn off() -> SpatialSwitch {
    SpatialSwitch { enabled: false, profile: SpatialProfile::Gsx }
}

fn game() -> String {
    "SteelSeries_Game".to_string()
}

fn loaded(chains: &mut EqChains, sink: &str, node: Option<u32>) {
    let plan = chains.start(&sink.to_string(), flat(), off());
    assert_eq!(plan.target, "alsa_headset");
    assert_eq!(plan.old_module, None);
    chains.finish_rebuild(&plan, Some(ChainInfo { module_id: 7, capture_node: node }));
}

#[test]
fn start_defaults_target_to_headset_and_records_on_load() {
    let mut c = EqChains::new("alsa_headset".into(), vec![("SteelSeries_Chat".into(), "usb_dac".into())]);
    let plan = c.start(&"SteelSeries_Chat".to_string(), flat(), off());
    assert_eq!(plan.target, "usb_dac");
    loaded(&mut c, "SteelSeries_Game", Some(40));
    assert!(c.targets.iter().any(|(s, t)| s == "SteelSeries_Game" && t == "alsa_headset"));
    assert_eq!(c.chains.len(), 1);
    assert_eq!(c.bands.len(), 1);
}

#[test]
fn unchanged_bands_do_nothing() {
    let mut c = EqChains::new("alsa_headset".into(), vec![]);
    loaded(&mut c, "SteelSeries_Game", Some(40));
    assert!(matches!(c.apply(&game(), flat(), true), EqAction::Nothing));
}

#[test]
fn gain_only_change_is_set_in_place() {
    let mut c = EqChains::new("alsa_headset".into(), vec![]);
    loaded(&mut c, "SteelSeries_Game", Some(40));
    match c.apply(&game(), flat(), false) {
        EqAction::SetParams { node, spatial } => {
            assert_eq!(node, 40);
            assert_eq!(spatial, None);
        }
        _ => panic!("expected an in-place update"),
    }
}

#[test]
fn shape_change_rebuilds_and_failure_forgets_bands() {
    let mut c = EqChains::new("alsa_headset".into(), vec![]);
    loaded(&mut c, "SteelSeries_Game", Some(40));
    let mut shaped = flat();
    shaped[0] = (true, FilterType::LowShelf);
    match c.apply(&game(), shaped, false) {
        EqAction::Rebuild(plan) => {
            assert_eq!(plan.old_module, Some(7));
            assert!(plan.use_new_bands);
            assert!(c.chains.is_empty(), "the old chain is torn down first");
            c.finish_rebuild(&plan, None);
            assert!(c.bands.is_empty(), "a failed rebuild forgets the bands");
        }
        _ => panic!("expected a rebuild"),
    }
}

#[test]
fn unknown_capture_node_falls_back_to_rebuild() {
    let mut c = EqChains::new("alsa_headset".into(), vec![]);
    loaded(&mut c, "SteelSeries_Game", None);
    match c.apply(&game(), flat(), false) {
        EqAction::Rebuild(plan) => {
            assert!(!plan.forget_on_failure);
            c.finish_rebuild(&plan, None);
            assert_eq!(c.bands.len(), 1);
        }
        _ => panic!("expected a rebuild"),
    }
}

#[test]
fn mic_has_no_chain() {
    let mut c = EqChains::new("alsa_headset".into(), vec![]);
    let mic = "SteelSeries_Mic".to_string();
    assert!(matches!(c.apply(&mic, flat(), false), EqAction::Nothing));
    let on = SpatialSwitch { enabled: true, profile: SpatialProfile::Dh2 };
    assert!(matches!(c.set_spatial(&mic, on, true), EqAction::Nothing));
    assert!(c.spatial.is_empty());
}

#[test]
fn reroute_rebuilds_into_new_target_with_default_bands() {
    let mut c = EqChains::new("alsa_headset".into(), vec![]);
    match c.reroute(&"SteelSeries_Music".to_string(), "hdmi".into()) {
        EqAction::Rebuild(plan) => {
            assert_eq!(plan.target, "hdmi");
            assert!(!plan.use_new_bands);
            assert_eq!(plan.record.as_deref(), Some(&flat()[..]));
        }
        _ => panic!("expected a rebuild"),
    }
}

#[test]
fn spatial_layout_changes_rebuild_and_wet_changes_set_in_place() {
    let mut c = EqChains::new("alsa_headset".into(), vec![]);
    loaded(&mut c, "SteelSeries_Game", Some(40));
    let on = SpatialSwitch { enabled: true, profile: SpatialProfile::Dh2 };
    let plan = match c.set_spatial(&game(), on, false) {
        EqAction::Rebuild(plan) => plan,
        _ => panic!("turning spatial on rebuilds"),
    };
    assert_eq!(plan.spatial, Some(SpatialProfile::Dh2));
    c.finish_rebuild(&plan, Some(ChainInfo { module_id: 8, capture_node: Some(41) }));
    assert!(matches!(c.set_spatial(&game(), on, true), EqAction::SetWet { node: 41 }));
    assert!(matches!(c.set_spatial(&game(), on, false), EqAction::Nothing));
    let dts = SpatialSwitch { enabled: true, profile: SpatialProfile::DtsHpx };
    assert!(matches!(c.set_spatial(&game(), dts, true), EqAction::Rebuild(_)));
    assert!(matches!(c.set_spatial(&game(), off(), true), EqAction::Rebuild(_)));
    assert!(matches!(c.set_spatial(&game(), off(), true), EqAction::Nothing));
}

#[test]
fn saved_targets_listed_twice_keep_the_later() {
    let c = EqChains::new(
        "alsa_headset".into(),
        vec![
            ("SteelSeries_Chat".into(), "usb_dac".into()),
            ("SteelSeries_Game".into(), "hdmi".into()),
            ("SteelSeries_Chat".into(), "speakers".into()),
        ],
    );
    assert_eq!(c.targets.len(), 2);
    assert!(c.targets.iter().any(|(s, t)| s == "SteelSeries_Chat" && t == "speakers"));
    assert!(c.targets.iter().any(|(s, t)| s == "SteelSeries_Game" && t == "hdmi"));
}
