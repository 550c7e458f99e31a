use arctis_chatmix::clips::detector::cmdline_from_bytes;
use arctis_chatmix::clips::detector::environ_from_bytes;
use arctis_chatmix::clips::detector::{
    match_game, parse_acf_name, scan_once, steam_app_id, DetectedGame, DetectorEvent, GameDetector,
    ProcessSnapshot,
};

#[test]
fn parse_simple_name() {
    let acf = r#"
"AppState"
{
    "appid"  "1172470"
    "name"   "Apex Legends"
    "Universe"  "1"
}
"#;
    assert_eq!(parse_acf_name(acf).as_deref(), Some("Apex Legends"));
}

#[test]
fn parse_name_with_unicode() {
    let acf = r#"
"AppState"
{
    "name"   "ELDEN RING™"
    "appid"  "1245620"
}
"#;
    assert_eq!(parse_acf_name(acf).as_deref(), Some("ELDEN RING™"));
}

#[test]
fn parse_returns_none_when_no_name() {
    let acf = r#"
"AppState"
{
    "appid"  "1234"
}
"#;
    assert!(parse_acf_name(acf).is_none());
}

#[test]
fn parse_handles_extra_whitespace() {
    let acf = r#""name"        "Counter-Strike 2""#;
    assert_eq!(parse_acf_name(acf).as_deref(), Some("Counter-Strike 2"));
}

#[test]
fn parse_name_with_escaped_quotes() {
    let acf = r#""name"   "Devil May Cry: \"Special Edition\"""#;
    assert_eq!(parse_acf_name(acf).as_deref(), Some(r#"Devil May Cry: "Special Edition""#));
}

#[test]
fn matches_steam_via_cmdline() {
    let cmdline = "/usr/bin/reaper SteamLaunch AppId=1172470 -- /path/to/game.exe";
    let env = Vec::new();
    let m = match_game(42, "reaper", cmdline, &env, None);
    assert!(m.is_some());
    assert_eq!(m.unwrap().pid, 42);
}

#[test]
fn matches_steam_via_environ() {
    let env = vec![("SteamAppId".to_string(), "1172470".to_string())];
    let m = match_game(42, "wine64", "wine64 game.exe", &env, None);
    assert!(m.is_some());
}

#[test]
fn matches_lutris_wrapper() {
    let cmdline = "lutris-wrapper Doom_Eternal -- /path/doom.exe";
    let env = Vec::new();
    let m = match_game(42, "lutris-wrapper", cmdline, &env, None);
    assert!(m.is_some());
    assert_eq!(m.unwrap().name, "Doom_Eternal");
}

#[test]
fn matches_gamescope() {
    let env = Vec::new();
    let m = match_game(42, "gamescope", "gamescope -- game", &env, None);
    assert!(m.is_some());
}

#[test]
fn no_match_for_unrelated_process() {
    let env = Vec::new();
    assert!(match_game(42, "firefox", "firefox", &env, None).is_none());
}

#[test]
fn steam_game_uses_its_appmanifest_name() {
    let env = Vec::new();
    let m = match_game(7, "reaper", "reaper SteamLaunch AppId=1172470 --", &env, Some("Apex Legends".to_string()));
    assert_eq!(m, Some(DetectedGame { pid: 7, name: "Apex Legends".to_string() }));
    assert_eq!(steam_app_id("reaper SteamLaunch AppId=1172470 --", &env).as_deref(), Some("1172470"));
}

#[test]
fn heroic_and_mangohud_are_recognised() {
    let env = Vec::new();
    assert_eq!(match_game(1, "heroic", "heroic", &env, None).unwrap().name, "Heroic Game");
    assert_eq!(match_game(2, "mangohud", "mangohud game", &env, None).unwrap().name, "mangohud");
}

fn g(pid: u32) -> DetectedGame {
    DetectedGame { pid, name: "Test Game".into() }
}

#[test]
fn detects_after_two_consecutive_scans() {
    let mut d = GameDetector::new();
    assert!(d.tick(&vec![g(42)]).is_empty(), "first scan should not fire");
    let evts = d.tick(&vec![g(42)]);
    assert_eq!(evts.len(), 1);
    assert!(matches!(evts[0], DetectorEvent::GameStarted(_)));
}

#[test]
fn does_not_double_fire() {
    let mut d = GameDetector::new();
    d.tick(&vec![g(42)]);
    d.tick(&vec![g(42)]);
    assert!(d.tick(&vec![g(42)]).is_empty(), "no re-fire on continued presence");
}

#[test]
fn removes_after_two_consecutive_misses() {
    let mut d = GameDetector::new();
    d.tick(&vec![g(42)]);
    d.tick(&vec![g(42)]);
    assert!(d.tick(&vec![]).is_empty(), "first miss does not fire");
    let evts = d.tick(&vec![]);
    assert_eq!(evts.len(), 1);
    assert!(matches!(evts[0], DetectorEvent::GameStopped { pid: 42 }));
}

#[test]
fn brief_disappearance_does_not_fire_remove() {
    let mut d = GameDetector::new();
    d.tick(&vec![g(42)]);
    d.tick(&vec![g(42)]);
    d.tick(&vec![]);
    let evts = d.tick(&vec![g(42)]);
    assert!(evts.is_empty(), "no event when game returns within debounce window");
}

#[test]
fn unannounced_game_leaves_silently() {
    let mut d = GameDetector::new();
    d.tick(&vec![g(5)]);
    assert!(d.tick(&vec![]).is_empty());
    assert!(d.tick(&vec![]).is_empty());
}

#[test]
fn a_miss_between_sightings_does_not_announce() {
    let mut d = GameDetector::new();
    assert!(d.tick(&vec![g(42)]).is_empty());
    assert!(d.tick(&vec![]).is_empty());
    assert!(d.tick(&vec![g(42)]).is_empty(), "sightings must be consecutive");
    let evts = d.tick(&vec![g(42)]);
    assert_eq!(evts.len(), 1);
    assert!(matches!(evts[0], DetectorEvent::GameStarted(_)));
}

#[test]
fn starts_and_stops_alternate_over_a_run() {
    let mut d = GameDetector::new();
    let scans: Vec<Vec<DetectedGame>> = vec![
        vec![g(1)], vec![g(1)], vec![], vec![g(1)], vec![], vec![], vec![g(1)], vec![g(1)], vec![g(1)],
    ];
    let mut all = Vec::new();
    for s in &scans {
        all.extend(d.tick(s));
    }
    let kinds: Vec<bool> = all.iter().map(|e| matches!(e, DetectorEvent::GameStarted(_))).collect();
    assert_eq!(kinds, vec![true, false, true]);
}

#[test]
fn scan_keeps_games_in_table_order() {
    let procs = vec![
        ProcessSnapshot {
            pid: 10,
            comm: "firefox".into(),
            cmdline: "firefox".into(),
            environ: vec![],
            steam_name: None,
        },
        ProcessSnapshot {
            pid: 11,
            comm: "gamescope".into(),
            cmdline: "gamescope -- x".into(),
            environ: vec![],
            steam_name: None,
        },
        ProcessSnapshot {
            pid: 12,
            comm: "wine64".into(),
            cmdline: "wine64 game.exe".into(),
            environ: vec![("SteamAppId".into(), "1".into())],
            steam_name: Some("Portal".into()),
        },
    ];
    let games = scan_once(&procs);
    assert_eq!(games.len(), 2);
    assert_eq!(games[0], DetectedGame { pid: 11, name: "Gamescope Game".into() });
    assert_eq!(games[1], DetectedGame { pid: 12, name: "Portal".into() });
}

#[test]
fn proc_cmdline_joins_non_empty_arguments() {
    assert_eq!(
        cmdline_from_bytes(b"/usr/bin/reaper\0SteamLaunch\0AppId=1172470\0\0--\0"),
        "/usr/bin/reaper SteamLaunch AppId=1172470 --"
    );
    assert_eq!(cmdline_from_bytes(b""), "");
    assert_eq!(cmdline_from_bytes(b"\0\0a\xff\0"), "a\u{fffd}");
}

#[test]
fn proc_environ_splits_at_first_equals() {
    assert_eq!(
        environ_from_bytes(b"SteamAppId=1172470\0NOEQUALS\0X=a=b\0\0"),
        vec![
            ("SteamAppId".to_string(), "1172470".to_string()),
            ("X".to_string(), "a=b".to_string())
        ]
    );
}

#[test]
fn duplicate_environment_keys_take_the_last_value() {
    let env = vec![
        ("SteamAppId".to_string(), "111".to_string()),
        ("HOME".to_string(), "/home/u".to_string()),
        ("SteamAppId".to_string(), "222".to_string()),
    ];
    assert_eq!(steam_app_id("game", &env).as_deref(), Some("222"));
}
