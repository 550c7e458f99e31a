use arctis_chatmix::audio::eq_chains::ChainInfo;
use arctis_chatmix::audio::router::FilterChainScan;

const CAP: &str = "arctis_eq_game_capture";

#[test]
fn scan_finds_module_and_capture_node() {
    let mut s = FilterChainScan::new();
    assert!(!s.feed("7 = @module:42", CAP));
    assert_eq!(s.module_id, Some(42));
    assert!(!s.feed("remote 0 added global: \tid 101, type PipeWire:Interface:Node/3", CAP));
    assert_eq!(s.last_node, Some(101));
    assert!(s.feed("\t\tnode.name = \"arctis_eq_game_capture\"", CAP));
    assert_eq!(s.capture_node, Some(101));
    assert_eq!(s.finish(), Ok(ChainInfo { module_id: 42, capture_node: Some(101) }));
}

#[test]
fn scan_takes_the_node_announced_last() {
    let mut s = FilterChainScan::new();
    s.feed("remote 0 added global: \tid 90, type PipeWire:Interface:Node/3", CAP);
    s.feed("remote 0 added global: \tid 91, type PipeWire:Interface:Node/3", CAP);
    s.feed("remote 0 added global: \tid 92, type PipeWire:Interface:Port/3", CAP);
    assert_eq!(s.last_node, Some(91));
    assert!(!s.feed("node.name = \"arctis_eq_game_capture\"", CAP));
    assert_eq!(s.capture_node, Some(91));
    s.feed("remote 0 added global: \tid 95, type PipeWire:Interface:Node/3", CAP);
    s.feed("node.name = \"arctis_eq_game_capture\"", CAP);
    assert_eq!(s.capture_node, Some(91));
}

#[test]
fn scan_keeps_first_module_id() {
    let mut s = FilterChainScan::new();
    s.feed("3 = @module:5", CAP);
    s.feed("4 = @module:6", CAP);
    assert_eq!(s.module_id, Some(5));
}

#[test]
fn scan_ignores_other_capture_names() {
    let mut s = FilterChainScan::new();
    s.feed("remote 0 added global: \tid 10, type PipeWire:Interface:Node/3", CAP);
    s.feed("node.name = \"arctis_eq_chat_capture\"", CAP);
    assert_eq!(s.capture_node, None);
}

#[test]
fn scan_without_module_fails() {
    let mut s = FilterChainScan::new();
    s.feed("remote 0 added global: \tid 10, type PipeWire:Interface:Node/3", CAP);
    s.feed("node.name = \"arctis_eq_game_capture\"", CAP);
    assert_eq!(s.finish(), Err("No module ID found in pw-cli output".to_string()));
}

#[test]
fn scan_without_capture_node_still_succeeds() {
    let mut s = FilterChainScan::new();
    s.feed("1 = @module:8", CAP);
    assert_eq!(s.finish(), Ok(ChainInfo { module_id: 8, capture_node: None }));
}
