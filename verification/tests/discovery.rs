use arctis_chatmix::audio::discovery::{
    choose_mic_port, headset_sink_from_listing, headset_source_from_listing, mic_links,
    source_output_ports,
};

const SINKS: &str = "\
58\talsa_output.pci-0000_00_1f.3.analog-stereo\tPipeWire\ts32le 2ch 48000Hz\tSUSPENDED
77\talsa_output.usb-SteelSeries_Arctis_Nova_Elite-00.analog-stereo\tPipeWire\ts24le 2ch 48000Hz\tRUNNING
";

const SOURCES: &str = "\
77\talsa_output.usb-SteelSeries_Arctis_Nova_Elite-00.analog-stereo.monitor\tPipeWire\ts24le 2ch\tIDLE
79\tSteelSeries_Mic\tPipeWire\tfloat32le 1ch\tIDLE
80\talsa_input.usb-SteelSeries_Arctis_Nova_Elite-00.mono-fallback\tPipeWire\ts24le 1ch\tRUNNING
";

#[test]
fn headset_sink_is_found_by_vendor_and_model() {
    assert_eq!(
        headset_sink_from_listing(SINKS).as_deref(),
        Some("alsa_output.usb-SteelSeries_Arctis_Nova_Elite-00.analog-stereo")
    );
    assert_eq!(headset_sink_from_listing("58\talsa_output.pci\tPipeWire\n"), None);
}

#[test]
fn headset_source_skips_monitors_and_the_virtual_mic() {
    assert_eq!(
        headset_source_from_listing(SOURCES).as_deref(),
        Some("alsa_input.usb-SteelSeries_Arctis_Nova_Elite-00.mono-fallback")
    );
}

#[test]
fn output_ports_of_a_source() {
    let listing = "alsa_input.usb:capture_FL\n  alsa_input.usb:capture_FR  \nother:capture_FL\nalsa_input.usb2:capture_FL\n";
    assert_eq!(
        source_output_ports(listing, "alsa_input.usb"),
        vec!["alsa_input.usb:capture_FL", "alsa_input.usb:capture_FR"]
    );
}

#[test]
fn mic_port_prefers_mono_then_front_left() {
    let v = |s: &[&str]| s.iter().map(|x| x.to_string()).collect::<Vec<_>>();
    assert_eq!(
        choose_mic_port(&v(&["a:capture_FR", "a:capture_MONO", "a:capture_FL"])).as_deref(),
        Some("a:capture_MONO")
    );
    assert_eq!(choose_mic_port(&v(&["a:capture_FR", "a:capture_FL"])).as_deref(), Some("a:capture_FL"));
    assert_eq!(choose_mic_port(&v(&["a:aux0", "a:aux1"])).as_deref(), Some("a:aux0"));
    assert_eq!(choose_mic_port(&v(&[])), None);
}

#[test]
fn links_into_the_virtual_mic_are_listed() {
    let listing = "\
alsa_input.usb:capture_MONO
  |-> SteelSeries_Mic:input_MONO
SteelSeries_Mic:input_MONO
  |<- alsa_input.usb:capture_MONO
  |<- other:capture_FL
SteelSeries_Game:monitor_FL
  |<- x:y
";
    assert_eq!(mic_links(listing), vec!["alsa_input.usb:capture_MONO", "other:capture_FL"]);
}
