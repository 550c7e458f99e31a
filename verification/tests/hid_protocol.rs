use arctis_chatmix::hid::device::{dev_path, is_target_device};
use arctis_chatmix::hid::protocol::{chatmix_disable_command, chatmix_enable_command, parse, HidEvent, NoiseMode};

fn make_packet(feature: u8, value: u8) -> [u8; 64] {
    let mut buf = [0u8; 64];
    buf[0] = 0x07;
    buf[1] = feature;
    buf[2] = value;
    buf
}

#[test]
fn parse_dial_position() {
    let event = parse(&make_packet(0x25, 0x07)).unwrap();
    assert_eq!(event, HidEvent::DialPosition(7));
}

#[test]
fn parse_noise_control_anc() {
    let event = parse(&make_packet(0xBD, 0x02)).unwrap();
    assert_eq!(event, HidEvent::NoiseControl(NoiseMode::Anc));
}

#[test]
fn parse_noise_control_transparency() {
    let event = parse(&make_packet(0xBD, 0x01)).unwrap();
    assert_eq!(event, HidEvent::NoiseControl(NoiseMode::Transparency));
}

#[test]
fn parse_noise_control_off() {
    let event = parse(&make_packet(0xBD, 0x00)).unwrap();
    assert_eq!(event, HidEvent::NoiseControl(NoiseMode::Off));
}

#[test]
fn parse_anc_hardware() {
    let event = parse(&make_packet(0xB8, 0x03)).unwrap();
    assert_eq!(event, HidEvent::AncHardware(0x03));
}

#[test]
fn parse_unknown_feature() {
    let event = parse(&make_packet(0xFF, 0x42)).unwrap();
    assert_eq!(event, HidEvent::Unknown { feature: 0xFF, value: 0x42 });
}

#[test]
fn parse_wrong_report_id() {
    let mut buf = [0u8; 64];
    buf[0] = 0x01;
    buf[1] = 0x25;
    buf[2] = 0x05;
    assert_eq!(parse(&buf), None);
}

#[test]
fn parse_chatmix_levels_reads_byte_three() {
    let mut buf = make_packet(0x45, 80);
    buf[3] = 30;
    assert_eq!(parse(&buf), Some(HidEvent::ChatMixLevels { game: 80, chat: 30 }));
}

#[test]
fn unknown_noise_value_is_unknown_event() {
    assert_eq!(
        parse(&make_packet(0xBD, 0x07)),
        Some(HidEvent::Unknown { feature: 0xBD, value: 0x07 })
    );
}

#[test]
fn chatmix_commands_differ_only_in_flag() {
    let on = chatmix_enable_command();
    let off = chatmix_disable_command();
    assert_eq!(&on[..3], &[0x06, 0x49, 0x01]);
    assert_eq!(&off[..3], &[0x06, 0x49, 0x00]);
    assert!(on[3..].iter().all(|b| *b == 0));
    assert!(off[3..].iter().all(|b| *b == 0));
}

#[test]
fn events_describe_themselves() {
    assert_eq!(HidEvent::DialPosition(7).describe(), "Dial position: 7");
    assert_eq!(HidEvent::ChatMixLevels { game: 80, chat: 20 }.describe(), "ChatMix: game=80, chat=20");
    assert_eq!(HidEvent::NoiseControl(NoiseMode::Anc).describe(), "Noise control: Active Noise Canceling");
    assert_eq!(HidEvent::AncHardware(0x0a).describe(), "ANC hardware event: 0x0a");
    assert_eq!(
        HidEvent::Unknown { feature: 0xff, value: 0x42 }.describe(),
        "Unknown event: feature=0xff value=0x42"
    );
}

#[test]
fn headset_interface_is_recognised_from_uevent() {
    let ok = "DRIVER=hid-generic\nHID_ID=0003:00001038:00002244\nHID_NAME=SteelSeries Arctis Nova Elite\nHID_PHYS=usb-0000:00:14.0-3/input3\n";
    assert!(is_target_device(ok));
    let wrong_iface = "HID_ID=0003:00001038:00002244\nHID_PHYS=usb-0000:00:14.0-3/input0\n";
    assert!(!is_target_device(wrong_iface));
    let wrong_product = "HID_ID=0003:00001038:00001234\nHID_PHYS=usb-0000:00:14.0-3/input3\n";
    assert!(!is_target_device(wrong_product));
    assert!(!is_target_device(""));
    assert_eq!(dev_path("hidraw4"), "/dev/hidraw4");
}
