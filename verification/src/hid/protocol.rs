//! Decoding the headset's input reports and building its output reports.
use vstd::prelude::*;

use crate::text::{append_str, decimal, decimal_string, push_char, string_of_str};

verus! {

pub const REPORT_ID: u8 = 0x07;
pub const FEATURE_DIAL: u8 = 0x25;
pub const FEATURE_CHATMIX: u8 = 0x45;
pub const FEATURE_NOISE_CONTROL: u8 = 0xBD;
pub const FEATURE_ANC_HARDWARE: u8 = 0xB8;

/// The headset's noise-control mode.
#[derive(Debug, Clone, Copy, PartialEq, Eq, Structural)]
pub enum NoiseMode {
    Off,
    Transparency,
    Anc,
}

/// One decoded input report.
#[derive(Debug, Clone, Copy, PartialEq, Eq, Structural)]
pub enum HidEvent {
    DialPosition(u8),
    ChatMixLevels { game: u8, chat: u8 },
    NoiseControl(NoiseMode),
    AncHardware(u8),
    Unknown { feature: u8, value: u8 },
}

/// The event a report carries: byte 0 must be the report id; byte 1 names
/// the feature and byte 2 (and, for ChatMix levels, byte 3) its value. A
/// noise-control value other than 0, 1, 2 reads as an unknown event.
pub open spec fn parse_spec(buf: Seq<u8>) -> Option<HidEvent> {
    if buf[0] != REPORT_ID {
        None
    } else {
        let feature = buf[1];
        let value = buf[2];
        Some(
            if feature == FEATURE_DIAL {
                HidEvent::DialPosition(value)
            } else if feature == FEATURE_CHATMIX {
                HidEvent::ChatMixLevels { game: value, chat: buf[3] }
            } else if feature == FEATURE_NOISE_CONTROL {
                if value == 0 {
                    HidEvent::NoiseControl(NoiseMode::Off)
                } else if value == 1 {
                    HidEvent::NoiseControl(NoiseMode::Transparency)
                } else if value == 2 {
                    HidEvent::NoiseControl(NoiseMode::Anc)
                } else {
                    HidEvent::Unknown { feature, value }
                }
            } else if feature == FEATURE_ANC_HARDWARE {
                HidEvent::AncHardware(value)
            } else {
                HidEvent::Unknown { feature, value }
            },
        )
    }
}

/// Decode one 64-byte input report.
pub fn parse(buf: &[u8; 64]) -> (r: Option<HidEvent>)
    ensures
        r == parse_spec(buf@),
{
    if buf[0] != REPORT_ID {
        return None;
    }
    let feature = buf[1];
    let value = buf[2];
    let ev = if feature == FEATURE_DIAL {
        HidEvent::DialPosition(value)
    } else if feature == FEATURE_CHATMIX {
        HidEvent::ChatMixLevels { game: value, chat: buf[3] }
    } else if feature == FEATURE_NOISE_CONTROL {
        if value == 0 {
            HidEvent::NoiseControl(NoiseMode::Off)
        } else if value == 1 {
            HidEvent::NoiseControl(NoiseMode::Transparency)
        } else if value == 2 {
            HidEvent::NoiseControl(NoiseMode::Anc)
        } else {
            HidEvent::Unknown { feature, value }
        }
    } else if feature == FEATURE_ANC_HARDWARE {
        HidEvent::AncHardware(value)
    } else {
        HidEvent::Unknown { feature, value }
    };
    Some(ev)
}

/// The 64-byte output report `06 49 <flag>` followed by zeros.
pub open spec fn chatmix_command_spec(flag: u8) -> Seq<u8> {
    Seq::new(64, |i: int| if i == 0 { 0x06u8 } else if i == 1 { 0x49u8 } else if i == 2 { flag } else { 0u8 })
}

fn chatmix_command(flag: u8) -> (r: [u8; 64])
    ensures
        r@ == chatmix_command_spec(flag),
{
    let mut buf = [0u8; 64];
    buf[0] = 0x06;
    buf[1] = 0x49;
    buf[2] = flag;
    assert(buf@ =~= chatmix_command_spec(flag));
    buf
}

/// The report that turns the headset's ChatMix mode on.
pub fn chatmix_enable_command() -> (r: [u8; 64])
    ensures
        r@ == chatmix_command_spec(1),
{
    chatmix_command(1)
}

/// The report that turns the headset's ChatMix mode off.
pub fn chatmix_disable_command() -> (r: [u8; 64])
    ensures
        r@ == chatmix_command_spec(0),
{
    chatmix_command(0)
}

/// A lowercase hexadecimal digit.
pub open spec fn hex_digit(d: nat) -> char {
    if d < 10 {
        (d + 48) as char
    } else {
        (d + 87) as char
    }
}

/// `format!("{b:02x}")`.
pub open spec fn hex2(b: u8) -> Seq<char> {
    seq![hex_digit((b / 16) as nat), hex_digit((b % 16) as nat)]
}

fn hex_digit_exec(d: u8) -> (c: char)
    requires
        d < 16,
    ensures
        c == hex_digit(d as nat),
{
    if d < 10 {
        ((d + 48) as u8) as char
    } else {
        ((d + 87) as u8) as char
    }
}

fn push_hex2(out: &mut String, b: u8)
    ensures
        final(out)@ == old(out)@ + hex2(b),
{
    push_char(out, hex_digit_exec(b / 16));
    push_char(out, hex_digit_exec(b % 16));
    assert(final(out)@ =~= old(out)@ + hex2(b));
}

pub open spec fn noise_mode_text(m: NoiseMode) -> Seq<char> {
    match m {
        NoiseMode::Off => "Off"@,
        NoiseMode::Transparency => "Transparency"@,
        NoiseMode::Anc => "Active Noise Canceling"@,
    }
}

impl NoiseMode {
    /// The mode's name as shown to the user.
    pub fn describe(&self) -> (r: String)
        ensures
            r@ == noise_mode_text(*self),
    {
        match self {
            NoiseMode::Off => string_of_str("Off"),
            NoiseMode::Transparency => string_of_str("Transparency"),
            NoiseMode::Anc => string_of_str("Active Noise Canceling"),
        }
    }
}

pub open spec fn event_text(e: HidEvent) -> Seq<char> {
    match e {
        HidEvent::DialPosition(p) => "Dial position: "@ + decimal(p as nat),
        HidEvent::ChatMixLevels { game, chat } => "ChatMix: game="@ + decimal(game as nat) + ", chat="@
            + decimal(chat as nat),
        HidEvent::NoiseControl(m) => "Noise control: "@ + noise_mode_text(m),
        HidEvent::AncHardware(v) => "ANC hardware event: 0x"@ + hex2(v),
        HidEvent::Unknown { feature, value } => "Unknown event: feature=0x"@ + hex2(feature) + " value=0x"@
            + hex2(value),
    }
}

impl HidEvent {
    /// A one-line description of the event for the log.
    pub fn describe(&self) -> (r: String)
        ensures
            r@ == event_text(*self),
    {
        match self {
            HidEvent::DialPosition(p) => {
                let mut s = string_of_str("Dial position: ");
                append_str(&mut s, decimal_string(*p as u64).as_str());
                s
            },
            HidEvent::ChatMixLevels { game, chat } => {
                let mut s = string_of_str("ChatMix: game=");
                append_str(&mut s, decimal_string(*game as u64).as_str());
                append_str(&mut s, ", chat=");
                append_str(&mut s, decimal_string(*chat as u64).as_str());
                s
            },
            HidEvent::NoiseControl(m) => {
                let mut s = string_of_str("Noise control: ");
                append_str(&mut s, m.describe().as_str());
                s
            },
            HidEvent::AncHardware(v) => {
                let mut s = string_of_str("ANC hardware event: 0x");
                push_hex2(&mut s, *v);
                s
            },
            HidEvent::Unknown { feature, value } => {
                let mut s = string_of_str("Unknown event: feature=0x");
                push_hex2(&mut s, *feature);
                append_str(&mut s, " value=0x");
                push_hex2(&mut s, *value);
                s
            },
        }
    }
}

} // verus!
