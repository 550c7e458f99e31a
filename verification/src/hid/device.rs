//! Recognising the headset among the `hidraw` devices: the `uevent` file of
//! the device's `device` directory names its USB ids and its interface.
use vstd::prelude::*;

use crate::text::{
    append_str, contains_seq, contains_str, ends_with, ends_with_str, lines_seq,
    lines_str, string_of_str, strip_prefix, strip_prefix_str, views,
};

verus! {

pub const VENDOR_ID: &'static str = "1038";

pub const PRODUCT_ID: &'static str = "2244";

/// The interface the ChatMix and battery reports arrive on.
pub const TARGET_INTERFACE: &'static str = "input3";

/// A `HID_ID=` line naming the headset's vendor and product (each written as
/// `0000` and the four hex digits). The ids are digits, so the lowercase
/// form of the line holds them exactly where the line itself does.
pub open spec fn hid_id_line(line: Seq<char>) -> bool {
    match strip_prefix(line, "HID_ID="@) {
        Some(id) => contains_seq(id, "00001038"@) && contains_seq(id, "00002244"@),
        None => false,
    }
}

/// A `HID_PHYS=` line whose physical path ends in the target interface.
pub open spec fn phys_line(line: Seq<char>) -> bool {
    match strip_prefix(line, "HID_PHYS="@) {
        Some(p) => ends_with(p, "input3"@),
        None => false,
    }
}

/// The uevent belongs to the headset's interface 3.
pub open spec fn is_target_spec(uevent: Seq<char>) -> bool {
    (exists|i: int| 0 <= i < lines_seq(uevent).len() && hid_id_line(#[trigger] lines_seq(uevent)[i]))
        && (exists|i: int| 0 <= i < lines_seq(uevent).len() && phys_line(#[trigger] lines_seq(uevent)[i]))
}

fn hid_id_line_exec(line: &Vec<char>) -> (r: bool)
    ensures
        r == hid_id_line(line@),
{
    match strip_prefix_str(line, "HID_ID=") {
        Some(id) => contains_str(&id, "00001038") && contains_str(&id, "00002244"),
        None => false,
    }
}

fn phys_line_exec(line: &Vec<char>) -> (r: bool)
    ensures
        r == phys_line(line@),
{
    match strip_prefix_str(line, "HID_PHYS=") {
        Some(p) => ends_with_str(&p, "input3"),
        None => false,
    }
}

/// Whether a hidraw device's `uevent` content is the headset's interface 3.
pub fn is_target_device(uevent: &str) -> (r: bool)
    ensures
        r == is_target_spec(uevent@),
{
    let lines = lines_str(uevent);
    let ghost ls = lines_seq(uevent@);
    let mut id_ok = false;
    let mut phys_ok = false;
    let mut i: usize = 0;
    while i < lines.len()
        invariant
            i <= lines.len(),
            views(lines@) == ls,
            ls == lines_seq(uevent@),
            id_ok == (exists|j: int| 0 <= j < i && hid_id_line(#[trigger] ls[j])),
            phys_ok == (exists|j: int| 0 <= j < i && phys_line(#[trigger] ls[j])),
        decreases lines.len() - i,
    {
        assert(ls[i as int] == lines@[i as int]@);
        if hid_id_line_exec(&lines[i]) {
            id_ok = true;
        }
        if phys_line_exec(&lines[i]) {
            phys_ok = true;
        }
        i = i + 1;
    }
    id_ok && phys_ok
}

/// The device node of a hidraw entry: `/dev/<name>`.
pub fn dev_path(name: &str) -> (r: String)
    ensures
        r@ == "/dev/"@ + name@,
{
    let mut s = string_of_str("/dev/");
    append_str(&mut s, name);
    s
}

} // verus!
