//! Flashable targets: mounted volumes that hold the bootloader's marker file
//! at their root.

use vstd::prelude::*;
use vstd::string::StringExecFns;
use crate::bytes::{index_of, occurs};
use crate::text::{decimal, decimal_text, find_chars, to_chars};

verus! {

/// The name of the file whose presence at the root of a volume marks it as a
/// flashable target.
pub const MARKER_FILE: &'static str = "INFO_UF2.TXT";

/// A flashable target.
#[derive(Debug, Clone, PartialEq, Eq)]
pub struct Device {
    /// Where the volume is mounted.
    pub root: String,
    /// The name shown for it.
    pub label: String,
}

/// The label of a target whose marker file says nothing.
pub open spec fn default_label() -> Seq<char> {
    "RP2040"@
}

/// The first line of a text that is not empty: what stands before the first
/// line feed, without the carriage return that may precede it; the whole
/// text where it has no line feed.
pub open spec fn first_line(text: Seq<char>) -> Seq<char> {
    if occurs(text, seq!['\n']) {
        let line = text.take(index_of(text, seq!['\n']));
        if line.len() > 0 && line.last() == '\r' {
            line.drop_last()
        } else {
            line
        }
    } else {
        text
    }
}

/// The label of a target: the first line of its marker file, or the default
/// where the file could not be read or is empty.
pub open spec fn label_of(info: Option<Seq<char>>) -> Seq<char> {
    match info {
        Some(text) => if text.len() == 0 {
            default_label()
        } else {
            first_line(text)
        },
        None => default_label(),
    }
}

/// The label of a target whose marker file holds `info`, if it could be
/// read.
pub fn device_label(info: Option<&str>) -> (r: String)
    ensures
        r@ == label_of(
            match info {
                Some(text) => Some(text@),
                None => None,
            },
        ),
{
    match info {
        None => String::from_str("RP2040"),
        Some(text) => {
            let chars = to_chars(text);
            if chars.len() == 0 {
                return String::from_str("RP2040");
            }
            let feed = vec!['\n'];
            assert(feed@ =~= seq!['\n']);
            match find_chars(chars.as_slice(), feed.as_slice()) {
                None => text.to_owned(),
                Some(end) => {
                    let stop = if end > 0 && chars[end - 1] == '\r' {
                        end - 1
                    } else {
                        end
                    };
                    let line = text.substring_char(0, stop);
                    line.to_owned()
                },
            }
        },
    }
}

/// The log line that sums up a scan for targets.
pub open spec fn found_devices_text(count: nat) -> Seq<char> {
    if count == 0 {
        "No RP2040 bootloader devices found. Plug the board and press 'r' to rescan."@
    } else {
        "Found "@ + decimal_text(count) + " device(s)"@
    }
}

/// The log line that sums up a scan that found `count` targets.
pub fn found_devices(count: usize) -> (r: String)
    ensures
        r@ == found_devices_text(count as nat),
{
    if count == 0 {
        String::from_str(
            "No RP2040 bootloader devices found. Plug the board and press 'r' to rescan.",
        )
    } else {
        let mut line = String::from_str("Found ");
        line.append(decimal(count as u64).as_str());
        line.append(" device(s)");
        line
    }
}

} // verus!
