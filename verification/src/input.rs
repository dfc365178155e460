//! Turning user input into PTY bytes: key names to escape sequences,
//! browser buttons and modifier keys to X11 conventions.

use vstd::prelude::*;
use vstd::string::StringSliceAdditionalSpecFns;

verus! {

/// Relies on str's PartialEq impl: string slices compare equal exactly
/// when they hold the same characters.
#[verifier::external_body]
pub fn str_eq(a: &str, b: &str) -> (r: bool)
    ensures
        r <==> a@ == b@,
{
    a == b
}

/// The X11 modifier bitmask for a mouse report: bit 2 shift, bit 3 alt,
/// bit 4 ctrl.
pub open spec fn spec_mouse_modifiers(shift: bool, alt: bool, ctrl: bool) -> u8 {
    let s: int = if shift {
        4
    } else {
        0
    };
    let a: int = if alt {
        8
    } else {
        0
    };
    let c: int = if ctrl {
        16
    } else {
        0
    };
    (s + a + c) as u8
}

pub fn mouse_modifiers(shift: bool, alt: bool, ctrl: bool) -> (r: u8)
    ensures
        r == spec_mouse_modifiers(shift, alt, ctrl),
{
    let mut mods: u8 = 0;
    if shift {
        mods = mods + 4;
    }
    if alt {
        mods = mods + 8;
    }
    if ctrl {
        mods = mods + 16;
    }
    mods
}

/// The X11 button code for a browser button index: left, middle and
/// right map to 0, 1 and 2; anything else counts as left.
pub fn x11_button(browser_button: i16) -> (r: u8)
    ensures
        browser_button == 1 ==> r == 1,
        browser_button == 2 ==> r == 2,
        browser_button != 1 && browser_button != 2 ==> r == 0,
{
    if browser_button == 1 {
        1
    } else if browser_button == 2 {
        2
    } else {
        0
    }
}

/// The default port of a WebSocket URL scheme: 443 for `wss`, 80
/// otherwise.
pub fn default_port(scheme: &str) -> (r: u16)
    ensures
        scheme@ == "wss"@ ==> r == 443,
        scheme@ != "wss"@ ==> r == 80,
{
    if str_eq(scheme, "wss") {
        443
    } else {
        80
    }
}

/// How many bytes the UTF-8 character starting with `b` occupies.
pub open spec fn spec_utf8_len(b: u8) -> int {
    if b < 0x80 {
        1
    } else if b < 0xE0 {
        2
    } else if b < 0xF0 {
        3
    } else {
        4
    }
}

/// The bytes a key press sends to the PTY. Special keys carry their
/// escape sequences; Ctrl+letter sends the matching control byte (except
/// Ctrl+V, which is left to the host's paste path); Alt prefixes ESC; a
/// single printable character sends itself; anything else sends nothing.
pub open spec fn spec_key_bytes(key: Seq<char>, key_utf8: Seq<u8>, ctrl: bool, alt: bool) -> Seq<
    u8,
> {
    if key == "Enter"@ {
        seq![0x0Du8]
    } else if key == "Backspace"@ {
        seq![0x7Fu8]
    } else if key == "Tab"@ {
        seq![0x09u8]
    } else if key == "Escape"@ {
        seq![0x1Bu8]
    } else if key == "ArrowUp"@ {
        seq![0x1Bu8, 0x5Bu8, 0x41u8]
    } else if key == "ArrowDown"@ {
        seq![0x1Bu8, 0x5Bu8, 0x42u8]
    } else if key == "ArrowRight"@ {
        seq![0x1Bu8, 0x5Bu8, 0x43u8]
    } else if key == "ArrowLeft"@ {
        seq![0x1Bu8, 0x5Bu8, 0x44u8]
    } else if key == "Home"@ {
        seq![0x1Bu8, 0x5Bu8, 0x48u8]
    } else if key == "End"@ {
        seq![0x1Bu8, 0x5Bu8, 0x46u8]
    } else if key == "PageUp"@ {
        seq![0x1Bu8, 0x5Bu8, 0x35u8, 0x7Eu8]
    } else if key == "PageDown"@ {
        seq![0x1Bu8, 0x5Bu8, 0x36u8, 0x7Eu8]
    } else if key == "Insert"@ {
        seq![0x1Bu8, 0x5Bu8, 0x32u8, 0x7Eu8]
    } else if key == "Delete"@ {
        seq![0x1Bu8, 0x5Bu8, 0x33u8, 0x7Eu8]
    } else if key == "F1"@ {
        seq![0x1Bu8, 0x4Fu8, 0x50u8]
    } else if key == "F2"@ {
        seq![0x1Bu8, 0x4Fu8, 0x51u8]
    } else if key == "F3"@ {
        seq![0x1Bu8, 0x4Fu8, 0x52u8]
    } else if key == "F4"@ {
        seq![0x1Bu8, 0x4Fu8, 0x53u8]
    } else if key == "F5"@ {
        seq![0x1Bu8, 0x5Bu8, 0x31u8, 0x35u8, 0x7Eu8]
    } else if key == "F6"@ {
        seq![0x1Bu8, 0x5Bu8, 0x31u8, 0x37u8, 0x7Eu8]
    } else if key == "F7"@ {
        seq![0x1Bu8, 0x5Bu8, 0x31u8, 0x38u8, 0x7Eu8]
    } else if key == "F8"@ {
        seq![0x1Bu8, 0x5Bu8, 0x31u8, 0x39u8, 0x7Eu8]
    } else if key == "F9"@ {
        seq![0x1Bu8, 0x5Bu8, 0x32u8, 0x30u8, 0x7Eu8]
    } else if key == "F10"@ {
        seq![0x1Bu8, 0x5Bu8, 0x32u8, 0x31u8, 0x7Eu8]
    } else if key == "F11"@ {
        seq![0x1Bu8, 0x5Bu8, 0x32u8, 0x33u8, 0x7Eu8]
    } else if key == "F12"@ {
        seq![0x1Bu8, 0x5Bu8, 0x32u8, 0x34u8, 0x7Eu8]
    } else if ctrl && key_utf8.len() == 1 {
        let b = key_utf8[0];
        let lower: u8 = if 0x41 <= b <= 0x5A {
            (b + 32) as u8
        } else {
            b
        };
        if lower == 0x76 {
            Seq::empty()
        } else if 0x61 <= lower <= 0x7A {
            seq![(lower - 0x60) as u8]
        } else if key_utf8.len() == 1 || spec_utf8_len(key_utf8[0]) == key_utf8.len() {
            key_utf8
        } else {
            Seq::empty()
        }
    } else if alt && key_utf8.len() == 1 {
        seq![0x1Bu8] + key_utf8
    } else if key_utf8.len() == 1 || (key_utf8.len() > 0 && spec_utf8_len(key_utf8[0])
        == key_utf8.len()) {
        key_utf8
    } else {
        Seq::empty()
    }
}

/// Copy a byte slice into a fresh vector.
fn bytes_to_vec(b: &[u8]) -> (r: Vec<u8>)
    ensures
        r@ == b@,
{
    let mut out: Vec<u8> = Vec::new();
    let mut i: usize = 0;
    while i < b.len()
        invariant
            i <= b@.len(),
            out@ == b@.take(i as int),
        decreases b@.len() - i,
    {
        out.push(b[i]);
        proof {
            assert(out@ =~= b@.take(i + 1));
        }
        i += 1;
    }
    proof {
        assert(b@.take(b@.len() as int) =~= b@);
    }
    out
}

/// Convert a key name (as browsers report them) plus modifier state to
/// the bytes to send to the PTY.
pub fn key_to_bytes(key: &str, ctrl: bool, alt: bool) -> (r: Vec<u8>)
    ensures
        r@ == spec_key_bytes(key@, key.spec_bytes(), ctrl, alt),
{
    if str_eq(key, "Enter") {
        return vec![0x0D];
    }
    if str_eq(key, "Backspace") {
        return vec![0x7F];
    }
    if str_eq(key, "Tab") {
        return vec![0x09];
    }
    if str_eq(key, "Escape") {
        return vec![0x1B];
    }
    if str_eq(key, "ArrowUp") {
        return vec![0x1B, 0x5B, 0x41];
    }
    if str_eq(key, "ArrowDown") {
        return vec![0x1B, 0x5B, 0x42];
    }
    if str_eq(key, "ArrowRight") {
        return vec![0x1B, 0x5B, 0x43];
    }
    if str_eq(key, "ArrowLeft") {
        return vec![0x1B, 0x5B, 0x44];
    }
    if str_eq(key, "Home") {
        return vec![0x1B, 0x5B, 0x48];
    }
    if str_eq(key, "End") {
        return vec![0x1B, 0x5B, 0x46];
    }
    if str_eq(key, "PageUp") {
        return vec![0x1B, 0x5B, 0x35, 0x7E];
    }
    if str_eq(key, "PageDown") {
        return vec![0x1B, 0x5B, 0x36, 0x7E];
    }
    if str_eq(key, "Insert") {
        return vec![0x1B, 0x5B, 0x32, 0x7E];
    }
    if str_eq(key, "Delete") {
        return vec![0x1B, 0x5B, 0x33, 0x7E];
    }
    if str_eq(key, "F1") {
        return vec![0x1B, 0x4F, 0x50];
    }
    if str_eq(key, "F2") {
        return vec![0x1B, 0x4F, 0x51];
    }
    if str_eq(key, "F3") {
        return vec![0x1B, 0x4F, 0x52];
    }
    if str_eq(key, "F4") {
        return vec![0x1B, 0x4F, 0x53];
    }
    if str_eq(key, "F5") {
        return vec![0x1B, 0x5B, 0x31, 0x35, 0x7E];
    }
    if str_eq(key, "F6") {
        return vec![0x1B, 0x5B, 0x31, 0x37, 0x7E];
    }
    if str_eq(key, "F7") {
        return vec![0x1B, 0x5B, 0x31, 0x38, 0x7E];
    }
    if str_eq(key, "F8") {
        return vec![0x1B, 0x5B, 0x31, 0x39, 0x7E];
    }
    if str_eq(key, "F9") {
        return vec![0x1B, 0x5B, 0x32, 0x30, 0x7E];
    }
    if str_eq(key, "F10") {
        return vec![0x1B, 0x5B, 0x32, 0x31, 0x7E];
    }
    if str_eq(key, "F11") {
        return vec![0x1B, 0x5B, 0x32, 0x33, 0x7E];
    }
    if str_eq(key, "F12") {
        return vec![0x1B, 0x5B, 0x32, 0x34, 0x7E];
    }

    let bytes = key.as_bytes();
    if ctrl && bytes.len() == 1 {
        let b = bytes[0];
        let lower: u8 = if 0x41 <= b && b <= 0x5A {
            b + 32
        } else {
            b
        };
        if lower == 0x76 {
            return Vec::new();
        }
        if 0x61 <= lower && lower <= 0x7A {
            return vec![lower - 0x60];
        }
        return bytes_to_vec(bytes);
    }
    if alt && bytes.len() == 1 {
        let mut out: Vec<u8> = vec![0x1B];
        out.push(bytes[0]);
        proof {
            assert(out@ =~= seq![0x1Bu8] + key.spec_bytes());
        }
        return out;
    }
    if bytes.len() == 1 {
        return bytes_to_vec(bytes);
    }
    if bytes.len() > 0 {
        let lead = bytes[0];
        let clen: usize = if lead < 0x80 {
            1
        } else if lead < 0xE0 {
            2
        } else if lead < 0xF0 {
            3
        } else {
            4
        };
        if clen == bytes.len() {
            return bytes_to_vec(bytes);
        }
    }
    Vec::new()
}

} // verus!
