//! Virtual-key codes and the mapping from key names to codes.

use vstd::prelude::*;
use crate::text::str_chars;

verus! {

pub const VK_SPACE: u16 = 0x20;
pub const VK_RETURN: u16 = 0x0D;
pub const VK_ESCAPE: u16 = 0x1B;
pub const VK_TAB: u16 = 0x09;
pub const VK_SHIFT: u16 = 0x10;
pub const VK_CONTROL: u16 = 0x11;
pub const VK_ALT: u16 = 0x12;
pub const VK_A: u16 = 0x41;
pub const VK_D: u16 = 0x44;
pub const VK_G: u16 = 0x47;
pub const VK_N: u16 = 0x4E;
pub const VK_O: u16 = 0x4F;
pub const VK_S: u16 = 0x53;
pub const VK_W: u16 = 0x57;
pub const VK_0: u16 = 0x30;
pub const VK_1: u16 = 0x31;
pub const VK_2: u16 = 0x32;
pub const VK_3: u16 = 0x33;
pub const VK_4: u16 = 0x34;
pub const VK_5: u16 = 0x35;
pub const VK_6: u16 = 0x36;
pub const VK_7: u16 = 0x37;
pub const VK_8: u16 = 0x38;
pub const VK_9: u16 = 0x39;
pub const VK_F1: u16 = 0x70;
pub const VK_F2: u16 = 0x71;

/// The upper-case form of `s`, as Unicode defines it.
pub uninterp spec fn upper_of(s: Seq<char>) -> Seq<char>;

/// Every character of `s` is ASCII.
pub open spec fn all_ascii(s: Seq<char>) -> bool {
    forall|i: int| 0 <= i < s.len() ==> (#[trigger] s[i] as u32) < 128
}

/// ASCII upper-casing: `a`-`z` become `A`-`Z`, every other character stays.
pub open spec fn ascii_upper(s: Seq<char>) -> Seq<char> {
    Seq::new(
        s.len(),
        |i: int| if 'a' <= s[i] && s[i] <= 'z' {
            ((s[i] as u32) - 32) as char
        } else {
            s[i]
        },
    )
}

/// Relies on `str::to_uppercase`: the result depends on the characters alone,
/// and on ASCII text it is the ASCII upper-casing (Unicode maps `a`-`z` to
/// `A`-`Z` and leaves every other ASCII character as it is).
#[verifier::external_body]
fn uppercase(s: &str) -> (r: String)
    ensures
        r@ == upper_of(s@),
        all_ascii(s@) ==> r@ == ascii_upper(s@),
{
    s.to_uppercase()
}

/// The virtual-key code of an upper-case key name: a letter A-Z or digit 0-9
/// is its own ASCII code; SPACE, ENTER, ESC, TAB, SHIFT, CTRL, ALT and F1-F12
/// name the keys they say.
pub open spec fn vk_code_of(k: Seq<char>) -> Option<u16> {
    if k.len() == 1 && (('A' <= k[0] && k[0] <= 'Z') || ('0' <= k[0] && k[0] <= '9')) {
        Some(k[0] as u16)
    } else if k == "SPACE"@ {
        Some(VK_SPACE)
    } else if k == "ENTER"@ {
        Some(VK_RETURN)
    } else if k == "ESC"@ {
        Some(VK_ESCAPE)
    } else if k == "TAB"@ {
        Some(VK_TAB)
    } else if k == "SHIFT"@ {
        Some(VK_SHIFT)
    } else if k == "CTRL"@ {
        Some(VK_CONTROL)
    } else if k == "ALT"@ {
        Some(VK_ALT)
    } else if k == "F1"@ {
        Some(0x70)
    } else if k == "F2"@ {
        Some(0x71)
    } else if k == "F3"@ {
        Some(0x72)
    } else if k == "F4"@ {
        Some(0x73)
    } else if k == "F5"@ {
        Some(0x74)
    } else if k == "F6"@ {
        Some(0x75)
    } else if k == "F7"@ {
        Some(0x76)
    } else if k == "F8"@ {
        Some(0x77)
    } else if k == "F9"@ {
        Some(0x78)
    } else if k == "F10"@ {
        Some(0x79)
    } else if k == "F11"@ {
        Some(0x7A)
    } else if k == "F12"@ {
        Some(0x7B)
    } else {
        None
    }
}

fn chars_equal(a: &Vec<char>, b: &str) -> (r: bool)
    ensures
        r == (a@ == b@),
{
    let bc = str_chars(b);
    if a.len() != bc.len() {
        return false;
    }
    let mut i: usize = 0;
    while i < a.len()
        invariant
            a@.len() == bc@.len(),
            bc@ == b@,
            i <= a@.len(),
            forall|j: int| 0 <= j < i ==> a@[j] == bc@[j],
        decreases a@.len() - i,
    {
        if a[i] != bc[i] {
            return false;
        }
        i += 1;
    }
    proof {
        assert(a@ =~= bc@);
    }
    true
}

/// The virtual-key code named by `key`, which is already upper-case.
pub fn vk_code_of_upper(key: &str) -> (r: Option<u16>)
    ensures
        r == vk_code_of(key@),
{
    let k = str_chars(key);
    if k.len() == 1 {
        let c = k[0];
        if ('A' <= c && c <= 'Z') || ('0' <= c && c <= '9') {
            return Some(c as u16);
        }
    }
    if chars_equal(&k, "SPACE") {
        Some(VK_SPACE)
    } else if chars_equal(&k, "ENTER") {
        Some(VK_RETURN)
    } else if chars_equal(&k, "ESC") {
        Some(VK_ESCAPE)
    } else if chars_equal(&k, "TAB") {
        Some(VK_TAB)
    } else if chars_equal(&k, "SHIFT") {
        Some(VK_SHIFT)
    } else if chars_equal(&k, "CTRL") {
        Some(VK_CONTROL)
    } else if chars_equal(&k, "ALT") {
        Some(VK_ALT)
    } else if chars_equal(&k, "F1") {
        Some(0x70)
    } else if chars_equal(&k, "F2") {
        Some(0x71)
    } else if chars_equal(&k, "F3") {
        Some(0x72)
    } else if chars_equal(&k, "F4") {
        Some(0x73)
    } else if chars_equal(&k, "F5") {
        Some(0x74)
    } else if chars_equal(&k, "F6") {
        Some(0x75)
    } else if chars_equal(&k, "F7") {
        Some(0x76)
    } else if chars_equal(&k, "F8") {
        Some(0x77)
    } else if chars_equal(&k, "F9") {
        Some(0x78)
    } else if chars_equal(&k, "F10") {
        Some(0x79)
    } else if chars_equal(&k, "F11") {
        Some(0x7A)
    } else if chars_equal(&k, "F12") {
        Some(0x7B)
    } else {
        None
    }
}

/// The virtual-key code of a key name, in any letter case.
pub fn get_vk_code(key: &str) -> (r: Option<u16>)
    ensures
        r == vk_code_of(upper_of(key@)),
        all_ascii(key@) ==> r == vk_code_of(ascii_upper(key@)),
{
    let upper = uppercase(key);
    vk_code_of_upper(upper.as_str())
}

/// A key name that names no key.
pub struct UnknownKey {
    pub key: String,
}

/// The virtual-key code of a key name, or the name back as an error.
pub fn resolve_key(key: &str) -> (r: Result<u16, UnknownKey>)
    ensures
        (r matches Ok(v) ==> vk_code_of(upper_of(key@)) == Some(v)),
        (r matches Err(e) ==> vk_code_of(upper_of(key@)) is None && e.key@ == key@),
{
    match get_vk_code(key) {
        Some(v) => Ok(v),
        None => Err(UnknownKey { key: key.to_owned() }),
    }
}

} // verus!
