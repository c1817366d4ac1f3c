//! What the window system says of the focused window, and how its raw
//! answers are read.

use vstd::prelude::*;
use vstd::utf8::{decode_utf8, valid_utf8};

verus! {

/// Title and class of a window.
#[derive(Clone, Debug, PartialEq, Eq)]
pub struct WindowInfo {
    pub title: String,
    pub class: String,
}

/// The number that four bytes stand for, least significant byte first.
pub open spec fn u32_from_bytes(b0: u8, b1: u8, b2: u8, b3: u8) -> int {
    b0 + 0x100 * b1 + 0x1_0000 * b2 + 0x100_0000 * b3
}

/// `u32::from_ne_bytes` of std: the integer whose representation in memory is
/// the four bytes given, in the byte order of the machine. Which of the two
/// orders that is, the contract leaves open.
#[verifier::external_body]
fn u32_from_native_bytes(b0: u8, b1: u8, b2: u8, b3: u8) -> (n: u32)
    ensures
        n == u32_from_bytes(b0, b1, b2, b3) || n == u32_from_bytes(b3, b2, b1, b0),
{
    u32::from_ne_bytes([b0, b1, b2, b3])
}

/// `String::from_utf8` of std: the text that the bytes encode, where they are
/// well-formed UTF-8, and nothing where they are not.
#[verifier::external_body]
fn text_from_utf8(bytes: Vec<u8>) -> (text: Option<String>)
    ensures
        text is Some <==> valid_utf8(bytes@),
        text matches Some(t) ==> t@ == decode_utf8(bytes@),
{
    String::from_utf8(bytes).ok()
}

/// Reads the identifier of a window from the value of a window property: the
/// four bytes of one 32-bit number, in the byte order of the machine. A value
/// of any other length holds no identifier.
pub fn window_id_from_property(value: &[u8]) -> (id: Option<u32>)
    ensures
        id is Some <==> value@.len() == 4,
        id matches Some(n) ==> n == u32_from_bytes(value[0], value[1], value[2], value[3]) || n
            == u32_from_bytes(value[3], value[2], value[1], value[0]),
{
    if value.len() != 4 {
        None
    } else {
        Some(u32_from_native_bytes(value[0], value[1], value[2], value[3]))
    }
}

impl WindowInfo {
    /// Reads title and class from the values of the two window properties.
    /// Both must be well-formed UTF-8; otherwise the window system has not
    /// given a usable answer.
    pub fn from_properties(title: Vec<u8>, class: Vec<u8>) -> (info: Option<WindowInfo>)
        ensures
            info is Some <==> valid_utf8(title@) && valid_utf8(class@),
            info matches Some(w) ==> w.title@ == decode_utf8(title@) && w.class@ == decode_utf8(
                class@,
            ),
    {
        match text_from_utf8(title) {
            Some(title) => match text_from_utf8(class) {
                Some(class) => Some(WindowInfo { title, class }),
                None => None,
            },
            None => None,
        }
    }
}

} // verus!
