//! Logical key events, decoded from raw terminal byte sequences.

use vstd::prelude::*;

verus! {

/// One logical key event, as the selector sees it.  `Char` carries only
/// non-control characters; control bytes map to the structured variants or
/// to `Other`.
#[derive(PartialEq, Eq, Structural, Clone, Copy, Debug)]
pub enum KeyEvent {
    Char(char),
    Backspace,
    ArrowUp,
    ArrowDown,
    ArrowLeft,
    ArrowRight,
    Tab,
    BackTab,
    Enter,
    Escape,
    Other,
}

/// An ASCII control character: the C0 range and delete.
pub open spec fn spec_is_control(c: char) -> bool {
    (c as u32) < 0x20 || (c as u32) == 0x7f
}

/// Executable mirror of [`spec_is_control`].
pub fn is_control(c: char) -> (r: bool)
    ensures
        r == spec_is_control(c),
{
    (c as u32) < 0x20 || (c as u32) == 0x7f
}

/// Relies on char::from_u32: `Some` exactly for Unicode scalar values,
/// carrying the character with that code.
pub assume_specification[ char::from_u32 ](i: u32) -> (r: Option<char>)
    ensures
        vstd::utf8::is_scalar(i) ==> r == Some(i as char),
        !vstd::utf8::is_scalar(i) ==> r is None,
;

/// Decoding of one escape-introduced sequence at the head of `bytes`:
/// a lone escape byte, or `ESC [` plus one final byte naming an arrow,
/// back-tab, or some other sequence.  `None` awaits the final byte.
pub open spec fn spec_decode_escape(bytes: Seq<u8>) -> Option<(KeyEvent, int)>
    recommends
        bytes.len() >= 1,
        bytes[0] == 0x1b,
{
    if bytes.len() == 1 || bytes[1] != 0x5b {
        Some((KeyEvent::Escape, 1int))
    } else if bytes.len() == 2 {
        None
    } else {
        let b2 = bytes[2];
        let key = if b2 == 0x41 {
            KeyEvent::ArrowUp
        } else if b2 == 0x42 {
            KeyEvent::ArrowDown
        } else if b2 == 0x43 {
            KeyEvent::ArrowRight
        } else if b2 == 0x44 {
            KeyEvent::ArrowLeft
        } else if b2 == 0x5a {
            KeyEvent::BackTab
        } else {
            KeyEvent::Other
        };
        Some((key, 3int))
    }
}

/// How many bytes the multi-byte encoding led by `b0` needs; `0` marks a
/// byte that cannot lead an encoding.
pub open spec fn spec_utf8_need(b0: u8) -> int {
    if vstd::utf8::is_leading_byte_width_2(b0) {
        2
    } else if vstd::utf8::is_leading_byte_width_3(b0) {
        3
    } else if vstd::utf8::is_leading_byte_width_4(b0) {
        4
    } else {
        0
    }
}

/// Decoding of one multi-byte character at the head of `bytes`: the
/// character, when the leading byte's continuation bytes are all present
/// and the encoding is sound; `None` while bytes are still to come; one
/// consumed `Other` byte on a malformed encoding.
pub open spec fn spec_decode_utf8(bytes: Seq<u8>) -> Option<(KeyEvent, int)>
    recommends
        bytes.len() >= 1,
        bytes[0] >= 0x80,
{
    let need = spec_utf8_need(bytes[0]);
    if need == 0 {
        Some((KeyEvent::Other, 1int))
    } else if bytes.len() < need {
        None
    } else if vstd::utf8::valid_first_scalar(bytes) {
        Some((KeyEvent::Char(vstd::utf8::decode_first_scalar(bytes) as char), need))
    } else {
        Some((KeyEvent::Other, 1int))
    }
}

/// Decoding of the first key event in `bytes`, one chunk as the terminal
/// delivered it: the event and how many bytes it consumed, or `None` when
/// the chunk holds the start of a sequence whose rest is still to come.
pub open spec fn spec_decode(bytes: Seq<u8>) -> Option<(KeyEvent, int)> {
    if bytes.len() == 0 {
        None
    } else {
        let b0 = bytes[0];
        if b0 == 0x1b {
            spec_decode_escape(bytes)
        } else if b0 == 0x0d || b0 == 0x0a {
            Some((KeyEvent::Enter, 1int))
        } else if b0 == 0x09 {
            Some((KeyEvent::Tab, 1int))
        } else if b0 == 0x7f || b0 == 0x08 {
            Some((KeyEvent::Backspace, 1int))
        } else if b0 < 0x20 {
            Some((KeyEvent::Other, 1int))
        } else if b0 < 0x80 {
            Some((KeyEvent::Char(b0 as char), 1int))
        } else {
            spec_decode_utf8(bytes)
        }
    }
}

/// A decoded `Char` event never carries a control character: control
/// bytes all map to the structured events or to `Other`, and a decoded
/// multi-byte character's code lies beyond the control range.
pub proof fn lemma_decoded_char_is_printable(bytes: Seq<u8>, c: char, n: int)
    requires
        spec_decode(bytes) == Some((KeyEvent::Char(c), n)),
    ensures
        !spec_is_control(c),
{
    let b0 = bytes[0];
    if b0 == 0x1b {
    } else if 0x20 <= b0 < 0x80 {
        assert(c == b0 as char);
        assert(0x20 <= (c as u32) && (c as u32) < 0x80 && (c as u32) != 0x7f);
    } else if b0 >= 0x80 {
        let need = spec_utf8_need(b0);
        assert(vstd::utf8::valid_first_scalar(bytes));
        let code = vstd::utf8::decode_first_scalar(bytes);
        assert(c == code as char);
        assert(vstd::utf8::not_overlong_encoding(
            code,
            vstd::utf8::length_of_first_codepoint(bytes),
        ));
        assert(code >= 0x80);
        let bb0 = bytes[0];
        if vstd::utf8::is_leading_byte_width_2(bb0) {
            let bb1 = bytes[1];
            assert(code == ((((bb0 & 0x1f) as u32) << 6) | ((bb1 & 0x3f) as u32)));
            assert(((((bb0 & 0x1f) as u32) << 6) | ((bb1 & 0x3f) as u32)) <= 0x7ff)
                by (bit_vector);
        } else if vstd::utf8::is_leading_byte_width_3(bb0) {
            let bb1 = bytes[1];
            let bb2 = bytes[2];
            assert(code == ((((bb0 & 0x0f) as u32) << 12) | (((bb1 & 0x3f) as u32) << 6) | ((bb2
                & 0x3f) as u32)));
            assert(((((bb0 & 0x0f) as u32) << 12) | (((bb1 & 0x3f) as u32) << 6) | ((bb2
                & 0x3f) as u32)) <= 0xffff) by (bit_vector);
        }
        assert(code <= 0x10ffff);
        assert(vstd::utf8::is_scalar(code));
        assert(c as u32 == code);
    }
}

/// Decodes the first key event in a chunk of raw terminal bytes.
pub fn decode_key(bytes: &Vec<u8>) -> (r: Option<(KeyEvent, usize)>)
    ensures
        match r {
            Some(p) => spec_decode(bytes@) == Some((p.0, p.1 as int)),
            None => spec_decode(bytes@) is None,
        },
{
    if bytes.len() == 0 {
        return None;
    }
    let b0 = bytes[0];
    if b0 == 0x1b {
        if bytes.len() == 1 || bytes[1] != 0x5b {
            Some((KeyEvent::Escape, 1))
        } else if bytes.len() == 2 {
            None
        } else {
            let b2 = bytes[2];
            let key = if b2 == 0x41 {
                KeyEvent::ArrowUp
            } else if b2 == 0x42 {
                KeyEvent::ArrowDown
            } else if b2 == 0x43 {
                KeyEvent::ArrowRight
            } else if b2 == 0x44 {
                KeyEvent::ArrowLeft
            } else if b2 == 0x5a {
                KeyEvent::BackTab
            } else {
                KeyEvent::Other
            };
            Some((key, 3))
        }
    } else if b0 == 0x0d || b0 == 0x0a {
        Some((KeyEvent::Enter, 1))
    } else if b0 == 0x09 {
        Some((KeyEvent::Tab, 1))
    } else if b0 == 0x7f || b0 == 0x08 {
        Some((KeyEvent::Backspace, 1))
    } else if b0 < 0x20 {
        Some((KeyEvent::Other, 1))
    } else if b0 < 0x80 {
        Some((KeyEvent::Char(b0 as char), 1))
    } else {
        decode_utf8_key(bytes)
    }
}

/// Decodes one multi-byte character at the head of `bytes`.
fn decode_utf8_key(bytes: &Vec<u8>) -> (r: Option<(KeyEvent, usize)>)
    requires
        bytes@.len() >= 1,
        bytes@[0] >= 0x80,
    ensures
        match r {
            Some(p) => spec_decode_utf8(bytes@) == Some((p.0, p.1 as int)),
            None => spec_decode_utf8(bytes@) is None,
        },
{
    let b0 = bytes[0];
    let need: usize = if 0xc0 <= b0 && b0 <= 0xdf {
        2
    } else if 0xe0 <= b0 && b0 <= 0xef {
        3
    } else if 0xf0 <= b0 && b0 <= 0xf7 {
        4
    } else {
        0
    };
    if need == 0 {
        return Some((KeyEvent::Other, 1));
    }
    if bytes.len() < need {
        return None;
    }
    let mut ok: bool = true;
    let mut k: usize = 1;
    while k < need
        invariant
            1 <= k <= need,
            need <= bytes@.len(),
            ok == forall|m: int| 1 <= m < k ==> vstd::utf8::is_continuation_byte(#[trigger] bytes@[m]),
        decreases need - k,
    {
        if !(0x80 <= bytes[k] && bytes[k] <= 0xbf) {
            ok = false;
            proof {
                assert(!vstd::utf8::is_continuation_byte(bytes@[k as int]));
            }
            k = need;
        } else {
            proof {
                if forall|m: int| 1 <= m < k ==> vstd::utf8::is_continuation_byte(
                    #[trigger] bytes@[m],
                ) {
                    assert(forall|m: int|
                        1 <= m < k + 1 ==> vstd::utf8::is_continuation_byte(
                            #[trigger] bytes@[m],
                        ));
                }
            }
            k = k + 1;
        }
    }
    if !ok {
        proof {
            assert(!vstd::utf8::valid_leading_and_continuation_bytes_first_codepoint(bytes@));
        }
        return Some((KeyEvent::Other, 1));
    }
    let b1 = bytes[1];
    let b2: u8 = if need >= 3 {
        bytes[2]
    } else {
        0
    };
    let b3: u8 = if need >= 4 {
        bytes[3]
    } else {
        0
    };
    let code: u32 = if need == 2 {
        (((b0 & 0x1f) as u32) << 6) | ((b1 & 0x3f) as u32)
    } else if need == 3 {
        (((b0 & 0x0f) as u32) << 12) | (((b1 & 0x3f) as u32) << 6) | ((b2 & 0x3f) as u32)
    } else {
        (((b0 & 0x07) as u32) << 18) | (((b1 & 0x3f) as u32) << 12) | (((b2 & 0x3f) as u32) << 6)
            | ((b3 & 0x3f) as u32)
    };
    proof {
        assert(code == vstd::utf8::decode_first_codepoint(bytes@));
        assert(vstd::utf8::length_of_first_codepoint(bytes@) == need);
    }
    let sound: bool = if need == 2 {
        0x80 <= code
    } else if need == 3 {
        0x800 <= code
    } else {
        0x10000 <= code && code <= 0x10ffff
    };
    if !sound {
        return Some((KeyEvent::Other, 1));
    }
    if 0xd800 <= code && code <= 0xdfff {
        return Some((KeyEvent::Other, 1));
    }
    proof {
        assert(vstd::utf8::valid_first_scalar(bytes@));
        if need == 2 {
            assert(code <= 0x7ff) by (bit_vector)
                requires
                    code == (((b0 & 0x1f) as u32) << 6) | ((b1 & 0x3f) as u32),
            ;
        } else if need == 3 {
            assert(code <= 0xffff) by (bit_vector)
                requires
                    code == (((b0 & 0x0f) as u32) << 12) | (((b1 & 0x3f) as u32) << 6) | ((b2
                        & 0x3f) as u32),
            ;
        }
        assert(vstd::utf8::is_scalar(code));
    }
    match char::from_u32(code) {
        Some(c) => Some((KeyEvent::Char(c), need)),
        None => Some((KeyEvent::Other, 1)),
    }
}

} // verus!
