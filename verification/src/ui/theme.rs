//! Colours and initials of the interface's palette.
use vstd::prelude::*;
use crate::types::UserStatus;
use crate::text::{lowercase_of_char, chars_of, char_to_lowercase, ascii_lower};

verus! {

/// An RGB colour.
pub type Rgb = (u8, u8, u8);

/// The colour of a presence status: green online, amber away, red for do
/// not disturb, dark grey offline.
pub open spec fn status_rgb_spec(status: UserStatus) -> Rgb {
    match status {
        UserStatus::Online => (34u8, 197u8, 94u8),
        UserStatus::Away => (245u8, 158u8, 11u8),
        UserStatus::DoNotDisturb => (239u8, 68u8, 68u8),
        UserStatus::Offline => (51u8, 51u8, 51u8),
    }
}

/// The colour of a presence status.
pub fn status_rgb(status: UserStatus) -> (r: Rgb)
    ensures
        r == status_rgb_spec(status),
{
    match status {
        UserStatus::Online => (34, 197, 94),
        UserStatus::Away => (245, 158, 11),
        UserStatus::DoNotDisturb => (239, 68, 68),
        UserStatus::Offline => (51, 51, 51),
    }
}

/// The hash of a name's bytes: starting from 0, each byte `b` takes `h` to
/// `h * 31 + b`, modulo 2^32.
pub open spec fn name_hash(bytes: Seq<u8>) -> u32
    decreases bytes.len(),
{
    if bytes.len() == 0 {
        0
    } else {
        ((name_hash(bytes.drop_last()) as int * 31 + bytes.last()) % 0x1_0000_0000) as u32
    }
}

/// The six muted tones avatars are drawn in.
pub open spec fn avatar_tone(i: int) -> Rgb {
    if i == 0 {
        (24u8, 24u8, 20u8)
    } else if i == 1 {
        (20u8, 24u8, 20u8)
    } else if i == 2 {
        (24u8, 20u8, 19u8)
    } else if i == 3 {
        (20u8, 20u8, 24u8)
    } else if i == 4 {
        (24u8, 23u8, 20u8)
    } else {
        (20u8, 24u8, 24u8)
    }
}

/// The tone of avatar text that goes with each background tone.
pub open spec fn avatar_text_tone(i: int) -> Rgb {
    if i == 0 {
        (106u8, 106u8, 74u8)
    } else if i == 1 {
        (74u8, 106u8, 74u8)
    } else if i == 2 {
        (106u8, 74u8, 64u8)
    } else if i == 3 {
        (74u8, 74u8, 106u8)
    } else if i == 4 {
        (106u8, 97u8, 74u8)
    } else {
        (74u8, 106u8, 106u8)
    }
}

/// The tone index of a name: its hash modulo six.
fn tone_index(name: &str) -> (r: u32)
    ensures
        r as int == name_hash(vstd::utf8::encode_utf8(name@)) as int % 6,
{
    let bytes = name.as_bytes();
    let mut h: u32 = 0;
    let mut i: usize = 0;
    while i < bytes.len()
        invariant
            i <= bytes@.len(),
            bytes@ == vstd::utf8::encode_utf8(name@),
            h == name_hash(bytes@.take(i as int)),
        decreases bytes@.len() - i,
    {
        assert(bytes@.take(i as int + 1).drop_last() =~= bytes@.take(i as int));
        let b = bytes[i];
        let next = h.wrapping_mul(31).wrapping_add(b as u32);
        assert(next == ((h as int * 31 + b) % 0x1_0000_0000) as u32) by (nonlinear_arith)
            requires
                next == (((h as int * 31) % 0x1_0000_0000) + b as int) % 0x1_0000_0000,
        {
        }
        h = next;
        i = i + 1;
    }
    assert(bytes@.take(i as int) =~= bytes@);
    h % 6
}

/// The avatar background of a name: the tone chosen by the name's hash
/// modulo six.
pub fn avatar_rgb(name: &str) -> (r: Rgb)
    ensures
        r == avatar_tone(name_hash(vstd::utf8::encode_utf8(name@)) as int % 6),
{
    let k = tone_index(name);
    if k == 0 {
        (24, 24, 20)
    } else if k == 1 {
        (20, 24, 20)
    } else if k == 2 {
        (24, 20, 19)
    } else if k == 3 {
        (20, 20, 24)
    } else if k == 4 {
        (24, 23, 20)
    } else {
        (20, 24, 24)
    }
}

/// The colour of a name's avatar text: the text tone of its background
/// tone.
pub fn avatar_text_rgb(name: &str) -> (r: Rgb)
    ensures
        r == avatar_text_tone(name_hash(vstd::utf8::encode_utf8(name@)) as int % 6),
{
    let k = tone_index(name);
    if k == 0 {
        (106, 106, 74)
    } else if k == 1 {
        (74, 106, 74)
    } else if k == 2 {
        (106, 74, 64)
    } else if k == 3 {
        (74, 74, 106)
    } else if k == 4 {
        (106, 97, 74)
    } else {
        (74, 106, 106)
    }
}

/// Two-letter initials: the lower-case forms of the first two characters,
/// of the only one, or `?` for an empty name.
pub open spec fn initials_spec(name: Seq<char>) -> Seq<char> {
    if name.len() >= 2 {
        lowercase_of_char(name[0]) + lowercase_of_char(name[1])
    } else if name.len() == 1 {
        lowercase_of_char(name[0])
    } else {
        seq!['?']
    }
}

/// Two-letter initials of a name.
pub fn initials(name: &str) -> (r: String)
    ensures
        r@ == initials_spec(name@),
        r@.len() >= 1,
        name@.len() >= 1 && (forall|i: int| 0 <= i < name@.len() && i < 2 ==> (name@[i] as u32) < 128) ==> r@ == if name@.len() >= 2 {
            seq![ascii_lower(name@[0]), ascii_lower(name@[1])]
        } else {
            seq![ascii_lower(name@[0])]
        },
{
    let chars = chars_of(name);
    if chars.len() >= 2 {
        let mut s = char_to_lowercase(chars[0]);
        let second = char_to_lowercase(chars[1]);
        s.append(second.as_str());
        s
    } else if chars.len() == 1 {
        char_to_lowercase(chars[0])
    } else {
        proof { reveal_strlit("?"); }
        "?".to_owned()
    }
}

} // verus!
