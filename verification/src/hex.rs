//! Hexadecimal text.

use vstd::prelude::*;
use vstd::string::*;
use vstd::utf8::*;

verus! {

/// The lower-case digit that stands for a four-bit value.
pub open spec fn hex_digit(v: int) -> char {
    if v < 10 {
        (48 + v) as char
    } else {
        (87 + v) as char
    }
}

/// The lower-case hexadecimal text of some bytes, two digits each.
pub open spec fn hex_text(bytes: Seq<u8>) -> Seq<char> {
    Seq::new(
        2 * bytes.len(),
        |i: int|
            if i % 2 == 0 {
                hex_digit(bytes[i / 2] as int / 16)
            } else {
                hex_digit(bytes[i / 2] as int % 16)
            },
    )
}

/// The value of a hexadecimal digit of either case.
pub open spec fn digit_value(b: u8) -> Option<int> {
    if 48 <= b <= 57 {
        Some(b - 48)
    } else if 97 <= b <= 102 {
        Some(b - 87)
    } else if 65 <= b <= 70 {
        Some(b - 55)
    } else {
        None
    }
}

/// The byte that two characters spell: two digits, or a plus sign and one.
pub open spec fn pair_value(high: u8, low: u8) -> Option<int> {
    if high == 43 {
        digit_value(low)
    } else {
        match (digit_value(high), digit_value(low)) {
            (Some(h), Some(l)) => Some(16 * h + l),
            _ => None,
        }
    }
}

/// The bytes that a text's pairs of characters spell, where all of them do.
pub open spec fn unhex_bytes(text: Seq<u8>) -> Option<Seq<u8>> {
    if text.len() % 2 == 0 && forall|k: int|
        0 <= k < text.len() / 2 ==> (#[trigger] pair_value(text[2 * k], text[2 * k + 1])) is Some {
        Some(
            Seq::new(
                (text.len() / 2) as nat,
                |k: int| pair_value(text[2 * k], text[2 * k + 1])->0 as u8,
            ),
        )
    } else {
        None
    }
}

/// The lower-case digit that stands for a four-bit value.
fn digit(v: u8) -> (c: char)
    requires
        v < 16,
    ensures
        c == hex_digit(v as int),
{
    if v < 10 {
        (48 + v) as char
    } else {
        (87 + v) as char
    }
}

/// The lower-case hexadecimal text of some bytes.
pub fn hex(bytes: &[u8]) -> (r: String)
    ensures
        r@ == hex_text(bytes@),
{
    let mut out: String = String::new();
    let mut i: usize = 0;
    while i < bytes.len()
        invariant
            i <= bytes.len(),
            out@ == hex_text(bytes@.take(i as int)),
        decreases bytes.len() - i,
    {
        let b: u8 = bytes[i];
        let ghost done = out@;
        out.push(digit(b / 16));
        out.push(digit(b % 16));
        i = i + 1;
        assert(out@ =~= hex_text(bytes@.take(i as int))) by {
            let whole = hex_text(bytes@.take(i as int));
            let part = hex_text(bytes@.take(i - 1));
            assert forall|k: int| 0 <= k < whole.len() implies out@[k] == whole[k] by {
                if k < part.len() {
                    assert(bytes@.take(i as int)[k / 2] == bytes@.take(i - 1)[k / 2]);
                } else {
                    assert(k / 2 == i - 1);
                    assert(k == 2 * (i - 1) || k == 2 * (i - 1) + 1);
                }
            }
        }
    }
    assert(bytes@.take(i as int) =~= bytes@);
    out
}

/// The value of a hexadecimal digit of either case.
fn digit_of(b: u8) -> (r: Option<u8>)
    ensures
        r is Some <==> digit_value(b) is Some,
        r matches Some(v) ==> digit_value(b) == Some(v as int) && v < 16,
{
    if 48 <= b && b <= 57 {
        Some(b - 48)
    } else if 97 <= b && b <= 102 {
        Some(b - 87)
    } else if 65 <= b && b <= 70 {
        Some(b - 55)
    } else {
        None
    }
}

/// The bytes that a hexadecimal text spells. `None` for an odd length and for
/// anything that is no pair of digits.
pub fn unhex(text: &str) -> (r: Option<Vec<u8>>)
    ensures
        r is Some <==> unhex_bytes(text.spec_bytes()) is Some,
        r matches Some(bytes) ==> unhex_bytes(text.spec_bytes()) == Some(bytes@),
{
    unhex_raw(text.as_bytes())
}

/// The bytes that pairs of hexadecimal digits spell.
pub fn unhex_raw(raw: &[u8]) -> (r: Option<Vec<u8>>)
    ensures
        r is Some <==> unhex_bytes(raw@) is Some,
        r matches Some(bytes) ==> unhex_bytes(raw@) == Some(bytes@),
{
    if raw.len() % 2 != 0 {
        return None;
    }
    let mut out: Vec<u8> = Vec::new();
    let mut k: usize = 0;
    let pairs: usize = raw.len() / 2;
    while k < pairs
        invariant
            k <= pairs,
            raw.len() == 2 * pairs,
            out@.len() == k,
            forall|j: int|
                0 <= j < k ==> (#[trigger] pair_value(raw@[2 * j], raw@[2 * j + 1])) == Some(
                    out@[j] as int,
                ),
        decreases pairs - k,
    {
        let high: u8 = raw[2 * k];
        let low: u8 = raw[2 * k + 1];
        let value: Option<u8> = if high == 43 {
            digit_of(low)
        } else {
            match (digit_of(high), digit_of(low)) {
                (Some(h), Some(l)) => Some(16 * h + l),
                _ => None,
            }
        };
        match value {
            Some(v) => {
                assert(pair_value(raw@[2 * k], raw@[2 * k + 1]) == Some(v as int));
                out.push(v);
            },
            None => {
                assert(pair_value(raw@[2 * k], raw@[2 * k + 1]) is None);
                return None;
            },
        }
        k = k + 1;
    }
    proof {
        let all = unhex_bytes(raw@);
        assert(all is Some);
        assert(out@ =~= all->0);
    }
    Some(out)
}

/// Whether some bytes are hexadecimal digits.
pub open spec fn all_hex(raw: Seq<u8>) -> bool {
    forall|i: int| 0 <= i < raw.len() ==> (#[trigger] digit_value(raw[i])) is Some
}

/// Whether some bytes are hexadecimal digits.
pub fn is_all_hex(raw: &[u8]) -> (r: bool)
    ensures
        r == all_hex(raw@),
{
    let mut i: usize = 0;
    while i < raw.len()
        invariant
            i <= raw.len(),
            forall|k: int| 0 <= k < i ==> (#[trigger] digit_value(raw@[k])) is Some,
        decreases raw.len() - i,
    {
        if digit_of(raw[i]).is_none() {
            assert(digit_value(raw@[i as int]) is None);
            return false;
        }
        i = i + 1;
    }
    true
}

/// Digits in pairs always spell bytes.
pub proof fn digits_spell_bytes(raw: Seq<u8>)
    requires
        all_hex(raw),
        raw.len() % 2 == 0,
    ensures
        unhex_bytes(raw) is Some,
        unhex_bytes(raw)->0.len() == raw.len() / 2,
{
    assert forall|k: int| 0 <= k < raw.len() / 2 implies (#[trigger] pair_value(
        raw[2 * k],
        raw[2 * k + 1],
    )) is Some by {
        assert(digit_value(raw[2 * k]) is Some);
        assert(digit_value(raw[2 * k + 1]) is Some);
    }
}

/// The hexadecimal text of some bytes is made of digits.
pub proof fn hex_is_all_hex(bytes: Seq<u8>)
    ensures
        encode_utf8(hex_text(bytes)).len() == 2 * bytes.len(),
        all_hex(encode_utf8(hex_text(bytes))),
        is_ascii_chars(hex_text(bytes)),
{
    let text = hex_text(bytes);
    assert(is_ascii_chars(text)) by {
        assert forall|i: int| 0 <= i < text.len() implies '\0' <= #[trigger] text[i] <= '\u{7f}' by {
        }
    }
    is_ascii_chars_encode_utf8(text);
    let raw = encode_utf8(text);
    assert forall|i: int| 0 <= i < raw.len() implies (#[trigger] digit_value(raw[i])) is Some by {
        assert(raw[i] == text[i] as u8);
    }
}

/// Reading back the hexadecimal text of some bytes gives the bytes.
pub proof fn unhex_of_hex(bytes: Seq<u8>)
    ensures
        unhex_bytes(encode_utf8(hex_text(bytes))) == Some(bytes),
{
    let text = hex_text(bytes);
    assert(is_ascii_chars(text)) by {
        assert forall|i: int| 0 <= i < text.len() implies '\0' <= #[trigger] text[i] <= '\u{7f}' by {
        }
    }
    is_ascii_chars_encode_utf8(text);
    let raw = encode_utf8(text);
    assert(raw.len() == 2 * bytes.len());
    assert forall|k: int| 0 <= k < raw.len() / 2 implies (#[trigger] pair_value(
        raw[2 * k],
        raw[2 * k + 1],
    )) == Some(bytes[k] as int) by {
        assert(raw[2 * k] == text[2 * k] as u8);
        assert(raw[2 * k + 1] == text[2 * k + 1] as u8);
        assert((2 * k) / 2 == k);
        assert((2 * k + 1) / 2 == k);
    }
    assert(unhex_bytes(raw)->0 =~= bytes);
}

/// Different bytes have different hexadecimal texts.
pub proof fn hex_injective(x: Seq<u8>, y: Seq<u8>)
    requires
        hex_text(x) == hex_text(y),
    ensures
        x == y,
{
    unhex_of_hex(x);
    unhex_of_hex(y);
}

} // verus!
