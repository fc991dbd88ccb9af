//! Base64 text: the standard alphabet with padding, and the URL-safe alphabet
//! without.

use base64::Engine;
use vstd::prelude::*;


verus! {

/// The character that stands for a six-bit value.
pub open spec fn symbol(v: int, url_safe: bool) -> char {
    if v < 26 {
        (65 + v) as char
    } else if v < 52 {
        (97 + v - 26) as char
    } else if v < 62 {
        (48 + v - 52) as char
    } else if v == 62 {
        if url_safe {
            '-'
        } else {
            '+'
        }
    } else {
        if url_safe {
            '_'
        } else {
            '/'
        }
    }
}

/// The base64 text of some bytes: four symbols for every three bytes, and two
/// or three for a rest of one or two, which padding fills up to four.
pub open spec fn encoded(bytes: Seq<u8>, url_safe: bool, padded: bool) -> Seq<char>
    decreases bytes.len(),
{
    if bytes.len() == 0 {
        Seq::empty()
    } else {
        let a = bytes[0] as int;
        if bytes.len() == 1 {
            let two = seq![symbol(a / 4, url_safe), symbol(a % 4 * 16, url_safe)];
            if padded {
                two + seq!['=', '=']
            } else {
                two
            }
        } else {
            let b = bytes[1] as int;
            if bytes.len() == 2 {
                let three = seq![
                    symbol(a / 4, url_safe),
                    symbol(a % 4 * 16 + b / 16, url_safe),
                    symbol(b % 16 * 4, url_safe),
                ];
                if padded {
                    three + seq!['=']
                } else {
                    three
                }
            } else {
                let c = bytes[2] as int;
                seq![
                    symbol(a / 4, url_safe),
                    symbol(a % 4 * 16 + b / 16, url_safe),
                    symbol(b % 16 * 4 + c / 64, url_safe),
                    symbol(c % 64, url_safe),
                ] + encoded(bytes.skip(3), url_safe, padded)
            }
        }
    }
}

proof fn symbols_differ(v: int, w: int, url_safe: bool)
    requires
        0 <= v < 64,
        0 <= w < 64,
        symbol(v, url_safe) == symbol(w, url_safe),
    ensures
        v == w,
{
}

proof fn symbol_is_no_mark(v: int, url_safe: bool)
    requires
        0 <= v < 64,
    ensures
        symbol(v, url_safe) != '.',
        symbol(v, url_safe) != '=',
{
}

/// The base64 text of some bytes never holds a full stop.
pub proof fn encoded_has_no_dot(bytes: Seq<u8>, url_safe: bool, padded: bool)
    ensures
        !encoded(bytes, url_safe, padded).contains('.'),
    decreases bytes.len(),
{
    let text = encoded(bytes, url_safe, padded);
    assert forall|v: int| 0 <= v < 64 implies #[trigger] symbol(v, url_safe) != '.' by {
        symbol_is_no_mark(v, url_safe);
    }
    if bytes.len() >= 3 {
        let rest = encoded(bytes.skip(3), url_safe, padded);
        encoded_has_no_dot(bytes.skip(3), url_safe, padded);
        assert forall|i: int| 0 <= i < text.len() implies text[i] != '.' by {
            if i >= 4 {
                assert(text[i] == rest[i - 4]);
                assert(rest.contains(rest[i - 4]));
            }
        }
    }
}

/// How the base64 text of a rest of one byte looks.
proof fn text_of_one(x: Seq<u8>, url_safe: bool, padded: bool)
    requires
        x.len() == 1,
    ensures
        encoded(x, url_safe, padded).len() == (if padded {
            4int
        } else {
            2
        }),
        encoded(x, url_safe, padded)[0] == symbol(x[0] as int / 4, url_safe),
        encoded(x, url_safe, padded)[1] == symbol(x[0] as int % 4 * 16, url_safe),
        padded ==> encoded(x, url_safe, padded)[2] == '=',
{
}

/// How the base64 text of a rest of two bytes looks.
proof fn text_of_two(x: Seq<u8>, url_safe: bool, padded: bool)
    requires
        x.len() == 2,
    ensures
        encoded(x, url_safe, padded).len() == (if padded {
            4int
        } else {
            3
        }),
        encoded(x, url_safe, padded)[0] == symbol(x[0] as int / 4, url_safe),
        encoded(x, url_safe, padded)[1] == symbol(
            x[0] as int % 4 * 16 + x[1] as int / 16,
            url_safe,
        ),
        encoded(x, url_safe, padded)[2] == symbol(x[1] as int % 16 * 4, url_safe),
        padded ==> encoded(x, url_safe, padded)[3] == '=',
{
}

/// How the base64 text of three bytes and more looks.
proof fn text_of_three(x: Seq<u8>, url_safe: bool, padded: bool)
    requires
        x.len() >= 3,
    ensures
        encoded(x, url_safe, padded).len() == 4 + encoded(x.skip(3), url_safe, padded).len(),
        encoded(x, url_safe, padded)[0] == symbol(x[0] as int / 4, url_safe),
        encoded(x, url_safe, padded)[1] == symbol(
            x[0] as int % 4 * 16 + x[1] as int / 16,
            url_safe,
        ),
        encoded(x, url_safe, padded)[2] == symbol(
            x[1] as int % 16 * 4 + x[2] as int / 64,
            url_safe,
        ),
        encoded(x, url_safe, padded)[3] == symbol(x[2] as int % 64, url_safe),
        encoded(x, url_safe, padded).skip(4) == encoded(x.skip(3), url_safe, padded),
{
    assert(encoded(x, url_safe, padded).skip(4) =~= encoded(x.skip(3), url_safe, padded));
}

/// Different bytes have different base64 texts.
#[verifier::spinoff_prover]
pub proof fn encoded_injective(x: Seq<u8>, y: Seq<u8>, url_safe: bool, padded: bool)
    requires
        encoded(x, url_safe, padded) == encoded(y, url_safe, padded),
    ensures
        x == y,
    decreases x.len(),
{
    let s = encoded(x, url_safe, padded);
    let t = encoded(y, url_safe, padded);
    if x.len() == 1 {
        text_of_one(x, url_safe, padded);
    } else if x.len() == 2 {
        text_of_two(x, url_safe, padded);
    } else if x.len() >= 3 {
        text_of_three(x, url_safe, padded);
    }
    if y.len() == 1 {
        text_of_one(y, url_safe, padded);
    } else if y.len() == 2 {
        text_of_two(y, url_safe, padded);
    } else if y.len() >= 3 {
        text_of_three(y, url_safe, padded);
    }
    if x.len() == 0 || y.len() == 0 {
        assert(x =~= y);
    } else if x.len() == 1 && y.len() == 1 {
        symbols_differ(x[0] as int / 4, y[0] as int / 4, url_safe);
        symbols_differ(x[0] as int % 4 * 16, y[0] as int % 4 * 16, url_safe);
        assert(x =~= y);
    } else if x.len() == 2 && y.len() == 2 {
        symbols_differ(x[0] as int / 4, y[0] as int / 4, url_safe);
        symbols_differ(
            x[0] as int % 4 * 16 + x[1] as int / 16,
            y[0] as int % 4 * 16 + y[1] as int / 16,
            url_safe,
        );
        symbols_differ(x[1] as int % 16 * 4, y[1] as int % 16 * 4, url_safe);
        assert(x =~= y);
    } else if x.len() >= 3 && y.len() >= 3 {
        symbols_differ(x[0] as int / 4, y[0] as int / 4, url_safe);
        symbols_differ(
            x[0] as int % 4 * 16 + x[1] as int / 16,
            y[0] as int % 4 * 16 + y[1] as int / 16,
            url_safe,
        );
        symbols_differ(
            x[1] as int % 16 * 4 + x[2] as int / 64,
            y[1] as int % 16 * 4 + y[2] as int / 64,
            url_safe,
        );
        symbols_differ(x[2] as int % 64, y[2] as int % 64, url_safe);
        encoded_injective(x.skip(3), y.skip(3), url_safe, padded);
        assert(x =~= seq![x[0], x[1], x[2]] + x.skip(3));
        assert(y =~= seq![y[0], y[1], y[2]] + y.skip(3));
    } else {
        lengths_differ(x, y, url_safe, padded);
    }
}

/// Texts of different lengths of rest are different.
proof fn lengths_differ(x: Seq<u8>, y: Seq<u8>, url_safe: bool, padded: bool)
    requires
        x.len() > 0,
        y.len() > 0,
        x.len() <= 2 || y.len() <= 2,
        x.len() != y.len(),
    ensures
        encoded(x, url_safe, padded) != encoded(y, url_safe, padded),
{
    let s = encoded(x, url_safe, padded);
    let t = encoded(y, url_safe, padded);
    if x.len() == 1 {
        text_of_one(x, url_safe, padded);
    } else if x.len() == 2 {
        text_of_two(x, url_safe, padded);
        symbol_is_no_mark(x[1] as int % 16 * 4, url_safe);
    } else {
        text_of_three(x, url_safe, padded);
        symbol_is_no_mark(x[1] as int % 16 * 4 + x[2] as int / 64, url_safe);
        symbol_is_no_mark(x[2] as int % 64, url_safe);
    }
    if y.len() == 1 {
        text_of_one(y, url_safe, padded);
    } else if y.len() == 2 {
        text_of_two(y, url_safe, padded);
        symbol_is_no_mark(y[1] as int % 16 * 4, url_safe);
    } else {
        text_of_three(y, url_safe, padded);
        symbol_is_no_mark(y[1] as int % 16 * 4 + y[2] as int / 64, url_safe);
        symbol_is_no_mark(y[2] as int % 64, url_safe);
    }
    if s == t {
        assert(s.len() == t.len());
        if padded {
            assert(s[2] == t[2]);
            assert(s[3] == t[3]);
        }
    }
}

/// How long the padded base64 text of some bytes is.
pub proof fn encoded_length(bytes: Seq<u8>, url_safe: bool)
    ensures
        encoded(bytes, url_safe, true).len() == (bytes.len() + 2) / 3 * 4,
    decreases bytes.len(),
{
    if bytes.len() >= 3 {
        encoded_length(bytes.skip(3), url_safe);
    }
}

/// The character that stands for a six-bit value in the standard alphabet.
fn standard_symbol(v: u8) -> (c: char)
    requires
        v < 64,
    ensures
        c == symbol(v as int, false),
{
    if v < 26 {
        (65 + v) as char
    } else if v < 52 {
        (97 + (v - 26)) as char
    } else if v < 62 {
        (48 + (v - 52)) as char
    } else if v == 62 {
        '+'
    } else {
        '/'
    }
}

/// The standard, padded base64 text of some bytes.
pub fn base64_encode(bytes: &[u8]) -> (r: String)
    ensures
        r@ == encoded(bytes@, false, true),
{
    let mut out: String = String::new();
    let mut i: usize = 0;
    assert(bytes@.skip(0) =~= bytes@);
    while i < bytes.len()
        invariant
            i <= bytes.len(),
            out@ + encoded(bytes@.skip(i as int), false, true) == encoded(bytes@, false, true),
        decreases bytes.len() - i,
    {
        let ghost done = out@;
        let ghost rest = bytes@.skip(i as int);
        let left: usize = bytes.len() - i;
        let a: u8 = bytes[i];
        assert(rest[0] == a);
        if left == 1 {
            out.push(standard_symbol(a / 4));
            out.push(standard_symbol(a % 4 * 16));
            out.push('=');
            out.push('=');
            i = i + 1;
            assert(bytes@.skip(i as int) =~= Seq::empty());
            assert(out@ =~= done + encoded(rest, false, true));
        } else {
            let b: u8 = bytes[i + 1];
            assert(rest[1] == b);
            out.push(standard_symbol(a / 4));
            out.push(standard_symbol(a % 4 * 16 + b / 16));
            if left == 2 {
                out.push(standard_symbol(b % 16 * 4));
                out.push('=');
                i = i + 2;
                assert(bytes@.skip(i as int) =~= Seq::empty());
                assert(out@ =~= done + encoded(rest, false, true));
            } else {
                let c: u8 = bytes[i + 2];
                assert(rest[2] == c);
                out.push(standard_symbol(b % 16 * 4 + c / 64));
                out.push(standard_symbol(c % 64));
                i = i + 3;
                assert(rest.skip(3) =~= bytes@.skip(i as int));
                assert(out@ + encoded(bytes@.skip(i as int), false, true) =~= done + encoded(
                    rest,
                    false,
                    true,
                ));
            }
        }
        assert(out@ + encoded(bytes@.skip(i as int), false, true) =~= done + encoded(
            rest,
            false,
            true,
        ));
    }
    assert(bytes@.skip(i as int) =~= Seq::empty());
    assert(out@ =~= encoded(bytes@, false, true));
    out
}

/// Wraps `base64::Engine::encode` of the `STANDARD` engine: the standard
/// alphabet, padded.
#[verifier::external_body]
pub(crate) fn standard_text(bytes: &[u8]) -> (r: String)
    ensures
        r@ == encoded(bytes@, false, true),
{
    base64::engine::general_purpose::STANDARD.encode(bytes)
}

/// Wraps `base64::Engine::decode` of the `STANDARD` engine: it accepts exactly
/// the padded texts that encoding produces, with no stray bits and no other
/// padding, and gives back the bytes that were encoded.
#[verifier::external_body]
pub(crate) fn standard_bytes(text: &str) -> (r: Option<Vec<u8>>)
    ensures
        r matches Some(bytes) ==> text@ == encoded(bytes@, false, true),
        r is None ==> forall|bytes: Seq<u8>| text@ != #[trigger] encoded(bytes, false, true),
{
    base64::engine::general_purpose::STANDARD.decode(text).ok()
}

/// Wraps `base64::Engine::encode` of the `URL_SAFE_NO_PAD` engine: the URL-safe
/// alphabet, not padded.
#[verifier::external_body]
pub(crate) fn url_safe_text(bytes: &[u8]) -> (r: String)
    ensures
        r@ == encoded(bytes@, true, false),
{
    base64::engine::general_purpose::URL_SAFE_NO_PAD.encode(bytes)
}

/// Wraps `base64::Engine::decode` of the `URL_SAFE_NO_PAD` engine: it accepts
/// exactly the texts that encoding produces, with no stray bits and no padding,
/// and gives back the bytes that were encoded.
#[verifier::external_body]
pub(crate) fn url_safe_bytes(text: &str) -> (r: Option<Vec<u8>>)
    ensures
        r matches Some(bytes) ==> text@ == encoded(bytes@, true, false),
        r is None ==> forall|bytes: Seq<u8>| text@ != #[trigger] encoded(bytes, true, false),
{
    base64::engine::general_purpose::URL_SAFE_NO_PAD.decode(text).ok()
}

} // verus!
