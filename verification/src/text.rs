//! Strings: comparison, copying and membership.

use vstd::prelude::*;
use vstd::string::*;
use vstd::utf8::*;

use crate::bytes::same_bytes;

verus! {

/// Two texts with the same UTF-8 bytes are the same text.
pub proof fn utf8_injective(a: Seq<char>, b: Seq<char>)
    ensures
        encode_utf8(a) == encode_utf8(b) ==> a == b,
{
    encode_utf8_decode_utf8(a);
    encode_utf8_decode_utf8(b);
}

/// Whether two texts are equal.
pub fn same(a: &str, b: &str) -> (r: bool)
    ensures
        r == (a@ == b@),
{
    proof {
        utf8_injective(a@, b@);
    }
    same_bytes(a.as_bytes(), b.as_bytes())
}

/// Whether `needle` is one of `list`.
pub open spec fn among(list: Seq<String>, needle: Seq<char>) -> bool {
    exists|i: int| 0 <= i < list.len() && (#[trigger] list[i])@ == needle
}

/// Whether `needle` is one of `list`.
pub fn contains(list: &Vec<String>, needle: &str) -> (r: bool)
    ensures
        r == among(list@, needle@),
{
    let mut i: usize = 0;
    while i < list.len()
        invariant
            i <= list.len(),
            forall|k: int| 0 <= k < i ==> (#[trigger] list@[k])@ != needle@,
        decreases list.len() - i,
    {
        if same(list[i].as_str(), needle) {
            assert(list@[i as int]@ == needle@);
            return true;
        }
        i = i + 1;
    }
    false
}

/// The texts of a list.
pub open spec fn texts(list: Seq<String>) -> Seq<Seq<char>> {
    Seq::new(list.len(), |i: int| list[i]@)
}

/// A copy of a list of texts.
pub fn copy_list(list: &Vec<String>) -> (r: Vec<String>)
    ensures
        r@ == list@,
{
    let mut out: Vec<String> = Vec::new();
    let mut i: usize = 0;
    while i < list.len()
        invariant
            i <= list.len(),
            out@ == list@.take(i as int),
        decreases list.len() - i,
    {
        let item: String = list[i].clone();
        out.push(item);
        i = i + 1;
        assert(out@ =~= list@.take(i as int));
    }
    assert(list@.take(i as int) =~= list@);
    out
}

/// `String::push` of the standard library: the text grows by one character at
/// its end.
pub assume_specification[ String::push ](s: &mut String, c: char)
    ensures
        final(s)@ == old(s)@.push(c),
;

/// Wraps `std::str::from_utf8`: the text that well-formed UTF-8 spells, and
/// nothing for any other bytes.
#[verifier::external_body]
pub(crate) fn utf8_text(bytes: &[u8]) -> (r: Option<String>)
    ensures
        r is Some <==> valid_utf8(bytes@),
        r matches Some(s) ==> s@ == decode_utf8(bytes@),
{
    std::str::from_utf8(bytes).ok().map(|s| s.to_string())
}

/// The text that bytes spell where everything that is no UTF-8 is replaced.
pub uninterp spec fn lossy_text(bytes: Seq<u8>) -> Seq<char>;

/// Wraps `String::from_utf8_lossy`: well-formed UTF-8 is decoded, and what is
/// none is replaced, always in the same way.
#[verifier::external_body]
pub(crate) fn utf8_lossy(bytes: &[u8]) -> (r: String)
    ensures
        r@ == lossy_text(bytes@),
        valid_utf8(bytes@) ==> r@ == decode_utf8(bytes@),
{
    String::from_utf8_lossy(bytes).to_string()
}

/// The characters of a text.
pub fn chars(s: &str) -> (r: Vec<char>)
    ensures
        r@ == s@,
{
    let mut out: Vec<char> = Vec::new();
    for c in it: s.chars()
        invariant
            it.seq() == s@,
            out@ == s@.take(it.index()),
    {
        out.push(c);
        assert(out@ =~= s@.take(it.index() + 1));
    }
    assert(s@.take(s@.len() as int) =~= s@);
    out
}

/// The text that `cs[from..to]` spells.
pub fn from_chars(cs: &Vec<char>, from: usize, to: usize) -> (r: String)
    requires
        from <= to <= cs.len(),
    ensures
        r@ == cs@.subrange(from as int, to as int),
{
    let mut out: String = String::new();
    let mut i: usize = from;
    while i < to
        invariant
            from <= i <= to <= cs.len(),
            out@ == cs@.subrange(from as int, i as int),
        decreases to - i,
    {
        out.push(cs[i]);
        i = i + 1;
        assert(out@ =~= cs@.subrange(from as int, i as int));
    }
    out
}

/// The two sides of the first `mark` in a text.
pub open spec fn split_first(s: Seq<char>, mark: char) -> Option<(Seq<char>, Seq<char>)>
    decreases s.len(),
{
    if s.len() == 0 {
        None
    } else if s[0] == mark {
        Some((Seq::empty(), s.drop_first()))
    } else {
        match split_first(s.drop_first(), mark) {
            Some((before, after)) => Some((seq![s[0]] + before, after)),
            None => None,
        }
    }
}

/// A text that holds no `mark`, then `mark`, then anything, splits there.
pub proof fn splits_at_first(before: Seq<char>, mark: char, after: Seq<char>)
    requires
        !before.contains(mark),
    ensures
        split_first(before + seq![mark] + after, mark) == Some((before, after)),
    decreases before.len(),
{
    let whole = before + seq![mark] + after;
    if before.len() == 0 {
        assert(whole.drop_first() =~= after);
        assert(before =~= Seq::empty());
    } else {
        assert(before[0] != mark) by {
            assert(before.contains(before[0]));
        }
        let rest = before.drop_first();
        assert forall|i: int| 0 <= i < rest.len() implies rest[i] != mark by {
            assert(before[i + 1] == rest[i]);
            assert(before.contains(before[i + 1]));
        }
        splits_at_first(rest, mark, after);
        assert(whole.drop_first() =~= rest + seq![mark] + after);
        assert(seq![before[0]] + rest =~= before);
    }
}

proof fn never_splits(s: Seq<char>, mark: char)
    requires
        !s.contains(mark),
    ensures
        split_first(s, mark) is None,
    decreases s.len(),
{
    if s.len() > 0 {
        assert(s.contains(s[0]));
        let rest = s.drop_first();
        assert forall|i: int| 0 <= i < rest.len() implies rest[i] != mark by {
            assert(s[i + 1] == rest[i]);
            assert(s.contains(s[i + 1]));
        }
        never_splits(rest, mark);
    }
}

/// The two sides of the first `mark` in `s`.
pub fn split_once(s: &str, mark: char) -> (r: Option<(String, String)>)
    ensures
        r is Some <==> split_first(s@, mark) is Some,
        r matches Some((a, b)) ==> split_first(s@, mark) == Some((a@, b@)),
{
    let cs: Vec<char> = chars(s);
    let mut i: usize = 0;
    while i < cs.len()
        invariant
            i <= cs.len(),
            cs@ == s@,
            forall|k: int| 0 <= k < i ==> cs@[k] != mark,
        decreases cs.len() - i,
    {
        if cs[i] == mark {
            let before: String = from_chars(&cs, 0, i);
            let after: String = from_chars(&cs, i + 1, cs.len());
            proof {
                assert(s@ =~= before@ + seq![mark] + after@);
                splits_at_first(before@, mark, after@);
            }
            return Some((before, after));
        }
        i = i + 1;
    }
    proof {
        never_splits(s@, mark);
    }
    None
}

/// A decimal digit as a character.
pub open spec fn digit_char(d: nat) -> char {
    (48 + d) as char
}

/// The decimal digits of a number, without leading zeros.
pub open spec fn decimal_nat(v: nat) -> Seq<char>
    decreases v,
{
    if v < 10 {
        seq![digit_char(v)]
    } else {
        decimal_nat(v / 10).push(digit_char(v % 10))
    }
}

/// A number in decimal, with a leading minus sign where it is negative.
pub open spec fn decimal_int(v: int) -> Seq<char> {
    if v < 0 {
        seq!['-'] + decimal_nat((-v) as nat)
    } else {
        decimal_nat(v as nat)
    }
}

/// Appends the decimal digits of `v`.
pub fn push_decimal(out: &mut String, v: u64)
    ensures
        final(out)@ == old(out)@ + decimal_nat(v as nat),
    decreases v,
{
    if v >= 10 {
        push_decimal(out, v / 10);
    }
    let d: u8 = (v % 10) as u8;
    out.push((48 + d) as char);
    assert(out@ =~= old(out)@ + decimal_nat(v as nat));
}

/// Appends `v` in decimal.
pub fn push_decimal_i64(out: &mut String, v: i64)
    ensures
        final(out)@ == old(out)@ + decimal_int(v as int),
{
    if v < 0 {
        out.push('-');
        let magnitude: u64 = if v == i64::MIN {
            0x8000_0000_0000_0000
        } else {
            (-v) as u64
        };
        push_decimal(out, magnitude);
        assert(out@ =~= old(out)@ + decimal_int(v as int));
    } else {
        push_decimal(out, v as u64);
    }
}

/// Appends a text.
pub fn push_text(out: &mut String, s: &str)
    ensures
        final(out)@ == old(out)@ + s@,
{
    out.append(s);
}

/// The bytes of two texts in a row are the bytes of the one and of the other.
pub proof fn utf8_concat(a: Seq<char>, b: Seq<char>)
    ensures
        encode_utf8(a + b) == encode_utf8(a) + encode_utf8(b),
    decreases a.len(),
{
    if a.len() == 0 {
        assert(a + b =~= b);
        assert(encode_utf8(a) + encode_utf8(b) =~= encode_utf8(b));
    } else {
        let tail = a.drop_first();
        utf8_concat(tail, b);
        assert((a + b).drop_first() =~= tail + b);
        assert(encode_utf8(a + b) =~= encode_utf8(a) + encode_utf8(b));
    }
}

/// What a longer list holds: what the shorter one did, and the new item.
pub proof fn pushed_contains(list: Seq<Seq<char>>, item: Seq<char>, t: Seq<char>)
    ensures
        list.push(item).contains(t) <==> list.contains(t) || t == item,
{
    if list.contains(t) {
        let k = choose|k: int| 0 <= k < list.len() && list[k] == t;
        assert(list.push(item)[k] == t);
    }
    if t == item {
        assert(list.push(item)[list.len() as int] == t);
    }
}

} // verus!
