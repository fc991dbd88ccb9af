//! Flat JSON objects: writing them, and taking them apart into their fields.

use serde::de::IgnoredAny;
use serde_json::Deserializer;
use vstd::prelude::*;
use vstd::slice::slice_subrange;
use vstd::utf8::*;

use crate::bytes::copy_range;
use crate::hex::hex_digit;
use crate::text::{
    decimal_int, decimal_nat, push_decimal_i64, push_text, same, texts, utf8_concat,
};

verus! {

/// The value of a field.
#[derive(Debug, Clone, PartialEq, Eq)]
pub enum JsonValue {
    /// A string.
    Text(String),
    /// An integer.
    Number(i64),
    /// An array of strings.
    List(Vec<String>),
}

/// What a [`JsonValue`] holds.
pub enum JsonView {
    Text(Seq<char>),
    Number(i64),
    List(Seq<Seq<char>>),
}

impl View for JsonValue {
    type V = JsonView;

    open spec fn view(&self) -> JsonView {
        match self {
            JsonValue::Text(s) => JsonView::Text(s@),
            JsonValue::Number(n) => JsonView::Number(*n),
            JsonValue::List(l) => JsonView::List(texts(l@)),
        }
    }
}

/// A character as it stands in a JSON string: the quote, the backslash and the
/// control characters are escaped.
pub open spec fn json_char(c: char) -> Seq<char> {
    if c == '"' || c == '\\' {
        seq!['\\', c]
    } else if c == '\u{8}' {
        seq!['\\', 'b']
    } else if c == '\t' {
        seq!['\\', 't']
    } else if c == '\n' {
        seq!['\\', 'n']
    } else if c == '\u{c}' {
        seq!['\\', 'f']
    } else if c == '\r' {
        seq!['\\', 'r']
    } else if (c as int) < 0x20 {
        seq!['\\', 'u', '0', '0', hex_digit(c as int / 16), hex_digit(c as int % 16)]
    } else {
        seq![c]
    }
}

/// Characters as they stand in a JSON string.
pub open spec fn json_chars(s: Seq<char>) -> Seq<char>
    decreases s.len(),
{
    if s.len() == 0 {
        Seq::empty()
    } else {
        json_chars(s.drop_last()) + json_char(s.last())
    }
}

/// A text as a JSON string, quoted and escaped.
pub open spec fn json_string_text(s: Seq<char>) -> Seq<char> {
    seq!['"'] + json_chars(s) + seq!['"']
}

/// Texts as JSON strings, separated by commas.
pub open spec fn json_items(items: Seq<Seq<char>>) -> Seq<char>
    decreases items.len(),
{
    if items.len() == 0 {
        Seq::empty()
    } else if items.len() == 1 {
        json_string_text(items[0])
    } else {
        json_items(items.drop_last()) + seq![','] + json_string_text(items.last())
    }
}

/// A value as JSON text.
pub open spec fn json_value(v: JsonView) -> Seq<char> {
    match v {
        JsonView::Text(s) => json_string_text(s),
        JsonView::Number(n) => decimal_int(n as int),
        JsonView::List(l) => seq!['['] + json_items(l) + seq![']'],
    }
}

/// One field as JSON text.
pub open spec fn json_member(field: (Seq<char>, JsonView)) -> Seq<char> {
    json_string_text(field.0) + seq![':'] + json_value(field.1)
}

/// Fields as JSON text, separated by commas.
pub open spec fn json_members(fields: Seq<(Seq<char>, JsonView)>) -> Seq<char>
    decreases fields.len(),
{
    if fields.len() == 0 {
        Seq::empty()
    } else if fields.len() == 1 {
        json_member(fields[0])
    } else {
        json_members(fields.drop_last()) + seq![','] + json_member(fields.last())
    }
}

/// An object as JSON text, without blanks, its fields in order.
pub open spec fn json_object(fields: Seq<(Seq<char>, JsonView)>) -> Seq<char> {
    seq!['{'] + json_members(fields) + seq!['}']
}

/// Whether no key occurs twice.
pub open spec fn distinct_keys(fields: Seq<(Seq<char>, JsonView)>) -> bool {
    forall|i: int, j: int| 0 <= i < j < fields.len() ==> fields[i].0 != fields[j].0
}

/// Wraps `serde_json::to_string` for a string: the string quoted, with the quote,
/// the backslash and the control characters escaped and everything else as it is.
#[verifier::external_body]
fn json_string(s: &str) -> (r: String)
    ensures
        r@ == json_string_text(s@),
{
    serde_json::to_string(s).unwrap_or_default()
}

/// Appends texts as a JSON array.
fn push_list(out: &mut String, items: &Vec<String>)
    ensures
        final(out)@ == old(out)@ + json_value(JsonView::List(texts(items@))),
{
    let ghost all = texts(items@);
    out.push('[');
    let mut i: usize = 0;
    while i < items.len()
        invariant
            i <= items.len(),
            all == texts(items@),
            out@ == old(out)@ + seq!['['] + json_items(all.take(i as int)),
        decreases items.len() - i,
    {
        let ghost done = out@;
        if i > 0 {
            out.push(',');
        }
        let item: String = json_string(items[i].as_str());
        push_text(out, item.as_str());
        i = i + 1;
        proof {
            let part = all.take(i as int);
            assert(part.drop_last() =~= all.take(i - 1));
            assert(part.last() == items@[i - 1]@);
            assert(all.take(0) =~= Seq::empty());
            assert(out@ =~= old(out)@ + seq!['['] + json_items(part));
        }
    }
    assert(all.take(i as int) =~= all);
    out.push(']');
    assert(out@ =~= old(out)@ + json_value(JsonView::List(all)));
}

/// Appends a value as JSON text.
fn push_value(out: &mut String, value: &JsonValue)
    ensures
        final(out)@ == old(out)@ + json_value(value@),
{
    match value {
        JsonValue::Text(s) => {
            let quoted: String = json_string(s.as_str());
            push_text(out, quoted.as_str());
        },
        JsonValue::Number(n) => {
            push_decimal_i64(out, *n);
        },
        JsonValue::List(items) => {
            push_list(out, items);
        },
    }
}

/// The fields of an object, as they are written.
pub open spec fn fields_view(fields: Seq<(String, JsonValue)>) -> Seq<(Seq<char>, JsonView)> {
    Seq::new(fields.len(), |i: int| (fields[i].0@, fields[i].1@))
}

/// An object as JSON text, without blanks, its fields in order.
pub fn write_object(fields: &Vec<(String, JsonValue)>) -> (r: String)
    ensures
        r@ == json_object(fields_view(fields@)),
{
    let ghost all = fields_view(fields@);
    let mut out: String = String::new();
    out.push('{');
    let mut i: usize = 0;
    assert(all.take(0) =~= Seq::empty());
    while i < fields.len()
        invariant
            i <= fields.len(),
            all == fields_view(fields@),
            out@ == seq!['{'] + json_members(all.take(i as int)),
        decreases fields.len() - i,
    {
        if i > 0 {
            out.push(',');
        }
        let key: String = json_string(fields[i].0.as_str());
        push_text(&mut out, key.as_str());
        out.push(':');
        push_value(&mut out, &fields[i].1);
        i = i + 1;
        proof {
            let part = all.take(i as int);
            assert(part.drop_last() =~= all.take(i - 1));
            assert(part.last() == (fields@[i - 1].0@, fields@[i - 1].1@));
            assert(all.take(0) =~= Seq::empty());
            assert(out@ =~= seq!['{'] + json_members(part));
        }
    }
    assert(all.take(i as int) =~= all);
    out.push('}');
    assert(out@ =~= json_object(all));
    out
}

/// The string that a JSON text is.
pub uninterp spec fn json_text_read(text: Seq<u8>) -> Option<Seq<char>>;

/// The integer that a JSON text is.
pub uninterp spec fn json_number_read(text: Seq<u8>) -> Option<i64>;

/// The array of strings that a JSON text is.
pub uninterp spec fn json_list_read(text: Seq<u8>) -> Option<Seq<Seq<char>>>;

/// How far the JSON value reaches with which some bytes begin.
pub uninterp spec fn json_value_size(text: Seq<u8>) -> Option<nat>;

/// Wraps `serde_json::from_slice` into a `String`: the string that the text is, with
/// its escapes undone, or nothing where it is something else. A text that was written
/// for a string is that string.
#[verifier::external_body]
pub(crate) fn read_text(text: &[u8]) -> (r: Option<String>)
    ensures
        r is Some <==> json_text_read(text@) is Some,
        r matches Some(s) ==> json_text_read(text@) == Some(s@),
        forall|s: Seq<char>|
            text@ == encode_utf8(#[trigger] json_string_text(s)) ==> r is Some && r->0@ == s,
{
    serde_json::from_slice(text).ok()
}

/// Wraps `serde_json::from_slice` into an `i64`: the integer that the text is, or
/// nothing where it is something else or too large. A text that was written for an
/// integer is that integer.
#[verifier::external_body]
pub(crate) fn read_number(text: &[u8]) -> (r: Option<i64>)
    ensures
        r == json_number_read(text@),
        forall|n: i64| text@ == encode_utf8(#[trigger] decimal_int(n as int)) ==> r == Some(n),
{
    serde_json::from_slice(text).ok()
}

/// Wraps `serde_json::from_slice` into a `Vec<String>`: the strings of the array that
/// the text is, or nothing where it is something else. A text that was written for
/// strings is those strings.
#[verifier::external_body]
pub(crate) fn read_list(text: &[u8]) -> (r: Option<Vec<String>>)
    ensures
        r is Some <==> json_list_read(text@) is Some,
        r matches Some(l) ==> json_list_read(text@) == Some(texts(l@)),
        forall|l: Seq<Seq<char>>|
            text@ == encode_utf8(#[trigger] json_value(JsonView::List(l))) ==> r is Some && texts(
                r->0@,
            ) == l,
{
    serde_json::from_slice(text).ok()
}

/// Whether some bytes are where a value in an object or a key of it may end: there
/// are none, or the first is a comma, a colon or the brace that ends an object.
pub open spec fn may_follow(rest: Seq<u8>) -> bool {
    rest.len() == 0 || rest[0] == 44 || rest[0] == 58 || rest[0] == 125
}

/// Wraps `Deserializer::into_iter` with `IgnoredAny` for its first value, and
/// `StreamDeserializer::byte_offset`: how far the value reaches with which the bytes
/// begin, or nothing where they begin with none. The value is passed over, whatever it
/// holds and however deep it is. One that was written is passed over to its end.
#[verifier::external_body]
fn value_size(text: &[u8]) -> (r: Option<usize>)
    ensures
        r is Some <==> json_value_size(text@) is Some,
        r matches Some(n) ==> json_value_size(text@) == Some(n as nat) && 0 < n <= text@.len(),
        forall|v: JsonView, rest: Seq<u8>|
            text@ == #[trigger] (encode_utf8(json_value(v)) + rest) && may_follow(rest) ==> r is Some
                && r->0 == encode_utf8(json_value(v)).len(),
{
    let mut values = Deserializer::from_slice(text).into_iter::<IgnoredAny>();
    values.next()?.ok()?;
    Some(values.byte_offset())
}

/// Whether a byte is a blank.
pub open spec fn is_blank(b: u8) -> bool {
    b == 32 || b == 9 || b == 10 || b == 13
}

/// Where the blanks end that stand at a place, if any.
pub open spec fn past_blanks(text: Seq<u8>, from: int) -> int
    decreases text.len() - from,
{
    if 0 <= from < text.len() && is_blank(text[from]) {
        past_blanks(text, from + 1)
    } else {
        from
    }
}

/// Blanks end no earlier than where they begin, and within the text.
pub proof fn past_blanks_bounds(text: Seq<u8>, from: int)
    requires
        0 <= from <= text.len(),
    ensures
        from <= past_blanks(text, from) <= text.len(),
    decreases text.len() - from,
{
    if from < text.len() && is_blank(text[from]) {
        past_blanks_bounds(text, from + 1);
    }
}

fn skip_blanks(text: &[u8], from: usize) -> (r: usize)
    requires
        from <= text@.len(),
    ensures
        r == past_blanks(text@, from as int),
        from <= r <= text@.len(),
{
    let mut i: usize = from;
    while i < text.len() && (text[i] == 32 || text[i] == 9 || text[i] == 10 || text[i] == 13)
        invariant
            from <= i <= text@.len(),
            past_blanks(text@, from as int) == past_blanks(text@, i as int),
        decreases text@.len() - i,
    {
        i = i + 1;
    }
    i
}

/// Where the value ends that stands at a place.
pub open spec fn value_end(text: Seq<u8>, from: int) -> Option<int> {
    if 0 <= from < text.len() {
        match json_value_size(text.skip(from)) {
            Some(n) => if 0 < n <= text.len() - from {
                Some(from + n)
            } else {
                None
            },
            None => None,
        }
    } else {
        None
    }
}

/// A field: its key, and its value as it stands.
pub type RawField = (Seq<char>, Seq<u8>);

/// The field that stands at a place, and where it ends.
pub open spec fn field_at(text: Seq<u8>, from: int) -> Option<(RawField, int)> {
    if !(0 <= from < text.len()) || text[from] != 34 {
        None
    } else {
        match value_end(text, from) {
            None => None,
            Some(k) => match json_text_read(text.subrange(from, k)) {
                None => None,
                Some(key) => {
                    let colon = past_blanks(text, k);
                    if colon >= text.len() || text[colon] != 58 {
                        None
                    } else {
                        let v = past_blanks(text, colon + 1);
                        match value_end(text, v) {
                            None => None,
                            Some(e) => Some(((key, text.subrange(v, e)), e)),
                        }
                    }
                },
            },
        }
    }
}

/// A field ends after the place where it stands, and within the text.
pub proof fn field_at_bounds(text: Seq<u8>, from: int)
    requires
        0 <= from <= text.len(),
    ensures
        field_at(text, from) matches Some((_, e)) ==> from < e <= text.len(),
{
    if from < text.len() {
        if let Some(k) = value_end(text, from) {
            past_blanks_bounds(text, k);
            let colon = past_blanks(text, k);
            if colon < text.len() {
                past_blanks_bounds(text, colon + 1);
            }
        }
    }
}

/// The fields that stand from a place on up to the brace that ends the object, and
/// where that is. All but the first come after a comma.
pub open spec fn fields_from(text: Seq<u8>, from: int, first: bool) -> Option<(Seq<RawField>, int)>
    decreases text.len() - from,
{
    let p = past_blanks(text, from);
    if !(0 <= from < text.len()) || p >= text.len() {
        None
    } else if text[p] == 125 {
        Some((Seq::empty(), p + 1))
    } else if !first && text[p] != 44 {
        None
    } else {
        let q = if first {
            p
        } else {
            past_blanks(text, p + 1)
        };
        match field_at(text, q) {
            None => None,
            Some((field, e)) => {
                proof {
                    past_blanks_bounds(text, from);
                    past_blanks_bounds(text, p + 1);
                    field_at_bounds(text, q);
                }
                match fields_from(text, e, false) {
                    None => None,
                    Some((fields, end)) => Some((seq![field] + fields, end)),
                }
            },
        }
    }
}

/// The fields of the object that a text is, in order.
pub open spec fn object_read(text: Seq<u8>) -> Option<Seq<RawField>> {
    let start = past_blanks(text, 0);
    if start >= text.len() || text[start] != 123 {
        None
    } else {
        match fields_from(text, start + 1, true) {
            Some((fields, end)) => if past_blanks(text, end) == text.len() {
                Some(fields)
            } else {
                None
            },
            None => None,
        }
    }
}

/// The fields of a list.
pub open spec fn raw_views(fields: Seq<(String, Vec<u8>)>) -> Seq<RawField> {
    Seq::new(fields.len(), |i: int| (fields[i].0@, fields[i].1@))
}

/// Fields with their values as they are written.
pub open spec fn raw_fields(fields: Seq<(Seq<char>, JsonView)>) -> Seq<RawField> {
    Seq::new(fields.len(), |i: int| (fields[i].0, encode_utf8(json_value(fields[i].1))))
}

/// Where in the text of an object its first fields end.
spec fn written_end(fields: Seq<(Seq<char>, JsonView)>, n: int) -> int {
    encode_utf8(seq!['{'] + json_members(fields.take(n))).len() as int
}

/// The fields that follow the first ones come after a comma.
proof fn members_split(fields: Seq<(Seq<char>, JsonView)>, n: int) -> (rest: Seq<char>)
    requires
        0 < n <= fields.len(),
    ensures
        json_members(fields) == json_members(fields.take(n)) + rest,
        n == fields.len() ==> rest.len() == 0,
        n < fields.len() ==> rest.len() > 0 && rest[0] == ',',
    decreases fields.len(),
{
    if n == fields.len() {
        assert(fields.take(n) =~= fields);
        let rest = Seq::<char>::empty();
        assert(json_members(fields) =~= json_members(fields.take(n)) + rest);
        rest
    } else {
        let shorter = fields.drop_last();
        let inner = members_split(shorter, n);
        assert(shorter.take(n) =~= fields.take(n));
        let rest = inner + seq![','] + json_member(fields.last());
        assert(json_members(fields) =~= json_members(fields.take(n)) + rest);
        rest
    }
}

/// A number's text begins with a digit or a minus sign.
proof fn number_begins(v: int)
    ensures
        decimal_int(v).len() > 0,
        decimal_int(v)[0] == '-' || '0' <= decimal_int(v)[0] <= '9',
{
    nat_begins(if v < 0 {
        -v as nat
    } else {
        v as nat
    });
}

proof fn nat_begins(v: nat)
    ensures
        decimal_nat(v).len() > 0,
        '0' <= decimal_nat(v)[0] <= '9',
    decreases v,
{
    if v >= 10 {
        nat_begins(v / 10);
    }
}

/// The text of a value begins with an ASCII character that is no blank.
proof fn value_begins(v: JsonView)
    ensures
        json_value(v).len() > 0,
        (json_value(v)[0] as int) < 128,
        !is_blank(json_value(v)[0] as u8),
{
    if let JsonView::Number(n) = v {
        number_begins(n as int);
    }
}

/// The bytes of a text that begins with an ASCII character.
proof fn ascii_begins(c: char, rest: Seq<char>)
    requires
        (c as int) < 128,
    ensures
        encode_utf8(seq![c] + rest) == seq![c as u8] + encode_utf8(rest),
{
    utf8_concat(seq![c], rest);
    assert(is_ascii_chars(seq![c]));
    is_ascii_chars_encode_utf8(seq![c]);
    assert(encode_utf8(seq![c]) =~= seq![c as u8]);
}

/// What stands in the text of an object where its first fields end: the brace that
/// ends it, or the next field, after a comma where it is not the first.
#[verifier::spinoff_prover]
proof fn written_next(fields: Seq<(Seq<char>, JsonView)>, n: int)
    requires
        0 <= n <= fields.len(),
    ensures
        ({
            let text = encode_utf8(json_object(fields));
            let p = written_end(fields, n);
            let q = if n == 0 {
                p
            } else {
                p + 1
            };
            let key = encode_utf8(json_value(JsonView::Text(fields[n].0)));
            let value = encode_utf8(json_value(fields[n].1));
            let v = q + key.len() + 1;
            &&& 0 < p < text.len()
            &&& n == fields.len() ==> text[p] == 125 && p + 1 == text.len()
            &&& n < fields.len() ==> {
                &&& n > 0 ==> text[p] == 44
                &&& text[q] == 34
                &&& text.skip(q) == key + text.skip(v - 1)
                &&& q < v - 1 < v < text.len()
                &&& text[v - 1] == 58
                &&& !is_blank(text[v])
                &&& text.skip(v) == value + text.skip(v + value.len())
                &&& written_end(fields, n + 1) == v + value.len()
                &&& v + value.len() < text.len()
                &&& may_follow(text.skip(v + value.len()))
            }
        }),
{
    let text = encode_utf8(json_object(fields));
    let head = seq!['{'] + json_members(fields.take(n));
    let p = written_end(fields, n);
    ascii_begins('{', json_members(fields.take(n)));
    ascii_begins('}', Seq::empty());
    assert(seq!['}'] + Seq::<char>::empty() =~= seq!['}']);
    assert(encode_utf8(seq!['}']) =~= seq![125u8]);
    if n == fields.len() {
        assert(fields.take(n) =~= fields);
        assert(json_object(fields) =~= head + seq!['}']);
        utf8_concat(head, seq!['}']);
    } else {
        let field = fields[n];
        let key_text = json_value(JsonView::Text(field.0));
        let value_text = json_value(field.1);
        let key = encode_utf8(key_text);
        let value = encode_utf8(value_text);
        let next = fields.take(n + 1);
        let rest = members_split(fields, n + 1);
        let tail = rest + seq!['}'];
        assert(next.drop_last() =~= fields.take(n));
        assert(next.last() == field);
        let mark = if n == 0 {
            Seq::<char>::empty()
        } else {
            seq![',']
        };
        assert(fields.take(0) =~= Seq::empty());
        let head2 = seq!['{'] + json_members(next);
        if n == 0 {
            assert(next =~= seq![field]);
        }
        assert(head2 =~= head + mark + key_text + (seq![':'] + value_text));
        assert(json_object(fields) =~= head2 + tail);
        utf8_concat(head2, tail);
        utf8_concat(head + mark + key_text, seq![':'] + value_text);
        utf8_concat(head + mark, key_text);
        utf8_concat(head, mark);
        ascii_begins(':', value_text);
        ascii_begins(',', Seq::empty());
        assert(seq![','] + Seq::<char>::empty() =~= seq![',']);
        assert(encode_utf8(seq![',']) =~= seq![44u8]);
        assert(encode_utf8(Seq::<char>::empty()) =~= Seq::<u8>::empty());
        assert(encode_utf8(mark).len() == mark.len());
        let m = encode_utf8(mark);
        let q = p + m.len();
        let v = q + key.len() + 1;
        let after = encode_utf8(tail);
        assert(text =~= encode_utf8(head) + m + key + seq![58u8] + value + after);
        value_begins(field.1);
        ascii_begins(value_text[0], value_text.skip(1));
        assert(value_text =~= seq![value_text[0]] + value_text.skip(1));
        assert(value[0] == value_text[0] as u8);
        ascii_begins('"', key_text.skip(1));
        assert(key_text =~= seq!['"'] + key_text.skip(1));
        assert(key[0] == 34);
        ascii_begins(tail[0], tail.skip(1));
        assert(tail =~= seq![tail[0]] + tail.skip(1));
        assert(after[0] == 44 || after[0] == 125);
        assert(text.skip(v + value.len()) =~= after);
        assert(text.skip(v) =~= value + after);
        assert(text.skip(q) =~= key + text.skip(v - 1));
        assert(encode_utf8(head2) =~= encode_utf8(head) + m + key + seq![58u8] + value);
    }
}

/// Reads the value that stands at a place.
fn value_from(text: &[u8], from: usize) -> (r: Option<usize>)
    requires
        from <= text@.len(),
    ensures
        r is Some <==> value_end(text@, from as int) is Some,
        r matches Some(e) ==> value_end(text@, from as int) == Some(e as int) && from < e <= text@.len(),
        forall|v: JsonView, rest: Seq<u8>|
            from < text@.len() && text@.skip(from as int) == #[trigger] (encode_utf8(json_value(v))
                + rest) && may_follow(rest) ==> (r matches Some(e) && e == from + encode_utf8(
                json_value(v),
            ).len()),
{
    if from >= text.len() {
        return None;
    }
    let part: &[u8] = slice_subrange(text, from, text.len());
    assert(part@ =~= text@.skip(from as int));
    match value_size(part) {
        Some(n) => Some(from + n),
        None => None,
    }
}

/// Reads the field that stands at a place, and says where it ends. Where a field was
/// written there, it is that one.
fn field_from(text: &[u8], from: usize) -> (r: Option<(String, Vec<u8>, usize)>)
    requires
        from <= text@.len(),
    ensures
        r is Some <==> field_at(text@, from as int) is Some,
        r matches Some((key, value, e)) ==> field_at(text@, from as int) == Some(
            ((key@, value@), e as int),
        ) && from < e <= text@.len(),
        forall|fields: Seq<(Seq<char>, JsonView)>, n: int|
            #![trigger written_end(fields, n)]
            written_at(text@, fields, n) && from == written_end(fields, n) + (if n == 0 {
                0int
            } else {
                1
            }) ==> (r matches Some((key, value, e)) && key@ == fields[n].0 && value@ == encode_utf8(
                json_value(fields[n].1),
            ) && e == written_end(fields, n + 1)),
{
    let ghost t = text@;
    if from >= text.len() || text[from] != 34 {
        proof {
            assert forall|fields: Seq<(Seq<char>, JsonView)>, n: int|
                #![trigger written_end(fields, n)]
                written_at(t, fields, n) && from == written_end(fields, n) + (if n == 0 {
                    0int
                } else {
                    1
                }) implies false by {
                written_next(fields, n);
            }
        }
        return None;
    }
    let key_end: Option<usize> = value_from(text, from);
    let key: Option<String> = match key_end {
        Some(k) => {
            let part: &[u8] = slice_subrange(text, from, k);
            read_text(part)
        },
        None => None,
    };
    proof {
        assert forall|fields: Seq<(Seq<char>, JsonView)>, n: int|
            #![trigger written_end(fields, n)]
            written_at(t, fields, n) && from == written_end(fields, n) + (if n == 0 {
                0int
            } else {
                1
            }) implies (key_end matches Some(k) && key matches Some(s) && s@ == fields[n].0 && k
            == from + encode_utf8(json_value(JsonView::Text(fields[n].0))).len()) by {
            written_next(fields, n);
            let written = encode_utf8(json_value(JsonView::Text(fields[n].0)));
            let v = from + written.len() + 1;
            assert(t.skip(from as int) == written + t.skip(v - 1));
            assert(t.skip(v - 1)[0] == t[v - 1]);
            assert(may_follow(t.skip(v - 1)));
            let k = from + written.len();
            assert(t.subrange(from as int, k) =~= t.skip(from as int).take(k - from));
            assert(t.subrange(from as int, k) =~= written);
            assert(written == encode_utf8(json_string_text(fields[n].0)));
        }
    }
    let (k, key): (usize, String) = match (key_end, key) {
        (Some(k), Some(key)) => (k, key),
        _ => {
            return None;
        },
    };
    let colon: usize = skip_blanks(text, k);
    if colon >= text.len() || text[colon] != 58 {
        proof {
            assert forall|fields: Seq<(Seq<char>, JsonView)>, n: int|
                #![trigger written_end(fields, n)]
                written_at(t, fields, n) && from == written_end(fields, n) + (if n == 0 {
                    0int
                } else {
                    1
                }) implies false by {
                written_next(fields, n);
            }
        }
        return None;
    }
    let v: usize = skip_blanks(text, colon + 1);
    let end: Option<usize> = value_from(text, v);
    proof {
        assert forall|fields: Seq<(Seq<char>, JsonView)>, n: int|
            #![trigger written_end(fields, n)]
            written_at(t, fields, n) && from == written_end(fields, n) + (if n == 0 {
                0int
            } else {
                1
            }) implies (end matches Some(e) && e == written_end(fields, n + 1) && t.subrange(
            v as int,
            e as int,
        ) == encode_utf8(json_value(fields[n].1))) by {
            written_next(fields, n);
            let value = encode_utf8(json_value(fields[n].1));
            assert(v == k + 1);
            assert(t.skip(v as int) == value + t.skip(v + value.len()));
            assert(t.subrange(v as int, v + value.len()) =~= t.skip(v as int).take(
                value.len() as int,
            ));
            assert(t.subrange(v as int, v + value.len()) =~= value);
        }
    }
    match end {
        Some(e) => {
            let value: Vec<u8> = copy_range(text, v, e);
            Some((key, value, e))
        },
        None => None,
    }
}

/// Whether a text was written for an object, and there is a field at an index of it.
spec fn written_at(text: Seq<u8>, fields: Seq<(Seq<char>, JsonView)>, n: int) -> bool {
    written_for(text, fields) && 0 <= n < fields.len()
}

/// Whether a text was written for an object.
pub open spec fn written_for(text: Seq<u8>, fields: Seq<(Seq<char>, JsonView)>) -> bool {
    text == encode_utf8(json_object(fields))
}

/// Takes the object apart that a text is: its keys, and the values as they stand, in
/// order; `None` where it is something else. What was written for an object comes
/// apart into what it was written from.
pub fn read_object(text: &[u8]) -> (r: Option<Vec<(String, Vec<u8>)>>)
    ensures
        r is Some <==> object_read(text@) is Some,
        r matches Some(fields) ==> object_read(text@) == Some(raw_views(fields@)),
        forall|fields: Seq<(Seq<char>, JsonView)>|
            #![trigger written_for(text@, fields)]
            written_for(text@, fields) ==> object_read(text@) == Some(raw_fields(fields)),
{
    let ghost t = text@;
    let start: usize = skip_blanks(text, 0);
    proof {
        assert forall|fields: Seq<(Seq<char>, JsonView)>| #[trigger]
            written_for(t, fields) implies start == 0 && t.len() > 0 && t[0] == 123 && written_end(
            fields,
            0,
        ) == 1 by {
            written_next(fields, 0);
            ascii_begins('{', json_members(fields) + seq!['}']);
            assert(json_object(fields) =~= seq!['{'] + (json_members(fields) + seq!['}']));
            assert(fields.take(0) =~= Seq::empty());
            ascii_begins('{', Seq::empty());
            assert(seq!['{'] + json_members(fields.take(0)) =~= seq!['{'] + Seq::<char>::empty());
            assert(encode_utf8(Seq::<char>::empty()) =~= Seq::<u8>::empty());
        }
    }
    if start >= text.len() || text[start] != 123 {
        return None;
    }
    let mut out: Vec<(String, Vec<u8>)> = Vec::new();
    let mut pos: usize = start + 1;
    let ghost all = fields_from(t, start + 1, true);
    assert(raw_views(out@) =~= Seq::empty());
    loop
        invariant
            t == text@,
            pos <= t.len(),
            past_blanks(t, 0) == start,
            start < t.len(),
            t[start as int] == 123,
            all == fields_from(t, start + 1, true),
            all == (match fields_from(t, pos as int, out@.len() == 0) {
                Some((rest, end)) => Some((raw_views(out@) + rest, end)),
                None => None,
            }),
            forall|fields: Seq<(Seq<char>, JsonView)>| #[trigger]
                written_for(t, fields) ==> out@.len() <= fields.len() && pos == written_end(
                    fields,
                    out@.len() as int,
                ) && raw_views(out@) == raw_fields(fields).take(out@.len() as int),
        decreases t.len() - pos,
    {
        let p: usize = skip_blanks(text, pos);
        proof {
            assert forall|fields: Seq<(Seq<char>, JsonView)>| #[trigger]
                written_for(t, fields) implies p == pos && p < t.len() && (t[p as int] == 125 ==> out@.len()
                == fields.len() && p + 1 == t.len()) && (t[p as int] != 125 ==> out@.len()
                < fields.len()) by {
                written_next(fields, out@.len() as int);
            }
        }
        if p >= text.len() {
            return None;
        }
        if text[p] == 125 {
            let end: usize = skip_blanks(text, p + 1);
            assert(raw_views(out@) + Seq::<RawField>::empty() =~= raw_views(out@));
            proof {
                assert forall|fields: Seq<(Seq<char>, JsonView)>| #[trigger]
                    written_for(t, fields) implies object_read(t) == Some(raw_fields(fields)) by {
                    assert(raw_fields(fields).take(out@.len() as int) =~= raw_fields(fields));
                }
            }
            if end != text.len() {
                return None;
            }
            return Some(out);
        }
        let q: usize = if out.len() == 0 {
            p
        } else {
            if text[p] != 44 {
                proof {
                    assert forall|fields: Seq<(Seq<char>, JsonView)>| #[trigger]
                        written_for(t, fields) implies false by {
                        written_next(fields, out@.len() as int);
                    }
                }
                return None;
            }
            skip_blanks(text, p + 1)
        };
        proof {
            assert forall|fields: Seq<(Seq<char>, JsonView)>| #[trigger]
                written_for(t, fields) implies written_at(t, fields, out@.len() as int) && q
                == written_end(fields, out@.len() as int) + (if out@.len() == 0 {
                0int
            } else {
                1
            }) by {
                written_next(fields, out@.len() as int);
            }
        }
        let ghost before = out@;
        match field_from(text, q) {
            None => {
                return None;
            },
            Some((key, value, e)) => {
                out.push((key, value));
                pos = e;
                proof {
                    let field = (key@, value@);
                    assert(raw_views(out@) =~= raw_views(before).push(field));
                    if let Some((rest, end)) = fields_from(t, e as int, false) {
                        assert(raw_views(before) + (seq![field] + rest) =~= raw_views(out@) + rest);
                    }
                    assert forall|fields: Seq<(Seq<char>, JsonView)>| #[trigger]
                        written_for(t, fields) implies out@.len() <= fields.len() && pos
                        == written_end(fields, out@.len() as int) && raw_views(out@)
                        == raw_fields(fields).take(out@.len() as int) by {
                        let n = before.len() as int;
                        assert(written_at(t, fields, n));
                        assert(written_end(fields, n) + (if n == 0 {
                            0int
                        } else {
                            1
                        }) == q);
                        assert(raw_fields(fields).take(n + 1) =~= raw_fields(fields).take(n).push(
                            raw_fields(fields)[n],
                        ));
                    }
                }
            },
        }
    }
}

/// What fields hold under a key.
#[derive(Debug, Clone, PartialEq, Eq)]
pub enum Held<'a> {
    /// The key occurs more than once.
    Repeated,
    /// The key does not occur.
    Absent,
    /// The value, as it stands.
    Once(&'a Vec<u8>),
}

/// What fields hold under a key.
pub enum HeldView {
    Repeated,
    Absent,
    Once(Seq<u8>),
}

impl<'a> View for Held<'a> {
    type V = HeldView;

    open spec fn view(&self) -> HeldView {
        match *self {
            Held::Repeated => HeldView::Repeated,
            Held::Absent => HeldView::Absent,
            Held::Once(value) => HeldView::Once(value@),
        }
    }
}

/// What fields hold under a key.
pub open spec fn held(fields: Seq<RawField>, key: Seq<char>) -> HeldView
    decreases fields.len(),
{
    if fields.len() == 0 {
        HeldView::Absent
    } else {
        let before = held(fields.drop_last(), key);
        if fields.last().0 != key {
            before
        } else if before is Absent {
            HeldView::Once(fields.last().1)
        } else {
            HeldView::Repeated
        }
    }
}

/// What fields hold under a key.
pub fn look_up<'a>(fields: &'a Vec<(String, Vec<u8>)>, key: &str) -> (r: Held<'a>)
    ensures
        r@ == held(raw_views(fields@), key@),
{
    let ghost all = raw_views(fields@);
    let mut found: Held<'a> = Held::Absent;
    let mut i: usize = 0;
    assert(all.take(0) =~= Seq::empty());
    while i < fields.len()
        invariant
            i <= fields@.len(),
            all == raw_views(fields@),
            found@ == held(all.take(i as int), key@),
        decreases fields@.len() - i,
    {
        proof {
            let part = all.take(i + 1);
            assert(part.drop_last() =~= all.take(i as int));
            assert(part.last() == (fields@[i as int].0@, fields@[i as int].1@));
        }
        if same(fields[i].0.as_str(), key) {
            found = match found {
                Held::Absent => Held::Once(&fields[i].1),
                _ => Held::Repeated,
            };
        }
        i = i + 1;
    }
    assert(all.take(i as int) =~= all);
    found
}

/// The text that stands under a key, which occurs once.
pub open spec fn text_held(fields: Seq<RawField>, key: Seq<char>) -> Option<Seq<char>> {
    match held(fields, key) {
        HeldView::Once(value) => json_text_read(value),
        _ => None,
    }
}

/// The integer that stands under a key, which occurs once.
pub open spec fn number_held(fields: Seq<RawField>, key: Seq<char>) -> Option<i64> {
    match held(fields, key) {
        HeldView::Once(value) => json_number_read(value),
        _ => None,
    }
}

/// The texts that stand under a key, which occurs once or, for no texts, not at all.
pub open spec fn list_held(fields: Seq<RawField>, key: Seq<char>) -> Option<Seq<Seq<char>>> {
    match held(fields, key) {
        HeldView::Once(value) => json_list_read(value),
        HeldView::Absent => Some(Seq::empty()),
        HeldView::Repeated => None,
    }
}

/// The text that stands under a key, which occurs once. One that was written is that
/// text.
pub fn text_field(fields: &Vec<(String, Vec<u8>)>, key: &str) -> (r: Option<String>)
    ensures
        r is Some <==> text_held(raw_views(fields@), key@) is Some,
        r matches Some(s) ==> text_held(raw_views(fields@), key@) == Some(s@),
        forall|s: Seq<char>|
            #![trigger json_value(JsonView::Text(s))]
            held(raw_views(fields@), key@) == HeldView::Once(
                encode_utf8(json_value(JsonView::Text(s))),
            ) ==> text_held(raw_views(fields@), key@) == Some(s),
{
    match look_up(fields, key) {
        Held::Once(value) => {
            let r: Option<String> = read_text(value.as_slice());
            proof {
                assert forall|s: Seq<char>|
                    held(raw_views(fields@), key@) == HeldView::Once(
                        encode_utf8(#[trigger] json_value(JsonView::Text(s))),
                    ) implies text_held(raw_views(fields@), key@) == Some(s) by {
                    assert(value@ == encode_utf8(json_string_text(s)));
                }
            }
            r
        },
        _ => None,
    }
}

/// The integer that stands under a key, which occurs once. One that was written is
/// that integer.
pub fn number_field(fields: &Vec<(String, Vec<u8>)>, key: &str) -> (r: Option<i64>)
    ensures
        r == number_held(raw_views(fields@), key@),
        forall|n: i64|
            #![trigger json_value(JsonView::Number(n))]
            held(raw_views(fields@), key@) == HeldView::Once(
                encode_utf8(json_value(JsonView::Number(n))),
            ) ==> r == Some(n),
{
    match look_up(fields, key) {
        Held::Once(value) => {
            let r: Option<i64> = read_number(value.as_slice());
            proof {
                assert forall|n: i64|
                    held(raw_views(fields@), key@) == HeldView::Once(
                        encode_utf8(#[trigger] json_value(JsonView::Number(n))),
                    ) implies r == Some(n) by {
                    assert(value@ == encode_utf8(decimal_int(n as int)));
                }
            }
            r
        },
        _ => None,
    }
}

/// The texts that stand under a key, which occurs once or, for no texts, not at all.
/// Those that were written are those texts.
pub fn list_field(fields: &Vec<(String, Vec<u8>)>, key: &str) -> (r: Option<Vec<String>>)
    ensures
        r is Some <==> list_held(raw_views(fields@), key@) is Some,
        r matches Some(l) ==> list_held(raw_views(fields@), key@) == Some(texts(l@)),
        forall|l: Seq<Seq<char>>|
            #![trigger json_value(JsonView::List(l))]
            held(raw_views(fields@), key@) == HeldView::Once(
                encode_utf8(json_value(JsonView::List(l))),
            ) ==> list_held(raw_views(fields@), key@) == Some(l),
{
    match look_up(fields, key) {
        Held::Once(value) => read_list(value.as_slice()),
        Held::Absent => {
            let none: Vec<String> = Vec::new();
            assert(texts(none@) =~= Seq::empty());
            Some(none)
        },
        Held::Repeated => None,
    }
}

/// Where no key occurs twice, each holds the value that stands with it.
pub proof fn distinct_keys_hold(fields: Seq<(Seq<char>, JsonView)>, i: int)
    requires
        distinct_keys(fields),
        0 <= i < fields.len(),
    ensures
        held(raw_fields(fields), fields[i].0) == HeldView::Once(encode_utf8(json_value(fields[i].1))),
    decreases fields.len(),
{
    let last = fields.len() - 1;
    let shorter = fields.drop_last();
    assert(raw_fields(fields).drop_last() =~= raw_fields(shorter));
    if i == last {
        absent_keys_hold(shorter, fields[i].0);
    } else {
        distinct_keys_hold(shorter, i);
    }
}

proof fn absent_keys_hold(fields: Seq<(Seq<char>, JsonView)>, key: Seq<char>)
    requires
        forall|i: int| 0 <= i < fields.len() ==> (#[trigger] fields[i]).0 != key,
    ensures
        held(raw_fields(fields), key) is Absent,
    decreases fields.len(),
{
    if fields.len() > 0 {
        let shorter = fields.drop_last();
        assert(raw_fields(fields).drop_last() =~= raw_fields(shorter));
        assert forall|i: int| 0 <= i < shorter.len() implies (#[trigger] shorter[i]).0 != key by {
            assert(shorter[i] == fields[i]);
        }
        absent_keys_hold(shorter, key);
        assert(fields[fields.len() - 1].0 != key);
    }
}

} // verus!
