//! Laws of the texts, numbers and lists that everything else is made of.

use vstd::prelude::*;
use vstd::string::*;
use vstd::utf8::*;

use crate::assoc::{as_map, assign, find, lookup, put, texted, unique, viewed, withdraw};
use crate::auth::{AuthMode, AuthState};
use crate::base64::base64_encode;
use crate::bytes::{
    append_bytes, byte_views, copy_bytes, copy_range, pieces, pieces_not_empty, push_be32, read_be,
    read_be32, same_bytes, split_bytes, thirty_two,
};
use crate::chance::{first_16, first_8};
use crate::hex::{hex, is_all_hex, unhex};
use crate::ids::sixteen;
use crate::json::{list_field, number_field, read_object, text_field, write_object, JsonValue};
use crate::order::{is_before, sorted};
use crate::parse::{parse_u64, split_list, trim, NumberFault};
use crate::password::PasswordAuth;
use crate::permits::UserCounts;
use crate::protocol::{
    dimension, error_envelope, exit_code_wire, respond, session_error, text_option, Envelope,
    ErrorCode, Message, SessionError, SessionErrorKind,
};
use crate::ssh::SshVerifier;
use crate::text::{
    chars, contains, copy_list, from_chars, push_decimal, push_decimal_i64, push_text, same,
    split_once, texts,
};

verus! {

/// The digit of a four-bit value: ten figures, and letters from `a` on.
pub open spec fn is_digit_of(c: char, v: int) -> bool {
    &&& v < 10 ==> c as int == 48 + v
    &&& v >= 10 ==> c as int == 97 + (v - 10)
}

/// Each byte is written in two hexadecimal digits, the upper half first, and is read back
/// from them.
pub proof fn bytes_read_back_from_hexadecimal(
    bytes: &[u8],
    r: String,
    text: &str,
    back: Option<Vec<u8>>,
    i: int,
)
    requires
        call_ensures(hex, (bytes,), r),
        text.spec_bytes() == encode_utf8(r@),
        call_ensures(unhex, (text,), back),
        0 <= i < bytes@.len(),
    ensures
        r@.len() == 2 * bytes@.len(),
        is_digit_of(r@[2 * i], bytes@[i] as int / 16),
        is_digit_of(r@[2 * i + 1], bytes@[i] as int % 16),
        back matches Some(b) && b@ == bytes@,
{
    crate::hex::unhex_of_hex(bytes@);
    assert((2 * i) / 2 == i && (2 * i + 1) / 2 == i);
}

/// Half a byte is no byte, and what is no digit spells nothing.
pub proof fn other_texts_are_no_hexadecimal(text: &str, r: Option<Vec<u8>>, i: int)
    requires
        call_ensures(unhex, (text,), r),
    ensures
        text.spec_bytes().len() % 2 == 1 ==> r is None,
        0 <= i < text.spec_bytes().len() && i % 2 == 1 && !({
            let b = text.spec_bytes()[i];
            48 <= b <= 57 || 65 <= b <= 70 || 97 <= b <= 102
        }) ==> r is None,
        r matches Some(b) ==> b@.len() * 2 == text.spec_bytes().len(),
{
    let t = text.spec_bytes();
    if 0 <= i < t.len() && i % 2 == 1 && t.len() % 2 == 0 {
        let k = i / 2;
        assert(2 * k + 1 == i);
        assert(0 <= k < t.len() / 2);
        assert(crate::hex::pair_value(t[2 * k], t[2 * k + 1]) is Some
            <==> crate::hex::pair_value(t[2 * k], t[i]) is Some);
    }
}

/// Some bytes are all digits where each of them is one.
pub proof fn digits_are_told(raw: &[u8], r: bool)
    requires
        call_ensures(is_all_hex, (raw,), r),
    ensures
        r <==> forall|i: int|
            0 <= i < raw@.len() ==> (48 <= #[trigger] raw@[i] <= 57 || 65 <= raw@[i] <= 70 || 97
                <= raw@[i] <= 102),
{
    if r {
        assert forall|i: int| 0 <= i < raw@.len() implies (48 <= #[trigger] raw@[i] <= 57 || 65
            <= raw@[i] <= 70 || 97 <= raw@[i] <= 102) by {
            assert(crate::hex::digit_value(raw@[i]) is Some);
        }
    }
}

/// The symbol of a six-bit value in the usual alphabet.
pub open spec fn is_symbol_of(c: char, v: int) -> bool {
    &&& 0 <= v < 26 ==> c as int == 65 + v
    &&& 26 <= v < 52 ==> c as int == 97 + (v - 26)
    &&& 52 <= v < 62 ==> c as int == 48 + (v - 52)
    &&& v == 62 ==> c == '+'
    &&& v == 63 ==> c == '/'
}

/// Three bytes are written in four symbols, a rest is filled up with equals signs, and
/// different bytes are written differently.
pub proof fn bytes_are_written_in_base64(
    bytes: &[u8],
    r: String,
    other: &[u8],
    other_r: String,
    rest: &[u8],
    rest_r: String,
)
    requires
        call_ensures(base64_encode, (bytes,), r),
        call_ensures(base64_encode, (other,), other_r),
        bytes@.len() >= 3 ==> rest@ == bytes@.skip(3),
        call_ensures(base64_encode, (rest,), rest_r),
    ensures
        r@.len() == (bytes@.len() + 2) / 3 * 4,
        r@ == other_r@ <==> bytes@ == other@,
        bytes@.len() == 1 ==> is_symbol_of(r@[0], bytes@[0] as int / 4) && is_symbol_of(
            r@[1],
            bytes@[0] as int % 4 * 16,
        ) && r@[2] == '=' && r@[3] == '=',
        bytes@.len() == 2 ==> is_symbol_of(r@[0], bytes@[0] as int / 4) && is_symbol_of(
            r@[1],
            bytes@[0] as int % 4 * 16 + bytes@[1] as int / 16,
        ) && is_symbol_of(r@[2], bytes@[1] as int % 16 * 4) && r@[3] == '=',
        bytes@.len() >= 3 ==> is_symbol_of(r@[0], bytes@[0] as int / 4) && is_symbol_of(
            r@[1],
            bytes@[0] as int % 4 * 16 + bytes@[1] as int / 16,
        ) && is_symbol_of(r@[2], bytes@[1] as int % 16 * 4 + bytes@[2] as int / 64)
            && is_symbol_of(r@[3], bytes@[2] as int % 64) && r@.skip(4) == rest_r@,
{
    crate::base64::encoded_length(bytes@, false);
    if r@ == other_r@ {
        crate::base64::encoded_injective(bytes@, other@, false, true);
    }
    if bytes@.len() >= 3 {
        assert(r@.skip(4) =~= rest_r@);
    }
}

/// Texts are the same where their characters are, and one is in a list where some entry
/// is the same.
pub proof fn texts_are_compared(a: &str, b: &str, r: bool, list: &Vec<String>, found: bool)
    requires
        call_ensures(same, (a, b), r),
        call_ensures(contains, (list, a), found),
    ensures
        r <==> a@ == b@,
        found <==> exists|i: int| 0 <= i < list@.len() && (#[trigger] list@[i])@ == a@,
{
}

/// A text is split at the first mark, and not at all where there is none.
pub proof fn texts_are_split_at_the_first_mark(
    s: &str,
    mark: char,
    r: Option<(String, String)>,
    before: Seq<char>,
    after: Seq<char>,
)
    requires
        call_ensures(split_once, (s, mark), r),
    ensures
        !before.contains(mark) && s@ == before + seq![mark] + after
            ==> (r matches Some((a, b)) && a@
            == before && b@ == after),
        !s@.contains(mark) ==> r is None,
{
    if !before.contains(mark) {
        crate::text::splits_at_first(before, mark, after);
    }
    if !s@.contains(mark) {
        unmarked_is_whole(s@, mark);
    }
}

proof fn unmarked_is_whole(s: Seq<char>, mark: char)
    requires
        !s.contains(mark),
    ensures
        crate::text::split_first(s, mark) is None,
    decreases s.len(),
{
    if s.len() > 0 {
        assert(s[0] != mark) by {
            assert(s.contains(s[0]));
        }
        let rest = s.drop_first();
        assert forall|i: int| 0 <= i < rest.len() implies #[trigger] rest[i] != mark by {
            assert(s[i + 1] == rest[i]);
            assert(s.contains(s[i + 1]));
        }
        unmarked_is_whole(rest, mark);
    }
}

/// A number is written in figures, the last of which is its remainder by ten, after those
/// of its quotient; it is read back from them, and a negative one has a minus sign.
pub proof fn numbers_are_written_in_decimal(
    out: &mut String,
    v: u64,
    rest: &mut String,
    text: &str,
    r: Result<u64, NumberFault>,
    signed: &mut String,
    n: i64,
)
    requires
        old(out)@.len() == 0,
        call_ensures(push_decimal, (out, v), ()),
        old(rest)@.len() == 0,
        call_ensures(push_decimal, (rest, v / 10), ()),
        text@ == final(out)@,
        call_ensures(parse_u64, (text,), r),
        old(signed)@.len() == 0,
        call_ensures(push_decimal_i64, (signed, n), ()),
    ensures
        v < 10 ==> final(out)@.len() == 1 && final(out)@[0] as int == 48 + v,
        v >= 10 ==> final(out)@.drop_last() == final(rest)@ && final(out)@.last() as int == 48 + v
            % 10,
        r == Ok::<u64, NumberFault>(v),
        n == v ==> final(signed)@ == final(out)@,
        n == -v && v > 0 ==> final(signed)@ == seq!['-'] + final(out)@,
{
    assert(old(out)@ =~= Seq::empty());
    assert(old(rest)@ =~= Seq::empty());
    assert(old(signed)@ =~= Seq::empty());
    assert(final(out)@ =~= crate::text::decimal_nat(v as nat));
    assert(final(rest)@ =~= crate::text::decimal_nat((v / 10) as nat));
    assert(final(signed)@ =~= crate::text::decimal_int(n as int));
    crate::parse::decimal_reads_back(v);
    if v >= 10 {
        assert(final(out)@.drop_last() =~= final(rest)@);
    }
}

/// A text that is appended follows what was there.
pub proof fn texts_are_appended(out: &mut String, s: &str)
    requires
        call_ensures(push_text, (out, s), ()),
    ensures
        final(out)@ == old(out)@ + s@,
{
}

/// A text spells a number where it is made of figures, after a plus sign or none, and
/// nothing where it is empty or holds anything else.
pub proof fn other_texts_are_no_numbers(s: &str, r: Result<u64, NumberFault>, i: int)
    requires
        call_ensures(parse_u64, (s,), r),
    ensures
        s@.len() == 0 ==> r == Err::<u64, NumberFault>(NumberFault::Empty),
        0 <= i < s@.len() && !('0' <= s@[i] <= '9') && !(i == 0 && s@[i] == '+') ==> r is Err,
        s@.len() == 1 && '0' <= s@[0] <= '9' ==> r == Ok::<u64, NumberFault>(
            (s@[0] as u32 - 48) as u64,
        ),
        s@ == seq!['+'] ==> r is Err,
{
    reveal_with_fuel(crate::parse::digits_value, 2);
    let digits = if s@.len() > 0 && s@[0] == '+' {
        s@.skip(1)
    } else {
        s@
    };
    if 0 <= i < s@.len() && !('0' <= s@[i] <= '9') && !(i == 0 && s@[i] == '+') {
        let k = if s@[0] == '+' {
            i - 1
        } else {
            i
        };
        assert(digits[k] == s@[i]);
        assert(!crate::parse::is_digit(digits[k]));
    }
    if s@.len() == 1 && '0' <= s@[0] <= '9' {
        assert(digits == s@);
        assert(s@.drop_last().len() == 0);
    }
}

/// Whether a character is white space of the usual kinds.
pub open spec fn is_plain_space(c: char) -> bool {
    c == ' ' || c == '\t' || c == '\n' || c == '\r'
}

/// What is left of a text neither starts nor ends with white space, and what was cut off
/// is white space alone.
pub proof fn texts_are_trimmed(s: &str, r: String)
    requires
        call_ensures(trim, (s,), r),
    ensures
        r@.len() > 0 ==> !is_plain_space(r@[0]) && !is_plain_space(r@.last()),
        exists|i: int, j: int| 0 <= i <= j <= s@.len() && r@ == #[trigger] s@.subrange(i, j),
        (forall|i: int| 0 <= i < s@.len() ==> (#[trigger] s@[i]) as u32 > 0x20 && s@[i] as u32
            <= 0x7e) ==> r@ == s@,
{
    let a = crate::parse::trim_start(s@);
    let i = start_is_cut(s@);
    let j = end_is_cut(a);
    assert(a.subrange(0, j) =~= s@.subrange(i, i + j));
    assert(r@ == s@.subrange(i, i + j));
    if forall|i: int| 0 <= i < s@.len()
        ==> (#[trigger] s@[i]) as u32 > 0x20 && s@[i] as u32 <= 0x7e {
        crate::parse::trimming_keeps_plain_text(s@);
    }
}

proof fn start_is_cut(s: Seq<char>) -> (i: int)
    ensures
        0 <= i <= s.len(),
        crate::parse::trim_start(s) == s.subrange(i, s.len() as int),
        crate::parse::trim_start(s).len() > 0 ==> !crate::parse::is_space(
            crate::parse::trim_start(s)[0],
        ),
    decreases s.len(),
{
    if s.len() > 0 && crate::parse::is_space(s[0]) {
        let k = start_is_cut(s.skip(1));
        assert(s.skip(1).subrange(k, s.skip(1).len() as int) =~= s.subrange(
            k + 1,
            s.len() as int,
        ));
        k + 1
    } else {
        assert(s.subrange(0, s.len() as int) =~= s);
        0
    }
}

proof fn end_is_cut(s: Seq<char>) -> (j: int)
    ensures
        0 <= j <= s.len(),
        crate::parse::trim_end(s) == s.subrange(0, j),
        j > 0 ==> !crate::parse::is_space(s[j - 1]),
    decreases s.len(),
{
    if s.len() > 0 && crate::parse::is_space(s.last()) {
        let j = end_is_cut(s.drop_last());
        assert(s.drop_last().subrange(0, j) =~= s.subrange(0, j));
        j
    } else {
        assert(s.subrange(0, s.len() as int) =~= s);
        s.len() as int
    }
}

/// A list is split at its commas: what stands before the first is an entry, unless it is
/// blank, and what stands after it is a list again.
pub proof fn lists_are_split_at_commas(
    s: &str,
    r: Vec<String>,
    before: &str,
    entry: String,
    after: &str,
    rest: Vec<String>,
    whole: &str,
    single: Vec<String>,
    alone: String,
)
    requires
        !before@.contains(','),
        s@ == before@ + seq![','] + after@,
        call_ensures(split_list, (s,), r),
        call_ensures(trim, (before,), entry),
        call_ensures(split_list, (after,), rest),
        !whole@.contains(','),
        call_ensures(split_list, (whole,), single),
        call_ensures(trim, (whole,), alone),
    ensures
        entry@.len() > 0 ==> texts(r@) == seq![entry@] + texts(rest@),
        entry@.len() == 0 ==> texts(r@) == texts(rest@),
        alone@.len() > 0 ==> texts(single@) == seq![alone@],
        alone@.len() == 0 ==> single@.len() == 0,
{
    assert(s@.take(before@.len() as int) =~= before@);
    assert(s@.skip(before@.len() as int + 1) =~= after@);
    comma_is_found(s@, before@.len() as int);
    assert(whole@.take(whole@.len() as int) =~= whole@);
    comma_is_found(whole@, whole@.len() as int);
    assert(texts(single@).len() == single@.len());
    assert(seq![alone@] + Seq::<Seq<char>>::empty() =~= seq![alone@]);
}

proof fn comma_is_found(s: Seq<char>, n: int)
    requires
        0 <= n <= s.len(),
        !s.take(n).contains(','),
        n == s.len() || s[n] == ',',
    ensures
        crate::parse::first_comma(s) == n,
    decreases s.len(),
{
    if n > 0 {
        assert(s[0] != ',') by {
            assert(s.take(n)[0] == s[0]);
            assert(s.take(n).contains(s[0]));
        }
        let rest = s.skip(1).take(n - 1);
        assert forall|i: int| 0 <= i < rest.len() implies #[trigger] rest[i] != ',' by {
            assert(rest[i] == s.take(n)[i + 1]);
            assert(s.take(n).contains(s.take(n)[i + 1]));
        }
        comma_is_found(s.skip(1), n - 1);
    }
}

/// Of two different texts one comes before the other, by the first characters in which
/// they differ; the order goes on, and a text comes after what it starts with.
pub proof fn texts_are_ordered(
    a: &str,
    b: &str,
    ab: bool,
    ba: bool,
    c: &str,
    bc: bool,
    ac: bool,
)
    requires
        call_ensures(is_before, (a, b), ab),
        call_ensures(is_before, (b, a), ba),
        call_ensures(is_before, (b, c), bc),
        call_ensures(is_before, (a, c), ac),
    ensures
        a@ == b@ ==> !ab && !ba,
        a@ != b@ ==> ab != ba,
        ab && bc ==> ac,
        a@.len() > 0 && b@.len() > 0 && a@[0] < b@[0] ==> ab,
        a@.len() == 0 && b@.len() > 0 ==> ab,
{
    crate::order::one_precedes(a@, b@);
    if ab && bc {
        crate::order::precedes_chains(a@, b@, c@);
    }
}

/// Sorting keeps every entry and puts the keys in order.
pub proof fn sorting_keeps_everything<V: View>(
    list: Vec<(String, V)>,
    r: Vec<(String, V)>,
    i: int,
    j: int,
    first: &str,
    second: &str,
    before: bool,
)
    requires
        call_ensures(sorted::<V>, (list,), r),
        0 <= i < j < r@.len(),
        first@ == r@[i].0@,
        second@ == r@[j].0@,
        call_ensures(is_before, (first, second), before),
    ensures
        r@.len() == list@.len(),
        list@.contains(r@[i]),
        list@.contains(r@[j]),
        before,
        crate::assoc::as_map(crate::assoc::viewed(r@)) == crate::assoc::as_map(
            crate::assoc::viewed(list@),
        ),
{
    let v = crate::assoc::viewed(r@);
    assert(v[i].0 == r@[i].0@);
    assert(v[j].0 == r@[j].0@);
}

/// What is written as an object is read back: each text, number and list under its own
/// key.
pub proof fn objects_read_back(
    fields: &Vec<(String, JsonValue)>,
    r: String,
    text: &[u8],
    read: Option<Vec<(String, Vec<u8>)>>,
    found: &Vec<(String, Vec<u8>)>,
    i: int,
    key: &str,
    held_text: Option<String>,
    held_number: Option<i64>,
    held_list: Option<Vec<String>>,
)
    requires
        call_ensures(write_object, (fields,), r),
        text@ == encode_utf8(r@),
        call_ensures(read_object, (text,), read),
        read matches Some(f) ==> f == *found,
        0 <= i < fields@.len(),
        forall|j: int, k: int|
            0 <= j < k < fields@.len() ==> (#[trigger] fields@[j]).0@ != (
            #[trigger] fields@[k]).0@,
        key@ == fields@[i].0@,
        call_ensures(text_field, (found, key), held_text),
        call_ensures(number_field, (found, key), held_number),
        call_ensures(list_field, (found, key), held_list),
    ensures
        read is Some,
        fields@[i].1 matches JsonValue::Text(s) ==> (held_text matches Some(t) && t@ == s@),
        fields@[i].1 matches JsonValue::Number(n) ==> held_number == Some(n),
        fields@[i].1 matches JsonValue::List(l)
            ==> (held_list matches Some(m) && texts(m@) == texts(
            l@,
        )),
{
    let views = crate::json::fields_view(fields@);
    assert(crate::json::written_for(text@, views));
    assert(views.len() == fields@.len());
    assert forall|j: int, k: int| 0 <= j < k < views.len() implies views[j].0 != views[k].0 by {
        assert(views[j].0 == fields@[j].0@);
        assert(views[k].0 == fields@[k].0@);
    }
    crate::json::distinct_keys_hold(views, i);
    assert(views[i] == (fields@[i].0@, fields@[i].1@));
}

/// Places are taken while there are any, for all and for each; a place that is given back
/// is free again.
pub proof fn places_are_counted(
    fresh: UserCounts,
    counts: &mut UserCounts,
    user: &str,
    most: usize,
    most_each: usize,
    taken: bool,
    later: &mut UserCounts,
    other: Seq<char>,
)
    requires
        call_ensures(UserCounts::new, (), fresh),
        call_ensures(UserCounts::take, (counts, user, most, most_each), taken),
        old(later)@ == final(counts)@ && old(later).total() == final(counts).total(),
        call_ensures(UserCounts::give_back, (later, user), ()),
        old(counts)@.dom().contains(user@) ==> old(counts)@[user@] > 0,
        other != user@,
    ensures
        fresh@.dom() == Set::<Seq<char>>::empty(),
        fresh.total() == 0,
        ({
            let had = if old(counts)@.dom().contains(user@) {
                old(counts)@[user@]
            } else {
                0
            };
            &&& taken <==> old(counts).total() < most && had < most_each
            &&& taken ==> final(counts)@[user@] == had + 1
                && final(counts).total() == old(counts).total() + 1
            &&& !taken ==> final(counts)@ == old(counts)@
                && final(counts).total() == old(counts).total()
            &&& taken ==> final(later)@ == old(counts)@
                && final(later).total() == old(counts).total()
        }),
        final(counts)@.dom().contains(other) <==> old(counts)@.dom().contains(other),
        final(counts)@[other] == old(counts)@[other],
{
    crate::permits::giving_back_undoes_taking(old(counts)@, user@);
}

/// A user's keys are those of the first entry with their name; where anybody is let in
/// nobody has any.
pub proof fn users_have_their_own_keys(
    auth: &AuthState,
    username: &str,
    r: Option<&SshVerifier>,
    i: int,
)
    requires
        call_ensures(AuthState::ssh_verifier, (auth, username), r),
    ensures
        auth.mode is DevInsecure ==> r is None,
        auth.mode matches AuthMode::SshKeys { users } ==> {
            &&& 0 <= i < users@.len() && users@[i].0@ == username@ && (forall|k: int|
                0 <= k < i ==> (#[trigger] users@[k]).0@ != username@) ==> (r matches Some(v)
                && v.keys() == users@[i].1.keys())
            &&& (forall|k: int| 0 <= k < users@.len() ==> (#[trigger] users@[k]).0@ != username@)
                ==> r is None
        },
{
    match auth.mode {
        AuthMode::SshKeys { users } => {
            if 0 <= i < users@.len() && users@[i].0@ == username@ && (forall|k: int|
                0 <= k < i ==> (#[trigger] users@[k]).0@ != username@) {
                first_of_name(users@, username@, i);
            }
            if forall|k: int| 0 <= k < users@.len() ==> (#[trigger] users@[k]).0@ != username@ {
                none_of_name(users@, username@);
            }
        },
        AuthMode::DevInsecure => {},
    }
}

proof fn first_of_name(users: Seq<(String, SshVerifier)>, name: Seq<char>, i: int)
    requires
        0 <= i < users.len(),
        users[i].0@ == name,
        forall|k: int| 0 <= k < i ==> (#[trigger] users[k]).0@ != name,
    ensures
        crate::auth::keys_of(users, name) == Some(users[i].1.keys()),
    decreases users.len(),
{
    if i > 0 {
        let rest = users.drop_first();
        assert(rest[i - 1] == users[i]);
        assert forall|k: int| 0 <= k < i - 1 implies (#[trigger] rest[k]).0@ != name by {
            assert(rest[k] == users[k + 1]);
        }
        first_of_name(rest, name, i - 1);
    }
}

proof fn none_of_name(users: Seq<(String, SshVerifier)>, name: Seq<char>)
    requires
        forall|k: int| 0 <= k < users.len() ==> (#[trigger] users[k]).0@ != name,
    ensures
        crate::auth::keys_of(users, name) is None,
    decreases users.len(),
{
    if users.len() > 0 {
        let rest = users.drop_first();
        assert forall|k: int| 0 <= k < rest.len() implies (#[trigger] rest[k]).0@ != name by {
            assert(rest[k] == users[k + 1]);
        }
        none_of_name(rest, name);
    }
}

/// A daemon's logins start with what it was given, and five failures in a minute lock out
/// for one.
pub proof fn login_states_are_as_given(
    mode: AuthMode,
    password: Option<PasswordAuth>,
    audience: String,
    key: Option<[u8; 32]>,
    r: AuthState,
)
    requires
        call_ensures(AuthState::new, (mode, password, audience, key), r),
    ensures
        r.mode == mode,
        r.password == password,
        r.audience@ == audience@,
        key matches Some(seed) ==> r.grant_signer.secret() == seed@,
        r.rate_limiter@.policy.max_failures == 5,
        r.rate_limiter@.policy.window == 60_000,
        r.rate_limiter@.policy.lockout == 60_000,
        r.rate_limiter@.policy.max_tracked == 100_000,
        r.rate_limiter@.sources.dom() == Set::<crate::net::IpAddr>::empty(),
{
}

/// An answer carries the number of its request and names no server and no shell; an error
/// carries its code, its text and whether to try again.
pub proof fn answers_carry_their_request(
    request_id: u64,
    message: Message,
    r: Envelope,
    code: ErrorCode,
    text: &str,
    retryable: bool,
    e: Envelope,
)
    requires
        call_ensures(respond, (request_id, message), r),
        call_ensures(error_envelope, (request_id, code, text, retryable), e),
    ensures
        r.request_id == request_id,
        r.server_id@.len() == 0,
        r.shell_id@.len() == 0,
        r.message == Some(message),
        e.request_id == request_id,
        e.server_id@.len() == 0,
        e.shell_id@.len() == 0,
        e.message matches Some(Message::Error { code: c, human_message, retryable: again }) && c
            == code && human_message@ == text@ && again == retryable,
{
}

/// What the shell manager refuses has a code of its own, and its own words.
pub proof fn refusals_have_codes(request_id: u64, error: &SessionError, r: Envelope)
    requires
        call_ensures(session_error, (request_id, error), r),
    ensures
        r.request_id == request_id,
        r.message matches Some(Message::Error { code, human_message, retryable }) && human_message@
            == error.text@ && (error.kind == SessionErrorKind::ShellNotFound ==> code
            == ErrorCode::ErrNotFound && !retryable) && (error.kind == SessionErrorKind::NotRunning
            ==> code == ErrorCode::ErrNotFound && !retryable) && (error.kind
            == SessionErrorKind::LimitExceeded ==> code == ErrorCode::ErrLimitExceeded && retryable)
            && (error.kind == SessionErrorKind::Forbidden ==> code == ErrorCode::ErrForbidden
            && !retryable) && (error.kind == SessionErrorKind::InvalidToken ==> code
            == ErrorCode::ErrTokenExpired && !retryable) && (error.kind
            == SessionErrorKind::TokenReplayed
                ==> code == ErrorCode::ErrTokenReplayed && !retryable)
            && (error.kind == SessionErrorKind::Pty ==> code == ErrorCode::ErrInternal && retryable)
            && (error.kind == SessionErrorKind::Internal ==> code == ErrorCode::ErrInternal
            && retryable),
{
}

/// Of a dimension the low sixteen bits count; an exit code is read as a signed number;
/// and an empty text is none.
pub proof fn numbers_fit_the_wire(
    v: u32,
    d: u16,
    code: i32,
    s: &String,
    option: Option<String>,
)
    requires
        call_ensures(dimension, (v,), d),
        call_ensures(exit_code_wire, (v,), code),
        call_ensures(text_option, (s,), option),
    ensures
        d as int == v % 0x1_0000,
        v <= 0x7fff_ffff ==> code == v,
        v > 0x7fff_ffff ==> code == v - 0x1_0000_0000,
        s@.len() == 0 ==> option is None,
        s@.len() > 0 ==> (option matches Some(t) && t@ == s@),
{
}

/// Bytes are compared, copied and appended one by one.
pub proof fn bytes_are_copied(
    a: &[u8],
    b: &[u8],
    same: bool,
    copy: Vec<u8>,
    out: &mut Vec<u8>,
    from: usize,
    to: usize,
    part: Vec<u8>,
    short: Option<[u8; 16]>,
    long: Option<[u8; 32]>,
)
    requires
        call_ensures(same_bytes, (a, b), same),
        call_ensures(copy_bytes, (a,), copy),
        call_ensures(append_bytes, (out, a), ()),
        from <= to <= a@.len(),
        call_ensures(copy_range, (a, from, to), part),
        call_ensures(sixteen, (a,), short),
        call_ensures(thirty_two, (a,), long),
    ensures
        same <==> a@ == b@,
        copy@ == a@,
        final(out)@ == old(out)@ + a@,
        part@ == a@.subrange(from as int, to as int),
        short is Some <==> a@.len() == 16,
        short matches Some(s) ==> s@ == a@,
        long is Some <==> a@.len() == 32,
        long matches Some(l) ==> l@ == a@,
{
}

/// A number of four bytes is read back as it was written, the most significant first.
pub proof fn four_bytes_read_back(
    out: &mut Vec<u8>,
    v: u32,
    a: &[u8],
    at: usize,
    r: u32,
    byte: u128,
)
    requires
        call_ensures(push_be32, (out, v), ()),
        a@ == final(out)@,
        at == old(out)@.len(),
        call_ensures(read_be32, (a, at), r),
        call_ensures(read_be, (a, at, 1), byte),
    ensures
        final(out)@.len() == old(out)@.len() + 4,
        final(out)@.take(at as int) == old(out)@,
        final(out)@[at as int] as int == v as int / 0x100_0000,
        final(out)@[at + 3] as int == v as int % 0x100,
        r == v,
        byte == final(out)@[at as int],
{
    crate::bytes::be32_reads_back(v as nat);
    let four = crate::bytes::be32(v as nat);
    assert(final(out)@.subrange(at as int, at + 4) =~= four);
    assert(final(out)@.take(at as int) =~= old(out)@);
    let one = a@.subrange(at as int, at + 1);
    reveal_with_fuel(crate::bytes::be_value, 2);
    assert(one.drop_last().len() == 0);
    assert(one.last() == a@[at as int]);
}

/// A number is spelt by its bytes, each of which counts two hundred and fifty-six times
/// the one that follows it.
pub proof fn numbers_are_spelt_by_their_bytes(a: &[u8], at: usize, n: usize, r: u128, less: u128)
    requires
        0 < n <= 16,
        at + n <= a@.len(),
        call_ensures(read_be, (a, at, n), r),
        call_ensures(read_be, (a, at, (n - 1) as usize), less),
    ensures
        r == less * 256 + a@[at + n - 1],
{
    let all = a@.subrange(at as int, at + n);
    assert(all.drop_last() =~= a@.subrange(at as int, at + n - 1));
}

/// The first bytes of random ones are taken as they are.
pub proof fn first_bytes_are_taken(all: &[u8; 32], long: [u8; 16], short: [u8; 8])
    requires
        call_ensures(first_16, (all,), long),
        call_ensures(first_8, (all,), short),
    ensures
        long@ == all@.subrange(0, 16),
        short@ == all@.subrange(0, 8),
{
    assert(all@.take(16) =~= all@.subrange(0, 16));
    assert(all@.take(8) =~= all@.subrange(0, 8));
}

/// Why a text is no number is told in words.
pub proof fn number_faults_are_told(fault: &NumberFault, r: &'static str)
    requires
        call_ensures(NumberFault::text, (fault,), r),
    ensures
        fault is Empty ==> r@ == "cannot parse integer from empty string"@,
        fault is InvalidDigit ==> r@ == "invalid digit found in string"@,
        fault is TooLarge ==> r@ == "number too large to fit in target type"@,
{
}

/// As many users are counted as hold anything.
pub proof fn users_are_counted(counts: &UserCounts, r: usize)
    requires
        call_ensures(UserCounts::users, (counts,), r),
    ensures
        r == counts@.dom().len(),
{
}

/// A password is worth a check where passwords are on and theirs is.
pub proof fn passwords_are_off_without_users(
    auth: &AuthState,
    username: &str,
    password: &str,
    r: bool,
    own: bool,
)
    requires
        call_ensures(AuthState::admits_password, (auth, username, password), r),
        auth.password matches Some(p) ==> call_ensures(
            PasswordAuth::admits,
            (&p, username, password),
            own,
        ),
    ensures
        auth.password is None ==> !r,
        auth.password is Some ==> r == own,
{
}

/// A key is found where it stands, and is not found only where it stands nowhere.
pub proof fn keys_are_found<V: View>(list: &Vec<(String, V)>, key: &str, r: Option<usize>)
    requires
        unique(viewed(list@)),
        call_ensures(find::<V>, (list, key), r),
    ensures
        r matches Some(i) ==> i < list@.len() && list@[i as int].0@ == key@,
        r is None ==> forall|k: int| 0 <= k < list@.len() ==> (#[trigger] list@[k]).0@ != key@,
{
    if r is None {
        assert forall|k: int| 0 <= k < list@.len() implies (#[trigger] list@[k]).0@ != key@ by {
            lookup(viewed(list@), k);
            assert(viewed(list@)[k].0 == list@[k].0@);
        }
    }
}

/// A key that is given a value has that value and no other, and every other key keeps its
/// own.
pub proof fn given_values_are_kept<V: View>(
    list: &mut Vec<(String, V)>,
    key: String,
    value: V,
    i: int,
    j: int,
)
    requires
        unique(viewed(old(list)@)),
        call_ensures(assign::<V>, (list, key, value), ()),
        0 <= i < final(list)@.len(),
        0 <= j < old(list)@.len(),
    ensures
        exists|k: int| 0 <= k < final(list)@.len() && (#[trigger] final(list)@[k]).0@ == key@,
        final(list)@[i].0@ == key@ ==> final(list)@[i].1@ == value@,
        final(list)@[i].0@ == old(list)@[j].0@ && final(list)@[i].0@ != key@ ==> final(list)@[i].1@
            == old(list)@[j].1@,
        exists|k: int|
            0 <= k < final(list)@.len() && (#[trigger] final(list)@[k]).0@ == old(list)@[j].0@,
{
    let was = viewed(old(list)@);
    let is = viewed(final(list)@);
    lookup(is, i);
    lookup(was, j);
    assert(is[i] == (final(list)@[i].0@, final(list)@[i].1@));
    assert(was[j] == (old(list)@[j].0@, old(list)@[j].1@));
    assert(as_map(is).dom().contains(key@));
    let k = choose|k: int| 0 <= k < is.len() && (#[trigger] is[k]).0 == key@;
    assert(final(list)@[k].0@ == key@);
    assert(as_map(is).dom().contains(old(list)@[j].0@));
    let m = choose|m: int| 0 <= m < is.len() && (#[trigger] is[m]).0 == old(list)@[j].0@;
    assert(final(list)@[m].0@ == old(list)@[j].0@);
}

/// A key that is withdrawn stands nowhere, and every other key keeps its value.
pub proof fn withdrawn_keys_are_gone<V: View>(
    list: &mut Vec<(String, V)>,
    key: &str,
    i: int,
    j: int,
)
    requires
        unique(viewed(old(list)@)),
        call_ensures(withdraw::<V>, (list, key), ()),
        0 <= j < old(list)@.len(),
    ensures
        0 <= i < final(list)@.len() ==> final(list)@[i].0@ != key@,
        old(list)@[j].0@ != key@ ==> exists|k: int|
            0 <= k < final(list)@.len() && (#[trigger] final(list)@[k]).0@ == old(list)@[j].0@
                && final(list)@[k].1@ == old(list)@[j].1@,
{
    let was = viewed(old(list)@);
    let is = viewed(final(list)@);
    lookup(was, j);
    assert(was[j] == (old(list)@[j].0@, old(list)@[j].1@));
    if 0 <= i < final(list)@.len() {
        lookup(is, i);
        assert(is[i].0 == final(list)@[i].0@);
    }
    if old(list)@[j].0@ != key@ {
        assert(as_map(is).dom().contains(was[j].0));
        let m = choose|m: int| 0 <= m < is.len() && (#[trigger] is[m]).0 == was[j].0;
        lookup(is, m);
        assert(is[m] == (final(list)@[m].0@, final(list)@[m].1@));
    }
}

/// What is put under a key stands there, and every other key keeps what it had.
pub proof fn put_values_are_kept<V>(
    list: &mut Vec<(String, V)>,
    key: String,
    value: V,
    i: int,
    j: int,
)
    requires
        unique(texted(old(list)@)),
        call_ensures(put::<V>, (list, key, value), ()),
        0 <= i < final(list)@.len(),
        0 <= j < old(list)@.len(),
    ensures
        exists|k: int| 0 <= k < final(list)@.len() && (#[trigger] final(list)@[k]).0@ == key@,
        final(list)@[i].0@ == key@ ==> final(list)@[i].1 == value,
        final(list)@[i].0@ == old(list)@[j].0@ && final(list)@[i].0@ != key@ ==> final(list)@[i].1
            == old(list)@[j].1,
        exists|k: int|
            0 <= k < final(list)@.len() && (#[trigger] final(list)@[k]).0@ == old(list)@[j].0@,
{
    let was = texted(old(list)@);
    let is = texted(final(list)@);
    lookup(is, i);
    lookup(was, j);
    assert(is[i] == (final(list)@[i].0@, final(list)@[i].1));
    assert(was[j] == (old(list)@[j].0@, old(list)@[j].1));
    assert(as_map(is).dom().contains(key@));
    let k = choose|k: int| 0 <= k < is.len() && (#[trigger] is[k]).0 == key@;
    assert(final(list)@[k].0@ == key@);
    assert(as_map(is).dom().contains(old(list)@[j].0@));
    let m = choose|m: int| 0 <= m < is.len() && (#[trigger] is[m]).0 == old(list)@[j].0@;
    assert(final(list)@[m].0@ == old(list)@[j].0@);
}

/// A text is its characters, a part of them spells that part, and a copied list holds the
/// same texts.
pub proof fn characters_spell_their_text(
    s: &str,
    all: Vec<char>,
    from: usize,
    to: usize,
    part: String,
    list: &Vec<String>,
    copy: Vec<String>,
    i: int,
)
    requires
        call_ensures(chars, (s,), all),
        call_ensures(from_chars, (&all, from, to), part),
        call_ensures(copy_list, (list,), copy),
        from <= to <= all@.len(),
    ensures
        all@.len() == s@.len(),
        0 <= i < s@.len() ==> all@[i] == s@[i],
        part@.len() == to - from,
        0 <= i < to - from ==> part@[i] == s@[from + i],
        copy@.len() == list@.len(),
        0 <= i < list@.len() ==> copy@[i]@ == list@[i]@,
{
}

/// No stretch between marks holds the mark, bytes without a mark are one stretch, and one
/// more mark at the end is one more stretch, which is empty.
pub proof fn marks_part_bytes(
    b: &[u8],
    mark: u8,
    r: Vec<Vec<u8>>,
    longer: &[u8],
    s: Vec<Vec<u8>>,
    i: int,
    k: int,
)
    requires
        call_ensures(split_bytes, (b, mark), r),
        call_ensures(split_bytes, (longer, mark), s),
        longer@ == b@.push(mark),
    ensures
        r@.len() > 0,
        0 <= i < r@.len() && 0 <= k < r@[i]@.len() ==> r@[i]@[k] != mark,
        !b@.contains(mark) ==> r@.len() == 1 && r@[0]@ == b@,
        s@.len() == r@.len() + 1,
        s@[r@.len() as int]@.len() == 0,
        0 <= i < r@.len() ==> s@[i]@ == r@[i]@,
{
    pieces_not_empty(b@, mark);
    assert(longer@.drop_last() =~= b@);
    let all = byte_views(r@);
    let more = byte_views(s@);
    assert(more == all.push(Seq::empty()));
    assert(more[r@.len() as int] == s@[r@.len() as int]@);
    if 0 <= i < r@.len() {
        assert(all[i] == r@[i]@);
        assert(more[i] == s@[i]@);
        pieces_hold_no_mark(b@, mark, i);
        if 0 <= k < r@[i]@.len() && r@[i]@[k] == mark {
            assert(r@[i]@.contains(mark));
        }
    }
    if !b@.contains(mark) {
        unmarked_bytes_are_whole(b@, mark);
        assert(all[0] == r@[0]@);
    }
}

proof fn pieces_hold_no_mark(b: Seq<u8>, mark: u8, i: int)
    requires
        0 <= i < pieces(b, mark).len(),
    ensures
        !pieces(b, mark)[i].contains(mark),
    decreases b.len(),
{
    if b.len() > 0 {
        pieces_not_empty(b.drop_last(), mark);
        let before = pieces(b.drop_last(), mark);
        if i < before.len() {
            pieces_hold_no_mark(b.drop_last(), mark, i);
            if b.last() != mark && i == before.len() - 1 {
                let whole = before.last().push(b.last());
                if whole.contains(mark) {
                    let k = choose|k: int| 0 <= k < whole.len() && whole[k] == mark;
                    assert(before[i][k] == mark);
                }
            }
        }
    }
}

/// Bytes without a mark are one stretch.
pub proof fn unmarked_bytes_are_whole(b: Seq<u8>, mark: u8)
    requires
        !b.contains(mark),
    ensures
        pieces(b, mark) == seq![b],
    decreases b.len(),
{
    if b.len() > 0 {
        let rest = b.drop_last();
        if rest.contains(mark) {
            let k = choose|k: int| 0 <= k < rest.len() && rest[k] == mark;
            assert(b[k] == mark);
        }
        unmarked_bytes_are_whole(rest, mark);
        assert(b[b.len() - 1] == b.last());
        assert(rest.push(b.last()) =~= b);
        assert(pieces(b, mark) =~= seq![b]);
    } else {
        assert(b =~= Seq::empty());
        assert(pieces(b, mark) =~= seq![b]);
    }
}

/// The value of a hexadecimal digit, large or small.
pub open spec fn has_value(b: u8, v: int) -> bool {
    ||| 48 <= b <= 57 && v == b - 48
    ||| 65 <= b <= 70 && v == b - 65 + 10
    ||| 97 <= b <= 102 && v == b - 97 + 10
}

/// Two digits spell the byte whose halves they stand for, be they large or small.
pub proof fn digits_spell_bytes(
    text: &str,
    r: Option<Vec<u8>>,
    k: int,
    high: int,
    low: int,
)
    requires
        call_ensures(unhex, (text,), r),
        0 <= k,
        2 * k + 1 < text.spec_bytes().len(),
        has_value(text.spec_bytes()[2 * k], high),
        has_value(text.spec_bytes()[2 * k + 1], low),
    ensures
        r matches Some(bytes) ==> k < bytes@.len() && bytes@[k] == 16 * high + low,
{
    let t = text.spec_bytes();
    if t.len() % 2 == 0 {
        assert(0 <= k < t.len() / 2);
        assert(crate::hex::pair_value(t[2 * k], t[2 * k + 1]) == Some(16 * high + low));
    }
}

} // verus!
