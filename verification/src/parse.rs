//! Small readers of text: white space, lists and numbers.

use vstd::prelude::*;

use crate::text::{chars, decimal_nat, digit_char, from_chars, texts};

verus! {

/// Whether a character is white space, as Unicode has it.
pub open spec fn is_space(c: char) -> bool {
    ||| 9 <= c as u32 <= 13
    ||| c as u32 == 0x20
    ||| c as u32 == 0x85
    ||| c as u32 == 0xA0
    ||| c as u32 == 0x1680
    ||| 0x2000 <= c as u32 <= 0x200A
    ||| c as u32 == 0x2028
    ||| c as u32 == 0x2029
    ||| c as u32 == 0x202F
    ||| c as u32 == 0x205F
    ||| c as u32 == 0x3000
}

fn space(c: char) -> (r: bool)
    ensures
        r == is_space(c),
{
    let v: u32 = c as u32;
    (v >= 9 && v <= 13) || v == 0x20 || v == 0x85 || v == 0xA0 || v == 0x1680 || (v >= 0x2000 && v
        <= 0x200A) || v == 0x2028 || v == 0x2029 || v == 0x202F || v == 0x205F || v == 0x3000
}

/// A text without the white space at its start.
pub open spec fn trim_start(s: Seq<char>) -> Seq<char>
    decreases s.len(),
{
    if s.len() > 0 && is_space(s[0]) {
        trim_start(s.skip(1))
    } else {
        s
    }
}

/// A text without the white space at its end.
pub open spec fn trim_end(s: Seq<char>) -> Seq<char>
    decreases s.len(),
{
    if s.len() > 0 && is_space(s.last()) {
        trim_end(s.drop_last())
    } else {
        s
    }
}

/// A text without the white space around it.
pub open spec fn trimmed(s: Seq<char>) -> Seq<char> {
    trim_end(trim_start(s))
}

/// A text without white space is what trimming leaves of it.
pub proof fn trimming_keeps_plain_text(s: Seq<char>)
    requires
        forall|i: int| 0 <= i < s.len() ==> !is_space(#[trigger] s[i]),
    ensures
        trimmed(s) == s,
{
}

fn trim_chars(cs: &Vec<char>, from: usize, to: usize) -> (r: (usize, usize))
    requires
        from <= to <= cs.len(),
    ensures
        from <= r.0 <= r.1 <= to,
        cs@.subrange(r.0 as int, r.1 as int) == trimmed(cs@.subrange(from as int, to as int)),
{
    let ghost whole = cs@.subrange(from as int, to as int);
    let mut a: usize = from;
    while a < to && space(cs[a])
        invariant
            from <= a <= to <= cs.len(),
            trim_start(whole) == trim_start(cs@.subrange(a as int, to as int)),
        decreases to - a,
    {
        assert(cs@.subrange(a as int, to as int).skip(1) =~= cs@.subrange(a + 1, to as int));
        a = a + 1;
    }
    assert(trim_start(whole) == cs@.subrange(a as int, to as int));
    let mut b: usize = to;
    while b > a && space(cs[b - 1])
        invariant
            a <= b <= to <= cs.len(),
            trim_end(trim_start(whole)) == trim_end(cs@.subrange(a as int, b as int)),
        decreases b,
    {
        assert(cs@.subrange(a as int, b as int).drop_last() =~= cs@.subrange(a as int, b - 1));
        b = b - 1;
    }
    (a, b)
}

/// A text without the white space around it.
pub fn trim(s: &str) -> (r: String)
    ensures
        r@ == trimmed(s@),
{
    let cs: Vec<char> = chars(s);
    let (a, b): (usize, usize) = trim_chars(&cs, 0, cs.len());
    assert(cs@.subrange(0, cs@.len() as int) =~= s@);
    from_chars(&cs, a, b)
}

/// The entries of a list that commas separate, without the white space around
/// them and without empty ones.
pub open spec fn entries_of(s: Seq<char>) -> Seq<Seq<char>>
    decreases s.len(),
{
    let end = first_comma(s);
    let entry = trimmed(s.take(end));
    let rest = if 0 <= end < s.len() {
        entries_of(s.skip(end + 1))
    } else {
        Seq::empty()
    };
    if entry.len() > 0 {
        seq![entry] + rest
    } else {
        rest
    }
}

/// Where the first comma of a text stands; its length where there is none.
pub open spec fn first_comma(s: Seq<char>) -> int
    decreases s.len(),
{
    if s.len() == 0 || s[0] == ',' {
        0
    } else {
        1 + first_comma(s.skip(1))
    }
}

proof fn comma_at(s: Seq<char>, n: int)
    requires
        0 <= n <= s.len(),
        forall|i: int| 0 <= i < n ==> s[i] != ',',
        n == s.len() || s[n] == ',',
    ensures
        first_comma(s) == n,
    decreases s.len(),
{
    if n > 0 {
        assert forall|i: int| 0 <= i < n - 1 implies s.skip(1)[i] != ',' by {
            assert(s.skip(1)[i] == s[i + 1]);
        }
        if n < s.len() {
            assert(s.skip(1)[n - 1] == s[n]);
        }
        comma_at(s.skip(1), n - 1);
    }
}

/// The entries of a list that commas separate, without the white space around
/// them and without empty ones.
pub fn split_list(s: &str) -> (r: Vec<String>)
    ensures
        texts(r@) == entries_of(s@),
{
    let cs: Vec<char> = chars(s);
    let mut out: Vec<String> = Vec::new();
    let mut from: usize = 0;
    assert(s@.skip(0) =~= s@);
    assert(texts(out@) + entries_of(s@.skip(0)) =~= entries_of(s@));
    loop
        invariant
            cs@ == s@,
            from <= cs.len(),
            texts(out@) + entries_of(s@.skip(from as int)) == entries_of(s@),
        decreases cs.len() - from,
    {
        let ghost rest = s@.skip(from as int);
        let mut to: usize = from;
        while to < cs.len() && cs[to] != ','
            invariant
                cs@ == s@,
                from <= to <= cs.len(),
                forall|i: int| from <= i < to ==> s@[i] != ',',
            decreases cs.len() - to,
        {
            to = to + 1;
        }
        proof {
            comma_at(rest, to - from);
            assert(rest.take(to - from) =~= cs@.subrange(from as int, to as int));
        }
        let (a, b): (usize, usize) = trim_chars(&cs, from, to);
        let ghost before = texts(out@);
        if a < b {
            let entry: String = from_chars(&cs, a, b);
            let ghost entry_text = entry@;
            out.push(entry);
            assert(texts(out@) =~= before + seq![entry_text]);
        }
        if to >= cs.len() {
            assert(texts(out@) =~= entries_of(s@));
            return out;
        }
        assert(rest.skip(to - from + 1) =~= s@.skip(to + 1));
        assert(texts(out@) + entries_of(s@.skip(to + 1)) =~= entries_of(s@));
        from = to + 1;
    }
}

/// Whether a character is a decimal digit.
pub open spec fn is_digit(c: char) -> bool {
    '0' <= c <= '9'
}

/// The number that decimal digits spell.
pub open spec fn digits_value(s: Seq<char>) -> nat
    decreases s.len(),
{
    if s.len() == 0 {
        0
    } else {
        10 * digits_value(s.drop_last()) + (s.last() as u32 - 48) as nat
    }
}

/// Whether a text is made of decimal digits.
pub open spec fn all_digits(s: Seq<char>) -> bool {
    s.len() > 0 && forall|i: int| 0 <= i < s.len() ==> is_digit(#[trigger] s[i])
}

/// The number that a text spells: digits, after a plus sign or none, of no more
/// than sixty-four bits.
pub open spec fn number(s: Seq<char>) -> Option<u64> {
    let digits = if s.len() > 0 && s[0] == '+' {
        s.skip(1)
    } else {
        s
    };
    if all_digits(digits) && digits_value(digits) <= u64::MAX {
        Some(digits_value(digits) as u64)
    } else {
        None
    }
}

proof fn longer_is_no_less(s: Seq<char>, n: int)
    requires
        0 <= n <= s.len(),
    ensures
        digits_value(s.take(n)) <= digits_value(s),
    decreases s.len(),
{
    if n < s.len() {
        longer_is_no_less(s.drop_last(), n);
        assert(s.drop_last().take(n) =~= s.take(n));
    } else {
        assert(s.take(n) =~= s);
    }
}

/// Why a text spells no number.
#[derive(Debug, Clone, Copy, PartialEq, Eq, Structural)]
pub enum NumberFault {
    Empty,
    InvalidDigit,
    TooLarge,
}

impl NumberFault {
    /// The fault as a text.
    pub open spec fn spec_text(self) -> Seq<char> {
        match self {
            NumberFault::Empty => "cannot parse integer from empty string"@,
            NumberFault::InvalidDigit => "invalid digit found in string"@,
            NumberFault::TooLarge => "number too large to fit in target type"@,
        }
    }

    /// The fault as a text.
    pub fn text(&self) -> (r: &'static str)
        ensures
            r@ == self.spec_text(),
    {
        match self {
            NumberFault::Empty => "cannot parse integer from empty string",
            NumberFault::InvalidDigit => "invalid digit found in string",
            NumberFault::TooLarge => "number too large to fit in target type",
        }
    }
}

/// The first fault of what should be digits, from the left.
pub open spec fn digits_fault(s: Seq<char>) -> Option<NumberFault>
    decreases s.len(),
{
    if s.len() == 0 {
        None
    } else if digits_fault(s.drop_last()) is Some {
        digits_fault(s.drop_last())
    } else if !is_digit(s.last()) {
        Some(NumberFault::InvalidDigit)
    } else if digits_value(s) > u64::MAX {
        Some(NumberFault::TooLarge)
    } else {
        None
    }
}

/// Why a text spells no number, where it spells none. A sign alone has a fault of
/// its own.
pub open spec fn number_fault(s: Seq<char>) -> NumberFault {
    let digits = if s.len() > 0 && s[0] == '+' {
        s.skip(1)
    } else {
        s
    };
    if s.len() == 0 {
        NumberFault::Empty
    } else {
        match digits_fault(digits) {
            Some(fault) => fault,
            None => NumberFault::InvalidDigit,
        }
    }
}

proof fn fault_stays(s: Seq<char>, n: int)
    requires
        0 <= n <= s.len(),
        digits_fault(s.take(n)) is Some,
    ensures
        digits_fault(s) == digits_fault(s.take(n)),
    decreases s.len(),
{
    if n < s.len() {
        assert(s.drop_last().take(n) =~= s.take(n));
        fault_stays(s.drop_last(), n);
    } else {
        assert(s.take(n) =~= s);
    }
}

/// The number that a text spells, or why it spells none.
pub fn parse_u64(s: &str) -> (r: Result<u64, NumberFault>)
    ensures
        r == (match number(s@) {
            Some(value) => Ok::<u64, NumberFault>(value),
            None => Err(number_fault(s@)),
        }),
{
    let cs: Vec<char> = chars(s);
    if cs.len() == 0 {
        return Err(NumberFault::Empty);
    }
    let from: usize = if cs[0] == '+' {
        1
    } else {
        0
    };
    let ghost digits = cs@.skip(from as int);
    assert(digits == (if s@.len() > 0 && s@[0] == '+' {
        s@.skip(1)
    } else {
        s@
    })) by {
        assert(s@.skip(0) =~= s@);
    }
    if from == cs.len() {
        return Err(NumberFault::InvalidDigit);
    }
    let mut value: u64 = 0;
    let mut i: usize = from;
    assert(digits.take(0) =~= Seq::empty());
    while i < cs.len()
        invariant
            cs@ == s@,
            from <= i <= cs.len(),
            cs.len() > 0,
            digits == cs@.skip(from as int),
            digits == (if s@.len() > 0 && s@[0] == '+' {
                s@.skip(1)
            } else {
                s@
            }),
            forall|k: int| 0 <= k < i - from ==> is_digit(#[trigger] digits[k]),
            value as nat == digits_value(digits.take(i - from)),
            digits_fault(digits.take(i - from)) is None,
        decreases cs.len() - i,
    {
        let c: char = cs[i];
        let ghost next = digits.take(i - from + 1);
        proof {
            assert(digits[i - from] == c);
            assert(next.drop_last() =~= digits.take(i - from));
            assert(next.last() == c);
        }
        if c < '0' || c > '9' {
            proof {
                assert(!is_digit(digits[i - from]));
                fault_stays(digits, i - from + 1);
            }
            return Err(NumberFault::InvalidDigit);
        }
        let d: u64 = (c as u32 - 48) as u64;
        proof {
            longer_is_no_less(digits, i - from + 1);
        }
        if value > u64::MAX / 10 || (value == u64::MAX / 10 && d > u64::MAX % 10) {
            proof {
                assert(digits_value(next) > u64::MAX);
                fault_stays(digits, i - from + 1);
            }
            return Err(NumberFault::TooLarge);
        }
        value = value * 10 + d;
        i = i + 1;
    }
    assert(digits.take(digits.len() as int) =~= digits);
    Ok(value)
}

/// A number written in decimal is read back.
pub proof fn decimal_reads_back(v: u64)
    ensures
        number(decimal_nat(v as nat)) == Some(v),
{
    decimal_digits(v as nat);
    let s = decimal_nat(v as nat);
    assert(is_digit(s[0]));
}

proof fn decimal_digits(v: nat)
    ensures
        all_digits(decimal_nat(v)),
        digits_value(decimal_nat(v)) == v,
    decreases v,
{
    let s = decimal_nat(v);
    if v < 10 {
        assert(s.drop_last() =~= Seq::empty());
        assert(digits_value(s.drop_last()) == 0);
        assert(s.last() == digit_char(v));
        assert(digit_char(v) as u32 - 48 == v);
    } else {
        decimal_digits(v / 10);
        assert(s.drop_last() =~= decimal_nat(v / 10));
        assert(s.last() == digit_char(v % 10));
        assert(digit_char(v % 10) as u32 - 48 == v % 10);
        assert forall|i: int| 0 <= i < s.len() implies is_digit(#[trigger] s[i]) by {
            if i < s.len() - 1 {
                assert(s[i] == decimal_nat(v / 10)[i]);
            }
        }
    }
}

} // verus!
