//! Byte sequences: comparison, copying and big-endian integers.

use vstd::prelude::*;

verus! {

/// Whether two byte slices hold the same bytes.
pub fn same_bytes(a: &[u8], b: &[u8]) -> (r: bool)
    ensures
        r == (a@ == b@),
{
    if a.len() != b.len() {
        return false;
    }
    let mut i: usize = 0;
    while i < a.len()
        invariant
            a.len() == b.len(),
            i <= a.len(),
            forall|k: int| 0 <= k < i ==> a@[k] == b@[k],
        decreases a.len() - i,
    {
        if a[i] != b[i] {
            assert(a@[i as int] != b@[i as int]);
            return false;
        }
        i = i + 1;
    }
    assert(a@ =~= b@);
    true
}

/// A copy of a byte slice.
pub fn copy_bytes(a: &[u8]) -> (r: Vec<u8>)
    ensures
        r@ == a@,
{
    let mut out: Vec<u8> = Vec::new();
    append_bytes(&mut out, a);
    assert(out@ =~= a@);
    out
}

/// Appends every byte of `extra` to `out`.
pub fn append_bytes(out: &mut Vec<u8>, extra: &[u8])
    ensures
        final(out)@ == old(out)@ + extra@,
{
    let mut i: usize = 0;
    while i < extra.len()
        invariant
            i <= extra.len(),
            out@ == old(out)@ + extra@.take(i as int),
        decreases extra.len() - i,
    {
        out.push(extra[i]);
        i = i + 1;
        assert(extra@.take(i as int) =~= extra@.take(i - 1).push(extra@[i - 1]));
        assert(out@ =~= old(out)@ + extra@.take(i as int));
    }
    assert(extra@.take(i as int) =~= extra@);
}

/// A copy of `a[from..to]`.
pub fn copy_range(a: &[u8], from: usize, to: usize) -> (r: Vec<u8>)
    requires
        from <= to <= a.len(),
    ensures
        r@ == a@.subrange(from as int, to as int),
{
    let mut out: Vec<u8> = Vec::new();
    let mut i: usize = from;
    while i < to
        invariant
            from <= i <= to <= a.len(),
            out@ == a@.subrange(from as int, i as int),
        decreases to - i,
    {
        out.push(a[i]);
        i = i + 1;
        assert(out@ =~= a@.subrange(from as int, i as int));
    }
    out
}

/// The four bytes of `v`, most significant first.
pub open spec fn be32(v: nat) -> Seq<u8> {
    seq![
        (v / 0x100_0000 % 256) as u8,
        (v / 0x1_0000 % 256) as u8,
        (v / 0x100 % 256) as u8,
        (v % 256) as u8,
    ]
}

/// The number that four bytes spell, most significant first.
pub open spec fn be32_value(b: Seq<u8>) -> nat {
    (b[0] as nat) * 0x100_0000 + (b[1] as nat) * 0x1_0000 + (b[2] as nat) * 0x100 + (b[3] as nat)
}

/// Writing a 32-bit number most significant byte first and reading it back
/// gives the number.
pub proof fn be32_reads_back(v: nat)
    requires
        v <= u32::MAX,
    ensures
        be32_value(be32(v)) == v,
{
}

/// Appends the four bytes of `v`, most significant first.
pub fn push_be32(out: &mut Vec<u8>, v: u32)
    ensures
        final(out)@ == old(out)@ + be32(v as nat),
{
    out.push((v / 0x100_0000 % 256) as u8);
    out.push((v / 0x1_0000 % 256) as u8);
    out.push((v / 0x100 % 256) as u8);
    out.push((v % 256) as u8);
    assert(out@ =~= old(out)@ + be32(v as nat));
}

/// The number that `a[at..at + 4]` spells, most significant byte first.
pub fn read_be32(a: &[u8], at: usize) -> (r: u32)
    requires
        at + 4 <= a.len(),
    ensures
        r as nat == be32_value(a@.subrange(at as int, at + 4)),
{
    (a[at] as u32) * 0x100_0000 + (a[at + 1] as u32) * 0x1_0000 + (a[at + 2] as u32) * 0x100 + (
    a[at + 3] as u32)
}

/// The number that bytes spell, most significant first.
pub open spec fn be_value(b: Seq<u8>) -> nat
    decreases b.len(),
{
    if b.len() == 0 {
        0
    } else {
        be_value(b.drop_last()) * 256 + b.last() as nat
    }
}

/// The last `n` bytes of a number, most significant first.
pub open spec fn be_bytes(v: nat, n: nat) -> Seq<u8>
    decreases n,
{
    if n == 0 {
        Seq::empty()
    } else {
        be_bytes(v / 256, (n - 1) as nat).push((v % 256) as u8)
    }
}

/// Powers of 256.
pub open spec fn pow256(n: nat) -> nat
    decreases n,
{
    if n == 0 {
        1
    } else {
        256 * pow256((n - 1) as nat)
    }
}

/// Writing a number most significant byte first and reading it back gives the
/// number, where it fits.
pub proof fn be_reads_back(v: nat, n: nat)
    requires
        v < pow256(n),
    ensures
        be_bytes(v, n).len() == n,
        be_value(be_bytes(v, n)) == v,
    decreases n,
{
    if n > 0 {
        be_reads_back(v / 256, (n - 1) as nat);
        let b = be_bytes(v, n);
        assert(b.drop_last() =~= be_bytes(v / 256, (n - 1) as nat));
    }
}

/// A number that bytes spell fits into as many bytes.
pub proof fn be_value_fits(b: Seq<u8>)
    ensures
        be_value(b) < pow256(b.len()),
    decreases b.len(),
{
    if b.len() > 0 {
        be_value_fits(b.drop_last());
    }
}

/// The number that `a[at..at + n]` spells, most significant byte first.
pub fn read_be(a: &[u8], at: usize, n: usize) -> (r: u128)
    requires
        at + n <= a.len(),
        n <= 16,
    ensures
        r as nat == be_value(a@.subrange(at as int, at + n)),
        r < pow256(n as nat),
{
    let mut value: u128 = 0;
    let mut i: usize = 0;
    assert(a@.subrange(at as int, at as int) =~= Seq::empty());
    while i < n
        invariant
            i <= n <= 16,
            at + n <= a.len(),
            value as nat == be_value(a@.subrange(at as int, at + i)),
            value < pow256(i as nat),
        decreases n - i,
    {
        proof {
            assert(value * 256 + 255 <= u128::MAX) by {
                pow256_grows(i as nat + 1, 16);
                reveal_with_fuel(pow256, 17);
            }
            let next = a@.subrange(at as int, at + i + 1);
            assert(next.drop_last() =~= a@.subrange(at as int, at + i));
        }
        value = value * 256 + a[at + i] as u128;
        i = i + 1;
    }
    value
}

proof fn pow256_grows(m: nat, n: nat)
    requires
        m <= n,
    ensures
        pow256(m) <= pow256(n),
    decreases n,
{
    if m < n {
        pow256_grows(m, (n - 1) as nat);
    }
}

/// The stretches of bytes between the marks.
pub open spec fn pieces(b: Seq<u8>, mark: u8) -> Seq<Seq<u8>>
    decreases b.len(),
{
    if b.len() == 0 {
        seq![Seq::empty()]
    } else {
        let before = pieces(b.drop_last(), mark);
        if b.last() == mark {
            before.push(Seq::empty())
        } else {
            before.drop_last().push(before.last().push(b.last()))
        }
    }
}

/// There is always at least one stretch.
pub proof fn pieces_not_empty(b: Seq<u8>, mark: u8)
    ensures
        pieces(b, mark).len() > 0,
    decreases b.len(),
{
    if b.len() > 0 {
        pieces_not_empty(b.drop_last(), mark);
    }
}

/// Byte strings as what they hold.
pub open spec fn byte_views(list: Seq<Vec<u8>>) -> Seq<Seq<u8>> {
    Seq::new(list.len(), |i: int| list[i]@)
}

/// The stretches of bytes between the marks.
pub fn split_bytes(b: &[u8], mark: u8) -> (r: Vec<Vec<u8>>)
    ensures
        byte_views(r@) == pieces(b@, mark),
{
    let mut done: Vec<Vec<u8>> = Vec::new();
    let mut current: Vec<u8> = Vec::new();
    let mut i: usize = 0;
    proof {
        assert(b@.take(0) =~= Seq::empty());
        assert(byte_views(done@).push(current@) =~= pieces(b@.take(0), mark));
    }
    while i < b.len()
        invariant
            i <= b.len(),
            byte_views(done@).push(current@) == pieces(b@.take(i as int), mark),
        decreases b.len() - i,
    {
        let byte: u8 = b[i];
        let ghost before = byte_views(done@);
        let ghost so_far = pieces(b@.take(i as int), mark);
        let ghost open = current@;
        proof {
            assert(b@.take(i + 1).drop_last() =~= b@.take(i as int));
            assert(so_far.drop_last() =~= before);
            assert(so_far.last() == open);
        }
        if byte == mark {
            done.push(current);
            current = Vec::new();
            assert(byte_views(done@) =~= so_far);
            assert(byte_views(done@).push(current@) =~= so_far.push(Seq::empty()));
        } else {
            current.push(byte);
            assert(byte_views(done@).push(current@) =~= so_far.drop_last().push(
                so_far.last().push(byte),
            ));
        }
        i = i + 1;
    }
    let ghost before = byte_views(done@);
    let ghost open = current@;
    done.push(current);
    assert(b@.take(i as int) =~= b@);
    assert(byte_views(done@) =~= before.push(open));
    done
}

/// The thirty-two bytes of a slice of that length.
pub fn thirty_two(bytes: &[u8]) -> (r: Option<[u8; 32]>)
    ensures
        r is Some <==> bytes@.len() == 32,
        r matches Some(a) ==> a@ == bytes@,
{
    if bytes.len() != 32 {
        return None;
    }
    let mut a: [u8; 32] = [0u8; 32];
    let mut i: usize = 0;
    while i < 32
        invariant
            i <= 32,
            bytes@.len() == 32,
            forall|k: int| 0 <= k < i ==> a@[k] == bytes@[k],
        decreases 32 - i,
    {
        a[i] = bytes[i];
        i = i + 1;
    }
    assert(a@ =~= bytes@);
    Some(a)
}

} // verus!
