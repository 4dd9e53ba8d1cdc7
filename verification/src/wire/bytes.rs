//! Numbers as bytes, most significant byte first.

use vstd::prelude::*;

verus! {

/// The number of values that `width` bytes can tell apart.
pub open spec fn pow256(width: nat) -> nat
    decreases width,
{
    if width == 0 {
        1
    } else {
        256 * pow256((width - 1) as nat)
    }
}

/// The `width` bytes of a number, most significant first. What does not fit
/// in `width` bytes is cut off.
pub open spec fn be_bytes(n: nat, width: nat) -> Seq<u8>
    decreases width,
{
    if width == 0 {
        Seq::empty()
    } else {
        be_bytes(n / 256, (width - 1) as nat).push((n % 256) as u8)
    }
}

/// The number that bytes stand for, most significant byte first.
pub open spec fn be_value(bytes: Seq<u8>) -> nat
    decreases bytes.len(),
{
    if bytes.len() == 0 {
        0
    } else {
        be_value(bytes.drop_last()) * 256 + bytes.last() as nat
    }
}

/// The bit pattern of a signed number in two's complement at a width.
pub open spec fn unsigned_of(i: int, width: nat) -> nat {
    if i < 0 {
        (i + pow256(width)) as nat
    } else {
        i as nat
    }
}

/// The signed number that a bit pattern stands for in two's complement.
pub open spec fn signed_of(n: nat, width: nat) -> int {
    if 2 * n >= pow256(width) {
        n - pow256(width)
    } else {
        n as int
    }
}

pub proof fn lemma_pow256_values()
    ensures
        pow256(0) == 1,
        pow256(1) == 0x100,
        pow256(2) == 0x1_0000,
        pow256(4) == 0x1_0000_0000,
        pow256(8) == 0x1_0000_0000_0000_0000,
{
    reveal_with_fuel(pow256, 9);
}

pub proof fn lemma_be_bytes_len(n: nat, width: nat)
    ensures
        be_bytes(n, width).len() == width,
    decreases width,
{
    if width > 0 {
        lemma_be_bytes_len(n / 256, (width - 1) as nat);
    }
}

/// Bytes stand for a number below the count of values of their width.
pub proof fn lemma_be_value_bound(bytes: Seq<u8>)
    ensures
        be_value(bytes) < pow256(bytes.len()),
    decreases bytes.len(),
{
    if bytes.len() > 0 {
        lemma_be_value_bound(bytes.drop_last());
    }
}

/// A number that fits in its width is read back from its bytes.
pub proof fn lemma_be_round_trip(n: nat, width: nat)
    requires
        n < pow256(width),
    ensures
        be_value(be_bytes(n, width)) == n,
    decreases width,
{
    if width > 0 {
        let bytes = be_bytes(n, width);
        assert(bytes.drop_last() =~= be_bytes(n / 256, (width - 1) as nat));
        lemma_be_round_trip(n / 256, (width - 1) as nat);
    }
}

/// Appends the `width` bytes of `n` to `out`.
pub fn put_be(out: &mut Vec<u8>, n: u64, width: usize)
    requires
        width <= 8,
    ensures
        final(out)@ == old(out)@ + be_bytes(n as nat, width as nat),
    decreases width,
{
    if width > 0 {
        put_be(out, n / 256, width - 1);
        out.push((n % 256) as u8);
    }
    assert(out@ =~= old(out)@ + be_bytes(n as nat, width as nat));
}

/// Reads the number that the `width` bytes at `pos` stand for.
pub fn get_be(buf: &Vec<u8>, pos: usize, width: usize) -> (r: u64)
    requires
        width <= 8,
        pos + width <= buf.len(),
    ensures
        r == be_value(buf@.subrange(pos as int, pos + width)),
    decreases width,
{
    if width == 0 {
        0
    } else {
        let ghost bytes = buf@.subrange(pos as int, pos + width);
        let front = get_be(buf, pos, width - 1);
        proof {
            assert(bytes.drop_last() =~= buf@.subrange(pos as int, pos + width - 1));
            lemma_be_value_bound(bytes.drop_last());
            lemma_be_value_bound(bytes);
            lemma_pow256_bound(width as nat);
            lemma_pow256_bound((width - 1) as nat);
        }
        front * 256 + buf[pos + width - 1] as u64
    }
}

/// Up to eight bytes stand for a number that fits in 64 bits.
pub proof fn lemma_pow256_bound(width: nat)
    requires
        width <= 8,
    ensures
        pow256(width) <= 0x1_0000_0000_0000_0000,
        width < 8 ==> pow256(width) * 256 <= 0x1_0000_0000_0000_0000,
{
    reveal_with_fuel(pow256, 9);
}

} // verus!
