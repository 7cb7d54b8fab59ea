//! Numbers as little endian bytes, and values as what is written of them.

use vstd::prelude::*;

verus! {

/// Whether a value comes back from its written form.
pub open spec fn comes_back<T>(
    write: spec_fn(T) -> Seq<u8>,
    read: spec_fn(Seq<u8>) -> Option<T>,
    value: T,
) -> bool {
    read(write(value)) == Some(value)
}

/// The lowest `width` bytes of `n`, least significant first.
pub open spec fn le_bytes(n: nat, width: nat) -> Seq<u8>
    decreases width,
{
    if width == 0 {
        Seq::empty()
    } else {
        seq![(n % 256) as u8] + le_bytes(n / 256, (width - 1) as nat)
    }
}

/// The number whose bytes, least significant first, are `bytes`.
pub open spec fn le_value(bytes: Seq<u8>) -> nat
    decreases bytes.len(),
{
    if bytes.len() == 0 {
        0
    } else {
        bytes[0] as nat + 256 * le_value(bytes.drop_first())
    }
}

/// One more than the largest number of `width` bytes.
pub open spec fn byte_range(width: nat) -> nat
    decreases width,
{
    if width == 0 {
        1
    } else {
        256 * byte_range((width - 1) as nat)
    }
}

/// Writing a number and reading it back gives its value in that many bytes.
pub proof fn lemma_le_round_trip(n: nat, width: nat)
    ensures
        le_bytes(n, width).len() == width,
        n < byte_range(width) ==> le_value(le_bytes(n, width)) == n,
    decreases width,
{
    if width > 0 {
        lemma_le_round_trip(n / 256, (width - 1) as nat);
        assert(le_bytes(n, width).drop_first() =~= le_bytes(n / 256, (width - 1) as nat));
    }
}

/// A number read from bytes fits in their range.
pub proof fn lemma_le_value_range(bytes: Seq<u8>)
    ensures
        le_value(bytes) < byte_range(bytes.len()),
    decreases bytes.len(),
{
    if bytes.len() > 0 {
        lemma_le_value_range(bytes.drop_first());
    }
}

/// The ranges of the widths in use.
pub proof fn lemma_byte_ranges()
    ensures
        byte_range(4) == 0x1_0000_0000,
        byte_range(8) == 0x1_0000_0000_0000_0000,
{
    reveal_with_fuel(byte_range, 9);
}

/// Appends the lowest `width` bytes of `n`, least significant first.
pub fn push_le(out: &mut Vec<u8>, n: u64, width: usize)
    requires
        width <= 8,
    ensures
        final(out)@ == old(out)@ + le_bytes(n as nat, width as nat),
{
    let ghost start = out@;
    let mut rest: u64 = n;
    let mut left: usize = width;
    assert(start + le_bytes(n as nat, width as nat) =~= out@ + le_bytes(rest as nat, left as nat));
    while left > 0
        invariant
            left <= 8,
            start + le_bytes(n as nat, width as nat) == out@ + le_bytes(rest as nat, left as nat),
        decreases left,
    {
        let ghost before = out@;
        out.push((rest % 256) as u8);
        assert(out@ + le_bytes((rest / 256) as nat, (left - 1) as nat) =~= before + le_bytes(
            rest as nat,
            left as nat,
        ));
        rest = rest / 256;
        left = left - 1;
    }
    assert(out@ + le_bytes(rest as nat, 0) =~= out@);
}

/// Reads the number whose bytes stand from `from` up to, not including, `to`.
pub fn read_le(bytes: &[u8], from: usize, to: usize) -> (out: u64)
    requires
        from <= to <= bytes@.len(),
        to - from <= 8,
    ensures
        out == le_value(bytes@.subrange(from as int, to as int)),
{
    let mut value: u64 = 0;
    let mut at: usize = to;
    proof {
        lemma_byte_ranges();
    }
    assert(le_value(bytes@.subrange(at as int, to as int)) == 0);
    while at > from
        invariant
            from <= at <= to <= bytes@.len(),
            to - from <= 8,
            value == le_value(bytes@.subrange(at as int, to as int)),
        decreases at,
    {
        proof {
            let tail = bytes@.subrange(at as int, to as int);
            let more = bytes@.subrange(at as int - 1, to as int);
            assert(more.drop_first() =~= tail);
            lemma_le_value_range(more);
            lemma_range_grows(more.len(), 8);
            lemma_byte_ranges();
        }
        at = at - 1;
        value = bytes[at] as u64 + 256 * value;
    }
    value
}

/// More bytes have a larger range.
proof fn lemma_range_grows(a: nat, b: nat)
    requires
        a <= b,
    ensures
        byte_range(a) <= byte_range(b),
    decreases b,
{
    if a < b {
        lemma_range_grows(a, (b - 1) as nat);
    }
}

} // verus!
