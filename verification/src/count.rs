//! The fixed-width counts of the wire format: unsigned, eight bytes, most
//! significant byte first.

use vstd::prelude::*;
use vstd::slice::slice_index_get;

verus! {

/// Number of bytes a count occupies on the wire.
pub const COUNT_WIDTH: usize = 8;

/// The number that a run of bytes stands for, most significant byte first.
pub open spec fn be_value(bytes: Seq<u8>) -> int
    decreases bytes.len(),
{
    if bytes.len() == 0 {
        0
    } else {
        be_value(bytes.drop_last()) * 256 + bytes.last()
    }
}

/// The `width` low-order base-256 digits of `n`, most significant first.
pub open spec fn be_digits(n: int, width: nat) -> Seq<u8>
    decreases width,
{
    if width == 0 {
        Seq::empty()
    } else {
        be_digits(n / 256, (width - 1) as nat).push((n % 256) as u8)
    }
}

/// The number that the eight bytes of a count stand for.
pub open spec fn count_value(bytes: Seq<u8>) -> int
    recommends
        bytes.len() == COUNT_WIDTH,
{
    be_value(bytes)
}

/// The eight bytes that stand for `n` on the wire.
pub open spec fn count_bytes(n: u64) -> Seq<u8> {
    be_digits(n as int, COUNT_WIDTH as nat)
}

/// 256 to the power of `width`.
pub open spec fn radix_pow(width: nat) -> int
    decreases width,
{
    if width == 0 {
        1
    } else {
        256 * radix_pow((width - 1) as nat)
    }
}

proof fn lemma_digits_len(n: int, width: nat)
    ensures
        be_digits(n, width).len() == width,
    decreases width,
{
    if width > 0 {
        lemma_digits_len(n / 256, (width - 1) as nat);
    }
}

proof fn lemma_value_of_digits(n: int, width: nat)
    requires
        0 <= n < radix_pow(width),
    ensures
        be_value(be_digits(n, width)) == n,
    decreases width,
{
    if width > 0 {
        let rest = be_digits(n / 256, (width - 1) as nat);
        lemma_value_of_digits(n / 256, (width - 1) as nat);
        assert(be_digits(n, width).drop_last() =~= rest);
    }
}

proof fn lemma_value_bounds(bytes: Seq<u8>)
    ensures
        0 <= be_value(bytes) < radix_pow(bytes.len()),
    decreases bytes.len(),
{
    if bytes.len() > 0 {
        lemma_value_bounds(bytes.drop_last());
    }
}

proof fn lemma_digits_of_value(bytes: Seq<u8>)
    ensures
        be_digits(be_value(bytes), bytes.len()) == bytes,
    decreases bytes.len(),
{
    if bytes.len() > 0 {
        lemma_value_bounds(bytes.drop_last());
        lemma_digits_of_value(bytes.drop_last());
        let n = be_value(bytes);
        assert(n / 256 == be_value(bytes.drop_last()));
        assert(n % 256 == bytes.last());
        assert(be_digits(n, bytes.len()) =~= bytes);
    }
}

proof fn lemma_radix_pow_eight()
    ensures
        radix_pow(8) == 0x1_0000_0000_0000_0000,
{
    reveal_with_fuel(radix_pow, 9);
}

/// Reading back the bytes written for `n` gives `n`.
pub proof fn count_round_trip(n: u64)
    ensures
        count_bytes(n).len() == COUNT_WIDTH,
        count_value(count_bytes(n)) == n,
{
    lemma_radix_pow_eight();
    lemma_digits_len(n as int, 8);
    lemma_value_of_digits(n as int, 8);
}

/// Eight bytes always stand for a number that fits in a `u64`, and writing that
/// number gives the same eight bytes.
pub proof fn count_bytes_of_value(bytes: Seq<u8>)
    requires
        bytes.len() == COUNT_WIDTH,
    ensures
        0 <= count_value(bytes) <= u64::MAX,
        count_bytes(count_value(bytes) as u64) == bytes,
{
    lemma_radix_pow_eight();
    lemma_value_bounds(bytes);
    lemma_digits_of_value(bytes);
}

/// Reads the count that starts at `at`, if eight bytes are left there.
pub fn read_usize(bytes: &[u8], at: usize) -> (count: Option<u64>)
    ensures
        count is Some <==> at + COUNT_WIDTH <= bytes@.len(),
        count matches Some(n) ==> n == count_value(bytes@.subrange(at as int, at + COUNT_WIDTH)),
{
    if at > bytes.len() || bytes.len() - at < COUNT_WIDTH {
        return None;
    }
    let ghost field = bytes@.subrange(at as int, at + COUNT_WIDTH);
    let mut value: u64 = 0;
    let mut i: usize = 0;
    while i < COUNT_WIDTH
        invariant
            i <= COUNT_WIDTH,
            at + COUNT_WIDTH <= bytes@.len() <= usize::MAX,
            field == bytes@.subrange(at as int, at + COUNT_WIDTH),
            value == be_value(field.take(i as int)),
        decreases COUNT_WIDTH - i,
    {
        let byte: u8 = *slice_index_get(bytes, at + i);
        proof {
            let seen = field.take(i as int);
            let next = field.take(i + 1);
            assert(next.drop_last() =~= seen);
            assert(next.last() == byte);
            lemma_value_bounds(next);
            lemma_radix_pow_eight();
            lemma_radix_pow_monotone(next.len(), 8);
        }
        value = value * 256 + byte as u64;
        i += 1;
    }
    assert(field.take(COUNT_WIDTH as int) =~= field);
    Some(value)
}

proof fn lemma_radix_pow_monotone(small: nat, large: nat)
    requires
        small <= large,
    ensures
        0 < radix_pow(small) <= radix_pow(large),
    decreases large,
{
    if small < large {
        lemma_radix_pow_monotone(small, (large - 1) as nat);
    } else if small > 0 {
        lemma_radix_pow_monotone((small - 1) as nat, (small - 1) as nat);
    }
}

/// Appends the eight bytes of `n` to `out`.
pub fn write_usize(out: &mut Vec<u8>, n: u64)
    ensures
        final(out)@ == old(out)@ + count_bytes(n),
{
    let mut digits: [u8; 8] = [0; 8];
    let mut rest: u64 = n;
    let mut i: usize = COUNT_WIDTH;
    while i > 0
        invariant
            i <= COUNT_WIDTH,
            digits@.len() == 8,
            be_digits(n as int, 8) == be_digits(rest as int, i as nat) + digits@.skip(i as int),
        decreases i,
    {
        let ghost before = digits@;
        i -= 1;
        digits[i] = (rest % 256) as u8;
        proof {
            let low = (rest % 256) as u8;
            assert(digits@.skip(i as int) =~= seq![low] + before.skip(i + 1));
            assert(be_digits(rest as int, (i + 1) as nat) == be_digits(rest as int / 256, i as nat).push(low));
            assert(be_digits(rest as int / 256, i as nat).push(low) + before.skip(i + 1)
                =~= be_digits(rest as int / 256, i as nat) + (seq![low] + before.skip(i + 1)));
        }
        rest = rest / 256;
    }
    let ghost start = out@;
    let mut k: usize = 0;
    while k < COUNT_WIDTH
        invariant
            k <= COUNT_WIDTH,
            digits@.len() == 8,
            out@ == start + digits@.take(k as int),
        decreases COUNT_WIDTH - k,
    {
        out.push(digits[k]);
        assert(digits@.take(k + 1) =~= digits@.take(k as int).push(digits@[k as int]));
        k += 1;
    }
    proof {
        assert(digits@.take(8) =~= digits@);
        assert(digits@.skip(0) =~= digits@);
        assert(be_digits(rest as int, 0) + digits@ =~= digits@);
    }
}

} // verus!
