//! Four-byte alignment, the unit in which every section of a tile is sized.

use vstd::prelude::*;

verus! {

/// The least multiple of four that is not below `n`.
#[verifier::opaque]
pub open spec fn round_up4(n: int) -> int {
    ((n + 3) / 4) * 4
}

/// The number of filler bytes that bring a section of `n` bytes to a
/// four-byte boundary.
pub open spec fn padding4(n: int) -> int {
    round_up4(n) - n
}

/// `round_up4` yields a multiple of four within three of its argument.
pub proof fn lemma_round_up4(n: int)
    requires
        0 <= n,
    ensures
        round_up4(n) % 4 == 0,
        n <= round_up4(n) <= n + 3,
        n % 4 == 0 ==> round_up4(n) == n,
        0 <= padding4(n) < 4,
{
    reveal(round_up4);
}

/// Adding a multiple of four commutes with rounding.
pub proof fn lemma_round_up4_add(a: int, b: int)
    requires
        0 <= a,
        0 <= b,
        a % 4 == 0,
    ensures
        round_up4(a + b) == a + round_up4(b),
{
    reveal(round_up4);
}

/// Masking off the two low bits of `n + 3` rounds a `usize` up to a multiple
/// of four.
pub proof fn lemma_mask_usize(n: usize)
    requires
        n + 3 <= usize::MAX,
    ensures
        (((n + 3) as usize) & !3usize) as int == round_up4(n as int),
{
    reveal(round_up4);
    let m: usize = (n + 3) as usize;
    assert(m & !3usize == (m / 4) * 4) by (bit_vector);
}

/// Masking off the two low bits of `n + 3` rounds a `u32` up to a multiple of
/// four.
pub proof fn lemma_mask_u32(n: u32)
    requires
        n + 3 <= u32::MAX,
    ensures
        (((n + 3) as u32) & !3u32) as int == round_up4(n as int),
{
    reveal(round_up4);
    let m: u32 = (n + 3) as u32;
    assert(m & !3u32 == (m / 4) * 4) by (bit_vector);
}

/// `n` copies of `fill`.
pub open spec fn filler(n: int, fill: u8) -> Seq<u8> {
    Seq::new(n as nat, |i: int| fill)
}

/// `s` followed by as many copies of `fill` as reach a four-byte boundary.
pub open spec fn pad_with(s: Seq<u8>, fill: u8) -> Seq<u8> {
    s + filler(padding4(s.len() as int), fill)
}

/// A padded section is as long as its length rounded up.
pub proof fn lemma_pad_with_len(s: Seq<u8>, fill: u8)
    ensures
        pad_with(s, fill).len() == round_up4(s.len() as int),
        pad_with(s, fill).len() % 4 == 0,
{
    lemma_round_up4(s.len() as int);
}

/// Padding a section that starts on a four-byte boundary pads the section
/// alone.
pub proof fn lemma_pad_after_aligned(prefix: Seq<u8>, s: Seq<u8>, fill: u8)
    requires
        prefix.len() % 4 == 0,
    ensures
        pad_with(prefix + s, fill) == prefix + pad_with(s, fill),
{
    lemma_round_up4_add(prefix.len() as int, s.len() as int);
    assert(padding4((prefix + s).len() as int) == padding4(s.len() as int));
    assert(pad_with(prefix + s, fill) =~= prefix + pad_with(s, fill));
}

/// Appends copies of `fill` to `buf` until its length is a multiple of four.
pub fn pad_to_four(buf: &mut Vec<u8>, fill: u8)
    ensures
        final(buf)@ == pad_with(old(buf)@, fill),
{
    let ghost start = buf@;
    proof {
        lemma_round_up4(start.len() as int);
    }
    while buf.len() % 4 != 0
        invariant
            start.len() <= buf@.len() <= round_up4(start.len() as int),
            round_up4(start.len() as int) % 4 == 0,
            round_up4(start.len() as int) <= start.len() + 3,
            buf@ == start + filler(buf@.len() - start.len(), fill),
        decreases round_up4(start.len() as int) - buf@.len(),
    {
        buf.push(fill);
        assert(buf@ =~= start + filler(buf@.len() - start.len(), fill));
    }
}

/// `n` rounded up to a multiple of four, where a `usize` can hold it.
pub fn checked_round_up4(n: usize) -> (r: Option<usize>)
    ensures
        match r {
            Some(m) => m == round_up4(n as int),
            None => round_up4(n as int) > usize::MAX,
        },
{
    proof {
        lemma_round_up4(n as int);
    }
    if n > usize::MAX - 3 {
        None
    } else {
        proof {
            lemma_mask_usize(n);
        }
        Some((n + 3) & !3)
    }
}

/// The parts of a sequence put together from four lie in it one after
/// another.
pub proof fn lemma_concat4_parts(a: Seq<u8>, b: Seq<u8>, c: Seq<u8>, d: Seq<u8>)
    ensures
        ({
            let all = a + b + c + d;
            let la = a.len() as int;
            let lb = b.len() as int;
            let lc = c.len() as int;
            &&& all.len() == a.len() + b.len() + c.len() + d.len()
            &&& all.subrange(0, la) == a
            &&& all.subrange(la, la + lb) == b
            &&& all.subrange(la + lb, la + lb + lc) == c
            &&& all.subrange(la + lb + lc, all.len() as int) == d
        }),
{
    let all = a + b + c + d;
    let la = a.len() as int;
    let lb = b.len() as int;
    let lc = c.len() as int;
    assert(all.subrange(0, la) =~= a);
    assert(all.subrange(la, la + lb) =~= b);
    assert(all.subrange(la + lb, la + lb + lc) =~= c);
    assert(all.subrange(la + lb + lc, all.len() as int) =~= d);
}

/// A range of a sequence that lies within a prefix of it is that range of
/// the prefix.
pub proof fn lemma_subrange_of_prefix(s: Seq<u8>, prefix: Seq<u8>, from: int, to: int)
    requires
        prefix.len() <= s.len(),
        s.subrange(0, prefix.len() as int) == prefix,
        0 <= from <= to <= prefix.len(),
    ensures
        s.subrange(from, to) == prefix.subrange(from, to),
{
    assert forall|k: int| 0 <= k < to - from implies s.subrange(from, to)[k] == prefix.subrange(
        from,
        to,
    )[k] by {
        assert(s.subrange(0, prefix.len() as int)[from + k] == s[from + k]);
    }
    assert(s.subrange(from, to) =~= prefix.subrange(from, to));
}

/// A range of the second of two joined sequences lies in the whole behind
/// the first.
pub proof fn lemma_subrange_after(first: Seq<u8>, second: Seq<u8>, from: int, to: int)
    requires
        0 <= from <= to <= second.len(),
    ensures
        (first + second).subrange(first.len() + from, first.len() + to) == second.subrange(from, to),
{
    assert((first + second).subrange(first.len() + from, first.len() + to) =~= second.subrange(
        from,
        to,
    ));
}

} // verus!
