//! Text helpers for the fixed-width display registers: centering text in a
//! field, and rendering small numbers in decimal.

use vstd::prelude::*;

verus! {

use vstd::string::StringSliceAdditionalSpecFns;

/// `count` copies of `pad`.
pub open spec fn pad_seq(pad: u8, count: int) -> Seq<u8> {
    Seq::new(count as nat, |i: int| pad)
}

/// `s` centered in a field of `width` bytes: truncated to `width` when too
/// long, otherwise padded with `pad` on both sides, the right side taking
/// the odd byte.
pub open spec fn center_pad_spec(s: Seq<u8>, pad: u8, width: int) -> Seq<u8> {
    if s.len() >= width {
        s.subrange(0, width)
    } else {
        let l = (width - s.len()) / 2;
        pad_seq(pad, l) + s + pad_seq(pad, width - s.len() - l)
    }
}

/// The centered text always fills the field exactly.
pub proof fn lemma_center_pad_len(s: Seq<u8>, pad: u8, width: int)
    requires
        width >= 0,
    ensures
        center_pad_spec(s, pad, width).len() == width,
{
}

pub(crate) fn push_repeat(out: &mut Vec<u8>, pad: u8, count: usize)
    ensures
        final(out)@ == old(out)@ + pad_seq(pad, count as int),
{
    let mut i: usize = 0;
    while i < count
        invariant
            i <= count,
            out@ == old(out)@ + pad_seq(pad, i as int),
        decreases count - i,
    {
        out.push(pad);
        proof {
            assert(out@ =~= old(out)@ + pad_seq(pad, i + 1));
        }
        i += 1;
    }
    proof {
        assert(out@ =~= old(out)@ + pad_seq(pad, count as int));
    }
}

pub(crate) fn push_slice_range(out: &mut Vec<u8>, s: &[u8], from: usize, to: usize)
    requires
        from <= to <= s@.len(),
    ensures
        final(out)@ == old(out)@ + s@.subrange(from as int, to as int),
{
    let mut i: usize = from;
    while i < to
        invariant
            from <= i <= to <= s@.len(),
            out@ == old(out)@ + s@.subrange(from as int, i as int),
        decreases to - i,
    {
        out.push(s[i]);
        proof {
            assert(out@ =~= old(out)@ + s@.subrange(from as int, i + 1));
        }
        i += 1;
    }
}

/// Centers the raw bytes of `s` in a field of `width` bytes, padding with
/// `pad_char`; text longer than the field is cut at the field's end.
pub fn center_pad(s: &str, pad_char: u8, width: usize) -> (r: Vec<u8>)
    ensures
        r@ == center_pad_spec(s.spec_bytes(), pad_char, width as int),
        r@.len() == width,
{
    center_pad_bytes(s.as_bytes(), pad_char, width)
}

/// Centers `bytes` in a field of `width` bytes, padding with `pad_char`.
pub fn center_pad_bytes(bytes: &[u8], pad_char: u8, width: usize) -> (r: Vec<u8>)
    ensures
        r@ == center_pad_spec(bytes@, pad_char, width as int),
        r@.len() == width,
{
    let mut r: Vec<u8> = Vec::new();
    if bytes.len() >= width {
        push_slice_range(&mut r, bytes, 0, width);
    } else {
        let l = (width - bytes.len()) / 2;
        let rest = width - bytes.len() - l;
        push_repeat(&mut r, pad_char, l);
        push_slice_range(&mut r, bytes, 0, bytes.len());
        push_repeat(&mut r, pad_char, rest);
        proof {
            assert(bytes@.subrange(0, bytes@.len() as int) =~= bytes@);
            assert(r@ =~= center_pad_spec(bytes@, pad_char, width as int));
        }
    }
    r
}

/// `s` left-justified in a field of `width` bytes: truncated to `width`
/// when too long, otherwise padded with `pad` on the right.
pub open spec fn left_pad_spec(s: Seq<u8>, pad: u8, width: int) -> Seq<u8> {
    if s.len() >= width {
        s.subrange(0, width)
    } else {
        s + pad_seq(pad, width - s.len())
    }
}

/// The left-justified text always fills the field exactly.
pub proof fn lemma_left_pad_len(s: Seq<u8>, pad: u8, width: int)
    requires
        width >= 0,
    ensures
        left_pad_spec(s, pad, width).len() == width,
{
}

/// Left-justifies `s` in a field of `width` bytes, padding with `pad_char`;
/// text longer than the field is cut at the field's end.
pub fn left_pad(s: &Vec<u8>, pad_char: u8, width: usize) -> (r: Vec<u8>)
    ensures
        r@ == left_pad_spec(s@, pad_char, width as int),
        r@.len() == width,
{
    let mut r: Vec<u8> = Vec::new();
    if s.len() >= width {
        push_slice_range(&mut r, s.as_slice(), 0, width);
    } else {
        push_slice_range(&mut r, s.as_slice(), 0, s.len());
        push_repeat(&mut r, pad_char, width - s.len());
        proof {
            assert(s@.subrange(0, s@.len() as int) =~= s@);
        }
    }
    r
}

/// The decimal digits of `n`, most significant first, no sign and no
/// leading zero except for `n == 0` itself.
pub open spec fn dec_u64(n: u64) -> Seq<u8>
    decreases n,
{
    if n < 10 {
        seq![(0x30 + n) as u8]
    } else {
        dec_u64((n / 10) as u64) + seq![(0x30 + n % 10) as u8]
    }
}

/// The decimal digits of `n`, zero-padded on the left to at least two.
pub open spec fn dec2_u64(n: u64) -> Seq<u8> {
    if n < 10 {
        seq![0x30u8] + dec_u64(n)
    } else {
        dec_u64(n)
    }
}

/// Appends the decimal digits of `n` to `out`.
pub fn push_dec_u64(out: &mut Vec<u8>, n: u64)
    ensures
        final(out)@ == old(out)@ + dec_u64(n),
    decreases n,
{
    if n < 10 {
        out.push(0x30 + n as u8);
        proof {
            assert(out@ =~= old(out)@ + dec_u64(n));
        }
    } else {
        push_dec_u64(out, n / 10);
        out.push(0x30 + (n % 10) as u8);
        proof {
            assert(out@ =~= old(out)@ + dec_u64(n));
        }
    }
}

/// Appends the decimal digits of `n`, zero-padded to at least two.
pub fn push_dec2_u64(out: &mut Vec<u8>, n: u64)
    ensures
        final(out)@ == old(out)@ + dec2_u64(n),
{
    if n < 10 {
        out.push(0x30);
    }
    push_dec_u64(out, n);
    proof {
        assert(out@ =~= old(out)@ + dec2_u64(n));
    }
}

/// Two digits render two bytes.
pub proof fn lemma_dec2_len(n: u64)
    requires
        n < 100,
    ensures
        dec2_u64(n).len() == 2,
{
    if n >= 10 {
        assert(dec_u64(n) == dec_u64((n / 10) as u64) + seq![(0x30 + n % 10) as u8]);
    }
}

/// A decimal rendering never exceeds twenty digits.
pub proof fn lemma_dec_len(n: u64)
    ensures
        1 <= dec_u64(n).len() <= 20,
{
    assert(pow10(20) == 0x56bc75e2d63100000) by {
        reveal_with_fuel(pow10, 21);
    }
    lemma_dec_len_lt(n, 20);
}

proof fn lemma_dec_len_lt(n: u64, k: int)
    requires
        k >= 1,
        n < pow10(k),
    ensures
        1 <= dec_u64(n).len() <= k,
    decreases n,
{
    if n >= 10 {
        assert(pow10(k) == 10 * pow10(k - 1));
        assert(k >= 2 && pow10(k - 1) >= 1) by {
            lemma_pow10_pos(k - 1);
            if k == 1 {
                assert(pow10(1) == 10);
            }
        }
        assert(n / 10 < pow10(k - 1)) by (nonlinear_arith)
            requires
                n < 10 * pow10(k - 1),
                pow10(k - 1) >= 1,
                n >= 10,
        ;
        lemma_dec_len_lt(n / 10, k - 1);
    }
}

proof fn lemma_pow10_pos(k: int)
    ensures
        pow10(k) >= 1,
    decreases (if k <= 0 { 0int } else { k }),
{
    if k > 0 {
        lemma_pow10_pos(k - 1);
    }
}

/// Ten to the `k`.
pub open spec fn pow10(k: int) -> int
    decreases (if k <= 0 { 0int } else { k }),
{
    if k <= 0 {
        1
    } else {
        10 * pow10(k - 1)
    }
}

} // verus!
