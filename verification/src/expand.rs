//! Channel expander: widens a buffer of narrow pixels (gray at 1 sample,
//! gray+alpha at 2 samples per pixel, each sample 1 or 2 bytes) into the
//! canonical 4-channel RGBA layout, in place within one buffer.  The pixels
//! are rewritten from the last to the first: the wide form is larger, so
//! writing low indices first would clobber narrow data not yet read.
use vstd::prelude::*;
use vstd::arithmetic::div_mod::{
    lemma_fundamental_div_mod, lemma_fundamental_div_mod_converse_div,
    lemma_fundamental_div_mod_converse_mod,
};

verus! {

/// Byte `j` of the expanded form of `s`, where `s` holds pixels of `ch`
/// channels (1 = gray, 2 = gray+alpha, 4 = RGBA) at `bps` bytes per sample.
/// Gray is replicated into R, G and B; alpha comes from the source alpha
/// sample when there is one and is fully opaque otherwise.
pub open spec fn expanded_byte(s: Seq<u8>, ch: int, bps: int, j: int) -> u8 {
    let p = j / (4 * bps);
    let r = j % (4 * bps);
    let c = r / bps;
    let b = r % bps;
    if c < 3 {
        if ch <= 2 {
            s[p * ch * bps + b]
        } else {
            s[p * ch * bps + c * bps + b]
        }
    } else {
        if ch == 2 || ch == 4 {
            s[p * ch * bps + (ch - 1) * bps + b]
        } else {
            255
        }
    }
}

/// The 4-channel form of `s`: one RGBA pixel of `4 * bps` bytes for each
/// narrow pixel of `ch * bps` bytes.
pub open spec fn expanded(s: Seq<u8>, ch: int, bps: int) -> Seq<u8> {
    Seq::new((4 * bps * (s.len() as int / (ch * bps))) as nat, |j: int| expanded_byte(s, ch, bps, j))
}

/// Where byte `p * 4 * bps + c * bps + b` of the expanded form comes from:
/// channel `c` of pixel `p` reads the gray (or same-channel) sample of the
/// narrow pixel `p`, and channel 3 reads its alpha sample or is opaque.
proof fn lemma_expanded_byte_at(s: Seq<u8>, ch: int, bps: int, p: int, c: int, b: int)
    requires
        ch == 1 || ch == 2 || ch == 4,
        bps == 1 || bps == 2,
        0 <= b < bps,
        0 <= c < 4,
        0 <= p < s.len() as int / (ch * bps),
    ensures
        expanded(s, ch, bps)[p * (4 * bps) + c * bps + b] == if c < 3 {
            if ch <= 2 {
                s[p * ch * bps + b]
            } else {
                s[p * ch * bps + c * bps + b]
            }
        } else {
            if ch == 2 || ch == 4 {
                s[p * ch * bps + (ch - 1) * bps + b]
            } else {
                255u8
            }
        },
{
    let r = c * bps + b;
    let j = p * (4 * bps) + r;
    assert(0 <= r < 4 * bps);
    assert(j < 4 * bps * (s.len() as int / (ch * bps))) by (nonlinear_arith)
        requires
            0 <= r < 4 * bps,
            j == p * (4 * bps) + r,
            0 <= p < s.len() as int / (ch * bps),
    ;
    lemma_fundamental_div_mod_converse_div(j, 4 * bps, p, r);
    lemma_fundamental_div_mod_converse_mod(j, 4 * bps, p, r);
    lemma_fundamental_div_mod_converse_div(r, bps, c, b);
    lemma_fundamental_div_mod_converse_mod(r, bps, c, b);
    assert(expanded(s, ch, bps)[j] == expanded_byte(s, ch, bps, j));
}

/// Expanding a buffer that is already 4-channel RGBA changes nothing: the
/// channel expander is the identity on canonical buffers.
pub proof fn lemma_expand_identity(s: Seq<u8>, bps: int)
    requires
        bps == 1 || bps == 2,
        s.len() as int % (4 * bps) == 0,
    ensures
        expanded(s, 4, bps) == s,
{
    let w = 4 * bps;
    lemma_fundamental_div_mod(s.len() as int, w);
    assert(expanded(s, 4, bps).len() == s.len());
    assert forall|j: int| 0 <= j < s.len() implies expanded(s, 4, bps)[j] == s[j] by {
        let p = j / w;
        let r = j % w;
        let c = r / bps;
        let b = r % bps;
        lemma_fundamental_div_mod(j, w);
        lemma_fundamental_div_mod(r, bps);
        assert(0 <= r < w);
        assert(0 <= b < bps);
        assert(0 <= c < 4) by (nonlinear_arith)
            requires r == c * bps + b, 0 <= r < 4 * bps, 0 <= b < bps, bps == 1 || bps == 2,
        ;
        assert(p * 4 * bps + c * bps + b == j) by (nonlinear_arith)
            requires j == p * w + r, r == c * bps + b, w == 4 * bps,
        ;
    }
    assert(expanded(s, 4, bps) =~= s);
}

/// Rewrite `data`, holding `channels`-channel pixels at `bps` bytes per
/// sample, as 4-channel RGBA pixels in place.  The buffer grows to four
/// channels; pixels are visited from the last to the first so that no narrow
/// pixel is overwritten before it has been read.
#[verifier::rlimit(100)]
#[verifier::spinoff_prover]
pub fn expand_to_rgba(data: &mut Vec<u8>, channels: usize, bps: usize)
    requires
        channels == 1 || channels == 2 || channels == 4,
        bps == 1 || bps == 2,
        old(data)@.len() as int % (channels * bps) as int == 0,
        (old(data)@.len() as int / (channels * bps) as int) * 4 * bps <= usize::MAX,
    ensures
        final(data)@ == expanded(old(data)@, channels as int, bps as int),
{
    let ghost s = old(data)@;
    let stride_n: usize = channels * bps;
    let stride_w: usize = 4 * bps;
    let n: usize = data.len() / stride_n;
    proof {
        let che = channels as int;
        let be = bps as int;
        let sn = stride_n as int;
        let sw = stride_w as int;
        assert(sn == che * be && sw == 4 * be && sn == (channels * bps) as int);
        lemma_fundamental_div_mod(s.len() as int, sn);
        assert(s.len() as int == sn * (n as int));
        assert(s.len() == n * stride_n) by (nonlinear_arith)
            requires
                s.len() as int == sn * (n as int),
                sn == stride_n,
        ;
        assert(expanded(s, che, be).len() == (4 * be * (s.len() as int / (che * be))) as nat);
        assert(s.len() as int / (che * be) == n);
        assert(4 * be * (n as int) == n * stride_w) by (nonlinear_arith)
            requires
                sw == 4 * be,
                sw == stride_w,
        ;
        assert(expanded(s, che, be).len() == n * stride_w);
    }
    if channels == 4 {
        proof {
            lemma_expand_identity(s, bps as int);
        }
        return;
    }
    assert(n * stride_w <= usize::MAX && n * stride_n <= n * stride_w) by (nonlinear_arith)
        requires
            (s.len() as int / (stride_n as int)) * 4 * bps <= usize::MAX,
            n == s.len() as int / (stride_n as int),
            stride_w == 4 * bps,
            stride_n <= stride_w,
            n >= 0,
    ;
    let target: usize = n * stride_w;
    data.resize(target, 0);
    assert forall|j: int| 0 <= j < s.len() implies data@[j] == s[j] by {
        assert(data@.subrange(0, s.len() as int)[j] == s[j]);
    }
    let mut i: usize = n;
    while i > 0
        invariant
            i <= n,
            channels == 1 || channels == 2,
            bps == 1 || bps == 2,
            stride_n == channels * bps,
            stride_w == 4 * bps,
            s.len() == n * stride_n,
            data@.len() == n * stride_w,
            n * stride_w <= usize::MAX,
            forall|j: int| 0 <= j < i * stride_n ==> data@[j] == s[j],
            forall|j: int|
                i * stride_w <= j < n * stride_w ==> data@[j] == expanded(
                    s,
                    channels as int,
                    bps as int,
                )[j],
        decreases i,
    {
        i = i - 1;
        assert((i + 1) * stride_n <= n * stride_n && (i + 1) * stride_w <= n * stride_w
            && i * stride_n <= i * stride_w && i * stride_n <= n * stride_n && i * stride_w <= n
            * stride_w && stride_n * i + stride_n == (i + 1) * stride_n && stride_w * i + stride_w
            == (i + 1) * stride_w) by (nonlinear_arith)
            requires
                i < n,
                0 < stride_n <= stride_w,
        ;
        let base_n: usize = i * stride_n;
        let base_w: usize = i * stride_w;
        assert(base_n + stride_n <= base_w + stride_w && base_w + stride_w <= data@.len());
        let g0 = data[base_n];
        let g1 = if bps == 2 { data[base_n + 1] } else { 0 };
        let a0 = if channels == 2 { data[base_n + bps] } else { 255 };
        let a1 = if channels == 2 && bps == 2 { data[base_n + bps + 1] } else { 255 };
        data.set(base_w, g0);
        data.set(base_w + bps, g0);
        data.set(base_w + 2 * bps, g0);
        data.set(base_w + 3 * bps, a0);
        if bps == 2 {
            data.set(base_w + 1, g1);
            data.set(base_w + bps + 1, g1);
            data.set(base_w + 2 * bps + 1, g1);
            data.set(base_w + 3 * bps + 1, a1);
        }
        proof {
            let che = channels as int;
            let be = bps as int;
            lemma_fundamental_div_mod_converse_div(s.len() as int, stride_n as int, n as int, 0);
            assert forall|j: int|
                i * stride_w <= j < n * stride_w implies data@[j] == expanded(s, che, be)[j] by {
                if j < (i + 1) * stride_w {
                    let r = j - i * stride_w;
                    let c = r / be;
                    let b = r % be;
                    lemma_fundamental_div_mod(r, be);
                    assert(c * be == be * c) by (nonlinear_arith);
                    assert(0 <= c < 4 && 0 <= b < be) by (nonlinear_arith)
                        requires r == c * be + b, 0 <= r < 4 * be, 0 <= b < be, be >= 1,
                    ;
                    lemma_expanded_byte_at(s, che, be, i as int, c, b);
                    assert(j == i * stride_w + c * be + b);
                }
            }
        }
    }
    assert(data@ =~= expanded(s, channels as int, bps as int));
}

} // verus!
