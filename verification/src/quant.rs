//! Quantize stage: the external quantizer reduces an RGBA buffer to a
//! palette and one palette index per pixel; this module validates the
//! configuration the engine will see and rewrites the caller's buffer in
//! place by mapping every index back to its palette color.  The engine
//! itself is an external collaborator driven by the host boundary; its
//! output is handed to [`apply_palette`] as plain values and everything
//! from there on is verified for every palette and index array.
use vstd::prelude::*;
use vstd::seq_lib::*;
use vstd::set_lib::lemma_len_subset;

verus! {

/// One RGBA color, one byte per channel.
#[derive(Clone, Copy, Debug, PartialEq, Eq, Structural)]
pub struct Rgba {
    pub r: u8,
    pub g: u8,
    pub b: u8,
    pub a: u8,
}

/// The four bytes of a color in buffer order.
pub open spec fn rgba_bytes(p: Rgba) -> Seq<u8> {
    seq![p.r, p.g, p.b, p.a]
}

/// Configuration for the quantize stage, validated against the ranges the
/// external engine accepts.  `dithering` is the remap dithering strength in
/// hundredths of the engine's 0.0..=1.0 scale, so 0 is none and 100 is full.
#[derive(Clone, Copy, Debug, PartialEq, Eq, Structural)]
pub struct QuantizeOptions {
    pub quality: u8,
    pub speed: i32,
    pub colors: u32,
    pub dithering: u8,
}

/// The ranges the external quantizer validates before it runs: search speed
/// 1..=10, target quality at most 100, palette size 2..=256, and a dithering
/// strength within the unit scale.
pub open spec fn quantize_options_valid(o: QuantizeOptions) -> bool {
    &&& 1 <= o.speed <= 10
    &&& o.quality <= 100
    &&& 2 <= o.colors <= 256
    &&& o.dithering <= 100
}

/// Decide whether `o` is within every range the external quantizer accepts;
/// a configuration rejected here would be rejected by the engine itself.
pub fn check_quantize_options(o: &QuantizeOptions) -> (r: bool)
    ensures
        r == quantize_options_valid(*o),
{
    1 <= o.speed && o.speed <= 10 && o.quality <= 100 && 2 <= o.colors && o.colors <= 256
        && o.dithering <= 100
}

/// Overwrite pixel `i` of `data` with `palette[indices[i]]`, for every `i`:
/// the in-place, same-length remap that turns the quantizer's palette and
/// index array back into a flat RGBA buffer.
pub fn apply_palette(data: &mut Vec<u8>, palette: &Vec<Rgba>, indices: &Vec<u8>)
    requires
        old(data)@.len() == 4 * indices@.len(),
        forall|i: int| 0 <= i < indices@.len() ==> (indices@[i] as int) < palette@.len(),
    ensures
        final(data)@.len() == old(data)@.len(),
        forall|j: int|
            0 <= j < final(data)@.len() ==> final(data)@[j] == rgba_bytes(
                palette@[indices@[j / 4] as int],
            )[j % 4],
        forall|i: int|
            0 <= i < indices@.len() ==> final(data)@.subrange(4 * i, 4 * i + 4) == rgba_bytes(
                palette@[indices@[i] as int],
            ),
{
    let m: usize = indices.len();
    let _total: usize = data.len();
    let mut i: usize = 0;
    while i < m
        invariant
            i <= m,
            4 * m <= usize::MAX,
            data@.len() == 4 * m,
            m == indices@.len(),
            forall|k: int| 0 <= k < m ==> (indices@[k] as int) < palette@.len(),
            forall|j: int|
                0 <= j < 4 * i ==> data@[j] == rgba_bytes(palette@[indices@[j / 4] as int])[j % 4],
        decreases m - i,
    {
        let idx: usize = indices[i] as usize;
        let p = *vstd::slice::slice_index_get(palette.as_slice(), idx);
        data.set(4 * i, p.r);
        data.set(4 * i + 1, p.g);
        data.set(4 * i + 2, p.b);
        data.set(4 * i + 3, p.a);
        proof {
            assert forall|j: int| 0 <= j < 4 * (i + 1) implies data@[j] == rgba_bytes(
                palette@[indices@[j / 4] as int],
            )[j % 4] by {
                if 4 * i <= j {
                    assert(j / 4 == i && j % 4 == j - 4 * i);
                }
            }
        }
        i = i + 1;
    }
    assert forall|k: int| 0 <= k < m implies data@.subrange(4 * k, 4 * k + 4) == rgba_bytes(
        palette@[indices@[k] as int],
    ) by {
        assert forall|b: int| 0 <= b < 4 implies data@.subrange(4 * k, 4 * k + 4)[b] == rgba_bytes(
            palette@[indices@[k] as int],
        )[b] by {
            assert((4 * k + b) / 4 == k && (4 * k + b) % 4 == b);
        }
        assert(data@.subrange(4 * k, 4 * k + 4) =~= rgba_bytes(palette@[indices@[k] as int]));
    }
}

/// Remap determinism: the rewrite [`apply_palette`] performs is a function
/// of the palette and the index array alone, so two buffers remapped from
/// the same quantization result are byte-identical, whatever they held
/// before.  (Whether the engine hands back the same palette and indices for
/// the same input is the engine's own promise, made when no dithering is
/// requested.)
pub proof fn lemma_remap_deterministic(a: Seq<u8>, b: Seq<u8>, palette: Seq<Rgba>, indices: Seq<u8>)
    requires
        a.len() == 4 * indices.len(),
        b.len() == 4 * indices.len(),
        forall|j: int|
            0 <= j < a.len() ==> a[j] == rgba_bytes(palette[indices[j / 4] as int])[j % 4],
        forall|j: int|
            0 <= j < b.len() ==> b[j] == rgba_bytes(palette[indices[j / 4] as int])[j % 4],
    ensures
        a == b,
{
    assert forall|j: int| 0 <= j < a.len() implies a[j] == b[j] by {
        assert(a[j] == rgba_bytes(palette[indices[j / 4] as int])[j % 4]);
        assert(b[j] == rgba_bytes(palette[indices[j / 4] as int])[j % 4]);
    }
    assert(a =~= b);
}

/// The four bytes of pixel `i` of a flat RGBA buffer.
pub open spec fn pixel_seq(data: Seq<u8>, i: int) -> Seq<u8> {
    data.subrange(4 * i, 4 * i + 4)
}

/// The set of distinct pixel colors that appear in a flat RGBA buffer.
pub open spec fn distinct_pixels(data: Seq<u8>) -> Set<Seq<u8>> {
    Seq::new((data.len() / 4) as nat, |i: int| pixel_seq(data, i)).to_set()
}

/// Palette bound: a buffer whose every pixel was taken from `palette`, as
/// [`apply_palette`] ensures, holds at most `palette.len()` distinct colors.
pub proof fn lemma_palette_bound(data: Seq<u8>, palette: Seq<Rgba>, indices: Seq<u8>)
    requires
        data.len() == 4 * indices.len(),
        forall|i: int| 0 <= i < indices.len() ==> (indices[i] as int) < palette.len(),
        forall|i: int|
            0 <= i < indices.len() ==> data.subrange(4 * i, 4 * i + 4) == rgba_bytes(
                palette[indices[i] as int],
            ),
    ensures
        distinct_pixels(data).finite(),
        distinct_pixels(data).len() <= palette.len(),
{
    broadcast use seq_to_set_is_finite;

    let n = indices.len() as int;
    let pix = Seq::new((data.len() / 4) as nat, |i: int| pixel_seq(data, i));
    let pal = palette.map_values(|p: Rgba| rgba_bytes(p));
    assert(pix.len() == n);
    assert forall|q: Seq<u8>| pix.to_set().contains(q) implies pal.to_set().contains(q) by {
        let i = choose|i: int| 0 <= i < pix.len() && pix[i] == q;
        assert(q == rgba_bytes(palette[indices[i] as int]));
        assert(pal[indices[i] as int] == q);
        assert(pal.to_set().contains(pal[indices[i] as int]));
    }
    pal.lemma_cardinality_of_set();
    lemma_len_subset(pix.to_set(), pal.to_set());
}

} // verus!
