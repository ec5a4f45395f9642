//! Encode stage: hands a canonical RGBA buffer to the external lossless
//! encoder.  The stage validates the bit depth and the buffer geometry,
//! corrects 16-bit samples to the container's big-endian convention, and
//! builds the engine configuration; the compression itself is the engine's
//! own work, named in the contracts since it is a function of its inputs.
use vstd::prelude::*;
use vstd::arithmetic::div_mod::lemma_fundamental_div_mod;
use vstd::arithmetic::div_mod::lemma_mod_multiples_basic;
use crate::decode::png_bit_depth;
use crate::decode::png_decodable;
use crate::decode::png_height;
use crate::decode::png_width;
use crate::decode::rgba_canonical;
use crate::endian::lemma_swapped_involution;
use crate::endian::swap_endian;
use crate::endian::swapped;
use crate::PipelineError;

verus! {

/// Configuration for the encode stage: `level` is the discrete compression
/// effort preset (0..=6; the engine treats anything higher as 6),
/// `interlace` selects progressive Adam7 scan order, `bit_depth` must be 8
/// or 16 bits per channel (anything else is rejected as a contract
/// violation), and `quantize` asks the composed pipeline to run the
/// quantize stage first.
#[derive(Clone, Copy, Debug, PartialEq, Eq, Structural)]
pub struct EncodeOptions {
    pub quantize: bool,
    pub level: u8,
    pub interlace: bool,
    pub bit_depth: u8,
}

#[verifier::external_type_specification]
#[verifier::external_body]
pub struct ExPngError(oxipng::PngError);

/// The compressed PNG stream the external encoder produces for a raw RGBA
/// buffer (in container byte order) and a configuration: the engine is
/// deterministic, so the stream is a function of these arguments alone.
pub uninterp spec fn optimized_png_of(
    pixels: Seq<u8>,
    width: u32,
    height: u32,
    level: u8,
    interlace: bool,
    sixteen: bool,
) -> Seq<u8>;

/// Whether the external encoder succeeds on a raw RGBA buffer (in container
/// byte order) and a configuration; like its output, a function of the
/// arguments alone.
pub uninterp spec fn encode_ok(
    pixels: Seq<u8>,
    width: u32,
    height: u32,
    level: u8,
    interlace: bool,
    sixteen: bool,
) -> bool;

/// Every pixel of a flat RGBA buffer at `bps` bytes per sample has a
/// nonzero alpha sample (some byte of the sample is nonzero, whichever byte
/// order the sample is in).  The encoder's always-on alpha optimization may
/// rewrite only the color channels of fully transparent pixels, so this is
/// the condition under which it rewrites nothing.
pub open spec fn all_alpha_nonzero(s: Seq<u8>, bps: int) -> bool {
    forall|p: int|
        0 <= p < s.len() as int / (4 * bps) ==> (#[trigger] s[p * (4 * bps) + 3 * bps] != 0 || s[p * (4
            * bps) + 4 * bps - 1] != 0)
}

/// Some 16-bit sample of the buffer has two unequal bytes, so the buffer
/// cannot be stored losslessly at 8 bits and the encoder keeps depth 16.
pub open spec fn some_sample_unequal(s: Seq<u8>) -> bool {
    exists|i: int| 0 <= i < s.len() as int / 2 && #[trigger] s[2 * i] != s[2 * i + 1]
}

/// A buffer's alpha samples stay nonzero when every 16-bit sample is
/// byte-swapped: the swap permutes bytes within each sample.
proof fn lemma_alpha_nonzero_swapped(s: Seq<u8>)
    requires
        s.len() % 8 == 0,
        all_alpha_nonzero(s, 2),
    ensures
        all_alpha_nonzero(swapped(s), 2),
{
    let t = swapped(s);
    lemma_fundamental_div_mod(s.len() as int, 8);
    assert forall|p: int| 0 <= p < t.len() / (4 * 2) implies (#[trigger] t[p * (4 * 2) + 3 * 2]
        != 0 || t[p * (4 * 2) + 4 * 2 - 1] != 0) by {
        assert(s[p * (4 * 2) + 3 * 2] != 0 || s[p * (4 * 2) + 4 * 2 - 1] != 0);
        assert(t[p * (4 * 2) + 3 * 2] == s[p * (4 * 2) + 4 * 2 - 1]);
        assert(t[p * (4 * 2) + 4 * 2 - 1] == s[p * (4 * 2) + 3 * 2]);
    }
}

/// A buffer keeps an unequal-byte 16-bit sample when every sample is
/// byte-swapped: the same sample still has two unequal bytes.
proof fn lemma_sample_unequal_swapped(s: Seq<u8>)
    requires
        s.len() % 2 == 0,
        some_sample_unequal(s),
    ensures
        some_sample_unequal(swapped(s)),
{
    lemma_fundamental_div_mod(s.len() as int, 2);
    let i = choose|i: int| 0 <= i < s.len() as int / 2 && #[trigger] s[2 * i] != s[2 * i + 1];
    assert(swapped(s)[2 * i] == s[2 * i + 1]);
    assert(swapped(s)[2 * i + 1] == s[2 * i]);
    assert(swapped(s)[2 * i] != swapped(s)[2 * i + 1]);
}

/// Relies on oxipng: Options::from_preset (total, levels above 6 act as 6;
/// alpha optimization always enabled, interlacing Adam7 or none, no
/// timeout), RawImage::new (for RGBA at depth 8 or 16 its only validation
/// is the exact length required here, so under this precondition it cannot
/// fail), and RawImage::create_optimized_png.  The engine runs single
/// threaded with no clock or randomness, so success and output are named
/// functions of the arguments.  Its output is a PNG stream recording the
/// given dimensions; such a stream (nonzero dimensions, one output row
/// within the decoder's default allocation budget) decodes, and it decodes
/// losslessly: the pixel values come back exactly, except that the color
/// channels under fully transparent pixels may be rewritten and that a
/// 16-bit image whose every sample has two equal bytes may be stored at 8
/// bits, hence the two guards.
#[verifier::external_body]
fn encode_with_engine(
    data: Vec<u8>,
    width: u32,
    height: u32,
    level: u8,
    interlace: bool,
    sixteen: bool,
) -> (r: Result<Vec<u8>, oxipng::PngError>)
    requires
        data@.len() == width as int * height as int * 4 * (if sixteen {
            2int
        } else {
            1int
        }),
    ensures
        r is Ok <==> encode_ok(data@, width, height, level, interlace, sixteen),
        r matches Ok(s) ==> {
            &&& s@ == optimized_png_of(data@, width, height, level, interlace, sixteen)
            &&& png_width(s@) == width
            &&& png_height(s@) == height
            &&& (1 <= width <= 0x40_0000 && 1 <= height ==> png_decodable(s@))
            &&& (all_alpha_nonzero(data@, if sixteen { 2int } else { 1int }) && (sixteen
                ==> some_sample_unequal(data@)) && png_decodable(s@) ==> png_bit_depth(s@) == (
            if sixteen {
                16u8
            } else {
                8u8
            }) && rgba_canonical(s@) == (if sixteen {
                swapped(data@)
            } else {
                data@
            }))
        },
{
    let mut opts = oxipng::Options::from_preset(level);
    opts.optimize_alpha = true;
    opts.interlace = Some(interlace);
    let depth = if sixteen {
        oxipng::BitDepth::Sixteen
    } else {
        oxipng::BitDepth::Eight
    };
    let raw = oxipng::RawImage::new(width, height, oxipng::ColorType::RGBA, depth, data)?;
    raw.create_optimized_png(&opts)
}

/// Whether an encode configuration carries one of the two bit depths the
/// pipeline supports.
pub open spec fn valid_bit_depth(options: EncodeOptions) -> bool {
    options.bit_depth == 8 || options.bit_depth == 16
}

/// Bytes per channel of an encode configuration: 1 at bit depth 8, 2 at bit
/// depth 16 (meaningful only for a valid bit depth).
pub open spec fn bytes_per_channel(options: EncodeOptions) -> int {
    if options.bit_depth == 8 {
        1
    } else {
        2
    }
}

/// The exact byte length a `width` by `height` 4-channel buffer must have
/// under an encode configuration.
pub open spec fn encode_input_len(width: u32, height: u32, options: EncodeOptions) -> int {
    width as int * height as int * 4 * bytes_per_channel(options)
}

/// The bytes the compressed container stores for a canonical buffer: 16-bit
/// samples are byte-swapped to the container's big-endian convention, 8-bit
/// buffers are stored as they are.
pub open spec fn container_bytes(data: Seq<u8>, options: EncodeOptions) -> Seq<u8> {
    if options.bit_depth == 16 {
        swapped(data)
    } else {
        data
    }
}

/// Encode stage: pack `data`, a `width` by `height` RGBA buffer at the
/// configured bit depth, into an optimized PNG stream.  A bit depth other
/// than 8 or 16, or a buffer whose length does not match the geometry, is a
/// contract violation and is rejected, never clamped, truncated or padded.
/// On success the stream is the engine's named output for the container
/// bytes; it records the given dimensions, a reasonably sized one decodes,
/// and it decodes back to `data` itself wherever no pixel is fully
/// transparent and (at depth 16) some sample has two unequal bytes.
pub fn png_encode(data: Vec<u8>, width: u32, height: u32, options: EncodeOptions) -> (r: Result<
    Vec<u8>,
    PipelineError,
>)
    ensures
        r == Err::<Vec<u8>, PipelineError>(PipelineError::Geometry) <==> !(valid_bit_depth(options)
            && data@.len() == encode_input_len(width, height, options)),
        valid_bit_depth(options) && data@.len() == encode_input_len(width, height, options) ==> (
        r is Ok <==> encode_ok(
            container_bytes(data@, options),
            width,
            height,
            options.level,
            options.interlace,
            options.bit_depth == 16,
        )),
        r matches Ok(s) ==> {
            &&& s@ == optimized_png_of(
                container_bytes(data@, options),
                width,
                height,
                options.level,
                options.interlace,
                options.bit_depth == 16,
            )
            &&& png_width(s@) == width
            &&& png_height(s@) == height
            &&& (1 <= width <= 0x40_0000 && 1 <= height ==> png_decodable(s@))
            &&& (all_alpha_nonzero(data@, bytes_per_channel(options)) && (options.bit_depth == 16
                ==> some_sample_unequal(data@)) && png_decodable(s@) ==> png_bit_depth(s@)
                == options.bit_depth && rgba_canonical(s@) == data@)
        },
{
    let mut buf = data;
    let ghost input = buf@;
    if options.bit_depth != 8 && options.bit_depth != 16 {
        return Err(PipelineError::Geometry);
    }
    let sixteen = options.bit_depth == 16;
    let bpc: u128 = if sixteen { 2 } else { 1 };
    proof {
        assert(width as int * height as int * 4 * (bpc as int) <= u128::MAX) by (nonlinear_arith)
            requires
                (width as int) < 0x1_0000_0000,
                (height as int) < 0x1_0000_0000,
                0 <= bpc as int <= 2,
        ;
    }
    let expected: u128 = width as u128 * height as u128 * 4 * bpc;
    if buf.len() as u128 != expected {
        return Err(PipelineError::Geometry);
    }
    assert(buf@.len() == encode_input_len(width, height, options));
    if sixteen {
        proof {
            lemma_mod_multiples_basic(width as int * height as int * 4, 2);
        }
        swap_endian(&mut buf);
        assert(buf@ == container_bytes(input, options));
    }
    let encoded = encode_with_engine(buf, width, height, options.level, options.interlace, sixteen);
    match encoded {
        Ok(stream) => {
            proof {
                if sixteen && all_alpha_nonzero(input, 2) && some_sample_unequal(input) {
                    assert(input.len() == (width as int * height as int) * 8) by (nonlinear_arith)
                        requires
                            input.len() == width as int * height as int * 4 * 2,
                    ;
                    lemma_mod_multiples_basic(width as int * height as int, 8);
                    lemma_alpha_nonzero_swapped(input);
                    lemma_sample_unequal_swapped(input);
                    lemma_swapped_involution(input);
                }
            }
            Ok(stream)
        },
        Err(_) => Err(PipelineError::Engine),
    }
}

} // verus!
