//! Decode stage: the external decoder unpacks a compressed PNG stream; this
//! module then normalizes the result to the canonical form every other stage
//! expects: 4-channel RGBA, little-endian 16-bit samples.  Whatever color
//! layout the container held, the caller always gets back RGBA and can
//! recover the height from the byte length.
use vstd::prelude::*;
use vstd::arithmetic::div_mod::lemma_fundamental_div_mod_converse_div;
use vstd::arithmetic::div_mod::lemma_mod_multiples_basic;
use crate::endian::swap_endian;
use crate::endian::swapped;
use crate::expand::expand_to_rgba;
use crate::expand::expanded;
use crate::PipelineError;

verus! {

#[verifier::external_type_specification]
#[verifier::external_body]
pub struct ExDecodingError(png::DecodingError);

/// Whether the external decoder accepts a byte stream as a decodable PNG
/// under the alpha-forcing transformation and its default resource limits:
/// like everything else the decoder produces, a function of the stream
/// bytes alone.
pub uninterp spec fn png_decodable(data: Seq<u8>) -> bool;

/// The pixel bytes the external decoder produces for a PNG stream under the
/// alpha-forcing transformation: a function of the stream bytes alone.
pub uninterp spec fn png_pixels(data: Seq<u8>) -> Seq<u8>;

/// The width, in pixels, recorded in a PNG stream's header.
pub uninterp spec fn png_width(data: Seq<u8>) -> u32;

/// The height, in pixels, recorded in a PNG stream's header.
pub uninterp spec fn png_height(data: Seq<u8>) -> u32;

/// The color-type code of the decoder's output for a PNG stream under the
/// alpha-forcing transformation, in the container's own coding: 4 is
/// gray+alpha and 6 is RGBA (the transformation never yields another).
pub uninterp spec fn png_color_type(data: Seq<u8>) -> u8;

/// The bit depth of the decoder's output for a PNG stream under the
/// alpha-forcing transformation: 8 or 16 bits per sample.
pub uninterp spec fn png_bit_depth(data: Seq<u8>) -> u8;

/// Channels of a decoded color-type code: 2 for gray+alpha (code 4), 4 for
/// RGBA (code 6).
pub open spec fn channel_count(color: u8) -> int {
    if color == 4 {
        2
    } else {
        4
    }
}

/// Relies on png::Decoder and png::Reader (read_info, output_color_type,
/// output_buffer_size, next_frame) with the ALPHA transformation, which
/// forces an alpha channel and widens sub-byte and indexed forms: the output
/// is gray+alpha (code 4) or RGBA (code 6) at 8 or 16 bits per sample,
/// big-endian where a sample has two bytes; its byte length is exactly
/// width * height * channels * bytes-per-sample and is below the address
/// space's signed half; and the container rejects zero dimensions.
#[verifier::external_body]
fn decode_png(data: &[u8]) -> (r: Result<(Vec<u8>, u32, u32, u8, u8), png::DecodingError>)
    ensures
        r is Ok <==> png_decodable(data@),
        r matches Ok(out) ==> {
            &&& out.0@ == png_pixels(data@)
            &&& out.1 == png_width(data@)
            &&& out.2 == png_height(data@)
            &&& out.3 == png_color_type(data@)
            &&& out.4 == png_bit_depth(data@)
            &&& out.3 == 4 || out.3 == 6
            &&& out.4 == 8 || out.4 == 16
            &&& out.0@.len() == out.1 as int * out.2 as int * channel_count(out.3) * (
            out.4 as int / 8)
            &&& out.0@.len() * 2 <= usize::MAX
            &&& out.1 >= 1
            &&& out.2 >= 1
        },
{
    let mut decoder = png::Decoder::new(std::io::Cursor::new(data));
    decoder.set_transformations(png::Transformations::ALPHA);
    let mut reader = decoder.read_info()?;
    let (width, height) = (reader.info().width, reader.info().height);
    let (color, depth) = reader.output_color_type();
    let size = reader.output_buffer_size().unwrap_or(0);
    let mut buffer = vec![0u8; size];
    reader.next_frame(&mut buffer)?;
    Ok((buffer, width, height, color as u8, depth as u8))
}

/// The canonical form of a decoded PNG stream: the decoder's pixels widened
/// to 4 channels (the identity when they already are RGBA) and, at bit depth
/// 16, byte-swapped from the container's big-endian convention to the
/// canonical little-endian one.
pub open spec fn rgba_canonical(data: Seq<u8>) -> Seq<u8> {
    let wide = expanded(
        png_pixels(data),
        channel_count(png_color_type(data)),
        png_bit_depth(data) as int / 8,
    );
    if png_bit_depth(data) == 16 {
        swapped(wide)
    } else {
        wide
    }
}

/// Height recovery: a canonical buffer of `width * height * 4 * bps` bytes
/// gives its height back as `len / width / 4 / bps`, so a caller of the
/// decode stage reconstructs the height from the byte length, the width and
/// the bit depth alone, and the round trip through encode and decode keeps
/// the byte geometry exact.
pub proof fn lemma_height_recoverable(w: int, h: int, bps: int, len: int)
    requires
        w >= 1,
        h >= 0,
        bps == 1 || bps == 2,
        len == w * h * 4 * bps,
    ensures
        len / w / 4 / bps == h,
{
    assert(len == (h * 4 * bps) * w + 0 && h * 4 * bps == (h * bps) * 4 + 0 && h * bps == h * bps
        + 0) by (nonlinear_arith)
        requires
            len == w * h * 4 * bps,
    ;
    lemma_fundamental_div_mod_converse_div(len, w, h * 4 * bps, 0);
    lemma_fundamental_div_mod_converse_div(h * 4 * bps, 4, h * bps, 0);
    lemma_fundamental_div_mod_converse_div(h * bps, bps, h, 0);
}

/// Decode stage: unpack a compressed PNG stream into the canonical 4-channel
/// RGBA buffer.  The call succeeds exactly on the streams the external
/// decoder accepts; everything else is an `Engine` failure, never a silent
/// default or a partial result.  On success the result is the buffer in
/// canonical form, the image width, and the bit depth (8 or 16); the caller
/// recovers the height as `len / width / 4 / (depth / 8)`.
pub fn png_to_rgba(data: &[u8]) -> (r: Result<(Vec<u8>, u32, u32), PipelineError>)
    ensures
        r is Ok <==> png_decodable(data@),
        r matches Err(e) ==> e == PipelineError::Engine,
        r matches Ok(out) ==> {
            &&& out.0@ == rgba_canonical(data@)
            &&& out.1 == png_width(data@)
            &&& out.2 == png_bit_depth(data@) as u32
            &&& (out.2 == 8 || out.2 == 16)
            &&& out.1 >= 1
            &&& out.0@.len() == png_width(data@) as int * png_height(data@) as int * 4 * (
            png_bit_depth(data@) as int / 8)
        },
{
    let decoded = decode_png(data);
    let (mut buffer, width, height, color, depth) = match decoded {
        Ok(out) => out,
        Err(_) => {
            return Err(PipelineError::Engine);
        },
    };
    let bps: usize = if depth == 16 {
        2
    } else {
        1
    };
    let channels: usize = if color == 4 {
        2
    } else {
        4
    };
    let ghost w = width as int;
    let ghost h = height as int;
    let ghost len = buffer@.len() as int;
    proof {
        assert(len == (w * h) * ((channels * bps) as int)) by (nonlinear_arith)
            requires
                len == w * h * (channels as int) * (bps as int),
        ;
        lemma_mod_multiples_basic(w * h, (channels * bps) as int);
        lemma_fundamental_div_mod_converse_div(len, (channels * bps) as int, w * h, 0);
        assert((len / (channels * bps) as int) * 4 * (bps as int) <= usize::MAX) by (nonlinear_arith)
            requires
                len / (channels * bps) as int == w * h,
                len == w * h * (channels as int) * (bps as int),
                channels == 2 || channels == 4,
                bps == 1 || bps == 2,
                len * 2 <= usize::MAX,
                w >= 0,
                h >= 0,
        ;
    }
    expand_to_rgba(&mut buffer, channels, bps);
    proof {
        assert(buffer@.len() == 4 * (bps as int) * (w * h)) by (nonlinear_arith)
            requires
                buffer@.len() == 4 * (bps as int) * (len / (channels * bps) as int),
                len / (channels * bps) as int == w * h,
        ;
        assert(buffer@.len() == w * h * 4 * (bps as int)) by (nonlinear_arith)
            requires
                buffer@.len() == 4 * (bps as int) * (w * h),
        ;
    }
    if depth == 16 {
        proof {
            lemma_mod_multiples_basic(w * h * 4, 2);
            assert(buffer@.len() == (w * h * 4) * 2) by (nonlinear_arith)
                requires
                    buffer@.len() == w * h * 4 * (bps as int),
                    bps == 2,
            ;
        }
        swap_endian(&mut buffer);
    }
    Ok((buffer, width, depth as u32))
}

} // verus!
