//! Tests for the encode and decode stages against the real engines, and for
//! the composed pipeline geometry.
use pngpipe::decode::png_to_rgba;
use pngpipe::encode::{png_encode, EncodeOptions};
use pngpipe::quant::{apply_palette, Rgba};
use pngpipe::PipelineError;

fn encode_opts(level: u8, bit_depth: u8) -> EncodeOptions {
    EncodeOptions { quantize: false, level, interlace: false, bit_depth }
}

#[test]
fn encode_decode_red_pixel() {
    // A 1x1 fully opaque red pixel survives the lossless path at level 0.
    let data: Vec<u8> = vec![255, 0, 0, 255];
    let stream = png_encode(data.clone(), 1, 1, encode_opts(0, 8)).unwrap();
    let (decoded, width, depth) = png_to_rgba(&stream).unwrap();
    assert_eq!(width, 1);
    assert_eq!(depth, 8);
    assert_eq!(decoded, data);
}

#[test]
fn encode_wrong_length_is_geometry_error() {
    // A buffer whose length is not width * height * 4 is rejected as a
    // contract violation, never truncated or padded.
    let r = png_encode(vec![1, 2, 3], 1, 1, encode_opts(2, 8));
    assert_eq!(r, Err(PipelineError::Geometry));
    let r = png_encode(vec![0; 16], 1, 1, encode_opts(2, 8));
    assert_eq!(r, Err(PipelineError::Geometry));
    let r = png_encode(vec![0; 4], 1, 1, encode_opts(2, 16));
    assert_eq!(r, Err(PipelineError::Geometry));
}

#[test]
fn encode_invalid_bit_depth_is_geometry_error() {
    // A bit depth other than 8 or 16 is rejected, never clamped to 16.
    let r = png_encode(vec![0; 4], 1, 1, encode_opts(2, 3));
    assert_eq!(r, Err(PipelineError::Geometry));
    let r = png_encode(vec![0; 8], 1, 1, encode_opts(2, 3));
    assert_eq!(r, Err(PipelineError::Geometry));
    let r = png_encode(vec![0; 4], 1, 1, encode_opts(2, 0));
    assert_eq!(r, Err(PipelineError::Geometry));
}

#[test]
fn encode_decode_16bit() {
    // One 16-bit RGBA pixel, little-endian in canonical form, comes back
    // bit-exact: the two endian corrections cancel.
    let data: Vec<u8> = vec![0x12, 0x34, 0x56, 0x78, 0x9a, 0xbc, 0xff, 0xff];
    let stream = png_encode(data.clone(), 1, 1, encode_opts(1, 16)).unwrap();
    let (decoded, width, depth) = png_to_rgba(&stream).unwrap();
    assert_eq!(width, 1);
    assert_eq!(depth, 16);
    assert_eq!(decoded, data);
}

#[test]
fn decode_gray_png_expands_channels() {
    // A grayscale PNG written by the container library decodes to canonical
    // RGBA: gray replicated into R, G and B with an opaque alpha.
    let mut stream: Vec<u8> = Vec::new();
    {
        let mut encoder = png::Encoder::new(&mut stream, 2, 1);
        encoder.set_color(png::ColorType::Grayscale);
        encoder.set_depth(png::BitDepth::Eight);
        let mut writer = encoder.write_header().unwrap();
        writer.write_image_data(&[100, 200]).unwrap();
    }
    let (decoded, width, depth) = png_to_rgba(&stream).unwrap();
    assert_eq!(width, 2);
    assert_eq!(depth, 8);
    assert_eq!(decoded, vec![100, 100, 100, 255, 200, 200, 200, 255]);
}

#[test]
fn decode_gray_alpha_png_expands_channels() {
    let mut stream: Vec<u8> = Vec::new();
    {
        let mut encoder = png::Encoder::new(&mut stream, 1, 2);
        encoder.set_color(png::ColorType::GrayscaleAlpha);
        encoder.set_depth(png::BitDepth::Eight);
        let mut writer = encoder.write_header().unwrap();
        writer.write_image_data(&[10, 11, 20, 21]).unwrap();
    }
    let (decoded, width, depth) = png_to_rgba(&stream).unwrap();
    assert_eq!(width, 1);
    assert_eq!(depth, 8);
    assert_eq!(decoded, vec![10, 10, 10, 11, 20, 20, 20, 21]);
}

#[test]
fn decode_garbage_is_engine_error() {
    let r = png_to_rgba(b"this is not a png stream");
    assert_eq!(r, Err(PipelineError::Engine));
}

#[test]
fn round_trip_quantized_geometry() {
    // Quantize then encode then decode: the byte geometry is exact, with
    // the decoded width equal to the input width and one RGBA pixel per
    // input pixel.
    let mut data: Vec<u8> = vec![
        200, 10, 10, 255, 10, 200, 10, 255, 10, 10, 200, 255, 200, 200, 10, 255,
    ];
    let palette = vec![
        Rgba { r: 200, g: 10, b: 10, a: 255 },
        Rgba { r: 10, g: 200, b: 10, a: 255 },
        Rgba { r: 10, g: 10, b: 200, a: 255 },
        Rgba { r: 200, g: 200, b: 10, a: 255 },
    ];
    let indices: Vec<u8> = vec![0, 1, 2, 3];
    apply_palette(&mut data, &palette, &indices);
    let stream = png_encode(data.clone(), 2, 2, encode_opts(2, 8)).unwrap();
    let (decoded, width, depth) = png_to_rgba(&stream).unwrap();
    assert_eq!(width, 2);
    assert_eq!(depth, 8);
    assert_eq!(decoded.len(), 2 * 2 * 4);
    assert_eq!(decoded, data);
}
