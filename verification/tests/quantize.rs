//! Tests for the quantize stage: option validation, the palette remap, and
//! the stage driven end to end with the real quantization engine.
use pngpipe::quant::{apply_palette, check_quantize_options, QuantizeOptions, Rgba};

fn opts(quality: u8, speed: i32, colors: u32, dithering: u8) -> QuantizeOptions {
    QuantizeOptions { quality, speed, colors, dithering }
}

#[test]
fn options_boundaries() {
    assert!(check_quantize_options(&opts(100, 1, 2, 0)));
    assert!(check_quantize_options(&opts(0, 10, 256, 100)));
    assert!(!check_quantize_options(&opts(100, 0, 2, 0)));
    assert!(!check_quantize_options(&opts(100, 11, 2, 0)));
    assert!(!check_quantize_options(&opts(101, 1, 2, 0)));
    assert!(!check_quantize_options(&opts(100, 1, 1, 0)));
    assert!(!check_quantize_options(&opts(100, 1, 257, 0)));
    assert!(!check_quantize_options(&opts(100, 1, 2, 101)));
}

#[test]
fn apply_palette_exact() {
    let palette = vec![
        Rgba { r: 255, g: 0, b: 0, a: 255 },
        Rgba { r: 0, g: 0, b: 255, a: 128 },
    ];
    let indices: Vec<u8> = vec![1, 0, 1];
    let mut data: Vec<u8> = vec![0; 12];
    apply_palette(&mut data, &palette, &indices);
    assert_eq!(data, vec![0, 0, 255, 128, 255, 0, 0, 255, 0, 0, 255, 128]);
}

/// Run the external quantizer exactly as the host boundary does and remap
/// the buffer through the verified stage.
fn quantize_with_engine(data: &mut Vec<u8>, width: usize, height: usize, o: &QuantizeOptions) -> usize {
    assert!(check_quantize_options(o));
    let mut attr = imagequant::new();
    attr.set_speed(o.speed).unwrap();
    attr.set_quality(0, o.quality).unwrap();
    attr.set_max_colors(o.colors).unwrap();
    let pixels: Vec<imagequant::RGBA> = data
        .chunks_exact(4)
        .map(|c| imagequant::RGBA::new(c[0], c[1], c[2], c[3]))
        .collect();
    let mut image = attr.new_image(pixels, width, height, 0.0).unwrap();
    let mut res = attr.quantize(&mut image).unwrap();
    res.set_dithering_level(o.dithering as f32 / 100.0).unwrap();
    let (palette, indices) = res.remapped(&mut image).unwrap();
    let pal: Vec<Rgba> = palette
        .iter()
        .map(|p| Rgba { r: p.r, g: p.g, b: p.b, a: p.a })
        .collect();
    assert_eq!(data.len(), 4 * indices.len());
    assert!(indices.iter().all(|&i| (i as usize) < pal.len()));
    apply_palette(data, &pal, &indices);
    pal.len()
}

#[test]
fn quantize_uniform_single_color() {
    // A uniform 4x4 image quantized to at most 2 colors keeps its one color
    // and needs a palette of exactly one entry.
    let color = [10u8, 20, 30, 255];
    let mut data: Vec<u8> = color.iter().copied().cycle().take(64).collect();
    let palette_len = quantize_with_engine(&mut data, 4, 4, &opts(100, 4, 2, 0));
    assert_eq!(palette_len, 1);
    for pixel in data.chunks_exact(4) {
        assert_eq!(pixel, color);
    }
}

#[test]
fn quantize_deterministic_without_dithering() {
    // With dithering 0 two runs over the same input and options give
    // byte-identical buffers.
    let mut data: Vec<u8> = (0u32..256)
        .flat_map(|i| {
            let x = (i * 37 % 251) as u8;
            [x, x.wrapping_mul(3), x.wrapping_add(91), 255]
        })
        .collect();
    let mut second = data.clone();
    let o = opts(80, 4, 16, 0);
    quantize_with_engine(&mut data, 16, 16, &o);
    quantize_with_engine(&mut second, 16, 16, &o);
    assert_eq!(data, second);
}

#[test]
fn quantize_palette_bound() {
    // Quantizing to at most k colors leaves at most k distinct pixel values.
    let mut data: Vec<u8> = (0u32..64)
        .flat_map(|i| [(i * 4) as u8, (255 - i * 2) as u8, (i * 7 % 256) as u8, 255])
        .collect();
    let k = 8u32;
    let palette_len = quantize_with_engine(&mut data, 8, 8, &opts(100, 4, k, 0));
    assert!(palette_len <= k as usize);
    let mut distinct: Vec<[u8; 4]> = data
        .chunks_exact(4)
        .map(|c| [c[0], c[1], c[2], c[3]])
        .collect();
    distinct.sort();
    distinct.dedup();
    assert!(distinct.len() <= k as usize);
}
