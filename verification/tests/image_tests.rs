use mandelatar_core::image_params::{
    Complex64, ImagePostProcessConfig, ImageParams, ImageTransformFlags, OverlayImageTypes,
    TransformFlags, OUTPUT_HEIGHT, OUTPUT_WIDTH,
};
use mandelatar_core::post_processing::{
    encode_result_png, load_img_from_buffer, process_from_params, process_overlay, RgbaRaster,
};
use mandelatar_core::render::{color_for_count, create_png, render_png};
use mandelatar_core::transforms::RgbRaster;

use image::codecs::png::PngEncoder;
use image::{ColorType, ImageEncoder};
use rand::Rng;

fn random_rgb_raster(w: usize, h: usize) -> RgbRaster {
    let mut rng = rand::thread_rng();
    let data: Vec<u8> = (0..3 * w * h).map(|_| rng.gen()).collect();
    RgbRaster {
        width: w,
        height: h,
        data,
    }
}

fn encode_rgba_png(w: u32, h: u32, data: &[u8]) -> Vec<u8> {
    let mut out = Vec::new();
    let encoder = PngEncoder::new(&mut out);
    encoder.write_image(data, w, h, ColorType::Rgba8).unwrap();
    out
}

#[test]
fn rotate180_twice_restores_raster() {
    let original = random_rgb_raster(7, 5);
    let mut r = original.clone();
    r.rotate180();
    assert_ne!(r, original);
    r.rotate180();
    assert_eq!(r, original);
}

#[test]
fn rotate180_reverses_pixels() {
    let mut r = RgbRaster {
        width: 2,
        height: 1,
        data: vec![1, 2, 3, 4, 5, 6],
    };
    r.rotate180();
    assert_eq!(r.data, vec![4, 5, 6, 1, 2, 3]);
}

#[test]
fn invert_flips_every_channel() {
    let mut r = RgbRaster {
        width: 1,
        height: 2,
        data: vec![0, 128, 255, 10, 20, 30],
    };
    r.invert();
    assert_eq!(r.data, vec![255, 127, 0, 245, 235, 225]);
}

#[test]
fn hue_rotate_on_pure_red() {
    // The ninety-degree hue matrix sends red to its thousandth-scaled
    // image: R' = B = 0, G' = round(356 * 255 / 1000) = 91, B' clamps at 0.
    let mut r = RgbRaster {
        width: 1,
        height: 1,
        data: vec![255, 0, 0],
    };
    r.hue_rotate90();
    assert_eq!(r.data, vec![0, 91, 0]);
}

#[test]
fn hue_rotate_keeps_grey() {
    // Grey pixels are fixed points of any hue rotation: each matrix row
    // sums to one thousand thousandths.
    let mut r = RgbRaster {
        width: 1,
        height: 1,
        data: vec![100, 100, 100],
    };
    r.hue_rotate90();
    assert_eq!(r.data, vec![100, 100, 100]);
}

#[test]
fn colour_rule_exact_values() {
    assert_eq!(color_for_count(None, (10, 20, 30)), (10, 10, 25));
    assert_eq!(color_for_count(Some(0), (10, 20, 30)), (0, 0, 0));
    assert_eq!(color_for_count(Some(7), (10, 20, 30)), (3, 6, 2));
    assert_eq!(color_for_count(Some(1), (200, 100, 50)), (0, 0, 0));
}

fn fixed_descriptor() -> ImageParams {
    ImageParams {
        bounds: (OUTPUT_WIDTH, OUTPUT_HEIGHT),
        upper_left: Complex64 {
            re: (-1.2f64).to_bits(),
            im: 0.35f64.to_bits(),
        },
        lower_right: Complex64 {
            re: (-1.0f64).to_bits(),
            im: 0.2f64.to_bits(),
        },
        zoom_factor: 0.01f64.to_bits(),
        rgb_consts: (10, 20, 30),
        transform_flags: TransformFlags::empty().with(ImageTransformFlags::ROT180),
    }
}

/// The affine map from pixel coordinates to the complex plane, as the
/// renderer's callers compute it.
fn pixel_to_point(
    bounds: (usize, usize),
    pixel: (usize, usize),
    upper_left: (f64, f64),
    lower_right: (f64, f64),
) -> (f64, f64) {
    let (width, height) = (lower_right.0 - upper_left.0, upper_left.1 - lower_right.1);
    (
        upper_left.0 + pixel.0 as f64 * width / bounds.0 as f64,
        upper_left.1 - pixel.1 as f64 * height / bounds.1 as f64,
    )
}

fn sample_points(p: &ImageParams) -> Vec<Complex64> {
    let ul = (
        f64::from_bits(p.upper_left.re),
        f64::from_bits(p.upper_left.im),
    );
    let lr = (
        f64::from_bits(p.lower_right.re),
        f64::from_bits(p.lower_right.im),
    );
    let bounds = (OUTPUT_WIDTH, OUTPUT_HEIGHT);
    let mut points = Vec::with_capacity(OUTPUT_WIDTH * OUTPUT_HEIGHT);
    for row in 0..OUTPUT_HEIGHT {
        // one band per row, mapped through its own corner pair
        let band_ul = pixel_to_point(bounds, (0, row), ul, lr);
        let band_lr = pixel_to_point(bounds, (OUTPUT_WIDTH, row + 1), ul, lr);
        for col in 0..OUTPUT_WIDTH {
            let (re, im) = pixel_to_point((OUTPUT_WIDTH, 1), (col, 0), band_ul, band_lr);
            points.push(Complex64 {
                re: re.to_bits(),
                im: im.to_bits(),
            });
        }
    }
    points
}

#[test]
fn rendering_is_deterministic_end_to_end() {
    // Decode the fixed wire record and confirm it is exactly the
    // descriptor it stands for; then render a fast-escaping viewport twice
    // and require byte-identical PNG output both times.
    let d = fixed_descriptor();
    let bytes = mandelatar_core::codec::encode(&d);
    let decoded = mandelatar_core::codec::decode(&bytes).unwrap();
    assert_eq!(decoded, d);
    let quick = ImageParams {
        upper_left: Complex64 {
            re: 4.0f64.to_bits(),
            im: 4.0f64.to_bits(),
        },
        lower_right: Complex64 {
            re: 5.0f64.to_bits(),
            im: 3.0f64.to_bits(),
        },
        ..d
    };
    let points = sample_points(&quick);
    let png1 = create_png(&quick, &points);
    let png2 = create_png(&quick, &points);
    assert_eq!(png1, png2);
    assert_eq!(&png1[0..8], &[0x89, b'P', b'N', b'G', 0x0d, 0x0a, 0x1a, 0x0a]);
    let loaded = image::load_from_memory_with_format(&png1, image::ImageFormat::Png).unwrap();
    assert_eq!(loaded.to_rgba8().dimensions(), (300, 300));
}

#[test]
fn render_png_matches_colour_rule() {
    // A tiny raster's worth of counts pushed through the whole pipeline:
    // the decoded PNG must show exactly the colours the rule assigns.
    let mut counts: Vec<Option<u8>> = vec![None; OUTPUT_WIDTH * OUTPUT_HEIGHT];
    counts[0] = Some(7);
    counts[1] = Some(0);
    let d = ImageParams {
        transform_flags: TransformFlags::empty(),
        ..fixed_descriptor()
    };
    let png = render_png(&d, &counts);
    let rgba = image::load_from_memory_with_format(&png, image::ImageFormat::Png)
        .unwrap()
        .to_rgba8();
    assert_eq!(rgba.dimensions(), (300, 300));
    assert_eq!(rgba.get_pixel(0, 0).0, [3, 6, 2, 255]);
    assert_eq!(rgba.get_pixel(1, 0).0, [0, 0, 0, 255]);
    assert_eq!(rgba.get_pixel(2, 0).0, [10, 10, 25, 255]);
}

#[test]
fn opaque_overlay_replaces_base() {
    // A fully opaque overlay of the base's own size must come through
    // pixel for pixel.
    let mut rng = rand::thread_rng();
    let base_png = {
        let counts: Vec<Option<u8>> = vec![None; OUTPUT_WIDTH * OUTPUT_HEIGHT];
        let d = ImageParams {
            transform_flags: TransformFlags::empty(),
            ..fixed_descriptor()
        };
        render_png(&d, &counts)
    };
    let overlay_data: Vec<u8> = (0..OUTPUT_WIDTH * OUTPUT_HEIGHT)
        .flat_map(|_| [rng.gen::<u8>(), rng.gen::<u8>(), rng.gen::<u8>(), 255u8])
        .collect();
    let overlay_png = encode_rgba_png(300, 300, &overlay_data);
    let cfg = ImagePostProcessConfig {
        overlay_image_type: Some(OverlayImageTypes::Profile {
            width: 300,
            height: 300,
        }),
    };
    let out = process_from_params(&cfg, &base_png, &overlay_png).unwrap();
    let rgba = image::load_from_memory_with_format(&out, image::ImageFormat::Png)
        .unwrap()
        .to_rgba8();
    assert_eq!(rgba.dimensions(), (300, 300));
    assert_eq!(rgba.into_raw(), overlay_data);
}

#[test]
fn differently_sized_overlay_is_resized_to_output_size() {
    let base_png = {
        let counts: Vec<Option<u8>> = vec![Some(9); OUTPUT_WIDTH * OUTPUT_HEIGHT];
        let d = ImageParams {
            transform_flags: TransformFlags::empty(),
            ..fixed_descriptor()
        };
        render_png(&d, &counts)
    };
    // a two-by-two opaque overlay: each quadrant of the resized overlay
    // repeats one source pixel
    let overlay_data: Vec<u8> = vec![
        255, 0, 0, 255, //
        0, 255, 0, 255, //
        0, 0, 255, 255, //
        255, 255, 0, 255,
    ];
    let overlay_png = encode_rgba_png(2, 2, &overlay_data);
    let cfg = ImagePostProcessConfig {
        overlay_image_type: Some(OverlayImageTypes::Profile {
            width: 300,
            height: 300,
        }),
    };
    let out = process_from_params(&cfg, &base_png, &overlay_png).unwrap();
    let rgba = image::load_from_memory_with_format(&out, image::ImageFormat::Png)
        .unwrap()
        .to_rgba8();
    assert_eq!(rgba.dimensions(), (300, 300));
    assert_eq!(rgba.get_pixel(0, 0).0, [255, 0, 0, 255]);
    assert_eq!(rgba.get_pixel(299, 0).0, [0, 255, 0, 255]);
    assert_eq!(rgba.get_pixel(0, 299).0, [0, 0, 255, 255]);
    assert_eq!(rgba.get_pixel(299, 299).0, [255, 255, 0, 255]);
}

#[test]
fn very_wide_overlay_is_resized_to_output_size() {
    // an overlay far wider than the output: any decodable size is accepted
    let w = 12000u32;
    let overlay_data: Vec<u8> = (0..w)
        .flat_map(|x| {
            if x < w / 2 {
                [255, 0, 0, 255]
            } else {
                [0, 0, 255, 255]
            }
        })
        .collect();
    let overlay_png = encode_rgba_png(w, 1, &overlay_data);
    let base_png = {
        let counts: Vec<Option<u8>> = vec![None; OUTPUT_WIDTH * OUTPUT_HEIGHT];
        let d = ImageParams {
            transform_flags: TransformFlags::empty(),
            ..fixed_descriptor()
        };
        render_png(&d, &counts)
    };
    let cfg = ImagePostProcessConfig {
        overlay_image_type: Some(OverlayImageTypes::Profile {
            width: 300,
            height: 300,
        }),
    };
    let out = process_from_params(&cfg, &base_png, &overlay_png).unwrap();
    let rgba = image::load_from_memory_with_format(&out, image::ImageFormat::Png)
        .unwrap()
        .to_rgba8();
    assert_eq!(rgba.dimensions(), (300, 300));
    assert_eq!(rgba.get_pixel(0, 0).0, [255, 0, 0, 255]);
    assert_eq!(rgba.get_pixel(299, 299).0, [0, 0, 255, 255]);
}

#[test]
fn translucent_overlay_blends_with_rounding() {
    let mut base = RgbaRaster {
        width: 1,
        height: 1,
        data: vec![100, 100, 100, 255],
    };
    let top = RgbaRaster {
        width: 1,
        height: 1,
        data: vec![200, 0, 50, 128],
    };
    base.composite_over(&top);
    // channel = (top * a + base * (255 - a) + 127) / 255, alpha forced
    // opaque
    assert_eq!(base.data, vec![150, 50, 75, 255]);
}

#[test]
fn resize_nearest_picks_expected_sources() {
    let r = RgbaRaster {
        width: 2,
        height: 1,
        data: vec![1, 2, 3, 4, 5, 6, 7, 8],
    };
    let out = r.resize_nearest(4, 2);
    assert_eq!(out.width, 4);
    assert_eq!(out.height, 2);
    assert_eq!(
        out.data,
        vec![
            1, 2, 3, 4, 1, 2, 3, 4, 5, 6, 7, 8, 5, 6, 7, 8, //
            1, 2, 3, 4, 1, 2, 3, 4, 5, 6, 7, 8, 5, 6, 7, 8,
        ]
    );
}

#[test]
fn process_overlay_same_size_composites_in_place() {
    let mut base = RgbaRaster {
        width: OUTPUT_WIDTH,
        height: OUTPUT_HEIGHT,
        data: vec![0; 4 * OUTPUT_WIDTH * OUTPUT_HEIGHT],
    };
    let top = RgbaRaster {
        width: OUTPUT_WIDTH,
        height: OUTPUT_HEIGHT,
        data: vec![255; 4 * OUTPUT_WIDTH * OUTPUT_HEIGHT],
    };
    process_overlay(&mut base, &top);
    assert!(base.data.iter().all(|&b| b == 255));
}

#[test]
fn post_processing_failures_are_reported_not_panicked() {
    let cfg = ImagePostProcessConfig {
        overlay_image_type: Some(OverlayImageTypes::Profile {
            width: 300,
            height: 300,
        }),
    };
    // malformed base
    assert!(process_from_params(&cfg, b"not a png", b"also not a png").is_err());
    // well-formed base, malformed overlay
    let base_png = {
        let counts: Vec<Option<u8>> = vec![None; OUTPUT_WIDTH * OUTPUT_HEIGHT];
        let d = ImageParams {
            transform_flags: TransformFlags::empty(),
            ..fixed_descriptor()
        };
        render_png(&d, &counts)
    };
    let err = process_from_params(&cfg, &base_png, b"junk").unwrap_err();
    let mandelatar_core::errors::ImagePostProcessingError::Default { message } = err;
    assert_eq!(message, "failed to load image profile_overlay from buffer");
}

#[test]
fn load_and_reencode_round_trip() {
    let data: Vec<u8> = (0..4 * OUTPUT_WIDTH * OUTPUT_HEIGHT)
        .map(|i| (i % 251) as u8)
        .collect();
    // make alpha opaque so re-decoding is lossless in every channel
    let data: Vec<u8> = data
        .iter()
        .enumerate()
        .map(|(i, &b)| if i % 4 == 3 { 255 } else { b })
        .collect();
    let png = encode_rgba_png(300, 300, &data);
    let raster = load_img_from_buffer("round trip", &png).unwrap();
    assert_eq!(raster.width, 300);
    assert_eq!(raster.height, 300);
    assert_eq!(raster.data, data);
    let again = encode_result_png(&raster.data).unwrap();
    let back = load_img_from_buffer("round trip", &again).unwrap();
    assert_eq!(back.data, data);
}

#[test]
fn encode_result_png_rejects_wrong_size() {
    let err = encode_result_png(&[0u8; 16]).unwrap_err();
    let mandelatar_core::errors::ImagePostProcessingError::Default { message } = err;
    assert_eq!(message, "result buffer does not match the output size");
}

#[test]
fn sampler_assembly_sets_only_enabled_flags() {
    let d = ImageParams::from_sample_parts(
        (OUTPUT_WIDTH, OUTPUT_HEIGHT),
        Complex64 {
            re: (-1.15f64).to_bits(),
            im: 0.3f64.to_bits(),
        },
        Complex64 {
            re: (-1.05f64).to_bits(),
            im: 0.25f64.to_bits(),
        },
        0.001f64.to_bits(),
        (1, 2, 3),
        true,
        false,
    );
    assert!(d.transform_flags.contains(ImageTransformFlags::ROT180));
    assert!(!d.transform_flags.contains(ImageTransformFlags::HUEROT90));
    assert!(!d.transform_flags.contains(ImageTransformFlags::INVERT));
    assert_eq!(d.get_bounds(), (OUTPUT_WIDTH, OUTPUT_HEIGHT));
    let round = mandelatar_core::codec::decode(&mandelatar_core::codec::encode(&d)).unwrap();
    assert_eq!(round, d);
}
