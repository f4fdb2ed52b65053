use mandelatar_core::codec::{decode, encode, DecodeError, ENCODED_LEN};
use mandelatar_core::config::{ServerArgs, ServerConfig};
use mandelatar_core::errors::{InvalidPostProcessConfig, UserError};
use mandelatar_core::image_params::{
    Complex64, ImagePostProcessConfig, ImageParams, ImageTransformFlags, OverlayImageTypes,
    TransformFlags, OUTPUT_HEIGHT, OUTPUT_WIDTH,
};
use mandelatar_core::token::{decode_token, encode_token, strip_png, MAX_B64_LEN};

use rand::Rng;

fn sample_descriptor() -> ImageParams {
    ImageParams {
        bounds: (OUTPUT_WIDTH, OUTPUT_HEIGHT),
        upper_left: Complex64 {
            re: (-1.2f64).to_bits(),
            im: 0.35f64.to_bits(),
        },
        lower_right: Complex64 {
            re: (-1.0f64).to_bits(),
            im: 0.2f64.to_bits(),
        },
        zoom_factor: 0.01f64.to_bits(),
        rgb_consts: (10, 20, 30),
        transform_flags: TransformFlags::empty().with(ImageTransformFlags::ROT180),
    }
}

#[test]
fn encode_matches_bincode_wire_format() {
    // The wire contract is what bincode's default options produce for the
    // descriptor's fields in order: fixed-width little-endian integers,
    // usize as u64, floats as raw bits, the flag set as one byte.  A tuple
    // with the same field order encodes to the same bytes.
    let d = sample_descriptor();
    let reference = bincode::serialize(&(
        (300usize, 300usize),
        (-1.2f64, 0.35f64),
        (-1.0f64, 0.2f64),
        0.01f64,
        (10u8, 20u8, 30u8),
        1u8,
    ))
    .unwrap();
    let ours = encode(&d);
    assert_eq!(ours, reference);
    assert_eq!(ours.len(), ENCODED_LEN);
}

#[test]
fn decode_inverts_encode() {
    let mut descriptors = vec![sample_descriptor()];
    let mut no_flags = sample_descriptor();
    no_flags.transform_flags = TransformFlags::empty();
    descriptors.push(no_flags);
    let mut all_flags = sample_descriptor();
    all_flags.transform_flags = TransformFlags::empty()
        .with(ImageTransformFlags::ROT180)
        .with(ImageTransformFlags::HUEROT90)
        .with(ImageTransformFlags::INVERT);
    descriptors.push(all_flags);
    for d in descriptors {
        let bytes = encode(&d);
        let back = decode(&bytes).unwrap();
        assert_eq!(back, d);
    }
}

#[test]
fn decode_rejects_short_input() {
    assert_eq!(decode(&[]), Err(DecodeError::TooShort));
    assert_eq!(decode(&[0u8; 59]), Err(DecodeError::TooShort));
}

#[test]
fn decode_rejects_undefined_flag_bits() {
    let mut bytes = encode(&sample_descriptor());
    bytes[59] = 8;
    assert_eq!(decode(&bytes), Err(DecodeError::InvalidFlags));
    bytes[59] = 0xff;
    assert_eq!(decode(&bytes), Err(DecodeError::InvalidFlags));
}

#[test]
fn decode_ignores_trailing_bytes() {
    let d = sample_descriptor();
    let mut bytes = encode(&d);
    bytes.extend_from_slice(&[1, 2, 3, 4]);
    assert_eq!(decode(&bytes).unwrap(), d);
}

#[test]
fn decode_accepts_arbitrary_coordinate_bits() {
    let mut bytes = vec![0u8; 60];
    for (i, b) in bytes.iter_mut().enumerate() {
        *b = (i * 37 % 251) as u8;
    }
    bytes[59] = 5;
    let d = decode(&bytes).unwrap();
    assert!(d.transform_flags.contains(ImageTransformFlags::ROT180));
    assert!(!d.transform_flags.contains(ImageTransformFlags::HUEROT90));
    assert!(d.transform_flags.contains(ImageTransformFlags::INVERT));
}

#[test]
fn decode_never_panics_on_random_input() {
    // Ten thousand random byte strings of lengths up to five hundred:
    // decoding must always return a value, never panic or read out of
    // bounds.
    let mut rng = rand::thread_rng();
    let mut ok = 0u32;
    let mut err = 0u32;
    for _ in 0..10_000 {
        let len: usize = rng.gen_range(0..=500);
        let bytes: Vec<u8> = (0..len).map(|_| rng.gen()).collect();
        match decode(&bytes) {
            Ok(_) => ok += 1,
            Err(_) => err += 1,
        }
    }
    assert_eq!(ok + err, 10_000);
}

#[test]
fn token_round_trip() {
    let d = sample_descriptor();
    let token = encode_token(&d);
    assert_eq!(token.len(), 80);
    let back = decode_token(&token).unwrap();
    assert_eq!(back, d);
}

#[test]
fn token_matches_base64_transport() {
    let d = sample_descriptor();
    let token = encode_token(&d);
    let reference = base64::encode_config(encode(&d), base64::URL_SAFE);
    assert_eq!(token, reference.into_bytes());
}

#[test]
fn token_accepts_png_suffix() {
    let d = sample_descriptor();
    let mut token = encode_token(&d);
    token.extend_from_slice(b".png");
    let back = decode_token(&token).unwrap();
    assert_eq!(back, d);
}

#[test]
fn token_rejects_empty_and_oversized() {
    match decode_token(&[]) {
        Err(UserError::ValidationError { message }) => {
            assert_eq!(message, "invalid base64 provided");
        }
        other => panic!("unexpected: {:?}", other),
    }
    let long = vec![b'A'; MAX_B64_LEN + 1];
    assert!(matches!(
        decode_token(&long),
        Err(UserError::ValidationError { .. })
    ));
}

#[test]
fn token_rejects_whitespace_only() {
    // a token that trims to nothing is rejected before any decoding
    match decode_token(b"   ") {
        Err(UserError::ValidationError { message }) => {
            assert_eq!(message, "invalid base64 provided");
        }
        other => panic!("unexpected: {:?}", other),
    }
    assert!(matches!(
        decode_token(b"\t\r\n "),
        Err(UserError::ValidationError { .. })
    ));
}

#[test]
fn token_rejects_garbage() {
    assert!(matches!(
        decode_token(b"!!!not-base64!!!"),
        Err(UserError::ValidationError { .. })
    ));
    // valid base64, but too short to hold a descriptor
    let short = base64::encode_config(&[1u8, 2, 3], base64::URL_SAFE);
    assert!(matches!(
        decode_token(short.as_bytes()),
        Err(UserError::ValidationError { .. })
    ));
}

#[test]
fn token_never_panics_on_random_input() {
    let mut rng = rand::thread_rng();
    for _ in 0..10_000 {
        let len: usize = rng.gen_range(0..=500);
        let bytes: Vec<u8> = (0..len).map(|_| rng.gen()).collect();
        let _ = decode_token(&bytes);
    }
}

#[test]
fn strip_png_removes_every_occurrence() {
    assert_eq!(strip_png(b"abc.pngdef"), b"abcdef");
    assert_eq!(strip_png(b".png.pngx.png"), b"x");
    assert_eq!(strip_png(b"no-suffix"), b"no-suffix");
    assert_eq!(strip_png(b".pn"), b".pn");
    assert_eq!(strip_png(b""), b"");
}

#[test]
fn query_params_select_profile_overlay() {
    let pairs = vec![
        ("ignored".to_string(), "1".to_string()),
        ("overlay".to_string(), "profile".to_string()),
    ];
    let cfg = ImagePostProcessConfig::from_query_params(&pairs).unwrap();
    assert_eq!(
        cfg.overlay_image_type,
        Some(OverlayImageTypes::Profile {
            width: OUTPUT_WIDTH as u32,
            height: OUTPUT_HEIGHT as u32,
        })
    );
    assert!(cfg.should_post_process());
}

#[test]
fn query_params_empty_means_no_post_processing() {
    let pairs: Vec<(String, String)> = vec![];
    let cfg = ImagePostProcessConfig::from_query_params(&pairs).unwrap();
    assert_eq!(cfg.overlay_image_type, None);
    assert!(!cfg.should_post_process());
}

#[test]
fn query_params_unknown_keys_are_ignored() {
    let pairs = vec![
        ("width".to_string(), "900".to_string()),
        ("theme".to_string(), "dark".to_string()),
    ];
    let cfg = ImagePostProcessConfig::from_query_params(&pairs).unwrap();
    assert_eq!(cfg.overlay_image_type, None);
}

#[test]
fn query_params_reject_unknown_overlay_value() {
    let pairs = vec![("overlay".to_string(), "banner".to_string())];
    let err = ImagePostProcessConfig::from_query_params(&pairs).unwrap_err();
    let InvalidPostProcessConfig::Default { message } = err;
    assert_eq!(message, "Invalid overlay type given.");
}

#[test]
fn server_config_parses_port_with_default_fallback() {
    let cfg = ServerConfig::from_env_values(None, Some("8123".to_string()), vec![]);
    assert_eq!(cfg.server_addr, "127.0.0.1");
    assert_eq!(cfg.server_port, 8123);
    let cfg = ServerConfig::from_env_values(
        Some("0.0.0.0".to_string()),
        Some("not-a-port".to_string()),
        vec!["https://example.test".to_string()],
    );
    assert_eq!(cfg.server_addr, "0.0.0.0");
    assert_eq!(cfg.server_port, 8080);
    assert_eq!(cfg.cors_origins, vec!["https://example.test".to_string()]);
    let cfg = ServerConfig::from_env_values(None, Some("70000".to_string()), vec![]);
    assert_eq!(cfg.server_port, 8080);
    let cfg = ServerConfig::from_env_values(None, Some("+443".to_string()), vec![]);
    assert_eq!(cfg.server_port, 443);
}

#[test]
fn server_args_default_when_unset() {
    let args = ServerArgs::from_env_values(None, None);
    assert_eq!(args.server_addr, "127.0.0.1");
    assert_eq!(args.server_port, 8080);
}

#[test]
fn error_messages_are_kept() {
    let e = UserError::ValidationError {
        message: "bad token".to_string(),
    };
    assert_eq!(e.message(), "bad token");
    assert_eq!(
        UserError::InternalError.message(),
        "An internal server error occurred"
    );
}
