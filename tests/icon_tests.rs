use app_launcher::icon::{
    default_icon_payload, encode_icon_bitmap, icon_or_default, payload_from_png,
    pixel_buffer_len, resolve_icon_path, swap_red_blue, IconError,
};
use base64::Engine;

fn decode_payload(payload: &str) -> image::RgbaImage {
    let png = base64::engine::general_purpose::STANDARD.decode(payload).unwrap();
    image::load_from_memory(&png).unwrap().to_rgba8()
}

#[test]
fn bitmap_decodes_with_geometry_and_canonical_channels() {
    // two pixels wide, one high, stored blue-green-red-alpha
    let bits = vec![1u8, 2, 3, 4, 5, 6, 7, 8];
    let payload = encode_icon_bitmap(2, 1, bits).unwrap();
    let img = decode_payload(&payload);
    assert_eq!(img.width(), 2);
    assert_eq!(img.height(), 1);
    assert_eq!(img.into_raw(), vec![3u8, 2, 1, 4, 7, 6, 5, 8]);
}

#[test]
fn square_bitmap_keeps_geometry() {
    let mut bits = Vec::new();
    for i in 0..(3 * 3) {
        bits.extend_from_slice(&[i as u8, 100, 200, 255]);
    }
    let img = decode_payload(&encode_icon_bitmap(3, 3, bits).unwrap());
    assert_eq!((img.width(), img.height()), (3, 3));
    let raw = img.into_raw();
    for i in 0..9 {
        assert_eq!(&raw[4 * i..4 * i + 4], &[200, 100, i as u8, 255]);
    }
}

#[test]
fn short_bits_are_malformed() {
    assert_eq!(encode_icon_bitmap(2, 2, vec![0u8; 15]), Err(IconError::MalformedBitmap));
}

#[test]
fn long_bits_are_malformed() {
    assert_eq!(encode_icon_bitmap(2, 2, vec![0u8; 17]), Err(IconError::MalformedBitmap));
}

#[test]
fn negative_geometry_is_malformed() {
    assert_eq!(encode_icon_bitmap(-1, -4, vec![0u8; 16]), Err(IconError::MalformedBitmap));
}

#[test]
fn empty_bitmap_is_a_codec_failure() {
    match encode_icon_bitmap(0, 0, Vec::new()) {
        Err(IconError::CodecFailure(_)) => {}
        other => panic!("unexpected {:?}", other),
    }
}

#[test]
fn zero_height_bitmap_is_a_codec_failure() {
    match encode_icon_bitmap(5, 0, Vec::new()) {
        Err(IconError::CodecFailure(_)) => {}
        other => panic!("unexpected {:?}", other),
    }
}

#[test]
fn payload_is_padded_base64_text() {
    let payload = encode_icon_bitmap(1, 1, vec![9u8, 8, 7, 6]).unwrap();
    assert_eq!(payload.len() % 4, 0);
    assert!(payload.chars().all(|c| c.is_ascii_alphanumeric() || c == '+' || c == '/' || c == '='));
}

#[test]
fn swap_reorders_whole_groups_only() {
    let mut buf = vec![10u8, 20, 30, 40, 50, 60, 70, 80, 90, 91];
    swap_red_blue(&mut buf);
    assert_eq!(buf, vec![30u8, 20, 10, 40, 70, 60, 50, 80, 90, 91]);
    let mut empty: Vec<u8> = Vec::new();
    swap_red_blue(&mut empty);
    assert!(empty.is_empty());
}

#[test]
fn buffer_len_is_four_bytes_per_pixel() {
    assert_eq!(pixel_buffer_len(32, 32), Some(4096));
    assert_eq!(pixel_buffer_len(0, 7), Some(0));
    assert_eq!(pixel_buffer_len(-1, 7), None);
    assert_eq!(pixel_buffer_len(i32::MAX, i32::MAX), Some(4 * (i32::MAX as usize) * (i32::MAX as usize)));
}

#[test]
fn png_bytes_become_base64_text() {
    assert_eq!(payload_from_png(Ok(b"Man".to_vec())), Ok("TWFu".to_string()));
    assert_eq!(payload_from_png(Ok(vec![0xffu8])), Ok("/w==".to_string()));
    assert_eq!(
        payload_from_png(Err("bad".to_string())),
        Err(IconError::CodecFailure("bad".to_string()))
    );
}

#[test]
fn default_payload_is_base64_of_bundled_file() {
    assert_eq!(default_icon_payload(&b"ab".to_vec()), "YWI=".to_string());
}

#[test]
fn failed_lookup_falls_back_to_default_icon() {
    let d = "DEFAULT".to_string();
    assert_eq!(icon_or_default(Err(IconError::IconNotFound), d.clone()), d);
    assert_eq!(icon_or_default(Err(IconError::MalformedBitmap), d.clone()), d);
    assert_eq!(icon_or_default(Ok("ICON".to_string()), d), "ICON".to_string());
}

#[test]
fn canonical_path_preferred_over_raw() {
    assert_eq!(
        resolve_icon_path(Some("C:/full/app.exe".to_string()), "app.exe".to_string()),
        "C:/full/app.exe".to_string()
    );
    assert_eq!(resolve_icon_path(None, "app.exe".to_string()), "app.exe".to_string());
}

#[test]
fn error_messages_are_readable() {
    assert_eq!(IconError::IconNotFound.message(), "Failed to load icon.".to_string());
    assert_eq!(IconError::BitmapBitsUnavailable.message(), "Failed to get bitmap bits.".to_string());
    assert_eq!(IconError::CodecFailure("x".to_string()).message(), "x".to_string());
}
