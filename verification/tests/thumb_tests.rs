use image::{ImageBuffer, ImageFormat, Rgba};
use vrcwatchdog_core::thumb_writer::{render_thumb_to_webp, ThumbRenderError};

/// PNG bytes of a `w`x`h` gradient.
fn test_png(w: u32, h: u32) -> Vec<u8> {
    let img: ImageBuffer<Rgba<u8>, Vec<u8>> = ImageBuffer::from_fn(w, h, |x, y| {
        Rgba([(x * 255 / w.max(1)) as u8, (y * 255 / h.max(1)) as u8, 128, 255])
    });
    let mut out = Vec::new();
    img.write_to(&mut std::io::Cursor::new(&mut out), ImageFormat::Png).unwrap();
    out
}

fn webp_signature_present(bytes: &[u8]) -> bool {
    bytes.len() >= 12 && &bytes[0..4] == b"RIFF" && &bytes[8..12] == b"WEBP"
}

#[test]
fn render_returns_webp_bytes_with_riff_webp_signature() {
    let (bytes, _sha) = render_thumb_to_webp("in.png", Ok(test_png(800, 600)), 256).unwrap();
    assert!(webp_signature_present(&bytes));
}

#[test]
fn render_produces_blake3_hex_of_64_chars() {
    let (bytes, sha) = render_thumb_to_webp("in.png", Ok(test_png(200, 100)), 256).unwrap();
    assert_eq!(sha.len(), 64);
    assert!(sha.chars().all(|c| c.is_ascii_hexdigit()));
    assert_eq!(sha, blake3::hash(&bytes).to_hex().to_string());
}

#[test]
fn render_is_deterministic_for_same_input_and_dim() {
    let png = test_png(400, 400);
    let (b1, sha1) = render_thumb_to_webp("in.png", Ok(png.clone()), 256).unwrap();
    let (b2, sha2) = render_thumb_to_webp("in.png", Ok(png), 256).unwrap();
    assert_eq!(b1, b2);
    assert_eq!(sha1, sha2);
}

#[test]
fn render_downsamples_image_so_long_side_does_not_exceed_max_dim() {
    let (bytes, _sha) = render_thumb_to_webp("wide.png", Ok(test_png(1600, 900)), 320).unwrap();
    let decoded = image::load_from_memory(&bytes).unwrap();
    assert!(decoded.width() <= 320 && decoded.height() <= 320);
    assert_eq!(decoded.width(), 320);
}

#[test]
fn render_does_not_upscale_smaller_image() {
    let (bytes, _sha) = render_thumb_to_webp("small.png", Ok(test_png(100, 100)), 256).unwrap();
    let decoded = image::load_from_memory(&bytes).unwrap();
    assert_eq!(decoded.width(), 100);
    assert_eq!(decoded.height(), 100);
}

#[test]
fn render_returns_open_error_for_nonexistent_file() {
    let err = render_thumb_to_webp("/tmp/x/does_not_exist.png", Err("No such file or directory (os error 2)".into()), 256).unwrap_err();
    match err {
        ThumbRenderError::Open(p, _) => assert_eq!(p, "/tmp/x/does_not_exist.png"),
        other => panic!("expected Open error, got {other:?}"),
    }
}

#[test]
fn render_returns_decode_error_for_garbage_bytes_in_png_named_file() {
    let err = render_thumb_to_webp("not_actually_png.png", Ok(b"hello world this is not a png".to_vec()), 256).unwrap_err();
    assert!(matches!(err, ThumbRenderError::Decode(_)));
}

#[test]
fn render_error_messages() {
    assert_eq!(ThumbRenderError::Open("a.png".into(), "gone".into()).message(), "could not open image file a.png: gone");
    assert_eq!(ThumbRenderError::Decode("bad".into()).message(), "could not decode image: bad");
}

#[test]
fn render_keeps_a_picture_exactly_at_max_dim() {
    let (bytes, _sha) = render_thumb_to_webp("edge.png", Ok(test_png(256, 100)), 256).unwrap();
    let decoded = image::load_from_memory(&bytes).unwrap();
    assert_eq!((decoded.width(), decoded.height()), (256, 100));
}

#[test]
fn render_scales_a_tall_picture_by_its_height() {
    let (bytes, _sha) = render_thumb_to_webp("tall.png", Ok(test_png(100, 400)), 200).unwrap();
    let decoded = image::load_from_memory(&bytes).unwrap();
    assert_eq!((decoded.width(), decoded.height()), (50, 200));
}
