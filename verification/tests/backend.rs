use clipcrate::backend::{
    decode_png, encode_png, second_try, ClipError, Clipboard, FakeClipboard, PngError,
};

/// A clipboard that holds text only and leaves images to the defaults.
struct TextOnly;

impl Clipboard for TextOnly {
    fn get_text(&mut self) -> Result<String, ClipError> {
        Ok("text".to_string())
    }

    fn set_text(&mut self, _text: &str) -> Result<(), ClipError> {
        Ok(())
    }
}

fn failure(message: &str) -> ClipError {
    ClipError { message: message.to_string() }
}

#[test]
fn fake_roundtrip_and_transient_failure() {
    let mut c = FakeClipboard::default();
    c.set_text("hello").unwrap();
    assert_eq!(c.get_text().unwrap(), "hello");

    c.fail_reads = 1;
    assert!(c.get_text().is_err());
    assert_eq!(c.get_text().unwrap(), "hello");
}

fn tiny_png() -> Vec<u8> {
    let img = image::RgbaImage::from_pixel(2, 2, image::Rgba([9, 8, 7, 255]));
    let mut buf = Vec::new();
    image::DynamicImage::ImageRgba8(img)
        .write_to(&mut std::io::Cursor::new(&mut buf), image::ImageFormat::Png)
        .unwrap();
    buf
}

#[test]
fn fake_image_roundtrip_through_trait() {
    let png = tiny_png();
    let mut c = FakeClipboard::default();
    c.set_image_png(&png).unwrap();
    assert_eq!(c.get_image_png().unwrap().as_deref(), Some(png.as_slice()));
}

#[test]
fn invalid_png_is_rejected_before_touching_clipboard() {
    let mut c = FakeClipboard::default();
    assert!(decode_png(b"not a png").is_err());
    assert!(c.get_image_png().unwrap().is_none());
}

#[test]
fn a_failed_read_says_so() {
    let mut c = FakeClipboard::default();
    c.fail_reads = 2;
    assert_eq!(c.get_text().unwrap_err().message, "fake clipboard failure");
    assert_eq!(c.fail_reads, 1);
    let copy = c.clone();
    assert_eq!(copy.fail_reads, 1);
    assert_eq!(copy.text, "");
    assert!(copy.png.is_none());
}

#[test]
fn images_are_unsupported_by_default() {
    let mut c = TextOnly;
    assert!(c.get_image_png().unwrap().is_none());
    assert_eq!(
        c.set_image_png(&[1, 2, 3]).unwrap_err().message,
        "image clipboard not supported here"
    );
}

#[test]
fn decoding_gives_size_and_pixels() {
    let p = decode_png(&tiny_png()).unwrap();
    assert_eq!((p.width, p.height), (2, 2));
    assert_eq!(p.bytes, [9, 8, 7, 255].repeat(4));
}

#[test]
fn encoded_pixels_decode_to_the_same() {
    let pixels: Vec<u8> = (0..3 * 5 * 4).map(|n| (n * 7) as u8).collect();
    let png = encode_png(&pixels, 3, 5).unwrap();
    assert_ne!(png, pixels);
    let p = decode_png(&png).unwrap();
    assert_eq!((p.width, p.height), (3, 5));
    assert_eq!(p.bytes, pixels);
}

#[test]
fn too_few_pixels_are_refused() {
    let e = encode_png(&[0; 15], 2, 2).unwrap_err();
    assert!(matches!(e, PngError::SizeMismatch));
    assert_eq!(e.message(), "clipboard image buffer size mismatch");
    assert!(encode_png(&[0; 16], 2, 2).is_ok());
}

#[test]
fn an_image_without_pixels_cannot_be_written() {
    let e = encode_png(&[], 0, 4).unwrap_err();
    assert!(matches!(e, PngError::Unwritable(_)));
    assert_eq!(e.message(), "clipboard image cannot be written as PNG");
    assert!(matches!(encode_png(&[], 4, 0), Err(PngError::Unwritable(_))));
}

#[test]
fn not_a_png_is_invalid() {
    let e = decode_png(&[]).unwrap_err();
    assert!(matches!(e, PngError::Invalid(_)));
    assert_eq!(e.message(), "payload is not a valid PNG");
    let mut cut = tiny_png();
    cut.truncate(20);
    assert!(matches!(decode_png(&cut), Err(PngError::Invalid(_))));
}

#[test]
fn the_second_try_counts() {
    let ok: Result<u8, ClipError> = second_try(failure("gone"), Ok(7));
    assert_eq!(ok.unwrap(), 7);
    let bad: Result<u8, ClipError> = second_try(failure("gone"), Err(failure("still gone")));
    assert_eq!(bad.unwrap_err().message, "clipboard op failed twice: gone; still gone");
}
