//! The clipboard behind a tiny trait, so that the watcher runs without a real
//! one, and the PNG coding of images on it.

use vstd::prelude::*;

verus! {

/// Why a clipboard operation failed, in words.
#[derive(Debug)]
pub struct ClipError {
    pub message: String,
}

/// Reads and writes UTF-8 text (and PNG bytes) from a clipboard.
pub trait Clipboard: Send + Sized {
    fn get_text(&mut self) -> Result<String, ClipError>;

    fn set_text(&mut self, text: &str) -> Result<(), ClipError>;

    /// PNG-encoded image bytes, if the clipboard currently holds an image.
    fn get_image_png(&mut self) -> (res: Result<Option<Vec<u8>>, ClipError>)
        default_ensures
            res == Ok::<Option<Vec<u8>>, ClipError>(None),
            *final(self) == *old(self),
    {
        Ok(None)
    }

    /// Put PNG bytes on the clipboard as an image (best-effort per platform).
    fn set_image_png(&mut self, png: &[u8]) -> (res: Result<(), ClipError>)
        default_ensures
            res matches Err(e) && e.message@ == "image clipboard not supported here"@,
            *final(self) == *old(self),
    {
        Err(ClipError { message: "image clipboard not supported here".to_owned() })
    }
}

/// In-memory clipboard.
pub struct FakeClipboard {
    pub text: String,
    pub png: Option<Vec<u8>>,
    /// How many of the next reads of text fail.
    pub fail_reads: usize,
}

/// The model of an in-memory clipboard.
#[verifier::ext_equal]
pub struct FakeClipboardView {
    pub text: Seq<char>,
    pub png: Option<Seq<u8>>,
    pub fail_reads: nat,
}

/// The bytes of an image, if there is one.
pub open spec fn image_bytes(png: Option<Vec<u8>>) -> Option<Seq<u8>> {
    match png {
        Some(b) => Some(b@),
        None => None,
    }
}

impl View for FakeClipboard {
    type V = FakeClipboardView;

    open spec fn view(&self) -> FakeClipboardView {
        FakeClipboardView {
            text: self.text@,
            png: image_bytes(self.png),
            fail_reads: self.fail_reads as nat,
        }
    }
}

impl Default for FakeClipboard {
    fn default() -> (c: FakeClipboard)
        ensures
            c@ == (FakeClipboardView { text: seq![], png: None, fail_reads: 0 }),
    {
        let c = FakeClipboard { text: String::new(), png: None, fail_reads: 0 };
        assert(c.text@ =~= Seq::<char>::empty());
        c
    }
}

/// A copy of some bytes.
pub(crate) fn copied(bytes: &[u8]) -> (out: Vec<u8>)
    ensures
        out@ == bytes@,
{
    let mut out: Vec<u8> = Vec::new();
    let mut i: usize = 0;
    while i < bytes.len()
        invariant
            i <= bytes@.len(),
            out@ == bytes@.take(i as int),
        decreases bytes@.len() - i,
    {
        out.push(bytes[i]);
        i = i + 1;
        assert(out@ =~= bytes@.take(i as int));
    }
    assert(bytes@.take(i as int) =~= bytes@);
    out
}

impl Clone for FakeClipboard {
    fn clone(&self) -> (out: FakeClipboard)
        ensures
            out@ == self@,
    {
        let png: Option<Vec<u8>> = match &self.png {
            Some(b) => Some(copied(b.as_slice())),
            None => None,
        };
        FakeClipboard { text: self.text.clone(), png, fail_reads: self.fail_reads }
    }
}

impl Clipboard for FakeClipboard {
    fn get_text(&mut self) -> (res: Result<String, ClipError>)
        ensures
            match res {
                Ok(t) => {
                    &&& old(self)@.fail_reads == 0
                    &&& t@ == old(self)@.text
                    &&& final(self)@ == old(self)@
                },
                Err(e) => {
                    &&& old(self)@.fail_reads > 0
                    &&& e.message@ == "fake clipboard failure"@
                    &&& final(self)@ == (FakeClipboardView {
                        fail_reads: (old(self)@.fail_reads - 1) as nat,
                        ..old(self)@
                    })
                },
            },
    {
        if self.fail_reads > 0 {
            self.fail_reads = self.fail_reads - 1;
            Err(ClipError { message: "fake clipboard failure".to_owned() })
        } else {
            Ok(self.text.clone())
        }
    }

    fn set_text(&mut self, text: &str) -> (res: Result<(), ClipError>)
        ensures
            res is Ok,
            final(self)@ == (FakeClipboardView { text: text@, ..old(self)@ }),
    {
        self.text = text.to_owned();
        Ok(())
    }

    fn get_image_png(&mut self) -> (res: Result<Option<Vec<u8>>, ClipError>)
        ensures
            res matches Ok(png) && image_bytes(png) == old(self)@.png,
            final(self)@ == old(self)@,
    {
        match &self.png {
            Some(b) => Ok(Some(copied(b.as_slice()))),
            None => Ok(None),
        }
    }

    fn set_image_png(&mut self, png: &[u8]) -> (res: Result<(), ClipError>)
        ensures
            res is Ok,
            final(self)@ == (FakeClipboardView { png: Some(png@), ..old(self)@ }),
    {
        self.png = Some(copied(png));
        Ok(())
    }
}

/// What comes of an operation that failed on a cached handle and was tried once
/// more on a fresh one. A clipboard that changed ownership invalidates cached
/// handles, so only the second failure counts.
pub fn second_try<T>(first: ClipError, second: Result<T, ClipError>) -> (res: Result<T, ClipError>)
    ensures
        match (second, res) {
            (Ok(v), Ok(out)) => out == v,
            (Err(e), Err(out)) => out.message@ == "clipboard op failed twice: "@ + first.message@
                + "; "@ + e.message@,
            _ => false,
        },
{
    match second {
        Ok(v) => Ok(v),
        Err(e) => Err(
            ClipError {
                message: "clipboard op failed twice: ".to_owned().concat(
                    first.message.as_str(),
                ).concat("; ").concat(e.message.as_str()),
            },
        ),
    }
}

// ---------------------------------------------------------------------------
// Images

/// `image::ImageError`, why an image could not be read or written.
#[verifier::external_type_specification]
#[verifier::external_body]
pub struct ExImageError(image::ImageError);

/// Pixels as four bytes each (red, green, blue, alpha), row by row.
#[derive(Debug)]
pub struct Pixels {
    pub width: u32,
    pub height: u32,
    pub bytes: Vec<u8>,
}

/// Why an image could not be coded.
#[derive(Debug)]
pub enum PngError {
    /// The bytes are no PNG image.
    Invalid(image::ImageError),
    /// There are fewer bytes than the size of the image asks for, or too many to
    /// count.
    SizeMismatch,
    /// The image cannot be written as PNG.
    Unwritable(image::ImageError),
}

impl PngError {
    /// The failure in words, apart from what the image's own error says.
    pub fn message(&self) -> (out: String)
        ensures
            out@ == match self {
                PngError::Invalid(_) => "payload is not a valid PNG"@,
                PngError::SizeMismatch => "clipboard image buffer size mismatch"@,
                PngError::Unwritable(_) => "clipboard image cannot be written as PNG"@,
            },
    {
        match self {
            PngError::Invalid(_) => "payload is not a valid PNG".to_owned(),
            PngError::SizeMismatch => "clipboard image buffer size mismatch".to_owned(),
            PngError::Unwritable(_) => "clipboard image cannot be written as PNG".to_owned(),
        }
    }
}

/// The width, height and pixels that the `image` crate reads out of PNG bytes;
/// `None` where it finds no PNG image.
pub uninterp spec fn decoded_png(png: Seq<u8>) -> Option<(u32, u32, Seq<u8>)>;

/// `image::load_from_memory_with_format` for PNG, then `to_rgba8`: reads the
/// image that the bytes hold, or fails. Whether it fails, and the size and
/// pixels it finds, depend on the bytes alone; every pixel takes four bytes.
#[verifier::external_body]
fn load_png(png: &[u8]) -> (res: Result<Pixels, image::ImageError>)
    ensures
        match res {
            Ok(p) => decoded_png(png@) == Some((p.width, p.height, p.bytes@)) && p.bytes@.len() == 4
                * p.width * p.height,
            Err(_) => decoded_png(png@) is None,
        },
{
    let rgba = image::load_from_memory_with_format(png, image::ImageFormat::Png)?.to_rgba8();
    Ok(Pixels { width: rgba.width(), height: rgba.height(), bytes: rgba.into_raw() })
}

/// The PNG bytes that the `image` crate makes of the pixels of an image.
pub uninterp spec fn encoded_png(data: Seq<u8>, width: u32, height: u32) -> Seq<u8>;

/// The `image` crate reads images of at most this many bytes of pixels.
pub const READ_LIMIT: u64 = 0x2000_0000;

/// What reading back an image gives that was written as PNG: the image itself, or
/// nothing where it is larger than the reader admits.
pub open spec fn read_back(data: Seq<u8>, width: u32, height: u32) -> Option<(u32, u32, Seq<u8>)> {
    if data.len() <= READ_LIMIT {
        Some((width, height, data))
    } else {
        None
    }
}

/// `image::RgbaImage::from_raw`, then `image::DynamicImage::write_to` for PNG:
/// writes an image of which every pixel is given. This fails for an image
/// without pixels only. The bytes depend on the pixels and the size alone, and
/// the format loses nothing: they read as the image that was written, as far as
/// the reader's default limit on memory admits its size.
#[verifier::external_body]
fn write_png(data: &[u8], width: u32, height: u32) -> (res: Result<Vec<u8>, image::ImageError>)
    requires
        data@.len() == 4 * width * height,
        4 * width <= usize::MAX,
    ensures
        match res {
            Ok(png) => {
                &&& width > 0
                &&& height > 0
                &&& png@ == encoded_png(data@, width, height)
                &&& decoded_png(png@) == read_back(data@, width, height)
            },
            Err(_) => width == 0 || height == 0,
        },
{
    let img = image::RgbaImage::from_raw(width, height, data.to_vec()).unwrap();
    let mut out: Vec<u8> = Vec::new();
    image::DynamicImage::ImageRgba8(img).write_to(
        &mut std::io::Cursor::new(&mut out),
        image::ImageFormat::Png,
    )?;
    Ok(out)
}

/// Read the image that PNG bytes hold.
pub fn decode_png(png: &[u8]) -> (res: Result<Pixels, PngError>)
    ensures
        match res {
            Ok(p) => decoded_png(png@) == Some((p.width, p.height, p.bytes@)) && p.bytes@.len() == 4
                * p.width * p.height,
            Err(e) => decoded_png(png@) is None && e is Invalid,
        },
{
    match load_png(png) {
        Ok(p) => Ok(p),
        Err(e) => Err(PngError::Invalid(e)),
    }
}

/// Whether there are fewer bytes than an image of a size asks for, or a row of it
/// takes more bytes than the machine can count.
pub open spec fn size_mismatch(len: nat, width: u32, height: u32) -> bool {
    len < 4 * width * height || 4 * width > usize::MAX
}

/// Write pixels as PNG.
pub fn encode_png(data: &[u8], width: u32, height: u32) -> (res: Result<Vec<u8>, PngError>)
    requires
        data@.len() <= 4 * width * height,
    ensures
        match res {
            Ok(png) => {
                &&& !size_mismatch(data@.len(), width, height)
                &&& width > 0
                &&& height > 0
                &&& png@ == encoded_png(data@, width, height)
                &&& decoded_png(png@) == read_back(data@, width, height)
            },
            Err(PngError::SizeMismatch) => size_mismatch(data@.len(), width, height),
            Err(PngError::Unwritable(_)) => {
                &&& !size_mismatch(data@.len(), width, height)
                &&& width == 0 || height == 0
            },
            Err(PngError::Invalid(_)) => false,
        },
{
    assert(4 * width * height <= 4 * u32::MAX * u32::MAX) by (nonlinear_arith)
        requires
            width <= u32::MAX,
            height <= u32::MAX,
    ;
    let wanted: u128 = 4 * (width as u128) * (height as u128);
    if (data.len() as u128) < wanted || 4 * (width as u128) > usize::MAX as u128 {
        return Err(PngError::SizeMismatch);
    }
    match write_png(data, width, height) {
        Ok(png) => Ok(png),
        Err(e) => Err(PngError::Unwritable(e)),
    }
}

} // verus!
