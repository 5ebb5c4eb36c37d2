//! JPEG frames for the LCD: encoding through the `image` crate, the
//! hardware image/GIF kept for OFF mode, GIF frame timing, and the
//! decisions of the OFF-mode playback worker.

use vstd::prelude::*;
use image::ImageError;

verus! {

#[verifier::external_type_specification]
#[verifier::external_body]
pub struct ExImageError(image::ImageError);

/// Side of the LCD in pixels.
pub const LCD_SIZE: u32 = 480;
/// Bytes of one 480x480 RGB frame.
pub const LCD_RGB_LEN: usize = 691200;

// ---------------------------------------------------------------------
// Calls into the `image` crate

/// The JPEG that `image`'s baseline encoder produces for `pixels` (RGB,
/// `width` x `height`) at `quality`.
pub uninterp spec fn jpeg_encoding(pixels: Seq<u8>, width: u32, height: u32, quality: u8) -> Seq<u8>;

/// `JpegEncoder::new_with_quality(&mut out, quality).encode(pixels, width,
/// height, Rgb8)` into a fresh buffer. The source shows: the call panics
/// unless `pixels` holds `width * height` RGB pixels; it fails exactly when
/// a dimension is 0 or above 65535 (writing to a `Vec` cannot fail); and
/// the output starts with the SOI marker `FF D8` and ends with the EOI
/// marker `FF D9`. The encoded bytes themselves are only named.
#[verifier::external_body]
fn encode_jpeg(pixels: &[u8], width: u32, height: u32, quality: u8) -> (r: Result<Vec<u8>, ImageError>)
    requires
        pixels@.len() == width * height * 3,
    ensures
        r is Ok <==> (1 <= width <= 65535 && 1 <= height <= 65535),
        r matches Ok(j) ==> {
            &&& j@ == jpeg_encoding(pixels@, width, height, quality)
            &&& j@.len() >= 4
            &&& j@[0] == 0xFFu8 && j@[1] == 0xD8u8
            &&& j@[j@.len() - 2] == 0xFFu8 && j@[j@.len() - 1] == 0xD9u8
        },
{
    let mut out = Vec::new();
    image::codecs::jpeg::JpegEncoder::new_with_quality(&mut out, quality)
        .encode(pixels, width, height, image::ExtendedColorType::Rgb8)
        .map(|()| out)
}

/// The 480x480 RGB picture of an image file: what `image::load_from_memory`
/// decodes from `bytes`, resized with Lanczos3 to 480x480 and converted to
/// 8-bit RGB; `None` when the bytes do not decode.
pub uninterp spec fn still_lcd_rgb(bytes: Seq<u8>) -> Option<Seq<u8>>;

/// `image::load_from_memory(bytes)`, then `resize_exact(480, 480,
/// Lanczos3).to_rgb8()`, as raw bytes. The source shows that the resize
/// always yields a 480x480 image, so a decoded picture has 691200 RGB bytes;
/// the decoding and the pixels are only named.
#[verifier::external_body]
fn decode_lcd_rgb(bytes: &[u8]) -> (r: Result<Vec<u8>, ImageError>)
    ensures
        r is Ok <==> still_lcd_rgb(bytes@) is Some,
        r matches Ok(rgb) ==> still_lcd_rgb(bytes@) == Some(rgb@) && rgb@.len() == LCD_RGB_LEN,
{
    match image::load_from_memory(bytes) {
        Ok(img) => Ok(img.resize_exact(480, 480, image::imageops::FilterType::Lanczos3).to_rgb8().into_raw()),
        Err(e) => Err(e),
    }
}

/// A file extension as plain text, when there is one.
pub open spec fn extension_view(extension: Option<&str>) -> Option<Seq<char>> {
    match extension {
        Some(e) => Some(e@),
        None => None,
    }
}

/// The 480x480 RGB picture of an image file read by its extension: what
/// `image` decodes from `bytes` in the format that `ImageFormat::from_extension`
/// gives for `extension`, resized with Lanczos3 to 480x480 and converted to
/// 8-bit RGB; `None` when there is no such format or the bytes do not decode
/// in it.
pub uninterp spec fn typed_lcd_rgb(extension: Option<Seq<char>>, bytes: Seq<u8>) -> Option<Seq<u8>>;

/// What `image::open` does with a file's contents: the format comes from
/// the extension alone (`ImageFormat::from_extension`, which ignores ASCII
/// case), a missing or unknown extension is refused with the same
/// `Unsupported` error that `open` gives, and otherwise
/// `load_from_memory_with_format(bytes, format)` decodes the bytes; the
/// picture is then `resize_exact(480, 480, Lanczos3).to_rgb8()`. The source
/// shows that the resize always yields 691200 RGB bytes; which extensions
/// are known, the decoding and the pixels are only named.
#[verifier::external_body]
fn decode_lcd_rgb_typed(extension: Option<&str>, bytes: &[u8]) -> (r: Result<Vec<u8>, ImageError>)
    ensures
        r is Ok <==> typed_lcd_rgb(extension_view(extension), bytes@) is Some,
        extension is None ==> r is Err,
        r matches Ok(rgb) ==> typed_lcd_rgb(extension_view(extension), bytes@) == Some(rgb@)
            && rgb@.len() == LCD_RGB_LEN,
{
    let format = match extension {
        None => return Err(ImageError::Unsupported(image::error::ImageFormatHint::Unknown.into())),
        Some(ext) => match image::ImageFormat::from_extension(ext) {
            Some(f) => f,
            None => return Err(ImageError::Unsupported(image::error::ImageFormatHint::PathExtension(ext.into()).into())),
        },
    };
    match image::load_from_memory_with_format(bytes, format) {
        Ok(img) => Ok(img.resize_exact(480, 480, image::imageops::FilterType::Lanczos3).to_rgb8().into_raw()),
        Err(e) => Err(e),
    }
}

/// The 480x480 RGB picture of a `width` x `height` RGBA picture: resized
/// with Lanczos3 and converted to 8-bit RGB.
pub uninterp spec fn rgba_lcd_rgb(rgba: Seq<u8>, width: u32, height: u32) -> Seq<u8>;

/// `DynamicImage::ImageRgba8(RgbaImage::from_raw(width, height, rgba))`,
/// then `resize_exact(480, 480, Lanczos3).to_rgb8()`, as raw bytes. The
/// source shows that `from_raw` accepts any buffer of at least
/// `4 * width * height` bytes and that the resize always yields a 480x480
/// image; the pixels are only named.
#[verifier::external_body]
fn scale_rgba(rgba: &[u8], width: u32, height: u32) -> (rgb: Vec<u8>)
    requires
        rgba@.len() >= 4 * width * height,
    ensures
        rgb@ == rgba_lcd_rgb(rgba@, width, height),
        rgb@.len() == LCD_RGB_LEN,
{
    match image::RgbaImage::from_raw(width, height, rgba.to_vec()) {
        Some(buffer) => image::DynamicImage::ImageRgba8(buffer)
            .resize_exact(480, 480, image::imageops::FilterType::Lanczos3)
            .to_rgb8()
            .into_raw(),
        None => Vec::new(),
    }
}

/// The buffer starts with a GIF signature (`GIF87a` or `GIF89a`).
pub open spec fn is_gif_signature(b: Seq<u8>) -> bool {
    b.len() >= 6 && b[0] == 0x47u8 && b[1] == 0x49u8 && b[2] == 0x46u8 && b[3] == 0x38u8
        && (b[4] == 0x37u8 || b[4] == 0x39u8) && b[5] == 0x61u8
}

/// Whether `image::guess_format` recognises the buffer's magic bytes.
pub uninterp spec fn recognized_image(bytes: Seq<u8>) -> bool;

/// `image::guess_format(bytes)`, reporting whether the format is GIF. The
/// source matches a fixed table of leading signatures; a GIF is reported
/// exactly when the buffer starts with `GIF87a` or `GIF89a` (no earlier
/// entry of the table can match such a buffer). Which other signatures are
/// recognised is only named.
#[verifier::external_body]
fn guess_is_gif(bytes: &[u8]) -> (r: Result<bool, ImageError>)
    ensures
        r is Ok <==> recognized_image(bytes@),
        is_gif_signature(bytes@) ==> r is Ok,
        r matches Ok(g) ==> g == is_gif_signature(bytes@),
{
    match image::guess_format(bytes) {
        Ok(image::ImageFormat::Gif) => Ok(true),
        Ok(_) => Ok(false),
        Err(e) => Err(e),
    }
}

/// One decoded GIF frame as plain values: its composited RGBA picture (at
/// least `4 * width * height` bytes), width, height, and its delay as a
/// millisecond ratio.
pub type GifFrameData = (Vec<u8>, u32, u32, u32, u32);

/// The frames that `image`'s GIF decoder yields for a file, each as its
/// RGBA bytes, width, height and delay ratio; `None` when decoding fails.
pub uninterp spec fn gif_frames(bytes: Seq<u8>) -> Option<Seq<(Seq<u8>, u32, u32, u32, u32)>>;

pub open spec fn gif_frame_view(f: GifFrameData) -> (Seq<u8>, u32, u32, u32, u32) {
    (f.0@, f.1, f.2, f.3, f.4)
}

/// `GifDecoder::new(Cursor::new(bytes))`, then `into_frames().collect_frames()`,
/// each frame taken apart into `into_buffer()` (width, height, raw bytes)
/// and `delay().numer_denom_ms()`. The outer error is the decoder's, the
/// inner one the frames'. The source shows that each buffer holds at least
/// `4 * width * height` bytes (the decoder builds it with
/// `ImageBuffer::from_raw`, which checks that); the frames are only named.
#[verifier::external_body]
fn decode_gif_frames(bytes: &[u8]) -> (r: Result<Result<Vec<GifFrameData>, ImageError>, ImageError>)
    ensures
        (r matches Ok(Ok(_))) <==> gif_frames(bytes@) is Some,
        r matches Ok(Ok(frames)) ==> gif_frames(bytes@) == Some(frames@.map_values(|f: GifFrameData| gif_frame_view(f))),
        r matches Ok(Ok(frames)) ==> forall|i: int| 0 <= i < frames@.len()
            ==> (#[trigger] frames@[i]).0@.len() >= 4 * frames@[i].1 * frames@[i].2,
{
    let decoder = match image::codecs::gif::GifDecoder::new(std::io::Cursor::new(bytes)) {
        Ok(d) => d,
        Err(e) => return Err(e),
    };
    Ok(image::AnimationDecoder::into_frames(decoder).collect_frames().map(|frames| {
        frames.into_iter().map(|f| {
            let (numer, denom) = f.delay().numer_denom_ms();
            let buffer = f.into_buffer();
            let (width, height) = buffer.dimensions();
            (buffer.into_raw(), width, height, numer, denom)
        }).collect()
    }))
}

/// The text of an `image` error (its `Display`). Nothing is stated of it.
#[verifier::external_body]
pub(crate) fn image_error_text(e: &ImageError) -> (s: String) {
    e.to_string()
}

// ---------------------------------------------------------------------
// LCD JPEGs

/// The LCD's hardware-mode JPEG of a 480x480 RGB picture: quality 95.
pub open spec fn lcd_jpeg_of(rgb: Seq<u8>) -> Seq<u8> {
    jpeg_encoding(rgb, 480, 480, 95)
}

/// A complete JPEG: it starts with the SOI marker `FF D8` and ends with the
/// EOI marker `FF D9`.
pub open spec fn framed_jpeg(j: Seq<u8>) -> bool {
    &&& j.len() >= 4
    &&& j[0] == 0xFFu8 && j[1] == 0xD8u8
    &&& j[j.len() - 2] == 0xFFu8 && j[j.len() - 1] == 0xD9u8
}

/// Encodes a 480x480 RGB picture as the LCD's hardware-mode JPEG (quality
/// 95); this always succeeds.
pub fn encode_for_lcd(rgb: &[u8]) -> (r: Result<Vec<u8>, ImageError>)
    requires
        rgb@.len() == LCD_RGB_LEN,
    ensures
        r matches Ok(j) && j@ == lcd_jpeg_of(rgb@) && framed_jpeg(j@),
{
    encode_jpeg(rgb, LCD_SIZE, LCD_SIZE, 95)
}

/// The JPEG flashed as the LCD's hardware image for an image file, given
/// its extension and its bytes: the image decoded in the format its
/// extension names, resized to 480x480, at quality 95. It fails exactly
/// when the extension names no format or the bytes do not decode in it; a
/// file without an extension always fails.
pub fn flash_jpeg(extension: Option<&str>, bytes: &[u8]) -> (r: Result<Vec<u8>, ImageError>)
    ensures
        r is Ok <==> typed_lcd_rgb(extension_view(extension), bytes@) is Some,
        extension is None ==> r is Err,
        r matches Ok(j) ==> j@ == lcd_jpeg_of(typed_lcd_rgb(extension_view(extension), bytes@)->0)
            && framed_jpeg(j@),
{
    let rgb = match decode_lcd_rgb_typed(extension, bytes) {
        Ok(rgb) => rgb,
        Err(e) => return Err(e),
    };
    encode_for_lcd(&rgb)
}

/// The all-black frame sent when the LCD refuses to return to its hardware
/// screen: 480x480 black at quality 60.
pub fn black_frame_jpeg() -> (r: Result<Vec<u8>, ImageError>)
    ensures
        r matches Ok(j) && j@ == jpeg_encoding(Seq::new(691200, |i: int| 0u8), 480, 480, 60),
{
    let mut black: Vec<u8> = Vec::new();
    for i in 0..LCD_RGB_LEN
        invariant
            black@ == Seq::new(i as nat, |k: int| 0u8),
    {
        black.push(0);
        assert(black@ =~= Seq::new((i + 1) as nat, |k: int| 0u8));
    }
    encode_jpeg(&black, LCD_SIZE, LCD_SIZE, 60)
}

/// The self-test's check of the capture pipeline: a captured frame encodes
/// at quality 75 to a complete JPEG (SOI first, EOI last). For a 480x480
/// frame this always holds.
pub fn self_test_frame(pixels: &[u8]) -> (r: Result<(), String>)
    requires
        pixels@.len() == LCD_RGB_LEN,
    ensures
        r is Ok,
{
    let jpeg = match encode_jpeg(pixels, LCD_SIZE, LCD_SIZE, 75) {
        Ok(j) => j,
        Err(e) => return Err(image_error_text(&e)),
    };
    let n = jpeg.len();
    if jpeg[0] == 0xff && jpeg[1] == 0xd8 && jpeg[n - 2] == 0xff && jpeg[n - 1] == 0xd9 {
        Ok(())
    } else {
        Err(String::from_str("The capture pipeline did not produce a valid JPEG"))
    }
}

/// The JPEG quality used while streaming: the setting, limited to 35..=85.
pub open spec fn stream_quality_spec(quality: u8) -> u8 {
    if quality < 35 { 35 } else if quality > 85 { 85 } else { quality }
}

/// The streaming quality for a quality setting.
pub fn stream_quality(quality: u8) -> (q: u8)
    ensures
        q == stream_quality_spec(quality),
{
    if quality < 35 { 35 } else if quality > 85 { 85 } else { quality }
}

/// Largest streamed JPEG that needs no re-encoding: 24 KiB (24 image reports).
pub const STREAM_JPEG_BUDGET: usize = 24576;

/// Whether a streamed JPEG of `len` bytes at `quality` must be re-encoded,
/// and at which quality: at 50, when it exceeds the budget and was encoded
/// above 50, so that transfer and decoding fit in one 30 Hz frame.
pub fn fallback_quality(len: usize, quality: u8) -> (r: Option<u8>)
    ensures
        r == (if len > STREAM_JPEG_BUDGET && quality > 50 { Some(50u8) } else { None::<u8> }),
{
    if len > STREAM_JPEG_BUDGET && quality > 50 { Some(50) } else { None }
}

/// The JPEG streamed for a captured frame.
pub open spec fn stream_jpeg_spec(pixels: Seq<u8>, quality: u8) -> Seq<u8> {
    let q = stream_quality_spec(quality);
    let first = jpeg_encoding(pixels, 480, 480, q);
    if first.len() > STREAM_JPEG_BUDGET && q > 50 { jpeg_encoding(pixels, 480, 480, 50) } else { first }
}

/// Encodes a captured 480x480 RGB frame for streaming: at the streaming
/// quality, and again at quality 50 when that JPEG is too large.
pub fn encode_stream_frame(pixels: &[u8], quality: u8) -> (r: Result<Vec<u8>, ImageError>)
    requires
        pixels@.len() == LCD_RGB_LEN,
    ensures
        r matches Ok(j) && j@ == stream_jpeg_spec(pixels@, quality),
{
    let q = stream_quality(quality);
    let first = encode_jpeg(pixels, LCD_SIZE, LCD_SIZE, q);
    let jpeg = match first {
        Ok(j) => j,
        Err(e) => return Err(e),
    };
    match fallback_quality(jpeg.len(), q) {
        Some(lower) => encode_jpeg(pixels, LCD_SIZE, LCD_SIZE, lower),
        None => Ok(jpeg),
    }
}

// ---------------------------------------------------------------------
// GIF timing

/// A frame delay in whole milliseconds: the delay ratio rounded up and kept
/// within `lo..=hi`, or 100 ms when the ratio has no denominator.
pub open spec fn frame_delay_spec(numer: u32, denom: u32, lo: u64, hi: u64) -> u64 {
    if denom == 0 {
        100
    } else {
        let ms = (numer as int + denom as int - 1) / denom as int;
        if ms < lo { lo } else if ms > hi { hi } else { ms as u64 }
    }
}

/// The delay of a GIF frame in whole milliseconds (see `frame_delay_spec`).
pub fn frame_delay_ms(numer: u32, denom: u32, lo: u64, hi: u64) -> (ms: u64)
    requires
        lo <= hi,
    ensures
        ms == frame_delay_spec(numer, denom, lo, hi),
{
    if denom == 0 {
        return 100;
    }
    let ms = (numer as u64 + denom as u64 - 1) / denom as u64;
    if ms < lo { lo } else if ms > hi { hi } else { ms }
}

/// Shortest delay of a hardware-media GIF frame.
pub const HARDWARE_MIN_DELAY_MS: u64 = 20;
/// Longest delay of a hardware-media GIF frame.
pub const HARDWARE_MAX_DELAY_MS: u64 = 10000;

/// Timing law: every GIF frame of hardware media is shown for 20 ms to
/// 10 s, or 100 ms when the GIF gives no usable delay.
pub proof fn lemma_hardware_delay_bounds(numer: u32, denom: u32)
    ensures
        ({
            let ms = frame_delay_spec(numer, denom, HARDWARE_MIN_DELAY_MS, HARDWARE_MAX_DELAY_MS);
            20 <= ms <= 10000
        }),
{
}

// ---------------------------------------------------------------------
// Hardware media

/// One frame of hardware media: its JPEG and how long it is shown.
#[derive(Debug)]
pub struct HardwareFrame {
    pub jpeg: Vec<u8>,
    pub delay_ms: u64,
}

/// The image or GIF shown while streaming is off: its original bytes (which
/// are cached) and its frames, ready for the LCD.
#[derive(Debug)]
pub struct HardwareMedia {
    pub source: Vec<u8>,
    pub frames: Vec<HardwareFrame>,
}

/// Why hardware media could not be prepared.
#[derive(Debug)]
pub enum MediaError {
    /// The bytes are not in a recognised image format.
    UnsupportedFormat(ImageError),
    /// The GIF decoder rejected the file.
    DecodeGif(ImageError),
    /// A GIF frame could not be decoded.
    DecodeGifFrames(ImageError),
    /// The still image could not be decoded.
    DecodeImage(ImageError),
    /// A frame could not be encoded for the LCD.
    Encode(ImageError),
    /// The media has no frames.
    NoFrames,
}

/// The text an error's message starts with; all but `NoFrames` continue
/// with the `image` error's own text.
pub open spec fn media_error_prefix(e: MediaError) -> Seq<char> {
    match e {
        MediaError::UnsupportedFormat(_) => "Unsupported hardware image/GIF format: "@,
        MediaError::DecodeGif(_) => "Could not decode hardware GIF: "@,
        MediaError::DecodeGifFrames(_) => "Could not decode hardware GIF frames: "@,
        MediaError::DecodeImage(_) => "Could not decode hardware image: "@,
        MediaError::Encode(_) => "Could not encode hardware media for the LCD: "@,
        MediaError::NoFrames => "Hardware image/GIF contained no displayable frames"@,
    }
}

impl MediaError {
    /// The error text.
    pub fn message(&self) -> (s: String)
        ensures
            crate::text::starts_with_seq(s@, media_error_prefix(*self)),
            *self matches MediaError::NoFrames ==> s@ == media_error_prefix(*self),
    {
        let (prefix, err): (&str, Option<&ImageError>) = match self {
            MediaError::UnsupportedFormat(e) => ("Unsupported hardware image/GIF format: ", Some(e)),
            MediaError::DecodeGif(e) => ("Could not decode hardware GIF: ", Some(e)),
            MediaError::DecodeGifFrames(e) => ("Could not decode hardware GIF frames: ", Some(e)),
            MediaError::DecodeImage(e) => ("Could not decode hardware image: ", Some(e)),
            MediaError::Encode(e) => ("Could not encode hardware media for the LCD: ", Some(e)),
            MediaError::NoFrames => ("Hardware image/GIF contained no displayable frames", None),
        };
        let mut v: Vec<char> = Vec::new();
        crate::text::push_str(&mut v, prefix);
        let ghost head = v@;
        if let Some(e) = err {
            let t = image_error_text(e);
            crate::text::push_str(&mut v, t.as_str());
        }
        assert(v@.subrange(0, head.len() as int) =~= head);
        crate::text::string_of(&v)
    }
}

/// A frame of hardware media as plain values: its JPEG and delay.
pub open spec fn frame_view(f: HardwareFrame) -> (Seq<u8>, u64) {
    (f.jpeg@, f.delay_ms)
}

/// The hardware-media frame of a decoded GIF frame: its picture scaled to
/// the LCD as a quality-95 JPEG, and its delay in whole milliseconds within
/// 20 ms to 10 s.
pub open spec fn gif_hardware_frame(f: (Seq<u8>, u32, u32, u32, u32)) -> (Seq<u8>, u64) {
    (
        lcd_jpeg_of(rgba_lcd_rgb(f.0, f.1, f.2)),
        frame_delay_spec(f.3, f.4, HARDWARE_MIN_DELAY_MS, HARDWARE_MAX_DELAY_MS),
    )
}

/// The frames of hardware media made from a file's bytes, when they
/// decode: a GIF's frames one by one, or the one untimed frame of any other
/// image.
pub open spec fn hardware_frames(bytes: Seq<u8>) -> Option<Seq<(Seq<u8>, u64)>> {
    if is_gif_signature(bytes) {
        match gif_frames(bytes) {
            Some(fs) => Some(fs.map_values(|f: (Seq<u8>, u32, u32, u32, u32)| gif_hardware_frame(f))),
            None => None,
        }
    } else {
        match still_lcd_rgb(bytes) {
            Some(rgb) => Some(seq![(lcd_jpeg_of(rgb), 0u64)]),
            None => None,
        }
    }
}

impl HardwareMedia {
    /// Media from its source bytes and prepared frames; refused without frames.
    pub fn from_frames(source: Vec<u8>, frames: Vec<HardwareFrame>) -> (r: Result<HardwareMedia, MediaError>)
        ensures
            frames@.len() == 0 ==> r matches Err(MediaError::NoFrames),
            frames@.len() > 0 ==> (r matches Ok(m) && m.source@ == source@ && m.frames@ == frames@),
    {
        if frames.len() == 0 {
            Err(MediaError::NoFrames)
        } else {
            Ok(HardwareMedia { source, frames })
        }
    }

    /// Prepares hardware media from an image or GIF file's bytes (see
    /// `hardware_frames`): a GIF becomes one 480x480 quality-95 JPEG per
    /// frame, timed by the frame's own delay (20 ms to 10 s); any other
    /// image becomes one such JPEG shown indefinitely (delay 0). Unknown
    /// formats, files that do not decode and GIFs without frames are refused.
    pub fn from_bytes(bytes: Vec<u8>) -> (r: Result<HardwareMedia, MediaError>)
        ensures
            (r matches Err(MediaError::UnsupportedFormat(_))) <==> !recognized_image(bytes@),
            recognized_image(bytes@) ==> match hardware_frames(bytes@) {
                None => if is_gif_signature(bytes@) {
                    r matches Err(MediaError::DecodeGif(_)) || r matches Err(MediaError::DecodeGifFrames(_))
                } else {
                    r matches Err(MediaError::DecodeImage(_))
                },
                Some(fs) => if fs.len() == 0 {
                    r matches Err(MediaError::NoFrames)
                } else {
                    r matches Ok(m) && m.source@ == bytes@ && m.frames@.map_values(|f: HardwareFrame| frame_view(f)) == fs
                },
            },
    {
        let is_gif = match guess_is_gif(bytes.as_slice()) {
            Ok(g) => g,
            Err(e) => return Err(MediaError::UnsupportedFormat(e)),
        };
        let mut frames: Vec<HardwareFrame> = Vec::new();
        if is_gif {
            let decoded = match decode_gif_frames(bytes.as_slice()) {
                Err(e) => return Err(MediaError::DecodeGif(e)),
                Ok(Err(e)) => return Err(MediaError::DecodeGifFrames(e)),
                Ok(Ok(d)) => d,
            };
            let ghost fs = decoded@.map_values(|f: GifFrameData| gif_frame_view(f));
            for i in 0..decoded.len()
                invariant
                    fs == decoded@.map_values(|f: GifFrameData| gif_frame_view(f)),
                    forall|k: int| 0 <= k < decoded@.len()
                        ==> (#[trigger] decoded@[k]).0@.len() >= 4 * decoded@[k].1 * decoded@[k].2,
                    frames@.map_values(|f: HardwareFrame| frame_view(f))
                        == fs.take(i as int).map_values(|f: (Seq<u8>, u32, u32, u32, u32)| gif_hardware_frame(f)),
            {
                let f = &decoded[i];
                let delay_ms = frame_delay_ms(f.3, f.4, HARDWARE_MIN_DELAY_MS, HARDWARE_MAX_DELAY_MS);
                let rgb = scale_rgba(f.0.as_slice(), f.1, f.2);
                let jpeg = match encode_for_lcd(rgb.as_slice()) {
                    Ok(j) => j,
                    Err(e) => return Err(MediaError::Encode(e)),
                };
                let ghost before = frames@.map_values(|f: HardwareFrame| frame_view(f));
                frames.push(HardwareFrame { jpeg, delay_ms });
                proof {
                    assert(fs[i as int] == gif_frame_view(decoded@[i as int]));
                    assert(frames@.map_values(|f: HardwareFrame| frame_view(f)) =~= before.push(
                        gif_hardware_frame(fs[i as int]),
                    ));
                    assert(fs.take(i as int + 1) =~= fs.take(i as int).push(fs[i as int]));
                    assert(fs.take(i as int + 1).map_values(|f: (Seq<u8>, u32, u32, u32, u32)| gif_hardware_frame(f))
                        =~= fs.take(i as int).map_values(|f: (Seq<u8>, u32, u32, u32, u32)| gif_hardware_frame(f)).push(
                        gif_hardware_frame(fs[i as int]),
                    ));
                }
            }
            proof {
                assert(fs.take(decoded@.len() as int) =~= fs);
            }
        } else {
            let rgb = match decode_lcd_rgb(bytes.as_slice()) {
                Ok(rgb) => rgb,
                Err(e) => return Err(MediaError::DecodeImage(e)),
            };
            let jpeg = match encode_for_lcd(rgb.as_slice()) {
                Ok(j) => j,
                Err(e) => return Err(MediaError::Encode(e)),
            };
            frames.push(HardwareFrame { jpeg, delay_ms: 0 });
            proof {
                assert(frames@.map_values(|f: HardwareFrame| frame_view(f)) =~= seq![(lcd_jpeg_of(rgb@), 0u64)]);
            }
        }
        HardwareMedia::from_frames(bytes, frames)
    }
}

// ---------------------------------------------------------------------
// Reading, caching and reporting hardware media

/// The error when a hardware image/GIF file cannot be read: from the
/// chosen file or from the cache.
pub fn read_failure(cached: bool, io_error: &str) -> (s: String)
    ensures
        s@ == (if cached {
            "Could not read cached hardware image/GIF: "@
        } else {
            "Could not read hardware image/GIF: "@
        }) + io_error@,
{
    let mut v: Vec<char> = Vec::new();
    if cached {
        crate::text::push_str(&mut v, "Could not read cached hardware image/GIF: ");
    } else {
        crate::text::push_str(&mut v, "Could not read hardware image/GIF: ");
    }
    crate::text::push_str(&mut v, io_error);
    crate::text::string_of(&v)
}

/// The error when the cached media no longer decodes (the cache file is
/// then removed).
pub fn invalid_cache(error: &MediaError) -> (s: String)
    ensures
        crate::text::starts_with_seq(s@, "Cached hardware image/GIF was invalid and was removed: "@ + media_error_prefix(*error)),
{
    let m = error.message();
    let mut v: Vec<char> = Vec::new();
    crate::text::push_str(&mut v, "Cached hardware image/GIF was invalid and was removed: ");
    let ghost head = v@;
    crate::text::push_str(&mut v, m.as_str());
    proof {
        let p = media_error_prefix(*error);
        assert(v@ == head + m@);
        assert(v@.subrange(0, (head + p).len() as int) =~= head + p);
    }
    crate::text::string_of(&v)
}

/// The error when the cache cannot be saved.
pub fn cache_save_failure(io_error: &str) -> (s: String)
    ensures
        s@ == "Could not save the OFF-mode hardware media cache: "@ + io_error@,
{
    let mut v: Vec<char> = Vec::new();
    crate::text::push_str(&mut v, "Could not save the OFF-mode hardware media cache: ");
    crate::text::push_str(&mut v, io_error);
    crate::text::string_of(&v)
}

/// The note left when OFF-mode playback gave up.
pub fn playback_failure_note(error: &str) -> (s: String)
    ensures
        s@ == "OFF-mode hardware media playback failed: "@ + error@ + "\n"@,
{
    let mut v: Vec<char> = Vec::new();
    crate::text::push_str(&mut v, "OFF-mode hardware media playback failed: ");
    crate::text::push_str(&mut v, error);
    crate::text::push_str(&mut v, "\n");
    crate::text::string_of(&v)
}

} // verus!
