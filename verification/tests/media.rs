use std::io::Cursor;

use corsair_elite_display::media::{
    black_frame_jpeg, encode_for_lcd, encode_stream_frame, fallback_quality, flash_jpeg, frame_delay_ms,
    self_test_frame, stream_quality, HardwareMedia, MediaError,
};
use corsair_elite_display::playback::{playback_mode, PlaybackMode};

#[test]
fn image_resizing_and_jpeg_encoding() {
    let img = image::RgbImage::new(100, 100);
    let dynamic = image::DynamicImage::ImageRgb8(img);
    let resized = dynamic.resize_exact(480, 480, image::imageops::FilterType::Lanczos3);
    assert_eq!(resized.width(), 480);
    assert_eq!(resized.height(), 480);
    let rgb = resized.to_rgb8();
    let jpeg = encode_for_lcd(&rgb).unwrap();
    assert!(jpeg.len() > 100);
    assert_eq!(&jpeg[..2], &[0xff, 0xd8]);
}

#[test]
fn static_hardware_media_encodes_to_lcd_jpeg() {
    let image = image::DynamicImage::ImageRgb8(image::RgbImage::new(32, 32));
    let mut file = Cursor::new(Vec::new());
    image.write_to(&mut file, image::ImageFormat::Png).unwrap();
    let jpeg = flash_jpeg(Some("png"), file.get_ref()).unwrap();
    assert_eq!(&jpeg[..2], &[0xff, 0xd8]);
    assert_eq!(&jpeg[jpeg.len() - 2..], &[0xff, 0xd9]);
}

#[test]
fn encoded_lcd_frames_decode_to_480_square() {
    let jpeg = flash_jpeg(Some("png"), &png_bytes(64, 20)).unwrap();
    let back = image::load_from_memory(&jpeg).unwrap();
    assert_eq!((back.width(), back.height()), (480, 480));
}

#[test]
fn black_fallback_frame_is_a_black_480_jpeg() {
    let jpeg = black_frame_jpeg().unwrap();
    assert_eq!(&jpeg[..2], &[0xff, 0xd8]);
    let back = image::load_from_memory(&jpeg).unwrap().to_rgb8();
    assert_eq!(back.dimensions(), (480, 480));
    assert!(back.pixels().all(|p| p.0.iter().all(|c| *c < 8)));
}

#[test]
fn streaming_quality_is_limited_and_large_frames_fall_back() {
    assert_eq!(stream_quality(10), 35);
    assert_eq!(stream_quality(65), 65);
    assert_eq!(stream_quality(95), 85);
    assert_eq!(fallback_quality(24 * 1024, 85), None);
    assert_eq!(fallback_quality(24 * 1024 + 1, 85), Some(50));
    assert_eq!(fallback_quality(100_000, 50), None);
}

#[test]
fn stream_frames_are_jpegs() {
    let pixels = vec![128u8; 480 * 480 * 3];
    let jpeg = encode_stream_frame(&pixels, 75).unwrap();
    assert_eq!(&jpeg[..2], &[0xff, 0xd8]);
    assert_eq!(&jpeg[jpeg.len() - 2..], &[0xff, 0xd9]);
    assert!(self_test_frame(&pixels).is_ok());
}

#[test]
fn gif_delays_round_up_and_stay_in_range() {
    assert_eq!(frame_delay_ms(50, 1, 20, 10_000), 50);
    assert_eq!(frame_delay_ms(101, 2, 20, 10_000), 51);
    assert_eq!(frame_delay_ms(5, 1, 20, 10_000), 20);
    assert_eq!(frame_delay_ms(20_000, 1, 20, 10_000), 10_000);
    assert_eq!(frame_delay_ms(7, 0, 20, 10_000), 100);
}

fn png_bytes(w: u32, h: u32) -> Vec<u8> {
    let img = image::DynamicImage::ImageRgb8(image::RgbImage::new(w, h));
    let mut out = Cursor::new(Vec::new());
    img.write_to(&mut out, image::ImageFormat::Png).unwrap();
    out.into_inner()
}

fn gif_bytes(delays_ms: &[u32]) -> Vec<u8> {
    let mut out = Vec::new();
    {
        let mut encoder = image::codecs::gif::GifEncoder::new(&mut out);
        let frames: Vec<image::Frame> = delays_ms
            .iter()
            .map(|ms| {
                image::Frame::from_parts(
                    image::RgbaImage::new(16, 16),
                    0,
                    0,
                    image::Delay::from_numer_denom_ms(*ms, 1),
                )
            })
            .collect();
        encoder.encode_frames(frames).unwrap();
    }
    out
}

#[test]
fn still_images_become_one_untimed_frame() {
    let bytes = png_bytes(40, 30);
    let media = HardwareMedia::from_bytes(bytes.clone()).unwrap();
    assert_eq!(media.source, bytes);
    assert_eq!(media.frames.len(), 1);
    assert_eq!(media.frames[0].delay_ms, 0);
    assert_eq!(&media.frames[0].jpeg[..2], &[0xff, 0xd8]);
    assert_eq!(playback_mode(media.frames.len()), PlaybackMode::Static);
}

#[test]
fn gifs_become_timed_frames() {
    let media = HardwareMedia::from_bytes(gif_bytes(&[100, 10, 300])).unwrap();
    let delays: Vec<u64> = media.frames.iter().map(|f| f.delay_ms).collect();
    assert_eq!(delays, vec![100, 20, 300]);
    assert_eq!(playback_mode(media.frames.len()), PlaybackMode::Animation);
}

#[test]
fn unknown_bytes_are_an_unsupported_format() {
    let err = HardwareMedia::from_bytes(b"not an image".to_vec()).unwrap_err();
    assert!(matches!(err, MediaError::UnsupportedFormat(_)));
    assert!(err.message().starts_with("Unsupported hardware image/GIF format: "));
}

#[test]
fn broken_png_is_a_decode_error() {
    let mut bytes = png_bytes(8, 8);
    bytes.truncate(20);
    let err = HardwareMedia::from_bytes(bytes).unwrap_err();
    assert!(matches!(err, MediaError::DecodeImage(_)));
    assert!(err.message().starts_with("Could not decode hardware image: "));
}

#[test]
fn media_without_frames_is_refused() {
    let err = HardwareMedia::from_frames(vec![1, 2, 3], Vec::new()).unwrap_err();
    assert!(matches!(err, MediaError::NoFrames));
    assert_eq!(err.message(), "Hardware image/GIF contained no displayable frames");
}

#[test]
fn broken_gif_is_a_gif_decode_error() {
    let err = HardwareMedia::from_bytes(b"GIF89a\x01".to_vec()).unwrap_err();
    assert!(matches!(err, MediaError::DecodeGif(_) | MediaError::DecodeGifFrames(_)));
    assert!(err.message().starts_with("Could not decode hardware GIF"));
}


fn gradient(w: u32, h: u32) -> image::RgbImage {
    image::RgbImage::from_fn(w, h, |x, y| image::Rgb([(x * 7) as u8, (y * 13) as u8, ((x + y) * 3) as u8]))
}

#[test]
fn flashed_jpeg_encodes_the_given_picture() {
    let picture = image::DynamicImage::ImageRgb8(gradient(50, 30));
    let mut file = Cursor::new(Vec::new());
    picture.write_to(&mut file, image::ImageFormat::Png).unwrap();
    let expected_rgb = picture.resize_exact(480, 480, image::imageops::FilterType::Lanczos3).to_rgb8();
    let expected = encode_for_lcd(&expected_rgb).unwrap();
    assert_eq!(flash_jpeg(Some("png"), file.get_ref()).unwrap(), expected);
    let black = encode_for_lcd(&vec![0u8; 480 * 480 * 3]).unwrap();
    assert_ne!(expected, black);
    assert!(flash_jpeg(Some("png"), b"no picture here").is_err());
}

#[test]
fn still_media_holds_the_pictures_jpeg() {
    let picture = image::DynamicImage::ImageRgb8(gradient(40, 40));
    let mut file = Cursor::new(Vec::new());
    picture.write_to(&mut file, image::ImageFormat::Png).unwrap();
    let media = HardwareMedia::from_bytes(file.get_ref().clone()).unwrap();
    assert_eq!(media.frames[0].jpeg, flash_jpeg(Some("png"), file.get_ref()).unwrap());
}

#[test]
fn flashed_image_format_follows_the_extension() {
    let picture = image::DynamicImage::ImageRgb8(gradient(24, 24));
    let mut file = Cursor::new(Vec::new());
    picture.write_to(&mut file, image::ImageFormat::Png).unwrap();
    let png = file.get_ref();
    let lower = flash_jpeg(Some("png"), png).unwrap();
    assert_eq!(flash_jpeg(Some("PNG"), png).unwrap(), lower);
    assert!(flash_jpeg(Some("jpg"), png).is_err());
    assert!(flash_jpeg(Some("txt"), png).is_err());
    assert!(flash_jpeg(None, png).is_err());
}

#[test]
fn gif_frames_keep_their_own_picture_and_delay() {
    let mut out = Vec::new();
    {
        let mut encoder = image::codecs::gif::GifEncoder::new(&mut out);
        let red = image::RgbaImage::from_pixel(16, 16, image::Rgba([255, 0, 0, 255]));
        let blue = image::RgbaImage::from_pixel(16, 16, image::Rgba([0, 0, 255, 255]));
        encoder
            .encode_frames(vec![
                image::Frame::from_parts(red.clone(), 0, 0, image::Delay::from_numer_denom_ms(70, 1)),
                image::Frame::from_parts(blue.clone(), 0, 0, image::Delay::from_numer_denom_ms(500, 1)),
            ])
            .unwrap();
    }
    let media = HardwareMedia::from_bytes(out.clone()).unwrap();
    assert_eq!(media.frames.len(), 2);
    assert_eq!(media.frames[0].delay_ms, 70);
    assert_eq!(media.frames[1].delay_ms, 500);
    let decoded = image::load_from_memory(&media.frames[1].jpeg).unwrap().to_rgb8();
    let p = decoded.get_pixel(240, 240).0;
    assert!(p[2] > 200 && p[0] < 60, "{p:?}");
    let first = image::load_from_memory(&media.frames[0].jpeg).unwrap().to_rgb8();
    let q = first.get_pixel(240, 240).0;
    assert!(q[0] > 200 && q[2] < 60, "{q:?}");
}
