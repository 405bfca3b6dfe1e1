use garbg::media::frame_buffer::{BufferedFrame, LoopingFrameBuffer};
use garbg::media::frames::{frames_from_raw, load_apng_frames, load_webp_frames};
use garbg::media::gif::{frame_delay_to_duration, RawGifFrame};
use garbg::media::loader::{ImageFormat, ImageLoader};
use garbg::media::placement::{center_placement, tile_starts};
use garbg::media::pixels::RgbaImage;
use garbg::media::video::is_video_file;
use garbg::time_span::TimeSpan;

#[test]
fn test_frame_delay_conversion() {
    // A frame with 100ms delay (10 centiseconds)
    // GIF delays are typically in centiseconds
}

#[test]
fn frame_delay_of_hundred_millis() {
    let d = frame_delay_to_duration(100, 1);
    assert_eq!((d.secs, d.nanos), (0, 100_000_000));
    let z = frame_delay_to_duration(5, 0);
    assert!(z.is_zero());
    let third = frame_delay_to_duration(1, 3);
    assert_eq!((third.secs, third.nanos), (0, 333_000));
}

#[test]
fn test_is_video_file() {
    assert!(is_video_file("test.mp4"));
    assert!(is_video_file("test.webm"));
    assert!(is_video_file("test.mkv"));
    assert!(!is_video_file("test.png"));
    assert!(!is_video_file("test.gif"));
}

#[test]
fn video_extension_ignores_case() {
    assert!(is_video_file("/tmp/Clip.MOV"));
    assert!(!is_video_file("noextension"));
}

#[test]
fn test_looping_buffer() {
    let frames = vec![
        BufferedFrame::new(RgbaImage::new(1, 1), 0, TimeSpan::from_millis(100)),
        BufferedFrame::new(RgbaImage::new(1, 1), 1, TimeSpan::from_millis(100)),
        BufferedFrame::new(RgbaImage::new(1, 1), 2, TimeSpan::from_millis(100)),
    ];

    let mut buffer = LoopingFrameBuffer::new(frames);

    assert_eq!(buffer.current_index(), 0);
    assert!(!buffer.advance()); // 0 -> 1
    assert_eq!(buffer.current_index(), 1);
    assert!(!buffer.advance()); // 1 -> 2
    assert_eq!(buffer.current_index(), 2);
    assert!(buffer.advance()); // 2 -> 0 (looped)
    assert_eq!(buffer.current_index(), 0);
}

#[test]
fn guess_format_by_extension() {
    assert_eq!(ImageLoader::guess_format("a/b/photo.JPG"), Some(ImageFormat::Jpeg));
    assert_eq!(ImageLoader::guess_format("x.tif"), Some(ImageFormat::Tiff));
    assert_eq!(ImageLoader::guess_format("x.txt"), None);
    assert!(ImageLoader::is_supported_format("wall.webp"));
    assert!(!ImageLoader::is_supported_format("wall"));
    assert_eq!(ImageLoader::supported_extensions().len(), 9);
    assert!(ImageLoader::supported_extensions().contains(&"avif"));
    assert_eq!(ImageLoader::guess_format("walls/sky.AVIF"), Some(ImageFormat::Avif));
}

#[test]
fn load_bytes_rejects_garbage() {
    let r = ImageLoader::load_bytes(&[1u8, 2, 3, 4], None);
    assert_eq!(r.err(), Some("Failed to decode image".to_string()));
    let r = ImageLoader::load_bytes(&[1u8, 2, 3, 4], Some(ImageFormat::Png));
    assert_eq!(r.err(), Some("Failed to decode image with specified format".to_string()));
}

fn encoded(format: image::ImageFormat) -> Vec<u8> {
    let mut img = image::RgbaImage::new(2, 1);
    img.put_pixel(0, 0, image::Rgba([255, 0, 0, 255]));
    img.put_pixel(1, 0, image::Rgba([0, 0, 255, 255]));
    let mut out = std::io::Cursor::new(Vec::new());
    img.write_to(&mut out, format).unwrap();
    out.into_inner()
}

#[test]
fn still_png_has_no_animation_frames() {
    let png = encoded(image::ImageFormat::Png);
    assert_eq!(load_apng_frames(&png).unwrap().len(), 0);
    assert!(load_apng_frames(&[0u8, 1, 2, 3]).is_err());
}

#[test]
fn still_webp_has_no_animation_frames() {
    let webp = encoded(image::ImageFormat::WebP);
    assert_eq!(load_webp_frames(&webp).unwrap().len(), 0);
    assert!(load_webp_frames(b"not a webp").is_err());
}

#[test]
fn raw_frames_become_animation_frames() {
    let raw = vec![
        RawGifFrame { width: 1, height: 1, rgba: vec![1, 2, 3, 4], delay_numer: 50, delay_denom: 1 },
        RawGifFrame { width: 2, height: 1, rgba: vec![5, 6, 7, 8, 9, 10, 11, 12], delay_numer: 0, delay_denom: 1 },
    ];
    let frames = frames_from_raw(raw).unwrap();
    assert_eq!(frames.len(), 2);
    assert_eq!(frames[0].delay, TimeSpan::from_millis(50));
    assert_eq!(frames[1].delay, TimeSpan::zero());
    assert_eq!((frames[1].image.pixels[1].r, frames[1].image.pixels[1].a), (9, 12));
    let bad = vec![RawGifFrame { width: 2, height: 2, rgba: vec![0; 4], delay_numer: 1, delay_denom: 1 }];
    assert_eq!(frames_from_raw(bad).err(), Some("Failed to decode animation frame".to_string()));
}

#[test]
fn center_and_tile_placement() {
    let small = center_placement(100, 50, 1920, 1080);
    assert_eq!((small.src_x, small.src_y, small.width, small.height, small.dst_x, small.dst_y), (0, 0, 100, 50, 910, 515));
    let big = center_placement(3001, 1080, 1920, 1000);
    assert_eq!((big.src_x, big.width, big.dst_x), (540, 1920, 0));
    assert_eq!((big.src_y, big.height, big.dst_y), (40, 1000, 0));
    assert_eq!(tile_starts(300, 1000), vec![0, 300, 600, 900]);
    assert_eq!(tile_starts(250, 1000), vec![0, 250, 500, 750]);
    assert!(tile_starts(7, 0).is_empty());
}
