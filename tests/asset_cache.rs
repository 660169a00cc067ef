use image::{Delay, Frame, ImageFormat, Rgba, RgbaImage};
use misskey_post_viewer::decode::{decode_asset, decode_still, RgbaFrame};
use misskey_post_viewer::emoji::{Asset, CacheEntry, EmojiCache};

fn gif_bytes(delays_ms: &[u32]) -> Vec<u8> {
    let mut out = Vec::new();
    {
        let mut enc = image::codecs::gif::GifEncoder::new(&mut out);
        let frames: Vec<Frame> = delays_ms
            .iter()
            .enumerate()
            .map(|(i, d)| {
                let img = RgbaImage::from_pixel(2, 2, Rgba([i as u8 * 80, 0, 0, 255]));
                Frame::from_parts(img, 0, 0, Delay::from_numer_denom_ms(*d, 1))
            })
            .collect();
        enc.encode_frames(frames).unwrap();
    }
    out
}

fn png_bytes() -> Vec<u8> {
    let img = RgbaImage::from_pixel(3, 1, Rgba([1, 2, 3, 4]));
    let mut out = std::io::Cursor::new(Vec::new());
    img.write_to(&mut out, ImageFormat::Png).unwrap();
    out.into_inner()
}

#[test]
fn concurrent_requests_schedule_one_fetch() {
    let mut cache: EmojiCache<u32> = EmojiCache::new();
    for _ in 0..5 {
        assert!(cache.load_emoji("https://e/a.png").is_none());
    }
    assert!(cache.load_emoji("https://e/b.png").is_none());
    assert_eq!(cache.take_fetches(), vec!["https://e/a.png".to_string(), "https://e/b.png".to_string()]);
    assert!(cache.load_emoji("https://e/a.png").is_none());
    assert!(cache.take_fetches().is_empty());
    assert!(matches!(cache.entry("https://e/a.png"), Some(CacheEntry::Downloading)));
    assert!(cache.entry("https://e/c.png").is_none());
}

#[test]
fn failures_are_kept_and_not_fetched_again() {
    let mut cache: EmojiCache<u32> = EmojiCache::new();
    cache.load_emoji("https://e/broken.png");
    cache.take_fetches();
    cache.finish_download("https://e/broken.png", None);
    assert!(matches!(cache.entry("https://e/broken.png"), Some(CacheEntry::Failed)));
    for _ in 0..3 {
        assert!(cache.load_emoji("https://e/broken.png").is_none());
    }
    assert!(cache.take_fetches().is_empty());
    cache.update_animations(1000);
    assert!(matches!(cache.entry("https://e/broken.png"), Some(CacheEntry::Failed)));
}

#[test]
fn still_images_are_shown_once_ready() {
    let mut cache: EmojiCache<u32> = EmojiCache::new();
    cache.load_emoji("u");
    cache.finish_download("u", Some(Asset::Static(7)));
    assert_eq!(cache.load_emoji("u"), Some(&7));
}

#[test]
fn malformed_animation_counts_as_failure() {
    let mut cache: EmojiCache<u32> = EmojiCache::new();
    cache.finish_download("a", Some(Asset::Animated(vec![1, 2], vec![100])));
    assert!(matches!(cache.entry("a"), Some(CacheEntry::Failed)));
    cache.finish_download("b", Some(Asset::Animated(vec![], vec![])));
    assert!(matches!(cache.entry("b"), Some(CacheEntry::Failed)));
    cache.finish_download("c", Some(Asset::Animated(vec![1], vec![0])));
    assert!(matches!(cache.entry("c"), Some(CacheEntry::Failed)));
}

#[test]
fn gif_animation_advances_by_elapsed_time() {
    let bytes = gif_bytes(&[100, 150, 200]);
    let asset = decode_asset("https://e/party.gif", &bytes).unwrap();
    let (frames, durations) = match asset {
        Asset::Animated(f, d) => (f, d),
        Asset::Static(_) => panic!("expected an animation"),
    };
    assert_eq!(durations, vec![100, 150, 200]);
    assert_eq!(frames.len(), 3);
    assert_eq!((frames[0].width, frames[0].height), (2, 2));
    let mut cache: EmojiCache<usize> = EmojiCache::new();
    cache.finish_download("https://e/party.gif", Some(Asset::Animated(vec![0, 1, 2], durations)));
    cache.update_animations(260);
    match cache.entry("https://e/party.gif") {
        Some(CacheEntry::Animated(a)) => {
            assert_eq!(a.current_frame, 2);
            assert_eq!(a.elapsed_ms, 10);
        }
        _ => panic!("expected an animation"),
    }
    assert_eq!(cache.load_emoji("https://e/party.gif"), Some(&2));
}

#[test]
fn large_elapsed_time_wraps_around() {
    let mut cache: EmojiCache<usize> = EmojiCache::new();
    cache.finish_download("a", Some(Asset::Animated(vec![0, 1, 2], vec![100, 150, 200])));
    cache.update_animations(450 * 1000 + 120);
    match cache.entry("a") {
        Some(CacheEntry::Animated(a)) => {
            assert_eq!(a.current_frame, 1);
            assert_eq!(a.elapsed_ms, 20);
        }
        _ => panic!("expected an animation"),
    }
    cache.update_animations(u32::MAX);
    let durations = [100u64, 150, 200];
    let mut frame = 1usize;
    let mut left = (20u64 + u32::MAX as u64) % 450;
    while left >= durations[frame] {
        left -= durations[frame];
        frame = (frame + 1) % 3;
    }
    match cache.entry("a") {
        Some(CacheEntry::Animated(a)) => {
            assert_eq!(a.current_frame, frame);
            assert_eq!(a.elapsed_ms as u64, left);
        }
        _ => panic!("expected an animation"),
    }
}

#[test]
fn short_frame_delays_are_raised_to_ten_milliseconds() {
    let bytes = gif_bytes(&[0, 20]);
    match decode_asset("x.gif", &bytes).unwrap() {
        Asset::Animated(_, d) => assert_eq!(d, vec![10, 20]),
        Asset::Static(_) => panic!("expected an animation"),
    }
}

#[test]
fn png_without_animation_decodes_as_still() {
    let bytes = png_bytes();
    match decode_asset("https://e/a.png", &bytes).unwrap() {
        Asset::Static(f) => {
            assert_eq!((f.width, f.height), (3, 1));
            assert_eq!(f.pixels, vec![1, 2, 3, 4, 1, 2, 3, 4, 1, 2, 3, 4]);
        }
        Asset::Animated(..) => panic!("expected a still image"),
    }
    let still: RgbaFrame = decode_still(&bytes).unwrap();
    assert_eq!(still.width, 3);
}

#[test]
fn undecodable_data_gives_nothing() {
    assert!(decode_asset("https://e/a.png", &[]).is_none());
    assert!(decode_asset("https://e/a.png", b"not an image").is_none());
    assert!(decode_asset("https://e/a.gif", &png_bytes()).is_none());
    assert!(decode_still(b"junk").is_none());
}

fn apng_bytes() -> Vec<u8> {
    let mut out = Vec::new();
    {
        let mut enc = png::Encoder::new(&mut out, 2, 1);
        enc.set_color(png::ColorType::Rgba);
        enc.set_depth(png::BitDepth::Eight);
        enc.set_animated(2, 0).unwrap();
        enc.set_frame_delay(1, 20).unwrap();
        let mut w = enc.write_header().unwrap();
        w.write_image_data(&[255, 0, 0, 255, 255, 0, 0, 255]).unwrap();
        w.set_frame_delay(3, 1000).unwrap();
        w.write_image_data(&[0, 0, 255, 255, 0, 0, 255, 255]).unwrap();
        w.finish().unwrap();
    }
    out
}

#[test]
fn animated_png_decodes_as_animation() {
    let bytes = apng_bytes();
    match decode_asset("https://e/blob.png", &bytes).unwrap() {
        Asset::Animated(frames, durations) => {
            assert_eq!(durations, vec![50, 10]);
            assert_eq!(frames.len(), 2);
            assert_eq!(frames[1].pixels, vec![0, 0, 255, 255, 0, 0, 255, 255]);
        }
        Asset::Static(_) => panic!("expected an animation"),
    }
    match decode_still(&bytes) {
        Some(f) => assert_eq!((f.width, f.height), (2, 1)),
        None => panic!("expected the default image"),
    }
}
