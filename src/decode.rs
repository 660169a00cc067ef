//! Decoding downloaded image bytes into frames: still images, GIF and APNG
//! animations. The container formats are decoded by the `image` crate; which
//! decoder is tried, and how frame delays become display durations, is
//! decided here.

use vstd::prelude::*;
use crate::emoji::Asset;
use crate::text::chars_of;
use image::AnimationDecoder;

verus! {

/// One decoded picture: RGBA pixels, row by row.
pub struct RgbaFrame {
    pub width: u32,
    pub height: u32,
    pub pixels: Vec<u8>,
}

/// One frame of an animation, with its delay as a fraction of milliseconds.
pub struct TimedFrame {
    pub frame: RgbaFrame,
    pub delay_numer: u32,
    pub delay_denom: u32,
}

/// A picture as plain values: width, height and pixels.
pub type FrameView = (u32, u32, Seq<u8>);

/// An animation frame as plain values: picture, delay numerator and denominator.
pub type TimedView = (FrameView, u32, u32);

impl View for RgbaFrame {
    type V = FrameView;

    open spec fn view(&self) -> FrameView {
        (self.width, self.height, self.pixels@)
    }
}

impl View for TimedFrame {
    type V = TimedView;

    open spec fn view(&self) -> TimedView {
        (self.frame@, self.delay_numer, self.delay_denom)
    }
}

/// What the `image` crate's GIF decoder makes of `b`: its frames, or nothing
/// where it fails.
pub uninterp spec fn gif_frames_of(b: Seq<u8>) -> Option<Seq<TimedView>>;

/// Whether the `image` crate's PNG decoder finds an animation control chunk
/// in `b`; nothing where it cannot read the PNG header.
pub uninterp spec fn apng_flag_of(b: Seq<u8>) -> Option<bool>;

/// What the `image` crate's APNG decoder makes of `b`: its frames, or nothing
/// where it fails.
pub uninterp spec fn apng_frames_of(b: Seq<u8>) -> Option<Seq<TimedView>>;

/// What the `image` crate makes of `b` as a still image, in RGBA, guessing
/// the format from the data; nothing where it fails.
pub uninterp spec fn still_image_of(b: Seq<u8>) -> Option<FrameView>;

pub open spec fn timed_views(r: Option<Vec<TimedFrame>>) -> Option<Seq<TimedView>> {
    match r {
        Some(v) => Some(v@.map_values(|f: TimedFrame| f@)),
        None => None,
    }
}

/// Relies on `image::codecs::gif::GifDecoder` and `AnimationDecoder::into_frames`:
/// decodes every frame of a GIF, composed to full RGBA pictures, with its delay.
#[verifier::external_body]
fn gif_frames(bytes: &[u8]) -> (r: Option<Vec<TimedFrame>>)
    ensures
        timed_views(r) == gif_frames_of(bytes@),
{
    let decoder = image::codecs::gif::GifDecoder::new(std::io::Cursor::new(bytes)).ok()?;
    let frames = decoder.into_frames().collect_frames().ok()?;
    Some(frames.into_iter().map(|f| {
        let (delay_numer, delay_denom) = f.delay().numer_denom_ms();
        let b = f.into_buffer();
        let frame = RgbaFrame { width: b.width(), height: b.height(), pixels: b.into_raw() };
        TimedFrame { frame, delay_numer, delay_denom }
    }).collect())
}

/// Relies on `image::codecs::png::PngDecoder::new` and `PngDecoder::is_apng`.
#[verifier::external_body]
fn png_is_animated(bytes: &[u8]) -> (r: Option<bool>)
    ensures
        r == apng_flag_of(bytes@),
{
    image::codecs::png::PngDecoder::new(std::io::Cursor::new(bytes)).ok()?.is_apng().ok()
}

/// Relies on `image::codecs::png::PngDecoder::apng` and
/// `AnimationDecoder::into_frames`: decodes every frame of an animated PNG.
#[verifier::external_body]
fn apng_frames(bytes: &[u8]) -> (r: Option<Vec<TimedFrame>>)
    ensures
        timed_views(r) == apng_frames_of(bytes@),
{
    let decoder = image::codecs::png::PngDecoder::new(std::io::Cursor::new(bytes)).ok()?;
    let frames = decoder.apng().ok()?.into_frames().collect_frames().ok()?;
    Some(frames.into_iter().map(|f| {
        let (delay_numer, delay_denom) = f.delay().numer_denom_ms();
        let b = f.into_buffer();
        let frame = RgbaFrame { width: b.width(), height: b.height(), pixels: b.into_raw() };
        TimedFrame { frame, delay_numer, delay_denom }
    }).collect())
}

/// Relies on `image::load_from_memory` and `DynamicImage::to_rgba8`: decodes
/// a still image of any enabled format to RGBA.
#[verifier::external_body]
fn still_image(bytes: &[u8]) -> (r: Option<RgbaFrame>)
    ensures
        match r {
            Some(f) => still_image_of(bytes@) == Some(f@),
            None => still_image_of(bytes@) is None,
        },
{
    let b = image::load_from_memory(bytes).ok()?.to_rgba8();
    Some(RgbaFrame { width: b.width(), height: b.height(), pixels: b.into_raw() })
}

// ---------------------------------------------------------------------------
// The dispatch
// ---------------------------------------------------------------------------

/// A decoded download, as plain values.
pub enum DecodedView {
    Still(FrameView),
    Animation(Seq<FrameView>, Seq<u32>),
}

/// The shortest time a frame is shown, in milliseconds.
pub const MIN_FRAME_MS: u32 = 10;

/// How long a frame with delay `numer / denom` milliseconds is shown: whole
/// milliseconds, at least `MIN_FRAME_MS`.
pub open spec fn frame_ms(numer: u32, denom: u32) -> u32 {
    let ms = if denom > 0 {
        numer / denom
    } else {
        numer
    };
    if ms < MIN_FRAME_MS {
        MIN_FRAME_MS
    } else {
        ms as u32
    }
}

/// The animation that decoded frames give: none where there are none.
pub open spec fn animation_of(frames: Option<Seq<TimedView>>) -> Option<DecodedView> {
    match frames {
        Some(fs) => if fs.len() > 0 {
            Some(
                DecodedView::Animation(
                    fs.map_values(|t: TimedView| t.0),
                    fs.map_values(|t: TimedView| frame_ms(t.1, t.2)),
                ),
            )
        } else {
            None
        },
        None => None,
    }
}

pub open spec fn gif_suffix() -> Seq<char> {
    seq!['.', 'g', 'i', 'f']
}

pub open spec fn png_signature() -> Seq<u8> {
    seq![0x89u8, 0x50u8, 0x4eu8, 0x47u8, 0x0du8, 0x0au8, 0x1au8, 0x0au8]
}

/// Whether the URL names a GIF file.
pub open spec fn is_gif_url(url: Seq<char>) -> bool {
    url.len() >= 4 && url.subrange(url.len() - 4, url.len() as int) == gif_suffix()
}

/// Whether the data opens with the PNG signature (and holds more than it).
pub open spec fn has_png_signature(b: Seq<u8>) -> bool {
    b.len() > 8 && b.subrange(0, 8) == png_signature()
}

/// What the download of `url` that gave `b` decodes to: a GIF animation where
/// the URL names a GIF; for PNG data an animation where it is an animated PNG
/// that decodes, else a still image; for anything else a still image. Nothing where the data
/// is empty or the decoder fails.
pub open spec fn decoded(url: Seq<char>, b: Seq<u8>) -> Option<DecodedView> {
    let still = match still_image_of(b) {
        Some(f) => Some(DecodedView::Still(f)),
        None => None,
    };
    if b.len() == 0 {
        None
    } else if is_gif_url(url) {
        animation_of(gif_frames_of(b))
    } else if has_png_signature(b) {
        let animated = if apng_flag_of(b) == Some(true) {
            animation_of(apng_frames_of(b))
        } else {
            None
        };
        match animated {
            Some(a) => Some(a),
            None => still,
        }
    } else {
        still
    }
}

pub open spec fn asset_view(r: Option<Asset<RgbaFrame>>) -> Option<DecodedView> {
    match r {
        Some(Asset::Static(f)) => Some(DecodedView::Still(f@)),
        Some(Asset::Animated(fs, ds)) => Some(
            DecodedView::Animation(fs@.map_values(|f: RgbaFrame| f@), ds@),
        ),
        None => None,
    }
}

fn frame_ms_exec(numer: u32, denom: u32) -> (r: u32)
    ensures
        r == frame_ms(numer, denom),
{
    let ms = if denom > 0 {
        numer / denom
    } else {
        numer
    };
    if ms < MIN_FRAME_MS {
        MIN_FRAME_MS
    } else {
        ms
    }
}

fn into_animation(frames: Option<Vec<TimedFrame>>) -> (r: Option<Asset<RgbaFrame>>)
    ensures
        asset_view(r) == animation_of(timed_views(frames)),
{
    let frames = match frames {
        Some(v) => v,
        None => return None,
    };
    if frames.len() == 0 {
        return None;
    }
    let ghost fv = frames@.map_values(|t: TimedFrame| t@);
    let mut pics: Vec<RgbaFrame> = Vec::new();
    let mut durs: Vec<u32> = Vec::new();
    for t in it: frames
        invariant
            it.seq().map_values(|t: TimedFrame| t@) == fv,
            pics@.map_values(|f: RgbaFrame| f@) == fv.subrange(0, it.index() as int).map_values(
                |t: TimedView| t.0,
            ),
            durs@ == fv.subrange(0, it.index() as int).map_values(
                |t: TimedView| frame_ms(t.1, t.2),
            ),
    {
        let ghost k = it.index();
        let ghost p0 = pics@;
        let ghost d0 = durs@;
        let d = frame_ms_exec(t.delay_numer, t.delay_denom);
        let pic = t.frame;
        proof {
            assert(fv[k as int] == it.seq()[k as int]@);
        }
        pics.push(pic);
        durs.push(d);
        proof {
            assert(fv.subrange(0, k + 1) =~= fv.subrange(0, k as int).push(fv[k as int]));
            assert(pics@.map_values(|f: RgbaFrame| f@) =~= p0.map_values(|f: RgbaFrame| f@).push(
                pic@,
            ));
            assert(pics@.map_values(|f: RgbaFrame| f@) =~= fv.subrange(0, k + 1).map_values(
                |t: TimedView| t.0,
            ));
            assert(durs@ =~= fv.subrange(0, k + 1).map_values(|t: TimedView| frame_ms(t.1, t.2)));
        }
    }
    assert(fv.subrange(0, fv.len() as int) =~= fv);
    Some(Asset::Animated(pics, durs))
}

fn still_asset(bytes: &[u8]) -> (r: Option<Asset<RgbaFrame>>)
    ensures
        asset_view(r) == match still_image_of(bytes@) {
            Some(f) => Some(DecodedView::Still(f)),
            None => None,
        },
{
    match still_image(bytes) {
        Some(f) => Some(Asset::Static(f)),
        None => None,
    }
}

fn is_gif_url_exec(url: &str) -> (r: bool)
    ensures
        r == is_gif_url(url@),
{
    let cs = chars_of(url);
    let n = cs.len();
    if n < 4 {
        return false;
    }
    let r = cs[n - 4] == '.' && cs[n - 3] == 'g' && cs[n - 2] == 'i' && cs[n - 1] == 'f';
    proof {
        if r {
            assert(cs@.subrange(n - 4, n as int) =~= gif_suffix());
        } else {
            if cs@.subrange(n - 4, n as int) == gif_suffix() {
                assert(cs@.subrange(n - 4, n as int)[0] == '.');
                assert(cs@.subrange(n - 4, n as int)[1] == 'g');
                assert(cs@.subrange(n - 4, n as int)[2] == 'i');
                assert(cs@.subrange(n - 4, n as int)[3] == 'f');
            }
        }
    }
    r
}

fn has_png_signature_exec(b: &[u8]) -> (r: bool)
    ensures
        r == has_png_signature(b@),
{
    if b.len() <= 8 {
        return false;
    }
    let r = b[0] == 0x89 && b[1] == 0x50 && b[2] == 0x4e && b[3] == 0x47 && b[4] == 0x0d && b[5]
        == 0x0a && b[6] == 0x1a && b[7] == 0x0a;
    proof {
        let s = b@.subrange(0, 8);
        if r {
            assert(s =~= png_signature());
        } else if s == png_signature() {
            assert(s[0] == 0x89u8 && s[1] == 0x50u8 && s[2] == 0x4eu8 && s[3] == 0x47u8);
            assert(s[4] == 0x0du8 && s[5] == 0x0au8 && s[6] == 0x1au8 && s[7] == 0x0au8);
        }
    }
    r
}

/// Decodes what the download of `url` gave. A GIF URL is decoded as a GIF
/// animation; PNG data first as an animated PNG, then as a still image; any
/// other data as a still image. `None` where nothing could be decoded.
pub fn decode_asset(url: &str, bytes: &[u8]) -> (r: Option<Asset<RgbaFrame>>)
    ensures
        asset_view(r) == decoded(url@, bytes@),
{
    if bytes.len() == 0 {
        return None;
    }
    if is_gif_url_exec(url) {
        return into_animation(gif_frames(bytes));
    }
    if has_png_signature_exec(bytes) {
        if png_is_animated(bytes) == Some(true) {
            let a = into_animation(apng_frames(bytes));
            if a.is_some() {
                return a;
            }
        }
    }
    still_asset(bytes)
}

/// Decodes a link preview's image: a still image only.
pub fn decode_still(bytes: &[u8]) -> (r: Option<RgbaFrame>)
    ensures
        match r {
            Some(f) => still_image_of(bytes@) == Some(f@),
            None => still_image_of(bytes@) is None,
        },
{
    still_image(bytes)
}

} // verus!
