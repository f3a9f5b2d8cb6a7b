//! Image preprocessing ahead of text recognition: the color-distance mask,
//! the upscale-and-binarize pipeline, and the perceptual hash of a frame.
//! Images are row-major RGB byte buffers.

use vstd::prelude::*;

verus! {

/// An RGB image: `pixels` holds three bytes per pixel, row by row.
pub struct RgbFrame {
    pub width: u32,
    pub height: u32,
    pub pixels: Vec<u8>,
}

impl RgbFrame {
    pub open spec fn wf(&self) -> bool {
        self.pixels@.len() == self.width * self.height * 3
    }
}

/// Resampling kernel of a resize.
#[derive(Clone, Copy, Debug, PartialEq, Eq, Structural)]
pub enum ResizeFilter {
    Nearest,
    CatmullRom,
}

/// The pixels of an RGB image of `width` x `height` resized to
/// `new_width` x `new_height` by nearest-neighbour sampling.
pub uninterp spec fn nearest_resized_of(
    pixels: Seq<u8>,
    width: u32,
    height: u32,
    new_width: u32,
    new_height: u32,
) -> Seq<u8>;

/// Relies on `image::imageops::resize`: it returns an image of exactly the
/// requested size, a copy of the source when the size is unchanged. With the nearest-neighbour filter its pixels depend on
/// the arguments alone; the Catmull-Rom kernel goes through `f32::powi`,
/// whose precision std leaves open, so nothing more is said of that one.
#[verifier::external_body]
fn resize_rgb(
    pixels: &Vec<u8>,
    width: u32,
    height: u32,
    new_width: u32,
    new_height: u32,
    filter: ResizeFilter,
) -> (r: Vec<u8>)
    requires
        pixels@.len() == width * height * 3,
        new_width * new_height * 3 <= usize::MAX,
    ensures
        r@.len() == new_width * new_height * 3,
        new_width == width && new_height == height ==> r@ == pixels@,
        filter == ResizeFilter::Nearest ==> r@ == nearest_resized_of(
            pixels@,
            width,
            height,
            new_width,
            new_height,
        ),
{
    let img = image::RgbImage::from_raw(width, height, pixels.clone()).unwrap();
    let kernel = match filter {
        ResizeFilter::Nearest => image::imageops::FilterType::Nearest,
        ResizeFilter::CatmullRom => image::imageops::FilterType::CatmullRom,
    };
    image::imageops::resize(&img, new_width, new_height, kernel).into_raw()
}

/// The image holds at least two different gray levels.
pub open spec fn has_two_levels(gray: Seq<u8>) -> bool {
    exists|i: int, j: int|
        0 <= i < gray.len() && 0 <= j < gray.len() && #[trigger] gray[i] != #[trigger] gray[j]
}

/// Some pixel lies at or below `level` and some pixel above it.
pub open spec fn level_splits(gray: Seq<u8>, level: u8) -> bool {
    (exists|i: int| 0 <= i < gray.len() && #[trigger] gray[i] <= level) && (exists|i: int|
        0 <= i < gray.len() && #[trigger] gray[i] > level)
}

/// Relies on `imageproc::contrast::otsu_level`. It compares floating-point
/// variances, so near ties may go either way and no fixed level is named.
/// What holds of every outcome: a level is only taken where both classes are
/// non-empty, and at the lowest gray level the variance is already positive,
/// so with two different gray levels the chosen level splits the pixels.
/// Its pixel sums are `u32`, hence the size bound.
#[verifier::external_body]
fn otsu_level(gray: &Vec<u8>, width: u32, height: u32) -> (r: u8)
    requires
        gray@.len() == width * height,
        width * height * 255 <= u32::MAX,
    ensures
        has_two_levels(gray@) ==> level_splits(gray@, r),
{
    let img = image::GrayImage::from_raw(width, height, gray.clone()).unwrap();
    imageproc::contrast::otsu_level(&img)
}

/// The 64-bit hash of a byte slice under `DefaultHasher::new()`.
pub uninterp spec fn hash_of(bytes: Seq<u8>) -> u64;

/// Relies on `std::hash::DefaultHasher`: `new()` always starts from the same
/// keys, so the hash depends on the bytes alone.
#[verifier::external_body]
fn hash_bytes(bytes: &Vec<u8>) -> (r: u64)
    ensures
        r == hash_of(bytes@),
{
    let mut hasher = std::hash::DefaultHasher::new();
    std::hash::Hash::hash(bytes.as_slice(), &mut hasher);
    std::hash::Hasher::finish(&hasher)
}

/// Channel `c` of pixel `k`.
pub open spec fn channel(s: Seq<u8>, k: int, c: int) -> u8 {
    s[3 * k + c]
}

/// Squared Euclidean distance between two RGB colors.
pub open spec fn color_dist2(r: u8, g: u8, b: u8, t: (u8, u8, u8)) -> int {
    (r - t.0) * (r - t.0) + (g - t.1) * (g - t.1) + (b - t.2) * (b - t.2)
}

/// White when the color lies within `tolerance` of the target in RGB space, black otherwise.
pub open spec fn mask_value(r: u8, g: u8, b: u8, t: (u8, u8, u8), tolerance: u32) -> u8 {
    if color_dist2(r, g, b, t) <= tolerance * tolerance {
        255
    } else {
        0
    }
}

/// The color-distance mask of an RGB buffer: every channel of a pixel is the
/// pixel's mask value.
pub open spec fn mask_seq(src: Seq<u8>, t: (u8, u8, u8), tolerance: u32) -> Seq<u8> {
    Seq::new(
        src.len(),
        |j: int| mask_value(src[j - j % 3], src[j - j % 3 + 1], src[j - j % 3 + 2], t, tolerance),
    )
}

/// The gray level of an RGB color, with the sRGB luma weights.
pub open spec fn luma_value(r: u8, g: u8, b: u8) -> u8 {
    ((2126 * r + 7152 * g + 722 * b) / 10000) as u8
}

/// The gray levels of an RGB buffer, one per pixel.
pub open spec fn luma_seq(src: Seq<u8>) -> Seq<u8> {
    Seq::new(
        src.len() / 3,
        |k: int| luma_value(channel(src, k, 0), channel(src, k, 1), channel(src, k, 2)),
    )
}

/// Binary threshold: white above `level`, black at or below it.
pub open spec fn threshold_seq(gray: Seq<u8>, level: u8) -> Seq<u8> {
    Seq::new(
        gray.len(),
        |k: int| if gray[k] > level {
            255u8
        } else {
            0u8
        },
    )
}

/// A grayscale buffer widened to RGB: each level repeated in all three channels.
pub open spec fn gray_to_rgb_seq(gray: Seq<u8>) -> Seq<u8> {
    Seq::new(gray.len() * 3, |j: int| gray[j / 3])
}

proof fn lemma_dist2_bounds(r: u8, g: u8, b: u8, t: (u8, u8, u8))
    ensures
        0 <= color_dist2(r, g, b, t) <= 3 * 255 * 255,
{
    let dr = r - t.0;
    let dg = g - t.1;
    let db = b - t.2;
    assert(0 <= dr * dr <= 255 * 255) by (nonlinear_arith)
        requires
            -255 <= dr <= 255,
    ;
    assert(0 <= dg * dg <= 255 * 255) by (nonlinear_arith)
        requires
            -255 <= dg <= 255,
    ;
    assert(0 <= db * db <= 255 * 255) by (nonlinear_arith)
        requires
            -255 <= db <= 255,
    ;
}

fn mask_pixel(r: u8, g: u8, b: u8, t: (u8, u8, u8), tolerance: u32) -> (v: u8)
    ensures
        v == mask_value(r, g, b, t, tolerance),
{
    proof {
        lemma_dist2_bounds(r, g, b, t);
        assert(0 <= (tolerance as int) * (tolerance as int) <= (u32::MAX as int) * (
        u32::MAX as int)) by (nonlinear_arith);
    }
    let dr = r as i64 - t.0 as i64;
    let dg = g as i64 - t.1 as i64;
    let db = b as i64 - t.2 as i64;
    assert(0 <= dr * dr <= 65025) by (nonlinear_arith)
        requires
            -255 <= dr <= 255,
    ;
    assert(0 <= dg * dg <= 65025) by (nonlinear_arith)
        requires
            -255 <= dg <= 255,
    ;
    assert(0 <= db * db <= 65025) by (nonlinear_arith)
        requires
            -255 <= db <= 255,
    ;
    let d2 = dr * dr + dg * dg + db * db;
    let tol2 = (tolerance as u128) * (tolerance as u128);
    if (d2 as u128) <= tol2 {
        255
    } else {
        0
    }
}

/// The color-distance mask: each pixel whose color lies within `tolerance`
/// (Euclidean distance in RGB space) of `target` becomes white, every other
/// pixel black.
pub fn color_distance_mask(frame: &RgbFrame, target: (u8, u8, u8), tolerance: u32) -> (r: RgbFrame)
    requires
        frame.wf(),
    ensures
        r.width == frame.width,
        r.height == frame.height,
        r.pixels@ == mask_seq(frame.pixels@, target, tolerance),
        r.wf(),
{
    let src = &frame.pixels;
    let len = src.len();
    let n = len / 3;
    let mut out: Vec<u8> = Vec::new();
    let mut k: usize = 0;
    assert(src@.len() % 3 == 0) by (nonlinear_arith)
        requires
            src@.len() == frame.width * frame.height * 3,
    ;
    while k < n
        invariant
            len == src@.len(),
            n == len / 3,
            src@.len() % 3 == 0,
            k <= n,
            out@.len() == 3 * k,
            forall|j: int| 0 <= j < 3 * k ==> out@[j] == #[trigger] mask_seq(src@, target, tolerance)[j],
        decreases n - k,
    {
        let v = mask_pixel(src[3 * k], src[3 * k + 1], src[3 * k + 2], target, tolerance);
        out.push(v);
        out.push(v);
        out.push(v);
        proof {
            let m = mask_seq(src@, target, tolerance);
            assert((3 * k as int) % 3 == 0);
            assert((3 * k as int + 1) % 3 == 1);
            assert((3 * k as int + 2) % 3 == 2);
            assert(m[3 * k as int] == v);
            assert(m[3 * k as int + 1] == v);
            assert(m[3 * k as int + 2] == v);
        }
        k += 1;
    }
    proof {
        assert(out@ =~= mask_seq(src@, target, tolerance));
    }
    RgbFrame { width: frame.width, height: frame.height, pixels: out }
}

/// Pixels equal to the target become white; pixels farther from it than the
/// tolerance become black.
pub proof fn lemma_mask_separates(src: Seq<u8>, t: (u8, u8, u8), tolerance: u32, k: int, c: int)
    requires
        0 <= k,
        3 * k + 2 < src.len(),
        0 <= c < 3,
    ensures
        channel(src, k, 0) == t.0 && channel(src, k, 1) == t.1 && channel(src, k, 2) == t.2
            ==> channel(mask_seq(src, t, tolerance), k, c) == 255,
        color_dist2(channel(src, k, 0), channel(src, k, 1), channel(src, k, 2), t) > tolerance
            * tolerance ==> channel(mask_seq(src, t, tolerance), k, c) == 0,
{
    let j = 3 * k + c;
    assert(j - j % 3 == 3 * k);
    assert(0 <= tolerance * tolerance) by (nonlinear_arith);
}

fn luma(src: &Vec<u8>) -> (r: Vec<u8>)
    requires
        src@.len() % 3 == 0,
    ensures
        r@ == luma_seq(src@),
{
    let len = src.len();
    let n = len / 3;
    let mut out: Vec<u8> = Vec::new();
    let mut k: usize = 0;
    while k < n
        invariant
            len == src@.len(),
            n == len / 3,
            src@.len() % 3 == 0,
            k <= n,
            out@.len() == k,
            forall|i: int| 0 <= i < k ==> out@[i] == #[trigger] luma_seq(src@)[i],
        decreases n - k,
    {
        let r = src[3 * k] as u32;
        let g = src[3 * k + 1] as u32;
        let b = src[3 * k + 2] as u32;
        let l = (2126 * r + 7152 * g + 722 * b) / 10000;
        out.push(l as u8);
        k += 1;
    }
    proof {
        assert(out@ =~= luma_seq(src@));
    }
    out
}

fn threshold(gray: &Vec<u8>, level: u8) -> (r: Vec<u8>)
    ensures
        r@ == threshold_seq(gray@, level),
{
    let mut out: Vec<u8> = Vec::new();
    for k in 0..gray.len()
        invariant
            out@.len() == k,
            forall|i: int| 0 <= i < k ==> out@[i] == #[trigger] threshold_seq(gray@, level)[i],
    {
        if gray[k] > level {
            out.push(255);
        } else {
            out.push(0);
        }
    }
    proof {
        assert(out@ =~= threshold_seq(gray@, level));
    }
    out
}

fn gray_to_rgb(gray: &Vec<u8>) -> (r: Vec<u8>)
    requires
        gray@.len() * 3 <= usize::MAX,
    ensures
        r@ == gray_to_rgb_seq(gray@),
{
    let mut out: Vec<u8> = Vec::new();
    for k in 0..gray.len()
        invariant
            gray@.len() * 3 <= usize::MAX,
            out@.len() == 3 * k,
            forall|j: int| 0 <= j < 3 * k ==> out@[j] == #[trigger] gray_to_rgb_seq(gray@)[j],
    {
        let v = gray[k];
        out.push(v);
        out.push(v);
        out.push(v);
        proof {
            assert((3 * k as int) / 3 == k);
            assert((3 * k as int + 1) / 3 == k);
            assert((3 * k as int + 2) / 3 == k);
        }
    }
    proof {
        assert(out@ =~= gray_to_rgb_seq(gray@));
    }
    out
}

/// Binarizes an upscaled RGB buffer at `level`: gray by luma, white above
/// the level and black at or below it, widened back to RGB.
pub fn binarize(up: &Vec<u8>, level: u8) -> (r: Vec<u8>)
    requires
        up@.len() % 3 == 0,
    ensures
        r@ == gray_to_rgb_seq(threshold_seq(luma_seq(up@), level)),
{
    let n = up.len();
    let gray = luma(up);
    let binary = threshold(&gray, level);
    proof {
        assert(n == up@.len());
        assert(binary@.len() * 3 == up@.len());
    }
    gray_to_rgb(&binary)
}

/// The upscale-and-binarize pipeline for small regions of low-contrast text:
/// upscale by `scale` with a smooth kernel, then binarize at the level Otsu's
/// method picks. Whatever the resampling and the level came out as, the
/// result is the binarization of some upscaled image of the new size (the
/// frame itself when `scale` is 1), at a level that leaves both black and
/// white pixels whenever that image has two different gray levels.
pub fn preprocess_small_region(frame: &RgbFrame, scale: u32) -> (r: RgbFrame)
    requires
        frame.wf(),
        frame.width * scale <= u32::MAX,
        frame.height * scale <= u32::MAX,
        (frame.width * scale) * (frame.height * scale) * 255 <= u32::MAX,
    ensures
        r.width == frame.width * scale,
        r.height == frame.height * scale,
        r.wf(),
        exists|up: Seq<u8>, level: u8|
            up.len() == r.width * r.height * 3 && (scale == 1 ==> up == frame.pixels@) && (
            has_two_levels(luma_seq(up)) ==> level_splits(luma_seq(up), level)) && r.pixels@
                == gray_to_rgb_seq(#[trigger] threshold_seq(luma_seq(up), level)),
{
    let w = frame.width * scale;
    let h = frame.height * scale;
    let up = resize_rgb(&frame.pixels, frame.width, frame.height, w, h, ResizeFilter::CatmullRom);
    proof {
        assert(up@.len() % 3 == 0);
        assert(up@.len() / 3 == w * h);
    }
    let gray = luma(&up);
    let level = otsu_level(&gray, w, h);
    let pixels = binarize(&up, level);
    proof {
        if scale == 1 {
            assert(w == frame.width && h == frame.height);
            assert(up@ == frame.pixels@);
        }
        assert(gray@ == luma_seq(up@));
        assert(up@.len() == w * h * 3 && (scale == 1 ==> up@ == frame.pixels@) && (has_two_levels(
            luma_seq(up@),
        ) ==> level_splits(luma_seq(up@), level)) && pixels@ == gray_to_rgb_seq(
            threshold_seq(luma_seq(up@), level),
        ));
    }
    RgbFrame { width: w, height: h, pixels }
}

/// The color-filter pipeline for text of a known color over a moving
/// background: the color-distance mask (see [`color_distance_mask`]), then an
/// upscale by `scale` with a smooth kernel; at scale 1, the mask itself.
pub fn preprocess_color_filter(
    frame: &RgbFrame,
    scale: u32,
    target: (u8, u8, u8),
    tolerance: u32,
) -> (r: RgbFrame)
    requires
        frame.wf(),
        frame.width * scale <= u32::MAX,
        frame.height * scale <= u32::MAX,
        (frame.width * scale) * (frame.height * scale) * 3 <= usize::MAX,
    ensures
        r.width == frame.width * scale,
        r.height == frame.height * scale,
        r.wf(),
        scale == 1 ==> r.pixels@ == mask_seq(frame.pixels@, target, tolerance),
{
    let masked = color_distance_mask(frame, target, tolerance);
    let w = frame.width * scale;
    let h = frame.height * scale;
    let pixels = resize_rgb(&masked.pixels, frame.width, frame.height, w, h, ResizeFilter::CatmullRom);
    RgbFrame { width: w, height: h, pixels }
}

/// Side of the grid a frame is downsampled to before hashing.
pub const HASH_GRID: u32 = 32;

/// The perceptual hash of a frame: the hash of its nearest-neighbour
/// downsample to a 32 x 32 grid. Frames with equal pixels hash equally.
pub fn frame_hash(frame: &RgbFrame) -> (r: u64)
    requires
        frame.wf(),
    ensures
        r == hash_of(
            nearest_resized_of(frame.pixels@, frame.width, frame.height, HASH_GRID, HASH_GRID),
        ),
{
    let small = resize_rgb(
        &frame.pixels,
        frame.width,
        frame.height,
        HASH_GRID,
        HASH_GRID,
        ResizeFilter::Nearest,
    );
    hash_bytes(&small)
}

} // verus!
