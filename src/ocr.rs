//! Recognized-text records, the frame cache, coordinate mapping back to the
//! screen, and the substring query over a recognition result.

use vstd::prelude::*;
use crate::text::{chars_contain, contains_seq, str_chars};


verus! {

/// One recognized text span: its text, the four corners of its box in screen
/// coordinates (top-left, top-right, bottom-right, bottom-left) and the
/// recognizer's confidence in thousandths.
pub struct OcrResultItem {
    pub text: String,
    pub box_points: [[i32; 2]; 4],
    pub score_permille: u32,
}

impl View for OcrResultItem {
    type V = (Seq<char>, [[i32; 2]; 4], u32);

    open spec fn view(&self) -> Self::V {
        (self.text@, self.box_points, self.score_permille)
    }
}

/// Integer halving that rounds toward zero, as `/ 2` does on machine integers.
pub open spec fn half_toward_zero(v: int) -> int {
    if v >= 0 {
        v / 2
    } else {
        -((-v) / 2)
    }
}

/// The midpoint of the diagonal from corner 0 to corner 2.
pub open spec fn center_of(b: [[i32; 2]; 4]) -> (i32, i32) {
    (
        half_toward_zero(b[0][0] + b[2][0]) as i32,
        half_toward_zero(b[0][1] + b[2][1]) as i32,
    )
}

impl OcrResultItem {
    /// The center of the text box: the midpoint of the diagonal from corner 0 to corner 2.
    pub fn center(&self) -> (r: (i32, i32))
        ensures
            r == center_of(self.box_points),
    {
        let x = (self.box_points[0][0] as i64 + self.box_points[2][0] as i64) / 2;
        let y = (self.box_points[0][1] as i64 + self.box_points[2][1] as i64) / 2;
        (x as i32, y as i32)
    }

    /// A copy of this record.
    pub fn duplicate(&self) -> (r: OcrResultItem)
        ensures
            r@ == self@,
    {
        OcrResultItem {
            text: self.text.clone(),
            box_points: self.box_points,
            score_permille: self.score_permille,
        }
    }
}

/// Copies a list of records.
pub fn duplicate_all(items: &Vec<OcrResultItem>) -> (r: Vec<OcrResultItem>)
    ensures
        r@.len() == items@.len(),
        forall|i: int| 0 <= i < items@.len() ==> (#[trigger] r@[i])@ == items@[i]@,
{
    let mut out: Vec<OcrResultItem> = Vec::new();
    for i in 0..items.len()
        invariant
            out@.len() == i,
            forall|j: int| 0 <= j < i ==> (#[trigger] out@[j])@ == items@[j]@,
    {
        out.push(items[i].duplicate());
    }
    out
}

/// The views of a list of records.
pub open spec fn views_of(items: Seq<OcrResultItem>) -> Seq<(Seq<char>, [[i32; 2]; 4], u32)> {
    items.map_values(|i: OcrResultItem| i@)
}

/// A spec position as a machine index.
pub open spec fn index_option(o: Option<int>) -> Option<usize> {
    match o {
        Some(i) => Some(i as usize),
        None => None,
    }
}

/// The index of the first record whose text contains `target`.
pub open spec fn first_containing(items: Seq<OcrResultItem>, target: Seq<char>) -> Option<int>
    decreases items.len(),
{
    if items.len() == 0 {
        None
    } else {
        match first_containing(items.drop_last(), target) {
            Some(i) => Some(i),
            None => if contains_seq(items.last().text@, target) {
                Some(items.len() - 1)
            } else {
                None
            },
        }
    }
}

pub proof fn lemma_first_containing_bounds(items: Seq<OcrResultItem>, target: Seq<char>)
    ensures
        first_containing(items, target) matches Some(i) ==> 0 <= i < items.len()
            && contains_seq(items[i].text@, target),
    decreases items.len(),
{
    if items.len() > 0 {
        lemma_first_containing_bounds(items.drop_last(), target);
    }
}

/// Position of the first record whose text contains `target`.
pub fn find_text_contains_chars(results: &Vec<OcrResultItem>, target: &Vec<char>) -> (r: Option<
    usize,
>)
    ensures
        r == index_option(first_containing(results@, target@)),
        (r matches Some(i) ==> first_containing(results@, target@) == Some(i as int)),
{
    let mut i: usize = 0;
    while i < results.len()
        invariant
            i <= results@.len(),
            first_containing(results@.take(i as int), target@) is None,
        decreases results@.len() - i,
    {
        let chars = str_chars(results[i].text.as_str());
        proof {
            assert(results@.take(i + 1).drop_last() =~= results@.take(i as int));
        }
        if chars_contain(&chars, target) {
            proof {
                lemma_prefix_first(results@, target@, i as int);
            }
            return Some(i);
        }
        i += 1;
    }
    proof {
        assert(results@.take(results@.len() as int) =~= results@);
    }
    None
}

proof fn lemma_prefix_first(items: Seq<OcrResultItem>, target: Seq<char>, i: int)
    requires
        0 <= i < items.len(),
        first_containing(items.take(i), target) is None,
        contains_seq(items[i].text@, target),
    ensures
        first_containing(items, target) == Some(i),
    decreases items.len(),
{
    assert(items.take(i + 1).drop_last() =~= items.take(i));
    if items.len() == i + 1 {
        assert(items.take(i + 1) =~= items);
    } else {
        assert(items.drop_last().take(i) =~= items.take(i));
        lemma_prefix_first(items.drop_last(), target, i);
    }
}

/// The first record whose text contains `target` as a substring.
pub fn find_text_contains<'a>(results: &'a Vec<OcrResultItem>, target: &str) -> (r: Option<
    &'a OcrResultItem,
>)
    ensures
        (r is Some) == (first_containing(results@, target@) is Some),
        (r matches Some(item) ==> *item == results@[first_containing(results@, target@)->0]),
{
    let t = str_chars(target);
    match find_text_contains_chars(results, &t) {
        Some(i) => {
            proof {
                lemma_first_containing_bounds(results@, target@);
                assert(t@ == target@);
                assert(first_containing(results@, target@) == Some(i as int));
            }
            let item = &results[i];
            assert(*item == results@[i as int]);
            Some(item)
        },
        None => None,
    }
}

/// Integer division that rounds toward zero, as `/` does on machine integers.
pub open spec fn div_toward_zero(a: int, b: int) -> int {
    if a >= 0 {
        a / b
    } else {
        -((-a) / b)
    }
}

/// A coordinate of an upscaled capture mapped back to the screen: divided by
/// the upscale factor, then shifted by the region's offset.
pub open spec fn screen_coord(v: i32, scale: u32, offset: i32) -> int {
    div_toward_zero(v as int, scale as int) + offset
}

pub open spec fn in_i32(v: int) -> bool {
    i32::MIN <= v <= i32::MAX
}

/// Every corner of every record stays within `i32` once mapped to the screen.
pub open spec fn maps_to_screen(items: Seq<OcrResultItem>, scale: u32, x: i32, y: i32) -> bool {
    forall|i: int, k: int|
        0 <= i < items.len() && 0 <= k < 4 ==> #[trigger] corner_fits(
            items[i].box_points,
            k,
            scale,
            x,
            y,
        )
}

/// `r` is `b` with each corner mapped to the screen.
pub open spec fn box_on_screen(b: [[i32; 2]; 4], r: [[i32; 2]; 4], scale: u32, x: i32, y: i32) -> bool {
    forall|k: int|
        0 <= k < 4 ==> #[trigger] r[k][0] == screen_coord(b[k][0], scale, x) && r[k][1]
            == screen_coord(b[k][1], scale, y)
}

fn map_coord(v: i32, scale: u32, offset: i32) -> (r: i32)
    requires
        scale >= 1,
        in_i32(screen_coord(v, scale, offset)),
    ensures
        r == screen_coord(v, scale, offset),
{
    let q = (v as i64) / (scale as i64);
    (q + offset as i64) as i32
}

/// Whether [`to_screen`] can map `results` with these arguments.
pub fn fits_screen(results: &Vec<OcrResultItem>, scale: u32, x: i32, y: i32) -> (r: bool)
    requires
        scale >= 1,
    ensures
        r == maps_to_screen(results@, scale, x, y),
{
    let mut i: usize = 0;
    while i < results.len()
        invariant
            scale >= 1,
            i <= results@.len(),
            maps_to_screen(results@.take(i as int), scale, x, y),
        decreases results@.len() - i,
    {
        let b = results[i].box_points;
        let mut k: usize = 0;
        while k < 4
            invariant
                scale >= 1,
                k <= 4,
                i < results@.len(),
                b == results@[i as int].box_points,
                forall|j: int| 0 <= j < k ==> #[trigger] corner_fits(b, j, scale, x, y),
            decreases 4 - k,
        {
            let cx = (b[k][0] as i64) / (scale as i64) + x as i64;
            let cy = (b[k][1] as i64) / (scale as i64) + y as i64;
            if cx < i32::MIN as i64 || cx > i32::MAX as i64 || cy < i32::MIN as i64 || cy
                > i32::MAX as i64 {
                proof {
                    assert(!corner_fits(results@[i as int].box_points, k as int, scale, x, y));
                }
                return false;
            }
            assert(corner_fits(b, k as int, scale, x, y));
            k += 1;
        }
        proof {
            assert forall|j: int| 0 <= j < 4 implies corner_fits(b, j, scale, x, y) by {}
            assert forall|a: int, j: int|
                0 <= a < results@.take(i + 1).len() && 0 <= j < 4 implies #[trigger] corner_fits(
                results@.take(i + 1)[a].box_points,
                j,
                scale,
                x,
                y,
            ) by {
                if a < i {
                    assert(results@.take(i + 1)[a] == results@.take(i as int)[a]);
                } else {
                    assert(results@.take(i + 1)[a] == results@[i as int]);
                }
            }
        }
        i += 1;
    }
    proof {
        assert(results@.take(results@.len() as int) =~= results@);
    }
    true
}

/// Corner `k` of `b` stays within `i32` once mapped to the screen.
pub open spec fn corner_fits(b: [[i32; 2]; 4], k: int, scale: u32, x: i32, y: i32) -> bool {
    in_i32(screen_coord(b[k][0], scale, x)) && in_i32(screen_coord(b[k][1], scale, y))
}

/// Maps recognition results of a capture to absolute screen coordinates: each
/// corner is divided by the capture's upscale factor (1 when it was not
/// upscaled) and shifted by the capture region's offset.
pub fn to_screen(results: &Vec<OcrResultItem>, scale: u32, x: i32, y: i32) -> (r: Vec<
    OcrResultItem,
>)
    requires
        scale >= 1,
        maps_to_screen(results@, scale, x, y),
    ensures
        r@.len() == results@.len(),
        forall|i: int|
            0 <= i < results@.len() ==> (#[trigger] r@[i]).text@ == results@[i].text@
                && r@[i].score_permille == results@[i].score_permille && box_on_screen(
                results@[i].box_points,
                r@[i].box_points,
                scale,
                x,
                y,
            ),
{
    let mut out: Vec<OcrResultItem> = Vec::new();
    for i in 0..results.len()
        invariant
            scale >= 1,
            maps_to_screen(results@, scale, x, y),
            out@.len() == i,
            forall|j: int|
                0 <= j < i ==> (#[trigger] out@[j]).text@ == results@[j].text@
                    && out@[j].score_permille == results@[j].score_permille && box_on_screen(
                    results@[j].box_points,
                    out@[j].box_points,
                    scale,
                    x,
                    y,
                ),
    {
        let item = &results[i];
        let b = item.box_points;
        proof {
            assert forall|k: int| 0 <= k < 4 implies in_i32(screen_coord(b[k][0], scale, x))
                && in_i32(screen_coord(b[k][1], scale, y)) by {
                assert(corner_fits(results@[i as int].box_points, k, scale, x, y));
            }
        }
        let nb: [[i32; 2]; 4] = [
            [map_coord(b[0][0], scale, x), map_coord(b[0][1], scale, y)],
            [map_coord(b[1][0], scale, x), map_coord(b[1][1], scale, y)],
            [map_coord(b[2][0], scale, x), map_coord(b[2][1], scale, y)],
            [map_coord(b[3][0], scale, x), map_coord(b[3][1], scale, y)],
        ];
        proof {
            assert forall|k: int| 0 <= k < 4 implies #[trigger] nb[k][0] == screen_coord(
                b[k][0],
                scale,
                x,
            ) && nb[k][1] == screen_coord(b[k][1], scale, y) by {
                if k == 0 {
                } else if k == 1 {
                } else if k == 2 {
                } else {
                }
            }
        }
        out.push(
            OcrResultItem { text: item.text.clone(), box_points: nb, score_permille: item.score_permille },
        );
    }
    out
}

/// The four corners of an axis-aligned rectangle, clockwise from the top-left.
pub fn box_from_rect(left: i32, top: i32, width: i32, height: i32) -> (r: [[i32; 2]; 4])
    requires
        in_i32(left + width),
        in_i32(top + height),
    ensures
        r[0][0] == left && r[0][1] == top,
        r[1][0] == left + width && r[1][1] == top,
        r[2][0] == left + width && r[2][1] == top + height,
        r[3][0] == left && r[3][1] == top + height,
{
    let right = left + width;
    let bottom = top + height;
    [[left, top], [right, top], [right, bottom], [left, bottom]]
}

/// One text region as the recognizer reports it: an axis-aligned rectangle
/// and a confidence in thousandths.
pub struct RecognizedBlock {
    pub text: String,
    pub left: i32,
    pub top: i32,
    pub width: u32,
    pub height: u32,
    pub score_permille: u32,
}

/// The block's rectangle has its right and bottom edges within `i32`.
pub open spec fn block_fits(b: RecognizedBlock) -> bool {
    in_i32(b.left + b.width) && in_i32(b.top + b.height)
}

/// `item` is `b` with its rectangle turned into four corners, clockwise from the top-left.
pub open spec fn item_of_block(item: OcrResultItem, b: RecognizedBlock) -> bool {
    &&& item.text@ == b.text@
    &&& item.score_permille == b.score_permille
    &&& item.box_points[0][0] == b.left && item.box_points[0][1] == b.top
    &&& item.box_points[1][0] == b.left + b.width && item.box_points[1][1] == b.top
    &&& item.box_points[2][0] == b.left + b.width && item.box_points[2][1] == b.top + b.height
    &&& item.box_points[3][0] == b.left && item.box_points[3][1] == b.top + b.height
}

/// The records of a recognition, one per block in order; `None` when some
/// rectangle reaches past the `i32` range.
pub fn results_from_blocks(blocks: &Vec<RecognizedBlock>) -> (r: Option<Vec<OcrResultItem>>)
    ensures
        (r is Some) == (forall|i: int| 0 <= i < blocks@.len() ==> #[trigger] block_fits(blocks@[i])),
        (r matches Some(v) ==> v@.len() == blocks@.len() && forall|i: int|
            0 <= i < blocks@.len() ==> item_of_block(#[trigger] v@[i], blocks@[i])),
{
    let mut out: Vec<OcrResultItem> = Vec::new();
    for i in 0..blocks.len()
        invariant
            out@.len() == i,
            forall|j: int| 0 <= j < i ==> #[trigger] block_fits(blocks@[j]),
            forall|j: int| 0 <= j < i ==> item_of_block(#[trigger] out@[j], blocks@[j]),
    {
        let b = &blocks[i];
        let right = b.left as i64 + b.width as i64;
        let bottom = b.top as i64 + b.height as i64;
        if right > i32::MAX as i64 || bottom > i32::MAX as i64 {
            proof {
                assert(!block_fits(blocks@[i as int]));
            }
            return None;
        }
        let (r32, b32) = (right as i32, bottom as i32);
        let corners: [[i32; 2]; 4] = [[b.left, b.top], [r32, b.top], [r32, b32], [b.left, b32]];
        out.push(OcrResultItem { text: b.text.clone(), box_points: corners, score_permille: b.score_permille });
    }
    Some(out)
}

/// The last recognition result, keyed by the perceptual hash of the frame it
/// was computed from. A hit needs both a stored hash equal to the frame's and a
/// stored result.
pub struct FrameCache {
    pub hash: Option<u64>,
    pub result: Option<Vec<OcrResultItem>>,
}

/// What a frame cache holds: the stored hash and the stored records' views.
pub type FrameCacheView = (Option<u64>, Option<Seq<(Seq<char>, [[i32; 2]; 4], u32)>>);

impl View for FrameCache {
    type V = FrameCacheView;

    open spec fn view(&self) -> FrameCacheView {
        (
            self.hash,
            match self.result {
                Some(v) => Some(views_of(v@)),
                None => None,
            },
        )
    }
}

/// The records a lookup of `hash` returns from a cache in state `c`, if it hits.
pub open spec fn cache_lookup(c: FrameCacheView, hash: u64) -> Option<
    Seq<(Seq<char>, [[i32; 2]; 4], u32)>,
> {
    if c.0 == Some(hash) && c.1 is Some {
        c.1
    } else {
        None
    }
}

/// The cache state after storing `items` under `hash`.
pub open spec fn cache_store(
    hash: u64,
    items: Seq<(Seq<char>, [[i32; 2]; 4], u32)>,
) -> FrameCacheView {
    (Some(hash), Some(items))
}

impl FrameCache {
    /// An empty cache.
    pub fn new() -> (r: FrameCache)
        ensures
            r@ == (None::<u64>, None::<Seq<(Seq<char>, [[i32; 2]; 4], u32)>>),
    {
        FrameCache { hash: None, result: None }
    }
}

/// Whether a frame with this hash can reuse the stored result.
pub fn should_skip_frame(cache: &FrameCache, hash: u64) -> (r: bool)
    ensures
        r == (cache_lookup(cache@, hash) is Some),
{
    match cache.hash {
        Some(h) => h == hash && cache.result.is_some(),
        None => false,
    }
}

/// A copy of the stored result, if any.
pub fn get_cached_result(cache: &FrameCache) -> (r: Option<Vec<OcrResultItem>>)
    ensures
        (r is Some) == (cache.result is Some),
        (r matches Some(v) ==> views_of(v@) == views_of(cache.result->0@)),
{
    match &cache.result {
        Some(v) => {
            let c = duplicate_all(v);
            proof {
                assert(views_of(c@) =~= views_of(v@));
            }
            Some(c)
        },
        None => None,
    }
}

/// Stores `result` as the recognition of the frame with this hash.
pub fn update_frame_cache(cache: &mut FrameCache, hash: u64, result: &Vec<OcrResultItem>)
    ensures
        final(cache)@ == cache_store(hash, views_of(result@)),
{
    let c = duplicate_all(result);
    proof {
        assert(views_of(c@) =~= views_of(result@));
    }
    cache.hash = Some(hash);
    cache.result = Some(c);
}

/// Forgets the stored frame, so that the next lookup misses.
pub fn clear_frame_cache(cache: &mut FrameCache)
    ensures
        final(cache)@ == (None::<u64>, None::<Seq<(Seq<char>, [[i32; 2]; 4], u32)>>),
{
    cache.hash = None;
    cache.result = None;
}

/// The cached side of a recognition call: with the cache enabled and a frame
/// whose hash matches the stored one, the stored result; otherwise `None`, and
/// the recognizer has to run.
pub fn cached_recognition(cache: &FrameCache, use_frame_cache: bool, hash: u64) -> (r: Option<
    Vec<OcrResultItem>,
>)
    ensures
        (r is Some) == (use_frame_cache && cache_lookup(cache@, hash) is Some),
        (r matches Some(v) ==> Some(views_of(v@)) == cache_lookup(cache@, hash)),
{
    if use_frame_cache && should_skip_frame(cache, hash) {
        get_cached_result(cache)
    } else {
        None
    }
}

/// Records a fresh recognition of the frame with this hash, when the cache is enabled.
pub fn record_recognition(
    cache: &mut FrameCache,
    use_frame_cache: bool,
    hash: u64,
    result: &Vec<OcrResultItem>,
)
    ensures
        use_frame_cache ==> final(cache)@ == cache_store(hash, views_of(result@)),
        !use_frame_cache ==> final(cache)@ == old(cache)@,
{
    if use_frame_cache {
        update_frame_cache(cache, hash, result);
    }
}

/// A frame whose hash equals the one last recorded gets back exactly the
/// recorded result, without a second recognition; a frame with any other
/// hash misses the cache.
pub proof fn lemma_frame_cache_reuse(
    hash: u64,
    other: u64,
    items: Seq<(Seq<char>, [[i32; 2]; 4], u32)>,
)
    ensures
        cache_lookup(cache_store(hash, items), hash) == Some(items),
        other != hash ==> cache_lookup(cache_store(hash, items), other) is None,
{
}

} // verus!
