//! Background monitor state: the latest wave number and gold amount read
//! from two screen regions, and the decisions each poll makes on what the
//! recognizer returned. The polling loops themselves run outside the library.

use vstd::prelude::*;
use crate::ocr::OcrResultItem;
use crate::text::{
    digits_number, digits_of, decimal_value, extract_number, lemma_digits_number_bounds,
};

verus! {

/// Regions, poll intervals and gold color filter for one monitoring session.
/// The color tolerance is a Euclidean distance in RGB space.
pub struct MonitorConfig {
    pub wave_region: (i32, i32, i32, i32),
    pub gold_region: (i32, i32, i32, i32),
    pub wave_interval_ms: u64,
    pub gold_interval_ms: u64,
    pub gold_text_color: (u8, u8, u8),
    pub gold_color_tolerance: u32,
    pub gold_use_color_filter: bool,
}

impl MonitorConfig {
    /// The settings tuned for a 1920x1080 screen.
    pub fn standard() -> (r: MonitorConfig)
        ensures
            r.wave_region == (1841i32, 733i32, 172i32, 52i32),
            r.gold_region == (48i32, 56i32, 120i32, 22i32),
            r.wave_interval_ms == 500,
            r.gold_interval_ms == 300,
            r.gold_text_color == (0xd9u8, 0xe1u8, 0xe3u8),
            r.gold_color_tolerance == 35,
            r.gold_use_color_filter,
    {
        MonitorConfig {
            wave_region: (1841, 733, 172, 52),
            gold_region: (48, 56, 120, 22),
            wave_interval_ms: 500,
            gold_interval_ms: 300,
            gold_text_color: (0xd9, 0xe1, 0xe3),
            gold_color_tolerance: 35,
            gold_use_color_filter: true,
        }
    }
}

/// The published values and whether the polling loops should keep running.
/// Zero is the wave before the first one starts.
pub struct MonitorState {
    pub current_wave: u32,
    pub current_gold: i64,
    pub running: bool,
}

impl MonitorState {
    /// A stopped monitor with both values at zero.
    pub fn new() -> (r: MonitorState)
        ensures
            r.current_wave == 0,
            r.current_gold == 0,
            !r.running,
    {
        MonitorState { current_wave: 0, current_gold: 0, running: false }
    }
}

/// The wave number written in `text`: all its ASCII digits read as one number.
pub open spec fn wave_reading(text: Seq<char>) -> Option<u64> {
    digits_number(text, u32::MAX as u64)
}

/// The gold amount written in `text`: all its ASCII digits read as one number.
pub open spec fn gold_reading(text: Seq<char>) -> Option<u64> {
    digits_number(text, i64::MAX as u64)
}

/// Reads a wave number: every ASCII digit of `text`, in order, as one number;
/// `None` when there is no digit or the number does not fit in `u32`.
pub fn parse_wave_number(text: &str) -> (r: Option<u32>)
    ensures
        (r is Some) == (wave_reading(text@) is Some),
        (r matches Some(w) ==> w as int == wave_reading(text@)->0 as int),
        (wave_reading(text@) matches Some(v) ==> v <= u32::MAX),
{
    proof {
        lemma_digits_number_bounds(text@, u32::MAX as u64);
    }
    match extract_number(text, u32::MAX as u64) {
        Some(v) => Some(v as u32),
        None => None,
    }
}

/// Reads a gold amount: every ASCII digit of `text`, in order, as one number,
/// with separators such as `$`, `,` and `.` dropped; `None` when there is no
/// digit or the number does not fit in `i64`.
pub fn parse_gold(text: &str) -> (r: Option<i64>)
    ensures
        (r is Some) == (gold_reading(text@) is Some),
        (r matches Some(g) ==> g as int == gold_reading(text@)->0 as int),
        (gold_reading(text@) matches Some(v) ==> v <= i64::MAX),
{
    proof {
        lemma_digits_number_bounds(text@, i64::MAX as u64);
    }
    match extract_number(text, i64::MAX as u64) {
        Some(v) => Some(v as i64),
        None => None,
    }
}

/// The published wave after a poll that recognized `items`, starting from `wave`:
/// each record whose digits read as a nonzero wave replaces it.
pub open spec fn wave_after(wave: u32, items: Seq<OcrResultItem>) -> u32
    decreases items.len(),
{
    if items.len() == 0 {
        wave
    } else {
        let before = wave_after(wave, items.drop_last());
        match wave_reading(items.last().text@) {
            Some(w) => if w > 0 {
                w as u32
            } else {
                before
            },
            None => before,
        }
    }
}

/// The published gold after a poll that recognized `items`, starting from `gold`:
/// each record whose digits read as an amount replaces it.
pub open spec fn gold_after(gold: i64, items: Seq<OcrResultItem>) -> i64
    decreases items.len(),
{
    if items.len() == 0 {
        gold
    } else {
        let before = gold_after(gold, items.drop_last());
        match gold_reading(items.last().text@) {
            Some(g) => g as i64,
            None => before,
        }
    }
}

/// Applies one wave poll: publishes each nonzero wave number read from the records.
pub fn apply_wave_results(state: &mut MonitorState, results: &Vec<OcrResultItem>)
    ensures
        final(state).current_wave == wave_after(old(state).current_wave, results@),
        final(state).current_gold == old(state).current_gold,
        final(state).running == old(state).running,
{
    let ghost start = state.current_wave;
    for i in 0..results.len()
        invariant
            state.current_wave == wave_after(start, results@.take(i as int)),
            state.current_gold == old(state).current_gold,
            state.running == old(state).running,
    {
        proof {
            assert(results@.take(i + 1).drop_last() =~= results@.take(i as int));
        }
        proof {
            lemma_digits_number_bounds(results@[i as int].text@, u32::MAX as u64);
        }
        match parse_wave_number(results[i].text.as_str()) {
            Some(w) => {
                if w != state.current_wave && w > 0 {
                    state.current_wave = w;
                }
            },
            None => {},
        }
    }
    proof {
        assert(results@.take(results@.len() as int) =~= results@);
    }
}

/// Applies one gold poll: publishes each amount read from the records.
pub fn apply_gold_results(state: &mut MonitorState, results: &Vec<OcrResultItem>)
    ensures
        final(state).current_gold == gold_after(old(state).current_gold, results@),
        final(state).current_wave == old(state).current_wave,
        final(state).running == old(state).running,
{
    let ghost start = state.current_gold;
    for i in 0..results.len()
        invariant
            state.current_gold == gold_after(start, results@.take(i as int)),
            state.current_wave == old(state).current_wave,
            state.running == old(state).running,
    {
        proof {
            assert(results@.take(i + 1).drop_last() =~= results@.take(i as int));
        }
        proof {
            lemma_digits_number_bounds(results@[i as int].text@, i64::MAX as u64);
        }
        match parse_gold(results[i].text.as_str()) {
            Some(g) => {
                state.current_gold = g;
            },
            None => {},
        }
    }
    proof {
        assert(results@.take(results@.len() as int) =~= results@);
    }
}

/// The latest published wave.
pub fn current_wave(state: &MonitorState) -> (r: u32)
    ensures
        r == state.current_wave,
{
    state.current_wave
}

/// The latest published gold amount.
pub fn current_gold(state: &MonitorState) -> (r: i64)
    ensures
        r == state.current_gold,
{
    state.current_gold
}

/// Sets both published values back to zero.
pub fn reset_monitors(state: &mut MonitorState)
    ensures
        final(state).current_wave == 0,
        final(state).current_gold == 0,
        final(state).running == old(state).running,
{
    state.current_wave = 0;
    state.current_gold = 0;
}

/// Whether the polling loops are meant to run.
pub fn is_running(state: &MonitorState) -> (r: bool)
    ensures
        r == state.running,
{
    state.running
}

/// Marks the monitor running. Returns whether the polling loops must be
/// started: `false` when it was already running, which changes nothing.
pub fn start_monitors(state: &mut MonitorState) -> (r: bool)
    ensures
        r == !old(state).running,
        final(state).running,
        final(state).current_wave == old(state).current_wave,
        final(state).current_gold == old(state).current_gold,
{
    if state.running {
        false
    } else {
        state.running = true;
        true
    }
}

/// Marks the monitor stopped; the polling loops end at their next check.
pub fn stop_monitors(state: &mut MonitorState)
    ensures
        !final(state).running,
        final(state).current_wave == old(state).current_wave,
        final(state).current_gold == old(state).current_gold,
{
    state.running = false;
}

/// Whether a polling loop goes on for another round: the monitor is running
/// and no stop was requested.
pub fn keep_polling(state: &MonitorState, stop_requested: bool) -> (r: bool)
    ensures
        r == (state.running && !stop_requested),
{
    state.running && !stop_requested
}

/// A poll never publishes wave zero: the wave after any poll is either the
/// one before it or a nonzero number read from one of the records.
pub proof fn lemma_zero_wave_never_published(wave: u32, items: Seq<OcrResultItem>)
    ensures
        wave_after(wave, items) == wave || wave_after(wave, items) > 0,
        wave > 0 ==> wave_after(wave, items) > 0,
    decreases items.len(),
{
    if items.len() > 0 {
        lemma_zero_wave_never_published(wave, items.drop_last());
        lemma_digits_number_bounds(items.last().text@, u32::MAX as u64);
    }
}

/// For text made of digits and separators, the reading is the number that the
/// digits spell in order, whenever it fits; text with no digit reads as nothing.
pub proof fn lemma_digits_and_separators(text: Seq<char>)
    ensures
        digits_of(text).len() == 0 ==> wave_reading(text) is None && gold_reading(text) is None,
        digits_of(text).len() > 0 && decimal_value(digits_of(text)) <= i64::MAX ==> gold_reading(
            text,
        ) == Some(decimal_value(digits_of(text)) as u64),
{
}

} // verus!
