//! Game-level helpers: the list of scripted maps, the end-of-game decision,
//! the cache reset between scenes, and wide strings for window lookup.

use vstd::prelude::*;
use crate::input::{
    click_at, left_click, move_to, press_key, sleep_ms, tap_key, take_events, InputBackend,
    InputEvent, InputQueue, click_at_events, press_events, tap_events,
};
use crate::text::{chars_contain, contains_seq};
use crate::keys::{VK_5, VK_6, VK_G, VK_SPACE};
use crate::ocr::{
    center_of, clear_frame_cache, find_text_contains_chars, first_containing,
    lemma_first_containing_bounds, FrameCache, OcrResultItem,
};
use crate::strategy_executor::sat_i32;
use crate::text::str_chars;

verus! {

/// Which scripted run a map uses.
#[derive(Clone, Copy, Debug, PartialEq, Eq, Structural)]
pub enum MapScript {
    TrainingHard,
    BuildingInferno,
}

/// A map that can be played: its display name, the difficulty to pick, and its script.
pub struct MapInfo {
    pub name: String,
    pub difficulty: String,
    pub script: MapScript,
}

/// The maps with a scripted run.
pub fn available_maps() -> (r: Vec<MapInfo>)
    ensures
        r@.len() == 2,
        r@[0].name@ == "训练基地"@ && r@[0].difficulty@ == "困难"@ && r@[0].script
            == MapScript::TrainingHard,
        r@[1].name@ == "大厦"@ && r@[1].difficulty@ == "炼狱"@ && r@[1].script
            == MapScript::BuildingInferno,
{
    let mut maps: Vec<MapInfo> = Vec::new();
    maps.push(
        MapInfo {
            name: "训练基地".to_owned(),
            difficulty: "困难".to_owned(),
            script: MapScript::TrainingHard,
        },
    );
    maps.push(
        MapInfo {
            name: "大厦".to_owned(),
            difficulty: "炼狱".to_owned(),
            script: MapScript::BuildingInferno,
        },
    );
    maps
}

/// Forgets the frame cache at a scene change, so no stale result is reused.
pub fn clear_cache(cache: &mut FrameCache)
    ensures
        final(cache)@ == (None::<u64>, None::<Seq<(Seq<char>, [[i32; 2]; 4], u32)>>),
{
    clear_frame_cache(cache);
}

/// The UTF-16 code units of one character.
pub open spec fn utf16_of_char(c: char) -> Seq<u16> {
    let v = (c as u32) as int;
    if v < 0x10000 {
        seq![v as u16]
    } else {
        let u = v - 0x10000;
        seq![(0xD800 + u / 0x400) as u16, (0xDC00 + u % 0x400) as u16]
    }
}

/// The UTF-16 code units of a string.
pub open spec fn utf16_of(s: Seq<char>) -> Seq<u16>
    decreases s.len(),
{
    if s.len() == 0 {
        Seq::empty()
    } else {
        utf16_of(s.drop_last()) + utf16_of_char(s.last())
    }
}

/// `s` in UTF-16, followed by a terminating zero.
pub fn to_wide_string(s: &str) -> (r: Vec<u16>)
    ensures
        r@ == utf16_of(s@).push(0u16),
{
    let mut out: Vec<u16> = Vec::new();
    for c in it: s.chars()
        invariant
            it.seq() == s@,
            out@ == utf16_of(s@.take(it.index() as int)),
    {
        proof {
            assert(s@.take(it.index() + 1).drop_last() =~= s@.take(it.index() as int));
        }
        let v = c as u32;
        proof {
            vstd::utf8::char_is_scalar(c);
        }
        if v < 0x10000 {
            out.push(v as u16);
        } else {
            let u = v - 0x10000;
            out.push((0xD800 + u / 0x400) as u16);
            out.push((0xDC00 + u % 0x400) as u16);
        }
        proof {
            assert(out@ =~= utf16_of(s@.take(it.index() + 1)));
        }
    }
    proof {
        assert(s@.take(s@.len() as int) =~= s@);
    }
    out.push(0);
    out
}

/// What the end-of-game wait does after recognizing the screen.
pub enum GameEndDecision {
    /// The lobby shows again: the game is over.
    Ended,
    /// A popup interrupts the game: play these events to dismiss it, then look again.
    DismissPopup(Vec<InputEvent>),
    /// The stage-complete banner shows: take a screenshot, and the game is over.
    StageComplete,
    /// Nothing conclusive: play these events to keep the character busy, then look again.
    KeepBusy(Vec<InputEvent>),
}

/// `items` holds a record whose text contains `p`.
pub open spec fn shows(items: Seq<OcrResultItem>, p: Seq<char>) -> bool {
    first_containing(items, p) is Some
}

/// Labels that only the lobby shows.
pub open spec fn lobby_shows(items: Seq<OcrResultItem>) -> bool {
    shows(items, "开始"@) || shows(items, "炼狱"@) || shows(items, "训练基地"@)
}

/// Moving near the popup's button and clicking it three times.
pub open spec fn dismiss_events(c: (i32, i32), offset: (i32, i32)) -> Seq<InputEvent> {
    seq![
        InputEvent::MoveTo { x: sat_i32(c.0 + offset.0), y: sat_i32(c.1 + offset.1) },
        InputEvent::Sleep(200),
        InputEvent::LeftClick,
        InputEvent::Sleep(200),
        InputEvent::LeftClick,
        InputEvent::Sleep(200),
        InputEvent::LeftClick,
        InputEvent::Sleep(500),
    ]
}

/// Holding two trap keys for five seconds each, then a jump and a wave start.
pub open spec fn keep_busy_events() -> Seq<InputEvent> {
    press_events(VK_5, 5000) + press_events(VK_6, 5000) + tap_events(VK_SPACE) + tap_events(VK_G)
}

fn contains_label(results: &Vec<OcrResultItem>, label: &str) -> (r: Option<usize>)
    ensures
        (r is Some) == shows(results@, label@),
        (r matches Some(i) ==> first_containing(results@, label@) == Some(i as int) && i
            < results@.len()),
{
    let l = str_chars(label);
    let r = find_text_contains_chars(results, &l);
    proof {
        lemma_first_containing_bounds(results@, label@);
    }
    r
}

/// One look of the end-of-game wait at the recognized screen: the lobby
/// means the game ended; else a popup is dismissed (`offset` leads from the
/// popup's label to its button); else the stage-complete banner ends the
/// game; else the character is kept busy.
pub fn game_end_decision(results: &Vec<OcrResultItem>, offset: (i32, i32)) -> (r: GameEndDecision)
    ensures
        lobby_shows(results@) ==> (r is Ended),
        !lobby_shows(results@) && shows(results@, "返回游戏"@) ==> (r matches GameEndDecision::DismissPopup(
            v,
        ) && v@ == dismiss_events(
            center_of(results@[first_containing(results@, "返回游戏"@)->0].box_points),
            offset,
        )),
        !lobby_shows(results@) && !shows(results@, "返回游戏"@) && shows(results@, "阶段完成"@)
            ==> (r is StageComplete),
        !lobby_shows(results@) && !shows(results@, "返回游戏"@) && !shows(results@, "阶段完成"@)
            ==> (r matches GameEndDecision::KeepBusy(v) && v@ == keep_busy_events()),
{
    let start = contains_label(results, "开始");
    let hell = contains_label(results, "炼狱");
    let training = contains_label(results, "训练基地");
    if start.is_some() || hell.is_some() || training.is_some() {
        return GameEndDecision::Ended;
    }
    let mut q = InputQueue::new(InputBackend::SendInput);
    match contains_label(results, "返回游戏") {
        Some(i) => {
            let (cx, cy) = results[i].center();
            let x = cx as i64 + offset.0 as i64;
            let y = cy as i64 + offset.1 as i64;
            let x = if x > i32::MAX as i64 {
                i32::MAX
            } else if x < i32::MIN as i64 {
                i32::MIN
            } else {
                x as i32
            };
            let y = if y > i32::MAX as i64 {
                i32::MAX
            } else if y < i32::MIN as i64 {
                i32::MIN
            } else {
                y as i32
            };
            move_to(&mut q, x, y);
            sleep_ms(&mut q, 200);
            left_click(&mut q);
            sleep_ms(&mut q, 200);
            left_click(&mut q);
            sleep_ms(&mut q, 200);
            left_click(&mut q);
            sleep_ms(&mut q, 500);
            proof {
                assert(q.events@ =~= dismiss_events(center_of(results@[i as int].box_points), offset));
            }
            return GameEndDecision::DismissPopup(take_events(&mut q));
        },
        None => {},
    }
    if contains_label(results, "阶段完成").is_some() {
        return GameEndDecision::StageComplete;
    }
    press_key(&mut q, VK_5, 5000);
    press_key(&mut q, VK_6, 5000);
    tap_key(&mut q, VK_SPACE);
    tap_key(&mut q, VK_G);
    proof {
        assert(q.events@ =~= keep_busy_events());
    }
    GameEndDecision::KeepBusy(take_events(&mut q))
}

/// Whether the round driver starts another round: rounds remain under the
/// cap and no stop was requested.
pub fn round_continues(rounds_done: u32, max_rounds: u32, stop_requested: bool) -> (r: bool)
    ensures
        r == (rounds_done < max_rounds && !stop_requested),
{
    rounds_done < max_rounds && !stop_requested
}

/// Whether the recognized lobby banner shows the space station, where a game can be started.
pub fn at_space_station(results: &Vec<OcrResultItem>) -> (r: bool)
    ensures
        r == shows(results@, "空间站"@),
{
    contains_label(results, "空间站").is_some()
}

/// Whether the recognized screen shows that the waves are about to begin.
pub fn game_has_started(results: &Vec<OcrResultItem>) -> (r: bool)
    ensures
        r == (shows(results@, "怪物即将来袭"@) || shows(results@, "波次1"@)),
{
    let coming = contains_label(results, "怪物即将来袭");
    let first = contains_label(results, "波次1");
    coming.is_some() || first.is_some()
}

/// Clicking `p` and letting the screen settle.
pub open spec fn click_settle(p: (i32, i32)) -> Seq<InputEvent> {
    click_at_events(p.0, p.1).push(InputEvent::Sleep(200))
}

/// The clicks one record of the room screen asks for: the record naming the
/// difficulty is clicked; "create room" leads to the room button, then the
/// start button; "start" leads to the start button.
pub open spec fn room_clicks_spec(
    text: Seq<char>,
    center: (i32, i32),
    difficulty: Seq<char>,
    room_button: (i32, i32),
    start_button: (i32, i32),
) -> Seq<InputEvent> {
    (if contains_seq(text, difficulty) {
        click_settle(center)
    } else {
        Seq::empty()
    }) + (if contains_seq(text, "创建房间"@) {
        click_settle(room_button) + click_settle(start_button)
    } else {
        Seq::empty()
    }) + (if contains_seq(text, "开始"@) {
        click_settle(start_button)
    } else {
        Seq::empty()
    })
}

fn text_contains(text: &String, label: &str) -> (r: bool)
    ensures
        r == contains_seq(text@, label@),
{
    let t = str_chars(text.as_str());
    let l = str_chars(label);
    chars_contain(&t, &l)
}

fn click_and_settle(q: &mut InputQueue, p: (i32, i32))
    ensures
        final(q).events@ == old(q).events@ + click_settle(p),
        final(q).backend == old(q).backend,
{
    click_at(q, p.0, p.1);
    sleep_ms(q, 200);
    proof {
        assert(final(q).events@ =~= old(q).events@ + click_settle(p));
    }
}

/// The clicks for one recognized record of the room screen.
pub fn room_clicks(
    item: &OcrResultItem,
    difficulty: &str,
    room_button: (i32, i32),
    start_button: (i32, i32),
) -> (r: Vec<InputEvent>)
    ensures
        r@ == room_clicks_spec(
            item.text@,
            center_of(item.box_points),
            difficulty@,
            room_button,
            start_button,
        ),
{
    let mut q = InputQueue::new(InputBackend::SendInput);
    if text_contains(&item.text, difficulty) {
        click_and_settle(&mut q, item.center());
    }
    let ghost first = q.events@;
    if text_contains(&item.text, "创建房间") {
        click_and_settle(&mut q, room_button);
        click_and_settle(&mut q, start_button);
    }
    let ghost second = q.events@;
    if text_contains(&item.text, "开始") {
        click_and_settle(&mut q, start_button);
    }
    proof {
        assert(q.events@ =~= room_clicks_spec(
            item.text@,
            center_of(item.box_points),
            difficulty@,
            room_button,
            start_button,
        ));
    }
    take_events(&mut q)
}

/// The clicks one record of the confirmation dialog asks for: "do not remind
/// today" ticks its box, "confirm" is clicked.
pub open spec fn confirm_clicks_spec(text: Seq<char>, center: (i32, i32), remind_box: (i32, i32)) -> Seq<InputEvent> {
    (if contains_seq(text, "今日不再提醒"@) {
        click_settle(remind_box)
    } else {
        Seq::empty()
    }) + (if contains_seq(text, "确认开启"@) {
        click_settle(center)
    } else {
        Seq::empty()
    })
}

/// The clicks for one recognized record of the confirmation dialog.
pub fn confirm_clicks(item: &OcrResultItem, remind_box: (i32, i32)) -> (r: Vec<InputEvent>)
    ensures
        r@ == confirm_clicks_spec(item.text@, center_of(item.box_points), remind_box),
{
    let mut q = InputQueue::new(InputBackend::SendInput);
    if text_contains(&item.text, "今日不再提醒") {
        click_and_settle(&mut q, remind_box);
    }
    if text_contains(&item.text, "确认开启") {
        click_and_settle(&mut q, item.center());
    }
    proof {
        assert(q.events@ =~= confirm_clicks_spec(item.text@, center_of(item.box_points), remind_box));
    }
    take_events(&mut q)
}

/// Skipping the opening scene: a pause, two seconds of the space bar, then
/// five seconds for the scene to fade.
pub open spec fn skip_intro_spec() -> Seq<InputEvent> {
    seq![InputEvent::Sleep(1000)] + press_events(VK_SPACE, 2000) + seq![InputEvent::Sleep(5000)]
}

/// The events that skip the opening scene.
pub fn skip_intro() -> (r: Vec<InputEvent>)
    ensures
        r@ == skip_intro_spec(),
{
    let mut q = InputQueue::new(InputBackend::SendInput);
    sleep_ms(&mut q, 1000);
    press_key(&mut q, VK_SPACE, 2000);
    sleep_ms(&mut q, 5000);
    proof {
        assert(q.events@ =~= skip_intro_spec());
    }
    take_events(&mut q)
}

} // verus!
