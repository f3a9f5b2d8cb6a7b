//! The strategy sequencer. A strategy becomes a list of stages (buy, enter
//! placement, movement actions, wave waits, placements, ...); a runner walks
//! the stages one step at a time. Each step takes whether a stop was
//! requested and what the last command produced, and returns the next
//! command for the host: input to play, a screen region to recognize, a
//! cache reset, the hand-off to the end-of-game wait, or the end of the run.

use vstd::prelude::*;
use crate::input::{
    click_at, key_down, key_up, left_click, move_to, press_key, send_relative, sleep_ms,
    tap_key, take_events, InputBackend, InputEvent, InputQueue, click_at_events, press_events,
    tap_events,
};
use crate::keys::{resolve_key, upper_of, vk_code_of, UnknownKey, VK_G, VK_N, VK_O};
use crate::ocr::{
    center_of, find_text_contains_chars, first_containing, lemma_first_containing_bounds,
    OcrResultItem,
};
use crate::strategy::{
    execution_order, is_execution_order, ActionStep, Building, MovementPhase, Strategy,
};
use crate::text::str_chars;

verus! {

/// The decimal digit `d` as a character.
pub open spec fn digit_char(d: int) -> char {
    (d + '0' as int) as char
}

/// `n` written in base ten, without leading zeros.
pub open spec fn decimal(n: nat) -> Seq<char>
    decreases n,
{
    if n < 10 {
        seq![digit_char(n as int)]
    } else {
        decimal(n / 10).push(digit_char((n % 10) as int))
    }
}

fn push_decimal(out: &mut Vec<char>, n: u32)
    ensures
        final(out)@ == old(out)@ + decimal(n as nat),
    decreases n,
{
    if n >= 10 {
        push_decimal(out, n / 10);
    }
    let d: u32 = n % 10;
    out.push(((d + '0' as u32) as u8) as char);
    proof {
        if n < 10 {
            assert(final(out)@ =~= old(out)@ + decimal(n as nat));
        } else {
            assert(final(out)@ =~= old(out)@ + decimal(n as nat));
        }
    }
}

/// `prefix` followed by `n` in base ten, as a character list.
pub fn numbered(prefix: &str, n: u32) -> (r: Vec<char>)
    ensures
        r@ == prefix@ + decimal(n as nat),
{
    let mut out = str_chars(prefix);
    push_decimal(&mut out, n);
    out
}

/// The (phase, action) positions of every action of every phase whose
/// trigger is `t`, phases in list order.
pub open spec fn phase_steps(phases: Seq<MovementPhase>, t: Seq<char>) -> Seq<(usize, usize)>
    decreases phases.len(),
{
    if phases.len() == 0 {
        Seq::empty()
    } else {
        let p = phases.len() - 1;
        phase_steps(phases.drop_last(), t) + if phases.last().trigger@ == t {
            Seq::new(phases.last().actions@.len(), |a: int| (p as usize, a as usize))
        } else {
            Seq::empty()
        }
    }
}

fn chars_eq(a: &Vec<char>, b: &Vec<char>) -> (r: bool)
    ensures
        r == (a@ == b@),
{
    if a.len() != b.len() {
        return false;
    }
    let mut i: usize = 0;
    while i < a.len()
        invariant
            a@.len() == b@.len(),
            i <= a@.len(),
            forall|j: int| 0 <= j < i ==> a@[j] == b@[j],
        decreases a@.len() - i,
    {
        if a[i] != b[i] {
            return false;
        }
        i += 1;
    }
    proof {
        assert(a@ =~= b@);
    }
    true
}

/// The actions to run at trigger `t`, as (phase, action) positions.
pub fn movement_steps(phases: &Vec<MovementPhase>, t: &Vec<char>) -> (r: Vec<(usize, usize)>)
    ensures
        r@ == phase_steps(phases@, t@),
{
    let mut out: Vec<(usize, usize)> = Vec::new();
    for p in 0..phases.len()
        invariant
            out@ == phase_steps(phases@.take(p as int), t@),
    {
        proof {
            assert(phases@.take(p + 1).drop_last() =~= phases@.take(p as int));
        }
        let ghost before = out@;
        let trig = str_chars(phases[p].trigger.as_str());
        if chars_eq(&trig, t) {
            let n = phases[p].actions.len();
            for a in 0..n
                invariant
                    n == phases@[p as int].actions@.len(),
                    out@ == before + Seq::new(a as nat, |k: int| (p, k as usize)),
            {
                out.push((p, a));
                proof {
                    assert(out@ =~= before + Seq::new((a + 1) as nat, |k: int| (p, k as usize)));
                }
            }
            proof {
                assert(out@ =~= phase_steps(phases@.take(p + 1), t@));
            }
        } else {
            proof {
                assert(out@ =~= phase_steps(phases@.take(p + 1), t@));
            }
        }
    }
    proof {
        assert(phases@.take(phases@.len() as int) =~= phases@);
    }
    out
}

/// One stage of a strategy run. Positions refer to the strategy's lists.
#[derive(Clone, Copy, Debug, PartialEq, Eq, Structural)]
pub enum Stage {
    /// Forget the frame cache.
    ClearCache,
    /// Open the shop.
    OpenShop,
    /// Recognize the whole shop screen once.
    ScanShop,
    /// Buy the shop item at this position of the shop order, if it was seen.
    Buy(usize),
    /// Close the shop.
    CloseShop,
    /// Enter placement mode.
    EnterPlacement,
    /// Run one movement action: (phase, action).
    Act(usize, usize),
    /// Start the waves.
    StartWave,
    /// Patrol and recognize until this wave's marker shows.
    AwaitWave(u32),
    /// Place the building at this position.
    Place(usize),
    /// Leave placement mode.
    ExitPlacement,
    /// Hand over to the end-of-game wait.
    GameEnd,
}

/// The stages that run the movement actions of trigger `t`.
pub open spec fn act_stages(s: Strategy, t: Seq<char>) -> Seq<Stage> {
    phase_steps(s.movement_phases@, t).map_values(|ps: (usize, usize)| Stage::Act(ps.0, ps.1))
}

pub open spec fn before_wave(n: u32) -> Seq<char> {
    "before_wave_"@ + decimal(n as nat)
}

pub open spec fn wait_wave(n: u32) -> Seq<char> {
    "wait_wave_"@ + decimal(n as nat)
}

pub open spec fn during_wave(n: u32) -> Seq<char> {
    "during_wave_"@ + decimal(n as nat)
}

/// The on-screen marker of wave `n`.
pub open spec fn wave_marker(n: u32) -> Seq<char> {
    "波次"@ + decimal(n as nat)
}

/// Placement stages for the buildings at `order`, with the wave being
/// prepared and whether its marker was already seen: entering a new wave runs
/// its `before_wave` phase; the first late building of a wave waits for the
/// wave's marker (starting the waves first when it is wave 1), then runs its
/// `during_wave` phase; every building is then placed.
pub open spec fn placement_state(s: Strategy, order: Seq<usize>) -> (Seq<Stage>, u32, bool)
    decreases order.len(),
{
    if order.len() == 0 {
        (Seq::empty(), 0, false)
    } else {
        let prev = placement_state(s, order.drop_last());
        let i = order.last();
        let b = s.buildings@[i as int];
        let entered = if b.wave != prev.1 {
            (prev.0 + act_stages(s, before_wave(b.wave)), b.wave, false)
        } else {
            prev
        };
        if b.is_late && !entered.2 {
            (
                entered.0 + (if entered.1 == 1 {
                    seq![Stage::StartWave]
                } else {
                    Seq::empty()
                }) + seq![Stage::AwaitWave(entered.1)] + act_stages(s, during_wave(entered.1))
                    + seq![Stage::Place(i)],
                entered.1,
                true,
            )
        } else {
            (entered.0.push(Stage::Place(i)), entered.1, entered.2)
        }
    }
}

/// Whether the waves are started after placement: some wave-1 building is
/// early and no building is late, so no wave wait started them.
pub open spec fn start_after_placement(bs: Seq<Building>) -> bool {
    (exists|i: int| 0 <= i < bs.len() && #[trigger] bs[i].wave == 1 && !bs[i].is_late) && !(
    exists|i: int| 0 <= i < bs.len() && #[trigger] bs[i].is_late)
}

/// All stages of a run, buildings taken in `order`.
pub open spec fn stage_plan(s: Strategy, order: Seq<usize>) -> Seq<Stage> {
    seq![Stage::ClearCache, Stage::OpenShop, Stage::ScanShop] + Seq::new(
        s.shop_order@.len(),
        |i: int| Stage::Buy(i as usize),
    ) + seq![Stage::CloseShop, Stage::EnterPlacement] + placement_state(s, order).0 + (
    if start_after_placement(s.buildings@) {
        seq![Stage::StartWave]
    } else {
        Seq::empty()
    }) + seq![Stage::ExitPlacement] + act_stages(s, "after_placement"@) + seq![Stage::GameEnd]
}

/// The building positions that the `Place` stages of `stages` place, in order.
pub open spec fn placed(stages: Seq<Stage>) -> Seq<usize>
    decreases stages.len(),
{
    if stages.len() == 0 {
        Seq::empty()
    } else {
        match stages.last() {
            Stage::Place(i) => placed(stages.drop_last()).push(i),
            _ => placed(stages.drop_last()),
        }
    }
}

proof fn lemma_placed_append(a: Seq<Stage>, b: Seq<Stage>)
    ensures
        placed(a + b) == placed(a) + placed(b),
    decreases b.len(),
{
    if b.len() == 0 {
        assert(a + b =~= a);
        assert(placed(a) + placed(b) =~= placed(a));
    } else {
        assert((a + b).drop_last() =~= a + b.drop_last());
        assert((a + b).last() == b.last());
        lemma_placed_append(a, b.drop_last());
        match b.last() {
            Stage::Place(i) => {
                assert(placed(a) + placed(b.drop_last()).push(i) =~= (placed(a) + placed(
                    b.drop_last(),
                )).push(i));
            },
            _ => {},
        }
    }
}

proof fn lemma_placed_none(st: Seq<Stage>)
    requires
        forall|i: int| 0 <= i < st.len() ==> !(#[trigger] st[i] is Place),
    ensures
        placed(st) == Seq::<usize>::empty(),
    decreases st.len(),
{
    if st.len() > 0 {
        assert(!(st[st.len() - 1] is Place));
        lemma_placed_none(st.drop_last());
    }
}

proof fn lemma_placed_acts(s: Strategy, t: Seq<char>)
    ensures
        placed(act_stages(s, t)) == Seq::<usize>::empty(),
{
    let a = act_stages(s, t);
    assert forall|i: int| 0 <= i < a.len() implies !(#[trigger] a[i] is Place) by {}
    lemma_placed_none(a);
}

proof fn lemma_placement_places_in_order(s: Strategy, order: Seq<usize>)
    ensures
        placed(placement_state(s, order).0) == order,
    decreases order.len(),
{
    if order.len() > 0 {
        let prev = placement_state(s, order.drop_last());
        lemma_placement_places_in_order(s, order.drop_last());
        let i = order.last();
        let b = s.buildings@[i as int];
        let entered = if b.wave != prev.1 {
            (prev.0 + act_stages(s, before_wave(b.wave)), b.wave, false)
        } else {
            prev
        };
        lemma_placed_acts(s, before_wave(b.wave));
        lemma_placed_append(prev.0, act_stages(s, before_wave(b.wave)));
        assert(placed(entered.0) =~= order.drop_last());
        let start: Seq<Stage> = if entered.1 == 1 {
            seq![Stage::StartWave]
        } else {
            Seq::empty()
        };
        let wait = start + seq![Stage::AwaitWave(entered.1)] + act_stages(s, during_wave(entered.1));
        lemma_placed_acts(s, during_wave(entered.1));
        lemma_placed_none(start);
        lemma_placed_none(seq![Stage::AwaitWave(entered.1)]);
        lemma_placed_append(start, seq![Stage::AwaitWave(entered.1)]);
        lemma_placed_append(
            start + seq![Stage::AwaitWave(entered.1)],
            act_stages(s, during_wave(entered.1)),
        );
        assert(placed(wait) =~= Seq::<usize>::empty());
        lemma_placed_append(entered.0, wait);
        let with_wait = entered.0 + wait;
        assert((with_wait + seq![Stage::Place(i)]) =~= with_wait.push(Stage::Place(i)));
        assert((with_wait.push(Stage::Place(i))).drop_last() =~= with_wait);
        assert((entered.0.push(Stage::Place(i))).drop_last() =~= entered.0);
        assert(order.drop_last().push(i) =~= order);
        assert(placement_state(s, order).0 == if b.is_late && !entered.2 {
            with_wait + seq![Stage::Place(i)]
        } else {
            entered.0.push(Stage::Place(i))
        });
    }
}

/// A run places every building exactly once, in execution order: the
/// `Place` stages of the plan name the buildings in the order given.
pub proof fn lemma_plan_places_in_execution_order(s: Strategy, order: Seq<usize>)
    ensures
        placed(stage_plan(s, order)) == order,
{
    let head = seq![Stage::ClearCache, Stage::OpenShop, Stage::ScanShop] + Seq::new(
        s.shop_order@.len(),
        |i: int| Stage::Buy(i as usize),
    ) + seq![Stage::CloseShop, Stage::EnterPlacement];
    let start: Seq<Stage> = if start_after_placement(s.buildings@) {
        seq![Stage::StartWave]
    } else {
        Seq::empty()
    };
    let tail = start + seq![Stage::ExitPlacement] + act_stages(s, "after_placement"@) + seq![
        Stage::GameEnd,
    ];
    let mid = placement_state(s, order).0;
    assert forall|k: int| 0 <= k < head.len() implies !(#[trigger] head[k] is Place) by {
        if k >= 3 && k < 3 + s.shop_order@.len() {
            assert(head[k] == Stage::Buy((k - 3) as usize));
        }
    }
    lemma_placed_none(head);
    let acts = act_stages(s, "after_placement"@);
    assert forall|k: int| 0 <= k < tail.len() implies !(#[trigger] tail[k] is Place) by {
        if k >= start.len() + 1 && k < start.len() + 1 + acts.len() {
            assert(tail[k] == acts[k - start.len() - 1]);
        }
    }
    lemma_placed_none(tail);
    lemma_placement_places_in_order(s, order);
    lemma_placed_append(head, mid);
    lemma_placed_append(head + mid, tail);
    assert(stage_plan(s, order) =~= head + mid + tail);
    assert(placed(head) + placed(mid) + placed(tail) =~= order);
}

fn push_acts(out: &mut Vec<Stage>, s: &Strategy, t: &Vec<char>)
    ensures
        final(out)@ == old(out)@ + act_stages(*s, t@),
{
    let steps = movement_steps(&s.movement_phases, t);
    let ghost start = out@;
    for k in 0..steps.len()
        invariant
            steps@ == phase_steps(s.movement_phases@, t@),
            out@ == start + steps@.take(k as int).map_values(
                |ps: (usize, usize)| Stage::Act(ps.0, ps.1),
            ),
    {
        out.push(Stage::Act(steps[k].0, steps[k].1));
        proof {
            assert(out@ =~= start + steps@.take(k + 1).map_values(
                |ps: (usize, usize)| Stage::Act(ps.0, ps.1),
            ));
        }
    }
    proof {
        assert(steps@.take(steps@.len() as int) =~= steps@);
    }
}

/// The stages of a run of `s`: open the shop, recognize it once and buy each
/// item of the shop order that shows; enter placement mode and place the
/// buildings in execution order, running movement phases at their triggers
/// and waiting for each wave's marker before its first late building; start
/// the waves if nothing did; leave placement mode, run the `after_placement`
/// phase and wait for the game to end.
pub fn plan_stages(s: &Strategy) -> (r: Vec<Stage>)
    ensures
        exists|order: Seq<usize>|
            is_execution_order(s.buildings@, order) && r@ == stage_plan(*s, order),
{
    let order = execution_order(&s.buildings);
    let mut out: Vec<Stage> = Vec::new();
    out.push(Stage::ClearCache);
    out.push(Stage::OpenShop);
    out.push(Stage::ScanShop);
    let ghost head = out@;
    for i in 0..s.shop_order.len()
        invariant
            out@ == head + Seq::new(i as nat, |k: int| Stage::Buy(k as usize)),
    {
        out.push(Stage::Buy(i));
        proof {
            assert(out@ =~= head + Seq::new((i + 1) as nat, |k: int| Stage::Buy(k as usize)));
        }
    }
    let ghost buys = out@;
    out.push(Stage::CloseShop);
    out.push(Stage::EnterPlacement);
    let ghost pre = out@;
    proof {
        assert(buys =~= head + Seq::new(s.shop_order@.len(), |k: int| Stage::Buy(k as usize)));
        assert(pre =~= seq![Stage::ClearCache, Stage::OpenShop, Stage::ScanShop] + Seq::new(
            s.shop_order@.len(),
            |k: int| Stage::Buy(k as usize),
        ) + seq![Stage::CloseShop, Stage::EnterPlacement]);
    }
    let mut current_wave: u32 = 0;
    let mut wave_started = false;
    for k in 0..order.len()
        invariant
            is_execution_order(s.buildings@, order@),
            (out@.subrange(pre.len() as int, out@.len() as int), current_wave, wave_started)
                == placement_state(*s, order@.take(k as int)),
            out@.len() >= pre.len(),
            out@.subrange(0, pre.len() as int) == pre,
    {
        proof {
            assert(order@.take(k + 1).drop_last() =~= order@.take(k as int));
        }
        let ghost mid = out@;
        let i = order[k];
        let b = &s.buildings[i];
        if b.wave != current_wave {
            current_wave = b.wave;
            wave_started = false;
            let t = numbered("before_wave_", current_wave);
            push_acts(&mut out, s, &t);
        }
        if b.is_late && !wave_started {
            if current_wave == 1 {
                out.push(Stage::StartWave);
            }
            out.push(Stage::AwaitWave(current_wave));
            let t = numbered("during_wave_", current_wave);
            push_acts(&mut out, s, &t);
            wave_started = true;
        }
        out.push(Stage::Place(i));
        proof {
            assert(out@.subrange(pre.len() as int, out@.len() as int) =~= placement_state(
                *s,
                order@.take(k + 1),
            ).0);
            assert(out@.subrange(0, pre.len() as int) =~= pre);
        }
    }
    proof {
        assert(order@.take(order@.len() as int) =~= order@);
        assert(out@ =~= pre + placement_state(*s, order@).0) by {
            assert(out@ =~= out@.subrange(0, pre.len() as int) + out@.subrange(
                pre.len() as int,
                out@.len() as int,
            ));
        }
    }
    let ghost placed = out@;
    let mut any_early_first = false;
    let mut any_late = false;
    for j in 0..s.buildings.len()
        invariant
            any_early_first == exists|i: int|
                0 <= i < j && #[trigger] s.buildings@[i].wave == 1 && !s.buildings@[i].is_late,
            any_late == exists|i: int| 0 <= i < j && #[trigger] s.buildings@[i].is_late,
    {
        if s.buildings[j].wave == 1 && !s.buildings[j].is_late {
            any_early_first = true;
        }
        if s.buildings[j].is_late {
            any_late = true;
        }
    }
    assert((any_early_first && !any_late) == start_after_placement(s.buildings@));
    if any_early_first && !any_late {
        out.push(Stage::StartWave);
    }
    let ghost started = out@;
    assert(started =~= placed + if start_after_placement(s.buildings@) {
        seq![Stage::StartWave]
    } else {
        Seq::empty()
    });
    out.push(Stage::ExitPlacement);
    let t = str_chars("after_placement");
    let ghost exited = out@;
    push_acts(&mut out, s, &t);
    let ghost acted = out@;
    out.push(Stage::GameEnd);
    proof {
        assert(acted =~= exited + act_stages(*s, "after_placement"@));
        assert(out@ =~= stage_plan(*s, order@));
    }
    out
}

/// Pause after opening the shop, and after recognizing it.
pub const SHOP_SETTLE_MS: u64 = 1000;

/// Pause after entering or leaving placement mode.
pub const PLACEMENT_TOGGLE_MS: u64 = 500;

/// Offset from a shop label's center to its buy button.
pub const BUY_OFFSET: i32 = 50;

/// The UI mode a run has opened and must close if it stops.
#[derive(Clone, Copy, Debug, PartialEq, Eq, Structural)]
pub enum OpenUi {
    Nothing,
    Shop,
    Placement,
}

/// What the host must do next.
pub enum Command {
    /// Play these input events, then step again.
    Play(Vec<InputEvent>),
    /// Forget the frame cache, then step again.
    ClearFrameCache,
    /// Capture and recognize this screen region without the frame cache, and
    /// step again with the results.
    Recognize { x: i32, y: i32, width: i32, height: i32 },
    /// Run the end-of-game wait, then step again.
    WaitForGameEnd,
    /// A stop was requested: play these events, which close what the run left
    /// open, and end the run.
    Stop(Vec<InputEvent>),
    /// An action named an unknown key; the run ends with this error.
    Failed(UnknownKey),
    /// The run is over.
    Finished,
}

/// What the last command produced.
pub enum Event {
    /// It was carried out.
    Proceed,
    /// The requested region was recognized.
    Recognized(Vec<OcrResultItem>),
}

/// The progress of one run through its stages.
pub struct StrategyRunner {
    pub stages: Vec<Stage>,
    pub pc: usize,
    pub ui: OpenUi,
    pub shop_results: Vec<OcrResultItem>,
    pub patrol: Vec<(usize, usize)>,
    pub patrol_loaded: bool,
    pub patrol_pos: usize,
    pub awaiting: bool,
    pub done: bool,
}

pub open spec fn sat_i32(v: int) -> i32 {
    if v > i32::MAX {
        i32::MAX
    } else if v < i32::MIN {
        i32::MIN
    } else {
        v as i32
    }
}

pub open spec fn close_events(ui: OpenUi) -> Seq<InputEvent> {
    match ui {
        OpenUi::Nothing => Seq::empty(),
        OpenUi::Shop => tap_events(VK_N),
        OpenUi::Placement => tap_events(VK_O),
    }
}

pub open spec fn open_shop_events() -> Seq<InputEvent> {
    tap_events(VK_N).push(InputEvent::Sleep(SHOP_SETTLE_MS))
}

pub open spec fn toggle_placement_events() -> Seq<InputEvent> {
    tap_events(VK_O).push(InputEvent::Sleep(PLACEMENT_TOGGLE_MS))
}

/// Move to the buy button of a label centered at `c` and click it three
/// times, so that a first click the game drops does no harm.
pub open spec fn buy_clicks(c: (i32, i32)) -> Seq<InputEvent> {
    seq![
        InputEvent::MoveTo { x: sat_i32(c.0 + BUY_OFFSET), y: sat_i32(c.1 + BUY_OFFSET) },
        InputEvent::Sleep(300),
        InputEvent::LeftClick,
        InputEvent::Sleep(300),
        InputEvent::LeftClick,
        InputEvent::Sleep(300),
        InputEvent::LeftClick,
        InputEvent::Sleep(500),
    ]
}

/// Buying item `name` from a recognized shop screen: nothing if it does not show.
pub open spec fn buy_events(results: Seq<OcrResultItem>, name: Seq<char>) -> Seq<InputEvent> {
    match first_containing(results, name) {
        Some(i) => buy_clicks(center_of(results[i].box_points)),
        None => Seq::empty(),
    }
}

/// The label of the popup that interrupts a wave wait.
pub open spec fn popup_label() -> Seq<char> {
    "返回游戏"@
}

/// Dismissing the popup if the recognized region shows it: move to its label
/// and click three times, so that a first click the game drops does no harm.
pub open spec fn popup_events(results: Seq<OcrResultItem>) -> Seq<InputEvent> {
    match first_containing(results, popup_label()) {
        Some(i) => {
            let c = center_of(results[i].box_points);
            seq![
                InputEvent::MoveTo { x: c.0, y: c.1 },
                InputEvent::Sleep(200),
                InputEvent::LeftClick,
                InputEvent::Sleep(200),
                InputEvent::LeftClick,
                InputEvent::Sleep(200),
                InputEvent::LeftClick,
                InputEvent::Sleep(500),
            ]
        },
        None => Seq::empty(),
    }
}

/// Selecting a trap by its hotkey and placing it with a double click.
pub open spec fn place_events(vk: u16, x: i32, y: i32) -> Seq<InputEvent> {
    tap_events(vk) + seq![
        InputEvent::Sleep(300),
        InputEvent::MoveTo { x, y },
        InputEvent::Sleep(200),
        InputEvent::LeftClick,
        InputEvent::Sleep(200),
        InputEvent::LeftClick,
        InputEvent::Sleep(300),
    ]
}

/// The events of a movement action; `None` when it names an unknown key.
pub open spec fn action_step_events(a: ActionStep) -> Option<Seq<InputEvent>> {
    match a {
        ActionStep::PressKey { key, duration_ms } => match vk_code_of(upper_of(key@)) {
            Some(vk) => Some(press_events(vk, duration_ms)),
            None => None,
        },
        ActionStep::TapKey { key } => match vk_code_of(upper_of(key@)) {
            Some(vk) => Some(tap_events(vk)),
            None => None,
        },
        ActionStep::KeyDown { key } => match vk_code_of(upper_of(key@)) {
            Some(vk) => Some(seq![InputEvent::KeyDown(vk)]),
            None => None,
        },
        ActionStep::KeyUp { key } => match vk_code_of(upper_of(key@)) {
            Some(vk) => Some(seq![InputEvent::KeyUp(vk)]),
            None => None,
        },
        ActionStep::SendRelative { dx, dy } => Some(seq![InputEvent::MoveRelative { dx, dy }]),
        ActionStep::Sleep { duration_ms } => Some(seq![InputEvent::Sleep(duration_ms)]),
        ActionStep::Click => Some(seq![InputEvent::LeftClick]),
        ActionStep::MoveTo { x, y } => Some(seq![InputEvent::MoveTo { x, y }]),
        ActionStep::ClickAt { x, y } => Some(click_at_events(x, y)),
    }
}

/// The events of one movement action, or the unknown key it names.
pub fn execute_step(a: &ActionStep) -> (r: Result<Vec<InputEvent>, UnknownKey>)
    ensures
        (r is Ok) == (action_step_events(*a) is Some),
        (r matches Ok(v) ==> v@ == action_step_events(*a)->0),
{
    let mut q = InputQueue::new(InputBackend::SendInput);
    match a {
        ActionStep::PressKey { key, duration_ms } => {
            let vk = resolve_key(key.as_str())?;
            press_key(&mut q, vk, *duration_ms);
        },
        ActionStep::TapKey { key } => {
            let vk = resolve_key(key.as_str())?;
            tap_key(&mut q, vk);
        },
        ActionStep::KeyDown { key } => {
            let vk = resolve_key(key.as_str())?;
            key_down(&mut q, vk);
        },
        ActionStep::KeyUp { key } => {
            let vk = resolve_key(key.as_str())?;
            key_up(&mut q, vk);
        },
        ActionStep::SendRelative { dx, dy } => {
            send_relative(&mut q, *dx, *dy);
        },
        ActionStep::Sleep { duration_ms } => {
            sleep_ms(&mut q, *duration_ms);
        },
        ActionStep::Click => {
            left_click(&mut q);
        },
        ActionStep::MoveTo { x, y } => {
            move_to(&mut q, *x, *y);
        },
        ActionStep::ClickAt { x, y } => {
            click_at(&mut q, *x, *y);
        },
    }
    proof {
        assert(q.events@ =~= action_step_events(*a)->0);
    }
    Ok(take_events(&mut q))
}

/// The action at (phase, action), if both positions exist.
pub open spec fn movement_action(s: Strategy, p: usize, a: usize) -> Option<ActionStep> {
    if p < s.movement_phases@.len() && a < s.movement_phases@[p as int].actions@.len() {
        Some(s.movement_phases@[p as int].actions@[a as int])
    } else {
        None
    }
}

/// The records an event carries; none for a plain `Proceed`.
pub open spec fn results_of(e: Event) -> Seq<OcrResultItem> {
    match e {
        Event::Recognized(v) => v@,
        Event::Proceed => Seq::empty(),
    }
}

/// The stage a runner is at, while it is not done.
pub open spec fn current_stage(r: StrategyRunner) -> Option<Stage> {
    if !r.done && r.pc < r.stages@.len() {
        Some(r.stages@[r.pc as int])
    } else {
        None
    }
}

/// `cmd` plays exactly `ev`.
pub open spec fn plays(cmd: Command, ev: Seq<InputEvent>) -> bool {
    cmd matches Command::Play(v) && v@ == ev
}

/// The outcome of running one movement action: its events, a skip when the
/// position names no action, or the failure on an unknown key.
pub open spec fn ran_action(cmd: Command, s: Strategy, p: usize, a: usize) -> bool {
    match movement_action(s, p, a) {
        Some(step) => match action_step_events(step) {
            Some(ev) => plays(cmd, ev),
            None => cmd is Failed,
        },
        None => plays(cmd, Seq::empty()),
    }
}

fn sat_add(a: i32, b: i32) -> (r: i32)
    ensures
        r == sat_i32(a + b),
{
    let v = a as i64 + b as i64;
    if v > i32::MAX as i64 {
        i32::MAX
    } else if v < i32::MIN as i64 {
        i32::MIN
    } else {
        v as i32
    }
}

fn run_action(s: &Strategy, p: usize, a: usize) -> (r: Result<Vec<InputEvent>, UnknownKey>)
    ensures
        match movement_action(*s, p, a) {
            Some(step) => (r is Ok) == (action_step_events(step) is Some) && (r matches Ok(v)
                ==> v@ == action_step_events(step)->0),
            None => (r matches Ok(v) && v@ == Seq::<InputEvent>::empty()),
        },
{
    if p < s.movement_phases.len() && a < s.movement_phases[p].actions.len() {
        execute_step(&s.movement_phases[p].actions[a])
    } else {
        Ok(Vec::new())
    }
}

impl StrategyRunner {
    /// A runner at the first stage of a run of `s`.
    pub fn new(s: &Strategy) -> (r: StrategyRunner)
        ensures
            exists|order: Seq<usize>|
                is_execution_order(s.buildings@, order) && r.stages@ == stage_plan(*s, order),
            r.pc == 0,
            r.ui == OpenUi::Nothing,
            !r.done,
            !r.awaiting,
            !r.patrol_loaded,
    {
        StrategyRunner {
            stages: plan_stages(s),
            pc: 0,
            ui: OpenUi::Nothing,
            shop_results: Vec::new(),
            patrol: Vec::new(),
            patrol_loaded: false,
            patrol_pos: 0,
            awaiting: false,
            done: false,
        }
    }

    /// One step of the run. `stop` is the stop signal as read just now;
    /// `event` is what the previous command produced.
    ///
    /// A stop ends the run at once, closing the shop or placement mode if
    /// the run has it open. Otherwise the current stage decides: see the
    /// clauses below, one per stage.
    pub fn step(&mut self, s: &Strategy, stop: bool, event: Event) -> (cmd: Command)
        ensures
            final(self).stages@ == old(self).stages@,
            (!old(self).done && !stop && current_stage(*old(self)) is Some && !(cmd is Failed))
                ==> !final(self).done,
            current_stage(*old(self)) != Some(Stage::ScanShop) ==> final(self).shop_results
                == old(self).shop_results,
            !(current_stage(*old(self)) == Some(Stage::OpenShop) || current_stage(*old(self))
                == Some(Stage::CloseShop) || current_stage(*old(self)) == Some(
                Stage::EnterPlacement,
            ) || current_stage(*old(self)) == Some(Stage::ExitPlacement)) ==> final(self).ui
                == old(self).ui,
            !(current_stage(*old(self)) == Some(Stage::ScanShop) || current_stage(*old(self)) matches Some(
                Stage::AwaitWave(_),
            )) ==> final(self).awaiting == old(self).awaiting,
            !(current_stage(*old(self)) matches Some(Stage::AwaitWave(_))) ==> final(self).patrol
                == old(self).patrol && final(self).patrol_loaded == old(self).patrol_loaded
                && final(self).patrol_pos == old(self).patrol_pos,
            old(self).done ==> (cmd is Finished) && final(self).done,
            (!old(self).done && stop) ==> (cmd matches Command::Stop(v) && v@ == close_events(
                old(self).ui,
            )) && final(self).done,
            (!old(self).done && !stop && current_stage(*old(self)) is None) ==> (cmd is Finished)
                && final(self).done,
            (!stop && current_stage(*old(self)) == Some(Stage::ClearCache)) ==> (
            cmd is ClearFrameCache) && final(self).pc == old(self).pc + 1,
            (!stop && current_stage(*old(self)) == Some(Stage::OpenShop)) ==> plays(
                cmd,
                open_shop_events(),
            ) && final(self).pc == old(self).pc + 1 && final(self).ui == OpenUi::Shop,
            (!stop && current_stage(*old(self)) == Some(Stage::ScanShop) && !old(self).awaiting)
                ==> (cmd matches Command::Recognize { x, y, width, height } && x == 0 && y == 0
                && width == 1920 && height == 1080) && final(self).awaiting && final(self).pc
                == old(self).pc,
            (!stop && current_stage(*old(self)) == Some(Stage::ScanShop) && old(self).awaiting)
                ==> plays(cmd, seq![InputEvent::Sleep(SHOP_SETTLE_MS)])
                && final(self).shop_results@ == results_of(event) && !final(self).awaiting
                && final(self).pc == old(self).pc + 1,
            !stop ==> (current_stage(*old(self)) matches Some(Stage::Buy(i)) ==> plays(
                cmd,
                if i < s.shop_order@.len() {
                    buy_events(old(self).shop_results@, s.shop_order@[i as int]@)
                } else {
                    Seq::empty()
                },
            ) && final(self).pc == old(self).pc + 1),
            (!stop && current_stage(*old(self)) == Some(Stage::CloseShop)) ==> plays(
                cmd,
                tap_events(VK_N),
            ) && final(self).pc == old(self).pc + 1 && final(self).ui == OpenUi::Nothing,
            (!stop && current_stage(*old(self)) == Some(Stage::EnterPlacement)) ==> plays(
                cmd,
                toggle_placement_events(),
            ) && final(self).pc == old(self).pc + 1 && final(self).ui == OpenUi::Placement,
            !stop ==> (current_stage(*old(self)) matches Some(Stage::Act(p, a)) ==> ran_action(
                cmd,
                *s,
                p,
                a,
            ) && ((cmd is Failed) == final(self).done) && (!(cmd is Failed) ==> final(self).pc
                == old(self).pc + 1)),
            (!stop && current_stage(*old(self)) == Some(Stage::StartWave)) ==> plays(
                cmd,
                tap_events(VK_G),
            ) && final(self).pc == old(self).pc + 1,
            !stop ==> (current_stage(*old(self)) matches Some(Stage::AwaitWave(w)) ==> (
            !old(self).patrol_loaded ==> plays(cmd, Seq::empty()) && final(self).patrol_loaded
                && final(self).patrol@ == phase_steps(s.movement_phases@, wait_wave(w))
                && final(self).patrol_pos == 0 && final(self).pc == old(self).pc)),
            !stop ==> (current_stage(*old(self)) matches Some(Stage::AwaitWave(w)) ==> (
            old(self).patrol_loaded && old(self).patrol_pos < old(self).patrol@.len() ==> ran_action(
                cmd,
                *s,
                old(self).patrol@[old(self).patrol_pos as int].0,
                old(self).patrol@[old(self).patrol_pos as int].1,
            ) && ((cmd is Failed) == final(self).done) && (!(cmd is Failed) ==> final(self).patrol_pos
                == old(self).patrol_pos + 1 && final(self).pc == old(self).pc))),
            !stop ==> (current_stage(*old(self)) matches Some(Stage::AwaitWave(w)) ==> (
            old(self).patrol_loaded && old(self).patrol_pos >= old(self).patrol@.len()
                && !old(self).awaiting ==> (cmd matches Command::Recognize {
                x,
                y,
                width,
                height,
            } && x == 0 && y == 0 && width == 420 && height == 320) && final(self).awaiting
                && final(self).pc == old(self).pc)),
            !stop ==> (current_stage(*old(self)) matches Some(Stage::AwaitWave(w)) ==> (
            old(self).patrol_loaded && old(self).patrol_pos >= old(self).patrol@.len()
                && old(self).awaiting ==> plays(cmd, popup_events(results_of(event)))
                && !final(self).awaiting && if first_containing(
                results_of(event),
                wave_marker(w),
            ) is Some {
                final(self).pc == old(self).pc + 1 && !final(self).patrol_loaded
            } else {
                final(self).pc == old(self).pc && final(self).patrol_pos == 0
                    && final(self).patrol_loaded
            })),
            !stop ==> (current_stage(*old(self)) matches Some(Stage::Place(i)) ==> if i
                < s.buildings@.len() {
                match vk_code_of(upper_of(s.buildings@[i as int].trap_key@)) {
                    Some(vk) => plays(
                        cmd,
                        place_events(
                            vk,
                            s.buildings@[i as int].screen_x,
                            s.buildings@[i as int].screen_y,
                        ),
                    ) && final(self).pc == old(self).pc + 1,
                    None => (cmd is Failed) && final(self).done,
                }
            } else {
                plays(cmd, Seq::empty()) && final(self).pc == old(self).pc + 1
            }),
            (!stop && current_stage(*old(self)) == Some(Stage::ExitPlacement)) ==> plays(
                cmd,
                toggle_placement_events(),
            ) && final(self).pc == old(self).pc + 1 && final(self).ui == OpenUi::Nothing,
            (!stop && current_stage(*old(self)) == Some(Stage::GameEnd)) ==> (
            cmd is WaitForGameEnd) && final(self).pc == old(self).pc + 1,
    {
        if self.done {
            return Command::Finished;
        }
        if stop {
            self.done = true;
            let mut q = InputQueue::new(InputBackend::SendInput);
            match self.ui {
                OpenUi::Nothing => {},
                OpenUi::Shop => tap_key(&mut q, VK_N),
                OpenUi::Placement => tap_key(&mut q, VK_O),
            }
            proof {
                assert(q.events@ =~= close_events(self.ui));
            }
            return Command::Stop(take_events(&mut q));
        }
        if self.pc >= self.stages.len() {
            self.done = true;
            return Command::Finished;
        }
        let mut q = InputQueue::new(InputBackend::SendInput);
        match self.stages[self.pc] {
            Stage::ClearCache => {
                self.pc = self.pc + 1;
                Command::ClearFrameCache
            },
            Stage::OpenShop => {
                tap_key(&mut q, VK_N);
                sleep_ms(&mut q, SHOP_SETTLE_MS);
                self.ui = OpenUi::Shop;
                self.pc = self.pc + 1;
                Command::Play(take_events(&mut q))
            },
            Stage::ScanShop => {
                if !self.awaiting {
                    self.awaiting = true;
                    Command::Recognize { x: 0, y: 0, width: 1920, height: 1080 }
                } else {
                    self.awaiting = false;
                    self.shop_results = match event {
                        Event::Recognized(v) => v,
                        Event::Proceed => Vec::new(),
                    };
                    sleep_ms(&mut q, SHOP_SETTLE_MS);
                    self.pc = self.pc + 1;
                    proof {
                        assert(q.events@ =~= seq![InputEvent::Sleep(SHOP_SETTLE_MS)]);
                    }
                    Command::Play(take_events(&mut q))
                }
            },
            Stage::Buy(i) => {
                if i < s.shop_order.len() {
                    let name = str_chars(s.shop_order[i].as_str());
                    match find_text_contains_chars(&self.shop_results, &name) {
                        Some(k) => {
                            proof {
                                lemma_first_containing_bounds(self.shop_results@, name@);
                            }
                            let (cx, cy) = self.shop_results[k].center();
                            move_to(&mut q, sat_add(cx, BUY_OFFSET), sat_add(cy, BUY_OFFSET));
                            sleep_ms(&mut q, 300);
                            left_click(&mut q);
                            sleep_ms(&mut q, 300);
                            left_click(&mut q);
                            sleep_ms(&mut q, 300);
                            left_click(&mut q);
                            sleep_ms(&mut q, 500);
                        },
                        None => {},
                    }
                    proof {
                        assert(q.events@ =~= buy_events(
                            self.shop_results@,
                            s.shop_order@[i as int]@,
                        ));
                    }
                }
                self.pc = self.pc + 1;
                Command::Play(take_events(&mut q))
            },
            Stage::CloseShop => {
                tap_key(&mut q, VK_N);
                self.ui = OpenUi::Nothing;
                self.pc = self.pc + 1;
                Command::Play(take_events(&mut q))
            },
            Stage::EnterPlacement => {
                tap_key(&mut q, VK_O);
                sleep_ms(&mut q, PLACEMENT_TOGGLE_MS);
                self.ui = OpenUi::Placement;
                self.pc = self.pc + 1;
                Command::Play(take_events(&mut q))
            },
            Stage::Act(p, a) => {
                match run_action(s, p, a) {
                    Ok(v) => {
                        self.pc = self.pc + 1;
                        Command::Play(v)
                    },
                    Err(e) => {
                        self.done = true;
                        Command::Failed(e)
                    },
                }
            },
            Stage::StartWave => {
                tap_key(&mut q, VK_G);
                self.pc = self.pc + 1;
                Command::Play(take_events(&mut q))
            },
            Stage::AwaitWave(w) => {
                if !self.patrol_loaded {
                    let t = numbered("wait_wave_", w);
                    self.patrol = movement_steps(&s.movement_phases, &t);
                    self.patrol_loaded = true;
                    self.patrol_pos = 0;
                    Command::Play(Vec::new())
                } else if self.patrol_pos < self.patrol.len() {
                    let (p, a) = self.patrol[self.patrol_pos];
                    match run_action(s, p, a) {
                        Ok(v) => {
                            self.patrol_pos = self.patrol_pos + 1;
                            Command::Play(v)
                        },
                        Err(e) => {
                            self.done = true;
                            Command::Failed(e)
                        },
                    }
                } else if !self.awaiting {
                    self.awaiting = true;
                    Command::Recognize { x: 0, y: 0, width: 420, height: 320 }
                } else {
                    self.awaiting = false;
                    let results = match event {
                        Event::Recognized(v) => v,
                        Event::Proceed => Vec::new(),
                    };
                    let popup = str_chars("返回游戏");
                    match find_text_contains_chars(&results, &popup) {
                        Some(k) => {
                            proof {
                                lemma_first_containing_bounds(results@, popup@);
                            }
                            let (cx, cy) = results[k].center();
                            move_to(&mut q, cx, cy);
                            sleep_ms(&mut q, 200);
                            left_click(&mut q);
                            sleep_ms(&mut q, 200);
                            left_click(&mut q);
                            sleep_ms(&mut q, 200);
                            left_click(&mut q);
                            sleep_ms(&mut q, 500);
                        },
                        None => {},
                    }
                    proof {
                        assert(q.events@ =~= popup_events(results@));
                    }
                    let marker = numbered("波次", w);
                    if find_text_contains_chars(&results, &marker).is_some() {
                        self.pc = self.pc + 1;
                        self.patrol_loaded = false;
                    } else {
                        self.patrol_pos = 0;
                    }
                    Command::Play(take_events(&mut q))
                }
            },
            Stage::Place(i) => {
                if i < s.buildings.len() {
                    let b = &s.buildings[i];
                    match resolve_key(b.trap_key.as_str()) {
                        Ok(vk) => {
                            tap_key(&mut q, vk);
                            sleep_ms(&mut q, 300);
                            move_to(&mut q, b.screen_x, b.screen_y);
                            sleep_ms(&mut q, 200);
                            left_click(&mut q);
                            sleep_ms(&mut q, 200);
                            left_click(&mut q);
                            sleep_ms(&mut q, 300);
                            proof {
                                assert(q.events@ =~= place_events(vk, b.screen_x, b.screen_y));
                            }
                            self.pc = self.pc + 1;
                            Command::Play(take_events(&mut q))
                        },
                        Err(e) => {
                            self.done = true;
                            Command::Failed(e)
                        },
                    }
                } else {
                    self.pc = self.pc + 1;
                    Command::Play(Vec::new())
                }
            },
            Stage::ExitPlacement => {
                tap_key(&mut q, VK_O);
                sleep_ms(&mut q, PLACEMENT_TOGGLE_MS);
                self.ui = OpenUi::Nothing;
                self.pc = self.pc + 1;
                Command::Play(take_events(&mut q))
            },
            Stage::GameEnd => {
                self.pc = self.pc + 1;
                Command::WaitForGameEnd
            },
        }
    }
}

} // verus!
