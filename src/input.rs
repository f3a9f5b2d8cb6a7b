//! Input planning: every primitive operation (move, click, key, wheel, pause)
//! appends input events to a queue, which the host then plays on the selected
//! backend. Composite operations are defined here once for both backends.

use vstd::prelude::*;

verus! {

/// Which driver plays the input events.
#[derive(Clone, Copy, Debug, PartialEq, Eq, Structural)]
pub enum InputBackend {
    SendInput,
    Logitech,
}

/// One primitive input event. Pauses are in milliseconds.
#[derive(Clone, Copy, Debug, PartialEq, Eq, Structural)]
pub enum InputEvent {
    MoveTo { x: i32, y: i32 },
    MoveRelative { dx: i32, dy: i32 },
    LeftClick,
    RightClick,
    KeyDown(u16),
    KeyUp(u16),
    Wheel(i32),
    Sleep(u64),
}

/// Wheel direction.
#[derive(Clone, Copy, Debug, PartialEq, Eq, Structural)]
pub enum ScrollDirection {
    Up,
    Down,
}

/// One step of a key sequence. `Hold` with a zero duration presses the key
/// and leaves it down until a later `Release` or the end of the sequence.
#[derive(Clone, Copy, Debug, PartialEq, Eq, Structural)]
pub enum KeyAction {
    Hold(u16, u64),
    Tap(u16, u32),
    Release(u16),
}

/// The events planned so far, and the backend that will play them.
pub struct InputQueue {
    pub backend: InputBackend,
    pub events: Vec<InputEvent>,
}

/// Pause between a key's press and release in a tap.
pub const TAP_HOLD_MS: u64 = 50;

/// Pause between taps of a repeated tap.
pub const TAP_GAP_MS: u64 = 100;

/// Pause between moving the cursor and clicking, so the target registers the new position.
pub const CLICK_SETTLE_MS: u64 = 100;

/// Wheel movement of one notch.
pub const WHEEL_DELTA: i32 = 120;

pub open spec fn tap_events(vk: u16) -> Seq<InputEvent> {
    seq![InputEvent::KeyDown(vk), InputEvent::Sleep(TAP_HOLD_MS), InputEvent::KeyUp(vk)]
}

pub open spec fn press_events(vk: u16, ms: u64) -> Seq<InputEvent> {
    seq![InputEvent::KeyDown(vk), InputEvent::Sleep(ms), InputEvent::KeyUp(vk)]
}

pub open spec fn click_at_events(x: i32, y: i32) -> Seq<InputEvent> {
    seq![
        InputEvent::MoveTo { x, y },
        InputEvent::Sleep(CLICK_SETTLE_MS),
        InputEvent::LeftClick,
    ]
}

/// `n` taps of `vk`, with a pause between consecutive taps.
pub open spec fn tap_repeat(vk: u16, n: nat) -> Seq<InputEvent>
    decreases n,
{
    if n == 0 {
        Seq::empty()
    } else if n == 1 {
        tap_events(vk)
    } else {
        tap_repeat(vk, (n - 1) as nat) + seq![InputEvent::Sleep(TAP_GAP_MS)] + tap_events(vk)
    }
}

/// `n` wheel notches, with `interval` milliseconds between consecutive ones.
pub open spec fn wheel_repeat(delta: i32, n: nat, interval: u64) -> Seq<InputEvent>
    decreases n,
{
    if n == 0 {
        Seq::empty()
    } else if n == 1 {
        seq![InputEvent::Wheel(delta)]
    } else {
        wheel_repeat(delta, (n - 1) as nat, interval) + seq![
            InputEvent::Sleep(interval),
            InputEvent::Wheel(delta),
        ]
    }
}

impl InputQueue {
    /// An empty queue for `backend`.
    pub fn new(backend: InputBackend) -> (r: InputQueue)
        ensures
            r.backend == backend,
            r.events@ == Seq::<InputEvent>::empty(),
    {
        InputQueue { backend, events: Vec::new() }
    }
}

/// Hands out the planned events and empties the queue.
pub fn take_events(q: &mut InputQueue) -> (r: Vec<InputEvent>)
    ensures
        r@ == old(q).events@,
        final(q).events@ == Seq::<InputEvent>::empty(),
        final(q).backend == old(q).backend,
{
    let mut out: Vec<InputEvent> = Vec::new();
    std::mem::swap(&mut out, &mut q.events);
    out
}

/// The backend the queue is played on.
pub fn current_backend(q: &InputQueue) -> (r: InputBackend)
    ensures
        r == q.backend,
{
    q.backend
}

fn push_event(q: &mut InputQueue, e: InputEvent)
    ensures
        final(q).events@ == old(q).events@.push(e),
        final(q).backend == old(q).backend,
{
    q.events.push(e);
}

/// Moves the cursor by a relative amount (turns the view in a game).
pub fn send_relative(q: &mut InputQueue, dx: i32, dy: i32)
    ensures
        final(q).events@ == old(q).events@.push(InputEvent::MoveRelative { dx, dy }),
        final(q).backend == old(q).backend,
{
    push_event(q, InputEvent::MoveRelative { dx, dy });
}

/// Moves the cursor to an absolute screen position.
pub fn move_to(q: &mut InputQueue, x: i32, y: i32)
    ensures
        final(q).events@ == old(q).events@.push(InputEvent::MoveTo { x, y }),
        final(q).backend == old(q).backend,
{
    push_event(q, InputEvent::MoveTo { x, y });
}

/// Clicks the left button.
pub fn left_click(q: &mut InputQueue)
    ensures
        final(q).events@ == old(q).events@.push(InputEvent::LeftClick),
        final(q).backend == old(q).backend,
{
    push_event(q, InputEvent::LeftClick);
}

/// Clicks the right button.
pub fn right_click(q: &mut InputQueue)
    ensures
        final(q).events@ == old(q).events@.push(InputEvent::RightClick),
        final(q).backend == old(q).backend,
{
    push_event(q, InputEvent::RightClick);
}

/// Presses a key.
pub fn key_down(q: &mut InputQueue, vk: u16)
    ensures
        final(q).events@ == old(q).events@.push(InputEvent::KeyDown(vk)),
        final(q).backend == old(q).backend,
{
    push_event(q, InputEvent::KeyDown(vk));
}

/// Releases a key.
pub fn key_up(q: &mut InputQueue, vk: u16)
    ensures
        final(q).events@ == old(q).events@.push(InputEvent::KeyUp(vk)),
        final(q).backend == old(q).backend,
{
    push_event(q, InputEvent::KeyUp(vk));
}

/// Pauses for `ms` milliseconds.
pub fn sleep_ms(q: &mut InputQueue, ms: u64)
    ensures
        final(q).events@ == old(q).events@.push(InputEvent::Sleep(ms)),
        final(q).backend == old(q).backend,
{
    push_event(q, InputEvent::Sleep(ms));
}

/// Presses a key, waits briefly and releases it.
pub fn tap_key(q: &mut InputQueue, vk: u16)
    ensures
        final(q).events@ == old(q).events@ + tap_events(vk),
        final(q).backend == old(q).backend,
{
    key_down(q, vk);
    sleep_ms(q, TAP_HOLD_MS);
    key_up(q, vk);
    proof {
        assert(final(q).events@ =~= old(q).events@ + tap_events(vk));
    }
}

/// Holds a key down for `ms` milliseconds.
pub fn press_key(q: &mut InputQueue, vk: u16, ms: u64)
    ensures
        final(q).events@ == old(q).events@ + press_events(vk, ms),
        final(q).backend == old(q).backend,
{
    key_down(q, vk);
    sleep_ms(q, ms);
    key_up(q, vk);
    proof {
        assert(final(q).events@ =~= old(q).events@ + press_events(vk, ms));
    }
}

/// Moves the cursor, lets the target register the position, then clicks.
pub fn click_at(q: &mut InputQueue, x: i32, y: i32)
    ensures
        final(q).events@ == old(q).events@ + click_at_events(x, y),
        final(q).backend == old(q).backend,
{
    move_to(q, x, y);
    sleep_ms(q, CLICK_SETTLE_MS);
    left_click(q);
    proof {
        assert(final(q).events@ =~= old(q).events@ + click_at_events(x, y));
    }
}

/// Turns the wheel `count` notches, `interval_ms` apart.
pub fn mouse_scroll(q: &mut InputQueue, direction: ScrollDirection, count: u32, interval_ms: u64)
    ensures
        final(q).events@ == old(q).events@ + wheel_repeat(
            if direction == ScrollDirection::Up {
                WHEEL_DELTA
            } else {
                (-WHEEL_DELTA) as i32
            },
            count as nat,
            interval_ms,
        ),
        final(q).backend == old(q).backend,
{
    let delta: i32 = match direction {
        ScrollDirection::Up => WHEEL_DELTA,
        ScrollDirection::Down => -WHEEL_DELTA,
    };
    let ghost start = q.events@;
    for i in 0..count
        invariant
            q.events@ == start + wheel_repeat(delta, i as nat, interval_ms),
            q.backend == old(q).backend,
    {
        if i > 0 {
            sleep_ms(q, interval_ms);
        }
        push_event(q, InputEvent::Wheel(delta));
        proof {
            if i == 0 {
                assert(q.events@ =~= start + wheel_repeat(delta, 1, interval_ms));
            } else {
                assert(q.events@ =~= start + wheel_repeat(delta, (i + 1) as nat, interval_ms));
            }
        }
    }
}

/// Turns the view left.
pub fn move_left(q: &mut InputQueue, value: i32)
    requires
        value > i32::MIN,
    ensures
        final(q).events@ == old(q).events@.push(InputEvent::MoveRelative { dx: (-value) as i32, dy: 0 }),
        final(q).backend == old(q).backend,
{
    send_relative(q, -value, 0);
}

/// Turns the view right.
pub fn move_right(q: &mut InputQueue, value: i32)
    ensures
        final(q).events@ == old(q).events@.push(InputEvent::MoveRelative { dx: value, dy: 0 }),
        final(q).backend == old(q).backend,
{
    send_relative(q, value, 0);
}

/// Turns the view up.
pub fn move_up(q: &mut InputQueue, value: i32)
    requires
        value > i32::MIN,
    ensures
        final(q).events@ == old(q).events@.push(InputEvent::MoveRelative { dx: 0, dy: (-value) as i32 }),
        final(q).backend == old(q).backend,
{
    send_relative(q, 0, -value);
}

/// Turns the view down.
pub fn move_down(q: &mut InputQueue, value: i32)
    ensures
        final(q).events@ == old(q).events@.push(InputEvent::MoveRelative { dx: 0, dy: value }),
        final(q).backend == old(q).backend,
{
    send_relative(q, 0, value);
}

/// `held` without any occurrence of `vk`, order kept.
pub open spec fn remove_key(held: Seq<u16>, vk: u16) -> Seq<u16>
    decreases held.len(),
{
    if held.len() == 0 {
        held
    } else if held.last() == vk {
        remove_key(held.drop_last(), vk)
    } else {
        remove_key(held.drop_last(), vk).push(held.last())
    }
}

/// The events one key-sequence step emits.
pub open spec fn action_events(a: KeyAction) -> Seq<InputEvent> {
    match a {
        KeyAction::Hold(vk, ms) => if ms == 0 {
            seq![InputEvent::KeyDown(vk)]
        } else {
            press_events(vk, ms)
        },
        KeyAction::Tap(vk, count) => tap_repeat(vk, if count == 0 { 1 } else { count as nat }),
        KeyAction::Release(vk) => seq![InputEvent::KeyUp(vk)],
    }
}

/// The keys left held after a step: a zero-length hold adds its key, a
/// release removes every occurrence of its key.
pub open spec fn held_after(held: Seq<u16>, a: KeyAction) -> Seq<u16> {
    match a {
        KeyAction::Hold(vk, ms) => if ms == 0 {
            held.push(vk)
        } else {
            held
        },
        KeyAction::Tap(_, _) => held,
        KeyAction::Release(vk) => remove_key(held, vk),
    }
}

/// The events of the steps of a key sequence, and the keys they leave held.
pub open spec fn run_actions(actions: Seq<KeyAction>) -> (Seq<InputEvent>, Seq<u16>)
    decreases actions.len(),
{
    if actions.len() == 0 {
        (Seq::empty(), Seq::empty())
    } else {
        let before = run_actions(actions.drop_last());
        (before.0 + action_events(actions.last()), held_after(before.1, actions.last()))
    }
}

/// One release for each key in `held`, in order.
pub open spec fn release_all(held: Seq<u16>) -> Seq<InputEvent>
    decreases held.len(),
{
    if held.len() == 0 {
        Seq::empty()
    } else {
        release_all(held.drop_last()).push(InputEvent::KeyUp(held.last()))
    }
}

/// All events of a key sequence: its steps, then a release of every key still held.
pub open spec fn key_sequence_events(actions: Seq<KeyAction>) -> Seq<InputEvent> {
    run_actions(actions).0 + release_all(run_actions(actions).1)
}

/// The state `ev` leaves key `vk` in: `Some(true)` down, `Some(false)` up,
/// `None` when `ev` never presses or releases it.
pub open spec fn key_state(ev: Seq<InputEvent>, vk: u16) -> Option<bool>
    decreases ev.len(),
{
    if ev.len() == 0 {
        None
    } else {
        match ev.last() {
            InputEvent::KeyDown(k) => if k == vk {
                Some(true)
            } else {
                key_state(ev.drop_last(), vk)
            },
            InputEvent::KeyUp(k) => if k == vk {
                Some(false)
            } else {
                key_state(ev.drop_last(), vk)
            },
            _ => key_state(ev.drop_last(), vk),
        }
    }
}

pub proof fn lemma_key_state_append(a: Seq<InputEvent>, b: Seq<InputEvent>, vk: u16)
    ensures
        key_state(a + b, vk) == match key_state(b, vk) {
            Some(s) => Some(s),
            None => key_state(a, vk),
        },
    decreases b.len(),
{
    if b.len() == 0 {
        assert(a + b =~= a);
    } else {
        assert((a + b).drop_last() =~= a + b.drop_last());
        assert((a + b).last() == b.last());
        lemma_key_state_append(a, b.drop_last(), vk);
    }
}

proof fn lemma_key_state_tap(v: u16, vk: u16)
    ensures
        key_state(tap_events(v), vk) == if v == vk {
            Some(false)
        } else {
            None::<bool>
        },
{
    lemma_key_state_press(v, TAP_HOLD_MS, vk);
    assert(tap_events(v) =~= press_events(v, TAP_HOLD_MS));
}

proof fn lemma_key_state_press(v: u16, ms: u64, vk: u16)
    ensures
        key_state(press_events(v, ms), vk) == if v == vk {
            Some(false)
        } else {
            None::<bool>
        },
{
    let t0 = Seq::<InputEvent>::empty();
    let t1 = t0.push(InputEvent::KeyDown(v));
    let t2 = t1.push(InputEvent::Sleep(ms));
    let t3 = t2.push(InputEvent::KeyUp(v));
    assert(t3 =~= press_events(v, ms));
    assert(t1.drop_last() =~= t0);
    assert(t2.drop_last() =~= t1);
    assert(t3.drop_last() =~= t2);
    assert(t1.last() == InputEvent::KeyDown(v));
    assert(t2.last() == InputEvent::Sleep(ms));
    assert(t3.last() == InputEvent::KeyUp(v));
    assert(key_state(t0, vk) is None);
    assert(key_state(t1, vk) == if v == vk {
        Some(true)
    } else {
        None::<bool>
    });
    assert(key_state(t2, vk) == key_state(t1, vk));
}

proof fn lemma_key_state_single(e: InputEvent, vk: u16)
    ensures
        key_state(seq![e], vk) == match e {
            InputEvent::KeyDown(k) => if k == vk {
                Some(true)
            } else {
                None
            },
            InputEvent::KeyUp(k) => if k == vk {
                Some(false)
            } else {
                None
            },
            _ => None::<bool>,
        },
{
    let t0 = Seq::<InputEvent>::empty();
    let t1 = t0.push(e);
    assert(t1 =~= seq![e]);
    assert(t1.drop_last() =~= t0);
    assert(t1.last() == e);
    assert(key_state(t0, vk) is None);
}

proof fn lemma_key_state_tap_repeat(v: u16, n: nat, vk: u16)
    requires
        n >= 1,
    ensures
        key_state(tap_repeat(v, n), vk) == if v == vk {
            Some(false)
        } else {
            None::<bool>
        },
    decreases n,
{
    lemma_key_state_tap(v, vk);
    if n > 1 {
        lemma_key_state_tap_repeat(v, (n - 1) as nat, vk);
        let a = tap_repeat(v, (n - 1) as nat);
        let g = seq![InputEvent::Sleep(TAP_GAP_MS)];
        lemma_key_state_single(InputEvent::Sleep(TAP_GAP_MS), vk);
        lemma_key_state_append(a + g, tap_events(v), vk);
        lemma_key_state_append(a, g, vk);
    }
}

proof fn lemma_contains_push(s: Seq<u16>, x: u16, k: u16)
    ensures
        s.push(x).contains(k) == (s.contains(k) || x == k),
{
    if s.contains(k) {
        let i = choose|i: int| 0 <= i < s.len() && s[i] == k;
        assert(s.push(x)[i] == k);
    }
    if x == k {
        assert(s.push(x)[s.len() as int] == k);
    }
    if s.push(x).contains(k) {
        let i = choose|i: int| 0 <= i < s.push(x).len() && s.push(x)[i] == k;
        if i < s.len() {
            assert(s[i] == k);
        }
    }
}

proof fn lemma_remove_key_contains(held: Seq<u16>, vk: u16, k: u16)
    ensures
        remove_key(held, vk).contains(k) == (held.contains(k) && k != vk),
    decreases held.len(),
{
    if held.len() > 0 {
        let dl = held.drop_last();
        lemma_remove_key_contains(dl, vk, k);
        assert(dl.push(held.last()) =~= held);
        lemma_contains_push(dl, held.last(), k);
        lemma_contains_push(remove_key(dl, vk), held.last(), k);
    }
}

/// Every key that the steps leave down is among the keys left held.
proof fn lemma_down_keys_are_held(actions: Seq<KeyAction>, vk: u16)
    ensures
        key_state(run_actions(actions).0, vk) == Some(true) ==> run_actions(actions).1.contains(vk),
    decreases actions.len(),
{
    if actions.len() > 0 {
        let before = run_actions(actions.drop_last());
        lemma_down_keys_are_held(actions.drop_last(), vk);
        let a = actions.last();
        lemma_key_state_append(before.0, action_events(a), vk);
        match a {
            KeyAction::Hold(v, ms) => {
                if ms == 0 {
                    lemma_key_state_single(InputEvent::KeyDown(v), vk);
                    if v == vk {
                        assert(before.1.push(v)[before.1.len() as int] == vk);
                    } else if before.1.contains(vk) {
                        let i = choose|i: int| 0 <= i < before.1.len() && before.1[i] == vk;
                        assert(before.1.push(v)[i] == vk);
                    }
                } else {
                    lemma_key_state_press(v, ms, vk);
                }
            },
            KeyAction::Tap(v, count) => {
                lemma_key_state_tap_repeat(v, if count == 0 { 1 } else { count as nat }, vk);
            },
            KeyAction::Release(v) => {
                lemma_key_state_single(InputEvent::KeyUp(v), vk);
                lemma_remove_key_contains(before.1, v, vk);
            },
        }
    }
}

proof fn lemma_release_all(held: Seq<u16>, vk: u16)
    ensures
        key_state(release_all(held), vk) == if held.contains(vk) {
            Some(false)
        } else {
            None::<bool>
        },
    decreases held.len(),
{
    if held.len() > 0 {
        let dl = held.drop_last();
        lemma_release_all(dl, vk);
        assert(dl.push(held.last()) =~= held);
        lemma_contains_push(dl, held.last(), vk);
        let r = release_all(held);
        assert(r.drop_last() =~= release_all(dl));
    }
}

/// After a key sequence has played, no key is left down: each key pressed by
/// a zero-length hold and never released is released at the end.
pub proof fn lemma_key_sequence_leaves_keys_up(actions: Seq<KeyAction>, vk: u16)
    ensures
        key_state(key_sequence_events(actions), vk) != Some(true),
{
    let r = run_actions(actions);
    lemma_down_keys_are_held(actions, vk);
    lemma_release_all(r.1, vk);
    lemma_key_state_append(r.0, release_all(r.1), vk);
}

/// A key pressed by a zero-length hold that no later step releases is still
/// among the keys held after the steps.
proof fn lemma_unreleased_hold_is_held(actions: Seq<KeyAction>, i: int, vk: u16)
    requires
        0 <= i < actions.len(),
        actions[i] == KeyAction::Hold(vk, 0),
        forall|j: int| i < j < actions.len() ==> actions[j] != KeyAction::Release(vk),
    ensures
        run_actions(actions).1.contains(vk),
    decreases actions.len(),
{
    let before = run_actions(actions.drop_last());
    let a = actions.last();
    if i == actions.len() - 1 {
        lemma_contains_push(before.1, vk, vk);
    } else {
        assert forall|j: int| i < j < actions.drop_last().len() implies actions.drop_last()[j]
            != KeyAction::Release(vk) by {
            assert(actions.drop_last()[j] == actions[j]);
        }
        lemma_unreleased_hold_is_held(actions.drop_last(), i, vk);
        assert(a == actions[actions.len() - 1]);
        match a {
            KeyAction::Hold(v, ms) => {
                if ms == 0 {
                    lemma_contains_push(before.1, v, vk);
                }
            },
            KeyAction::Tap(_, _) => {},
            KeyAction::Release(v) => {
                lemma_remove_key_contains(before.1, v, vk);
            },
        }
    }
}

/// A key pressed by a zero-length hold and not released by any later step
/// ends released: its last event in the played sequence is a key-up.
pub proof fn lemma_unreleased_hold_ends_released(actions: Seq<KeyAction>, i: int, vk: u16)
    requires
        0 <= i < actions.len(),
        actions[i] == KeyAction::Hold(vk, 0),
        forall|j: int| i < j < actions.len() ==> actions[j] != KeyAction::Release(vk),
    ensures
        key_state(key_sequence_events(actions), vk) == Some(false),
{
    let r = run_actions(actions);
    lemma_unreleased_hold_is_held(actions, i, vk);
    lemma_release_all(r.1, vk);
    lemma_key_state_append(r.0, release_all(r.1), vk);
}

/// `held` without any occurrence of `vk`.
fn remove_held(held: &Vec<u16>, vk: u16) -> (r: Vec<u16>)
    ensures
        r@ == remove_key(held@, vk),
{
    let mut out: Vec<u16> = Vec::new();
    for i in 0..held.len()
        invariant
            out@ == remove_key(held@.take(i as int), vk),
    {
        proof {
            assert(held@.take(i + 1).drop_last() =~= held@.take(i as int));
        }
        if held[i] != vk {
            out.push(held[i]);
        }
    }
    proof {
        assert(held@.take(held@.len() as int) =~= held@);
    }
    out
}

/// Plays a key sequence: holds, taps and releases in order, and at the end
/// releases every key that a zero-length hold left down.
pub fn press_key_sequence(q: &mut InputQueue, actions: &Vec<KeyAction>)
    ensures
        final(q).events@ == old(q).events@ + key_sequence_events(actions@),
        final(q).backend == old(q).backend,
{
    let ghost start = q.events@;
    let mut held: Vec<u16> = Vec::new();
    for i in 0..actions.len()
        invariant
            q.events@ == start + run_actions(actions@.take(i as int)).0,
            held@ == run_actions(actions@.take(i as int)).1,
            q.backend == old(q).backend,
    {
        proof {
            assert(actions@.take(i + 1).drop_last() =~= actions@.take(i as int));
        }
        let ghost before = q.events@;
        match actions[i] {
            KeyAction::Hold(vk, ms) => {
                if ms == 0 {
                    key_down(q, vk);
                    held.push(vk);
                } else {
                    press_key(q, vk, ms);
                }
            },
            KeyAction::Tap(vk, count) => {
                let n: u32 = if count == 0 {
                    1
                } else {
                    count
                };
                for j in 0..n
                    invariant
                        q.events@ == before + tap_repeat(vk, j as nat),
                        q.backend == old(q).backend,
                {
                    if j > 0 {
                        sleep_ms(q, TAP_GAP_MS);
                    }
                    tap_key(q, vk);
                    proof {
                        if j == 0 {
                            assert(q.events@ =~= before + tap_repeat(vk, 1));
                        } else {
                            assert(q.events@ =~= before + tap_repeat(vk, (j + 1) as nat));
                        }
                    }
                }
            },
            KeyAction::Release(vk) => {
                key_up(q, vk);
                held = remove_held(&held, vk);
            },
        }
        proof {
            assert(q.events@ =~= start + run_actions(actions@.take(i + 1)).0);
        }
    }
    proof {
        assert(actions@.take(actions@.len() as int) =~= actions@);
    }
    let ghost ran = q.events@;
    for k in 0..held.len()
        invariant
            q.events@ == ran + release_all(held@.take(k as int)),
            q.backend == old(q).backend,
    {
        proof {
            assert(held@.take(k + 1).drop_last() =~= held@.take(k as int));
        }
        key_up(q, held[k]);
        proof {
            assert(q.events@ =~= ran + release_all(held@.take(k + 1)));
        }
    }
    proof {
        assert(held@.take(held@.len() as int) =~= held@);
    }
}

} // verus!
