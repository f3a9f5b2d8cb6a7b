//! The strategy model: a game plan of shop purchases, building placements
//! tied to waves, and movement phases run at named trigger points.

use vstd::prelude::*;

verus! {

/// Name and difficulty of the map a strategy plays, and the screenshot the
/// plan was drawn on.
pub struct StrategyMeta {
    pub name: String,
    pub difficulty: String,
    pub screenshot: String,
}

/// One placement: which trap (by its hotkey) goes where, and when. A late
/// building is placed once its wave's marker is on screen; an early one
/// before the wave begins.
pub struct Building {
    pub id: String,
    pub name: String,
    pub trap_key: String,
    pub screen_x: i32,
    pub screen_y: i32,
    pub wave: u32,
    pub is_late: bool,
}

/// An upgrade of a placed building, scheduled like a placement.
pub struct UpgradeEvent {
    pub building_id: String,
    pub wave: u32,
    pub is_late: bool,
}

/// A removal of a placed building, scheduled like a placement.
pub struct DemolishEvent {
    pub building_id: String,
    pub wave: u32,
    pub is_late: bool,
}

/// One step of a movement phase. Durations are in milliseconds.
pub enum ActionStep {
    PressKey { key: String, duration_ms: u64 },
    TapKey { key: String },
    KeyDown { key: String },
    KeyUp { key: String },
    SendRelative { dx: i32, dy: i32 },
    Sleep { duration_ms: u64 },
    Click,
    MoveTo { x: i32, y: i32 },
    ClickAt { x: i32, y: i32 },
}

/// A named list of actions, run whenever the executor reaches `trigger`.
pub struct MovementPhase {
    pub name: String,
    pub trigger: String,
    pub actions: Vec<ActionStep>,
}

/// A whole game plan.
pub struct Strategy {
    pub meta: StrategyMeta,
    pub shop_order: Vec<String>,
    pub buildings: Vec<Building>,
    pub upgrades: Vec<UpgradeEvent>,
    pub demolishes: Vec<DemolishEvent>,
    pub movement_phases: Vec<MovementPhase>,
}

/// Execution order key of a placement: twice its wave, plus one when late.
pub open spec fn order_key(b: Building) -> int {
    b.wave * 2 + if b.is_late {
        1int
    } else {
        0int
    }
}

impl Building {
    /// The execution order key: twice the wave, plus one for a late placement.
    pub fn sort_key(&self) -> (r: u64)
        ensures
            r == order_key(*self),
    {
        self.wave as u64 * 2 + if self.is_late {
            1
        } else {
            0
        }
    }
}

/// Building `i` runs before building `j`: a smaller key, or the same key and
/// an earlier position in the list.
pub open spec fn runs_before(bs: Seq<Building>, i: int, j: int) -> bool {
    order_key(bs[i]) < order_key(bs[j]) || (order_key(bs[i]) == order_key(bs[j]) && i < j)
}

/// `order` lists every building position exactly once, in execution order:
/// by key, and by list position among equal keys.
pub open spec fn is_execution_order(bs: Seq<Building>, order: Seq<usize>) -> bool {
    &&& order.len() == bs.len()
    &&& forall|a: int| 0 <= a < order.len() ==> #[trigger] order[a] < bs.len()
    &&& forall|a: int, b: int|
        0 <= a < b < order.len() ==> runs_before(bs, #[trigger] order[a] as int, #[trigger] order[b] as int)
    &&& forall|i: int| 0 <= i < bs.len() ==> #[trigger] order.contains(i as usize)
}

/// The positions of `buildings` in execution order: sorted by
/// [`Building::sort_key`], keeping list order among equal keys.
pub fn execution_order(buildings: &Vec<Building>) -> (r: Vec<usize>)
    ensures
        is_execution_order(buildings@, r@),
{
    let ghost bs = buildings@;
    let mut order: Vec<usize> = Vec::new();
    for k in 0..buildings.len()
        invariant
            bs == buildings@,
            order@.len() == k,
            forall|a: int| 0 <= a < order@.len() ==> #[trigger] order@[a] < k,
            forall|a: int, b: int|
                0 <= a < b < order@.len() ==> runs_before(
                    bs,
                    #[trigger] order@[a] as int,
                    #[trigger] order@[b] as int,
                ),
            forall|i: int| 0 <= i < k ==> #[trigger] order@.contains(i as usize),
    {
        let key = buildings[k].sort_key();
        let mut p: usize = 0;
        while p < order.len() && buildings[order[p]].sort_key() <= key
            invariant
                bs == buildings@,
                p <= order@.len(),
                k < bs.len(),
                key == order_key(bs[k as int]),
                forall|a: int| 0 <= a < order@.len() ==> #[trigger] order@[a] < k,
                forall|a: int| 0 <= a < p ==> order_key(bs[#[trigger] order@[a] as int]) <= key,
            decreases order@.len() - p,
        {
            p += 1;
        }
        proof {
            assert forall|a: int| p <= a < order@.len() implies order_key(
                bs[#[trigger] order@[a] as int],
            ) > key by {
                if a > p {
                    assert(runs_before(bs, order@[p as int] as int, order@[a] as int));
                }
            }
        }
        let ghost before = order@;
        order.insert(p, k);
        proof {
            assert(order@ == before.insert(p as int, k));
            assert forall|a: int, b: int|
                0 <= a < b < order@.len() implies runs_before(
                bs,
                #[trigger] order@[a] as int,
                #[trigger] order@[b] as int,
            ) by {
                if b < p {
                    assert(order@[a] == before[a] && order@[b] == before[b]);
                } else if b == p {
                    assert(order@[a] == before[a]);
                } else if a < p {
                    assert(order@[a] == before[a] && order@[b] == before[b - 1]);
                } else if a == p {
                    assert(order@[b] == before[b - 1]);
                } else {
                    assert(order@[a] == before[a - 1] && order@[b] == before[b - 1]);
                }
            }
            assert forall|i: int| 0 <= i < k + 1 implies #[trigger] order@.contains(i as usize) by {
                if i == k {
                    assert(order@[p as int] == k);
                } else {
                    assert(before.contains(i as usize));
                    let j = choose|j: int| 0 <= j < before.len() && before[j] == i as usize;
                    if j < p {
                        assert(order@[j] == i as usize);
                    } else {
                        assert(order@[j + 1] == i as usize);
                    }
                }
            }
            assert forall|a: int| 0 <= a < order@.len() implies #[trigger] order@[a] < k + 1 by {
                if a < p {
                    assert(order@[a] == before[a]);
                } else if a > p {
                    assert(order@[a] == before[a - 1]);
                }
            }
        }
    }
    order
}

/// Ordering by the execution key groups placements by wave, and within a
/// wave puts every early placement before every late one: of two buildings,
/// the one that runs first has a smaller wave, or the same wave and is early
/// whenever the other is.
pub proof fn lemma_execution_order_groups_waves(bs: Seq<Building>, order: Seq<usize>, a: int, b: int)
    requires
        is_execution_order(bs, order),
        0 <= a < b < order.len(),
    ensures
        bs[order[a] as int].wave < bs[order[b] as int].wave || (bs[order[a] as int].wave
            == bs[order[b] as int].wave && (bs[order[a] as int].is_late ==> bs[order[b] as int].is_late)),
{
    assert(runs_before(bs, order[a] as int, order[b] as int));
}

} // verus!
