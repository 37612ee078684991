use rand::Rng;
use vstd::prelude::*;

use crate::world::EntityId;

verus! {

/// A point of the world, in whole pixels; `y` grows upwards.
#[derive(Clone, Copy, Debug, PartialEq, Eq, Structural)]
pub struct Position {
    pub x: i64,
    pub y: i64,
}

/// A platform that stands in the world.
#[derive(Clone, Copy, Debug, PartialEq, Eq, Structural)]
pub struct PlacedPlatform {
    pub entity: EntityId,
    pub position: Position,
}

/// The random part of where the next platform goes: `dx` pixels to the left
/// or to the right of the highest platform, and `dy` pixels above it.
#[derive(Clone, Copy, Debug, PartialEq, Eq, Structural)]
pub struct PlatformDraw {
    pub dx: i64,
    pub dy: i64,
    pub left: bool,
}

/// A new platform is spawned while at most this many stand.
pub const MAX_PLATFORMS_FOR_SPAWN: usize = 3;

/// Least horizontal distance between a new platform and the highest one.
pub const SPREAD_MIN: i64 = 450;

/// Bound, excluded, of that distance.
pub const SPREAD_END: i64 = 600;

/// Least height of a new platform above the highest one.
pub const RISE_MIN: i64 = 125;

/// Bound, excluded, of that height.
pub const RISE_END: i64 = 150;

/// Where the first platform stands.
pub fn starting_platform() -> (p: Position)
    ensures
        p.x == 0,
        p.y == -150,
{
    Position { x: 0, y: -150 }
}

/// `i` is the first of the highest platforms of `ps`.
pub open spec fn is_highest(ps: Seq<PlacedPlatform>, i: int) -> bool {
    &&& 0 <= i < ps.len()
    &&& forall|j: int| 0 <= j < ps.len() ==> ps[j].position.y <= ps[i].position.y
    &&& forall|j: int| 0 <= j < i ==> ps[j].position.y < ps[i].position.y
}

/// `i` is the first of the lowest platforms of `ps`.
pub open spec fn is_lowest(ps: Seq<PlacedPlatform>, i: int) -> bool {
    &&& 0 <= i < ps.len()
    &&& forall|j: int| 0 <= j < ps.len() ==> ps[i].position.y <= ps[j].position.y
    &&& forall|j: int| 0 <= j < i ==> ps[i].position.y < ps[j].position.y
}

/// At most one index is the first of the highest platforms.
pub proof fn lemma_highest_unique(ps: Seq<PlacedPlatform>, i: int, k: int)
    requires
        is_highest(ps, i),
        is_highest(ps, k),
    ensures
        i == k,
{
    if i < k {
        assert(ps[i].position.y < ps[k].position.y);
        assert(ps[i].position.y <= ps[k].position.y);
    } else if k < i {
        assert(ps[k].position.y < ps[i].position.y);
    }
}

/// At most one index is the first of the lowest platforms.
pub proof fn lemma_lowest_unique(ps: Seq<PlacedPlatform>, i: int, k: int)
    requires
        is_lowest(ps, i),
        is_lowest(ps, k),
    ensures
        i == k,
{
    if i < k {
        assert(ps[i].position.y < ps[k].position.y);
    } else if k < i {
        assert(ps[k].position.y < ps[i].position.y);
    }
}

/// The index of the first of the highest platforms, if any stands.
pub fn highest_platform(ps: &Vec<PlacedPlatform>) -> (r: Option<usize>)
    ensures
        r is None <==> ps@.len() == 0,
        r matches Some(i) ==> is_highest(ps@, i as int),
{
    if ps.len() == 0 {
        return None;
    }
    let mut best: usize = 0;
    let mut i: usize = 1;
    while i < ps.len()
        invariant
            1 <= i <= ps.len(),
            is_highest(ps@.take(i as int), best as int),
        decreases ps.len() - i,
    {
        if ps[i].position.y > ps[best].position.y {
            best = i;
        }
        i = i + 1;
    }
    assert(ps@.take(i as int) =~= ps@);
    Some(best)
}

/// The index of the first of the lowest platforms, if any stands.
pub fn lowest_platform(ps: &Vec<PlacedPlatform>) -> (r: Option<usize>)
    ensures
        r is None <==> ps@.len() == 0,
        r matches Some(i) ==> is_lowest(ps@, i as int),
{
    if ps.len() == 0 {
        return None;
    }
    let mut best: usize = 0;
    let mut i: usize = 1;
    while i < ps.len()
        invariant
            1 <= i <= ps.len(),
            is_lowest(ps@.take(i as int), best as int),
        decreases ps.len() - i,
    {
        if ps[i].position.y < ps[best].position.y {
            best = i;
        }
        i = i + 1;
    }
    assert(ps@.take(i as int) =~= ps@);
    Some(best)
}

/// Where a platform drawn by `d` goes next to `from`; none where that point
/// lies beyond the range of a coordinate.
pub open spec fn spawn_next(from: Position, d: PlatformDraw) -> Option<Position> {
    let x = if d.left {
        from.x - d.dx
    } else {
        from.x + d.dx
    };
    let y = from.y + d.dy;
    if i64::MIN <= x <= i64::MAX && i64::MIN <= y <= i64::MAX {
        Some(Position { x: x as i64, y: y as i64 })
    } else {
        None
    }
}

/// The position next to `from` that the draw `d` picks.
pub fn next_platform_position(from: Position, d: PlatformDraw) -> (r: Option<Position>)
    ensures
        r == spawn_next(from, d),
{
    let x = if d.left {
        from.x.checked_sub(d.dx)
    } else {
        from.x.checked_add(d.dx)
    };
    let y = from.y.checked_add(d.dy);
    match (x, y) {
        (Some(x), Some(y)) => Some(Position { x, y }),
        _ => None,
    }
}

/// Where a new platform is spawned, given the platforms that stand and a
/// draw: beside the first of the highest while at most
/// `MAX_PLATFORMS_FOR_SPAWN` stand, and nowhere when none or more stand.
pub fn plan_platform(ps: &Vec<PlacedPlatform>, d: PlatformDraw) -> (r: Option<Position>)
    ensures
        ps@.len() == 0 || ps@.len() > MAX_PLATFORMS_FOR_SPAWN ==> r is None,
        0 < ps@.len() <= MAX_PLATFORMS_FOR_SPAWN ==> exists|i: int|
            is_highest(ps@, i) && r == spawn_next(ps@[i].position, d),
{
    if ps.len() > MAX_PLATFORMS_FOR_SPAWN {
        return None;
    }
    match highest_platform(ps) {
        Some(i) => next_platform_position(ps[i].position, d),
        None => None,
    }
}

/// Relies on rand::Rng::gen_range on the thread's generator: a value of the
/// half-open range `lo..end`, which must not be empty.
#[verifier::external_body]
fn random_in(lo: i64, end: i64) -> (r: i64)
    requires
        lo < end,
    ensures
        lo <= r < end,
{
    rand::thread_rng().gen_range(lo..end)
}

/// Relies on rand::random for `bool`: a coin toss.
#[verifier::external_body]
fn random_bool() -> (r: bool) {
    rand::random::<bool>()
}

/// Draws where the next platform goes: a spread in `SPREAD_MIN..SPREAD_END`,
/// a rise in `RISE_MIN..RISE_END`, and a side.
pub fn draw_platform() -> (d: PlatformDraw)
    ensures
        SPREAD_MIN <= d.dx < SPREAD_END,
        RISE_MIN <= d.dy < RISE_END,
{
    let dx = random_in(SPREAD_MIN, SPREAD_END);
    let dy = random_in(RISE_MIN, RISE_END);
    let left = random_bool();
    PlatformDraw { dx, dy, left }
}

/// What landings on `landed` each remove: the platform `lowest`, unless the
/// player landed on it.
pub open spec fn removals(landed: Seq<EntityId>, lowest: EntityId) -> Seq<EntityId>
    decreases landed.len(),
{
    if landed.len() == 0 {
        Seq::empty()
    } else {
        removals(landed.drop_last(), lowest) + (if landed.last() != lowest {
            seq![lowest]
        } else {
            Seq::empty()
        })
    }
}

/// Landings remove nothing but the lowest platform, and never the platform
/// landed on: each removal is `lowest`, one for each landing elsewhere.
pub proof fn lemma_removals_spare_landing(landed: Seq<EntityId>, lowest: EntityId)
    ensures
        removals(landed, lowest).len() <= landed.len(),
        forall|k: int|
            0 <= k < removals(landed, lowest).len() ==> #[trigger] removals(landed, lowest)[k]
                == lowest,
        (forall|k: int| 0 <= k < landed.len() ==> landed[k] == lowest) ==> removals(
            landed,
            lowest,
        ).len() == 0,
    decreases landed.len(),
{
    if landed.len() > 0 {
        let init = landed.drop_last();
        lemma_removals_spare_landing(init, lowest);
        let s = removals(landed, lowest);
        let t = removals(init, lowest);
        assert forall|k: int| 0 <= k < s.len() implies s[k] == lowest by {
            if k < t.len() {
                assert(s[k] == t[k]);
            }
        }
        if forall|k: int| 0 <= k < landed.len() ==> landed[k] == lowest {
            assert(landed.last() == landed[landed.len() - 1]);
            assert forall|k: int| 0 <= k < init.len() implies init[k] == lowest by {
                assert(init[k] == landed[k]);
            }
        }
    }
}

/// A platform spawned from a draw within its ranges stands higher than
/// every platform already standing, by a rise in `RISE_MIN..RISE_END` over
/// the highest, and a spread in `SPREAD_MIN..SPREAD_END` to its side.
pub proof fn lemma_spawn_above_all(ps: Seq<PlacedPlatform>, i: int, d: PlatformDraw)
    requires
        is_highest(ps, i),
        SPREAD_MIN <= d.dx < SPREAD_END,
        RISE_MIN <= d.dy < RISE_END,
    ensures
        spawn_next(ps[i].position, d) matches Some(p) ==> {
            &&& RISE_MIN <= p.y - ps[i].position.y < RISE_END
            &&& SPREAD_MIN <= (if d.left {
                ps[i].position.x - p.x
            } else {
                p.x - ps[i].position.x
            }) < SPREAD_END
            &&& forall|j: int| 0 <= j < ps.len() ==> ps[j].position.y < p.y
        },
{
}

/// The platforms to remove after the player's landings: while more than one
/// platform stands, each landing removes the first of the lowest platforms
/// unless it is the one landed on.
pub fn platforms_to_remove(ps: &Vec<PlacedPlatform>, landed: &Vec<EntityId>) -> (r: Vec<EntityId>)
    requires
        ps@.len() == 0 ==> landed@.len() == 0,
    ensures
        ps@.len() <= 1 ==> r@.len() == 0,
        ps@.len() > 1 ==> exists|i: int|
            is_lowest(ps@, i) && r@ == removals(landed@, ps@[i].entity),
{
    let mut out: Vec<EntityId> = Vec::new();
    if ps.len() <= 1 {
        return out;
    }
    let low = match lowest_platform(ps) {
        Some(i) => i,
        None => {
            return out;
        },
    };
    let lowest = ps[low].entity;
    let mut k: usize = 0;
    while k < landed.len()
        invariant
            k <= landed.len(),
            out@ == removals(landed@.take(k as int), lowest),
        decreases landed.len() - k,
    {
        assert(landed@.take(k + 1).drop_last() =~= landed@.take(k as int));
        if !(landed[k] == lowest) {
            out.push(lowest);
        } else {
            assert(out@ =~= out@ + Seq::<EntityId>::empty());
        }
        k = k + 1;
    }
    assert(landed@.take(k as int) =~= landed@);
    out
}

} // verus!
