//! The projectile subsystem: rate-limited, terrain-gated spawning, and the
//! fixed-speed motion of every live projectile.

use vstd::prelude::*;
use crate::geometry::{dx_of, dy_of, mode_of, spec_overlap_at, Dir, Rect};
use crate::terrain::{blocks_fire, Cell};
use crate::movement::{probe_mode, step_of};
use crate::units::{rect_within, unit_eq, wf_shot, wf_unit, Projectile, Unit, MAX_SPEED, SHOT_SIZE};

verus! {

/// Coordinate bound that every projectile of a well-formed unit spawns
/// within: one unit size beyond the arena bound.
pub const SPAWN_BOUND: i32 = 100032;

/// Whether a wall overlaps the unit's probe one step ahead in its pending
/// fire direction: firing into a wall is refused.
pub open spec fn fire_blocked(u: Unit, cells: Seq<Cell>) -> bool {
    exists|k: int|
        0 <= k < cells.len() && blocks_fire((#[trigger] cells[k]).kind) && spec_overlap_at(
            u.rect.x + dx_of(u.fire_dir, u.speed as int),
            u.rect.y + dy_of(u.fire_dir, u.speed as int),
            u.rect.w as int,
            u.rect.h as int,
            cells[k].rect,
            mode_of(u.fire_dir),
        )
}

/// The three conditions that gate a shot: a free slot under the unit's cap,
/// a concrete pending fire direction, and a fire probe clear of walls.
pub open spec fn can_fire(u: Unit, cells: Seq<Cell>) -> bool {
    &&& u.shots@.len() < u.max_shots
    &&& u.fire_dir != Dir::Stop
    &&& !fire_blocked(u, cells)
}

/// Where a new projectile appears: just beyond the firing unit's edge in the
/// fire direction, centered on the perpendicular axis.
pub open spec fn spawn_rect(u: Unit) -> Rect {
    let cx = u.rect.x + (u.rect.w - SHOT_SIZE) / 2;
    let cy = u.rect.y + (u.rect.h - SHOT_SIZE) / 2;
    match u.fire_dir {
        Dir::Left => Rect { x: (u.rect.x - SHOT_SIZE) as i32, y: cy as i32, w: SHOT_SIZE, h: SHOT_SIZE },
        Dir::Right => Rect { x: (u.rect.x + u.rect.w) as i32, y: cy as i32, w: SHOT_SIZE, h: SHOT_SIZE },
        Dir::Up => Rect { x: cx as i32, y: (u.rect.y - SHOT_SIZE) as i32, w: SHOT_SIZE, h: SHOT_SIZE },
        Dir::Down => Rect { x: cx as i32, y: (u.rect.y + u.rect.h) as i32, w: SHOT_SIZE, h: SHOT_SIZE },
        Dir::Stop => Rect { x: cx as i32, y: cy as i32, w: SHOT_SIZE, h: SHOT_SIZE },
    }
}

/// The projectile a unit fires: its spawn rectangle, the pending fire
/// direction as fixed travel direction, and the unit's projectile speed.
pub open spec fn spawn_shot(u: Unit) -> Projectile {
    Projectile { rect: spawn_rect(u), dir: u.fire_dir, speed: u.shot_speed }
}

/// All fields of a unit that firing never touches agree between `a` and `b`.
pub open spec fn same_but_fire(a: Unit, b: Unit) -> bool {
    &&& a.rect == b.rect
    &&& a.spawn_x == b.spawn_x
    &&& a.spawn_y == b.spawn_y
    &&& a.dir == b.dir
    &&& a.next_dir == b.next_dir
    &&& a.speed == b.speed
    &&& a.lives == b.lives
    &&& a.shot_speed == b.shot_speed
    &&& a.max_shots == b.max_shots
    &&& a.state == b.state
}

/// A well-formed unit spawns its projectile within the spawn bound.
pub proof fn lemma_spawn_within(u: Unit)
    requires
        wf_unit(u),
    ensures
        rect_within(spawn_rect(u), SPAWN_BOUND as int),
{
}

/// Firing is a function of what `unit_eq` compares: units equal by content
/// pass or fail the fire gate together and spawn the same projectile.
pub proof fn lemma_fire_congruent(a: Unit, b: Unit, cells: Seq<Cell>)
    requires
        unit_eq(a, b),
    ensures
        can_fire(a, cells) == can_fire(b, cells),
        spawn_shot(a) == spawn_shot(b),
{
    assert(fire_blocked(a, cells) == fire_blocked(b, cells));
}

/// Scans all terrain for a wall on the unit's fire probe.
pub fn scan_fire_blocked(u: &Unit, cells: &Vec<Cell>) -> (r: bool)
    requires
        0 <= u.speed <= MAX_SPEED,
    ensures
        r == fire_blocked(*u, cells@),
{
    let step = step_of(u.fire_dir, u.speed);
    let m = probe_mode(u.fire_dir);
    let mut k: usize = 0;
    while k < cells.len()
        invariant
            k <= cells@.len(),
            step.0 == dx_of(u.fire_dir, u.speed as int),
            step.1 == dy_of(u.fire_dir, u.speed as int),
            m == mode_of(u.fire_dir),
            forall|j: int|
                0 <= j < k ==> !(blocks_fire((#[trigger] cells@[j]).kind) && spec_overlap_at(
                    u.rect.x + dx_of(u.fire_dir, u.speed as int),
                    u.rect.y + dy_of(u.fire_dir, u.speed as int),
                    u.rect.w as int,
                    u.rect.h as int,
                    cells@[j].rect,
                    mode_of(u.fire_dir),
                )),
        decreases cells@.len() - k,
    {
        let c = cells[k];
        if matches!(c.kind, crate::terrain::CellKind::Wall)
            && crate::geometry::overlap_shifted(u.rect, step.0, step.1, c.rect, m) {
            return true;
        }
        k = k + 1;
    }
    false
}

/// Fires one projectile if and only if the three gating conditions hold; on
/// success the pending fire direction is consumed, on failure nothing — the
/// pending fire direction included — changes.
pub fn try_fire(u: &mut Unit, cells: &Vec<Cell>)
    requires
        wf_unit(*old(u)),
    ensures
        wf_unit(*final(u)),
        can_fire(*old(u), cells@) ==> {
            &&& final(u).shots@ == old(u).shots@.push(spawn_shot(*old(u)))
            &&& final(u).fire_dir == Dir::Stop
            &&& same_but_fire(*final(u), *old(u))
        },
        !can_fire(*old(u), cells@) ==> *final(u) == *old(u),
{
    if u.shots.len() < u.max_shots && !matches!(u.fire_dir, Dir::Stop)
        && !scan_fire_blocked(u, cells) {
        let cx = u.rect.x + (u.rect.w - SHOT_SIZE) / 2;
        let cy = u.rect.y + (u.rect.h - SHOT_SIZE) / 2;
        let rect = match u.fire_dir {
            Dir::Left => Rect { x: u.rect.x - SHOT_SIZE, y: cy, w: SHOT_SIZE, h: SHOT_SIZE },
            Dir::Right => Rect { x: u.rect.x + u.rect.w, y: cy, w: SHOT_SIZE, h: SHOT_SIZE },
            Dir::Up => Rect { x: cx, y: u.rect.y - SHOT_SIZE, w: SHOT_SIZE, h: SHOT_SIZE },
            Dir::Down => Rect { x: cx, y: u.rect.y + u.rect.h, w: SHOT_SIZE, h: SHOT_SIZE },
            Dir::Stop => Rect { x: cx, y: cy, w: SHOT_SIZE, h: SHOT_SIZE },
        };
        let shot = Projectile { rect, dir: u.fire_dir, speed: u.shot_speed };
        u.shots.push(shot);
        u.fire_dir = Dir::Stop;
    }
}

/// A projectile after one step of its own speed along its travel direction.
pub open spec fn moved_shot(p: Projectile) -> Projectile {
    Projectile {
        rect: Rect {
            x: (p.rect.x + dx_of(p.dir, p.speed as int)) as i32,
            y: (p.rect.y + dy_of(p.dir, p.speed as int)) as i32,
            ..p.rect
        },
        ..p
    }
}

/// Advances every projectile of one collection by one step.
pub fn advance_shots(shots: &mut Vec<Projectile>)
    requires
        forall|i: int| 0 <= i < old(shots)@.len() ==> wf_shot(#[trigger] old(shots)@[i]),
        forall|i: int|
            0 <= i < old(shots)@.len() ==> rect_within(
                (#[trigger] old(shots)@[i]).rect,
                SPAWN_BOUND as int,
            ),
    ensures
        final(shots)@.len() == old(shots)@.len(),
        forall|i: int|
            0 <= i < old(shots)@.len() ==> final(shots)@[i] == moved_shot(#[trigger] old(shots)@[i]),
        forall|i: int| 0 <= i < final(shots)@.len() ==> wf_shot(#[trigger] final(shots)@[i]),
        forall|i: int|
            0 <= i < final(shots)@.len() ==> rect_within(
                (#[trigger] final(shots)@[i]).rect,
                SPAWN_BOUND as int + MAX_SPEED as int,
            ),
{
    let mut i: usize = 0;
    while i < shots.len()
        invariant
            i <= shots@.len(),
            shots@.len() == old(shots)@.len(),
            forall|j: int| i <= j < shots@.len() ==> #[trigger] shots@[j] == old(shots)@[j],
            forall|j: int| 0 <= j < i ==> #[trigger] shots@[j] == moved_shot(old(shots)@[j]),
            forall|j: int| 0 <= j < old(shots)@.len() ==> wf_shot(#[trigger] old(shots)@[j]),
            forall|j: int|
                0 <= j < old(shots)@.len() ==> rect_within(
                    (#[trigger] old(shots)@[j]).rect,
                    SPAWN_BOUND as int,
                ),
        decreases shots@.len() - i,
    {
        let p = shots[i];
        let step = step_of(p.dir, p.speed);
        let np = Projectile {
            rect: Rect { x: p.rect.x + step.0, y: p.rect.y + step.1, ..p.rect },
            ..p
        };
        shots[i] = np;
        i = i + 1;
    }
}

} // verus!
