//! Mutable moving objects: projectiles and the shared shape of the player
//! unit and opponent units, together with their well-formedness predicates.

use vstd::prelude::*;
use crate::geometry::{Dir, Rect};
use crate::terrain::{FIELD_H, FIELD_W};

verus! {

/// Side length of every moving unit, in pixels.
pub const UNIT_SIZE: i32 = 32;

/// Side length of every projectile, in pixels.
pub const SHOT_SIZE: i32 = 8;

/// Hard bound on where a unit may stand; movement that would carry a unit
/// beyond it stops instead, which keeps every coordinate computation far
/// from machine limits. The playing field lies deep inside it.
pub const ARENA: i32 = 100000;

/// Largest movement or projectile speed a well-formed unit may have.
pub const MAX_SPEED: i32 = 32;

/// A projectile in flight: its rectangle, fixed travel direction, and the
/// per-tick speed inherited from the unit that fired it.
#[derive(Clone, Copy, PartialEq, Eq, Structural, Debug)]
pub struct Projectile {
    pub rect: Rect,
    pub dir: Dir,
    pub speed: i32,
}

/// The behavior state of an opponent unit.
///
/// The direction payload is the axis along which the opponent emerges from
/// its spawn nook: `Left` for opponents that slide in from the right edge,
/// `Up` for opponents that rise from the bottom. `Manual` tags the player
/// unit, which the automaton never drives.
#[derive(Clone, Copy, PartialEq, Eq, Structural, Debug)]
pub enum BehaviorState {
    Hidden(Dir),
    MovingToWait(Dir),
    Waiting(Dir),
    MovingToHide(Dir),
    Attacking,
    Manual,
}

/// A moving unit: the player or one opponent. Player and opponents share
/// this shape; only what drives them differs.
pub struct Unit {
    pub rect: Rect,
    pub spawn_x: i32,
    pub spawn_y: i32,
    pub dir: Dir,
    pub next_dir: Dir,
    pub speed: i32,
    pub lives: u32,
    pub shot_speed: i32,
    pub max_shots: usize,
    pub shots: Vec<Projectile>,
    pub fire_dir: Dir,
    pub state: BehaviorState,
}

/// A structurally sound projectile: fixed size, a concrete direction, and a
/// bounded speed.
pub open spec fn wf_shot(p: Projectile) -> bool {
    &&& p.rect.w == SHOT_SIZE
    &&& p.rect.h == SHOT_SIZE
    &&& p.dir != Dir::Stop
    &&& 1 <= p.speed <= MAX_SPEED
}

/// Whether a rectangle still touches the playing field; a projectile that
/// does not is a destroy-candidate.
pub open spec fn in_field(r: Rect) -> bool {
    &&& r.x + r.w >= 0
    &&& r.x <= FIELD_W
    &&& r.y + r.h >= 0
    &&& r.y <= FIELD_H
}

/// Whether every coordinate of `r` lies within `b` of the origin.
pub open spec fn rect_within(r: Rect, b: int) -> bool {
    &&& -b <= r.x <= b
    &&& -b <= r.y <= b
}

/// A structurally sound unit. In particular a unit never holds more live
/// projectiles than its configured maximum.
pub open spec fn wf_unit(u: Unit) -> bool {
    &&& u.rect.w == UNIT_SIZE
    &&& u.rect.h == UNIT_SIZE
    &&& rect_within(u.rect, ARENA as int)
    &&& -ARENA <= u.spawn_x <= ARENA
    &&& -ARENA <= u.spawn_y <= ARENA
    &&& 1 <= u.speed <= MAX_SPEED
    &&& 1 <= u.shot_speed <= MAX_SPEED
    &&& u.shots@.len() <= u.max_shots
    &&& forall|i: int| 0 <= i < u.shots@.len() ==> wf_shot(#[trigger] u.shots@[i])
}

/// All of a unit's projectiles lie within `b` of the origin.
pub open spec fn shots_within(shots: Seq<Projectile>, b: int) -> bool {
    forall|i: int| 0 <= i < shots.len() ==> rect_within((#[trigger] shots[i]).rect, b)
}

/// All of a unit's projectiles still touch the playing field; this holds
/// between ticks, because the collision pass destroys any that left it.
pub open spec fn shots_in_field(shots: Seq<Projectile>) -> bool {
    forall|i: int| 0 <= i < shots.len() ==> in_field((#[trigger] shots[i]).rect)
}

/// Two units agree on every field, the projectile list compared by content.
/// Every simulation pass observes a unit through exactly these projections,
/// so units in this relation go through every pass identically.
pub open spec fn unit_eq(a: Unit, b: Unit) -> bool {
    &&& a.rect == b.rect
    &&& a.spawn_x == b.spawn_x
    &&& a.spawn_y == b.spawn_y
    &&& a.dir == b.dir
    &&& a.next_dir == b.next_dir
    &&& a.speed == b.speed
    &&& a.lives == b.lives
    &&& a.shot_speed == b.shot_speed
    &&& a.max_shots == b.max_shots
    &&& a.shots@ == b.shots@
    &&& a.fire_dir == b.fire_dir
    &&& a.state == b.state
}

/// Projectiles that touch the field lie well inside the coordinate bound
/// that the fire and motion passes compute under.
pub proof fn lemma_in_field_within(shots: Seq<Projectile>)
    requires
        shots_in_field(shots),
        forall|i: int| 0 <= i < shots.len() ==> wf_shot(#[trigger] shots[i]),
    ensures
        shots_within(shots, ARENA + SHOT_SIZE),
{
}

} // verus!
