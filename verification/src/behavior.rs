//! The opponent behavior automaton: a closed set of states driving movement
//! intent, with randomized transitions taken as explicit roll inputs, and the
//! hero-relative fire intent recomputed for every opponent every tick.

use vstd::prelude::*;
use crate::geometry::{spec_opposite, spec_overlap, Dir, Overlap, Rect};
use crate::terrain::{Cell, CellKind, CELL};
use crate::units::{unit_eq, BehaviorState, Unit};

verus! {

/// The outcomes of the per-tick random draws one opponent consumes, already
/// decided: whether the emerge, hide and attack probabilities fired, and
/// which axis a fifty-fifty pick chose.
#[derive(Clone, Copy, PartialEq, Eq, Structural, Debug)]
pub struct Rolls {
    pub emerge: bool,
    pub hide: bool,
    pub attack: bool,
    pub horiz: bool,
}

/// Whether two rectangles share their horizontal span (their column ranges
/// strictly intersect).
pub open spec fn shares_h_span(a: Rect, b: Rect) -> bool {
    a.x < b.x + b.w && b.x < a.x + a.w
}

/// Whether two rectangles share their vertical span.
pub open spec fn shares_v_span(a: Rect, b: Rect) -> bool {
    a.y < b.y + b.h && b.y < a.y + a.h
}

/// The fire intent an opponent at `u` recomputes against the player at `pl`:
/// vertical fire toward the player when the columns align, else horizontal
/// fire toward the player when the rows align, else none. This overrides any
/// fire intent set elsewhere.
pub open spec fn fire_intent(u: Rect, pl: Rect) -> Dir {
    if shares_h_span(u, pl) {
        if pl.y < u.y {
            Dir::Up
        } else {
            Dir::Down
        }
    } else if shares_v_span(u, pl) {
        if pl.x < u.x {
            Dir::Left
        } else {
            Dir::Right
        }
    } else {
        Dir::Stop
    }
}

/// Whether the unit stands on a plain open cell (not a conveyor).
pub open spec fn on_open(u: Unit, cells: Seq<Cell>) -> bool {
    exists|k: int|
        0 <= k < cells.len() && (#[trigger] cells[k]).kind == CellKind::Open && spec_overlap(
            u.rect,
            cells[k].rect,
            Overlap::Inner,
        )
}

/// Whether an emerging opponent has come exactly one cell out of its spawn
/// along its emergence direction.
pub open spec fn one_cell_out(u: Unit, d: Dir) -> bool {
    match d {
        Dir::Left => u.rect.x == u.spawn_x - CELL,
        Dir::Up => u.rect.y == u.spawn_y - CELL,
        Dir::Right => u.rect.x == u.spawn_x + CELL,
        Dir::Down => u.rect.y == u.spawn_y + CELL,
        Dir::Stop => false,
    }
}

/// Whether the unit stands exactly on its spawn coordinates.
pub open spec fn at_spawn(u: Unit) -> bool {
    u.rect.x == u.spawn_x && u.rect.y == u.spawn_y
}

/// The horizontal direction that closes a displacement of `dx`.
pub open spec fn closing_h(dx: int) -> Dir {
    if dx < 0 {
        Dir::Left
    } else {
        Dir::Right
    }
}

/// The vertical direction that closes a displacement of `dy`.
pub open spec fn closing_v(dy: int) -> Dir {
    if dy < 0 {
        Dir::Up
    } else {
        Dir::Down
    }
}

/// The movement intent an attacking opponent picks: close on the player on
/// one axis, the roll breaking the tie when both axes need closing.
pub open spec fn chase_intent(u: Unit, pl: Rect, horiz: bool) -> Dir {
    let dx = pl.x - u.rect.x;
    let dy = pl.y - u.rect.y;
    if dx != 0 && dy != 0 {
        if horiz {
            closing_h(dx)
        } else {
            closing_v(dy)
        }
    } else if dx != 0 {
        closing_h(dx)
    } else if dy != 0 {
        closing_v(dy)
    } else {
        Dir::Stop
    }
}

/// The intent a fresh attacker leaves with: the horizontal variant aims for
/// the player's side, the vertical variant heads into the field.
pub open spec fn attack_entry_intent(u: Unit, pl: Rect, d: Dir) -> Dir {
    if d == Dir::Left || d == Dir::Right {
        if pl.x < u.rect.x {
            Dir::Left
        } else {
            Dir::Right
        }
    } else {
        d
    }
}

/// One automaton step: the state and movement intent an opponent ends the
/// behavior phase with, given the player position and this tick's rolls.
pub open spec fn state_step(u: Unit, pl: Rect, cells: Seq<Cell>, r: Rolls) -> (BehaviorState, Dir) {
    match u.state {
        BehaviorState::Hidden(d) => if r.emerge {
            (BehaviorState::MovingToWait(d), d)
        } else {
            (BehaviorState::Hidden(d), Dir::Stop)
        },
        BehaviorState::MovingToWait(d) => if one_cell_out(u, d) {
            (BehaviorState::Waiting(d), Dir::Stop)
        } else {
            (BehaviorState::MovingToWait(d), u.next_dir)
        },
        BehaviorState::Waiting(d) => if r.hide {
            (BehaviorState::MovingToHide(d), spec_opposite(d))
        } else if r.attack {
            (BehaviorState::Attacking, attack_entry_intent(u, pl, d))
        } else {
            (BehaviorState::Waiting(d), u.next_dir)
        },
        BehaviorState::MovingToHide(d) => if at_spawn(u) {
            (BehaviorState::Hidden(d), Dir::Stop)
        } else {
            (BehaviorState::MovingToHide(d), u.next_dir)
        },
        BehaviorState::Attacking => if on_open(u, cells) {
            (BehaviorState::Attacking, chase_intent(u, pl, r.horiz))
        } else {
            (BehaviorState::Attacking, u.next_dir)
        },
        BehaviorState::Manual => (BehaviorState::Manual, u.next_dir),
    }
}

/// The automaton reads only a unit's state, queued direction, position and
/// spawn: units that agree on those take the same transition on the same
/// rolls, whatever their projectiles or pending fire directions hold.
pub proof fn lemma_state_step_congruent(a: Unit, b: Unit, pl: Rect, cells: Seq<Cell>, r: Rolls)
    requires
        a.state == b.state,
        a.next_dir == b.next_dir,
        a.rect == b.rect,
        a.spawn_x == b.spawn_x,
        a.spawn_y == b.spawn_y,
    ensures
        state_step(a, pl, cells, r) == state_step(b, pl, cells, r),
        fire_intent(a.rect, pl) == fire_intent(b.rect, pl),
{
    assert(on_open(a, cells) == on_open(b, cells));
}

/// The automaton is a function of what `unit_eq` compares: units equal by
/// content take the same transition on the same rolls.
pub proof fn lemma_behavior_congruent(a: Unit, b: Unit, pl: Rect, cells: Seq<Cell>, r: Rolls)
    requires
        unit_eq(a, b),
    ensures
        state_step(a, pl, cells, r) == state_step(b, pl, cells, r),
        fire_intent(a.rect, pl) == fire_intent(b.rect, pl),
{
    lemma_state_step_congruent(a, b, pl, cells, r);
}

/// All fields of a unit the behavior phase never touches agree.
pub open spec fn same_but_behavior(a: Unit, b: Unit) -> bool {
    &&& a.rect == b.rect
    &&& a.spawn_x == b.spawn_x
    &&& a.spawn_y == b.spawn_y
    &&& a.dir == b.dir
    &&& a.speed == b.speed
    &&& a.lives == b.lives
    &&& a.shot_speed == b.shot_speed
    &&& a.max_shots == b.max_shots
    &&& a.shots == b.shots
}

/// Runs one behavior phase for an opponent: the automaton decides the next
/// state and movement intent, then the fire intent is recomputed from the
/// positions, overriding whatever was set before.
pub fn behavior_step(u: &mut Unit, pl: Rect, cells: &Vec<Cell>, r: Rolls)
    ensures
        final(u).state == state_step(*old(u), pl, cells@, r).0,
        final(u).next_dir == state_step(*old(u), pl, cells@, r).1,
        final(u).fire_dir == fire_intent(old(u).rect, pl),
        same_but_behavior(*final(u), *old(u)),
{
    match u.state {
        BehaviorState::Hidden(d) => {
            if r.emerge {
                u.state = BehaviorState::MovingToWait(d);
                u.next_dir = d;
            } else {
                u.next_dir = Dir::Stop;
            }
        },
        BehaviorState::MovingToWait(d) => {
            if reached_one_out(u, d) {
                u.state = BehaviorState::Waiting(d);
                u.next_dir = Dir::Stop;
            }
        },
        BehaviorState::Waiting(d) => {
            if r.hide {
                u.state = BehaviorState::MovingToHide(d);
                u.next_dir = crate::geometry::opposite(d);
            } else if r.attack {
                u.state = BehaviorState::Attacking;
                u.next_dir = if matches!(d, Dir::Left | Dir::Right) {
                    if pl.x < u.rect.x {
                        Dir::Left
                    } else {
                        Dir::Right
                    }
                } else {
                    d
                };
            }
        },
        BehaviorState::MovingToHide(d) => {
            if u.rect.x == u.spawn_x && u.rect.y == u.spawn_y {
                u.state = BehaviorState::Hidden(d);
                u.next_dir = Dir::Stop;
            }
        },
        BehaviorState::Attacking => {
            if scan_open(u, cells) {
                let dx: i64 = pl.x as i64 - u.rect.x as i64;
                let dy: i64 = pl.y as i64 - u.rect.y as i64;
                u.next_dir = if dx != 0 && dy != 0 {
                    if r.horiz {
                        if dx < 0 {
                            Dir::Left
                        } else {
                            Dir::Right
                        }
                    } else {
                        if dy < 0 {
                            Dir::Up
                        } else {
                            Dir::Down
                        }
                    }
                } else if dx != 0 {
                    if dx < 0 {
                        Dir::Left
                    } else {
                        Dir::Right
                    }
                } else if dy != 0 {
                    if dy < 0 {
                        Dir::Up
                    } else {
                        Dir::Down
                    }
                } else {
                    Dir::Stop
                };
            }
        },
        BehaviorState::Manual => {},
    }
    u.fire_dir = fire_intent_exec(u.rect, pl);
}

/// Whether the opponent has come exactly one cell out of spawn along `d`.
pub fn reached_one_out(u: &Unit, d: Dir) -> (r: bool)
    ensures
        r == one_cell_out(*u, d),
{
    let sx: i64 = u.spawn_x as i64;
    let sy: i64 = u.spawn_y as i64;
    match d {
        Dir::Left => u.rect.x as i64 == sx - CELL as i64,
        Dir::Up => u.rect.y as i64 == sy - CELL as i64,
        Dir::Right => u.rect.x as i64 == sx + CELL as i64,
        Dir::Down => u.rect.y as i64 == sy + CELL as i64,
        Dir::Stop => false,
    }
}

/// Scans all terrain for a plain open cell under the unit.
pub fn scan_open(u: &Unit, cells: &Vec<Cell>) -> (r: bool)
    ensures
        r == on_open(*u, cells@),
{
    let mut k: usize = 0;
    while k < cells.len()
        invariant
            k <= cells@.len(),
            forall|j: int|
                0 <= j < k ==> !((#[trigger] cells@[j]).kind == CellKind::Open && spec_overlap(
                    u.rect,
                    cells@[j].rect,
                    Overlap::Inner,
                )),
        decreases cells@.len() - k,
    {
        let c = cells[k];
        if matches!(c.kind, CellKind::Open)
            && crate::geometry::overlap_shifted(u.rect, 0, 0, c.rect, Overlap::Inner) {
            return true;
        }
        k = k + 1;
    }
    false
}

/// The recomputed fire intent of an opponent at `u` against the player `pl`.
pub fn fire_intent_exec(u: Rect, pl: Rect) -> (d: Dir)
    ensures
        d == fire_intent(u, pl),
{
    let ux: i64 = u.x as i64;
    let uy: i64 = u.y as i64;
    let px: i64 = pl.x as i64;
    let py: i64 = pl.y as i64;
    if ux < px + pl.w as i64 && px < ux + u.w as i64 {
        if py < uy {
            Dir::Up
        } else {
            Dir::Down
        }
    } else if uy < py + pl.h as i64 && py < uy + u.h as i64 {
        if px < ux {
            Dir::Left
        } else {
            Dir::Right
        }
    } else {
        Dir::Stop
    }
}

} // verus!
