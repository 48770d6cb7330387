//! Per-tick movement resolution against the terrain: directional blocking
//! probes, conveyor ("slide") semantics for the player, and the fixed-speed
//! translation that results.

use vstd::prelude::*;
use crate::geometry::{
    dx_of, dy_of, mode_of, opposite, overlap_shifted, spec_opposite, spec_overlap, spec_overlap_at,
    Dir, Overlap, Rect,
};
use crate::terrain::{blocks_unit, Cell, CellKind};
use crate::units::{unit_eq, wf_unit, Unit, ARENA, MAX_SPEED};

verus! {

/// Whether a unit probing one step of its own speed in direction `d` meets
/// terrain that stops it. Probing `Stop` never blocks.
pub open spec fn dir_blocked(u: Unit, cells: Seq<Cell>, d: Dir, is_player: bool) -> bool {
    d != Dir::Stop && exists|k: int|
        0 <= k < cells.len() && blocks_unit((#[trigger] cells[k]).kind, is_player)
            && spec_overlap_at(
            u.rect.x + dx_of(d, u.speed as int),
            u.rect.y + dy_of(d, u.speed as int),
            u.rect.w as int,
            u.rect.h as int,
            cells[k].rect,
            mode_of(d),
        )
}

/// Whether the unit currently stands on a conveyor cell.
pub open spec fn on_conveyor(u: Unit, cells: Seq<Cell>) -> bool {
    exists|k: int|
        0 <= k < cells.len() && (#[trigger] cells[k]).kind == CellKind::Conveyor && spec_overlap(
            u.rect,
            cells[k].rect,
            Overlap::Inner,
        )
}

/// The directions a unit ends the movement phase with: first its new current
/// direction, then its new queued direction.
///
/// If the unit is not slid by a conveyor, or queues the exact reverse of its
/// current direction (reversal is always allowed), the queued direction is
/// adopted; if that direction is blocked, both collapse to `Stop`. A slid,
/// non-reversing unit keeps going until blocked, and when blocked is pushed
/// back the way it came with its queue cleared.
pub open spec fn resolve_dirs(u: Unit, cells: Seq<Cell>, is_player: bool) -> (Dir, Dir) {
    let slid = is_player && on_conveyor(u, cells);
    if !slid || u.next_dir == spec_opposite(u.dir) {
        if dir_blocked(u, cells, u.next_dir, is_player) {
            (Dir::Stop, Dir::Stop)
        } else {
            (u.next_dir, u.next_dir)
        }
    } else {
        if dir_blocked(u, cells, u.dir, is_player) {
            (spec_opposite(u.dir), Dir::Stop)
        } else {
            (u.dir, u.next_dir)
        }
    }
}

/// The unit after one movement phase: directions resolved, then one step of
/// its speed applied. A step that would leave the arena bound stops the unit
/// instead of moving it.
pub open spec fn move_spec(u: Unit, cells: Seq<Cell>, is_player: bool) -> Unit {
    let dirs = resolve_dirs(u, cells, is_player);
    let nx = u.rect.x + dx_of(dirs.0, u.speed as int);
    let ny = u.rect.y + dy_of(dirs.0, u.speed as int);
    if -(ARENA as int) <= nx <= ARENA as int && -(ARENA as int) <= ny <= ARENA as int {
        Unit {
            rect: Rect { x: nx as i32, y: ny as i32, ..u.rect },
            dir: dirs.0,
            next_dir: dirs.1,
            ..u
        }
    } else {
        Unit { dir: Dir::Stop, next_dir: Dir::Stop, ..u }
    }
}

/// Whether cells of kind `k` stop this unit.
pub fn is_blocking(k: CellKind, is_player: bool) -> (r: bool)
    ensures
        r == blocks_unit(k, is_player),
{
    matches!(k, CellKind::Wall) || (matches!(k, CellKind::Pit) && is_player)
}

/// The one-step displacement of a unit of speed `s` in direction `d`.
pub fn step_of(d: Dir, s: i32) -> (r: (i32, i32))
    requires
        0 <= s <= MAX_SPEED,
    ensures
        r.0 == dx_of(d, s as int),
        r.1 == dy_of(d, s as int),
{
    match d {
        Dir::Left => (-s, 0),
        Dir::Right => (s, 0),
        Dir::Up => (0, -s),
        Dir::Down => (0, s),
        Dir::Stop => (0, 0),
    }
}

/// The overlap mode that probes movement in direction `d`.
pub fn probe_mode(d: Dir) -> (m: Overlap)
    ensures
        m == mode_of(d),
{
    match d {
        Dir::Stop => Overlap::Full,
        Dir::Left => Overlap::Left,
        Dir::Right => Overlap::Right,
        Dir::Up => Overlap::Up,
        Dir::Down => Overlap::Down,
    }
}

/// Scans all terrain for a cell that stops this unit's probe in `d`.
pub fn scan_blocked(u: &Unit, cells: &Vec<Cell>, d: Dir, is_player: bool) -> (r: bool)
    requires
        0 <= u.speed <= MAX_SPEED,
    ensures
        r == dir_blocked(*u, cells@, d, is_player),
{
    if matches!(d, Dir::Stop) {
        return false;
    }
    let step = step_of(d, u.speed);
    let m = probe_mode(d);
    let mut k: usize = 0;
    while k < cells.len()
        invariant
            k <= cells@.len(),
            d != Dir::Stop,
            step.0 == dx_of(d, u.speed as int),
            step.1 == dy_of(d, u.speed as int),
            m == mode_of(d),
            forall|j: int|
                0 <= j < k ==> !(blocks_unit((#[trigger] cells@[j]).kind, is_player)
                    && spec_overlap_at(
                    u.rect.x + dx_of(d, u.speed as int),
                    u.rect.y + dy_of(d, u.speed as int),
                    u.rect.w as int,
                    u.rect.h as int,
                    cells@[j].rect,
                    mode_of(d),
                )),
        decreases cells@.len() - k,
    {
        let c = cells[k];
        if is_blocking(c.kind, is_player) && overlap_shifted(u.rect, step.0, step.1, c.rect, m) {
            return true;
        }
        k = k + 1;
    }
    false
}

/// Scans all terrain for a conveyor cell under the unit.
pub fn scan_conveyor(u: &Unit, cells: &Vec<Cell>) -> (r: bool)
    ensures
        r == on_conveyor(*u, cells@),
{
    let mut k: usize = 0;
    while k < cells.len()
        invariant
            k <= cells@.len(),
            forall|j: int|
                0 <= j < k ==> !((#[trigger] cells@[j]).kind == CellKind::Conveyor && spec_overlap(
                    u.rect,
                    cells@[j].rect,
                    Overlap::Inner,
                )),
        decreases cells@.len() - k,
    {
        let c = cells[k];
        if matches!(c.kind, CellKind::Conveyor) && overlap_shifted(u.rect, 0, 0, c.rect, Overlap::Inner) {
            return true;
        }
        k = k + 1;
    }
    false
}

/// Resolves and applies one movement phase for a unit.
pub fn resolve_move(u: &mut Unit, cells: &Vec<Cell>, is_player: bool)
    requires
        wf_unit(*old(u)),
    ensures
        *final(u) == move_spec(*old(u), cells@, is_player),
        wf_unit(*final(u)),
{
    let slid = is_player && scan_conveyor(u, cells);
    let reversing = u.next_dir == opposite(u.dir);
    let nd: Dir;
    let nn: Dir;
    if !slid || reversing {
        if scan_blocked(u, cells, u.next_dir, is_player) {
            nd = Dir::Stop;
            nn = Dir::Stop;
        } else {
            nd = u.next_dir;
            nn = u.next_dir;
        }
    } else {
        if scan_blocked(u, cells, u.dir, is_player) {
            nd = opposite(u.dir);
            nn = Dir::Stop;
        } else {
            nd = u.dir;
            nn = u.next_dir;
        }
    }
    let step = step_of(nd, u.speed);
    let nx: i64 = u.rect.x as i64 + step.0 as i64;
    let ny: i64 = u.rect.y as i64 + step.1 as i64;
    if -(ARENA as i64) <= nx && nx <= ARENA as i64 && -(ARENA as i64) <= ny && ny <= ARENA as i64 {
        u.rect.x = nx as i32;
        u.rect.y = ny as i32;
        u.dir = nd;
        u.next_dir = nn;
    } else {
        u.dir = Dir::Stop;
        u.next_dir = Dir::Stop;
    }
}

/// Movement is a function of what `unit_eq` compares: units equal by content
/// move identically, which keeps a restored session's movement in step with
/// the session it was saved from.
pub proof fn lemma_move_spec_congruent(a: Unit, b: Unit, cells: Seq<Cell>, is_player: bool)
    requires
        unit_eq(a, b),
    ensures
        unit_eq(move_spec(a, cells, is_player), move_spec(b, cells, is_player)),
{
    assert(dir_blocked(a, cells, a.next_dir, is_player) == dir_blocked(
        b,
        cells,
        b.next_dir,
        is_player,
    ));
    assert(dir_blocked(a, cells, a.dir, is_player) == dir_blocked(b, cells, b.dir, is_player));
    assert(on_conveyor(a, cells) == on_conveyor(b, cells));
}

/// Reversal is always permitted: whatever blocks the current direction, and
/// whether or not the unit is slid, a unit whose queued direction is the
/// exact reverse of its current one adopts it, and moves one step that way
/// if that way is free.
pub proof fn lemma_reversal_always_allowed(u: Unit, cells: Seq<Cell>, is_player: bool)
    requires
        wf_unit(u),
        u.next_dir == spec_opposite(u.dir),
        !dir_blocked(u, cells, spec_opposite(u.dir), is_player),
        -(ARENA as int) + MAX_SPEED <= u.rect.x <= ARENA as int - MAX_SPEED,
        -(ARENA as int) + MAX_SPEED <= u.rect.y <= ARENA as int - MAX_SPEED,
    ensures
        move_spec(u, cells, is_player).dir == spec_opposite(u.dir),
        move_spec(u, cells, is_player).rect.x == u.rect.x + dx_of(
            spec_opposite(u.dir),
            u.speed as int,
        ),
        move_spec(u, cells, is_player).rect.y == u.rect.y + dy_of(
            spec_opposite(u.dir),
            u.speed as int,
        ),
{
}

} // verus!
