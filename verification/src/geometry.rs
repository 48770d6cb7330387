//! Axis-aligned rectangles, movement directions, and the overlap tests with
//! per-edge inclusive/exclusive tie-breaks that the whole engine is built on.

use vstd::prelude::*;

verus! {

/// A movement or firing direction on the grid; `Stop` is the absence of one.
#[derive(Clone, Copy, PartialEq, Eq, Structural, Debug)]
pub enum Dir {
    Stop,
    Left,
    Right,
    Up,
    Down,
}

/// Selects which edge comparisons of an overlap test are inclusive.
///
/// `Full` counts mere edge-touch as overlap on every edge; `Inner` demands
/// strict interior intersection; a directional mode makes only the named
/// leading-edge comparison inclusive, so that a rectangle advanced one step
/// in that direction registers contact exactly when it reaches an obstacle,
/// without being blocked by obstacles it merely slides along.
#[derive(Clone, Copy, PartialEq, Eq, Structural, Debug)]
pub enum Overlap {
    Full,
    Inner,
    Left,
    Right,
    Up,
    Down,
}

/// An axis-aligned rectangle: top-left corner plus extent, in pixels.
#[derive(Clone, Copy, PartialEq, Eq, Structural, Debug)]
pub struct Rect {
    pub x: i32,
    pub y: i32,
    pub w: i32,
    pub h: i32,
}

pub open spec fn spec_opposite(d: Dir) -> Dir {
    match d {
        Dir::Stop => Dir::Stop,
        Dir::Left => Dir::Right,
        Dir::Right => Dir::Left,
        Dir::Up => Dir::Down,
        Dir::Down => Dir::Up,
    }
}

/// The reverse of a direction; `Stop` is its own reverse.
#[verifier::when_used_as_spec(spec_opposite)]
pub fn opposite(d: Dir) -> (r: Dir)
    ensures
        r == spec_opposite(d),
{
    match d {
        Dir::Stop => Dir::Stop,
        Dir::Left => Dir::Right,
        Dir::Right => Dir::Left,
        Dir::Up => Dir::Down,
        Dir::Down => Dir::Up,
    }
}

/// Horizontal displacement of one step of length `dist` in direction `d`.
pub open spec fn dx_of(d: Dir, dist: int) -> int {
    match d {
        Dir::Left => -dist,
        Dir::Right => dist,
        _ => 0,
    }
}

/// Vertical displacement of one step of length `dist` in direction `d`.
pub open spec fn dy_of(d: Dir, dist: int) -> int {
    match d {
        Dir::Up => -dist,
        Dir::Down => dist,
        _ => 0,
    }
}

/// The overlap mode that probes movement in direction `d`.
pub open spec fn mode_of(d: Dir) -> Overlap {
    match d {
        Dir::Stop => Overlap::Full,
        Dir::Left => Overlap::Left,
        Dir::Right => Overlap::Right,
        Dir::Up => Overlap::Up,
        Dir::Down => Overlap::Down,
    }
}

pub open spec fn left_inclusive(m: Overlap) -> bool {
    m == Overlap::Full || m == Overlap::Left
}

pub open spec fn right_inclusive(m: Overlap) -> bool {
    m == Overlap::Full || m == Overlap::Right
}

pub open spec fn up_inclusive(m: Overlap) -> bool {
    m == Overlap::Full || m == Overlap::Up
}

pub open spec fn down_inclusive(m: Overlap) -> bool {
    m == Overlap::Full || m == Overlap::Down
}

/// Overlap of the rectangle at `(ax, ay)` with extent `(aw, ah)` against `b`,
/// with the mode choosing which edge comparisons admit exact touch.
pub open spec fn spec_overlap_at(ax: int, ay: int, aw: int, ah: int, b: Rect, m: Overlap) -> bool {
    &&& if left_inclusive(m) {
        ax <= b.x + b.w
    } else {
        ax < b.x + b.w
    }
    &&& if right_inclusive(m) {
        b.x <= ax + aw
    } else {
        b.x < ax + aw
    }
    &&& if up_inclusive(m) {
        ay <= b.y + b.h
    } else {
        ay < b.y + b.h
    }
    &&& if down_inclusive(m) {
        b.y <= ay + ah
    } else {
        b.y < ay + ah
    }
}

pub open spec fn spec_overlap(a: Rect, b: Rect, m: Overlap) -> bool {
    spec_overlap_at(a.x as int, a.y as int, a.w as int, a.h as int, b, m)
}

/// Overlap test of `a`, conceptually translated by `(dx, dy)`, against `b`.
pub fn overlap_shifted(a: Rect, dx: i32, dy: i32, b: Rect, m: Overlap) -> (r: bool)
    ensures
        r == spec_overlap_at(a.x + dx, a.y + dy, a.w as int, a.h as int, b, m),
{
    let ax: i64 = a.x as i64 + dx as i64;
    let ay: i64 = a.y as i64 + dy as i64;
    let aw: i64 = a.w as i64;
    let ah: i64 = a.h as i64;
    let bx: i64 = b.x as i64;
    let by: i64 = b.y as i64;
    let bw: i64 = b.w as i64;
    let bh: i64 = b.h as i64;
    let c1: bool = if matches!(m, Overlap::Full | Overlap::Left) {
        ax <= bx + bw
    } else {
        ax < bx + bw
    };
    let c2: bool = if matches!(m, Overlap::Full | Overlap::Right) {
        bx <= ax + aw
    } else {
        bx < ax + aw
    };
    let c3: bool = if matches!(m, Overlap::Full | Overlap::Up) {
        ay <= by + bh
    } else {
        ay < by + bh
    };
    let c4: bool = if matches!(m, Overlap::Full | Overlap::Down) {
        by <= ay + ah
    } else {
        by < ay + ah
    };
    c1 && c2 && c3 && c4
}

/// Overlap test of two rectangles under the given mode.
pub fn overlap(a: Rect, b: Rect, m: Overlap) -> (r: bool)
    ensures
        r == spec_overlap(a, b, m),
{
    overlap_shifted(a, 0, 0, b, m)
}

/// Strict interior overlap implies overlap in every mode: each directional
/// mode and `Full` only relax comparisons that `Inner` makes strict.
pub proof fn lemma_inner_implies_any_mode(a: Rect, b: Rect, m: Overlap)
    requires
        spec_overlap(a, b, Overlap::Inner),
    ensures
        spec_overlap(a, b, m),
{
}

/// Overlap in any mode implies `Full` overlap: `Full` makes every edge
/// comparison inclusive, the weakest choice.
pub proof fn lemma_any_mode_implies_full(a: Rect, b: Rect, m: Overlap)
    requires
        spec_overlap(a, b, m),
    ensures
        spec_overlap(a, b, Overlap::Full),
{
}

/// All four directional modes agree exactly when the overlap is strict: each
/// mode relaxes one comparison the others keep strict, so their conjunction
/// keeps every comparison strict. A `Full` overlap that only touches on an
/// edge is reported by at most the mode named after that edge.
pub proof fn lemma_all_directionals_iff_inner(a: Rect, b: Rect)
    ensures
        (spec_overlap(a, b, Overlap::Left) && spec_overlap(a, b, Overlap::Right) && spec_overlap(
            a,
            b,
            Overlap::Up,
        ) && spec_overlap(a, b, Overlap::Down)) <==> spec_overlap(a, b, Overlap::Inner),
{
}

} // verus!
