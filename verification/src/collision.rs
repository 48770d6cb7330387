//! Collision detection and resolution: destroy-candidate tests for
//! projectiles, kill and crash accounting, hit application to the player,
//! and the transfer of a destroyed opponent's projectiles to the unowned
//! pool before the opponent is removed.

use vstd::prelude::*;
use crate::geometry::{spec_overlap, Overlap, Rect};
use crate::removal::{remove_marked, survivors};
use crate::terrain::{blocks_fire, Cell, CellKind};
use crate::units::{in_field, unit_eq, Projectile, Unit};

verus! {

/// Strict interior overlap of two rectangles, the mode every collision test
/// uses.
pub open spec fn inner(a: Rect, b: Rect) -> bool {
    spec_overlap(a, b, Overlap::Inner)
}

/// Whether a projectile strictly overlaps a fire-blocking cell.
pub open spec fn hits_wall(p: Projectile, cells: Seq<Cell>) -> bool {
    exists|k: int|
        0 <= k < cells.len() && blocks_fire((#[trigger] cells[k]).kind) && inner(
            p.rect,
            cells[k].rect,
        )
}

/// Whether a projectile strikes the unit bounded by `r`.
pub open spec fn hits_rect(p: Projectile, r: Rect) -> bool {
    inner(p.rect, r)
}

/// Whether a projectile strikes any of the listed units.
pub open spec fn hits_any(p: Projectile, opps: Seq<Unit>) -> bool {
    exists|k: int| 0 <= k < opps.len() && hits_rect(p, (#[trigger] opps[k]).rect)
}

/// Destroy conditions every projectile is subject to: leaving the field or
/// striking a wall.
pub open spec fn shot_gone(p: Projectile, cells: Seq<Cell>) -> bool {
    !in_field(p.rect) || hits_wall(p, cells)
}

/// The destroy mask of the player's projectiles: gone, or striking any
/// opponent, or striking the player unit itself.
pub open spec fn pmask(shots: Seq<Projectile>, cells: Seq<Cell>, opps: Seq<Unit>, pl: Rect) -> Seq<
    bool,
> {
    Seq::new(
        shots.len(),
        |i: int| shot_gone(shots[i], cells) || hits_any(shots[i], opps) || hits_rect(shots[i], pl),
    )
}

/// The destroy mask of hostile projectiles (unowned, or an opponent's):
/// gone, or striking the player.
pub open spec fn hmask(shots: Seq<Projectile>, cells: Seq<Cell>, pl: Rect) -> Seq<bool> {
    Seq::new(shots.len(), |i: int| shot_gone(shots[i], cells) || hits_rect(shots[i], pl))
}

/// Which opponents a volley of player projectiles strikes.
pub open spec fn shotkill_mask(opps: Seq<Unit>, shots: Seq<Projectile>) -> Seq<bool> {
    Seq::new(
        opps.len(),
        |k: int| exists|i: int| 0 <= i < shots.len() && hits_rect(#[trigger] shots[i], opps[k].rect),
    )
}

/// Whether opponent `k` touches another opponent or the player.
pub open spec fn touches(opps: Seq<Unit>, pl: Rect, k: int) -> bool {
    ||| exists|j: int| 0 <= j < opps.len() && j != k && inner(opps[k].rect, (#[trigger] opps[j]).rect)
    ||| inner(opps[k].rect, pl)
}

/// Which opponents the unit-versus-unit pass marks destroyed.
pub open spec fn touch_mask(opps: Seq<Unit>, pl: Rect) -> Seq<bool> {
    Seq::new(opps.len(), |k: int| touches(opps, pl, k))
}

/// How many of the first `k` projectiles strike the unit bounded by `r`.
pub open spec fn count_hits_to(shots: Seq<Projectile>, r: Rect, k: int) -> int
    decreases k,
{
    if k <= 0 {
        0
    } else {
        count_hits_to(shots, r, k - 1) + if hits_rect(shots[k - 1], r) {
            1int
        } else {
            0int
        }
    }
}

/// How many of the first `k` marks are set.
pub open spec fn count_true_to(m: Seq<bool>, k: int) -> int
    decreases k,
{
    if k <= 0 {
        0
    } else {
        count_true_to(m, k - 1) + if m[k - 1] {
            1int
        } else {
            0int
        }
    }
}

/// The projectiles of the marked opponents among the first `k`, in opponent
/// order: what the unowned pool inherits when those opponents are removed.
pub open spec fn shots_of_dead(opps: Seq<Unit>, dead: Seq<bool>, k: int) -> Seq<Projectile>
    decreases k,
{
    if k <= 0 {
        Seq::empty()
    } else {
        shots_of_dead(opps, dead, k - 1) + if dead[k - 1] {
            opps[k - 1].shots@
        } else {
            Seq::empty()
        }
    }
}

/// How many of the first `k` opponents touch the player.
pub open spec fn count_touching_to(opps: Seq<Unit>, pl: Rect, k: int) -> int
    decreases k,
{
    if k <= 0 {
        0
    } else {
        count_touching_to(opps, pl, k - 1) + if inner(opps[k - 1].rect, pl) {
            1int
        } else {
            0int
        }
    }
}

/// The touching count reads only the opponents' rectangles.
pub proof fn lemma_count_touching_congruent(a: Seq<Unit>, b: Seq<Unit>, pl: Rect, k: int)
    requires
        a.len() == b.len(),
        forall|q: int| (#[trigger] a[q]).rect == b[q].rect || !(0 <= q < a.len()),
        k <= a.len(),
    ensures
        count_touching_to(a, pl, k) == count_touching_to(b, pl, k),
    decreases k,
{
    if k > 0 {
        lemma_count_touching_congruent(a, b, pl, k - 1);
    }
}

/// Every projectile inherited from marked opponents satisfies any property
/// that all their projectiles satisfy.
pub proof fn lemma_shots_of_dead_sat(
    opps: Seq<Unit>,
    dead: Seq<bool>,
    k: int,
    p: spec_fn(Projectile) -> bool,
)
    requires
        k <= opps.len(),
        forall|q: int, i: int|
            0 <= q < opps.len() && 0 <= i < opps[q].shots@.len() ==> p(
                #[trigger] opps[q].shots@[i],
            ),
    ensures
        forall|i: int|
            0 <= i < shots_of_dead(opps, dead, k).len() ==> p(
                #[trigger] shots_of_dead(opps, dead, k)[i],
            ),
    decreases k,
{
    if k > 0 {
        lemma_shots_of_dead_sat(opps, dead, k - 1, p);
        assert forall|i: int|
            0 <= i < shots_of_dead(opps, dead, k).len() implies p(
            #[trigger] shots_of_dead(opps, dead, k)[i],
        ) by {
            let prefix = shots_of_dead(opps, dead, k - 1);
            if i < prefix.len() {
                assert(shots_of_dead(opps, dead, k)[i] == prefix[i]);
            } else {
                assert(dead[k - 1]);
                assert(shots_of_dead(opps, dead, k)[i] == opps[k - 1].shots@[i - prefix.len()]);
            }
        }
    }
}

/// The collision masks read only the opponents' rectangles: opponent lists
/// that agree on every rectangle are struck and touched identically. Lists
/// equal by content (`unit_eq`) agree on rectangles, so this also carries
/// the masks across a restored session.
pub proof fn lemma_masks_congruent(
    shots: Seq<Projectile>,
    cells: Seq<Cell>,
    a: Seq<Unit>,
    b: Seq<Unit>,
    pl: Rect,
)
    requires
        a.len() == b.len(),
        forall|k: int| (#[trigger] a[k]).rect == b[k].rect || !(0 <= k < a.len()),
    ensures
        pmask(shots, cells, a, pl) == pmask(shots, cells, b, pl),
        shotkill_mask(a, shots) == shotkill_mask(b, shots),
        touch_mask(a, pl) == touch_mask(b, pl),
{
    assert forall|i: int| 0 <= i < shots.len() implies hits_any(#[trigger] shots[i], a)
        == hits_any(shots[i], b) by {
        if hits_any(shots[i], a) {
            let k = choose|k: int| 0 <= k < a.len() && hits_rect(shots[i], (#[trigger] a[k]).rect);
            assert(hits_rect(shots[i], b[k].rect));
        }
        if hits_any(shots[i], b) {
            let k = choose|k: int| 0 <= k < b.len() && hits_rect(shots[i], (#[trigger] b[k]).rect);
            assert(hits_rect(shots[i], a[k].rect));
        }
    }
    assert(pmask(shots, cells, a, pl) =~= pmask(shots, cells, b, pl));
    assert forall|k: int| 0 <= k < a.len() implies #[trigger] shotkill_mask(a, shots)[k]
        == shotkill_mask(b, shots)[k] by {
        assert(a[k].rect == b[k].rect);
    }
    assert(shotkill_mask(a, shots) =~= shotkill_mask(b, shots));
    assert forall|k: int| 0 <= k < a.len() implies #[trigger] touch_mask(a, pl)[k] == touch_mask(
        b,
        pl,
    )[k] by {
        if touches(a, pl, k) {
            if exists|j: int| 0 <= j < a.len() && j != k && inner(a[k].rect, (#[trigger] a[j]).rect) {
                let j = choose|j: int|
                    0 <= j < a.len() && j != k && inner(a[k].rect, (#[trigger] a[j]).rect);
                assert(inner(b[k].rect, b[j].rect));
            }
            assert(touches(b, pl, k));
        }
        if touches(b, pl, k) {
            if exists|j: int| 0 <= j < b.len() && j != k && inner(b[k].rect, (#[trigger] b[j]).rect) {
                let j = choose|j: int|
                    0 <= j < b.len() && j != k && inner(b[k].rect, (#[trigger] b[j]).rect);
                assert(inner(a[k].rect, a[j].rect));
            }
            assert(touches(a, pl, k));
        }
    }
    assert(touch_mask(a, pl) =~= touch_mask(b, pl));
}

/// Total strikes on the player by the volleys of the first `k` opponents.
pub open spec fn vol_hits_to(opps: Seq<Unit>, pl: Rect, k: int) -> int
    decreases k,
{
    if k <= 0 {
        0
    } else {
        vol_hits_to(opps, pl, k - 1) + count_hits_to(
            opps[k - 1].shots@,
            pl,
            opps[k - 1].shots@.len() as int,
        )
    }
}

/// Volley hit totals are never negative.
pub proof fn lemma_vol_hits_nonneg(opps: Seq<Unit>, pl: Rect, k: int)
    ensures
        vol_hits_to(opps, pl, k) >= 0,
    decreases k,
{
    if k > 0 {
        lemma_vol_hits_nonneg(opps, pl, k - 1);
        lemma_count_hits_nonneg(opps[k - 1].shots@, pl, opps[k - 1].shots@.len() as int);
    }
}

/// Hit counts are never negative.
pub proof fn lemma_count_hits_nonneg(shots: Seq<Projectile>, r: Rect, k: int)
    ensures
        count_hits_to(shots, r, k) >= 0,
    decreases k,
{
    if k > 0 {
        lemma_count_hits_nonneg(shots, r, k - 1);
    }
}

/// The player's life count after absorbing `h` hits: one life per hit while
/// lives remain.
pub open spec fn drained(lives: u32, h: int) -> u32 {
    if h >= lives {
        0u32
    } else {
        (lives - h) as u32
    }
}

/// A counter after adding `n`, saturating at the counter's limit.
pub open spec fn sat_add(c: u32, n: int) -> u32 {
    if c + n <= u32::MAX {
        (c + n) as u32
    } else {
        u32::MAX
    }
}

/// Absorbing two batches of hits in turn drains the same lives as absorbing
/// them at once.
pub proof fn lemma_drained_compose(lives: u32, a: int, b: int)
    requires
        a >= 0,
        b >= 0,
    ensures
        drained(drained(lives, a), b) == drained(lives, a + b),
{
}

/// Whether a projectile has left the field or strictly overlaps a wall.
pub fn shot_gone_exec(p: Projectile, cells: &Vec<Cell>) -> (r: bool)
    ensures
        r == shot_gone(p, cells@),
{
    let out = (p.rect.x as i64) + (p.rect.w as i64) < 0 || (p.rect.x as i64)
        > crate::terrain::FIELD_W as i64 || (p.rect.y as i64) + (p.rect.h as i64) < 0 || (
    p.rect.y as i64) > crate::terrain::FIELD_H as i64;
    if out {
        return true;
    }
    let mut k: usize = 0;
    while k < cells.len()
        invariant
            k <= cells@.len(),
            forall|j: int|
                0 <= j < k ==> !(blocks_fire((#[trigger] cells@[j]).kind) && inner(
                    p.rect,
                    cells@[j].rect,
                )),
        decreases cells@.len() - k,
    {
        let c = cells[k];
        if matches!(c.kind, CellKind::Wall)
            && crate::geometry::overlap_shifted(p.rect, 0, 0, c.rect, Overlap::Inner) {
            return true;
        }
        k = k + 1;
    }
    false
}

/// Whether a projectile strictly overlaps the rectangle `r`.
pub fn hits_rect_exec(p: Projectile, r: Rect) -> (b: bool)
    ensures
        b == hits_rect(p, r),
{
    crate::geometry::overlap_shifted(p.rect, 0, 0, r, Overlap::Inner)
}

/// Whether a projectile strictly overlaps any listed unit.
pub fn hits_any_exec(p: Projectile, opps: &Vec<Unit>) -> (b: bool)
    ensures
        b == hits_any(p, opps@),
{
    let mut k: usize = 0;
    while k < opps.len()
        invariant
            k <= opps@.len(),
            forall|j: int| 0 <= j < k ==> !hits_rect(p, (#[trigger] opps@[j]).rect),
        decreases opps@.len() - k,
    {
        if hits_rect_exec(p, opps[k].rect) {
            return true;
        }
        k = k + 1;
    }
    false
}

/// Builds the destroy mask of the player's projectiles.
pub fn build_pmask(shots: &Vec<Projectile>, cells: &Vec<Cell>, opps: &Vec<Unit>, pl: Rect) -> (m:
    Vec<bool>)
    ensures
        m@ == pmask(shots@, cells@, opps@, pl),
{
    let mut m: Vec<bool> = Vec::new();
    let mut i: usize = 0;
    while i < shots.len()
        invariant
            i <= shots@.len(),
            m@.len() == i,
            forall|j: int| 0 <= j < i ==> #[trigger] m@[j] == pmask(shots@, cells@, opps@, pl)[j],
        decreases shots@.len() - i,
    {
        let p = shots[i];
        let d = shot_gone_exec(p, cells) || hits_any_exec(p, opps) || hits_rect_exec(p, pl);
        m.push(d);
        i = i + 1;
    }
    proof {
        assert(m@ =~= pmask(shots@, cells@, opps@, pl));
    }
    m
}

/// Builds the destroy mask of a hostile projectile collection.
pub fn build_hmask(shots: &Vec<Projectile>, cells: &Vec<Cell>, pl: Rect) -> (m: Vec<bool>)
    ensures
        m@ == hmask(shots@, cells@, pl),
{
    let mut m: Vec<bool> = Vec::new();
    let mut i: usize = 0;
    while i < shots.len()
        invariant
            i <= shots@.len(),
            m@.len() == i,
            forall|j: int| 0 <= j < i ==> #[trigger] m@[j] == hmask(shots@, cells@, pl)[j],
        decreases shots@.len() - i,
    {
        let p = shots[i];
        let d = shot_gone_exec(p, cells) || hits_rect_exec(p, pl);
        m.push(d);
        i = i + 1;
    }
    proof {
        assert(m@ =~= hmask(shots@, cells@, pl));
    }
    m
}

/// Builds the mask of opponents struck by the given volley.
pub fn build_shotkill_mask(opps: &Vec<Unit>, shots: &Vec<Projectile>) -> (m: Vec<bool>)
    ensures
        m@ == shotkill_mask(opps@, shots@),
{
    let mut m: Vec<bool> = Vec::new();
    let mut k: usize = 0;
    while k < opps.len()
        invariant
            k <= opps@.len(),
            m@.len() == k,
            forall|j: int| 0 <= j < k ==> #[trigger] m@[j] == shotkill_mask(opps@, shots@)[j],
        decreases opps@.len() - k,
    {
        let target = opps[k].rect;
        let mut hit = false;
        let mut i: usize = 0;
        while i < shots.len()
            invariant
                i <= shots@.len(),
                hit == exists|j: int| 0 <= j < i && hits_rect(#[trigger] shots@[j], target),
            decreases shots@.len() - i,
        {
            if hits_rect_exec(shots[i], target) {
                hit = true;
            }
            i = i + 1;
        }
        m.push(hit);
        k = k + 1;
    }
    proof {
        assert(m@ =~= shotkill_mask(opps@, shots@));
    }
    m
}

/// Builds the mask of opponents touching another opponent or the player.
pub fn build_touch_mask(opps: &Vec<Unit>, pl: Rect) -> (m: Vec<bool>)
    ensures
        m@ == touch_mask(opps@, pl),
{
    let mut m: Vec<bool> = Vec::new();
    let mut k: usize = 0;
    while k < opps.len()
        invariant
            k <= opps@.len(),
            m@.len() == k,
            forall|j: int| 0 <= j < k ==> #[trigger] m@[j] == touch_mask(opps@, pl)[j],
        decreases opps@.len() - k,
    {
        let me = opps[k].rect;
        let mut t = crate::geometry::overlap_shifted(me, 0, 0, pl, Overlap::Inner);
        let mut j: usize = 0;
        while j < opps.len()
            invariant
                j <= opps@.len(),
                k < opps@.len(),
                me == opps@[k as int].rect,
                t == (inner(me, pl) || exists|q: int|
                    0 <= q < j && q != k && inner(me, (#[trigger] opps@[q]).rect)),
            decreases opps@.len() - j,
        {
            if j != k && crate::geometry::overlap_shifted(me, 0, 0, opps[j].rect, Overlap::Inner) {
                t = true;
            }
            j = j + 1;
        }
        m.push(t);
        k = k + 1;
    }
    proof {
        assert(m@ =~= touch_mask(opps@, pl));
    }
    m
}

/// The element-wise disjunction of two equally long masks.
pub fn or_masks(a: &Vec<bool>, b: &Vec<bool>) -> (m: Vec<bool>)
    requires
        a@.len() == b@.len(),
    ensures
        m@.len() == a@.len(),
        forall|j: int| 0 <= j < m@.len() ==> #[trigger] m@[j] == (a@[j] || b@[j]),
{
    let mut m: Vec<bool> = Vec::new();
    let mut i: usize = 0;
    while i < a.len()
        invariant
            i <= a@.len(),
            a@.len() == b@.len(),
            m@.len() == i,
            forall|j: int| 0 <= j < i ==> #[trigger] m@[j] == (a@[j] || b@[j]),
        decreases a@.len() - i,
    {
        m.push(a[i] || b[i]);
        i = i + 1;
    }
    m
}

/// Counts the projectiles of a collection that strike the rectangle `r`.
pub fn count_hits_exec(shots: &Vec<Projectile>, r: Rect) -> (c: usize)
    ensures
        c == count_hits_to(shots@, r, shots@.len() as int),
{
    let mut c: usize = 0;
    let mut i: usize = 0;
    while i < shots.len()
        invariant
            i <= shots@.len(),
            c == count_hits_to(shots@, r, i as int),
            c <= i,
        decreases shots@.len() - i,
    {
        if hits_rect_exec(shots[i], r) {
            c = c + 1;
        }
        i = i + 1;
    }
    c
}

/// Counts the opponents that touch the player.
pub fn count_touching_exec(opps: &Vec<Unit>, pl: Rect) -> (c: usize)
    ensures
        c == count_touching_to(opps@, pl, opps@.len() as int),
{
    let mut c: usize = 0;
    let mut k: usize = 0;
    while k < opps.len()
        invariant
            k <= opps@.len(),
            c == count_touching_to(opps@, pl, k as int),
            c <= k,
        decreases opps@.len() - k,
    {
        if crate::geometry::overlap_shifted(opps[k].rect, 0, 0, pl, Overlap::Inner) {
            c = c + 1;
        }
        k = k + 1;
    }
    c
}

/// Counts the set marks of a mask.
pub fn count_true_exec(m: &Vec<bool>) -> (c: usize)
    ensures
        c == count_true_to(m@, m@.len() as int),
{
    let mut c: usize = 0;
    let mut i: usize = 0;
    while i < m.len()
        invariant
            i <= m@.len(),
            c == count_true_to(m@, i as int),
            c <= i,
        decreases m@.len() - i,
    {
        if m[i] {
            c = c + 1;
        }
        i = i + 1;
    }
    c
}

/// Adds `n` to a counter, saturating instead of wrapping.
pub fn sat_add_exec(c: u32, n: usize) -> (r: u32)
    ensures
        r == sat_add(c, n as int),
{
    if (n as u64) <= u32::MAX as u64 && (c as u64) + (n as u64) <= u32::MAX as u64 {
        c + (n as u32)
    } else {
        u32::MAX
    }
}

/// Appends to the unowned pool the projectiles of every marked opponent, in
/// opponent order: a destroyed unit's in-flight projectiles are never
/// silently dropped.
pub fn transfer_dead(opps: &Vec<Unit>, dead: &Vec<bool>, unowned: &mut Vec<Projectile>)
    requires
        dead@.len() == opps@.len(),
    ensures
        final(unowned)@ == old(unowned)@ + shots_of_dead(opps@, dead@, opps@.len() as int),
{
    let ghost base = unowned@;
    let mut k: usize = 0;
    while k < opps.len()
        invariant
            k <= opps@.len(),
            dead@.len() == opps@.len(),
            unowned@ == base + shots_of_dead(opps@, dead@, k as int),
        decreases opps@.len() - k,
    {
        if dead[k] {
            let shots = &opps[k].shots;
            let mut i: usize = 0;
            while i < shots.len()
                invariant
                    k < opps@.len(),
                    i <= shots@.len(),
                    shots@ == opps@[k as int].shots@,
                    dead@.len() == opps@.len(),
                    dead@[k as int],
                    unowned@ == base + shots_of_dead(opps@, dead@, k as int) + shots@.take(i as int),
                decreases shots@.len() - i,
            {
                unowned.push(shots[i]);
                proof {
                    assert(shots@.take(i + 1) =~= shots@.take(i as int) + seq![shots@[i as int]]);
                    assert(unowned@ =~= base + shots_of_dead(opps@, dead@, k as int) + shots@.take(
                        i + 1,
                    ));
                }
                i = i + 1;
            }
            proof {
                assert(shots@.take(shots@.len() as int) =~= shots@);
                assert(unowned@ =~= base + shots_of_dead(opps@, dead@, k + 1));
            }
        } else {
            proof {
                assert(unowned@ =~= base + shots_of_dead(opps@, dead@, k + 1));
            }
        }
        k = k + 1;
    }
}

/// Applies `h` projectile or crash hits to the player: one life per hit
/// while lives remain; on the projectile path (`respawn`) a hit player is
/// also put back at its level-start position.
pub fn apply_hits(player: &mut Unit, h: usize, respawn: bool)
    ensures
        final(player).lives == drained(old(player).lives, h as int),
        h > 0 && respawn ==> final(player).rect == (Rect {
            x: old(player).spawn_x,
            y: old(player).spawn_y,
            ..old(player).rect
        }),
        h == 0 || !respawn ==> final(player).rect == old(player).rect,
        final(player).spawn_x == old(player).spawn_x,
        final(player).spawn_y == old(player).spawn_y,
        final(player).dir == old(player).dir,
        final(player).next_dir == old(player).next_dir,
        final(player).speed == old(player).speed,
        final(player).shot_speed == old(player).shot_speed,
        final(player).max_shots == old(player).max_shots,
        final(player).shots == old(player).shots,
        final(player).fire_dir == old(player).fire_dir,
        final(player).state == old(player).state,
{
    if h > 0 {
        if (h as u64) >= (player.lives as u64) {
            player.lives = 0;
        } else {
            player.lives = player.lives - (h as u32);
        }
        if respawn {
            player.rect.x = player.spawn_x;
            player.rect.y = player.spawn_y;
        }
    }
}

/// Culls one hostile projectile collection against the terrain and the
/// player, and reports how many of its projectiles struck the player.
pub fn cull_hostile(shots: &mut Vec<Projectile>, cells: &Vec<Cell>, pl: Rect) -> (hits: usize)
    ensures
        hits == count_hits_to(old(shots)@, pl, old(shots)@.len() as int),
        final(shots)@ == survivors(old(shots)@, hmask(old(shots)@, cells@, pl)),
{
    let hits = count_hits_exec(shots, pl);
    let m = build_hmask(shots, cells, pl);
    remove_marked(shots, &m);
    hits
}

} // verus!
