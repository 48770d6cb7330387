//! The session: the whole mutable simulation state, its invariants, level
//! creation, player intent entry points, state snapshots, and the per-tick
//! simulation driver that composes the movement, fire, motion, collision and
//! behavior passes.

use vstd::prelude::*;
use crate::geometry::{Dir, Rect};
use crate::terrain::{make_cells, wf_cells, Cell};
use crate::units::{
    in_field, unit_eq, wf_shot, wf_unit, BehaviorState, Projectile, Unit, UNIT_SIZE,
};
use crate::movement::{move_spec, resolve_move};
use crate::shots::{
    advance_shots, can_fire, lemma_spawn_within, moved_shot, same_but_fire, spawn_shot, try_fire,
    SPAWN_BOUND,
};
use crate::collision::{
    apply_hits, build_pmask, build_shotkill_mask, build_touch_mask, count_hits_exec,
    count_hits_to, count_touching_exec, count_touching_to, count_true_exec, count_true_to,
    cull_hostile, drained, hmask, lemma_drained_compose, lemma_shots_of_dead_sat, or_masks, pmask,
    sat_add, sat_add_exec, shotkill_mask, shots_of_dead, touch_mask, transfer_dead, vol_hits_to,
};
use crate::behavior::{behavior_step, fire_intent, state_step, Rolls};
use crate::removal::{
    lemma_tail_surv_len, lemma_tail_surv_rel, lemma_tail_surv_sat, remove_marked, survivors,
};

verus! {

/// Most opponents a level may hold.
pub const MAX_OPPONENTS: usize = 8;

/// The whole state of one running level. There is exactly one writer, the
/// tick, and the presentation layer only reads between ticks.
pub struct Session {
    pub cells: Vec<Cell>,
    pub player: Unit,
    pub opponents: Vec<Unit>,
    pub unowned: Vec<Projectile>,
    pub kills: u32,
    pub crashes: u32,
    pub paused: bool,
    pub terminal: bool,
    pub win: bool,
    pub rng: u64,
}

/// An opponent's behavior state carries a `Left` or `Up` emergence axis and
/// is never the player's `Manual` tag.
pub open spec fn wf_opp_state(s: BehaviorState) -> bool {
    match s {
        BehaviorState::Hidden(d) => d == Dir::Left || d == Dir::Up,
        BehaviorState::MovingToWait(d) => d == Dir::Left || d == Dir::Up,
        BehaviorState::Waiting(d) => d == Dir::Left || d == Dir::Up,
        BehaviorState::MovingToHide(d) => d == Dir::Left || d == Dir::Up,
        BehaviorState::Attacking => true,
        BehaviorState::Manual => false,
    }
}

/// A sound opponent: a sound unit in an automaton state whose projectiles
/// all still touch the field.
pub open spec fn wf_opp(u: Unit) -> bool {
    &&& wf_unit(u)
    &&& wf_opp_state(u.state)
    &&& crate::units::shots_in_field(u.shots@)
}

/// The session invariant, re-established by every tick: the fixed terrain
/// grid, a sound player and sound opponents, every projectile within its
/// owner's cap and still touching the field, and a win flag only ever set on
/// a terminal session.
pub open spec fn wf_session(s: Session) -> bool {
    &&& wf_cells(s.cells@)
    &&& wf_unit(s.player)
    &&& s.player.state == BehaviorState::Manual
    &&& crate::units::shots_in_field(s.player.shots@)
    &&& s.opponents@.len() <= MAX_OPPONENTS
    &&& forall|k: int| 0 <= k < s.opponents@.len() ==> wf_opp(#[trigger] s.opponents@[k])
    &&& forall|i: int| 0 <= i < s.unowned@.len() ==> wf_shot(#[trigger] s.unowned@[i])
    &&& forall|i: int| 0 <= i < s.unowned@.len() ==> in_field((#[trigger] s.unowned@[i]).rect)
    &&& s.win ==> s.terminal
}

/// One step of the linear congruential generator that drives every random
/// decision; the whole stream is fixed by the seed, which makes replays
/// reproducible.
pub open spec fn lcg(s: u64) -> u64 {
    ((6364136223846793005 * s + 1442695040888963407) % 0x10000000000000000) as u64
}

/// Four generator steps.
pub open spec fn lcg4(s: u64) -> u64 {
    lcg(lcg(lcg(lcg(s))))
}

/// The rolls one opponent consumes in one tick, drawn from four successive
/// generator values: emerge at one in five hundred, hide at one in a
/// thousand, attack at one in two hundred, and a fifty-fifty axis pick.
///
/// Each gate tests the generator's high half: the low bits of a power-of-two
/// linear congruential generator cycle through short fixed patterns (this
/// multiplier is divisible by five, so every raw output has the same residue
/// modulo five), and gating on them directly would never fire.
pub open spec fn spec_rolls(s: u64) -> Rolls {
    let r1 = lcg(s);
    let r2 = lcg(r1);
    let r3 = lcg(r2);
    let r4 = lcg(r3);
    Rolls {
        emerge: (r1 >> 32) % 500 == 0,
        hide: (r2 >> 32) % 1000 == 0,
        attack: (r3 >> 32) % 200 == 0,
        horiz: (r4 >> 32) % 2 == 0,
    }
}

/// One generator step.
pub fn rng_step(s: u64) -> (r: u64)
    ensures
        r == lcg(s),
{
    let wide: u128 = 6364136223846793005u128 * (s as u128) + 1442695040888963407u128;
    (wide % 0x10000000000000000u128) as u64
}

/// Draws one opponent's rolls, returning them with the advanced generator.
pub fn rolls_from(s: u64) -> (r: (Rolls, u64))
    ensures
        r.0 == spec_rolls(s),
        r.1 == lcg4(s),
{
    let r1 = rng_step(s);
    let r2 = rng_step(r1);
    let r3 = rng_step(r2);
    let r4 = rng_step(r3);
    let rolls = Rolls {
        emerge: (r1 >> 32) % 500 == 0,
        hide: (r2 >> 32) % 1000 == 0,
        attack: (r3 >> 32) % 200 == 0,
        horiz: (r4 >> 32) % 2 == 0,
    };
    (rolls, r4)
}

/// A unit as level creation leaves it: standing on its spawn, stopped, with
/// no projectile in flight and no pending fire direction.
pub open spec fn is_fresh_unit(
    u: Unit,
    x: i32,
    y: i32,
    lives: u32,
    max_shots: usize,
    state: BehaviorState,
) -> bool {
    &&& u.rect == (Rect { x: x, y: y, w: UNIT_SIZE, h: UNIT_SIZE })
    &&& u.spawn_x == x
    &&& u.spawn_y == y
    &&& u.dir == Dir::Stop
    &&& u.next_dir == Dir::Stop
    &&& u.speed == 4
    &&& u.lives == lives
    &&& u.shot_speed == 8
    &&& u.max_shots == max_shots
    &&& u.shots@ == Seq::<Projectile>::empty()
    &&& u.fire_dir == Dir::Stop
    &&& u.state == state
}

/// The state a fresh level starts in: the fixed terrain, the player at the
/// bottom center with three lives, two opponents hidden at the right edge
/// and one at the bottom, empty projectile pools, zeroed counters, cleared
/// flags, and the given random seed.
pub open spec fn is_initial(s: Session, seed: u64) -> bool {
    &&& wf_cells(s.cells@)
    &&& is_fresh_unit(s.player, 256, 384, 3, 3, BehaviorState::Manual)
    &&& s.opponents@.len() == 3
    &&& is_fresh_unit(s.opponents@[0], 480, 128, 1, 2, BehaviorState::Hidden(Dir::Left))
    &&& is_fresh_unit(s.opponents@[1], 480, 288, 1, 2, BehaviorState::Hidden(Dir::Left))
    &&& is_fresh_unit(s.opponents@[2], 96, 384, 1, 2, BehaviorState::Hidden(Dir::Up))
    &&& s.unowned@ == Seq::<Projectile>::empty()
    &&& s.kills == 0
    &&& s.crashes == 0
    &&& !s.paused
    &&& !s.terminal
    &&& !s.win
    &&& s.rng == seed
}

/// Builds one unit at its spawn position.
fn fresh_unit(x: i32, y: i32, lives: u32, max_shots: usize, state: BehaviorState) -> (u: Unit)
    ensures
        is_fresh_unit(u, x, y, lives, max_shots, state),
{
    Unit {
        rect: Rect { x: x, y: y, w: UNIT_SIZE, h: UNIT_SIZE },
        spawn_x: x,
        spawn_y: y,
        dir: Dir::Stop,
        next_dir: Dir::Stop,
        speed: 4,
        lives: lives,
        shot_speed: 8,
        max_shots: max_shots,
        shots: Vec::new(),
        fire_dir: Dir::Stop,
        state: state,
    }
}

/// Creates a fresh level. Callable at any time; restarting is building a
/// fresh session wholesale.
pub fn create_level(seed: u64) -> (s: Session)
    ensures
        is_initial(s, seed),
        wf_session(s),
{
    let cells = make_cells();
    let player = fresh_unit(256, 384, 3, 3, BehaviorState::Manual);
    let mut opponents: Vec<Unit> = Vec::new();
    opponents.push(fresh_unit(480, 128, 1, 2, BehaviorState::Hidden(Dir::Left)));
    opponents.push(fresh_unit(480, 288, 1, 2, BehaviorState::Hidden(Dir::Left)));
    opponents.push(fresh_unit(96, 384, 1, 2, BehaviorState::Hidden(Dir::Up)));
    Session {
        cells: cells,
        player: player,
        opponents: opponents,
        unowned: Vec::new(),
        kills: 0,
        crashes: 0,
        paused: false,
        terminal: false,
        win: false,
        rng: seed,
    }
}

/// A sound session never lets any unit hold more live projectiles than its
/// configured maximum; since `create_level` establishes the invariant and
/// every tick re-establishes it, this holds after any sequence of ticks.
pub proof fn lemma_shot_caps(s: Session)
    requires
        wf_session(s),
    ensures
        s.player.shots@.len() <= s.player.max_shots,
        forall|k: int|
            0 <= k < s.opponents@.len() ==> (#[trigger] s.opponents@[k]).shots@.len()
                <= s.opponents@[k].max_shots,
{
}

/// The volley a unit has in flight after the spawn and motion phases: its
/// projectiles, one more spawned if the fire gate passed, all advanced one
/// step of their own speed.
pub open spec fn flight_shots(u: Unit, cells: Seq<Cell>) -> Seq<Projectile> {
    let fired = if can_fire(u, cells) {
        u.shots@.push(spawn_shot(u))
    } else {
        u.shots@
    };
    Seq::new(fired.len(), |i: int| moved_shot(fired[i]))
}

/// The pending fire direction left after the spawn phase: consumed on a
/// successful shot, kept otherwise.
pub open spec fn after_fire_dir(u: Unit, cells: Seq<Cell>) -> Dir {
    if can_fire(u, cells) {
        Dir::Stop
    } else {
        u.fire_dir
    }
}

/// One post-movement opponent's volley after the collision pass culled it
/// against terrain and player.
pub open spec fn culled_volley(u: Unit, cells: Seq<Cell>, pl: Rect) -> Seq<Projectile> {
    survivors(flight_shots(u, cells), hmask(flight_shots(u, cells), cells, pl))
}

/// Strikes on the player by the in-flight volleys of the first `k`
/// post-movement opponents.
pub open spec fn flight_hits_to(opps: Seq<Unit>, cells: Seq<Cell>, pl: Rect, k: int) -> int
    decreases k,
{
    if k <= 0 {
        0
    } else {
        flight_hits_to(opps, cells, pl, k - 1) + count_hits_to(
            flight_shots(opps[k - 1], cells),
            pl,
            flight_shots(opps[k - 1], cells).len() as int,
        )
    }
}

/// What the unowned pool inherits this tick: the culled volleys of the
/// marked opponents among the first `k`, in opponent order.
pub open spec fn dead_volleys(
    opps: Seq<Unit>,
    cells: Seq<Cell>,
    pl: Rect,
    dead: Seq<bool>,
    k: int,
) -> Seq<Projectile>
    decreases k,
{
    if k <= 0 {
        Seq::empty()
    } else {
        dead_volleys(opps, cells, pl, dead, k - 1) + if dead[k - 1] {
            culled_volley(opps[k - 1], cells, pl)
        } else {
            Seq::empty()
        }
    }
}

/// One surviving opponent as the tick leaves it: `base` is its post-movement
/// self, `volley` its culled projectiles, and `roll_seed` the stream
/// position its behavior rolls were drawn from. The player stood at `pl`
/// during the behavior phase.
pub open spec fn opp_result(
    v: Unit,
    base: Unit,
    volley: Seq<Projectile>,
    pl: Rect,
    cells: Seq<Cell>,
    roll_seed: u64,
) -> bool {
    let st = state_step(base, pl, cells, spec_rolls(roll_seed));
    &&& v.state == st.0
    &&& v.next_dir == st.1
    &&& v.fire_dir == fire_intent(base.rect, pl)
    &&& v.rect == base.rect
    &&& v.spawn_x == base.spawn_x
    &&& v.spawn_y == base.spawn_y
    &&& v.dir == base.dir
    &&& v.speed == base.speed
    &&& v.lives == base.lives
    &&& v.shot_speed == base.shot_speed
    &&& v.max_shots == base.max_shots
    &&& v.shots@ == volley
}

/// Bridges the volley hit sum over actual units to the same sum over their
/// post-movement originals, when each unit's volley is its original's
/// in-flight volley.
proof fn lemma_flight_hits_bridge(a: Seq<Unit>, o1: Seq<Unit>, cells: Seq<Cell>, pl: Rect, k: int)
    requires
        a.len() == o1.len(),
        k <= a.len(),
        forall|q: int| 0 <= q < a.len() ==> (#[trigger] a[q]).shots@ == flight_shots(o1[q], cells),
    ensures
        vol_hits_to(a, pl, k) == flight_hits_to(o1, cells, pl, k),
    decreases k,
{
    if k > 0 {
        lemma_flight_hits_bridge(a, o1, cells, pl, k - 1);
    }
}

/// Bridges the transferred projectiles of actual units to the culled
/// volleys of their post-movement originals.
proof fn lemma_dead_volleys_bridge(
    a: Seq<Unit>,
    o1: Seq<Unit>,
    cells: Seq<Cell>,
    pl: Rect,
    dead: Seq<bool>,
    k: int,
)
    requires
        a.len() == o1.len(),
        k <= a.len(),
        forall|q: int| 0 <= q < a.len() ==> (#[trigger] a[q]).shots@ == culled_volley(o1[q], cells, pl),
    ensures
        shots_of_dead(a, dead, k) == dead_volleys(o1, cells, pl, dead, k),
    decreases k,
{
    if k > 0 {
        lemma_dead_volleys_bridge(a, o1, cells, pl, dead, k - 1);
    }
}

/// What one simulation step does, stated whole: `t` is the session a
/// non-paused, non-terminal session `s` becomes. Movement resolves first;
/// the spawn and motion phases leave every unit the volley `flight_shots`
/// gives; the collision pass scores kills from the player's volley, culls
/// every collection, drains a life per strike on the player (with a respawn
/// on the projectile path), marks touching opponents, counts crashes, hands
/// the dead opponents' surviving volleys to the unowned pool and removes
/// those opponents in order; the survivors then take one automaton step
/// each, drawing rolls from the shared stream; and the win/loss check sets
/// the flags from what is left.
pub open spec fn tick_rel(s: Session, t: Session) -> bool {
    let cells = s.cells@;
    let p1 = move_spec(s.player, cells, true);
    let o1 = Seq::new(s.opponents@.len(), |k: int| move_spec(s.opponents@[k], cells, false));
    let ps = flight_shots(p1, cells);
    let plr = p1.rect;
    let un1 = Seq::new(s.unowned@.len(), |i: int| moved_shot(s.unowned@[i]));
    let kill_mask = shotkill_mask(o1, ps);
    let volley_hits = count_hits_to(ps, plr, ps.len() as int) + count_hits_to(
        un1,
        plr,
        un1.len() as int,
    ) + flight_hits_to(o1, cells, plr, o1.len() as int);
    let r1 = if volley_hits > 0 {
        Rect { x: s.player.spawn_x, y: s.player.spawn_y, ..p1.rect }
    } else {
        p1.rect
    };
    let tmask = touch_mask(o1, r1);
    let lives2 = drained(
        drained(s.player.lives, volley_hits),
        count_touching_to(o1, r1, o1.len() as int),
    );
    let dead = Seq::new(o1.len(), |k: int| kill_mask[k] || tmask[k]);
    let so = survivors(o1, dead);
    let so_volleys = survivors(Seq::new(o1.len(), |k: int| culled_volley(o1[k], cells, plr)), dead);
    &&& t.cells@ == cells
    &&& t.paused == s.paused
    &&& t.kills == sat_add(s.kills, count_true_to(kill_mask, kill_mask.len() as int))
    &&& t.crashes == sat_add(s.crashes, count_true_to(tmask, tmask.len() as int))
    &&& t.player.rect == r1
    &&& t.player.lives == lives2
    &&& t.player.shots@ == survivors(ps, pmask(ps, cells, o1, plr))
    &&& t.player.fire_dir == after_fire_dir(p1, cells)
    &&& t.player.dir == p1.dir
    &&& t.player.next_dir == p1.next_dir
    &&& t.player.spawn_x == s.player.spawn_x
    &&& t.player.spawn_y == s.player.spawn_y
    &&& t.player.speed == s.player.speed
    &&& t.player.shot_speed == s.player.shot_speed
    &&& t.player.max_shots == s.player.max_shots
    &&& t.player.state == s.player.state
    &&& t.unowned@ == survivors(un1, hmask(un1, cells, plr)) + dead_volleys(
        o1,
        cells,
        plr,
        dead,
        o1.len() as int,
    )
    &&& t.opponents@.len() == so.len()
    &&& forall|j: int|
        0 <= j < so.len() ==> opp_result(
            #[trigger] t.opponents@[j],
            so[j],
            so_volleys[j],
            r1,
            cells,
            rng_at(s.rng, j),
        )
    &&& t.rng == rng_at(s.rng, so.len() as int)
    &&& t.terminal == (lives2 == 0 || so.len() == 0)
    &&& t.win == (so.len() == 0 && lives2 > 0)
}

/// Two units agree on everything but their projectile lists.
pub open spec fn unit_same_but_shots(a: Unit, b: Unit) -> bool {
    &&& a.rect == b.rect
    &&& a.spawn_x == b.spawn_x
    &&& a.spawn_y == b.spawn_y
    &&& a.dir == b.dir
    &&& a.next_dir == b.next_dir
    &&& a.speed == b.speed
    &&& a.lives == b.lives
    &&& a.shot_speed == b.shot_speed
    &&& a.max_shots == b.max_shots
    &&& a.fire_dir == b.fire_dir
    &&& a.state == b.state
}

/// Two units agree on every field the collision and behavior phases read:
/// everything but the projectile list and the pending fire direction.
pub open spec fn same_core(a: Unit, b: Unit) -> bool {
    &&& a.rect == b.rect
    &&& a.spawn_x == b.spawn_x
    &&& a.spawn_y == b.spawn_y
    &&& a.dir == b.dir
    &&& a.next_dir == b.next_dir
    &&& a.speed == b.speed
    &&& a.lives == b.lives
    &&& a.shot_speed == b.shot_speed
    &&& a.max_shots == b.max_shots
    &&& a.state == b.state
}

/// Two units agree on everything but lives and position: what absorbing
/// hits may change.
pub open spec fn unit_same_but_hit(a: Unit, b: Unit) -> bool {
    &&& a.spawn_x == b.spawn_x
    &&& a.spawn_y == b.spawn_y
    &&& a.dir == b.dir
    &&& a.next_dir == b.next_dir
    &&& a.speed == b.speed
    &&& a.shot_speed == b.shot_speed
    &&& a.max_shots == b.max_shots
    &&& a.shots == b.shots
    &&& a.fire_dir == b.fire_dir
    &&& a.state == b.state
    &&& a.rect.w == b.rect.w
    &&& a.rect.h == b.rect.h
}

/// An opponent as the movement, fire and motion phases leave it mid-tick:
/// sound, in an automaton state, with projectile coordinates bounded.
pub open spec fn wf_opp_loose(u: Unit, b: int) -> bool {
    &&& wf_unit(u)
    &&& wf_opp_state(u.state)
    &&& crate::units::shots_within(u.shots@, b)
}

/// Runs the movement phase for every opponent.
fn move_all(opps: &mut Vec<Unit>, cells: &Vec<Cell>)
    requires
        forall|k: int| 0 <= k < old(opps)@.len() ==> wf_opp(#[trigger] old(opps)@[k]),
    ensures
        final(opps)@.len() == old(opps)@.len(),
        forall|k: int|
            0 <= k < final(opps)@.len() ==> #[trigger] final(opps)@[k]
                == crate::movement::move_spec(old(opps)@[k], cells@, false),
        forall|k: int| 0 <= k < final(opps)@.len() ==> wf_opp(#[trigger] final(opps)@[k]),
{
    let ghost pre = opps@;
    let mut k: usize = 0;
    while k < opps.len()
        invariant
            k <= pre.len(),
            opps@.len() == pre.len(),
            forall|j: int| k <= j < pre.len() ==> #[trigger] opps@[j] == pre[j],
            forall|j: int|
                0 <= j < k ==> #[trigger] opps@[j] == crate::movement::move_spec(
                    pre[j],
                    cells@,
                    false,
                ),
            forall|j: int| 0 <= j < pre.len() ==> wf_opp(#[trigger] pre[j]),
            forall|j: int| 0 <= j < k ==> wf_opp(#[trigger] opps@[j]),
        decreases pre.len() - k,
    {
        let ghost snap = opps@;
        let mut u = opps.remove(k);
        resolve_move(&mut u, cells, false);
        opps.insert(k, u);
        proof {
            assert(opps@ =~= snap.update(k as int, opps@[k as int]));
        }
        k = k + 1;
    }
}

/// Runs the fire phase for every opponent.
fn fire_all(opps: &mut Vec<Unit>, cells: &Vec<Cell>)
    requires
        forall|k: int| 0 <= k < old(opps)@.len() ==> wf_opp(#[trigger] old(opps)@[k]),
    ensures
        final(opps)@.len() == old(opps)@.len(),
        forall|k: int|
            0 <= k < final(opps)@.len() ==> wf_opp_loose(
                #[trigger] final(opps)@[k],
                SPAWN_BOUND as int,
            ),
        forall|k: int|
            0 <= k < final(opps)@.len() && can_fire(old(opps)@[k], cells@) ==> {
                &&& (#[trigger] final(opps)@[k]).shots@ == old(opps)@[k].shots@.push(
                    spawn_shot(old(opps)@[k]),
                )
                &&& final(opps)@[k].fire_dir == Dir::Stop
                &&& same_but_fire(final(opps)@[k], old(opps)@[k])
            },
        forall|k: int|
            0 <= k < final(opps)@.len() && !can_fire(old(opps)@[k], cells@)
                ==> #[trigger] final(opps)@[k] == old(opps)@[k],
{
    let ghost pre = opps@;
    let mut k: usize = 0;
    while k < opps.len()
        invariant
            k <= pre.len(),
            opps@.len() == pre.len(),
            forall|j: int| k <= j < pre.len() ==> #[trigger] opps@[j] == pre[j],
            forall|j: int| 0 <= j < pre.len() ==> wf_opp(#[trigger] pre[j]),
            forall|j: int| 0 <= j < k ==> wf_opp_loose(#[trigger] opps@[j], SPAWN_BOUND as int),
            forall|j: int|
                0 <= j < k && can_fire(pre[j], cells@) ==> {
                    &&& (#[trigger] opps@[j]).shots@ == pre[j].shots@.push(spawn_shot(pre[j]))
                    &&& opps@[j].fire_dir == Dir::Stop
                    &&& same_but_fire(opps@[j], pre[j])
                },
            forall|j: int|
                0 <= j < k && !can_fire(pre[j], cells@) ==> #[trigger] opps@[j] == pre[j],
        decreases pre.len() - k,
    {
        let ghost snap = opps@;
        let mut u = opps.remove(k);
        proof {
            crate::units::lemma_in_field_within(u.shots@);
        }
        try_fire(&mut u, cells);
        proof {
            lemma_spawn_within(snap[k as int]);
            assert(wf_opp_loose(u, SPAWN_BOUND as int));
        }
        opps.insert(k, u);
        proof {
            assert(opps@ =~= snap.update(k as int, opps@[k as int]));
        }
        k = k + 1;
    }
}

/// Runs the motion phase for every opponent's projectiles.
fn advance_all(opps: &mut Vec<Unit>)
    requires
        forall|k: int|
            0 <= k < old(opps)@.len() ==> wf_opp_loose(#[trigger] old(opps)@[k], SPAWN_BOUND as int),
    ensures
        final(opps)@.len() == old(opps)@.len(),
        forall|k: int|
            0 <= k < final(opps)@.len() ==> wf_opp_loose(
                #[trigger] final(opps)@[k],
                SPAWN_BOUND as int + crate::units::MAX_SPEED as int,
            ),
        forall|k: int|
            0 <= k < final(opps)@.len() ==> unit_same_but_shots(
                #[trigger] final(opps)@[k],
                old(opps)@[k],
            ),
        forall|k: int|
            0 <= k < final(opps)@.len() ==> {
                &&& (#[trigger] final(opps)@[k]).shots@.len() == old(opps)@[k].shots@.len()
                &&& forall|i: int|
                    0 <= i < old(opps)@[k].shots@.len() ==> final(opps)@[k].shots@[i] == moved_shot(
                        #[trigger] old(opps)@[k].shots@[i],
                    )
            },
{
    let ghost pre = opps@;
    let mut k: usize = 0;
    while k < opps.len()
        invariant
            k <= pre.len(),
            opps@.len() == pre.len(),
            forall|j: int| k <= j < pre.len() ==> #[trigger] opps@[j] == pre[j],
            forall|j: int| 0 <= j < pre.len() ==> wf_opp_loose(#[trigger] pre[j], SPAWN_BOUND as int),
            forall|j: int|
                0 <= j < k ==> wf_opp_loose(
                    #[trigger] opps@[j],
                    SPAWN_BOUND as int + crate::units::MAX_SPEED as int,
                ),
            forall|j: int| 0 <= j < k ==> unit_same_but_shots(#[trigger] opps@[j], pre[j]),
            forall|j: int|
                0 <= j < k ==> {
                    &&& (#[trigger] opps@[j]).shots@.len() == pre[j].shots@.len()
                    &&& forall|i: int|
                        0 <= i < pre[j].shots@.len() ==> opps@[j].shots@[i] == moved_shot(
                            #[trigger] pre[j].shots@[i],
                        )
                },
        decreases pre.len() - k,
    {
        let ghost snap = opps@;
        let mut u = opps.remove(k);
        advance_shots(&mut u.shots);
        opps.insert(k, u);
        proof {
            assert(opps@ =~= snap.update(k as int, opps@[k as int]));
        }
        k = k + 1;
    }
}

/// Culls every opponent's projectiles against terrain and player, applying
/// each struck projectile to the player as a hit with respawn.
fn cull_all(opps: &mut Vec<Unit>, player: &mut Unit, cells: &Vec<Cell>, pl: Rect)
    requires
        wf_unit(*old(player)),
        forall|k: int|
            0 <= k < old(opps)@.len() ==> wf_opp_loose(
                #[trigger] old(opps)@[k],
                SPAWN_BOUND as int + crate::units::MAX_SPEED as int,
            ),
    ensures
        final(opps)@.len() == old(opps)@.len(),
        forall|k: int| 0 <= k < final(opps)@.len() ==> wf_opp(#[trigger] final(opps)@[k]),
        forall|k: int|
            0 <= k < final(opps)@.len() ==> unit_same_but_shots(
                #[trigger] final(opps)@[k],
                old(opps)@[k],
            ),
        forall|k: int|
            0 <= k < final(opps)@.len() ==> (#[trigger] final(opps)@[k]).shots@
                == crate::removal::survivors(
                old(opps)@[k].shots@,
                crate::collision::hmask(old(opps)@[k].shots@, cells@, pl),
            ),
        wf_unit(*final(player)),
        unit_same_but_hit(*final(player), *old(player)),
        final(player).lives <= old(player).lives,
        final(player).lives == crate::collision::drained(
            old(player).lives,
            crate::collision::vol_hits_to(old(opps)@, pl, old(opps)@.len() as int),
        ),
        final(player).rect == (if crate::collision::vol_hits_to(
            old(opps)@,
            pl,
            old(opps)@.len() as int,
        ) > 0 {
            Rect { x: old(player).spawn_x, y: old(player).spawn_y, ..old(player).rect }
        } else {
            old(player).rect
        }),
{
    let ghost pre = opps@;
    let ghost pp = *player;
    let mut k: usize = 0;
    while k < opps.len()
        invariant
            k <= pre.len(),
            opps@.len() == pre.len(),
            forall|j: int| k <= j < pre.len() ==> #[trigger] opps@[j] == pre[j],
            forall|j: int|
                0 <= j < pre.len() ==> wf_opp_loose(
                    #[trigger] pre[j],
                    SPAWN_BOUND as int + crate::units::MAX_SPEED as int,
                ),
            forall|j: int| 0 <= j < k ==> wf_opp(#[trigger] opps@[j]),
            forall|j: int| 0 <= j < k ==> unit_same_but_shots(#[trigger] opps@[j], pre[j]),
            forall|j: int|
                0 <= j < k ==> (#[trigger] opps@[j]).shots@ == crate::removal::survivors(
                    pre[j].shots@,
                    crate::collision::hmask(pre[j].shots@, cells@, pl),
                ),
            wf_unit(pp),
            wf_unit(*player),
            unit_same_but_hit(*player, pp),
            player.lives <= pp.lives,
            player.lives == crate::collision::drained(
                pp.lives,
                crate::collision::vol_hits_to(pre, pl, k as int),
            ),
            player.rect == (if crate::collision::vol_hits_to(pre, pl, k as int) > 0 {
                Rect { x: pp.spawn_x, y: pp.spawn_y, ..pp.rect }
            } else {
                pp.rect
            }),
        decreases pre.len() - k,
    {
        let ghost snap = opps@;
        let mut u = opps.remove(k);
        let h = cull_hostile(&mut u.shots, cells, pl);
        proof {
            lemma_tail_surv_len(
                snap[k as int].shots@,
                crate::collision::hmask(snap[k as int].shots@, cells@, pl),
                0,
            );
            lemma_tail_surv_sat(
                snap[k as int].shots@,
                crate::collision::hmask(snap[k as int].shots@, cells@, pl),
                0,
                |q: Projectile| wf_shot(q) && in_field(q.rect),
            );
        }
        opps.insert(k, u);
        apply_hits(player, h, true);
        proof {
            assert(opps@ =~= snap.update(k as int, opps@[k as int]));
            crate::collision::lemma_vol_hits_nonneg(pre, pl, k as int);
            crate::collision::lemma_count_hits_nonneg(
                pre[k as int].shots@,
                pl,
                pre[k as int].shots@.len() as int,
            );
            crate::collision::lemma_drained_compose(
                pp.lives,
                crate::collision::vol_hits_to(pre, pl, k as int),
                crate::collision::count_hits_to(
                    pre[k as int].shots@,
                    pl,
                    pre[k as int].shots@.len() as int,
                ),
            );
        }
        k = k + 1;
    }
}

/// The random stream position after `k` opponents have drawn their rolls.
pub open spec fn rng_at(s: u64, k: int) -> u64
    decreases k,
{
    if k <= 0 {
        s
    } else {
        lcg4(rng_at(s, k - 1))
    }
}

/// Runs the behavior phase for every opponent, each drawing its rolls from
/// the shared random stream; returns the advanced stream.
#[verifier::rlimit(60)]
fn behave_all(opps: &mut Vec<Unit>, pl: Rect, cells: &Vec<Cell>, rng: u64) -> (nr: u64)
    requires
        forall|k: int| 0 <= k < old(opps)@.len() ==> wf_opp(#[trigger] old(opps)@[k]),
    ensures
        final(opps)@.len() == old(opps)@.len(),
        forall|k: int|
            0 <= k < final(opps)@.len() ==> {
                let r = spec_rolls(rng_at(rng, k));
                let st = crate::behavior::state_step(old(opps)@[k], pl, cells@, r);
                &&& (#[trigger] final(opps)@[k]).state == st.0
                &&& final(opps)@[k].next_dir == st.1
                &&& final(opps)@[k].fire_dir == crate::behavior::fire_intent(old(opps)@[k].rect, pl)
                &&& crate::behavior::same_but_behavior(final(opps)@[k], old(opps)@[k])
            },
        forall|k: int| 0 <= k < final(opps)@.len() ==> wf_opp(#[trigger] final(opps)@[k]),
        nr == rng_at(rng, old(opps)@.len() as int),
{
    let ghost pre = opps@;
    let mut r: u64 = rng;
    let mut k: usize = 0;
    while k < opps.len()
        invariant
            k <= pre.len(),
            opps@.len() == pre.len(),
            r == rng_at(rng, k as int),
            forall|j: int| k <= j < pre.len() ==> #[trigger] opps@[j] == pre[j],
            forall|j: int| 0 <= j < pre.len() ==> wf_opp(#[trigger] pre[j]),
            forall|j: int|
                0 <= j < k ==> {
                    let rl = spec_rolls(rng_at(rng, j));
                    let st = crate::behavior::state_step(pre[j], pl, cells@, rl);
                    &&& (#[trigger] opps@[j]).state == st.0
                    &&& opps@[j].next_dir == st.1
                    &&& opps@[j].fire_dir == crate::behavior::fire_intent(pre[j].rect, pl)
                    &&& crate::behavior::same_but_behavior(opps@[j], pre[j])
                },
            forall|j: int| 0 <= j < k ==> wf_opp(#[trigger] opps@[j]),
        decreases pre.len() - k,
    {
        let ghost snap = opps@;
        let rolls = rolls_from(r);
        r = rolls.1;
        let mut u = opps.remove(k);
        proof {
            assert(wf_opp(pre[k as int]));
        }
        behavior_step(&mut u, pl, cells, rolls.0);
        proof {
            assert(wf_opp_state(u.state));
        }
        opps.insert(k, u);
        proof {
            assert(opps@ =~= snap.update(k as int, opps@[k as int]));
            assert(rng_at(rng, k + 1) == lcg4(rng_at(rng, k as int)));
        }
        k = k + 1;
    }
    r
}

/// Two sessions agree on everything the simulation observes: every
/// collection by content and every scalar by value. Two sessions in this
/// relation go through identical future ticks on identical inputs, since
/// every pass is a function of exactly this data.
pub open spec fn same_state(a: Session, b: Session) -> bool {
    &&& a.cells@ == b.cells@
    &&& unit_eq(a.player, b.player)
    &&& a.opponents@.len() == b.opponents@.len()
    &&& forall|k: int|
        0 <= k < a.opponents@.len() ==> unit_eq(
            #[trigger] a.opponents@[k],
            b.opponents@[k],
        )
    &&& a.unowned@ == b.unowned@
    &&& a.kills == b.kills
    &&& a.crashes == b.crashes
    &&& a.paused == b.paused
    &&& a.terminal == b.terminal
    &&& a.win == b.win
    &&& a.rng == b.rng
}

/// Copies a projectile list.
fn clone_shots(v: &Vec<Projectile>) -> (r: Vec<Projectile>)
    ensures
        r@ == v@,
{
    let mut r: Vec<Projectile> = Vec::new();
    let mut i: usize = 0;
    while i < v.len()
        invariant
            i <= v@.len(),
            r@ == v@.take(i as int),
        decreases v@.len() - i,
    {
        r.push(v[i]);
        proof {
            assert(r@ =~= v@.take(i + 1));
        }
        i = i + 1;
    }
    proof {
        assert(v@.take(v@.len() as int) =~= v@);
    }
    r
}

/// Copies the terrain grid.
fn clone_cells(v: &Vec<Cell>) -> (r: Vec<Cell>)
    ensures
        r@ == v@,
{
    let mut r: Vec<Cell> = Vec::new();
    let mut i: usize = 0;
    while i < v.len()
        invariant
            i <= v@.len(),
            r@ == v@.take(i as int),
        decreases v@.len() - i,
    {
        r.push(v[i]);
        proof {
            assert(r@ =~= v@.take(i + 1));
        }
        i = i + 1;
    }
    proof {
        assert(v@.take(v@.len() as int) =~= v@);
    }
    r
}

/// Copies one unit.
fn clone_unit(u: &Unit) -> (r: Unit)
    ensures
        unit_eq(r, *u),
{
    Unit {
        rect: u.rect,
        spawn_x: u.spawn_x,
        spawn_y: u.spawn_y,
        dir: u.dir,
        next_dir: u.next_dir,
        speed: u.speed,
        lives: u.lives,
        shot_speed: u.shot_speed,
        max_shots: u.max_shots,
        shots: clone_shots(&u.shots),
        fire_dir: u.fire_dir,
        state: u.state,
    }
}

/// Volley hit sums agree for opponent lists equal by content.
proof fn lemma_flight_hits_congruent(a: Seq<Unit>, b: Seq<Unit>, cells: Seq<Cell>, pl: Rect, k: int)
    requires
        a.len() == b.len(),
        k <= a.len(),
        forall|q: int|
            0 <= q < a.len() ==> flight_shots(#[trigger] a[q], cells) == flight_shots(b[q], cells),
    ensures
        flight_hits_to(a, cells, pl, k) == flight_hits_to(b, cells, pl, k),
    decreases k,
{
    if k > 0 {
        lemma_flight_hits_congruent(a, b, cells, pl, k - 1);
    }
}

/// Inherited volleys agree for opponent lists equal by content.
proof fn lemma_dead_volleys_congruent(
    a: Seq<Unit>,
    b: Seq<Unit>,
    cells: Seq<Cell>,
    pl: Rect,
    dead: Seq<bool>,
    k: int,
)
    requires
        a.len() == b.len(),
        k <= a.len(),
        forall|q: int|
            0 <= q < a.len() ==> flight_shots(#[trigger] a[q], cells) == flight_shots(b[q], cells),
    ensures
        dead_volleys(a, cells, pl, dead, k) == dead_volleys(b, cells, pl, dead, k),
    decreases k,
{
    if k > 0 {
        lemma_dead_volleys_congruent(a, b, cells, pl, dead, k - 1);
    }
}

/// One simulation step is deterministic: sessions equal in everything the
/// simulation observes — a session and its restored snapshot, for one —
/// remain equal in everything observable after a tick. This is what makes a
/// saved session replay identically on identical pending inputs.
pub proof fn lemma_tick_deterministic(s1: Session, s2: Session, t1: Session, t2: Session)
    requires
        same_state(s1, s2),
        tick_rel(s1, t1),
        tick_rel(s2, t2),
    ensures
        same_state(t1, t2),
{
    let cells = s1.cells@;
    let p1a = move_spec(s1.player, cells, true);
    let p1b = move_spec(s2.player, cells, true);
    crate::movement::lemma_move_spec_congruent(s1.player, s2.player, cells, true);
    let o1a = Seq::new(s1.opponents@.len(), |k: int| move_spec(s1.opponents@[k], cells, false));
    let o1b = Seq::new(s2.opponents@.len(), |k: int| move_spec(s2.opponents@[k], cells, false));
    assert forall|k: int| 0 <= k < o1a.len() implies unit_eq(#[trigger] o1a[k], o1b[k]) by {
        assert(unit_eq(s1.opponents@[k], s2.opponents@[k]));
        crate::movement::lemma_move_spec_congruent(
            s1.opponents@[k],
            s2.opponents@[k],
            cells,
            false,
        );
    }
    crate::shots::lemma_fire_congruent(p1a, p1b, cells);
    let psa = flight_shots(p1a, cells);
    let psb = flight_shots(p1b, cells);
    assert(psa =~= psb);
    assert forall|k: int|
        0 <= k < o1a.len() implies flight_shots(#[trigger] o1a[k], cells) == flight_shots(
        o1b[k],
        cells,
    ) by {
        crate::shots::lemma_fire_congruent(o1a[k], o1b[k], cells);
        assert(flight_shots(o1a[k], cells) =~= flight_shots(o1b[k], cells));
    }
    let plr = p1a.rect;
    crate::collision::lemma_masks_congruent(psa, cells, o1a, o1b, plr);
    let un1a = Seq::new(s1.unowned@.len(), |i: int| moved_shot(s1.unowned@[i]));
    let un1b = Seq::new(s2.unowned@.len(), |i: int| moved_shot(s2.unowned@[i]));
    assert(un1a =~= un1b);
    lemma_flight_hits_congruent(o1a, o1b, cells, plr, o1a.len() as int);
    let volley_hits = count_hits_to(psa, plr, psa.len() as int) + count_hits_to(
        un1a,
        plr,
        un1a.len() as int,
    ) + flight_hits_to(o1a, cells, plr, o1a.len() as int);
    let r1 = if volley_hits > 0 {
        Rect { x: s1.player.spawn_x, y: s1.player.spawn_y, ..p1a.rect }
    } else {
        p1a.rect
    };
    crate::collision::lemma_masks_congruent(psa, cells, o1a, o1b, r1);
    crate::collision::lemma_count_touching_congruent(o1a, o1b, r1, o1a.len() as int);
    let killm = shotkill_mask(o1a, psa);
    let tmg = touch_mask(o1a, r1);
    let dead = Seq::new(o1a.len(), |k: int| killm[k] || tmg[k]);
    assert(Seq::new(o1b.len(), |k: int| shotkill_mask(o1b, psb)[k] || touch_mask(o1b, r1)[k])
        =~= dead);
    lemma_dead_volleys_congruent(o1a, o1b, cells, plr, dead, o1a.len() as int);
    lemma_tail_surv_rel(o1a, o1b, dead, 0, |u: Unit, v: Unit| unit_eq(u, v));
    let volsa = Seq::new(o1a.len(), |k: int| culled_volley(o1a[k], cells, plr));
    let volsb = Seq::new(o1b.len(), |k: int| culled_volley(o1b[k], cells, plr));
    assert(volsa =~= volsb);
    let soa = survivors(o1a, dead);
    let sob = survivors(o1b, dead);
    let so_vols = survivors(volsa, dead);
    assert forall|j: int|
        0 <= j < t1.opponents@.len() implies unit_eq(
        #[trigger] t1.opponents@[j],
        t2.opponents@[j],
    ) by {
        assert(opp_result(t1.opponents@[j], soa[j], so_vols[j], r1, cells, rng_at(s1.rng, j)));
        assert(opp_result(t2.opponents@[j], sob[j], so_vols[j], r1, cells, rng_at(s1.rng, j)));
        assert(unit_eq(soa[j], sob[j]));
        crate::behavior::lemma_state_step_congruent(
            soa[j],
            sob[j],
            r1,
            cells,
            spec_rolls(rng_at(s1.rng, j)),
        );
    }
}

/// The session invariant carries across state agreement: it only ever
/// speaks of what `same_state` compares.
pub proof fn lemma_same_state_wf(a: Session, b: Session)
    requires
        same_state(a, b),
        wf_session(b),
    ensures
        wf_session(a),
{
}

impl Session {
    /// A snapshot of the whole session, for a save or replay feature:
    /// restoring it reproduces identical next-tick outcomes on identical
    /// pending inputs, because a tick is a function of exactly the state
    /// `same_state` compares.
    pub fn save(&self) -> (s: Session)
        ensures
            same_state(s, *self),
    {
        let mut opponents: Vec<Unit> = Vec::new();
        let mut k: usize = 0;
        while k < self.opponents.len()
            invariant
                k <= self.opponents@.len(),
                opponents@.len() == k,
                forall|j: int|
                    0 <= j < k ==> unit_eq(#[trigger] opponents@[j], self.opponents@[j]),
            decreases self.opponents@.len() - k,
        {
            opponents.push(clone_unit(&self.opponents[k]));
            k = k + 1;
        }
        Session {
            cells: clone_cells(&self.cells),
            player: clone_unit(&self.player),
            opponents: opponents,
            unowned: clone_shots(&self.unowned),
            kills: self.kills,
            crashes: self.crashes,
            paused: self.paused,
            terminal: self.terminal,
            win: self.win,
            rng: self.rng,
        }
    }

    /// Replaces this session with a saved one.
    pub fn restore(&mut self, saved: &Session)
        ensures
            same_state(*final(self), *saved),
    {
        *self = saved.save();
    }

    /// The terrain cell list.
    pub fn cells(&self) -> (r: &Vec<Cell>)
        ensures
            r == &self.cells,
    {
        &self.cells
    }

    /// The player unit.
    pub fn player(&self) -> (r: &Unit)
        ensures
            r == &self.player,
    {
        &self.player
    }

    /// The opponent list.
    pub fn opponents(&self) -> (r: &Vec<Unit>)
        ensures
            r == &self.opponents,
    {
        &self.opponents
    }

    /// The pool of projectiles whose firing unit has been destroyed.
    pub fn unowned(&self) -> (r: &Vec<Projectile>)
        ensures
            r == &self.unowned,
    {
        &self.unowned
    }

    /// How many opponents the player's fire has destroyed.
    pub fn kills(&self) -> (r: u32)
        ensures
            r == self.kills,
    {
        self.kills
    }

    /// How many opponents have been destroyed by collisions.
    pub fn crashes(&self) -> (r: u32)
        ensures
            r == self.crashes,
    {
        self.crashes
    }

    /// Whether the simulation is paused.
    pub fn paused(&self) -> (r: bool)
        ensures
            r == self.paused,
    {
        self.paused
    }

    /// Whether the session has ended.
    pub fn terminal(&self) -> (r: bool)
        ensures
            r == self.terminal,
    {
        self.terminal
    }

    /// Whether the session ended in a win.
    pub fn win(&self) -> (r: bool)
        ensures
            r == self.win,
    {
        self.win
    }

    /// Queues a movement direction for the player; sending the direction
    /// already queued toggles it off ("tap again to stop").
    pub fn queue_move(&mut self, d: Dir)
        ensures
            *final(self) == (Session {
                player: Unit {
                    next_dir: if old(self).player.next_dir == d {
                        Dir::Stop
                    } else {
                        d
                    },
                    ..old(self).player
                },
                ..*old(self)
            }),
    {
        if self.player.next_dir == d {
            self.player.next_dir = Dir::Stop;
        } else {
            self.player.next_dir = d;
        }
    }

    /// Sets the player's pending fire direction.
    pub fn set_fire(&mut self, d: Dir)
        ensures
            *final(self) == (Session {
                player: Unit { fire_dir: d, ..old(self).player },
                ..*old(self)
            }),
    {
        self.player.fire_dir = d;
    }

    /// Advances the simulation by one step: movement, then projectile
    /// spawning, then projectile motion, then collision resolution, then
    /// opponent behavior, then the win/loss check. A paused or terminal
    /// session is left untouched; any other becomes exactly the session
    /// `tick_rel` relates it to.
    #[verifier::rlimit(100)]
    pub fn tick(&mut self)
        requires
            wf_session(*old(self)),
        ensures
            wf_session(*final(self)),
            old(self).paused || old(self).terminal ==> *final(self) == *old(self),
            !(old(self).paused || old(self).terminal) ==> tick_rel(*old(self), *final(self)),
            !(old(self).paused || old(self).terminal) ==> {
                &&& final(self).cells == old(self).cells
                &&& final(self).paused == old(self).paused
                &&& final(self).terminal == (final(self).player.lives == 0
                    || final(self).opponents@.len() == 0)
                &&& final(self).win == (final(self).opponents@.len() == 0
                    && final(self).player.lives > 0)
                &&& final(self).player.max_shots == old(self).player.max_shots
                &&& final(self).rng == rng_at(old(self).rng, final(self).opponents@.len() as int)
            },
            final(self).opponents@.len() <= old(self).opponents@.len(),
            final(self).player.lives <= old(self).player.lives,
            final(self).kills >= old(self).kills,
            final(self).crashes >= old(self).crashes,
    {
        if self.paused || self.terminal {
            return;
        }
        let ghost cellsg = old(self).cells@;
        let ghost p1 = move_spec(old(self).player, cellsg, true);
        let ghost o1 = Seq::new(
            old(self).opponents@.len(),
            |k: int| move_spec(old(self).opponents@[k], cellsg, false),
        );
        // Movement.
        resolve_move(&mut self.player, &self.cells, true);
        move_all(&mut self.opponents, &self.cells);
        proof {
            assert(self.player == p1);
            assert(self.opponents@ =~= o1);
        }
        // Projectile spawning.
        proof {
            crate::units::lemma_in_field_within(self.player.shots@);
            lemma_spawn_within(self.player);
        }
        try_fire(&mut self.player, &self.cells);
        fire_all(&mut self.opponents, &self.cells);
        let ghost mid_ps = self.player.shots@;
        let ghost omid = self.opponents@;
        // Projectile motion.
        advance_shots(&mut self.player.shots);
        advance_all(&mut self.opponents);
        let ghost ps = flight_shots(p1, cellsg);
        proof {
            assert(self.player.shots@ =~= ps);
            assert(self.player.fire_dir == after_fire_dir(p1, cellsg));
            assert forall|k: int| 0 <= k < o1.len() implies (#[trigger] self.opponents@[k]).shots@
                == flight_shots(o1[k], cellsg) by {
                assert(self.opponents@[k].shots@ =~= flight_shots(o1[k], cellsg));
            }
            assert forall|k: int|
                0 <= k < o1.len() implies same_core(#[trigger] self.opponents@[k], o1[k]) by {
                assert(unit_same_but_shots(self.opponents@[k], omid[k]));
            }
        }
        proof {
            crate::units::lemma_in_field_within(self.unowned@);
        }
        advance_shots(&mut self.unowned);
        let ghost un1 = Seq::new(old(self).unowned@.len(), |i: int| moved_shot(old(self).unowned@[i]));
        proof {
            assert(self.unowned@ =~= un1);
        }
        // Collision: the player's volley scores kills and is culled.
        let pl_rect = self.player.rect;
        let ghost plr = p1.rect;
        let ghost killm = shotkill_mask(o1, ps);
        let kill_mask = build_shotkill_mask(&self.opponents, &self.player.shots);
        proof {
            crate::collision::lemma_masks_congruent(ps, cellsg, self.opponents@, o1, plr);
            assert(kill_mask@ == killm);
        }
        let kc = count_true_exec(&kill_mask);
        self.kills = sat_add_exec(self.kills, kc);
        let self_hits = count_hits_exec(&self.player.shots, pl_rect);
        let pm = build_pmask(&self.player.shots, &self.cells, &self.opponents, pl_rect);
        proof {
            assert(pm@ == pmask(ps, cellsg, o1, plr));
            lemma_tail_surv_len(self.player.shots@, pm@, 0);
            lemma_tail_surv_sat(
                self.player.shots@,
                pm@,
                0,
                |q: Projectile| wf_shot(q) && in_field(q.rect),
            );
        }
        remove_marked(&mut self.player.shots, &pm);
        apply_hits(&mut self.player, self_hits, true);
        // Collision: unowned projectiles.
        proof {
            lemma_tail_surv_len(self.unowned@, hmask(self.unowned@, self.cells@, pl_rect), 0);
            lemma_tail_surv_sat(
                self.unowned@,
                hmask(self.unowned@, self.cells@, pl_rect),
                0,
                |q: Projectile| wf_shot(q) && in_field(q.rect),
            );
        }
        let u_hits = cull_hostile(&mut self.unowned, &self.cells, pl_rect);
        apply_hits(&mut self.player, u_hits, true);
        proof {
            lemma_drained_compose(old(self).player.lives, self_hits as int, u_hits as int);
        }
        // Collision: each opponent's own projectiles.
        let ghost before_cull = *self;
        cull_all(&mut self.opponents, &mut self.player, &self.cells, pl_rect);
        let ghost fh = flight_hits_to(o1, cellsg, plr, o1.len() as int);
        let ghost volley_hits = count_hits_to(ps, plr, ps.len() as int) + count_hits_to(
            un1,
            plr,
            un1.len() as int,
        ) + fh;
        let ghost r1v = if volley_hits > 0 {
            Rect { x: old(self).player.spawn_x, y: old(self).player.spawn_y, ..p1.rect }
        } else {
            p1.rect
        };
        proof {
            lemma_flight_hits_bridge(
                before_cull.opponents@,
                o1,
                cellsg,
                plr,
                o1.len() as int,
            );
            crate::collision::lemma_vol_hits_nonneg(before_cull.opponents@, plr, o1.len() as int);
            lemma_drained_compose(
                old(self).player.lives,
                self_hits as int + u_hits as int,
                fh,
            );
            assert(self.player.lives == drained(old(self).player.lives, volley_hits));
            assert(self.player.rect == r1v);
            assert forall|k: int|
                0 <= k < o1.len() implies (#[trigger] self.opponents@[k]).shots@ == culled_volley(
                o1[k],
                cellsg,
                plr,
            ) by {
                assert(before_cull.opponents@[k].shots@ == flight_shots(o1[k], cellsg));
            }
            assert forall|k: int|
                0 <= k < o1.len() implies same_core(#[trigger] self.opponents@[k], o1[k]) by {
                assert(unit_same_but_shots(self.opponents@[k], before_cull.opponents@[k]));
            }
        }
        // Unit versus unit.
        let pl2 = self.player.rect;
        let ghost tmg = touch_mask(o1, r1v);
        let tmask = build_touch_mask(&self.opponents, pl2);
        proof {
            crate::collision::lemma_masks_congruent(ps, cellsg, self.opponents@, o1, r1v);
            assert(tmask@ == tmg);
        }
        let tc = count_true_exec(&tmask);
        self.crashes = sat_add_exec(self.crashes, tc);
        let ch = count_touching_exec(&self.opponents, pl2);
        proof {
            crate::collision::lemma_count_touching_congruent(
                self.opponents@,
                o1,
                r1v,
                o1.len() as int,
            );
        }
        apply_hits(&mut self.player, ch, false);
        // Dead opponents hand their projectiles to the unowned pool, then
        // leave, order preserved.
        let ghost deadg = Seq::new(o1.len(), |k: int| killm[k] || tmg[k]);
        let dead = or_masks(&kill_mask, &tmask);
        proof {
            assert(dead@ =~= deadg);
            lemma_shots_of_dead_sat(
                self.opponents@,
                dead@,
                self.opponents@.len() as int,
                |q: Projectile| wf_shot(q) && in_field(q.rect),
            );
            lemma_dead_volleys_bridge(
                self.opponents@,
                o1,
                cellsg,
                plr,
                deadg,
                o1.len() as int,
            );
        }
        transfer_dead(&self.opponents, &dead, &mut self.unowned);
        proof {
            lemma_tail_surv_len(self.opponents@, dead@, 0);
            lemma_tail_surv_sat(self.opponents@, dead@, 0, |u: Unit| wf_opp(u));
            lemma_tail_surv_rel(
                self.opponents@,
                o1,
                deadg,
                0,
                |u: Unit, v: Unit| same_core(u, v),
            );
            lemma_tail_surv_rel(
                self.opponents@,
                Seq::new(o1.len(), |k: int| culled_volley(o1[k], cellsg, plr)),
                deadg,
                0,
                |u: Unit, sq: Seq<Projectile>| u.shots@ == sq,
            );
        }
        remove_marked(&mut self.opponents, &dead);
        let ghost so = survivors(o1, deadg);
        let ghost so_vols = survivors(
            Seq::new(o1.len(), |k: int| culled_volley(o1[k], cellsg, plr)),
            deadg,
        );
        let ghost pre_b = self.opponents@;
        // Behavior.
        let nr = behave_all(&mut self.opponents, self.player.rect, &self.cells, self.rng);
        self.rng = nr;
        proof {
            assert forall|j: int|
                0 <= j < so.len() implies opp_result(
                #[trigger] self.opponents@[j],
                so[j],
                so_vols[j],
                r1v,
                cellsg,
                rng_at(old(self).rng, j),
            ) by {
                crate::behavior::lemma_state_step_congruent(
                    pre_b[j],
                    so[j],
                    r1v,
                    cellsg,
                    spec_rolls(rng_at(old(self).rng, j)),
                );
                assert(crate::behavior::same_but_behavior(self.opponents@[j], pre_b[j]));
            }
        }
        // Win/loss check.
        if self.player.lives == 0 {
            self.terminal = true;
            self.win = false;
        } else if self.opponents.len() == 0 {
            self.terminal = true;
            self.win = true;
        }
        proof {
            assert(tick_rel(*old(self), *self));
        }
    }

    /// Toggles the pause gate; a paused session's tick changes nothing.
    pub fn toggle_pause(&mut self)
        ensures
            *final(self) == (Session { paused: !old(self).paused, ..*old(self) }),
    {
        self.paused = !self.paused;
    }
}

} // verus!
