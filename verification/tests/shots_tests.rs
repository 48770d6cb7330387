use crossfire::geometry::{Dir, Rect};
use crossfire::shots::{advance_shots, try_fire};
use crossfire::terrain::make_cells;
use crossfire::units::{BehaviorState, Projectile, Unit};

fn gunner(x: i32, y: i32, fire_dir: Dir) -> Unit {
    Unit {
        rect: Rect { x, y, w: 32, h: 32 },
        spawn_x: x,
        spawn_y: y,
        dir: Dir::Stop,
        next_dir: Dir::Stop,
        speed: 4,
        lives: 3,
        shot_speed: 8,
        max_shots: 2,
        shots: Vec::new(),
        fire_dir,
        state: BehaviorState::Manual,
    }
}

#[test]
fn fire_spawns_beyond_edge_centered() {
    let cells = make_cells();
    let mut u = gunner(256, 384, Dir::Right);
    try_fire(&mut u, &cells);
    assert_eq!(u.shots.len(), 1);
    let p = u.shots[0];
    assert_eq!(p.rect.x, 288);
    assert_eq!(p.rect.y, 396);
    assert_eq!(p.rect.w, 8);
    assert_eq!(p.rect.h, 8);
    assert_eq!(p.dir, Dir::Right);
    assert_eq!(p.speed, 8);
    // One shot per command: the pending fire direction is consumed.
    assert_eq!(u.fire_dir, Dir::Stop);
}

#[test]
fn fire_into_wall_refused_and_intent_kept() {
    let cells = make_cells();
    // Flush against the left border wall: the fire probe overlaps it, so no
    // projectile appears and the pending direction stays set.
    let mut u = gunner(32, 384, Dir::Left);
    try_fire(&mut u, &cells);
    assert_eq!(u.shots.len(), 0);
    assert_eq!(u.fire_dir, Dir::Left);
}

#[test]
fn fire_without_intent_does_nothing() {
    let cells = make_cells();
    let mut u = gunner(256, 384, Dir::Stop);
    try_fire(&mut u, &cells);
    assert_eq!(u.shots.len(), 0);
}

#[test]
fn fire_respects_the_cap() {
    let cells = make_cells();
    let mut u = gunner(256, 384, Dir::Up);
    try_fire(&mut u, &cells);
    u.fire_dir = Dir::Up;
    try_fire(&mut u, &cells);
    assert_eq!(u.shots.len(), 2);
    u.fire_dir = Dir::Up;
    try_fire(&mut u, &cells);
    // The cap of two holds and the refused command stays pending.
    assert_eq!(u.shots.len(), 2);
    assert_eq!(u.fire_dir, Dir::Up);
}

#[test]
fn shots_advance_by_their_own_speed() {
    let mut shots = vec![
        Projectile { rect: Rect { x: 100, y: 100, w: 8, h: 8 }, dir: Dir::Right, speed: 8 },
        Projectile { rect: Rect { x: 100, y: 200, w: 8, h: 8 }, dir: Dir::Up, speed: 6 },
    ];
    advance_shots(&mut shots);
    assert_eq!(shots[0].rect.x, 108);
    assert_eq!(shots[0].rect.y, 100);
    assert_eq!(shots[1].rect.x, 100);
    assert_eq!(shots[1].rect.y, 194);
}
