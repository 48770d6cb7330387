use crossfire::geometry::{Dir, Rect};
use crossfire::movement::{resolve_move, scan_blocked, scan_conveyor};
use crossfire::terrain::make_cells;
use crossfire::units::{BehaviorState, Unit};

fn unit_at(x: i32, y: i32, dir: Dir, next_dir: Dir) -> Unit {
    Unit {
        rect: Rect { x, y, w: 32, h: 32 },
        spawn_x: x,
        spawn_y: y,
        dir,
        next_dir,
        speed: 4,
        lives: 3,
        shot_speed: 8,
        max_shots: 3,
        shots: Vec::new(),
        fire_dir: Dir::Stop,
        state: BehaviorState::Manual,
    }
}

#[test]
fn wall_blocks_probe_at_contact() {
    let cells = make_cells();
    // Cell (1, 1) sits flush against the border wall on its left.
    let u = unit_at(32, 32, Dir::Stop, Dir::Stop);
    assert!(scan_blocked(&u, &cells, Dir::Left, true));
    assert!(!scan_blocked(&u, &cells, Dir::Right, true));
}

#[test]
fn pit_blocks_only_the_player() {
    let cells = make_cells();
    // Cell (3, 3) is a pit; a unit in cell (4, 3) probes left into it.
    let u = unit_at(128, 96, Dir::Stop, Dir::Stop);
    assert!(scan_blocked(&u, &cells, Dir::Left, true));
    assert!(!scan_blocked(&u, &cells, Dir::Left, false));
}

#[test]
fn reversal_always_permitted() {
    // At rest against the left border wall, moving left, with the opposite
    // direction queued: the next tick moves the unit right.
    let cells = make_cells();
    let mut u = unit_at(32, 384, Dir::Left, Dir::Right);
    resolve_move(&mut u, &cells, true);
    assert_eq!(u.dir, Dir::Right);
    assert_eq!(u.rect.x, 36);
    assert_eq!(u.rect.y, 384);
}

#[test]
fn blocked_adoption_is_a_full_stop() {
    let cells = make_cells();
    let mut u = unit_at(32, 32, Dir::Stop, Dir::Left);
    resolve_move(&mut u, &cells, true);
    assert_eq!(u.dir, Dir::Stop);
    assert_eq!(u.next_dir, Dir::Stop);
    assert_eq!(u.rect.x, 32);
    assert_eq!(u.rect.y, 32);
}

#[test]
fn free_adoption_moves_one_step() {
    let cells = make_cells();
    let mut u = unit_at(32, 32, Dir::Stop, Dir::Down);
    resolve_move(&mut u, &cells, true);
    assert_eq!(u.dir, Dir::Down);
    assert_eq!(u.rect.y, 36);
}

#[test]
fn conveyor_carries_the_player_past_a_queued_turn() {
    let cells = make_cells();
    // Cell (1, 7) is a conveyor; a queued non-reverse turn is not adopted
    // while slid, so the unit keeps its current direction.
    let mut u = unit_at(32, 224, Dir::Down, Dir::Right);
    assert!(scan_conveyor(&u, &cells));
    resolve_move(&mut u, &cells, true);
    assert_eq!(u.dir, Dir::Down);
    assert_eq!(u.next_dir, Dir::Right);
    assert_eq!(u.rect.y, 228);
}

#[test]
fn opponents_are_never_slid() {
    let cells = make_cells();
    let mut u = unit_at(32, 224, Dir::Down, Dir::Right);
    resolve_move(&mut u, &cells, false);
    assert_eq!(u.dir, Dir::Right);
}
