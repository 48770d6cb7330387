use crossfire::behavior::{behavior_step, fire_intent_exec, Rolls};
use crossfire::geometry::{Dir, Rect};
use crossfire::terrain::make_cells;
use crossfire::units::{BehaviorState, Unit};

fn opponent(x: i32, y: i32, state: BehaviorState) -> Unit {
    Unit {
        rect: Rect { x, y, w: 32, h: 32 },
        spawn_x: 480,
        spawn_y: 128,
        dir: Dir::Stop,
        next_dir: Dir::Stop,
        speed: 4,
        lives: 1,
        shot_speed: 8,
        max_shots: 2,
        shots: Vec::new(),
        fire_dir: Dir::Stop,
        state,
    }
}

const NO_ROLLS: Rolls = Rolls { emerge: false, hide: false, attack: false, horiz: false };

fn far_player() -> Rect {
    Rect { x: 256, y: 384, w: 32, h: 32 }
}

#[test]
fn hidden_emerges_on_a_successful_roll() {
    let cells = make_cells();
    let mut u = opponent(480, 128, BehaviorState::Hidden(Dir::Left));
    behavior_step(&mut u, far_player(), &cells, Rolls { emerge: true, ..NO_ROLLS });
    assert_eq!(u.state, BehaviorState::MovingToWait(Dir::Left));
    assert_eq!(u.next_dir, Dir::Left);
}

#[test]
fn hidden_stays_put_without_the_roll() {
    let cells = make_cells();
    let mut u = opponent(480, 128, BehaviorState::Hidden(Dir::Left));
    behavior_step(&mut u, far_player(), &cells, NO_ROLLS);
    assert_eq!(u.state, BehaviorState::Hidden(Dir::Left));
    assert_eq!(u.next_dir, Dir::Stop);
}

#[test]
fn moving_to_wait_stops_exactly_one_cell_out() {
    let cells = make_cells();
    let mut u = opponent(448, 128, BehaviorState::MovingToWait(Dir::Left));
    u.next_dir = Dir::Left;
    behavior_step(&mut u, far_player(), &cells, NO_ROLLS);
    assert_eq!(u.state, BehaviorState::Waiting(Dir::Left));
    assert_eq!(u.next_dir, Dir::Stop);
}

#[test]
fn waiting_retreats_on_the_hide_roll_and_hides_at_spawn() {
    let cells = make_cells();
    // The hide roll wins even when the attack roll fires too, and the
    // intent reverses the approach direction.
    let mut u = opponent(448, 128, BehaviorState::Waiting(Dir::Left));
    behavior_step(
        &mut u,
        far_player(),
        &cells,
        Rolls { hide: true, attack: true, ..NO_ROLLS },
    );
    assert_eq!(u.state, BehaviorState::MovingToHide(Dir::Left));
    assert_eq!(u.next_dir, Dir::Right);
    // Back exactly at its spawn coordinates it hides and clears intent.
    u.rect.x = 480;
    u.rect.y = 128;
    behavior_step(&mut u, far_player(), &cells, NO_ROLLS);
    assert_eq!(u.state, BehaviorState::Hidden(Dir::Left));
    assert_eq!(u.next_dir, Dir::Stop);
}

#[test]
fn moving_to_hide_keeps_walking_before_spawn() {
    let cells = make_cells();
    let mut u = opponent(456, 128, BehaviorState::MovingToHide(Dir::Left));
    u.next_dir = Dir::Right;
    behavior_step(&mut u, far_player(), &cells, NO_ROLLS);
    assert_eq!(u.state, BehaviorState::MovingToHide(Dir::Left));
    assert_eq!(u.next_dir, Dir::Right);
}

#[test]
fn waiting_attacks_toward_the_players_side() {
    let cells = make_cells();
    let mut u = opponent(448, 128, BehaviorState::Waiting(Dir::Left));
    behavior_step(&mut u, far_player(), &cells, Rolls { attack: true, ..NO_ROLLS });
    assert_eq!(u.state, BehaviorState::Attacking);
    // The player is to the left of the opponent.
    assert_eq!(u.next_dir, Dir::Left);
}

#[test]
fn attacker_closes_on_the_chosen_axis() {
    let cells = make_cells();
    // Cell (7, 4) is open; the player is below and to the left.
    let mut u = opponent(224, 128, BehaviorState::Attacking);
    behavior_step(&mut u, far_player(), &cells, Rolls { horiz: true, ..NO_ROLLS });
    assert_eq!(u.next_dir, Dir::Right);
    behavior_step(&mut u, far_player(), &cells, NO_ROLLS);
    assert_eq!(u.next_dir, Dir::Down);
}

#[test]
fn fire_intent_follows_alignment() {
    // Columns aligned: fire vertically toward the player.
    let u = Rect { x: 256, y: 128, w: 32, h: 32 };
    assert_eq!(fire_intent_exec(u, far_player()), Dir::Down);
    // Rows aligned: fire horizontally toward the player.
    let v = Rect { x: 448, y: 384, w: 32, h: 32 };
    assert_eq!(fire_intent_exec(v, far_player()), Dir::Left);
    // Neither: no fire intent.
    let w = Rect { x: 448, y: 128, w: 32, h: 32 };
    assert_eq!(fire_intent_exec(w, far_player()), Dir::Stop);
}
