use crossfire::geometry::{Dir, Rect};
use crossfire::session::create_level;
use crossfire::units::Projectile;

#[test]
fn fresh_level_layout() {
    let s = create_level(7);
    assert_eq!(s.cells().len(), 17 * 14);
    assert_eq!(s.player().lives, 3);
    assert_eq!(s.player().rect.x, 256);
    assert_eq!(s.player().rect.y, 384);
    assert_eq!(s.opponents().len(), 3);
    assert_eq!(s.unowned().len(), 0);
    assert_eq!(s.kills(), 0);
    assert_eq!(s.crashes(), 0);
    assert!(!s.paused());
    assert!(!s.terminal());
    assert!(!s.win());
}

#[test]
fn paused_tick_changes_nothing() {
    let mut s = create_level(7);
    s.queue_move(Dir::Right);
    s.toggle_pause();
    assert!(s.paused());
    s.tick();
    assert_eq!(s.player().rect.x, 256);
    assert_eq!(s.player().next_dir, Dir::Right);
    s.toggle_pause();
    s.tick();
    assert_eq!(s.player().rect.x, 260);
}

#[test]
fn queue_move_toggles_off_on_repeat() {
    let mut s = create_level(7);
    s.queue_move(Dir::Right);
    assert_eq!(s.player().next_dir, Dir::Right);
    s.queue_move(Dir::Right);
    assert_eq!(s.player().next_dir, Dir::Stop);
    s.queue_move(Dir::Left);
    s.queue_move(Dir::Right);
    assert_eq!(s.player().next_dir, Dir::Right);
}

#[test]
fn player_volley_scores_a_kill() {
    let mut s = create_level(7);
    // A projectile of the player's, one step short of opponent two, who
    // stands hidden at (96, 384).
    s.player.shots.push(Projectile {
        rect: Rect { x: 82, y: 396, w: 8, h: 8 },
        dir: Dir::Right,
        speed: 8,
    });
    s.tick();
    assert_eq!(s.kills(), 1);
    assert_eq!(s.opponents().len(), 2);
    assert_eq!(s.player().shots.len(), 0);
}

#[test]
fn projectile_hit_costs_a_life_and_respawns() {
    let mut s = create_level(7);
    s.player.rect.x = 288;
    // An unowned projectile one step above the player's interior.
    s.unowned.push(Projectile {
        rect: Rect { x: 300, y: 380, w: 8, h: 8 },
        dir: Dir::Down,
        speed: 8,
    });
    s.tick();
    assert_eq!(s.player().lives, 2);
    // The projectile-path hit puts the player back at its spawn.
    assert_eq!(s.player().rect.x, 256);
    assert_eq!(s.player().rect.y, 384);
    assert_eq!(s.unowned().len(), 0);
    assert!(!s.terminal());
}

#[test]
fn losing_the_last_life_ends_in_a_loss() {
    let mut s = create_level(7);
    s.player.lives = 1;
    s.unowned.push(Projectile {
        rect: Rect { x: 268, y: 380, w: 8, h: 8 },
        dir: Dir::Down,
        speed: 8,
    });
    s.tick();
    assert_eq!(s.player().lives, 0);
    assert!(s.terminal());
    assert!(!s.win());
}

#[test]
fn clearing_the_opponents_ends_in_a_win() {
    let mut s = create_level(7);
    s.opponents.clear();
    s.tick();
    assert!(s.terminal());
    assert!(s.win());
}

#[test]
fn destroyed_opponents_projectiles_survive_in_the_pool() {
    let mut s = create_level(7);
    // Two opponents overlap: the crash destroys both, and the projectiles
    // they had in flight move to the unowned pool instead of vanishing.
    s.opponents[0].rect = Rect { x: 200, y: 200, w: 32, h: 32 };
    s.opponents[1].rect = Rect { x: 216, y: 200, w: 32, h: 32 };
    s.opponents[0].shots.push(Projectile {
        rect: Rect { x: 150, y: 150, w: 8, h: 8 },
        dir: Dir::Left,
        speed: 8,
    });
    s.opponents[1].shots.push(Projectile {
        rect: Rect { x: 170, y: 150, w: 8, h: 8 },
        dir: Dir::Right,
        speed: 8,
    });
    // A projectile that independently leaves the field the same tick is not
    // inherited by the pool.
    s.opponents[1].shots.push(Projectile {
        rect: Rect { x: 540, y: 150, w: 8, h: 8 },
        dir: Dir::Right,
        speed: 8,
    });
    s.tick();
    assert_eq!(s.crashes(), 2);
    assert_eq!(s.opponents().len(), 1);
    assert_eq!(s.unowned().len(), 2);
    // Next tick they are still live and moving.
    s.tick();
    assert_eq!(s.unowned().len(), 2);
    assert_eq!(s.unowned()[0].rect.x, 134);
    assert_eq!(s.unowned()[1].rect.x, 186);
}

#[test]
fn snapshot_replays_identically() {
    let mut s = create_level(12345);
    s.queue_move(Dir::Up);
    for _ in 0..40 {
        s.tick();
    }
    let mut saved = s.save();
    for _ in 0..100 {
        s.tick();
        saved.tick();
    }
    assert_eq!(s.player().rect.x, saved.player().rect.x);
    assert_eq!(s.player().rect.y, saved.player().rect.y);
    assert_eq!(s.player().lives, saved.player().lives);
    assert_eq!(s.opponents().len(), saved.opponents().len());
    for (a, b) in s.opponents().iter().zip(saved.opponents().iter()) {
        assert_eq!(a.rect.x, b.rect.x);
        assert_eq!(a.rect.y, b.rect.y);
        assert_eq!(a.state, b.state);
        assert_eq!(a.shots.len(), b.shots.len());
    }
    assert_eq!(s.unowned().len(), saved.unowned().len());
    assert_eq!(s.kills(), saved.kills());
    assert_eq!(s.crashes(), saved.crashes());
    assert_eq!(s.terminal(), saved.terminal());
}

#[test]
fn rolls_eventually_fire() {
    // With this seed the third opponent's emerge roll fires within the
    // first ten ticks: the automaton leaves `Hidden` at runtime.
    let mut s = create_level(42);
    for _ in 0..10 {
        s.tick();
    }
    assert!(!matches!(
        s.opponents()[2].state,
        crossfire::units::BehaviorState::Hidden(_)
    ));
}

#[test]
fn generator_steps_are_fixed_by_the_seed() {
    assert_eq!(crossfire::session::rng_step(0), 1442695040888963407);
    assert_eq!(
        crossfire::session::rng_step(1),
        6364136223846793005u64.wrapping_add(1442695040888963407)
    );
    let (a, ra) = crossfire::session::rolls_from(99);
    let (b, rb) = crossfire::session::rolls_from(99);
    assert_eq!(a, b);
    assert_eq!(ra, rb);
}

#[test]
fn restore_rewinds_a_session() {
    let mut s = create_level(99);
    let saved = s.save();
    s.queue_move(Dir::Left);
    for _ in 0..50 {
        s.tick();
    }
    s.restore(&saved);
    assert_eq!(s.player().rect.x, 256);
    assert_eq!(s.player().next_dir, Dir::Stop);
    assert_eq!(s.opponents().len(), 3);
}
