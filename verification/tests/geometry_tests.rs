use crossfire::geometry::{opposite, overlap, overlap_shifted, Dir, Overlap, Rect};

fn unit_square(x: i32, y: i32) -> Rect {
    Rect { x, y, w: 32, h: 32 }
}

#[test]
fn full_counts_edge_touch() {
    let a = unit_square(0, 0);
    let b = unit_square(32, 0);
    assert!(overlap(a, b, Overlap::Full));
    let c = unit_square(0, 32);
    assert!(overlap(a, c, Overlap::Full));
}

#[test]
fn inner_rejects_edge_touch() {
    let a = unit_square(0, 0);
    let b = unit_square(32, 0);
    assert!(!overlap(a, b, Overlap::Inner));
    let c = unit_square(31, 0);
    assert!(overlap(a, c, Overlap::Inner));
}

#[test]
fn directional_modes_admit_touch_only_on_their_edge() {
    // `b` sits flush to the left of `a`: only the Left probe counts it.
    let a = unit_square(32, 0);
    let b = unit_square(0, 0);
    assert!(overlap(a, b, Overlap::Left));
    assert!(!overlap(a, b, Overlap::Right));
    assert!(!overlap(a, b, Overlap::Up));
    assert!(!overlap(a, b, Overlap::Down));
}

#[test]
fn strict_overlap_reports_in_every_mode() {
    // Strict interior overlap is monotone across modes: every directional
    // mode and Full agree.
    let a = unit_square(0, 0);
    let b = unit_square(16, 8);
    for m in [
        Overlap::Full,
        Overlap::Inner,
        Overlap::Left,
        Overlap::Right,
        Overlap::Up,
        Overlap::Down,
    ] {
        assert!(overlap(a, b, m));
    }
}

#[test]
fn shifted_probe_matches_translation() {
    let a = unit_square(64, 64);
    let wall = unit_square(28, 64);
    // One step of 4 to the left brings `a`'s leading edge to the wall.
    assert!(overlap_shifted(a, -4, 0, wall, Overlap::Left));
    assert!(!overlap(a, wall, Overlap::Left));
}

#[test]
fn opposite_directions() {
    assert_eq!(opposite(Dir::Left), Dir::Right);
    assert_eq!(opposite(Dir::Right), Dir::Left);
    assert_eq!(opposite(Dir::Up), Dir::Down);
    assert_eq!(opposite(Dir::Down), Dir::Up);
    assert_eq!(opposite(Dir::Stop), Dir::Stop);
}
