use crossfire::terrain::{cell_kind, make_cells, CellKind, CELL, GRID_H, GRID_W};

#[test]
fn grid_has_one_cell_per_position() {
    let cells = make_cells();
    assert_eq!(cells.len(), GRID_W * GRID_H);
    for (k, c) in cells.iter().enumerate() {
        let i = (k % GRID_W) as i32;
        let j = (k / GRID_W) as i32;
        assert_eq!(c.rect.x, CELL * i);
        assert_eq!(c.rect.y, CELL * j);
        assert_eq!(c.rect.w, CELL);
        assert_eq!(c.rect.h, CELL);
    }
}

#[test]
fn border_is_walled() {
    let cells = make_cells();
    for (k, c) in cells.iter().enumerate() {
        let i = k % GRID_W;
        let j = k / GRID_W;
        if i == 0 || j == 0 || i == GRID_W - 1 || j == GRID_H - 1 {
            assert_eq!(c.kind, CellKind::Wall);
        }
    }
}

#[test]
fn pattern_kinds() {
    assert_eq!(cell_kind(2, 2), CellKind::Wall);
    assert_eq!(cell_kind(1, 7), CellKind::Conveyor);
    assert_eq!(cell_kind(3, 3), CellKind::Pit);
    assert_eq!(cell_kind(8, 12), CellKind::Open);
    // The spawn cells are open.
    assert_eq!(cell_kind(15, 4), CellKind::Open);
    assert_eq!(cell_kind(15, 9), CellKind::Open);
    assert_eq!(cell_kind(3, 12), CellKind::Open);
}
