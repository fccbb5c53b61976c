use raytracer::cover::{cover_cells, cover_kind, make_cover, CoverKind, CELLS, DRAW_RANGE};

#[test]
fn kind_thresholds() {
    assert_eq!(cover_kind(0), CoverKind::Diffuse);
    assert_eq!(cover_kind(79), CoverKind::Diffuse);
    assert_eq!(cover_kind(80), CoverKind::Metal);
    assert_eq!(cover_kind(94), CoverKind::Metal);
    assert_eq!(cover_kind(95), CoverKind::Glass);
    assert_eq!(cover_kind(99), CoverKind::Glass);
}

#[test]
fn kind_shares_over_all_draws() {
    let mut counts = [0u32; 3];
    for d in 0..DRAW_RANGE {
        match cover_kind(d) {
            CoverKind::Diffuse => counts[0] += 1,
            CoverKind::Metal => counts[1] += 1,
            CoverKind::Glass => counts[2] += 1,
        }
    }
    assert_eq!(counts, [80, 15, 5]);
}

#[test]
fn cells_cover_the_grid_in_order() {
    let draws: Vec<u32> = (0..CELLS as u32).map(|k| k % 100).collect();
    let cells = cover_cells(&draws);
    assert_eq!(cells.len(), 484);
    assert_eq!((cells[0].a, cells[0].b), (-11, -11));
    assert_eq!((cells[1].a, cells[1].b), (-11, -10));
    assert_eq!((cells[22].a, cells[22].b), (-10, -11));
    assert_eq!((cells[483].a, cells[483].b), (10, 10));
    assert_eq!(cells[85].kind, CoverKind::Metal);
    assert_eq!(cells[96].kind, CoverKind::Glass);
    assert_eq!(cells[100].kind, CoverKind::Diffuse);
}

#[test]
fn make_cover_fills_every_cell() {
    let cells = make_cover();
    assert_eq!(cells.len(), CELLS);
    for (k, c) in cells.iter().enumerate() {
        assert_eq!(c.a, -11 + (k / 22) as i32);
        assert_eq!(c.b, -11 + (k % 22) as i32);
    }
}
