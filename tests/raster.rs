use raytracer::raster::MathUtil;

#[test]
fn pixel_index_is_row_major() {
    assert_eq!(MathUtil::pixel_index(0, 0, 10), 0);
    assert_eq!(MathUtil::pixel_index(2, 3, 10), 32);
    assert_eq!(MathUtil::pixel_index(9, 0, 10), 9);
    assert_eq!(MathUtil::pixel_index(0, 1, 10), 10);
}

#[test]
fn pixel_grid_lists_rows_in_order() {
    let grid = MathUtil::pixel_grid(3, 2);
    assert_eq!(grid, vec![(0, 0), (1, 0), (2, 0), (0, 1), (1, 1), (2, 1)]);
}

#[test]
fn pixel_grid_of_empty_image() {
    assert!(MathUtil::pixel_grid(0, 5).is_empty());
    assert!(MathUtil::pixel_grid(5, 0).is_empty());
}

#[test]
fn pixel_grid_slots_match_index() {
    let (w, h) = (4u32, 3u32);
    let grid = MathUtil::pixel_grid(w, h);
    assert_eq!(grid.len(), 12);
    for (k, &(i, j)) in grid.iter().enumerate() {
        assert_eq!(MathUtil::pixel_index(i, j, w), k);
    }
}
