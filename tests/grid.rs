use raytracer::grid::PixelGrid;

#[test]
fn zero_height_is_raised_to_one() {
    let g = PixelGrid::new(400, 0);
    assert_eq!(g.width, 400);
    assert_eq!(g.height, 1);
    assert_eq!(g.pixel_count(), 400);
}

#[test]
fn default_camera_grid_has_225_rows() {
    // 400 / (16 / 9) = 225
    let g = PixelGrid::new(400, 225);
    assert_eq!(g.height, 225);
    assert_eq!(g.pixel_count(), 90_000);
}

#[test]
fn index_and_coords_are_row_major() {
    let g = PixelGrid::new(4, 3);
    assert_eq!(g.index_of(0, 0), 0);
    assert_eq!(g.index_of(3, 0), 3);
    assert_eq!(g.index_of(0, 1), 4);
    assert_eq!(g.index_of(2, 2), 10);
    assert_eq!(g.coords_of(0), (0, 0));
    assert_eq!(g.coords_of(5), (1, 1));
    assert_eq!(g.coords_of(11), (3, 2));
}

#[test]
fn every_index_round_trips() {
    let g = PixelGrid::new(7, 5);
    for k in 0..g.pixel_count() {
        let (x, y) = g.coords_of(k);
        assert!(x < 7 && y < 5);
        assert_eq!(g.index_of(x, y), k);
    }
}

#[test]
fn zero_width_grid_has_no_pixels() {
    let g = PixelGrid::new(0, 0);
    assert_eq!(g.height, 1);
    assert_eq!(g.pixel_count(), 0);
}
