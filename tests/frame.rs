use raytracer::frame::{canvas_from_pixels, Frame};
use raytracer::grid::PixelGrid;

#[test]
fn new_frame_is_black_with_grid_dimensions() {
    let frame = Frame::new(PixelGrid::new(3, 2));
    assert!(!frame.is_complete());
    let canvas = frame.into_canvas();
    assert_eq!(canvas.image.width(), 3);
    assert_eq!(canvas.image.height(), 2);
    for y in 0..2 {
        for x in 0..3 {
            assert_eq!(canvas.image.get_pixel(x, y).0, [0, 0, 0]);
        }
    }
}

#[test]
fn frame_visits_pixels_top_to_bottom_left_to_right() {
    let mut frame = Frame::new(PixelGrid::new(2, 2));
    let mut order = Vec::new();
    while let Some(p) = frame.next_pixel() {
        order.push(p);
        frame.write_next([1, 2, 3]);
    }
    assert_eq!(order, vec![(0, 0), (1, 0), (0, 1), (1, 1)]);
    assert!(frame.is_complete());
    assert_eq!(frame.next_pixel(), None);
}

#[test]
fn written_pixels_land_at_their_coordinates() {
    let mut frame = Frame::new(PixelGrid::new(3, 2));
    frame.write_next([255, 0, 0]);
    frame.write_next([0, 255, 0]);
    frame.write_next([0, 0, 255]);
    frame.write_next([9, 8, 7]);
    assert_eq!(frame.next_pixel(), Some((1, 1)));
    let canvas = frame.into_canvas();
    assert_eq!(canvas.image.get_pixel(0, 0).0, [255, 0, 0]);
    assert_eq!(canvas.image.get_pixel(1, 0).0, [0, 255, 0]);
    assert_eq!(canvas.image.get_pixel(2, 0).0, [0, 0, 255]);
    assert_eq!(canvas.image.get_pixel(0, 1).0, [9, 8, 7]);
    assert_eq!(canvas.image.get_pixel(1, 1).0, [0, 0, 0]);
}

#[test]
fn canvas_from_pixels_keeps_row_major_order() {
    let grid = PixelGrid::new(2, 3);
    let colors: Vec<[u8; 3]> = (0..6u8).map(|i| [i, 10 * i, 255 - i]).collect();
    let canvas = canvas_from_pixels(grid, &colors);
    assert_eq!(canvas.image.dimensions(), (2, 3));
    assert_eq!(canvas.image.as_raw().len(), 18);
    for (k, c) in colors.iter().enumerate() {
        let x = (k % 2) as u32;
        let y = (k / 2) as u32;
        assert_eq!(&canvas.image.get_pixel(x, y).0, c);
    }
}

#[test]
fn single_pixel_frame() {
    let grid = PixelGrid::new(1, 0);
    let canvas = canvas_from_pixels(grid, &vec![[128, 64, 32]]);
    assert_eq!(canvas.image.dimensions(), (1, 1));
    assert_eq!(canvas.image.get_pixel(0, 0).0, [128, 64, 32]);
}

#[test]
fn zero_width_frame_is_complete_at_once() {
    let frame = Frame::new(PixelGrid::new(0, 5));
    assert!(frame.is_complete());
    assert_eq!(frame.next_pixel(), None);
    let canvas = frame.into_canvas();
    assert_eq!(canvas.image.dimensions(), (0, 5));
}
