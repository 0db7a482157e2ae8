use raytracer::grid::PixelGrid;
use raytracer::ppm::{encode_ppm, ppm_header_bytes, push_pixel_line};

#[test]
fn header_of_default_image() {
    let h = ppm_header_bytes(PixelGrid::new(400, 225));
    assert_eq!(String::from_utf8(h).unwrap(), "P3\n400 225\n255\n");
}

#[test]
fn header_of_one_pixel_image() {
    let h = ppm_header_bytes(PixelGrid::new(1, 0));
    assert_eq!(String::from_utf8(h).unwrap(), "P3\n1 1\n255\n");
}

#[test]
fn pixel_lines_are_decimal() {
    let mut out = b"x".to_vec();
    push_pixel_line(&mut out, [255, 0, 17]);
    assert_eq!(String::from_utf8(out).unwrap(), "x255 0 17\n");
    let mut out = Vec::new();
    push_pixel_line(&mut out, [9, 10, 100]);
    assert_eq!(String::from_utf8(out).unwrap(), "9 10 100\n");
}

#[test]
fn whole_map_in_row_major_order() {
    let pixels = vec![[255, 255, 255], [0, 0, 0], [12, 34, 56], [200, 100, 7]];
    let bytes = encode_ppm(PixelGrid::new(2, 2), &pixels);
    assert_eq!(
        String::from_utf8(bytes).unwrap(),
        "P3\n2 2\n255\n255 255 255\n0 0 0\n12 34 56\n200 100 7\n"
    );
}

#[test]
fn large_dimensions_in_header() {
    let h = ppm_header_bytes(PixelGrid::new(4_294_967_295, 1));
    assert_eq!(String::from_utf8(h).unwrap(), "P3\n4294967295 1\n255\n");
}
