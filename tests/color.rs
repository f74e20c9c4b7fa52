use raytracer::color::{write_color, write_header, write_image};

fn text(bytes: &[u8]) -> String {
    String::from_utf8(bytes.to_vec()).unwrap()
}

#[test]
fn color_line_full_and_zero() {
    let mut out = Vec::new();
    write_color(&mut out, 255, 0, 128);
    assert_eq!(text(&out), "255 0 128\n");
}

#[test]
fn color_line_single_and_double_digits() {
    let mut out = Vec::new();
    write_color(&mut out, 7, 42, 100);
    assert_eq!(text(&out), "7 42 100\n");
}

#[test]
fn color_line_appends() {
    let mut out = b"x".to_vec();
    write_color(&mut out, 1, 2, 3);
    write_color(&mut out, 10, 20, 30);
    assert_eq!(text(&out), "x1 2 3\n10 20 30\n");
}

#[test]
fn header_lines() {
    let mut out = Vec::new();
    write_header(&mut out, 100, 62);
    assert_eq!(text(&out), "P3\n100 62\n255\n");
}

#[test]
fn header_large_dimensions() {
    let mut out = Vec::new();
    write_header(&mut out, 4294967295, 1);
    assert_eq!(text(&out), "P3\n4294967295 1\n255\n");
}

#[test]
fn image_row_major_stream() {
    let pixels = vec![(0, 0, 0), (255, 255, 255), (1, 22, 133), (9, 10, 99)];
    let mut out = Vec::new();
    write_image(&mut out, 2, 2, &pixels);
    assert_eq!(
        text(&out),
        "P3\n2 2\n255\n0 0 0\n255 255 255\n1 22 133\n9 10 99\n"
    );
}

#[test]
fn image_without_pixels() {
    let mut out = Vec::new();
    write_image(&mut out, 0, 3, &Vec::new());
    assert_eq!(text(&out), "P3\n0 3\n255\n");
}

#[test]
fn image_streams_are_identical_for_identical_pixels() {
    let pixels: Vec<(u8, u8, u8)> = (0..12u32)
        .map(|k| ((k * 7) as u8, (k * 13) as u8, (255 - k) as u8))
        .collect();
    let mut a = Vec::new();
    let mut b = Vec::new();
    write_image(&mut a, 4, 3, &pixels);
    write_image(&mut b, 4, 3, &pixels);
    assert_eq!(a, b);
    assert_eq!(text(&a).lines().count(), 3 + 12);
}
