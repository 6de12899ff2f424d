use logo_process::{
    calc_average_color_in_rectangle, calc_average_color_in_triangle,
    calc_avg_color_of_grid, calc_remaining_area_ratio_in_grid,
    calc_remaining_area_ratio_in_rectangle, calc_remaining_area_ratio_in_triangle,
    genarate_canvas_grids_filled_with_rectanles, Color, PixelBuffer, Point, SampleError,
    RATIO_SCALE,
};

fn uniform_buffer(width: u32, height: u32, c: (u8, u8, u8, u8)) -> PixelBuffer {
    let mut data = Vec::new();
    for _ in 0..(width * height) {
        data.extend_from_slice(&[c.0, c.1, c.2, c.3]);
    }
    PixelBuffer::new(width, height, data).unwrap()
}

fn rect_points(x0: u32, y0: u32, x1: u32, y1: u32) -> Vec<Point> {
    vec![
        Point::new(x0, y0),
        Point::new(x1, y0),
        Point::new(x1, y1),
        Point::new(x0, y1),
    ]
}

#[test]
fn buffer_rejects_wrong_byte_count() {
    assert!(PixelBuffer::new(2, 2, vec![0; 16]).is_some());
    assert!(PixelBuffer::new(2, 2, vec![0; 15]).is_none());
    assert!(PixelBuffer::new(2, 2, vec![0; 17]).is_none());
}

#[test]
fn average_of_uniform_rectangle_is_exact() {
    let img = uniform_buffer(8, 6, (10, 20, 30, 255));
    let avg = calc_average_color_in_rectangle(&img, &rect_points(0, 0, 8, 6)).unwrap();
    assert_eq!(avg.to_rgba(), (10, 20, 30, 255));
}

#[test]
fn average_of_uniform_triangle_is_exact() {
    let img = uniform_buffer(8, 8, (200, 100, 50, 255));
    let tri = vec![Point::new(0, 0), Point::new(8, 0), Point::new(4, 8)];
    let avg = calc_average_color_in_triangle(&img, &tri).unwrap();
    assert_eq!(avg.to_rgba(), (200, 100, 50, 255));
}

#[test]
fn average_mixes_two_colors_with_truncation() {
    // A 2x1 image: one black and one white pixel; means truncate to 127.
    let data = vec![0, 0, 0, 255, 255, 255, 255, 255];
    let img = PixelBuffer::new(2, 1, data).unwrap();
    let avg = calc_average_color_in_rectangle(&img, &rect_points(0, 0, 2, 1)).unwrap();
    assert_eq!(avg.to_rgba(), (127, 127, 127, 255));
}

#[test]
fn degenerate_rectangle_is_an_empty_cell() {
    let img = uniform_buffer(4, 4, (0, 0, 0, 255));
    // Zero-width box: no qualifying pixel.
    let r = calc_average_color_in_rectangle(&img, &rect_points(2, 0, 2, 4));
    assert_eq!(r, Err(SampleError::EmptyCell));
    let ratio = calc_remaining_area_ratio_in_rectangle(
        &img,
        Color::from_rgb((0, 0, 0)),
        &rect_points(2, 0, 2, 4),
    );
    assert_eq!(ratio, Err(SampleError::EmptyCell));
}

#[test]
fn degenerate_triangle_is_an_empty_cell() {
    let img = uniform_buffer(4, 4, (0, 0, 0, 255));
    // All three vertices on one point: the sidedness test accepts at
    // most the pixels of an empty box.
    let tri = vec![Point::new(1, 1), Point::new(1, 1), Point::new(1, 1)];
    let r = calc_average_color_in_triangle(&img, &tri);
    assert_eq!(r, Err(SampleError::EmptyCell));
}

#[test]
fn remaining_ratio_of_pure_background_is_zero() {
    let img = uniform_buffer(6, 6, (255, 255, 255, 255));
    let bg = Color::from_rgb((255, 255, 255));
    let ratio = calc_remaining_area_ratio_in_rectangle(&img, bg, &rect_points(0, 0, 6, 6));
    assert_eq!(ratio, Ok(0));
}

#[test]
fn remaining_ratio_counts_far_pixels_exactly() {
    // A 4x1 strip: three white pixels, one black. The black pixel is
    // farther than the threshold, so the ratio is a quarter.
    let mut data = vec![255u8; 16];
    data[0] = 0;
    data[1] = 0;
    data[2] = 0;
    let img = PixelBuffer::new(4, 1, data).unwrap();
    let bg = Color::from_rgb((255, 255, 255));
    let ratio = calc_remaining_area_ratio_in_rectangle(&img, bg, &rect_points(0, 0, 4, 1));
    assert_eq!(ratio, Ok(RATIO_SCALE / 4));
}

#[test]
fn near_background_pixels_do_not_remain() {
    // Within the distance threshold of the background: eliminated.
    let mut data = vec![255u8; 16];
    data[0] = 250;
    let img = PixelBuffer::new(4, 1, data).unwrap();
    let bg = Color::from_rgb((255, 255, 255));
    let ratio = calc_remaining_area_ratio_in_rectangle(&img, bg, &rect_points(0, 0, 4, 1));
    assert_eq!(ratio, Ok(0));
}

#[test]
fn triangle_ratio_on_background_is_zero() {
    let img = uniform_buffer(8, 8, (255, 255, 255, 255));
    let bg = Color::from_rgb((255, 255, 255));
    let tri = vec![Point::new(0, 0), Point::new(8, 0), Point::new(4, 8)];
    let ratio = calc_remaining_area_ratio_in_triangle(&img, bg, &tri);
    assert_eq!(ratio, Ok(0));
}

#[test]
fn grid_dispatch_samples_by_shape() {
    let img = uniform_buffer(9, 9, (1, 2, 3, 4));
    let grids = genarate_canvas_grids_filled_with_rectanles(9, 9, 3, 3);
    for g in &grids {
        let avg = calc_avg_color_of_grid(&img, g).unwrap();
        assert_eq!(avg.to_rgba(), (1, 2, 3, 4));
        let ratio =
            calc_remaining_area_ratio_in_grid(&img, g, Color::from_rgb((1, 2, 3))).unwrap();
        assert_eq!(ratio, 0);
    }
}
