use logo_process::{
    genarate_canvas_grids_filled_with_rectanles, genarate_canvas_grids_filled_with_trianles,
    generate_enmty_canvas_grids, get_all_triangles_of_canvas,
    get_canvas_grids_filled_with_trianles, GridFillOptions, GridShape, Point,
};

fn pts(grid: &logo_process::Grid) -> Vec<(u32, u32)> {
    grid.points.iter().map(|p| (p.x, p.y)).collect()
}

#[test]
fn triangle_fixture_100x80_cell_50x40() {
    let grids = genarate_canvas_grids_filled_with_trianles(100, 80, 50, 40);
    let seqs: Vec<&str> = grids.iter().map(|g| g.seq.as_str()).collect();
    assert_eq!(seqs, vec!["R1D1", "R1D2", "R1U1", "R2D1", "R2U1", "R2U2"]);
    // Row 1: downward strip starts at x = 0 and 50.
    assert_eq!(pts(&grids[0]), vec![(0, 0), (50, 0), (25, 40)]);
    assert_eq!(pts(&grids[1]), vec![(50, 0), (100, 0), (75, 40)]);
    // Row 1: upward strip offset by half a width.
    assert_eq!(pts(&grids[2]), vec![(25, 40), (75, 40), (50, 0)]);
    // Row 2 starts the downward strip at the offset instead.
    assert_eq!(pts(&grids[3]), vec![(25, 40), (75, 40), (50, 80)]);
    assert_eq!(pts(&grids[4]), vec![(0, 80), (50, 80), (25, 40)]);
    assert_eq!(pts(&grids[5]), vec![(50, 80), (100, 80), (75, 40)]);
    for g in &grids {
        assert!(matches!(g.shape, GridShape::Triangle));
        assert_eq!(g.ext.avg_color, None);
        assert_eq!(g.ext.selected, None);
    }
}

#[test]
fn rectangle_grid_counts_and_order() {
    let grids = genarate_canvas_grids_filled_with_rectanles(100, 80, 30, 25);
    // 80 / 25 = 3 rows, 100 / 30 = 3 columns.
    assert_eq!(grids.len(), 9);
    let seqs: Vec<&str> = grids.iter().map(|g| g.seq.as_str()).collect();
    assert_eq!(
        seqs,
        vec!["R1C1", "R1C2", "R1C3", "R2C1", "R2C2", "R2C3", "R3C1", "R3C2", "R3C3"]
    );
    assert_eq!(pts(&grids[0]), vec![(0, 0), (30, 0), (30, 25), (0, 25)]);
    assert_eq!(pts(&grids[4]), vec![(30, 25), (60, 25), (60, 50), (30, 50)]);
    assert_eq!(pts(&grids[8]), vec![(60, 50), (90, 50), (90, 75), (60, 75)]);
    for g in &grids {
        assert!(matches!(g.shape, GridShape::Rectangle));
    }
}

#[test]
fn rectangle_grid_exact_tiling() {
    // 90 / 30 = 3 columns exactly, 80 / 40 = 2 rows exactly.
    let grids = genarate_canvas_grids_filled_with_rectanles(90, 80, 30, 40);
    assert_eq!(grids.len(), 6);
}

#[test]
fn oversized_cell_yields_no_grids() {
    // A cell taller than the canvas: zero rows.
    assert_eq!(genarate_canvas_grids_filled_with_rectanles(100, 80, 30, 100).len(), 0);
    // A cell wider than the canvas: rows exist but hold no cell.
    assert_eq!(genarate_canvas_grids_filled_with_rectanles(100, 80, 150, 20).len(), 0);
    assert_eq!(genarate_canvas_grids_filled_with_trianles(100, 80, 150, 20).len(), 0);
}

#[test]
fn partial_trailing_cells_are_dropped() {
    // 100 / 30 = 3 full cells; the 10-pixel remainder is dropped.
    let grids = genarate_canvas_grids_filled_with_rectanles(100, 30, 30, 30);
    assert_eq!(grids.len(), 3);
}

#[test]
fn generation_is_deterministic() {
    let a = genarate_canvas_grids_filled_with_trianles(321, 215, 17, 13);
    let b = genarate_canvas_grids_filled_with_trianles(321, 215, 17, 13);
    assert_eq!(a.len(), b.len());
    for (x, y) in a.iter().zip(b.iter()) {
        assert_eq!(x.seq, y.seq);
        assert_eq!(pts(x), pts(y));
    }
    let c = genarate_canvas_grids_filled_with_rectanles(321, 215, 17, 13);
    let d = genarate_canvas_grids_filled_with_rectanles(321, 215, 17, 13);
    assert_eq!(c, d);
}

#[test]
fn dispatch_matches_shape_generators() {
    let t1 = generate_enmty_canvas_grids(100, 80, GridFillOptions::Triangle(50, 40));
    let t2 = genarate_canvas_grids_filled_with_trianles(100, 80, 50, 40);
    assert_eq!(t1, t2);
    let r1 = generate_enmty_canvas_grids(100, 80, GridFillOptions::Rectangle(30, 25));
    let r2 = genarate_canvas_grids_filled_with_rectanles(100, 80, 30, 25);
    assert_eq!(r1, r2);
}

#[test]
fn front_end_names_agree() {
    let a = get_canvas_grids_filled_with_trianles(100, 80, 50, 40);
    let b = genarate_canvas_grids_filled_with_trianles(100, 80, 50, 40);
    assert_eq!(a, b);
    let triangles = get_all_triangles_of_canvas(100, 80, 50, 40);
    assert_eq!(triangles.len(), b.len());
    for (t, g) in triangles.iter().zip(b.iter()) {
        assert_eq!(t, &g.points);
    }
}

#[test]
fn point_new_sets_coordinates() {
    let p = Point::new(3, 4);
    assert_eq!((p.x, p.y), (3, 4));
}

#[test]
fn large_row_ids_use_full_decimal() {
    // 25 rows of rectangles: the last id must read R25C1.
    let grids = genarate_canvas_grids_filled_with_rectanles(10, 250, 10, 10);
    assert_eq!(grids.len(), 25);
    assert_eq!(grids.last().unwrap().seq, "R25C1");
}

#[test]
fn triangle_point_helpers_match_generator() {
    let down = logo_process::get_down_triangle_points(0, 0, 50, 40);
    assert_eq!(
        down.iter().map(|p| (p.x, p.y)).collect::<Vec<_>>(),
        vec![(0, 0), (50, 0), (25, 40)]
    );
    let up = logo_process::get_up_triangle_points(25, 40, 50, 40);
    assert_eq!(
        up.iter().map(|p| (p.x, p.y)).collect::<Vec<_>>(),
        vec![(25, 40), (75, 40), (50, 0)]
    );
}
