use logo_process::{
    build_pick_cmd, generate_canvas_grids_from_logo_image, pick_grids_by_strategy,
    pick_triangles_from_canvas, AvgColorCompareParam, Color, ColorParseError,
    EliminateBgColorParam, GridFillOptions, GridPickCmd, GridPickOptions, GridPickStrategy,
    PixelBuffer, Point, ShapePickStrategy, StrategyError, DEFAULT_MIN_REMAINING_RATIO,
};

fn uniform_buffer(width: u32, height: u32, c: (u8, u8, u8, u8)) -> PixelBuffer {
    let mut data = Vec::new();
    for _ in 0..(width * height) {
        data.extend_from_slice(&[c.0, c.1, c.2, c.3]);
    }
    PixelBuffer::new(width, height, data).unwrap()
}

/// A buffer whose left `split` columns are `left` and the rest `right`.
fn split_buffer(
    width: u32,
    height: u32,
    split: u32,
    left: (u8, u8, u8, u8),
    right: (u8, u8, u8, u8),
) -> PixelBuffer {
    let mut data = Vec::new();
    for _y in 0..height {
        for x in 0..width {
            let c = if x < split { left } else { right };
            data.extend_from_slice(&[c.0, c.1, c.2, c.3]);
        }
    }
    PixelBuffer::new(width, height, data).unwrap()
}

#[test]
fn avg_compare_selects_matching_cells() {
    let img = uniform_buffer(12, 12, (10, 20, 30, 255));
    let cmd = GridPickCmd::AvgColorCompare(AvgColorCompareParam {
        color: Color::from_rgb((10, 20, 30)),
        min_distance: 0,
        max_distance: 0,
    });
    let grids = generate_canvas_grids_from_logo_image(
        &img,
        GridFillOptions::Rectangle(4, 4),
        cmd,
    )
    .unwrap();
    assert_eq!(grids.len(), 9);
    for g in &grids {
        assert_eq!(g.ext.selected, Some(true));
        assert_eq!(g.ext.color_distance, Some(0));
        assert_eq!(g.ext.avg_color.unwrap().to_rgb(), (10, 20, 30));
        assert_eq!(g.ext.remaining_area_ratio, None);
    }
}

#[test]
fn avg_compare_rejects_distant_cells() {
    let img = uniform_buffer(12, 12, (255, 255, 255, 255));
    let cmd = GridPickCmd::AvgColorCompare(AvgColorCompareParam {
        color: Color::from_rgb((0, 0, 0)),
        min_distance: 0,
        max_distance: 50,
    });
    let grids = generate_canvas_grids_from_logo_image(
        &img,
        GridFillOptions::Rectangle(4, 4),
        cmd,
    )
    .unwrap();
    for g in &grids {
        // White against black is distance 100, outside [0, 50].
        assert_eq!(g.ext.selected, Some(false));
        assert_eq!(g.ext.color_distance, Some(100));
    }
}

#[test]
fn eliminate_background_on_pure_background_selects_nothing() {
    let bg = Color::from_rgba((255, 255, 255, 255));
    let img = uniform_buffer(20, 20, (255, 255, 255, 255));
    let cmd = GridPickCmd::EliminateBgColor(EliminateBgColorParam {
        color: bg,
        min_remaining_ratio: 1,
    });
    let grids = generate_canvas_grids_from_logo_image(
        &img,
        GridFillOptions::Triangle(10, 10),
        cmd,
    )
    .unwrap();
    assert!(grids.len() > 0);
    for g in &grids {
        assert_eq!(g.ext.selected, Some(false));
        assert_eq!(g.ext.remaining_area_ratio, Some(0));
    }
}

#[test]
fn eliminate_background_keeps_foreground_cells() {
    // Left half black on a white background.
    let img = split_buffer(20, 10, 10, (0, 0, 0, 255), (255, 255, 255, 255));
    let cmd = GridPickCmd::EliminateBgColor(EliminateBgColorParam {
        color: Color::from_rgb((255, 255, 255)),
        min_remaining_ratio: DEFAULT_MIN_REMAINING_RATIO,
    });
    let grids = generate_canvas_grids_from_logo_image(
        &img,
        GridFillOptions::Rectangle(10, 10),
        cmd,
    )
    .unwrap();
    assert_eq!(grids.len(), 2);
    assert_eq!(grids[0].ext.selected, Some(true));
    assert_eq!(grids[0].ext.remaining_area_ratio, Some(10000));
    assert_eq!(grids[1].ext.selected, Some(false));
    assert_eq!(grids[1].ext.remaining_area_ratio, Some(0));
}

#[test]
fn widening_max_distance_never_deselects() {
    // Two colors on one canvas give two distinct distances.
    let img = split_buffer(20, 10, 10, (120, 120, 120, 255), (250, 250, 250, 255));
    let target = Color::from_rgb((120, 120, 120));
    let counts: Vec<usize> = [10u32, 30, 60, 100]
        .iter()
        .map(|max| {
            let cmd = GridPickCmd::AvgColorCompare(AvgColorCompareParam {
                color: target,
                min_distance: 0,
                max_distance: *max,
            });
            let grids = generate_canvas_grids_from_logo_image(
                &img,
                GridFillOptions::Rectangle(5, 5),
                cmd,
            )
            .unwrap();
            grids.iter().filter(|g| g.ext.selected == Some(true)).count()
        })
        .collect();
    for w in counts.windows(2) {
        assert!(w[0] <= w[1]);
    }
    assert_eq!(counts[3], 8);
}

#[test]
fn pick_in_place_annotates_every_cell() {
    let img = uniform_buffer(8, 8, (9, 9, 9, 255));
    let mut grids = logo_process::generate_enmty_canvas_grids(
        8,
        8,
        GridFillOptions::Rectangle(4, 4),
    );
    let cmd = GridPickCmd::AvgColorCompare(AvgColorCompareParam {
        color: Color::from_rgb((9, 9, 9)),
        min_distance: 0,
        max_distance: 100,
    });
    pick_grids_by_strategy(&img, &mut grids, cmd).unwrap();
    assert_eq!(grids.len(), 4);
    for g in &grids {
        assert_eq!(g.ext.selected, Some(true));
    }
}

#[test]
fn build_pick_cmd_requires_target_color() {
    let options = GridPickOptions {
        color_distance_range: Some((0, 50)),
        remaining_ratio: None,
        target_color: None,
    };
    assert_eq!(
        build_pick_cmd(GridPickStrategy::AvgColorCompare, &options),
        Err(StrategyError::MissingTargetColor)
    );
}

#[test]
fn build_pick_cmd_rejects_malformed_target_color() {
    let options = GridPickOptions {
        color_distance_range: Some((0, 50)),
        remaining_ratio: None,
        target_color: Some("#XYZ123".to_string()),
    };
    assert_eq!(
        build_pick_cmd(GridPickStrategy::AvgColorCompare, &options),
        Err(StrategyError::InvalidTargetColor(ColorParseError::InvalidDigit))
    );
}

#[test]
fn build_pick_cmd_requires_distance_range() {
    let options = GridPickOptions {
        color_distance_range: None,
        remaining_ratio: None,
        target_color: Some("#112233".to_string()),
    };
    assert_eq!(
        build_pick_cmd(GridPickStrategy::AvgColorCompare, &options),
        Err(StrategyError::MissingDistanceRange)
    );
}

#[test]
fn build_pick_cmd_builds_avg_compare() {
    let options = GridPickOptions {
        color_distance_range: Some((5, 80)),
        remaining_ratio: None,
        target_color: Some("#112233".to_string()),
    };
    let cmd = build_pick_cmd(GridPickStrategy::AvgColorCompare, &options).unwrap();
    match cmd {
        GridPickCmd::AvgColorCompare(p) => {
            assert_eq!(p.color.to_rgb(), (0x11, 0x22, 0x33));
            assert_eq!(p.min_distance, 5);
            assert_eq!(p.max_distance, 80);
        }
        _ => panic!("wrong strategy"),
    }
}

#[test]
fn build_pick_cmd_defaults_background_elimination() {
    let options = GridPickOptions {
        color_distance_range: None,
        remaining_ratio: None,
        target_color: None,
    };
    let cmd = build_pick_cmd(GridPickStrategy::EliminateBgColor, &options).unwrap();
    match cmd {
        GridPickCmd::EliminateBgColor(p) => {
            assert_eq!(p.color.to_rgba(), (255, 255, 255, 255));
            assert_eq!(p.min_remaining_ratio, DEFAULT_MIN_REMAINING_RATIO);
        }
        _ => panic!("wrong strategy"),
    }
    let explicit = GridPickOptions {
        color_distance_range: None,
        remaining_ratio: Some(2500),
        target_color: None,
    };
    match build_pick_cmd(GridPickStrategy::EliminateBgColor, &explicit).unwrap() {
        GridPickCmd::EliminateBgColor(p) => assert_eq!(p.min_remaining_ratio, 2500),
        _ => panic!("wrong strategy"),
    }
}

#[test]
fn pick_triangles_keeps_matching_shapes_in_order() {
    // Left half dark, right half light; two triangles per half.
    let img = split_buffer(20, 10, 10, (0, 0, 0, 255), (255, 255, 255, 255));
    let triangles = vec![
        vec![Point::new(0, 0), Point::new(10, 0), Point::new(5, 10)],
        vec![Point::new(10, 0), Point::new(20, 0), Point::new(15, 10)],
    ];
    let strategy = ShapePickStrategy::AvgColorCompare(AvgColorCompareParam {
        color: Color::from_rgb((0, 0, 0)),
        min_distance: 0,
        max_distance: 10,
    });
    let picked = pick_triangles_from_canvas(triangles.clone(), &img, strategy).unwrap();
    assert_eq!(picked.len(), 1);
    assert_eq!(picked[0], triangles[0]);
}
