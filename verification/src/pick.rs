//! Selection: applying a strategy to sampled cells, the full
//! generate-sample-select pipeline, and the validation that turns loose
//! request parameters into a strategy.

use vstd::prelude::*;
use crate::buffer::PixelBuffer;
use crate::canvas::{
    fill_options_valid, generate_enmty_canvas_grids, generated_grids_spec,
    lemma_generated_grids_fit,
};
use crate::color::{Color, parse_color_spec};
use crate::geometry::Point;
use crate::model::{
    AvgColorCompareParam, EliminateBgColorParam, Grid, GridExt, GridFillOptions, GridPickCmd,
    GridPickOptions, GridPickStrategy, GridView, SampleError, ShapePickStrategy, StrategyError,
    grid_in_canvas, grid_views, grid_wf,
};
use crate::sampler::{
    RATIO_SCALE, calc_average_color_in_triangle, calc_avg_color_of_grid,
    calc_remaining_area_ratio_in_grid, grid_avg_color, grid_ratio, grid_stat,
    lemma_remaining_of_uniform_background, triangle_stat,
};
use crate::utils::{calc_color_distance, color_distance_spec};

verus! {

/// The default minimum remaining ratio when a request leaves it out:
/// one tenth, in `1 / RATIO_SCALE` units.
pub const DEFAULT_MIN_REMAINING_RATIO: u32 = 1000;

/// AvgColorCompare selects a cell when the distance lies within
/// `[min_distance, max_distance]` inclusive.
pub open spec fn avg_selected(d: int, p: AvgColorCompareParam) -> bool {
    p.min_distance <= d <= p.max_distance
}

/// EliminateBgColor selects a cell when the remaining ratio reaches
/// `min_remaining_ratio`.
pub open spec fn ratio_selected(ratio: int, p: EliminateBgColorParam) -> bool {
    ratio >= p.min_remaining_ratio
}

/// The distance between a cell's average color and the target color.
pub open spec fn grid_target_distance(buf: PixelBuffer, g: GridView, target: Color) -> int {
    let avg = grid_avg_color(buf, g);
    color_distance_spec((avg.r, avg.g, avg.b), (target.r, target.g, target.b))
}

/// The cell after the strategy ran: sampling fills the strategy's
/// scalar, selection fills `selected`; every other field is kept.
pub open spec fn annotate_grid_spec(buf: PixelBuffer, g: GridView, cmd: GridPickCmd) -> GridView {
    match cmd {
        GridPickCmd::AvgColorCompare(p) => {
            let avg = grid_avg_color(buf, g);
            let d = grid_target_distance(buf, g, p.color);
            GridView {
                ext: GridExt {
                    avg_color: Some(avg),
                    color_distance: Some(d as u32),
                    selected: Some(avg_selected(d, p)),
                    ..g.ext
                },
                ..g
            }
        }
        GridPickCmd::EliminateBgColor(p) => {
            let ratio = grid_ratio(buf, g, p.color);
            GridView {
                ext: GridExt {
                    remaining_area_ratio: Some(ratio as u32),
                    selected: Some(ratio_selected(ratio, p)),
                    ..g.ext
                },
                ..g
            }
        }
    }
}

/// Annotates one cell: samples what the strategy needs, stores the
/// scalar and the verdict. Fails exactly when the cell covers no pixel.
fn pick_one_grid(img: &PixelBuffer, grid: &Grid, cmd: GridPickCmd) -> (r: Result<
    Grid,
    SampleError,
>)
    requires
        img.wf(),
        grid_wf(grid@),
        grid_in_canvas(grid@, img.width as int, img.height as int),
    ensures
        r is Ok <==> grid_stat(*img, grid@).count > 0,
        r is Err ==> r == Err::<Grid, SampleError>(SampleError::EmptyCell),
        r is Ok ==> r->Ok_0@ == annotate_grid_spec(*img, grid@, cmd),
{
    let mut annotated = Grid {
        seq: grid.seq.clone(),
        shape: grid.shape,
        points: grid.points.clone(),
        ext: grid.ext,
    };
    proof {
        assert(annotated.points@ =~= grid.points@);
        assert(annotated@ == grid@);
    }
    match cmd {
        GridPickCmd::AvgColorCompare(param) => {
            let avg = match calc_avg_color_of_grid(img, &annotated) {
                Ok(c) => c,
                Err(e) => { return Err(e); },
            };
            annotated.ext.avg_color = Some(avg);
            let distance = calc_color_distance(avg.to_rgb(), param.color.to_rgb());
            annotated.ext.color_distance = Some(distance);
            let selected = distance >= param.min_distance && distance <= param.max_distance;
            annotated.ext.selected = Some(selected);
            Ok(annotated)
        }
        GridPickCmd::EliminateBgColor(param) => {
            let ratio = match calc_remaining_area_ratio_in_grid(img, &annotated, param.color) {
                Ok(v) => v,
                Err(e) => { return Err(e); },
            };
            annotated.ext.remaining_area_ratio = Some(ratio);
            let selected = ratio >= param.min_remaining_ratio;
            annotated.ext.selected = Some(selected);
            Ok(annotated)
        }
    }
}

/// Annotates every cell in order with the strategy's scalar and
/// verdict. Fails, leaving `grids` unchanged, exactly when some cell
/// covers no pixel; no partial result is returned.
pub fn pick_grids_by_strategy(
    img: &PixelBuffer,
    grids: &mut Vec<Grid>,
    pick_strategy: GridPickCmd,
) -> (r: Result<(), SampleError>)
    requires
        img.wf(),
        forall|i: int| 0 <= i < old(grids)@.len() ==> grid_wf((#[trigger] old(grids)@[i])@)
            && grid_in_canvas(old(grids)@[i]@, img.width as int, img.height as int),
    ensures
        r is Err <==> exists|i: int| 0 <= i < old(grids)@.len() && grid_stat(
            *img,
            (#[trigger] old(grids)@[i])@,
        ).count == 0,
        r is Err ==> *final(grids) == *old(grids) && r == Err::<(), SampleError>(
            SampleError::EmptyCell,
        ),
        r is Ok ==> final(grids)@.len() == old(grids)@.len() && forall|i: int|
            0 <= i < old(grids)@.len() ==> (#[trigger] final(grids)@[i])@ == annotate_grid_spec(
                *img,
                old(grids)@[i]@,
                pick_strategy,
            ),
{
    let mut annotated: Vec<Grid> = Vec::new();
    let mut i: usize = 0;
    while i < grids.len()
        invariant
            img.wf(),
            *grids == *old(grids),
            forall|j: int| 0 <= j < grids@.len() ==> grid_wf((#[trigger] grids@[j])@)
                && grid_in_canvas(grids@[j]@, img.width as int, img.height as int),
            i <= grids@.len(),
            annotated@.len() == i,
            forall|j: int| 0 <= j < i ==> grid_stat(*img, (#[trigger] grids@[j])@).count > 0,
            forall|j: int| 0 <= j < i ==> (#[trigger] annotated@[j])@ == annotate_grid_spec(
                *img,
                grids@[j]@,
                pick_strategy,
            ),
        decreases grids@.len() - i,
    {
        let g = match pick_one_grid(img, &grids[i], pick_strategy) {
            Ok(g) => g,
            Err(e) => {
                proof {
                    crate::sampler::lemma_grid_stat_nonneg(*img, old(grids)@[i as int]@);
                    assert(grid_stat(*img, old(grids)@[i as int]@).count == 0);
                }
                return Err(e);
            },
        };
        annotated.push(g);
        i = i + 1;
    }
    *grids = annotated;
    Ok(())
}

/// The full pipeline on a decoded source image: derive the canvas from
/// the buffer dimensions, generate the cells, sample each one as the
/// strategy requires, and select. Never drops a cell; fails, returning
/// no partial result, exactly when some generated cell covers no pixel.
pub fn generate_canvas_grids_from_logo_image(
    img: &PixelBuffer,
    fill_options: GridFillOptions,
    pick_strategy: GridPickCmd,
) -> (r: Result<Vec<Grid>, SampleError>)
    requires
        img.wf(),
        fill_options_valid(fill_options),
    ensures
        ({
            let cells = generated_grids_spec(img.width as int, img.height as int, fill_options);
            &&& r is Err <==> exists|i: int| 0 <= i < cells.len() && grid_stat(
                *img,
                #[trigger] cells[i],
            ).count == 0
            &&& r is Err ==> r == Err::<Vec<Grid>, SampleError>(SampleError::EmptyCell)
            &&& r is Ok ==> r->Ok_0@.len() == cells.len() && forall|i: int|
                0 <= i < cells.len() ==> (#[trigger] r->Ok_0@[i])@ == annotate_grid_spec(
                    *img,
                    cells[i],
                    pick_strategy,
                )
        }),
{
    let canvas_width = img.width;
    let canvas_height = img.height;
    let mut grids = generate_enmty_canvas_grids(canvas_width, canvas_height, fill_options);
    proof {
        lemma_generated_grids_fit(img.width as int, img.height as int, fill_options);
        assert(forall|i: int| 0 <= i < grids@.len() ==> (#[trigger] grids@[i])@ == grid_views(
            grids@,
        )[i]);
    }
    match pick_grids_by_strategy(img, &mut grids, pick_strategy) {
        Ok(()) => Ok(grids),
        Err(e) => Err(e),
    }
}


/// What `build_pick_cmd` returns on any input, in full: each required
/// parameter is validated before any sampling work begins, and the
/// background-elimination strategy defaults to a white background and
/// `DEFAULT_MIN_REMAINING_RATIO`.
pub open spec fn build_pick_cmd_spec(
    strategy: GridPickStrategy,
    options: GridPickOptions,
) -> Result<GridPickCmd, StrategyError> {
    match strategy {
        GridPickStrategy::AvgColorCompare => {
            if options.target_color is None {
                Err(StrategyError::MissingTargetColor)
            } else {
                match parse_color_spec((options.target_color->0)@) {
                    Err(e) => Err(StrategyError::InvalidTargetColor(e)),
                    Ok(c) => {
                        if options.color_distance_range is None {
                            Err(StrategyError::MissingDistanceRange)
                        } else {
                            Ok(GridPickCmd::AvgColorCompare(AvgColorCompareParam {
                                color: c,
                                min_distance: (options.color_distance_range->0).0 as u32,
                                max_distance: (options.color_distance_range->0).1 as u32,
                            }))
                        }
                    }
                }
            }
        }
        GridPickStrategy::EliminateBgColor => Ok(GridPickCmd::EliminateBgColor(
            EliminateBgColorParam {
                color: Color { r: 255, g: 255, b: 255, a: 255 },
                min_remaining_ratio: if options.remaining_ratio is Some {
                    options.remaining_ratio->0
                } else {
                    DEFAULT_MIN_REMAINING_RATIO
                },
            },
        )),
    }
}

/// Turns the loose request-boundary parameters into a validated
/// strategy, once, at the edge.
pub fn build_pick_cmd(strategy: GridPickStrategy, options: &GridPickOptions) -> (r: Result<
    GridPickCmd,
    StrategyError,
>)
    ensures
        r == build_pick_cmd_spec(strategy, *options),
{
    match strategy {
        GridPickStrategy::AvgColorCompare => {
            let color_str = match &options.target_color {
                Some(s) => s,
                None => { return Err(StrategyError::MissingTargetColor); },
            };
            let color = match Color::parse(color_str.as_str()) {
                Ok(c) => c,
                Err(e) => { return Err(StrategyError::InvalidTargetColor(e)); },
            };
            let range = match options.color_distance_range {
                Some(r) => r,
                None => { return Err(StrategyError::MissingDistanceRange); },
            };
            Ok(GridPickCmd::AvgColorCompare(AvgColorCompareParam {
                color,
                min_distance: range.0 as u32,
                max_distance: range.1 as u32,
            }))
        }
        GridPickStrategy::EliminateBgColor => {
            let min_remaining_ratio = match options.remaining_ratio {
                Some(v) => v,
                None => DEFAULT_MIN_REMAINING_RATIO,
            };
            Ok(GridPickCmd::EliminateBgColor(EliminateBgColorParam {
                color: Color { r: 255, g: 255, b: 255, a: 255 },
                min_remaining_ratio,
            }))
        }
    }
}

/// Whether a bare triangle is selected by average-color comparison.
pub open spec fn triangle_selected(buf: PixelBuffer, t: Seq<Point>, p: AvgColorCompareParam) -> bool {
    let avg = crate::sampler::stat_avg_color(triangle_stat(buf, t));
    avg_selected(
        color_distance_spec((avg.r, avg.g, avg.b), (p.color.r, p.color.g, p.color.b)),
        p,
    )
}

/// The subsequence of triangles the average-color strategy keeps, in
/// generation order.
pub open spec fn picked_triangles_spec(
    buf: PixelBuffer,
    ts: Seq<Seq<Point>>,
    p: AvgColorCompareParam,
) -> Seq<Seq<Point>>
    decreases ts.len(),
{
    if ts.len() == 0 {
        Seq::empty()
    } else {
        picked_triangles_spec(buf, ts.drop_last(), p) + if triangle_selected(
            buf,
            ts.last(),
            p,
        ) {
            seq![ts.last()]
        } else {
            Seq::empty()
        }
    }
}

/// The vertex lists as mathematical sequences.
pub open spec fn point_lists(ts: Seq<Vec<Point>>) -> Seq<Seq<Point>> {
    ts.map_values(|v: Vec<Point>| v@)
}

/// Every list holds three vertices that lie on the `w x h` canvas.
pub open spec fn triangles_wf(ts: Seq<Vec<Point>>, w: int, h: int) -> bool {
    forall|i: int| 0 <= i < ts.len() ==> (#[trigger] ts[i])@.len() == 3 && (forall|j: int|
        0 <= j < ts[i]@.len() ==> (#[trigger] ts[i]@[j]).x <= w && ts[i]@[j].y <= h)
}

/// Keeps exactly the triangles whose average color lies within the
/// strategy's distance range of the target color, in order. Fails,
/// with no partial result, exactly when some triangle covers no pixel.
pub fn pick_triangles_from_canvas(
    triangles: Vec<Vec<Point>>,
    img: &PixelBuffer,
    strategy: ShapePickStrategy,
) -> (r: Result<Vec<Vec<Point>>, SampleError>)
    requires
        img.wf(),
        triangles_wf(triangles@, img.width as int, img.height as int),
    ensures
        ({
            let param = match strategy {
                ShapePickStrategy::AvgColorCompare(p) => p,
            };
            &&& r is Err <==> exists|i: int| 0 <= i < triangles@.len() && triangle_stat(
                *img,
                (#[trigger] triangles@[i])@,
            ).count == 0
            &&& r is Err ==> r == Err::<Vec<Vec<Point>>, SampleError>(SampleError::EmptyCell)
            &&& r is Ok ==> point_lists(r->Ok_0@) == picked_triangles_spec(
                *img,
                point_lists(triangles@),
                param,
            )
        }),
{
    let ShapePickStrategy::AvgColorCompare(param) = strategy;
    let mut picked: Vec<Vec<Point>> = Vec::new();
    let mut i: usize = 0;
    while i < triangles.len()
        invariant
            img.wf(),
            triangles_wf(triangles@, img.width as int, img.height as int),
            i <= triangles@.len(),
            forall|j: int| 0 <= j < i ==> triangle_stat(
                *img,
                (#[trigger] triangles@[j])@,
            ).count > 0,
            point_lists(picked@) =~= picked_triangles_spec(
                *img,
                point_lists(triangles@.take(i as int)),
                param,
            ),
        decreases triangles@.len() - i,
    {
        proof {
            crate::geometry::lemma_bbox_in_canvas(
                triangles@[i as int]@,
                img.width as int,
                img.height as int,
            );
        }
        let avg = match calc_average_color_in_triangle(img, &triangles[i]) {
            Ok(c) => c,
            Err(e) => {
                proof {
                    crate::sampler::lemma_triangle_stat_nonneg(*img, triangles@[i as int]@);
                }
                return Err(e);
            },
        };
        let distance = calc_color_distance(avg.to_rgb(), param.color.to_rgb());
        let selected = distance >= param.min_distance && distance <= param.max_distance;
        if selected {
            let t = triangles[i].clone();
            proof {
                assert(t@ =~= triangles@[i as int]@);
            }
            picked.push(t);
        }
        proof {
            let prefix = point_lists(triangles@.take(i as int));
            let next = point_lists(triangles@.take(i + 1));
            assert(next.drop_last() =~= prefix);
            assert(next.last() == triangles@[i as int]@);
        }
        i = i + 1;
    }
    proof {
        assert(triangles@.take(triangles@.len() as int) =~= triangles@);
    }
    Ok(picked)
}

/// How many of the cells the strategy selects.
pub open spec fn selected_grid_count(buf: PixelBuffer, cells: Seq<GridView>, cmd: GridPickCmd) -> int
    decreases cells.len(),
{
    if cells.len() == 0 {
        0
    } else {
        selected_grid_count(buf, cells.drop_last(), cmd) + if annotate_grid_spec(
            buf,
            cells.last(),
            cmd,
        ).ext.selected == Some(true) {
            1int
        } else {
            0int
        }
    }
}

/// Per cell: a cell that a range selects stays selected under any
/// wider range with the same minimum and target color.
pub proof fn lemma_wider_range_keeps_selection(
    buf: PixelBuffer,
    g: GridView,
    p1: AvgColorCompareParam,
    p2: AvgColorCompareParam,
)
    requires
        p1.color == p2.color,
        p1.min_distance == p2.min_distance,
        p1.max_distance <= p2.max_distance,
        annotate_grid_spec(buf, g, GridPickCmd::AvgColorCompare(p1)).ext.selected == Some(true),
    ensures
        annotate_grid_spec(buf, g, GridPickCmd::AvgColorCompare(p2)).ext.selected == Some(true),
{
}

/// For a fixed minimum distance, target color and sampled image,
/// raising `max_distance` never decreases the selected-cell count.
pub proof fn lemma_avg_selection_monotonic(
    buf: PixelBuffer,
    cells: Seq<GridView>,
    p1: AvgColorCompareParam,
    p2: AvgColorCompareParam,
)
    requires
        p1.color == p2.color,
        p1.min_distance == p2.min_distance,
        p1.max_distance <= p2.max_distance,
    ensures
        selected_grid_count(buf, cells, GridPickCmd::AvgColorCompare(p1))
            <= selected_grid_count(buf, cells, GridPickCmd::AvgColorCompare(p2)),
    decreases cells.len(),
{
    if cells.len() > 0 {
        lemma_avg_selection_monotonic(buf, cells.drop_last(), p1, p2);
        if annotate_grid_spec(buf, cells.last(), GridPickCmd::AvgColorCompare(p1)).ext.selected
            == Some(true) {
            lemma_wider_range_keeps_selection(buf, cells.last(), p1, p2);
        }
    }
}

/// On an image that is 100% background color, background elimination
/// selects nothing: every sampled cell gets `selected == Some(false)`,
/// whatever positive minimum ratio the strategy demands.
pub proof fn lemma_eliminate_background_selects_nothing(
    buf: PixelBuffer,
    g: GridView,
    p: EliminateBgColorParam,
)
    requires
        buf.wf(),
        buf.spec_uniform(p.color),
        grid_wf(g),
        grid_in_canvas(g, buf.width as int, buf.height as int),
        grid_stat(buf, g).count > 0,
        p.min_remaining_ratio >= 1,
    ensures
        annotate_grid_spec(buf, g, GridPickCmd::EliminateBgColor(p)).ext.selected == Some(false),
{
    lemma_remaining_of_uniform_background(buf, g, p.color);
}

/// The pipeline form of the same law: whatever the full pipeline
/// returns for a 100% background image under background elimination
/// has `selected == Some(false)` on every cell.
pub proof fn lemma_eliminate_background_pipeline_selects_nothing(
    buf: PixelBuffer,
    fill_options: GridFillOptions,
    p: EliminateBgColorParam,
    result: Seq<GridView>,
)
    requires
        buf.wf(),
        buf.spec_uniform(p.color),
        fill_options_valid(fill_options),
        p.min_remaining_ratio >= 1,
        ({
            let cells = generated_grids_spec(buf.width as int, buf.height as int, fill_options);
            &&& result.len() == cells.len()
            &&& forall|i: int| 0 <= i < cells.len() ==> grid_stat(buf, #[trigger] cells[i]).count
                > 0
            &&& forall|i: int| 0 <= i < cells.len() ==> #[trigger] result[i]
                == annotate_grid_spec(buf, cells[i], GridPickCmd::EliminateBgColor(p))
        }),
    ensures
        forall|i: int| 0 <= i < result.len() ==> (#[trigger] result[i]).ext.selected == Some(
            false,
        ),
{
    let cells = generated_grids_spec(buf.width as int, buf.height as int, fill_options);
    lemma_generated_grids_fit(buf.width as int, buf.height as int, fill_options);
    assert forall|i: int| 0 <= i < result.len() implies (#[trigger] result[i]).ext.selected
        == Some(false) by {
        lemma_eliminate_background_selects_nothing(buf, cells[i], p);
    }
}

} // verus!
