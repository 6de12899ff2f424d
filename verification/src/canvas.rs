//! Tessellation: deterministic generation of the grid cells that tile a
//! canvas, as a pure function of the canvas dimensions and the fill
//! options.

use vstd::prelude::*;
use vstd::arithmetic::div_mod::{lemma_fundamental_div_mod, lemma_fundamental_div_mod_converse};
use vstd::arithmetic::mul::lemma_mul_inequality;
use crate::geometry::Point;
use crate::model::{
    Grid, GridExt, GridFillOptions, GridShape, GridView, grid_in_canvas, grid_views, grid_wf,
};
use crate::text::{dec_str, u32_to_string};

verus! {

/// How many cells a strip starting at `x0` holds: cells sit at
/// `x0, x0 + w, ...` and a cell needs `x + w <= cw`; a partial trailing
/// cell is dropped, not clipped.
pub open spec fn strip_count(cw: int, x0: int, w: int) -> int {
    if x0 + w <= cw {
        (cw - x0) / w
    } else {
        0
    }
}

/// The sequence id `R<row+1><tag><k+1>`: rows and columns are 1-based in
/// the id, `tag` is `D`, `U` or `C`.
pub open spec fn seq_id_chars(row: int, tag: char, k: int) -> Seq<char> {
    seq!['R'] + dec_str((row + 1) as nat) + seq![tag] + dec_str((k + 1) as nat)
}

/// Cell `k` of the rectangle row `row`: a `w x h` axis-aligned rectangle.
pub open spec fn rect_cell(row: int, k: int, w: int, h: int) -> GridView {
    GridView {
        seq: seq_id_chars(row, 'C', k),
        shape: GridShape::Rectangle,
        points: seq![
            Point { x: (k * w) as u32, y: (row * h) as u32 },
            Point { x: (k * w + w) as u32, y: (row * h) as u32 },
            Point { x: (k * w + w) as u32, y: (row * h + h) as u32 },
            Point { x: (k * w) as u32, y: (row * h + h) as u32 },
        ],
        ext: GridExt::empty(),
    }
}

/// One row of the rectangle tiling, left to right.
pub open spec fn rect_row(cw: int, w: int, h: int, row: int) -> Seq<GridView> {
    Seq::new(strip_count(cw, 0, w) as nat, |k: int| rect_cell(row, k, w, h))
}

pub open spec fn rect_rows(cw: int, w: int, h: int, r: nat) -> Seq<GridView>
    decreases r,
{
    if r == 0 {
        Seq::empty()
    } else {
        rect_rows(cw, w, h, (r - 1) as nat) + rect_row(cw, w, h, r - 1)
    }
}

/// The full rectangle tiling of a `cw x ch` canvas with `w x h` cells,
/// row-major, left to right.
pub open spec fn rectangle_grids_spec(cw: int, ch: int, w: int, h: int) -> Seq<GridView> {
    rect_rows(cw, w, h, (ch / h) as nat)
}

/// `R{row+1}{tag}{k+1}` as an executable string.
fn seq_id(row: u32, tag: &str, k: u32) -> (s: String)
    requires
        row < u32::MAX,
        k < u32::MAX,
        tag@.len() == 1,
    ensures
        s@ == seq_id_chars(row as int, tag@[0], k as int),
{
    proof {
        reveal_strlit("R");
    }
    let s = String::from_str("R");
    let s = s.concat(u32_to_string(row + 1).as_str());
    let s = s.concat(tag);
    let s = s.concat(u32_to_string(k + 1).as_str());
    proof {
        assert(tag@ =~= seq![tag@[0]]);
        assert(s@ =~= seq_id_chars(row as int, tag@[0], k as int));
    }
    s
}

/// A row index below `ch / h` leaves room for a full row of height `h`.
proof fn lemma_row_fits(ch: int, h: int, row: int)
    requires
        h >= 1,
        ch >= 0,
        0 <= row < ch / h,
    ensures
        0 <= row * h,
        (row + 1) * h <= ch,
{
    lemma_fundamental_div_mod(ch, h);
    lemma_mul_inequality(row + 1, ch / h, h);
    assert(0 <= row * h) by (nonlinear_arith)
        requires
            row >= 0,
            h >= 1,
    ;
    assert((ch / h) * h <= ch) by (nonlinear_arith)
        requires
            ch == h * (ch / h) + ch % h,
            ch % h >= 0,
    ;
}

/// A cell index below the strip count leaves room for a full cell.
proof fn lemma_cell_fits(cw: int, x0: int, w: int, k: int)
    requires
        w >= 1,
        x0 >= 0,
        0 <= k < strip_count(cw, x0, w),
    ensures
        0 <= k * w,
        x0 + (k + 1) * w <= cw,
{
    let c = (cw - x0) / w;
    lemma_fundamental_div_mod(cw - x0, w);
    lemma_mul_inequality(k + 1, c, w);
    assert(0 <= k * w) by (nonlinear_arith)
        requires
            k >= 0,
            w >= 1,
    ;
    assert(c * w <= cw - x0) by (nonlinear_arith)
        requires
            cw - x0 == w * c + (cw - x0) % w,
            (cw - x0) % w >= 0,
    ;
}

proof fn lemma_grid_views_push(gs: Seq<Grid>, g: Grid)
    ensures
        grid_views(gs.push(g)) =~= grid_views(gs).push(g@),
{
}

/// Computes the number of cells of a strip starting at `x0`.
fn strip_count_exec(cw: u32, x0: u32, w: u32) -> (c: u32)
    requires
        w >= 1,
    ensures
        c == strip_count(cw as int, x0 as int, w as int),
{
    if w <= cw && x0 <= cw - w {
        (cw - x0) / w
    } else {
        0
    }
}

/// Tiles the canvas with `w x h` rectangles, row-major, left to right;
/// a fractional remainder strip is dropped, never rendered. The result
/// is a pure function of the arguments: `rectangle_grids_spec` in full.
pub fn genarate_canvas_grids_filled_with_rectanles(
    canvas_width: u32,
    canvas_height: u32,
    rect_width: u32,
    rect_height: u32,
) -> (r: Vec<Grid>)
    requires
        rect_width >= 1,
        rect_height >= 1,
    ensures
        grid_views(r@) == rectangle_grids_spec(
            canvas_width as int,
            canvas_height as int,
            rect_width as int,
            rect_height as int,
        ),
{
    let cw = canvas_width;
    let w = rect_width;
    let h = rect_height;
    let rows = canvas_height / h;
    let cnt = strip_count_exec(cw, 0, w);
    let mut grids: Vec<Grid> = Vec::new();
    let mut row: u32 = 0;
    while row < rows
        invariant
            rect_width >= 1,
            rect_height >= 1,
            w == rect_width,
            h == rect_height,
            cw == canvas_width,
            rows == canvas_height / h,
            cnt == strip_count(cw as int, 0, w as int),
            row <= rows,
            grid_views(grids@) =~= rect_rows(cw as int, w as int, h as int, row as nat),
        decreases rows - row,
    {
        proof {
            lemma_row_fits(canvas_height as int, h as int, row as int);
            assert((row as int + 1) * (h as int) == row as int * (h as int) + h as int)
                by (nonlinear_arith);
        }
        let y = row * h;
        let mut x: u32 = 0;
        let mut k: u32 = 0;
        while k < cnt
            invariant
                rect_width >= 1,
                rect_height >= 1,
                w == rect_width,
                h == rect_height,
                cw == canvas_width,
                rows == canvas_height / h,
                cnt == strip_count(cw as int, 0, w as int),
                row < rows,
                y == row * h,
                y + h <= canvas_height,
                k <= cnt,
                x == k * w,
                grid_views(grids@) =~= rect_rows(cw as int, w as int, h as int, row as nat)
                    + Seq::new(k as nat, |i: int| rect_cell(row as int, i, w as int, h as int)),
            decreases cnt - k,
        {
            proof {
                lemma_cell_fits(cw as int, 0, w as int, k as int);
                assert((k as int + 1) * (w as int) == k as int * (w as int) + w as int)
                    by (nonlinear_arith);
            }
            let seq = seq_id(row, c_tag(), k);
            let points = vec![
                Point::new(x, y),
                Point::new(x + w, y),
                Point::new(x + w, y + h),
                Point::new(x, y + h),
            ];
            let g = Grid { seq, shape: GridShape::Rectangle, points, ext: GridExt::default() };
            proof {
                assert(g@ == rect_cell(row as int, k as int, w as int, h as int));
                lemma_grid_views_push(grids@, g);
                assert(Seq::new((k + 1) as nat, |i: int| rect_cell(row as int, i, w as int, h as int))
                    =~= Seq::new(k as nat, |i: int| rect_cell(row as int, i, w as int, h as int))
                        .push(rect_cell(row as int, k as int, w as int, h as int)));
            }
            grids.push(g);
            x = x + w;
            k = k + 1;
        }
        proof {
            assert(rect_rows(cw as int, w as int, h as int, (row + 1) as nat)
                =~= rect_rows(cw as int, w as int, h as int, row as nat)
                    + rect_row(cw as int, w as int, h as int, row as int));
        }
        row = row + 1;
    }
    grids
}

fn c_tag() -> (s: &'static str)
    ensures
        s@ =~= seq!['C'],
{
    proof {
        reveal_strlit("C");
    }
    "C"
}

fn d_tag() -> (s: &'static str)
    ensures
        s@ =~= seq!['D'],
{
    proof {
        reveal_strlit("D");
    }
    "D"
}

fn u_tag() -> (s: &'static str)
    ensures
        s@ =~= seq!['U'],
{
    proof {
        reveal_strlit("U");
    }
    "U"
}

/// Where the downward strip of `row` starts: even rows at 0, odd rows
/// offset by half a triangle width.
pub open spec fn down_x0(row: int, w: int) -> int {
    if row % 2 == 0 {
        0
    } else {
        w / 2
    }
}

/// Where the upward strip starts: the complement of the downward offset,
/// producing the interlocking pattern.
pub open spec fn up_x0(row: int, w: int) -> int {
    if row % 2 == 0 {
        w / 2
    } else {
        0
    }
}

/// Cell `k` of the downward strip of `row`: two base vertices at the row
/// top, apex half a width right and one height down.
pub open spec fn down_cell(row: int, k: int, cw: int, w: int, h: int) -> GridView {
    let x = down_x0(row, w) + k * w;
    let y = row * h;
    GridView {
        seq: seq_id_chars(row, 'D', k),
        shape: GridShape::Triangle,
        points: seq![
            Point { x: x as u32, y: y as u32 },
            Point { x: (x + w) as u32, y: y as u32 },
            Point { x: (x + w / 2) as u32, y: (y + h) as u32 },
        ],
        ext: GridExt::empty(),
    }
}

/// Cell `k` of the upward strip of `row`: two base vertices at the row
/// bottom, apex half a width right and one height up.
pub open spec fn up_cell(row: int, k: int, cw: int, w: int, h: int) -> GridView {
    let x = up_x0(row, w) + k * w;
    let y = (row + 1) * h;
    let apex_y = y - h;
    GridView {
        seq: seq_id_chars(row, 'U', k),
        shape: GridShape::Triangle,
        points: seq![
            Point { x: x as u32, y: y as u32 },
            Point { x: (x + w) as u32, y: y as u32 },
            Point { x: (x + w / 2) as u32, y: apex_y as u32 },
        ],
        ext: GridExt::empty(),
    }
}

/// One triangle row: the downward strip, then the upward strip.
pub open spec fn tri_row(cw: int, w: int, h: int, row: int) -> Seq<GridView> {
    Seq::new(
        strip_count(cw, down_x0(row, w), w) as nat,
        |k: int| down_cell(row, k, cw, w, h),
    ) + Seq::new(
        strip_count(cw, up_x0(row, w), w) as nat,
        |k: int| up_cell(row, k, cw, w, h),
    )
}

pub open spec fn tri_rows(cw: int, w: int, h: int, r: nat) -> Seq<GridView>
    decreases r,
{
    if r == 0 {
        Seq::empty()
    } else {
        tri_rows(cw, w, h, (r - 1) as nat) + tri_row(cw, w, h, r - 1)
    }
}

/// The full triangle tiling of a `cw x ch` canvas: row-major, downward
/// strip before upward strip within a row.
pub open spec fn triangle_grids_spec(cw: int, ch: int, w: int, h: int) -> Seq<GridView> {
    tri_rows(cw, w, h, (ch / h) as nat)
}

/// The three vertices of a downward triangle: two base vertices at the
/// strip top, apex half a width right of `x` and one height down.
pub fn get_down_triangle_points(x: u32, y: u32, side: u32, height: u32) -> (pts: Vec<Point>)
    requires
        x + side <= u32::MAX,
        y + height <= u32::MAX,
    ensures
        pts@ =~= seq![
            Point { x, y },
            Point { x: (x + side) as u32, y },
            Point { x: (x + side / 2) as u32, y: (y + height) as u32 },
        ],
{
    vec![
        Point { x, y },
        Point { x: x + side, y },
        Point { x: x + side / 2, y: y + height },
    ]
}

/// The three vertices of an upward triangle: two base vertices at the
/// strip bottom, apex half a width right of `x` and one height up.
pub fn get_up_triangle_points(x: u32, y: u32, width: u32, height: u32) -> (pts: Vec<Point>)
    requires
        x + width <= u32::MAX,
        height <= y,
    ensures
        pts@ =~= seq![
            Point { x, y },
            Point { x: (x + width) as u32, y },
            Point { x: (x + width / 2) as u32, y: (y - height) as u32 },
        ],
{
    let apex_y = y - height;
    vec![
        Point { x, y },
        Point { x: x + width, y },
        Point { x: x + width / 2, y: apex_y },
    ]
}

/// Tiles the canvas with alternating strips of downward and upward
/// triangles. The result is a pure function of the arguments:
/// `triangle_grids_spec` in full.
pub fn genarate_canvas_grids_filled_with_trianles(
    canvas_width: u32,
    canvas_height: u32,
    triangle_width: u32,
    triangle_height: u32,
) -> (r: Vec<Grid>)
    requires
        triangle_width >= 1,
        triangle_height >= 1,
    ensures
        grid_views(r@) == triangle_grids_spec(
            canvas_width as int,
            canvas_height as int,
            triangle_width as int,
            triangle_height as int,
        ),
{
    let cw = canvas_width;
    let w = triangle_width;
    let h = triangle_height;
    let rows = canvas_height / h;
    let mut grids: Vec<Grid> = Vec::new();
    let mut row: u32 = 0;
    while row < rows
        invariant
            triangle_width >= 1,
            triangle_height >= 1,
            w == triangle_width,
            h == triangle_height,
            cw == canvas_width,
            rows == canvas_height / h,
            row <= rows,
            grid_views(grids@) =~= tri_rows(cw as int, w as int, h as int, row as nat),
        decreases rows - row,
    {
        proof {
            lemma_row_fits(canvas_height as int, h as int, row as int);
            assert((row as int + 1) * (h as int) == row as int * (h as int) + h as int)
                by (nonlinear_arith);
        }
        let y = row * h;
        let down_start = if row % 2 == 0 { 0 } else { w / 2 };
        let dcnt = strip_count_exec(cw, down_start, w);
        let mut x: u32 = down_start;
        let mut k: u32 = 0;
        while k < dcnt
            invariant
                triangle_width >= 1,
                triangle_height >= 1,
                w == triangle_width,
                h == triangle_height,
                cw == canvas_width,
                rows == canvas_height / h,
                row < rows,
                y == row * h,
                y + h <= canvas_height,
                down_start == down_x0(row as int, w as int),
                dcnt == strip_count(cw as int, down_start as int, w as int),
                k <= dcnt,
                x == down_start + k * w,
                grid_views(grids@) =~= tri_rows(cw as int, w as int, h as int, row as nat)
                    + Seq::new(
                    k as nat,
                    |i: int| down_cell(row as int, i, cw as int, w as int, h as int),
                ),
            decreases dcnt - k,
        {
            proof {
                lemma_cell_fits(cw as int, down_start as int, w as int, k as int);
                assert((k as int + 1) * (w as int) == k as int * (w as int) + w as int)
                    by (nonlinear_arith);
            }
            let seq = seq_id(row, d_tag(), k);
            let points = get_down_triangle_points(x, y, w, h);
            let g = Grid { seq, shape: GridShape::Triangle, points, ext: GridExt::default() };
            proof {
                assert(g@.points =~= down_cell(
                    row as int,
                    k as int,
                    cw as int,
                    w as int,
                    h as int,
                ).points);
                assert(g@ == down_cell(row as int, k as int, cw as int, w as int, h as int));
                lemma_grid_views_push(grids@, g);
                assert(Seq::new(
                    (k + 1) as nat,
                    |i: int| down_cell(row as int, i, cw as int, w as int, h as int),
                ) =~= Seq::new(
                    k as nat,
                    |i: int| down_cell(row as int, i, cw as int, w as int, h as int),
                ).push(down_cell(row as int, k as int, cw as int, w as int, h as int)));
            }
            grids.push(g);
            x = x + w;
            k = k + 1;
        }
        let up_start = if row % 2 == 0 { w / 2 } else { 0 };
        let ucnt = strip_count_exec(cw, up_start, w);
        let y2 = y + h;
        let mut x: u32 = up_start;
        let mut k: u32 = 0;
        while k < ucnt
            invariant
                triangle_width >= 1,
                triangle_height >= 1,
                w == triangle_width,
                h == triangle_height,
                cw == canvas_width,
                rows == canvas_height / h,
                row < rows,
                y == row * h,
                y2 == y + h,
                y2 <= canvas_height,
                up_start == up_x0(row as int, w as int),
                ucnt == strip_count(cw as int, up_start as int, w as int),
                k <= ucnt,
                x == up_start + k * w,
                grid_views(grids@) =~= tri_rows(cw as int, w as int, h as int, row as nat)
                    + Seq::new(
                    strip_count(cw as int, down_x0(row as int, w as int), w as int) as nat,
                    |i: int| down_cell(row as int, i, cw as int, w as int, h as int),
                ) + Seq::new(
                    k as nat,
                    |i: int| up_cell(row as int, i, cw as int, w as int, h as int),
                ),
            decreases ucnt - k,
        {
            proof {
                lemma_cell_fits(cw as int, up_start as int, w as int, k as int);
                assert((k as int + 1) * (w as int) == k as int * (w as int) + w as int)
                    by (nonlinear_arith);
                assert((row as int + 1) * (h as int) == row as int * (h as int) + h as int)
                    by (nonlinear_arith);
            }
            let seq = seq_id(row, u_tag(), k);
            let points = get_up_triangle_points(x, y2, w, h);
            let g = Grid { seq, shape: GridShape::Triangle, points, ext: GridExt::default() };
            proof {
                assert(g@.points =~= up_cell(
                    row as int,
                    k as int,
                    cw as int,
                    w as int,
                    h as int,
                ).points);
                assert(g@ == up_cell(row as int, k as int, cw as int, w as int, h as int));
                lemma_grid_views_push(grids@, g);
                assert(Seq::new(
                    (k + 1) as nat,
                    |i: int| up_cell(row as int, i, cw as int, w as int, h as int),
                ) =~= Seq::new(
                    k as nat,
                    |i: int| up_cell(row as int, i, cw as int, w as int, h as int),
                ).push(up_cell(row as int, k as int, cw as int, w as int, h as int)));
            }
            grids.push(g);
            x = x + w;
            k = k + 1;
        }
        proof {
            assert(tri_rows(cw as int, w as int, h as int, (row + 1) as nat)
                =~= tri_rows(cw as int, w as int, h as int, row as nat)
                    + tri_row(cw as int, w as int, h as int, row as int));
        }
        row = row + 1;
    }
    grids
}

/// The cells a fill specification produces on a `cw x ch` canvas.
pub open spec fn generated_grids_spec(cw: int, ch: int, options: GridFillOptions) -> Seq<
    GridView,
> {
    match options {
        GridFillOptions::Triangle(w, h) => triangle_grids_spec(cw, ch, w as int, h as int),
        GridFillOptions::Rectangle(w, h) => rectangle_grids_spec(cw, ch, w as int, h as int),
    }
}

/// Both size parameters of the fill shape are positive.
pub open spec fn fill_options_valid(options: GridFillOptions) -> bool {
    match options {
        GridFillOptions::Triangle(w, h) => w >= 1 && h >= 1,
        GridFillOptions::Rectangle(w, h) => w >= 1 && h >= 1,
    }
}

/// Generates the empty canvas layout for the given fill options: bare
/// cells in generation order, no pixel access, no sampling.
pub fn generate_enmty_canvas_grids(
    canvas_width: u32,
    canvas_height: u32,
    options: GridFillOptions,
) -> (r: Vec<Grid>)
    requires
        fill_options_valid(options),
    ensures
        grid_views(r@) == generated_grids_spec(canvas_width as int, canvas_height as int, options),
{
    match options {
        GridFillOptions::Triangle(w, h) => genarate_canvas_grids_filled_with_trianles(
            canvas_width,
            canvas_height,
            w,
            h,
        ),
        GridFillOptions::Rectangle(w, h) => genarate_canvas_grids_filled_with_rectanles(
            canvas_width,
            canvas_height,
            w,
            h,
        ),
    }
}

/// Same triangle tiling under the name the generation front end uses.
pub fn get_canvas_grids_filled_with_trianles(
    canvas_width: u32,
    canvas_height: u32,
    triangle_width: u32,
    triangle_height: u32,
) -> (r: Vec<Grid>)
    requires
        triangle_width >= 1,
        triangle_height >= 1,
    ensures
        grid_views(r@) == triangle_grids_spec(
            canvas_width as int,
            canvas_height as int,
            triangle_width as int,
            triangle_height as int,
        ),
{
    genarate_canvas_grids_filled_with_trianles(
        canvas_width,
        canvas_height,
        triangle_width,
        triangle_height,
    )
}

/// The vertex lists of all triangles of the canvas, in generation order.
pub fn get_all_triangles_of_canvas(
    canvas_width: u32,
    canvas_height: u32,
    triangle_width: u32,
    triangle_height: u32,
) -> (r: Vec<Vec<Point>>)
    requires
        triangle_width >= 1,
        triangle_height >= 1,
    ensures
        ({
            let cells = triangle_grids_spec(
                canvas_width as int,
                canvas_height as int,
                triangle_width as int,
                triangle_height as int,
            );
            &&& r@.len() == cells.len()
            &&& forall|i: int| 0 <= i < cells.len() ==> (#[trigger] r@[i])@ == cells[i].points
        }),
{
    let grids = genarate_canvas_grids_filled_with_trianles(
        canvas_width,
        canvas_height,
        triangle_width,
        triangle_height,
    );
    let ghost cells = triangle_grids_spec(
        canvas_width as int,
        canvas_height as int,
        triangle_width as int,
        triangle_height as int,
    );
    let mut out: Vec<Vec<Point>> = Vec::new();
    let mut i: usize = 0;
    while i < grids.len()
        invariant
            grid_views(grids@) == cells,
            i <= grids@.len(),
            out@.len() == i,
            forall|j: int| 0 <= j < i ==> (#[trigger] out@[j])@ == cells[j].points,
        decreases grids@.len() - i,
    {
        proof {
            assert(grid_views(grids@)[i as int] == grids@[i as int]@);
        }
        let points = grids[i].points.clone();
        proof {
            assert(points@ =~= grids@[i as int].points@);
        }
        out.push(points);
        i = i + 1;
    }
    proof {
        assert(grid_views(grids@).len() == grids@.len());
    }
    out
}

/// Generation is deterministic: two runs on identical arguments yield
/// identical sequence ids and vertex lists, cell for cell.
pub proof fn lemma_generation_deterministic(
    a: Seq<GridView>,
    b: Seq<GridView>,
    cw: int,
    ch: int,
    options: GridFillOptions,
)
    requires
        a == generated_grids_spec(cw, ch, options),
        b == generated_grids_spec(cw, ch, options),
    ensures
        a == b,
{
}

proof fn lemma_rect_rows_len(cw: int, w: int, h: int, r: nat)
    requires
        w >= 1,
    ensures
        rect_rows(cw, w, h, r).len() == r * strip_count(cw, 0, w),
    decreases r,
{
    let c = strip_count(cw, 0, w);
    if r == 0 {
        assert(0 * c == 0) by (nonlinear_arith);
    } else {
        lemma_rect_rows_len(cw, w, h, (r - 1) as nat);
        assert((r - 1) * c + c == r * c) by (nonlinear_arith);
    }
}

/// The rectangle generator yields exactly `(ch / h) * (cw / w)` cells.
pub proof fn lemma_rectangle_grid_count(cw: int, ch: int, w: int, h: int)
    requires
        w >= 1,
        h >= 1,
        cw >= 0,
        ch >= 0,
    ensures
        rectangle_grids_spec(cw, ch, w, h).len() == (ch / h) * (cw / w),
{
    if w <= cw {
        assert(strip_count(cw, 0, w) == cw / w);
    } else {
        lemma_fundamental_div_mod_converse(cw, w, 0, cw);
        assert(strip_count(cw, 0, w) == cw / w);
    }
    lemma_rect_rows_len(cw, w, h, (ch / h) as nat);
}

proof fn lemma_rect_rows_index(cw: int, w: int, h: int, r: nat, i: int)
    requires
        w >= 1,
        0 <= i < r * strip_count(cw, 0, w),
    ensures
        rect_rows(cw, w, h, r).len() == r * strip_count(cw, 0, w),
        rect_rows(cw, w, h, r)[i] == rect_cell(
            i / strip_count(cw, 0, w),
            i % strip_count(cw, 0, w),
            w,
            h,
        ),
    decreases r,
{
    let c = strip_count(cw, 0, w);
    lemma_rect_rows_len(cw, w, h, r);
    assert(r >= 1) by (nonlinear_arith)
        requires
            i >= 0,
            i < r * c,
    ;
    lemma_rect_rows_len(cw, w, h, (r - 1) as nat);
    if i < (r - 1) * c {
        lemma_rect_rows_index(cw, w, h, (r - 1) as nat, i);
    } else {
        let k = i - (r - 1) * c;
        assert(0 <= k < c) by (nonlinear_arith)
            requires
                k == i - (r - 1) * c,
                (r - 1) * c + c == r * c,
                i < r * c,
                i >= (r - 1) * c,
        ;
        lemma_fundamental_div_mod_converse(i, c, r - 1, k);
        assert(rect_rows(cw, w, h, r)[i] == rect_row(cw, w, h, r - 1)[k]);
    }
}

/// Tiling order is row-major, left to right: cell `i` of the rectangle
/// tiling is the cell of row `i / (cw / w)` and column `i % (cw / w)`.
pub proof fn lemma_rectangle_grid_indexing(cw: int, ch: int, w: int, h: int, i: int)
    requires
        w >= 1,
        h >= 1,
        cw >= 0,
        ch >= 0,
        0 <= i < (ch / h) * (cw / w),
    ensures
        rectangle_grids_spec(cw, ch, w, h)[i] == rect_cell(i / (cw / w), i % (cw / w), w, h),
{
    if w <= cw {
        assert(strip_count(cw, 0, w) == cw / w);
    } else {
        lemma_fundamental_div_mod_converse(cw, w, 0, cw);
    }
    lemma_rect_rows_index(cw, w, h, (ch / h) as nat, i);
}

/// Whether pixel `(px, py)` lies in the half-open box of rectangle cell
/// `(row, k)`.
pub open spec fn rect_cell_contains(row: int, k: int, w: int, h: int, px: int, py: int) -> bool {
    k * w <= px < k * w + w && row * h <= py < row * h + h
}

/// Distinct rectangle cells do not overlap: no pixel lies in the
/// half-open boxes of both.
pub proof fn lemma_rect_cells_disjoint(
    w: int,
    h: int,
    r1: int,
    k1: int,
    r2: int,
    k2: int,
    px: int,
    py: int,
)
    requires
        w >= 1,
        h >= 1,
        r1 >= 0,
        k1 >= 0,
        r2 >= 0,
        k2 >= 0,
        r1 != r2 || k1 != k2,
    ensures
        !(rect_cell_contains(r1, k1, w, h, px, py) && rect_cell_contains(r2, k2, w, h, px, py)),
{
    if r1 != r2 {
        assert(!(r1 * h <= py < r1 * h + h && r2 * h <= py < r2 * h + h)) by (nonlinear_arith)
            requires
                h >= 1,
                r1 != r2,
        ;
    } else {
        assert(!(k1 * w <= px < k1 * w + w && k2 * w <= px < k2 * w + w)) by (nonlinear_arith)
            requires
                w >= 1,
                k1 != k2,
        ;
    }
}

/// Whether pixel `(px, py)` lies in a rectangle cell's half-open box,
/// read off the cell's stored vertices (top-left and bottom-right).
pub open spec fn rect_grid_contains(g: GridView, px: int, py: int) -> bool {
    g.points[0].x <= px < g.points[2].x && g.points[0].y <= py < g.points[2].y
}

/// Two distinct cells of the rectangle tiling never contain the same
/// pixel: the tiling has no overlaps.
pub proof fn lemma_rectangle_grids_disjoint(
    cw: int,
    ch: int,
    w: int,
    h: int,
    i: int,
    j: int,
    px: int,
    py: int,
)
    requires
        w >= 1,
        h >= 1,
        0 <= cw <= u32::MAX,
        0 <= ch <= u32::MAX,
        0 <= i < (ch / h) * (cw / w),
        0 <= j < (ch / h) * (cw / w),
        i != j,
    ensures
        !(rect_grid_contains(rectangle_grids_spec(cw, ch, w, h)[i], px, py)
            && rect_grid_contains(rectangle_grids_spec(cw, ch, w, h)[j], px, py)),
{
    let rows = ch / h;
    let cols = cw / w;
    lemma_rectangle_grid_indexing(cw, ch, w, h, i);
    lemma_rectangle_grid_indexing(cw, ch, w, h, j);
    lemma_rect_index_box(cw, ch, w, h, i);
    lemma_rect_index_box(cw, ch, w, h, j);
    let r1 = i / cols;
    let k1 = i % cols;
    let r2 = j / cols;
    let k2 = j % cols;
    lemma_fundamental_div_mod(i, cols);
    lemma_fundamental_div_mod(j, cols);
    assert(r1 != r2 || k1 != k2);
    lemma_rect_cells_disjoint(w, h, r1, k1, r2, k2, px, py);
}

/// The stored vertices of an indexed rectangle cell spell out its
/// half-open box: containment agrees with the `(row, column)` form.
proof fn lemma_rect_index_box(cw: int, ch: int, w: int, h: int, i: int)
    requires
        w >= 1,
        h >= 1,
        0 <= cw <= u32::MAX,
        0 <= ch <= u32::MAX,
        0 <= i < (ch / h) * (cw / w),
    ensures
        ({
            let cols = cw / w;
            let g = rectangle_grids_spec(cw, ch, w, h)[i];
            &&& 0 <= i % cols < cols
            &&& 0 <= i / cols < ch / h
            &&& forall|px: int, py: int| #[trigger] rect_grid_contains(g, px, py)
                <==> rect_cell_contains(i / cols, i % cols, w, h, px, py)
        }),
{
    let rows = ch / h;
    let cols = cw / w;
    vstd::arithmetic::div_mod::lemma_div_basics_4(ch, h);
    vstd::arithmetic::div_mod::lemma_div_basics_4(cw, w);
    assert(rows >= 1 && cols >= 1) by (nonlinear_arith)
        requires
            0 <= i < rows * cols,
            rows >= 0,
            cols >= 0,
    ;
    lemma_fundamental_div_mod(i, cols);
    vstd::arithmetic::div_mod::lemma_mod_bound(i, cols);
    vstd::arithmetic::div_mod::lemma_div_basics_4(i, cols);
    let r = i / cols;
    let k = i % cols;
    assert(r < rows) by (nonlinear_arith)
        requires
            i == cols * r + k,
            0 <= k < cols,
            i < rows * cols,
            cols >= 1,
            r >= 0,
    ;
    lemma_rectangle_grid_indexing(cw, ch, w, h, i);
    if w <= cw {
        assert(strip_count(cw, 0, w) == cw / w);
    } else {
        lemma_fundamental_div_mod_converse(cw, w, 0, cw);
    }
    lemma_cell_fits(cw, 0, w, k);
    lemma_row_fits(ch, h, r);
    assert((k + 1) * w == k * w + w) by (nonlinear_arith);
    assert((r + 1) * h == r * h + h) by (nonlinear_arith);
    let g = rectangle_grids_spec(cw, ch, w, h)[i];
    assert(g.points[0].x == k * w && g.points[0].y == r * h);
    assert(g.points[2].x == k * w + w && g.points[2].y == r * h + h);
}

proof fn lemma_tri_row_fit(cw: int, ch: int, w: int, h: int, row: int)
    requires
        w >= 1,
        h >= 1,
        0 <= cw <= u32::MAX,
        0 <= ch <= u32::MAX,
        0 <= row < ch / h,
    ensures
        forall|j: int| 0 <= j < tri_row(cw, w, h, row).len() ==> {
            let g = #[trigger] tri_row(cw, w, h, row)[j];
            grid_wf(g) && grid_in_canvas(g, cw, ch)
        },
{
    lemma_row_fits(ch, h, row);
    assert((row + 1) * h == row * h + h) by (nonlinear_arith);
    let dcnt = strip_count(cw, down_x0(row, w), w);
    assert forall|j: int| 0 <= j < tri_row(cw, w, h, row).len() implies {
        let g = #[trigger] tri_row(cw, w, h, row)[j];
        grid_wf(g) && grid_in_canvas(g, cw, ch)
    } by {
        if j < dcnt {
            lemma_cell_fits(cw, down_x0(row, w), w, j);
            assert((j + 1) * w == j * w + w) by (nonlinear_arith);
            let g = down_cell(row, j, cw, w, h);
            assert(tri_row(cw, w, h, row)[j] == g);
            assert(grid_wf(g));
            assert(grid_in_canvas(g, cw, ch));
        } else {
            let k = j - dcnt;
            lemma_cell_fits(cw, up_x0(row, w), w, k);
            assert((k + 1) * w == k * w + w) by (nonlinear_arith);
            let g = up_cell(row, k, cw, w, h);
            assert(tri_row(cw, w, h, row)[j] == g);
            assert(grid_wf(g));
            assert(grid_in_canvas(g, cw, ch));
        }
    }
}

proof fn lemma_tri_rows_fit(cw: int, ch: int, w: int, h: int, r: nat)
    requires
        w >= 1,
        h >= 1,
        0 <= cw <= u32::MAX,
        0 <= ch <= u32::MAX,
        r <= ch / h,
    ensures
        forall|i: int| 0 <= i < tri_rows(cw, w, h, r).len() ==> {
            let g = #[trigger] tri_rows(cw, w, h, r)[i];
            grid_wf(g) && grid_in_canvas(g, cw, ch)
        },
    decreases r,
{
    if r > 0 {
        lemma_tri_rows_fit(cw, ch, w, h, (r - 1) as nat);
        lemma_tri_row_fit(cw, ch, w, h, r - 1);
    }
}

proof fn lemma_rect_row_fit(cw: int, ch: int, w: int, h: int, row: int)
    requires
        w >= 1,
        h >= 1,
        0 <= cw <= u32::MAX,
        0 <= ch <= u32::MAX,
        0 <= row < ch / h,
    ensures
        forall|j: int| 0 <= j < rect_row(cw, w, h, row).len() ==> {
            let g = #[trigger] rect_row(cw, w, h, row)[j];
            grid_wf(g) && grid_in_canvas(g, cw, ch)
        },
{
    lemma_row_fits(ch, h, row);
    assert((row + 1) * h == row * h + h) by (nonlinear_arith);
    assert forall|j: int| 0 <= j < rect_row(cw, w, h, row).len() implies {
        let g = #[trigger] rect_row(cw, w, h, row)[j];
        grid_wf(g) && grid_in_canvas(g, cw, ch)
    } by {
        lemma_cell_fits(cw, 0, w, j);
        assert((j + 1) * w == j * w + w) by (nonlinear_arith);
        let g = rect_cell(row, j, w, h);
        assert(rect_row(cw, w, h, row)[j] == g);
        assert(grid_wf(g));
        assert(grid_in_canvas(g, cw, ch));
    }
}

proof fn lemma_rect_rows_fit(cw: int, ch: int, w: int, h: int, r: nat)
    requires
        w >= 1,
        h >= 1,
        0 <= cw <= u32::MAX,
        0 <= ch <= u32::MAX,
        r <= ch / h,
    ensures
        forall|i: int| 0 <= i < rect_rows(cw, w, h, r).len() ==> {
            let g = #[trigger] rect_rows(cw, w, h, r)[i];
            grid_wf(g) && grid_in_canvas(g, cw, ch)
        },
    decreases r,
{
    if r > 0 {
        lemma_rect_rows_fit(cw, ch, w, h, (r - 1) as nat);
        lemma_rect_row_fit(cw, ch, w, h, r - 1);
    }
}

/// Every generated cell is well formed (vertex count matches the shape)
/// and lies on the canvas, so sampling against a matching pixel buffer
/// stays in bounds.
pub proof fn lemma_generated_grids_fit(cw: int, ch: int, options: GridFillOptions)
    requires
        fill_options_valid(options),
        0 <= cw <= u32::MAX,
        0 <= ch <= u32::MAX,
    ensures
        forall|i: int| 0 <= i < generated_grids_spec(cw, ch, options).len() ==> {
            let g = #[trigger] generated_grids_spec(cw, ch, options)[i];
            grid_wf(g) && grid_in_canvas(g, cw, ch)
        },
{
    match options {
        GridFillOptions::Triangle(w, h) => {
            lemma_tri_rows_fit(cw, ch, w as int, h as int, (ch / (h as int)) as nat);
        }
        GridFillOptions::Rectangle(w, h) => {
            lemma_rect_rows_fit(cw, ch, w as int, h as int, (ch / (h as int)) as nat);
        }
    }
}

} // verus!
