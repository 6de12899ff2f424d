//! Per-cell pixel sampling: the average color of a cell and the ratio
//! of cell pixels left after eliminating a background color.
//!
//! Iteration is restricted to the cell's axis-aligned bounding box; a
//! pixel contributes only when it lies inside the cell's region (always,
//! for a rectangle; by the point-in-triangle test, for a triangle).

use vstd::prelude::*;
use crate::buffer::PixelBuffer;
use crate::color::Color;
use crate::geometry::{
    Point, bounding_box, is_point_inside_triangle, lemma_bbox_in_canvas, max_x_of, max_y_of,
    min_x_of, min_y_of, point_in_triangle,
};
use crate::model::{Grid, GridShape, GridView, SampleError, grid_in_canvas, grid_wf};
use crate::utils::{calc_color_distance, color_distance_spec};

verus! {

/// Background elimination counts a pixel as remaining when its distance
/// to the background color exceeds this value (on the `[0, 100]` scale).
pub const BG_DISTANCE_THRESHOLD: u32 = 5;

/// Remaining-area ratios are reported in units of `1 / RATIO_SCALE`.
pub const RATIO_SCALE: u32 = 10000;

/// The part of the bounding box a pixel must lie in to count: the whole
/// box for rectangle cells, a triangle for triangle cells.
#[derive(Clone, Copy)]
pub enum CellRegion {
    Whole,
    Tri(Point, Point, Point),
}

pub open spec fn region_contains(reg: CellRegion, px: int, py: int) -> bool {
    match reg {
        CellRegion::Whole => true,
        CellRegion::Tri(v0, v1, v2) => point_in_triangle(px, py, v0, v1, v2),
    }
}

fn region_contains_exec(reg: &CellRegion, px: u32, py: u32) -> (b: bool)
    ensures
        b == region_contains(*reg, px as int, py as int),
{
    match reg {
        CellRegion::Whole => true,
        CellRegion::Tri(v0, v1, v2) => is_point_inside_triangle(px, py, *v0, *v1, *v2),
    }
}

/// Running totals of one sampling pass: how many pixels qualified and
/// the per-channel sums over them.
pub ghost struct PixStat {
    pub count: int,
    pub r: int,
    pub g: int,
    pub b: int,
    pub a: int,
}

pub open spec fn stat_zero() -> PixStat {
    PixStat { count: 0, r: 0, g: 0, b: 0, a: 0 }
}

pub open spec fn stat_add(s: PixStat, c: Color) -> PixStat {
    PixStat { count: s.count + 1, r: s.r + c.r, g: s.g + c.g, b: s.b + c.b, a: s.a + c.a }
}

/// Totals over the pixels `(x, y0), ..., (x, y1 - 1)` that lie in the
/// region.
pub open spec fn col_stat(buf: PixelBuffer, x: int, y0: int, y1: int, reg: CellRegion) -> PixStat
    decreases y1 - y0,
{
    if y1 <= y0 {
        stat_zero()
    } else {
        let prev = col_stat(buf, x, y0, y1 - 1, reg);
        if region_contains(reg, x, y1 - 1) {
            stat_add(prev, buf.spec_pixel(x, y1 - 1))
        } else {
            prev
        }
    }
}

/// Totals over the box `[x0, x1) x [y0, y1)`, column by column.
pub open spec fn box_stat(
    buf: PixelBuffer,
    x0: int,
    x1: int,
    y0: int,
    y1: int,
    reg: CellRegion,
) -> PixStat
    decreases x1 - x0,
{
    if x1 <= x0 {
        stat_zero()
    } else {
        let prev = box_stat(buf, x0, x1 - 1, y0, y1, reg);
        let col = col_stat(buf, x1 - 1, y0, y1, reg);
        PixStat {
            count: prev.count + col.count,
            r: prev.r + col.r,
            g: prev.g + col.g,
            b: prev.b + col.b,
            a: prev.a + col.a,
        }
    }
}

/// How many pixels of the column qualify and also differ from `bg` by
/// more than the background threshold.
pub open spec fn col_remaining(
    buf: PixelBuffer,
    x: int,
    y0: int,
    y1: int,
    reg: CellRegion,
    bg: Color,
) -> int
    decreases y1 - y0,
{
    if y1 <= y0 {
        0
    } else {
        let prev = col_remaining(buf, x, y0, y1 - 1, reg, bg);
        let c = buf.spec_pixel(x, y1 - 1);
        if region_contains(reg, x, y1 - 1) && color_distance_spec(
            (c.r, c.g, c.b),
            (bg.r, bg.g, bg.b),
        ) > BG_DISTANCE_THRESHOLD {
            prev + 1
        } else {
            prev
        }
    }
}

/// How many pixels of the box qualify and differ from `bg` by more than
/// the background threshold.
pub open spec fn box_remaining(
    buf: PixelBuffer,
    x0: int,
    x1: int,
    y0: int,
    y1: int,
    reg: CellRegion,
    bg: Color,
) -> int
    decreases x1 - x0,
{
    if x1 <= x0 {
        0
    } else {
        box_remaining(buf, x0, x1 - 1, y0, y1, reg, bg) + col_remaining(
            buf,
            x1 - 1,
            y0,
            y1,
            reg,
            bg,
        )
    }
}

proof fn lemma_col_stat_bounds(buf: PixelBuffer, x: int, y0: int, y1: int, reg: CellRegion)
    ensures
        ({
            let s = col_stat(buf, x, y0, y1, reg);
            &&& 0 <= s.count
            &&& s.count <= vstd::math::max(y1 - y0, 0)
            &&& 0 <= s.r <= 255 * s.count
            &&& 0 <= s.g <= 255 * s.count
            &&& 0 <= s.b <= 255 * s.count
            &&& 0 <= s.a <= 255 * s.count
        }),
    decreases y1 - y0,
{
    if y1 > y0 {
        lemma_col_stat_bounds(buf, x, y0, y1 - 1, reg);
    }
}

proof fn lemma_col_remaining_bounds(
    buf: PixelBuffer,
    x: int,
    y0: int,
    y1: int,
    reg: CellRegion,
    bg: Color,
)
    ensures
        0 <= col_remaining(buf, x, y0, y1, reg, bg) <= col_stat(buf, x, y0, y1, reg).count,
    decreases y1 - y0,
{
    if y1 > y0 {
        lemma_col_remaining_bounds(buf, x, y0, y1 - 1, reg, bg);
    }
}

proof fn lemma_box_stat_bounds(
    buf: PixelBuffer,
    x0: int,
    x1: int,
    y0: int,
    y1: int,
    reg: CellRegion,
)
    ensures
        ({
            let s = box_stat(buf, x0, x1, y0, y1, reg);
            &&& 0 <= s.count
            &&& s.count <= vstd::math::max(x1 - x0, 0) * vstd::math::max(y1 - y0, 0)
            &&& 0 <= s.r <= 255 * s.count
            &&& 0 <= s.g <= 255 * s.count
            &&& 0 <= s.b <= 255 * s.count
            &&& 0 <= s.a <= 255 * s.count
        }),
    decreases x1 - x0,
{
    let s = box_stat(buf, x0, x1, y0, y1, reg);
    let mx = vstd::math::max(x1 - x0, 0);
    let my = vstd::math::max(y1 - y0, 0);
    if x1 <= x0 {
        assert(0 * my == 0) by (nonlinear_arith);
    } else {
        lemma_box_stat_bounds(buf, x0, x1 - 1, y0, y1, reg);
        lemma_col_stat_bounds(buf, x1 - 1, y0, y1, reg);
        assert((mx - 1) * my + my == mx * my) by (nonlinear_arith);
    }
}

proof fn lemma_box_remaining_bounds(
    buf: PixelBuffer,
    x0: int,
    x1: int,
    y0: int,
    y1: int,
    reg: CellRegion,
    bg: Color,
)
    ensures
        0 <= box_remaining(buf, x0, x1, y0, y1, reg, bg) <= box_stat(
            buf,
            x0,
            x1,
            y0,
            y1,
            reg,
        ).count,
    decreases x1 - x0,
{
    if x1 > x0 {
        lemma_box_remaining_bounds(buf, x0, x1 - 1, y0, y1, reg, bg);
        lemma_col_remaining_bounds(buf, x1 - 1, y0, y1, reg, bg);
        lemma_col_stat_bounds(buf, x1 - 1, y0, y1, reg);
    }
}

/// The qualifying-pixel count never exceeds the buffer area.
proof fn lemma_box_stat_area(
    buf: PixelBuffer,
    x0: int,
    x1: int,
    y0: int,
    y1: int,
    reg: CellRegion,
)
    requires
        buf.wf(),
        0 <= x0,
        x1 <= buf.width,
        0 <= y0,
        y1 <= buf.height,
    ensures
        0 <= box_stat(buf, x0, x1, y0, y1, reg).count <= buf.data@.len(),
        ({
            let s = box_stat(buf, x0, x1, y0, y1, reg);
            &&& 0 <= s.r <= 255 * s.count
            &&& 0 <= s.g <= 255 * s.count
            &&& 0 <= s.b <= 255 * s.count
            &&& 0 <= s.a <= 255 * s.count
        }),
{
    lemma_box_stat_bounds(buf, x0, x1, y0, y1, reg);
    let mx = vstd::math::max(x1 - x0, 0);
    let my = vstd::math::max(y1 - y0, 0);
    assert(mx * my <= 4 * (buf.width as int) * (buf.height as int)) by (nonlinear_arith)
        requires
            0 <= mx <= buf.width,
            0 <= my <= buf.height,
    ;
}

/// A partial pass (full columns up to `x`, then a part of column `x`)
/// never counts more than a quarter of the buffer's bytes.
proof fn lemma_partial_area(
    buf: PixelBuffer,
    x0: int,
    x: int,
    y0: int,
    ypart: int,
    y1: int,
    reg: CellRegion,
)
    requires
        buf.wf(),
        0 <= x0 <= x < buf.width,
        0 <= y0 <= ypart <= y1 <= buf.height,
    ensures
        ({
            let b = box_stat(buf, x0, x, y0, y1, reg);
            let c = col_stat(buf, x, y0, ypart, reg);
            &&& 0 <= b.count + c.count
            &&& 4 * (b.count + c.count) <= buf.data@.len()
            &&& 0 <= b.r + c.r <= 255 * (b.count + c.count)
            &&& 0 <= b.g + c.g <= 255 * (b.count + c.count)
            &&& 0 <= b.b + c.b <= 255 * (b.count + c.count)
            &&& 0 <= b.a + c.a <= 255 * (b.count + c.count)
        }),
{
    lemma_box_stat_bounds(buf, x0, x, y0, y1, reg);
    lemma_col_stat_bounds(buf, x, y0, ypart, reg);
    let mx = vstd::math::max(x - x0, 0);
    let my = vstd::math::max(y1 - y0, 0);
    assert(4 * (mx * my + my) <= 4 * (buf.width as int) * (buf.height as int))
        by (nonlinear_arith)
        requires
            0 <= mx,
            mx + 1 <= buf.width as int,
            0 <= my <= buf.height as int,
            buf.width as int >= 1,
    ;
    assert(vstd::math::max(ypart - y0, 0) <= my);
}

/// Walks the box `[x0, x1) x [y0, y1)` and accumulates the count and
/// channel sums of the pixels inside the region.
fn sample_box(
    img: &PixelBuffer,
    x0: u32,
    x1: u32,
    y0: u32,
    y1: u32,
    reg: &CellRegion,
) -> (res: (u64, u128, u128, u128, u128))
    requires
        img.wf(),
        x0 <= x1 <= img.width,
        y0 <= y1 <= img.height,
    ensures
        ({
            let s = box_stat(*img, x0 as int, x1 as int, y0 as int, y1 as int, *reg);
            res.0 == s.count && res.1 == s.r && res.2 == s.g && res.3 == s.b && res.4 == s.a
        }),
{
    let mut count: u64 = 0;
    let mut sum_r: u128 = 0;
    let mut sum_g: u128 = 0;
    let mut sum_b: u128 = 0;
    let mut sum_a: u128 = 0;
    let mut x = x0;
    while x < x1
        invariant
            img.wf(),
            x0 <= x <= x1 <= img.width,
            y0 <= y1 <= img.height,
            ({
                let s = box_stat(*img, x0 as int, x as int, y0 as int, y1 as int, *reg);
                count == s.count && sum_r == s.r && sum_g == s.g && sum_b == s.b && sum_a == s.a
            }),
        decreases x1 - x,
    {
        let mut y = y0;
        while y < y1
            invariant
                img.wf(),
                x0 <= x < x1 <= img.width,
                y0 <= y <= y1 <= img.height,
                ({
                    let b = box_stat(*img, x0 as int, x as int, y0 as int, y1 as int, *reg);
                    let c = col_stat(*img, x as int, y0 as int, y as int, *reg);
                    &&& count == b.count + c.count
                    &&& sum_r == b.r + c.r
                    &&& sum_g == b.g + c.g
                    &&& sum_b == b.b + c.b
                    &&& sum_a == b.a + c.a
                }),
            decreases y1 - y,
        {
            proof {
                vstd::std_specs::vec::axiom_spec_len(&img.data);
                lemma_partial_area(
                    *img,
                    x0 as int,
                    x as int,
                    y0 as int,
                    y as int,
                    y1 as int,
                    *reg,
                );
            }
            if region_contains_exec(reg, x, y) {
                let p = img.get_pixel(x, y);
                count = count + 1;
                sum_r = sum_r + p.r as u128;
                sum_g = sum_g + p.g as u128;
                sum_b = sum_b + p.b as u128;
                sum_a = sum_a + p.a as u128;
            }
            y = y + 1;
        }
        x = x + 1;
    }
    (count, sum_r, sum_g, sum_b, sum_a)
}

/// Walks the box and counts the qualifying pixels and, among them, the
/// pixels whose color differs from `bg` by more than the background
/// threshold.
fn count_remaining_box(
    img: &PixelBuffer,
    x0: u32,
    x1: u32,
    y0: u32,
    y1: u32,
    reg: &CellRegion,
    bg: Color,
) -> (res: (u64, u64))
    requires
        img.wf(),
        x0 <= x1 <= img.width,
        y0 <= y1 <= img.height,
    ensures
        res.0 == box_stat(*img, x0 as int, x1 as int, y0 as int, y1 as int, *reg).count,
        res.1 == box_remaining(*img, x0 as int, x1 as int, y0 as int, y1 as int, *reg, bg),
        res.1 <= res.0,
{
    let mut total: u64 = 0;
    let mut remaining: u64 = 0;
    let mut x = x0;
    while x < x1
        invariant
            img.wf(),
            x0 <= x <= x1 <= img.width,
            y0 <= y1 <= img.height,
            total == box_stat(*img, x0 as int, x as int, y0 as int, y1 as int, *reg).count,
            remaining == box_remaining(
                *img,
                x0 as int,
                x as int,
                y0 as int,
                y1 as int,
                *reg,
                bg,
            ),
            remaining <= total,
        decreases x1 - x,
    {
        let mut y = y0;
        while y < y1
            invariant
                img.wf(),
                x0 <= x < x1 <= img.width,
                y0 <= y <= y1 <= img.height,
                total == box_stat(*img, x0 as int, x as int, y0 as int, y1 as int, *reg).count
                    + col_stat(*img, x as int, y0 as int, y as int, *reg).count,
                remaining == box_remaining(
                    *img,
                    x0 as int,
                    x as int,
                    y0 as int,
                    y1 as int,
                    *reg,
                    bg,
                ) + col_remaining(*img, x as int, y0 as int, y as int, *reg, bg),
                remaining <= total,
            decreases y1 - y,
        {
            proof {
                vstd::std_specs::vec::axiom_spec_len(&img.data);
                lemma_partial_area(
                    *img,
                    x0 as int,
                    x as int,
                    y0 as int,
                    y as int,
                    y1 as int,
                    *reg,
                );
                lemma_box_remaining_bounds(
                    *img,
                    x0 as int,
                    x as int,
                    y0 as int,
                    y1 as int,
                    *reg,
                    bg,
                );
                lemma_col_remaining_bounds(*img, x as int, y0 as int, y as int, *reg, bg);
            }
            if region_contains_exec(reg, x, y) {
                let p = img.get_pixel(x, y);
                total = total + 1;
                if calc_color_distance((p.r, p.g, p.b), (bg.r, bg.g, bg.b))
                    > BG_DISTANCE_THRESHOLD {
                    remaining = remaining + 1;
                }
            }
            y = y + 1;
        }
        x = x + 1;
    }
    proof {
        lemma_box_remaining_bounds(
            *img,
            x0 as int,
            x1 as int,
            y0 as int,
            y1 as int,
            *reg,
            bg,
        );
    }
    (total, remaining)
}

/// The bounding box edges are ordered and lie in `u32` range.
proof fn lemma_bbox_bounds(pts: Seq<Point>)
    requires
        pts.len() >= 1,
    ensures
        0 <= min_x_of(pts) <= max_x_of(pts) <= u32::MAX,
        0 <= min_y_of(pts) <= max_y_of(pts) <= u32::MAX,
    decreases pts.len(),
{
    if pts.len() > 1 {
        lemma_bbox_bounds(pts.take(pts.len() - 1));
    }
}

/// Channel means never exceed 255.
proof fn lemma_avg_le_255(sum: int, count: int)
    requires
        count >= 1,
        0 <= sum <= 255 * count,
    ensures
        0 <= sum / count <= 255,
{
    vstd::arithmetic::div_mod::lemma_div_is_ordered(sum, 255 * count, count);
    vstd::arithmetic::mul::lemma_mul_is_commutative(255, count);
    vstd::arithmetic::div_mod::lemma_div_multiples_vanish(255, count);
    vstd::arithmetic::div_mod::lemma_div_basics_4(sum, count);
}

/// The sampling region of a triangle cell.
pub open spec fn points_region_tri(pts: Seq<Point>) -> CellRegion {
    CellRegion::Tri(pts[0], pts[1], pts[2])
}

/// The totals of a triangle cell's sampling pass.
pub open spec fn triangle_stat(buf: PixelBuffer, pts: Seq<Point>) -> PixStat {
    box_stat(
        buf,
        min_x_of(pts),
        max_x_of(pts),
        min_y_of(pts),
        max_y_of(pts),
        points_region_tri(pts),
    )
}

/// The totals of a rectangle cell's sampling pass.
pub open spec fn rect_stat(buf: PixelBuffer, pts: Seq<Point>) -> PixStat {
    box_stat(buf, min_x_of(pts), max_x_of(pts), min_y_of(pts), max_y_of(pts), CellRegion::Whole)
}

/// The remaining-pixel count of a triangle cell.
pub open spec fn triangle_remaining(buf: PixelBuffer, pts: Seq<Point>, bg: Color) -> int {
    box_remaining(
        buf,
        min_x_of(pts),
        max_x_of(pts),
        min_y_of(pts),
        max_y_of(pts),
        points_region_tri(pts),
        bg,
    )
}

/// The remaining-pixel count of a rectangle cell.
pub open spec fn rect_remaining(buf: PixelBuffer, pts: Seq<Point>, bg: Color) -> int {
    box_remaining(
        buf,
        min_x_of(pts),
        max_x_of(pts),
        min_y_of(pts),
        max_y_of(pts),
        CellRegion::Whole,
        bg,
    )
}

/// The channel-wise mean of a pass, truncated to integers.
pub open spec fn stat_avg_color(s: PixStat) -> Color {
    Color {
        r: (s.r / s.count) as u8,
        g: (s.g / s.count) as u8,
        b: (s.b / s.count) as u8,
        a: (s.a / s.count) as u8,
    }
}

/// The remaining-area ratio in units of `1 / RATIO_SCALE`.
pub open spec fn remaining_ratio_spec(remaining: int, total: int) -> int {
    (remaining * RATIO_SCALE) / total
}

fn average_color_of_box(
    img: &PixelBuffer,
    points: &Vec<Point>,
    reg: &CellRegion,
) -> (r: Result<Color, SampleError>)
    requires
        img.wf(),
        points@.len() >= 1,
        max_x_of(points@) <= img.width,
        max_y_of(points@) <= img.height,
    ensures
        ({
            let s = box_stat(
                *img,
                min_x_of(points@),
                max_x_of(points@),
                min_y_of(points@),
                max_y_of(points@),
                *reg,
            );
            &&& r is Ok <==> s.count > 0
            &&& r is Err ==> r == Err::<Color, SampleError>(SampleError::EmptyCell)
            &&& r is Ok ==> r == Ok::<Color, SampleError>(stat_avg_color(s))
        }),
{
    proof {
        lemma_bbox_bounds(points@);
    }
    let bbox = bounding_box(points);
    let min_x = bbox.0;
    let min_y = bbox.1;
    let max_x = bbox.2;
    let max_y = bbox.3;
    let res = sample_box(img, min_x, max_x, min_y, max_y, reg);
    let count = res.0;
    if count == 0 {
        return Err(SampleError::EmptyCell);
    }
    proof {
        lemma_box_stat_area(
            *img,
            min_x as int,
            max_x as int,
            min_y as int,
            max_y as int,
            *reg,
        );
        let s = box_stat(*img, min_x as int, max_x as int, min_y as int, max_y as int, *reg);
        lemma_avg_le_255(s.r, s.count);
        lemma_avg_le_255(s.g, s.count);
        lemma_avg_le_255(s.b, s.count);
        lemma_avg_le_255(s.a, s.count);
    }
    Ok(Color {
        r: (res.1 / count as u128) as u8,
        g: (res.2 / count as u128) as u8,
        b: (res.3 / count as u128) as u8,
        a: (res.4 / count as u128) as u8,
    })
}

fn remaining_ratio_of_box(
    img: &PixelBuffer,
    points: &Vec<Point>,
    reg: &CellRegion,
    bg: Color,
) -> (r: Result<u32, SampleError>)
    requires
        img.wf(),
        points@.len() >= 1,
        max_x_of(points@) <= img.width,
        max_y_of(points@) <= img.height,
    ensures
        ({
            let s = box_stat(
                *img,
                min_x_of(points@),
                max_x_of(points@),
                min_y_of(points@),
                max_y_of(points@),
                *reg,
            );
            let rem = box_remaining(
                *img,
                min_x_of(points@),
                max_x_of(points@),
                min_y_of(points@),
                max_y_of(points@),
                *reg,
                bg,
            );
            &&& r is Ok <==> s.count > 0
            &&& r is Err ==> r == Err::<u32, SampleError>(SampleError::EmptyCell)
            &&& r is Ok ==> r == Ok::<u32, SampleError>(
                remaining_ratio_spec(rem, s.count) as u32,
            ) && remaining_ratio_spec(rem, s.count) <= RATIO_SCALE
        }),
{
    proof {
        lemma_bbox_bounds(points@);
    }
    let bbox = bounding_box(points);
    let min_x = bbox.0;
    let min_y = bbox.1;
    let max_x = bbox.2;
    let max_y = bbox.3;
    let res = count_remaining_box(img, min_x, max_x, min_y, max_y, reg, bg);
    let total = res.0;
    let remaining = res.1;
    if total == 0 {
        return Err(SampleError::EmptyCell);
    }
    let ratio = ((remaining as u128 * RATIO_SCALE as u128) / total as u128) as u32;
    proof {
        let t = total as int;
        let rem = remaining as int;
        vstd::arithmetic::mul::lemma_mul_inequality(rem, t, RATIO_SCALE as int);
        vstd::arithmetic::div_mod::lemma_div_is_ordered(
            rem * (RATIO_SCALE as int),
            t * (RATIO_SCALE as int),
            t,
        );
        vstd::arithmetic::mul::lemma_mul_is_commutative(t, RATIO_SCALE as int);
        vstd::arithmetic::div_mod::lemma_div_multiples_vanish(RATIO_SCALE as int, t);
        vstd::arithmetic::div_mod::lemma_div_basics_4(rem * (RATIO_SCALE as int), t);
    }
    Ok(ratio)
}

/// Computes the average color of the pixels inside a triangle cell.
/// Fails with `EmptyCell` exactly when the triangle covers no pixel.
pub fn calc_average_color_in_triangle(img: &PixelBuffer, points: &Vec<Point>) -> (r: Result<
    Color,
    SampleError,
>)
    requires
        img.wf(),
        points@.len() == 3,
        max_x_of(points@) <= img.width,
        max_y_of(points@) <= img.height,
    ensures
        r is Ok <==> triangle_stat(*img, points@).count > 0,
        r is Err ==> r == Err::<Color, SampleError>(SampleError::EmptyCell),
        r is Ok ==> r == Ok::<Color, SampleError>(stat_avg_color(triangle_stat(*img, points@))),
{
    let reg = CellRegion::Tri(points[0], points[1], points[2]);
    average_color_of_box(img, points, &reg)
}

/// Computes the average color of the pixels of a rectangle cell (the
/// cell equals its bounding box, so every box pixel counts). Fails with
/// `EmptyCell` exactly when the box is degenerate.
pub fn calc_average_color_in_rectangle(img: &PixelBuffer, points: &Vec<Point>) -> (r: Result<
    Color,
    SampleError,
>)
    requires
        img.wf(),
        points@.len() == 4,
        max_x_of(points@) <= img.width,
        max_y_of(points@) <= img.height,
    ensures
        r is Ok <==> rect_stat(*img, points@).count > 0,
        r is Err ==> r == Err::<Color, SampleError>(SampleError::EmptyCell),
        r is Ok ==> r == Ok::<Color, SampleError>(stat_avg_color(rect_stat(*img, points@))),
{
    let reg = CellRegion::Whole;
    average_color_of_box(img, points, &reg)
}

/// The fraction of triangle pixels whose color differs from `bg_color`
/// by more than the background threshold, in `1 / RATIO_SCALE` units.
pub fn calc_remaining_area_ratio_in_triangle(
    img: &PixelBuffer,
    bg_color: Color,
    points: &Vec<Point>,
) -> (r: Result<u32, SampleError>)
    requires
        img.wf(),
        points@.len() == 3,
        max_x_of(points@) <= img.width,
        max_y_of(points@) <= img.height,
    ensures
        r is Ok <==> triangle_stat(*img, points@).count > 0,
        r is Err ==> r == Err::<u32, SampleError>(SampleError::EmptyCell),
        r is Ok ==> r == Ok::<u32, SampleError>(
            remaining_ratio_spec(
                triangle_remaining(*img, points@, bg_color),
                triangle_stat(*img, points@).count,
            ) as u32,
        ) && remaining_ratio_spec(
            triangle_remaining(*img, points@, bg_color),
            triangle_stat(*img, points@).count,
        ) <= RATIO_SCALE,
{
    let reg = CellRegion::Tri(points[0], points[1], points[2]);
    remaining_ratio_of_box(img, points, &reg, bg_color)
}

/// The fraction of rectangle pixels whose color differs from `bg_color`
/// by more than the background threshold, in `1 / RATIO_SCALE` units.
pub fn calc_remaining_area_ratio_in_rectangle(
    img: &PixelBuffer,
    bg_color: Color,
    points: &Vec<Point>,
) -> (r: Result<u32, SampleError>)
    requires
        img.wf(),
        points@.len() == 4,
        max_x_of(points@) <= img.width,
        max_y_of(points@) <= img.height,
    ensures
        r is Ok <==> rect_stat(*img, points@).count > 0,
        r is Err ==> r == Err::<u32, SampleError>(SampleError::EmptyCell),
        r is Ok ==> r == Ok::<u32, SampleError>(
            remaining_ratio_spec(
                rect_remaining(*img, points@, bg_color),
                rect_stat(*img, points@).count,
            ) as u32,
        ) && remaining_ratio_spec(
            rect_remaining(*img, points@, bg_color),
            rect_stat(*img, points@).count,
        ) <= RATIO_SCALE,
{
    let reg = CellRegion::Whole;
    remaining_ratio_of_box(img, points, &reg, bg_color)
}

/// The sampling region of a cell, by its shape.
pub open spec fn grid_region(g: GridView) -> CellRegion {
    match g.shape {
        GridShape::Triangle => points_region_tri(g.points),
        GridShape::Rectangle => CellRegion::Whole,
    }
}

/// The totals of one cell's sampling pass.
pub open spec fn grid_stat(buf: PixelBuffer, g: GridView) -> PixStat {
    box_stat(
        buf,
        min_x_of(g.points),
        max_x_of(g.points),
        min_y_of(g.points),
        max_y_of(g.points),
        grid_region(g),
    )
}

/// The remaining-pixel count of one cell under background `bg`.
pub open spec fn grid_remaining(buf: PixelBuffer, g: GridView, bg: Color) -> int {
    box_remaining(
        buf,
        min_x_of(g.points),
        max_x_of(g.points),
        min_y_of(g.points),
        max_y_of(g.points),
        grid_region(g),
        bg,
    )
}

/// A triangle's qualifying-pixel count is never negative.
pub proof fn lemma_triangle_stat_nonneg(buf: PixelBuffer, t: Seq<Point>)
    ensures
        triangle_stat(buf, t).count >= 0,
{
    lemma_box_stat_bounds(
        buf,
        min_x_of(t),
        max_x_of(t),
        min_y_of(t),
        max_y_of(t),
        points_region_tri(t),
    );
}

/// A cell's qualifying-pixel count is never negative.
pub proof fn lemma_grid_stat_nonneg(buf: PixelBuffer, g: GridView)
    ensures
        grid_stat(buf, g).count >= 0,
{
    lemma_box_stat_bounds(
        buf,
        min_x_of(g.points),
        max_x_of(g.points),
        min_y_of(g.points),
        max_y_of(g.points),
        grid_region(g),
    );
}

/// The average color of one cell (meaningful when the cell covers at
/// least one pixel).
pub open spec fn grid_avg_color(buf: PixelBuffer, g: GridView) -> Color {
    stat_avg_color(grid_stat(buf, g))
}

/// The remaining-area ratio of one cell, in `1 / RATIO_SCALE` units.
pub open spec fn grid_ratio(buf: PixelBuffer, g: GridView, bg: Color) -> int {
    remaining_ratio_spec(grid_remaining(buf, g, bg), grid_stat(buf, g).count)
}

/// Computes the average color of one cell, by its shape.
pub fn calc_avg_color_of_grid(img: &PixelBuffer, grid: &Grid) -> (r: Result<Color, SampleError>)
    requires
        img.wf(),
        grid_wf(grid@),
        grid_in_canvas(grid@, img.width as int, img.height as int),
    ensures
        r is Ok <==> grid_stat(*img, grid@).count > 0,
        r is Err ==> r == Err::<Color, SampleError>(SampleError::EmptyCell),
        r is Ok ==> r == Ok::<Color, SampleError>(grid_avg_color(*img, grid@)),
{
    proof {
        lemma_bbox_in_canvas(grid@.points, img.width as int, img.height as int);
    }
    match grid.shape {
        GridShape::Triangle => calc_average_color_in_triangle(img, &grid.points),
        GridShape::Rectangle => calc_average_color_in_rectangle(img, &grid.points),
    }
}

/// Computes the remaining-area ratio of one cell after eliminating the
/// background color, by its shape.
pub fn calc_remaining_area_ratio_in_grid(
    img: &PixelBuffer,
    grid: &Grid,
    bg_color: Color,
) -> (r: Result<u32, SampleError>)
    requires
        img.wf(),
        grid_wf(grid@),
        grid_in_canvas(grid@, img.width as int, img.height as int),
    ensures
        r is Ok <==> grid_stat(*img, grid@).count > 0,
        r is Err ==> r == Err::<u32, SampleError>(SampleError::EmptyCell),
        r is Ok ==> r == Ok::<u32, SampleError>(grid_ratio(*img, grid@, bg_color) as u32)
            && 0 <= grid_ratio(*img, grid@, bg_color) <= RATIO_SCALE,
{
    proof {
        lemma_bbox_in_canvas(grid@.points, img.width as int, img.height as int);
    }
    let res = match grid.shape {
        GridShape::Triangle => calc_remaining_area_ratio_in_triangle(img, bg_color, &grid.points),
        GridShape::Rectangle => calc_remaining_area_ratio_in_rectangle(
            img,
            bg_color,
            &grid.points,
        ),
    };
    proof {
        if grid_stat(*img, grid@).count > 0 {
            lemma_box_remaining_bounds(
                *img,
                min_x_of(grid@.points),
                max_x_of(grid@.points),
                min_y_of(grid@.points),
                max_y_of(grid@.points),
                grid_region(grid@),
                bg_color,
            );
            vstd::arithmetic::div_mod::lemma_div_basics_4(
                grid_remaining(*img, grid@, bg_color) * (RATIO_SCALE as int),
                grid_stat(*img, grid@).count,
            );
            vstd::arithmetic::mul::lemma_mul_inequality(
                0,
                grid_remaining(*img, grid@, bg_color),
                RATIO_SCALE as int,
            );
        }
    }
    res
}

proof fn lemma_uniform_col(
    buf: PixelBuffer,
    c: Color,
    x: int,
    y0: int,
    y1: int,
    reg: CellRegion,
)
    requires
        buf.spec_uniform(c),
        0 <= x < buf.width,
        0 <= y0,
        y1 <= buf.height,
    ensures
        ({
            let s = col_stat(buf, x, y0, y1, reg);
            &&& s.r == c.r * s.count
            &&& s.g == c.g * s.count
            &&& s.b == c.b * s.count
            &&& s.a == c.a * s.count
        }),
        col_remaining(buf, x, y0, y1, reg, c) == 0,
    decreases y1 - y0,
{
    if y1 > y0 {
        lemma_uniform_col(buf, c, x, y0, y1 - 1, reg);
        crate::utils::lemma_color_distance_zero((c.r, c.g, c.b));
        let prev = col_stat(buf, x, y0, y1 - 1, reg);
        assert(c.r * (prev.count + 1) == c.r * prev.count + c.r) by (nonlinear_arith);
        assert(c.g * (prev.count + 1) == c.g * prev.count + c.g) by (nonlinear_arith);
        assert(c.b * (prev.count + 1) == c.b * prev.count + c.b) by (nonlinear_arith);
        assert(c.a * (prev.count + 1) == c.a * prev.count + c.a) by (nonlinear_arith);
    } else {
        assert(c.r * 0 == 0) by (nonlinear_arith);
        assert(c.g * 0 == 0) by (nonlinear_arith);
        assert(c.b * 0 == 0) by (nonlinear_arith);
        assert(c.a * 0 == 0) by (nonlinear_arith);
    }
}

proof fn lemma_uniform_box(
    buf: PixelBuffer,
    c: Color,
    x0: int,
    x1: int,
    y0: int,
    y1: int,
    reg: CellRegion,
)
    requires
        buf.spec_uniform(c),
        0 <= x0,
        x1 <= buf.width,
        0 <= y0,
        y1 <= buf.height,
    ensures
        ({
            let s = box_stat(buf, x0, x1, y0, y1, reg);
            &&& s.r == c.r * s.count
            &&& s.g == c.g * s.count
            &&& s.b == c.b * s.count
            &&& s.a == c.a * s.count
        }),
        box_remaining(buf, x0, x1, y0, y1, reg, c) == 0,
    decreases x1 - x0,
{
    if x1 > x0 {
        lemma_uniform_box(buf, c, x0, x1 - 1, y0, y1, reg);
        lemma_uniform_col(buf, c, x1 - 1, y0, y1, reg);
        let prev = box_stat(buf, x0, x1 - 1, y0, y1, reg);
        let col = col_stat(buf, x1 - 1, y0, y1, reg);
        assert(c.r * (prev.count + col.count) == c.r * prev.count + c.r * col.count)
            by (nonlinear_arith);
        assert(c.g * (prev.count + col.count) == c.g * prev.count + c.g * col.count)
            by (nonlinear_arith);
        assert(c.b * (prev.count + col.count) == c.b * prev.count + c.b * col.count)
            by (nonlinear_arith);
        assert(c.a * (prev.count + col.count) == c.a * prev.count + c.a * col.count)
            by (nonlinear_arith);
    } else {
        assert(c.r * 0 == 0) by (nonlinear_arith);
        assert(c.g * 0 == 0) by (nonlinear_arith);
        assert(c.b * 0 == 0) by (nonlinear_arith);
        assert(c.a * 0 == 0) by (nonlinear_arith);
    }
}

/// Sampling a cell of a buffer filled uniformly with `c` returns
/// exactly `c`: the per-channel means equal the channels.
pub proof fn lemma_average_color_of_uniform(buf: PixelBuffer, g: GridView, c: Color)
    requires
        buf.wf(),
        buf.spec_uniform(c),
        grid_wf(g),
        grid_in_canvas(g, buf.width as int, buf.height as int),
        grid_stat(buf, g).count > 0,
    ensures
        grid_avg_color(buf, g) == c,
{
    lemma_bbox_bounds(g.points);
    lemma_bbox_in_canvas(g.points, buf.width as int, buf.height as int);
    lemma_uniform_box(
        buf,
        c,
        min_x_of(g.points),
        max_x_of(g.points),
        min_y_of(g.points),
        max_y_of(g.points),
        grid_region(g),
    );
    let s = grid_stat(buf, g);
    vstd::arithmetic::mul::lemma_mul_is_commutative(c.r as int, s.count);
    vstd::arithmetic::mul::lemma_mul_is_commutative(c.g as int, s.count);
    vstd::arithmetic::mul::lemma_mul_is_commutative(c.b as int, s.count);
    vstd::arithmetic::mul::lemma_mul_is_commutative(c.a as int, s.count);
    vstd::arithmetic::div_mod::lemma_div_multiples_vanish(c.r as int, s.count);
    vstd::arithmetic::div_mod::lemma_div_multiples_vanish(c.g as int, s.count);
    vstd::arithmetic::div_mod::lemma_div_multiples_vanish(c.b as int, s.count);
    vstd::arithmetic::div_mod::lemma_div_multiples_vanish(c.a as int, s.count);
}

/// On a buffer that is 100% background color no pixel remains: the
/// remaining count of every cell is zero, and so is its ratio.
pub proof fn lemma_remaining_of_uniform_background(buf: PixelBuffer, g: GridView, bg: Color)
    requires
        buf.wf(),
        buf.spec_uniform(bg),
        grid_wf(g),
        grid_in_canvas(g, buf.width as int, buf.height as int),
    ensures
        grid_remaining(buf, g, bg) == 0,
        grid_stat(buf, g).count > 0 ==> grid_ratio(buf, g, bg) == 0,
{
    lemma_bbox_bounds(g.points);
    lemma_bbox_in_canvas(g.points, buf.width as int, buf.height as int);
    lemma_uniform_box(
        buf,
        bg,
        min_x_of(g.points),
        max_x_of(g.points),
        min_y_of(g.points),
        max_y_of(g.points),
        grid_region(g),
    );
    let t = grid_stat(buf, g).count;
    if t > 0 {
        assert(0 * (RATIO_SCALE as int) == 0) by (nonlinear_arith);
        vstd::arithmetic::div_mod::lemma_div_of0(t);
    }
}

} // verus!
