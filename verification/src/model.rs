//! The grid data model: cells, their computed attributes, fill options
//! and selection strategies.

use vstd::prelude::*;
use crate::color::Color;
use crate::geometry::Point;

verus! {

/// The shape of one tessellation cell.
#[derive(Debug, Clone, Copy, PartialEq, Eq, Structural)]
pub enum GridShape {
    Triangle,
    Rectangle,
}

/// Computed and decorative attributes attached to a cell after sampling,
/// selection or rendering preparation. All fields start unset and each is
/// populated independently by the stage that computes it.
#[derive(Debug, Clone, Copy, PartialEq, Eq)]
pub struct GridExt {
    /// Average color of the cell's pixels, set by sampling.
    pub avg_color: Option<Color>,
    /// Distance of `avg_color` to a strategy's target color, on the
    /// `[0, 100]` scale of `calc_color_distance`.
    pub color_distance: Option<u32>,
    /// Fraction of cell pixels left after eliminating the background
    /// color, in units of `1 / RATIO_SCALE`.
    pub remaining_area_ratio: Option<u32>,
    /// Verdict of the selection strategy.
    pub selected: Option<bool>,
    /// Rendering fill color, set by a caller.
    pub fill_color: Option<Color>,
    /// Rendering border color, set by a caller.
    pub border_color: Option<Color>,
}

impl Default for GridExt {
    /// The extension record with every field unset.
    fn default() -> (e: GridExt)
        ensures
            e == GridExt::empty(),
    {
        GridExt {
            avg_color: None,
            color_distance: None,
            remaining_area_ratio: None,
            selected: None,
            fill_color: None,
            border_color: None,
        }
    }
}

impl GridExt {
    /// The extension record with every field unset.
    pub open spec fn empty() -> GridExt {
        GridExt {
            avg_color: None,
            color_distance: None,
            remaining_area_ratio: None,
            selected: None,
            fill_color: None,
            border_color: None,
        }
    }
}

/// One tessellation cell: a sequence id encoding row, orientation and
/// column, the shape tag, the ordered vertices, and the extension record.
#[derive(Debug, Clone, PartialEq)]
pub struct Grid {
    pub seq: String,
    pub shape: GridShape,
    pub points: Vec<Point>,
    pub ext: GridExt,
}

/// The mathematical value of a `Grid`.
pub ghost struct GridView {
    pub seq: Seq<char>,
    pub shape: GridShape,
    pub points: Seq<Point>,
    pub ext: GridExt,
}

impl View for Grid {
    type V = GridView;

    open spec fn view(&self) -> GridView {
        GridView { seq: self.seq@, shape: self.shape, points: self.points@, ext: self.ext }
    }
}

/// The views of a sequence of cells.
pub open spec fn grid_views(gs: Seq<Grid>) -> Seq<GridView> {
    gs.map_values(|g: Grid| g@)
}

/// A cell is well formed when its vertex count matches its shape.
pub open spec fn grid_wf(g: GridView) -> bool {
    match g.shape {
        GridShape::Triangle => g.points.len() == 3,
        GridShape::Rectangle => g.points.len() == 4,
    }
}

/// Every vertex lies on the `w x h` canvas (the right and bottom edges
/// included: sampling never reads at the maximum coordinates).
pub open spec fn grid_in_canvas(g: GridView, w: int, h: int) -> bool {
    forall|i: int| 0 <= i < g.points.len() ==> (#[trigger] g.points[i]).x <= w && g.points[i].y
        <= h
}

/// Canvas fill options: the cell shape and its two positive size
/// parameters (width and height).
#[derive(Debug, Clone, Copy, PartialEq, Eq, Structural)]
pub enum GridFillOptions {
    Triangle(u32, u32),
    Rectangle(u32, u32),
}

/// Strategy-kind discriminant, as it arrives at the request boundary
/// where the parameters are still loose.
#[derive(Debug, Clone, Copy, PartialEq, Eq, Structural)]
pub enum GridPickStrategy {
    AvgColorCompare,
    EliminateBgColor,
}

/// Average-color comparison: select a cell when the distance between its
/// average color and `color` lies within `[min_distance, max_distance]`,
/// on the `[0, 100]` scale of `calc_color_distance`.
#[derive(Debug, Clone, Copy, PartialEq, Eq, Structural)]
pub struct AvgColorCompareParam {
    pub color: Color,
    pub min_distance: u32,
    pub max_distance: u32,
}

/// Background elimination: select a cell when the ratio of pixels that
/// differ from the background color `color` is at least
/// `min_remaining_ratio`, in units of `1 / RATIO_SCALE`.
#[derive(Debug, Clone, Copy, PartialEq, Eq, Structural)]
pub struct EliminateBgColorParam {
    pub color: Color,
    pub min_remaining_ratio: u32,
}

/// A validated selection strategy with its parameters.
#[derive(Debug, Clone, Copy, PartialEq, Eq, Structural)]
pub enum GridPickCmd {
    AvgColorCompare(AvgColorCompareParam),
    EliminateBgColor(EliminateBgColorParam),
}

/// The full input of one generation request.
#[derive(Debug, Clone)]
pub struct CanvasGridGenerateParams {
    pub canvas_width: u32,
    pub canvas_height: u32,
    pub grid_fill_options: GridFillOptions,
    pub grid_pick_strategy: GridPickCmd,
}

/// Descriptive record of a stored source image.
#[derive(Debug)]
pub struct ImageInfo {
    pub id: String,
    pub width: u32,
    pub height: u32,
    pub name: String,
    pub path: String,
    pub bg_color: (u8, u8, u8),
}

impl Clone for ImageInfo {
    fn clone(&self) -> (r: ImageInfo)
        ensures
            r == *self,
    {
        ImageInfo {
            id: self.id.clone(),
            width: self.width,
            height: self.height,
            name: self.name.clone(),
            path: self.path.clone(),
            bg_color: (self.bg_color.0, self.bg_color.1, self.bg_color.2),
        }
    }
}

/// Sampling failure: the cell's polygon covers no pixel of the buffer,
/// which signals a caller bug (degenerate geometry or mismatched canvas
/// and buffer dimensions).
#[derive(Debug, Clone, Copy, PartialEq, Eq, Structural)]
pub enum SampleError {
    EmptyCell,
}

/// Loose selection parameters as they arrive at the request boundary;
/// `remaining_ratio` is in units of `1 / RATIO_SCALE`.
#[derive(Debug, Clone)]
pub struct GridPickOptions {
    pub color_distance_range: Option<(u8, u8)>,
    pub remaining_ratio: Option<u32>,
    pub target_color: Option<String>,
}

/// Why a strategy could not be built from the loose boundary
/// parameters; each required parameter is checked at construction time,
/// before any sampling work begins.
#[derive(Debug, Clone, Copy, PartialEq, Eq, Structural)]
pub enum StrategyError {
    MissingTargetColor,
    InvalidTargetColor(crate::color::ColorParseError),
    MissingDistanceRange,
}

/// The strategies that pick bare triangle shapes (no grid metadata).
#[derive(Debug, Clone, Copy)]
pub enum ShapePickStrategy {
    AvgColorCompare(AvgColorCompareParam),
}

} // verus!
