//! Tessellation and grid-selection engine for mosaic rendering.
//!
//! The crate tessellates a rectangular canvas into triangle or rectangle
//! cells, samples the pixels of a source image beneath each cell (average
//! color, background-remaining ratio), and selects cells according to a
//! strategy (color-similarity or background elimination).

pub mod api;
pub mod buffer;
pub mod canvas;
pub mod color;
pub mod geometry;
pub mod model;
pub mod pick;
pub mod repo;
pub mod sampler;
pub mod text;
pub mod utils;

pub use api::ApiError;
pub use api::ApiResponse;
pub use buffer::PixelBuffer;
pub use canvas::genarate_canvas_grids_filled_with_rectanles;
pub use canvas::genarate_canvas_grids_filled_with_trianles;
pub use canvas::generate_enmty_canvas_grids;
pub use canvas::get_all_triangles_of_canvas;
pub use canvas::get_canvas_grids_filled_with_trianles;
pub use canvas::get_down_triangle_points;
pub use canvas::get_up_triangle_points;
pub use color::Color;
pub use color::ColorParseError;
pub use geometry::Point;
pub use model::AvgColorCompareParam;
pub use model::CanvasGridGenerateParams;
pub use model::EliminateBgColorParam;
pub use model::Grid;
pub use model::GridExt;
pub use model::GridFillOptions;
pub use model::GridPickCmd;
pub use model::GridPickStrategy;
pub use model::GridShape;
pub use model::GridPickOptions;
pub use model::ImageInfo;
pub use model::SampleError;
pub use model::ShapePickStrategy;
pub use model::StrategyError;
pub use pick::build_pick_cmd;
pub use pick::generate_canvas_grids_from_logo_image;
pub use pick::pick_grids_by_strategy;
pub use pick::pick_triangles_from_canvas;
pub use pick::DEFAULT_MIN_REMAINING_RATIO;
pub use repo::ActivityDO;
pub use repo::ActivityGridDO;
pub use repo::ActivityInfoResult;
pub use repo::ActivityRepo;
pub use repo::ImageDO;
pub use repo::ImageRepo;
pub use repo::mark_grid_in_activity;
pub use repo::reset_activity_grids;
pub use sampler::calc_average_color_in_rectangle;
pub use sampler::calc_average_color_in_triangle;
pub use sampler::calc_avg_color_of_grid;
pub use sampler::calc_remaining_area_ratio_in_grid;
pub use sampler::calc_remaining_area_ratio_in_rectangle;
pub use sampler::calc_remaining_area_ratio_in_triangle;
pub use sampler::BG_DISTANCE_THRESHOLD;
pub use sampler::RATIO_SCALE;
pub use utils::calc_color_distance;
pub use utils::MAX_COLOR_DISTANCE;
