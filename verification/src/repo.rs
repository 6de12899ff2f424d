//! Repository interfaces and records for stored activities and images,
//! and the verified per-activity grid updates the repositories apply.
//! The key-value stores themselves live outside the library.

use vstd::prelude::*;
use crate::api::ApiError;
use crate::geometry::Point;
use crate::model::GridShape;

verus! {

/// A stored activity: a canvas with its marked or unmarked grid cells.
#[derive(Debug, Clone)]
pub struct ActivityDO {
    pub id: String,
    pub name: String,
    pub grids: Vec<ActivityGridDO>,
    pub canvas_width: u32,
    pub canvas_height: u32,
    pub canvas_color: String,
}

/// One cell of a stored activity.
#[derive(Debug, Clone)]
pub struct ActivityGridDO {
    pub seq: String,
    pub points: Vec<Point>,
    pub shape: GridShape,
    pub marked: bool,
    pub unmarked_color: String,
    pub marked_color: String,
}

/// A row of the activity listing.
#[derive(Debug, Clone)]
pub struct ActivityInfoResult {
    pub id: String,
    pub name: String,
}

/// The activity store the web layer talks to.
pub trait ActivityRepo {
    fn get_activity(&self, id: &str) -> Option<ActivityDO>;

    fn list_activities(&self) -> Vec<ActivityInfoResult>;

    fn insert_activity(&self, activity: ActivityDO) -> Result<(), ApiError>;

    fn mark_grid_of_activity(&self, activity_id: &str, seq: &str) -> Result<(), ApiError>;

    fn reset_activity(&self, activity_id: &str) -> Result<(), ApiError>;
}

/// A stored source image.
#[derive(Debug)]
pub struct ImageDO {
    pub id: String,
    pub width: u32,
    pub height: u32,
    pub name: String,
    pub path: String,
    pub bg_color: (u8, u8, u8),
}

impl Clone for ImageDO {
    fn clone(&self) -> (r: ImageDO)
        ensures
            r == *self,
    {
        ImageDO {
            id: self.id.clone(),
            width: self.width,
            height: self.height,
            name: self.name.clone(),
            path: self.path.clone(),
            bg_color: (self.bg_color.0, self.bg_color.1, self.bg_color.2),
        }
    }
}

/// The image store the web layer talks to.
pub trait ImageRepo {
    fn get_image(&self, id: &str) -> Option<ImageDO>;

    fn list_images(&self) -> Vec<ImageDO>;

    fn insert_image(&self, image: ImageDO) -> Result<(), ApiError>;
}

/// Marks the first cell whose sequence id equals `seq`; returns whether
/// one was found. Nothing else of the activity changes; when no cell
/// matches, the activity is left exactly as it was.
pub fn mark_grid_in_activity(activity: &mut ActivityDO, seq: &String) -> (found: bool)
    ensures
        found == exists|i: int| 0 <= i < old(activity).grids@.len() && (#[trigger] old(
            activity,
        ).grids@[i]).seq@ == seq@,
        !found ==> *final(activity) == *old(activity),
        found ==> exists|k: int|
            {
                &&& 0 <= k < old(activity).grids@.len()
                &&& (#[trigger] old(activity).grids@[k]).seq@ == seq@
                &&& forall|j: int| 0 <= j < k ==> (#[trigger] old(activity).grids@[j]).seq@
                    != seq@
                &&& final(activity).grids@ == old(activity).grids@.update(
                    k,
                    ActivityGridDO { marked: true, ..old(activity).grids@[k] },
                )
            },
        final(activity).id == old(activity).id,
        final(activity).name == old(activity).name,
        final(activity).canvas_width == old(activity).canvas_width,
        final(activity).canvas_height == old(activity).canvas_height,
        final(activity).canvas_color == old(activity).canvas_color,
{
    let mut i: usize = 0;
    while i < activity.grids.len()
        invariant
            *activity == *old(activity),
            i <= activity.grids@.len(),
            forall|j: int| 0 <= j < i ==> (#[trigger] activity.grids@[j]).seq@ != seq@,
        decreases activity.grids@.len() - i,
    {
        if activity.grids[i].seq == *seq {
            activity.grids[i].marked = true;
            proof {
                let k = i as int;
                assert(final(activity).grids@ == old(activity).grids@.update(
                    k,
                    ActivityGridDO { marked: true, ..old(activity).grids@[k] },
                ));
            }
            return true;
        }
        i = i + 1;
    }
    false
}

/// Clears the `marked` flag of every cell of the activity; nothing
/// else changes.
pub fn reset_activity_grids(activity: &mut ActivityDO)
    ensures
        final(activity).grids@.len() == old(activity).grids@.len(),
        forall|i: int| 0 <= i < old(activity).grids@.len() ==> final(activity).grids@[i]
            == (ActivityGridDO { marked: false, ..(#[trigger] old(activity).grids@[i]) }),
        final(activity).id == old(activity).id,
        final(activity).name == old(activity).name,
        final(activity).canvas_width == old(activity).canvas_width,
        final(activity).canvas_height == old(activity).canvas_height,
        final(activity).canvas_color == old(activity).canvas_color,
{
    let mut i: usize = 0;
    while i < activity.grids.len()
        invariant
            activity.grids@.len() == old(activity).grids@.len(),
            i <= activity.grids@.len(),
            forall|j: int| 0 <= j < i ==> activity.grids@[j] == (ActivityGridDO {
                marked: false,
                ..(#[trigger] old(activity).grids@[j])
            }),
            forall|j: int| i <= j < activity.grids@.len() ==> activity.grids@[j] == (#[trigger] old(
                activity,
            ).grids@[j]),
            activity.id == old(activity).id,
            activity.name == old(activity).name,
            activity.canvas_width == old(activity).canvas_width,
            activity.canvas_height == old(activity).canvas_height,
            activity.canvas_color == old(activity).canvas_color,
        decreases activity.grids@.len() - i,
    {
        activity.grids[i].marked = false;
        i = i + 1;
    }
}

} // verus!
