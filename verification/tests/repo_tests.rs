use logo_process::{
    mark_grid_in_activity, reset_activity_grids, ActivityDO, ActivityGridDO, ApiResponse,
    GridShape, Point,
};

fn sample_activity() -> ActivityDO {
    let grid = |seq: &str, marked: bool| ActivityGridDO {
        seq: seq.to_string(),
        points: vec![Point::new(0, 0), Point::new(1, 0), Point::new(0, 1)],
        shape: GridShape::Triangle,
        marked,
        unmarked_color: "#9099A2FF".to_string(),
        marked_color: "#FF0000FF".to_string(),
    };
    ActivityDO {
        id: "a1".to_string(),
        name: "launch wall".to_string(),
        grids: vec![grid("R1D1", false), grid("R1D2", false), grid("R1U1", true)],
        canvas_width: 100,
        canvas_height: 80,
        canvas_color: "#373737FF".to_string(),
    }
}

#[test]
fn mark_grid_sets_only_the_matching_cell() {
    let mut activity = sample_activity();
    let found = mark_grid_in_activity(&mut activity, &"R1D2".to_string());
    assert!(found);
    assert!(!activity.grids[0].marked);
    assert!(activity.grids[1].marked);
    assert!(activity.grids[2].marked);
    assert_eq!(activity.grids[1].seq, "R1D2");
    assert_eq!(activity.name, "launch wall");
}

#[test]
fn mark_grid_reports_missing_seq() {
    let mut activity = sample_activity();
    let found = mark_grid_in_activity(&mut activity, &"R9C9".to_string());
    assert!(!found);
    assert!(!activity.grids[0].marked);
    assert!(!activity.grids[1].marked);
    assert!(activity.grids[2].marked);
}

#[test]
fn reset_clears_every_mark() {
    let mut activity = sample_activity();
    mark_grid_in_activity(&mut activity, &"R1D1".to_string());
    reset_activity_grids(&mut activity);
    for g in &activity.grids {
        assert!(!g.marked);
    }
    assert_eq!(activity.grids.len(), 3);
    assert_eq!(activity.grids[0].seq, "R1D1");
    assert_eq!(activity.canvas_color, "#373737FF");
}

#[test]
fn api_response_ok_wraps_payload() {
    let r = ApiResponse::ok(41u32);
    assert!(r.success);
    assert!(r.err_code.is_none());
    assert!(r.err_message.is_none());
    assert_eq!(r.data, 41);
}
