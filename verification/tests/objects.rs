use sprite_hover::{InteractiveObject, ObjectError, SizeSource, WorldPoint};

fn fixed(width: u32, height: u32) -> SizeSource {
    SizeSource::FixedFootprint { width, height }
}

fn atlas(cell_width: u32, cell_height: u32, frame_count: u32) -> SizeSource {
    SizeSource::AtlasFootprint { cell_width, cell_height, frame_count }
}

fn at(x: i64, y: i64) -> Option<WorldPoint> {
    Some(WorldPoint { x, y })
}

fn hundredths(value: f64) -> i64 {
    (value * 100.0).round() as i64
}

#[test]
fn new_object_is_idle_on_its_first_frame() {
    let object = InteractiveObject::new(42, -300, 7, atlas(32, 16, 3)).unwrap();
    assert_eq!(object.id(), 42);
    assert_eq!(object.position(), (-300, 7));
    assert_eq!(object.source(), atlas(32, 16, 3));
    assert!(object.is_resolved());
    assert!(!object.is_hovered());
    assert_eq!(object.frame_index(), Some(0));
}

#[test]
fn fixed_image_has_no_frame_index() {
    let mut object = InteractiveObject::new(1, 0, 0, fixed(32, 32)).unwrap();
    assert_eq!(object.frame_index(), None);
    assert_eq!(object.step(at(0, 0)), Ok(()));
    assert!(object.is_hovered());
    assert_eq!(object.frame_index(), None);
    assert_eq!(object.source(), fixed(32, 32));
}

#[test]
fn empty_footprint_is_rejected() {
    assert_eq!(InteractiveObject::new(1, 0, 0, fixed(0, 32)), Err(ObjectError::EmptyFootprint));
    assert_eq!(InteractiveObject::new(1, 0, 0, fixed(32, 0)), Err(ObjectError::EmptyFootprint));
    assert_eq!(InteractiveObject::new(1, 0, 0, fixed(0, 0)), Err(ObjectError::EmptyFootprint));
    assert_eq!(InteractiveObject::new(1, 0, 0, atlas(0, 32, 3)), Err(ObjectError::EmptyFootprint));
    assert_eq!(InteractiveObject::new(1, 0, 0, atlas(32, 0, 3)), Err(ObjectError::EmptyFootprint));
    assert_eq!(InteractiveObject::new(1, 0, 0, atlas(0, 0, 0)), Err(ObjectError::EmptyFootprint));
}

#[test]
fn atlas_without_frames_is_rejected() {
    assert_eq!(
        InteractiveObject::new(1, 0, 0, atlas(32, 32, 0)),
        Err(ObjectError::InvalidFrameIndex)
    );
    assert!(InteractiveObject::new(1, 0, 0, atlas(32, 32, 1)).is_ok());
    assert!(InteractiveObject::new(1, 0, 0, atlas(1, 1, u32::MAX)).is_ok());
    assert!(InteractiveObject::new(1, 0, 0, fixed(u32::MAX, u32::MAX)).is_ok());
}

#[test]
fn fixed_image_hover_scenario() {
    let mut object = InteractiveObject::new(1, 300, 0, fixed(32, 32)).unwrap();
    assert_eq!(object.step(at(300, 0)), Ok(()));
    assert!(object.is_hovered());
    // The box reaches from 284 to 316: 316 is the last point inside.
    assert_eq!(object.step(at(316, 0)), Ok(()));
    assert!(object.is_hovered());
    assert_eq!(object.step(at(317, 0)), Ok(()));
    assert!(!object.is_hovered());
    assert_eq!(object.step(at(284, 0)), Ok(()));
    assert!(object.is_hovered());
    assert_eq!(object.step(at(283, 0)), Ok(()));
    assert!(!object.is_hovered());
}

#[test]
fn fixed_image_hover_scenario_in_hundredths() {
    let mut object =
        InteractiveObject::new(1, hundredths(300.0) as i32, 0, fixed(3200, 3200)).unwrap();
    assert_eq!(object.step(at(hundredths(300.0), 0)), Ok(()));
    assert!(object.is_hovered());
    assert_eq!(object.step(at(hundredths(316.0), 0)), Ok(()));
    assert!(object.is_hovered());
    assert_eq!(object.step(at(hundredths(316.01), 0)), Ok(()));
    assert!(!object.is_hovered());
    assert_eq!(object.step(at(hundredths(317.0), 0)), Ok(()));
    assert!(!object.is_hovered());
    assert_eq!(object.step(at(hundredths(317.01), 0)), Ok(()));
    assert!(!object.is_hovered());
}

#[test]
fn every_edge_and_corner_of_the_box_is_inside() {
    let object = InteractiveObject::new(1, 300, -100, fixed(32, 20)).unwrap();
    let inside = [
        (284, -100),
        (316, -100),
        (300, -110),
        (300, -90),
        (284, -110),
        (284, -90),
        (316, -110),
        (316, -90),
        (290, -90),
        (316, -95),
    ];
    for &(x, y) in inside.iter() {
        assert!(object.contains(&WorldPoint { x, y }));
    }
    let outside = [(283, -100), (317, -100), (300, -111), (300, -89), (317, -89), (283, -111)];
    for &(x, y) in outside.iter() {
        assert!(!object.contains(&WorldPoint { x, y }));
    }
}

#[test]
fn odd_footprint_has_its_edge_between_grid_points() {
    // Half extents of 16.5 and 0.5 units.
    let object = InteractiveObject::new(1, 300, 0, fixed(33, 1)).unwrap();
    assert!(object.contains(&WorldPoint { x: 316, y: 0 }));
    assert!(!object.contains(&WorldPoint { x: 317, y: 0 }));
    assert!(object.contains(&WorldPoint { x: 284, y: 0 }));
    assert!(!object.contains(&WorldPoint { x: 283, y: 0 }));
    assert!(!object.contains(&WorldPoint { x: 300, y: 1 }));
    assert!(!object.contains(&WorldPoint { x: 300, y: -1 }));
}

#[test]
fn containment_holds_at_the_ends_of_the_number_range() {
    let object = InteractiveObject::new(1, i32::MAX, i32::MIN, fixed(u32::MAX, 2)).unwrap();
    assert!(object.contains(&WorldPoint { x: i32::MAX as i64, y: i32::MIN as i64 }));
    assert!(object.contains(&WorldPoint { x: i32::MAX as i64 + 0x7fff_ffff, y: i32::MIN as i64 - 1 }));
    assert!(!object.contains(&WorldPoint { x: i32::MAX as i64 + 0x8000_0000, y: i32::MIN as i64 }));
    assert!(!object.contains(&WorldPoint { x: i64::MAX, y: i64::MIN }));
    assert!(!object.contains(&WorldPoint { x: i64::MIN, y: i64::MAX }));
}

#[test]
fn frame_advances_once_per_entry() {
    let mut object = InteractiveObject::new(1, -300, 0, atlas(32, 32, 3)).unwrap();
    assert_eq!(object.frame_index(), Some(0));
    assert_eq!(object.step(at(-300, 0)), Ok(()));
    assert!(object.is_hovered());
    assert_eq!(object.frame_index(), Some(1));
    for frame in 0..10 {
        assert_eq!(object.step(at(-300 + frame, 5 - frame)), Ok(()));
        assert!(object.is_hovered());
        assert_eq!(object.frame_index(), Some(1));
    }
    assert_eq!(object.step(at(0, 0)), Ok(()));
    assert!(!object.is_hovered());
    assert_eq!(object.frame_index(), Some(1));
    assert_eq!(object.step(at(-300, 0)), Ok(()));
    assert!(object.is_hovered());
    assert_eq!(object.frame_index(), Some(2));
    assert_eq!(object.step(at(0, 0)), Ok(()));
    assert_eq!(object.frame_index(), Some(2));
    assert_eq!(object.step(at(-300, 0)), Ok(()));
    assert_eq!(object.frame_index(), Some(0));
}

#[test]
fn three_hover_cycles_wrap_the_frame() {
    let mut object = InteractiveObject::new(1, -300, 0, atlas(32, 32, 3)).unwrap();
    for _ in 0..3 {
        assert_eq!(object.step(at(-300, 0)), Ok(()));
        assert!(object.is_hovered());
        assert_eq!(object.step(at(-250, 0)), Ok(()));
        assert!(!object.is_hovered());
    }
    assert_eq!(object.frame_index(), Some(0));
}

#[test]
fn leaving_the_window_counts_as_leaving_the_box() {
    let mut object = InteractiveObject::new(1, 0, 0, atlas(8, 8, 4)).unwrap();
    assert_eq!(object.step(at(1, 1)), Ok(()));
    assert_eq!(object.frame_index(), Some(1));
    assert_eq!(object.step(None), Ok(()));
    assert!(!object.is_hovered());
    assert_eq!(object.frame_index(), Some(1));
    assert_eq!(object.step(at(1, 1)), Ok(()));
    assert!(object.is_hovered());
    assert_eq!(object.frame_index(), Some(2));
}

#[test]
fn single_frame_atlas_stays_on_its_frame() {
    let mut object = InteractiveObject::new(1, 0, 0, atlas(8, 8, 1)).unwrap();
    assert_eq!(object.step(at(0, 0)), Ok(()));
    assert_eq!(object.frame_index(), Some(0));
    assert_eq!(object.step(None), Ok(()));
    assert_eq!(object.step(at(0, 0)), Ok(()));
    assert_eq!(object.frame_index(), Some(0));
}

#[test]
fn unresolved_object_is_passed_over() {
    let mut object = InteractiveObject::new(1, 0, 0, atlas(8, 8, 4)).unwrap();
    assert_eq!(object.step(at(0, 0)), Ok(()));
    assert!(object.is_hovered());
    object.set_resolved(false);
    assert!(!object.is_resolved());
    let before = object;
    // Outside the box, yet the highlight stays: nothing is touched.
    assert_eq!(object.step(at(100, 100)), Err(ObjectError::UnresolvedFootprint));
    assert_eq!(object, before);
    assert!(object.is_hovered());
    object.set_resolved(true);
    assert_eq!(object.step(at(100, 100)), Ok(()));
    assert!(!object.is_hovered());
    object.set_resolved(false);
    assert_eq!(object.step(at(0, 0)), Err(ObjectError::UnresolvedFootprint));
    assert!(!object.is_hovered());
    assert_eq!(object.frame_index(), Some(1));
}

#[test]
fn absence_clears_an_unresolved_object_too() {
    let mut object = InteractiveObject::new(1, 0, 0, fixed(8, 8)).unwrap();
    assert_eq!(object.step(at(0, 0)), Ok(()));
    object.set_resolved(false);
    assert_eq!(object.step(None), Ok(()));
    assert!(!object.is_hovered());
    assert!(!object.is_resolved());
}

#[test]
fn set_frame_checks_the_atlas() {
    let mut object = InteractiveObject::new(1, 0, 0, atlas(8, 8, 3)).unwrap();
    assert_eq!(object.set_frame(2), Ok(()));
    assert_eq!(object.frame_index(), Some(2));
    assert_eq!(object.set_frame(3), Err(ObjectError::InvalidFrameIndex));
    assert_eq!(object.frame_index(), Some(2));
    assert_eq!(object.step(at(0, 0)), Ok(()));
    assert_eq!(object.frame_index(), Some(0));
    let mut image = InteractiveObject::new(2, 0, 0, fixed(8, 8)).unwrap();
    let before = image;
    assert_eq!(image.set_frame(0), Err(ObjectError::InvalidFrameIndex));
    assert_eq!(image, before);
}

#[test]
fn set_source_replaces_the_footprint() {
    let mut object = InteractiveObject::new(1, 0, 0, atlas(8, 8, 3)).unwrap();
    assert_eq!(object.set_frame(2), Ok(()));
    object.set_resolved(false);
    assert_eq!(object.set_source(atlas(16, 4, 5)), Ok(()));
    assert_eq!(object.source(), atlas(16, 4, 5));
    assert!(object.is_resolved());
    assert_eq!(object.frame_index(), Some(2));
    assert!(object.contains(&WorldPoint { x: 8, y: 2 }));
    assert!(!object.contains(&WorldPoint { x: 8, y: 3 }));
    let before = object;
    assert_eq!(object.set_source(atlas(16, 0, 5)), Err(ObjectError::EmptyFootprint));
    assert_eq!(object, before);
    assert_eq!(object.set_source(atlas(0, 0, 1)), Err(ObjectError::EmptyFootprint));
    assert_eq!(object.set_source(atlas(16, 4, 2)), Err(ObjectError::InvalidFrameIndex));
    assert_eq!(object.set_source(fixed(16, 4)), Err(ObjectError::InvalidFrameIndex));
    assert_eq!(object, before);
    assert_eq!(object.set_frame(0), Ok(()));
    assert_eq!(object.set_source(fixed(16, 4)), Ok(()));
    assert_eq!(object.frame_index(), None);
}

#[test]
fn set_position_moves_the_box() {
    let mut object = InteractiveObject::new(9, 0, 0, fixed(10, 10)).unwrap();
    assert_eq!(object.step(at(4, 4)), Ok(()));
    assert!(object.is_hovered());
    object.set_position(100, -100);
    assert_eq!(object.position(), (100, -100));
    assert_eq!(object.id(), 9);
    assert!(object.is_hovered());
    assert_eq!(object.step(at(4, 4)), Ok(()));
    assert!(!object.is_hovered());
    assert_eq!(object.step(at(105, -95)), Ok(()));
    assert!(object.is_hovered());
}

#[test]
fn frame_counts_the_entries_of_a_long_run() {
    let mut object = InteractiveObject::new(1, 0, 0, atlas(10, 10, 7)).unwrap();
    assert_eq!(object.set_frame(4), Ok(()));
    // A fixed walk that wanders in and out of the box and off the window.
    let mut entries = 0u32;
    let mut inside_before = false;
    for tick in 0..500i64 {
        let point = if tick % 11 == 0 {
            None
        } else {
            Some(WorldPoint { x: (tick * 7) % 23 - 11, y: (tick * 5) % 17 - 8 })
        };
        let inside_now = match point {
            Some(p) => -5 <= p.x && p.x <= 5 && -5 <= p.y && p.y <= 5,
            None => false,
        };
        if inside_now && !inside_before {
            entries += 1;
        }
        inside_before = inside_now;
        assert_eq!(object.step(point), Ok(()));
        assert_eq!(object.is_hovered(), inside_now);
        assert_eq!(object.frame_index(), Some((4 + entries) % 7));
    }
    assert!(entries > 20);
}
