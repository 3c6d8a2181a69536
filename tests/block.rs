use blockworld::block::{face_center_halves, face_pose, terrain_layout, Coord, FacePose};
use blockworld::world::World;

#[test]
fn face_table_matches_cube_faces() {
    assert_eq!(face_pose(0), FacePose { dx: 1, dy: 0, dz: 0, x_quarter_turns: -1, y_quarter_turns: -1 });
    assert_eq!(face_pose(1), FacePose { dx: 0, dy: 1, dz: 0, x_quarter_turns: 0, y_quarter_turns: 0 });
    assert_eq!(face_pose(2), FacePose { dx: 0, dy: 0, dz: 1, x_quarter_turns: 1, y_quarter_turns: 0 });
    assert_eq!(face_pose(3), FacePose { dx: -1, dy: 0, dz: 0, x_quarter_turns: -1, y_quarter_turns: 1 });
    assert_eq!(face_pose(4), FacePose { dx: 0, dy: -1, dz: 0, x_quarter_turns: 2, y_quarter_turns: 0 });
    assert_eq!(face_pose(5), FacePose { dx: 0, dy: 0, dz: -1, x_quarter_turns: -1, y_quarter_turns: 0 });
}

#[test]
fn face_centers_are_half_a_unit_out() {
    let c = Coord { x: 3, y: -2, z: 7 };
    assert_eq!(face_center_halves(c, 0), (7, -4, 14));
    assert_eq!(face_center_halves(c, 1), (6, -3, 14));
    assert_eq!(face_center_halves(c, 5), (6, -4, 13));
    let far = Coord { x: i32::MIN, y: i32::MAX, z: 0 };
    assert_eq!(face_center_halves(far, 3), (2 * i32::MIN as i64 - 1, 2 * i32::MAX as i64, 0));
}

#[test]
fn starter_platform_layout() {
    let coords = terrain_layout();
    assert_eq!(coords.len(), 54);
    assert_eq!(coords[0], Coord { x: -3, y: 0, z: -3 });
    assert_eq!(coords[35], Coord { x: 2, y: 0, z: 2 });
    assert_eq!(coords[36], Coord { x: -3, y: -1, z: 3 });
    assert_eq!(coords[53], Coord { x: 2, y: -1, z: 5 });
    let mut w = World::new();
    for (k, c) in coords.iter().enumerate() {
        let id = k as u64;
        let b = blockworld::world::create_block(&mut w, id, [0; 6], *c);
        assert!(b.is_ok());
    }
}
