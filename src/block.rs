//! Blocks: unit cubes at integer coordinates, each drawn by six face
//! entities, and the table that places those faces around a cube.

use vstd::prelude::*;

verus! {

/// An opaque handle to an entity of the host world (a block, a face, a marker).
pub type EntityId = u64;

/// The integer coordinate of a cube's center.
#[derive(Clone, Copy, Debug, PartialEq, Eq, Structural)]
pub struct Coord {
    pub x: i32,
    pub y: i32,
    pub z: i32,
}

/// A placed cube: its six face entities, in the order +X, +Y, +Z, -X, -Y, -Z,
/// and the coordinate of its center.
#[derive(Clone, Copy, Debug)]
pub struct Block {
    pub textures: [EntityId; 6],
    pub coord: Coord,
}

/// Where a face of a unit cube sits: its offset from the cube's center in half
/// units, and its orientation as quarter turns about the x axis followed by
/// quarter turns about the y axis (counter-clockwise looking down the axis).
#[derive(Clone, Copy, Debug, PartialEq, Eq, Structural)]
pub struct FacePose {
    pub dx: i8,
    pub dy: i8,
    pub dz: i8,
    pub x_quarter_turns: i8,
    pub y_quarter_turns: i8,
}

/// Number of faces of a cube.
pub const FACE_COUNT: usize = 6;

/// The pose of face `face` (0 to 5: +X, +Y, +Z, -X, -Y, -Z) of a cube, for a
/// square that lies flat facing +Y before it is turned.
pub open spec fn face_pose_spec(face: int) -> FacePose {
    if face == 0 {
        FacePose { dx: 1i8, dy: 0i8, dz: 0i8, x_quarter_turns: -1i8, y_quarter_turns: -1i8 }
    } else if face == 1 {
        FacePose { dx: 0i8, dy: 1i8, dz: 0i8, x_quarter_turns: 0i8, y_quarter_turns: 0i8 }
    } else if face == 2 {
        FacePose { dx: 0i8, dy: 0i8, dz: 1i8, x_quarter_turns: 1i8, y_quarter_turns: 0i8 }
    } else if face == 3 {
        FacePose { dx: -1i8, dy: 0i8, dz: 0i8, x_quarter_turns: -1i8, y_quarter_turns: 1i8 }
    } else if face == 4 {
        FacePose { dx: 0i8, dy: -1i8, dz: 0i8, x_quarter_turns: 2i8, y_quarter_turns: 0i8 }
    } else {
        FacePose { dx: 0i8, dy: 0i8, dz: -1i8, x_quarter_turns: -1i8, y_quarter_turns: 0i8 }
    }
}

/// The pose of face `face` of a cube. Each face sits one half unit out along
/// its own axis, and opposite faces (`face` and `face + 3`) sit on opposite sides.
pub fn face_pose(face: usize) -> (r: FacePose)
    requires
        face < FACE_COUNT,
    ensures
        r == face_pose_spec(face as int),
        face < 3 ==> r.dx == -face_pose_spec(face + 3).dx && r.dy == -face_pose_spec(face + 3).dy
            && r.dz == -face_pose_spec(face + 3).dz,
{
    match face {
        0 => FacePose { dx: 1, dy: 0, dz: 0, x_quarter_turns: -1, y_quarter_turns: -1 },
        1 => FacePose { dx: 0, dy: 1, dz: 0, x_quarter_turns: 0, y_quarter_turns: 0 },
        2 => FacePose { dx: 0, dy: 0, dz: 1, x_quarter_turns: 1, y_quarter_turns: 0 },
        3 => FacePose { dx: -1, dy: 0, dz: 0, x_quarter_turns: -1, y_quarter_turns: 1 },
        4 => FacePose { dx: 0, dy: -1, dz: 0, x_quarter_turns: 2, y_quarter_turns: 0 },
        _ => FacePose { dx: 0, dy: 0, dz: -1, x_quarter_turns: -1, y_quarter_turns: 0 },
    }
}

/// The center of face `face` of the cube at `coord`, in half units (twice the
/// world coordinate).
pub fn face_center_halves(coord: Coord, face: usize) -> (r: (i64, i64, i64))
    requires
        face < FACE_COUNT,
    ensures
        r.0 == 2 * coord.x + face_pose_spec(face as int).dx,
        r.1 == 2 * coord.y + face_pose_spec(face as int).dy,
        r.2 == 2 * coord.z + face_pose_spec(face as int).dz,
{
    let p = face_pose(face);
    (
        2 * (coord.x as i64) + p.dx as i64,
        2 * (coord.y as i64) + p.dy as i64,
        2 * (coord.z as i64) + p.dz as i64,
    )
}

/// Number of blocks of the starter platform.
pub const PLATFORM_BLOCKS: usize = 54;

/// Block `k` of the starter platform: a 6 x 6 floor at height 0 over
/// x, z in -3..3, then a 6 x 3 step at height -1 over x in -3..3, z in 3..6.
pub open spec fn platform_coord(k: int) -> Coord {
    if k < 36 {
        Coord { x: (k / 6 - 3) as i32, y: 0i32, z: (k % 6 - 3) as i32 }
    } else {
        Coord { x: ((k - 36) / 3 - 3) as i32, y: -1i32, z: ((k - 36) % 3 + 3) as i32 }
    }
}

/// The coordinates of the starter platform's blocks, floor first. No two are equal.
pub fn terrain_layout() -> (r: Vec<Coord>)
    ensures
        r@.len() == PLATFORM_BLOCKS,
        forall|k: int| 0 <= k < PLATFORM_BLOCKS ==> #[trigger] r@[k] == platform_coord(k),
        forall|a: int, b: int|
            0 <= a < b < PLATFORM_BLOCKS ==> #[trigger] r@[a] != #[trigger] r@[b],
{
    let mut r: Vec<Coord> = Vec::new();
    let mut i: i32 = -3;
    while i < 3
        invariant
            -3 <= i <= 3,
            r@.len() == 6 * (i + 3),
            forall|k: int| 0 <= k < r@.len() ==> #[trigger] r@[k] == platform_coord(k),
        decreases 3 - i,
    {
        let mut j: i32 = -3;
        while j < 3
            invariant
                -3 <= i < 3,
                -3 <= j <= 3,
                r@.len() == 6 * (i + 3) + (j + 3),
                forall|k: int| 0 <= k < r@.len() ==> #[trigger] r@[k] == platform_coord(k),
            decreases 3 - j,
        {
            r.push(Coord { x: i, y: 0, z: j });
            j += 1;
        }
        i += 1;
    }
    let mut i: i32 = -3;
    while i < 3
        invariant
            -3 <= i <= 3,
            r@.len() == 36 + 3 * (i + 3),
            forall|k: int| 0 <= k < r@.len() ==> #[trigger] r@[k] == platform_coord(k),
        decreases 3 - i,
    {
        let mut j: i32 = 3;
        while j < 6
            invariant
                -3 <= i < 3,
                3 <= j <= 6,
                r@.len() == 36 + 3 * (i + 3) + (j - 3),
                forall|k: int| 0 <= k < r@.len() ==> #[trigger] r@[k] == platform_coord(k),
            decreases 6 - j,
        {
            r.push(Coord { x: i, y: -1, z: j });
            j += 1;
        }
        i += 1;
    }
    r
}

} // verus!
