use blockworld::block::{Block, Coord};
use blockworld::world::{create_block, PlaceError, World};

fn block(x: i32, y: i32, z: i32) -> Block {
    Block { textures: [1, 2, 3, 4, 5, 6], coord: Coord { x, y, z } }
}

#[test]
fn empty_world_has_no_blocks() {
    let w = World::new();
    assert!(w.get(1).is_none());
    assert_eq!(w.block_at(Coord { x: 0, y: 0, z: 0 }), None);
}

#[test]
fn insert_then_lookup() {
    let mut w = World::new();
    assert_eq!(w.insert(5, block(1, 2, 3)), Ok(()));
    assert_eq!(w.get(5).unwrap().coord, Coord { x: 1, y: 2, z: 3 });
    assert_eq!(w.block_at(Coord { x: 1, y: 2, z: 3 }), Some(5));
    assert_eq!(w.block_at(Coord { x: 3, y: 2, z: 1 }), None);
}

#[test]
fn duplicate_entity_is_rejected() {
    let mut w = World::new();
    w.insert(5, block(1, 2, 3)).unwrap();
    assert_eq!(w.insert(5, block(9, 9, 9)), Err(PlaceError::DuplicateEntity));
    assert_eq!(w.get(5).unwrap().coord, Coord { x: 1, y: 2, z: 3 });
    assert_eq!(w.block_at(Coord { x: 9, y: 9, z: 9 }), None);
}

#[test]
fn occupied_coordinate_is_rejected() {
    let mut w = World::new();
    w.insert(5, block(1, 2, 3)).unwrap();
    assert_eq!(w.insert(6, block(1, 2, 3)), Err(PlaceError::Occupied));
    assert!(w.get(6).is_none());
}

#[test]
fn remove_frees_entity_and_coordinate() {
    let mut w = World::new();
    w.insert(5, block(1, 2, 3)).unwrap();
    w.insert(6, block(0, 0, 0)).unwrap();
    assert_eq!(w.remove(5).unwrap().coord, Coord { x: 1, y: 2, z: 3 });
    assert!(w.get(5).is_none());
    assert!(w.remove(5).is_none());
    assert_eq!(w.block_at(Coord { x: 0, y: 0, z: 0 }), Some(6));
    assert_eq!(w.insert(7, block(1, 2, 3)), Ok(()));
}

#[test]
fn create_block_registers_faces_and_coordinate() {
    let mut w = World::new();
    let b = create_block(&mut w, 10, [11, 12, 13, 14, 15, 16], Coord { x: -1, y: 0, z: 4 }).unwrap();
    assert_eq!(b.textures, [11, 12, 13, 14, 15, 16]);
    assert_eq!(w.get(10).unwrap().textures, [11, 12, 13, 14, 15, 16]);
    let again = create_block(&mut w, 20, [21, 22, 23, 24, 25, 26], Coord { x: -1, y: 0, z: 4 });
    assert_eq!(again.unwrap_err(), PlaceError::Occupied);
    let dup = create_block(&mut w, 10, [21, 22, 23, 24, 25, 26], Coord { x: 7, y: 0, z: 4 });
    assert_eq!(dup.unwrap_err(), PlaceError::DuplicateEntity);
}
