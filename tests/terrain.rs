use blockworld::terrain::{
    chunk_columns, column_top, dimensions, height_generator, material_at, AIR, BASE_HEIGHT,
    STONE,
};

fn offsets_with(default: i32, special: &[(usize, usize, i32)]) -> Vec<i32> {
    let mut v = vec![default; 256];
    for &(i, j, h) in special {
        v[i * 16 + j] = h;
    }
    v
}

#[test]
fn volume_has_fixed_shape() {
    let v = height_generator(&offsets_with(0, &[]));
    assert_eq!(dimensions(&v), (16, 256, 16));
}

#[test]
fn flat_chunk_is_stone_up_to_base_height() {
    let v = height_generator(&offsets_with(0, &[]));
    for i in 0..16 {
        for j in 0..16 {
            assert_eq!(column_top(&v, i, j), Some(BASE_HEIGHT as usize));
            assert_eq!(material_at(&v, i, 0, j), Some(STONE));
            assert_eq!(material_at(&v, i, 63, j), Some(STONE));
            assert_eq!(material_at(&v, i, 64, j), Some(AIR));
            assert_eq!(material_at(&v, i, 255, j), Some(AIR));
        }
    }
}

#[test]
fn column_top_follows_each_offset() {
    let v = height_generator(&offsets_with(3, &[(0, 5, -7), (15, 15, 10), (4, 0, -1)]));
    assert_eq!(column_top(&v, 0, 0), Some(66));
    assert_eq!(column_top(&v, 0, 5), Some(56));
    assert_eq!(column_top(&v, 15, 15), Some(73));
    assert_eq!(column_top(&v, 4, 0), Some(62));
    // A negative offset leaves air above the lowered surface, inside the base.
    assert_eq!(material_at(&v, 0, 57, 5), Some(AIR));
    assert_eq!(material_at(&v, 0, 56, 5), Some(STONE));
}

#[test]
fn extreme_offsets_stay_inside_the_volume() {
    let v = height_generator(&offsets_with(0, &[(1, 1, -64), (2, 2, -1000), (3, 3, 192), (4, 4, i32::MAX), (5, 5, i32::MIN)]));
    assert_eq!(column_top(&v, 1, 1), None);
    assert_eq!(column_top(&v, 2, 2), None);
    assert_eq!(column_top(&v, 3, 3), Some(255));
    assert_eq!(column_top(&v, 4, 4), Some(255));
    assert_eq!(column_top(&v, 5, 5), None);
    assert_eq!(column_top(&v, 0, 0), Some(63));
}

#[test]
fn lookups_outside_the_volume_give_none() {
    let v = height_generator(&offsets_with(0, &[]));
    assert_eq!(material_at(&v, 16, 0, 0), None);
    assert_eq!(material_at(&v, 0, 256, 0), None);
    assert_eq!(material_at(&v, 0, 0, 16), None);
    assert_eq!(column_top(&v, 16, 0), None);
    assert_eq!(column_top(&v, 0, 16), None);
}

#[test]
fn generation_is_deterministic() {
    let mut offsets = Vec::new();
    for k in 0..256i32 {
        offsets.push((k * 37 % 21) - 10);
    }
    let a = height_generator(&offsets);
    let b = height_generator(&offsets);
    for i in 0..16 {
        for y in 0..256 {
            for j in 0..16 {
                assert_eq!(material_at(&a, i, y, j), material_at(&b, i, y, j));
            }
        }
    }
    for i in 0..16 {
        for j in 0..16 {
            let h = offsets[i * 16 + j];
            assert_eq!(column_top(&a, i, j), Some((BASE_HEIGHT + h) as usize));
        }
    }
}

#[test]
fn chunk_columns_cover_the_footprint_in_order() {
    let c = chunk_columns(-32, 48);
    assert_eq!(c.len(), 256);
    assert_eq!(c[0], (-32, 48));
    assert_eq!(c[1], (-32, 49));
    assert_eq!(c[16], (-31, 48));
    assert_eq!(c[255], (-17, 63));
    let edge = chunk_columns(i32::MAX, i32::MIN);
    assert_eq!(edge[255], (i32::MAX as i64 + 15, i32::MIN as i64 + 15));
}
