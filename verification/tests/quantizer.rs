use gdvoxel::config::Settings;
use gdvoxel::coord::{
    axis_gap, coord_dist_sq, farther_than, floor_div, ChunkCoord, WorldPos, SUBUNITS_PER_UNIT,
};
use gdvoxel::key::chunk_key;
use gdvoxel::manager::VoxelChunkManager;

type Manager = VoxelChunkManager<[f32; 3]>;

fn cell(x: i32, y: i32, z: i32) -> ChunkCoord {
    ChunkCoord { x, y, z }
}

fn manager_at(x: i32, y: i32, z: i32) -> Manager {
    match Manager::new(Settings::standard(42), WorldPos { x, y, z }) {
        Ok(m) => m,
        Err(e) => panic!("standard settings refused: {:?}", e),
    }
}

#[test]
fn key_of_the_origin() {
    assert_eq!(Manager::hash_chunk_pos(cell(0, 0, 0)), "chunk_0_0_0");
}

#[test]
fn key_writes_each_axis_in_decimal() {
    assert_eq!(Manager::hash_chunk_pos(cell(12, 0, 345)), "chunk_12_0_345");
    assert_eq!(Manager::hash_chunk_pos(cell(-7, 10, -100)), "chunk_-7_10_-100");
    assert_eq!(chunk_key(cell(9, 10, 11)), "chunk_9_10_11");
}

#[test]
fn key_of_the_extreme_cells() {
    assert_eq!(
        chunk_key(cell(i32::MIN, i32::MAX, 0)),
        "chunk_-2147483648_2147483647_0"
    );
}

#[test]
fn key_agrees_with_standard_formatting() {
    for x in [-1000, -11, -1, 0, 1, 9, 10, 99, 100, 65535] {
        for z in [-20, 0, 7] {
            assert_eq!(chunk_key(cell(x, 3, z)), format!("chunk_{}_{}_{}", x, 3, z));
        }
    }
}

#[test]
fn key_is_the_same_on_every_call() {
    assert_eq!(chunk_key(cell(5, -6, 7)), chunk_key(cell(5, -6, 7)));
}

#[test]
fn distinct_cells_have_distinct_keys() {
    let mut keys: Vec<String> = Vec::new();
    for x in -12..12 {
        for y in -2..2 {
            for z in -12..12 {
                keys.push(chunk_key(cell(x, y, z)));
            }
        }
    }
    let total = keys.len();
    keys.sort();
    keys.dedup();
    assert_eq!(keys.len(), total);
}

#[test]
fn keys_that_share_digits_differ() {
    assert_ne!(chunk_key(cell(1, 23, 4)), chunk_key(cell(12, 3, 4)));
    assert_ne!(chunk_key(cell(1, 2, 34)), chunk_key(cell(1, 23, 4)));
    assert_ne!(chunk_key(cell(-1, 1, 1)), chunk_key(cell(1, -1, 1)));
}

#[test]
fn floor_div_rounds_towards_negative_infinity() {
    assert_eq!(floor_div(0, 10), 0);
    assert_eq!(floor_div(9, 10), 0);
    assert_eq!(floor_div(10, 10), 1);
    assert_eq!(floor_div(-1, 10), -1);
    assert_eq!(floor_div(-10, 10), -1);
    assert_eq!(floor_div(-11, 10), -2);
    assert_eq!(floor_div(i32::MIN, 1), i32::MIN);
    assert_eq!(floor_div(i32::MAX, 1), i32::MAX);
    assert_eq!(floor_div(i32::MIN, u64::MAX), -1);
    assert_eq!(floor_div(i32::MAX, u64::MAX), 0);
}

#[test]
fn cell_size_of_the_standard_settings() {
    assert_eq!(Settings::standard(0).cell(), 30 * 1024);
    assert_eq!(SUBUNITS_PER_UNIT, 1024);
}

#[test]
fn quantize_divides_by_the_cell_size_and_floors() {
    let m = manager_at(0, 0, 0);
    let size = 30 * 1024;
    assert_eq!(m.quantize_pos(WorldPos { x: 0, y: 0, z: 0 }), cell(0, 0, 0));
    assert_eq!(m.quantize_pos(WorldPos { x: size - 1, y: 0, z: size }), cell(0, 0, 1));
    assert_eq!(m.quantize_pos(WorldPos { x: -1, y: 0, z: -size }), cell(-1, 0, -1));
    assert_eq!(m.quantize_pos(WorldPos { x: -size - 1, y: 0, z: 5 * size + 3 }), cell(-2, 0, 5));
}

#[test]
fn quantize_holds_the_vertical_axis_at_zero() {
    let m = manager_at(0, 0, 0);
    assert_eq!(m.quantize_pos(WorldPos { x: 0, y: 999_999, z: 0 }), cell(0, 0, 0));
    assert_eq!(m.quantize_pos(WorldPos { x: 0, y: -999_999, z: 0 }), cell(0, 0, 0));
}

#[test]
fn quantize_follows_the_voxel_size() {
    let mut settings = Settings::standard(1);
    settings.voxel_size = 512;
    settings.data_resolution = 18;
    let m = match Manager::new(settings, WorldPos { x: 0, y: 0, z: 0 }) {
        Ok(m) => m,
        Err(e) => panic!("settings refused: {:?}", e),
    };
    assert_eq!(settings.cell(), 16 * 512);
    assert_eq!(m.quantize_pos(WorldPos { x: 16 * 512, y: 0, z: 16 * 512 - 1 }), cell(1, 0, 0));
}

#[test]
fn axis_gap_is_the_absolute_difference() {
    assert_eq!(axis_gap(3, 10), 7);
    assert_eq!(axis_gap(10, 3), 7);
    assert_eq!(axis_gap(i32::MIN, i32::MAX), 4_294_967_295);
}

#[test]
fn squared_distance_between_cells() {
    assert_eq!(coord_dist_sq(cell(0, 0, 0), cell(3, 4, 12)), 169);
    assert_eq!(coord_dist_sq(cell(-1, -1, -1), cell(1, 1, 1)), 12);
    assert_eq!(
        coord_dist_sq(cell(i32::MIN, i32::MIN, i32::MIN), cell(i32::MAX, i32::MAX, i32::MAX)),
        3 * 4_294_967_295u128 * 4_294_967_295u128
    );
}

#[test]
fn farther_than_compares_exactly() {
    let a = WorldPos { x: 0, y: 0, z: 0 };
    assert!(!farther_than(a, WorldPos { x: 3, y: 4, z: 0 }, 5));
    assert!(farther_than(a, WorldPos { x: 3, y: 4, z: 1 }, 5));
    assert!(!farther_than(a, a, 0));
    assert!(farther_than(a, WorldPos { x: 0, y: 1, z: 0 }, 0));
    assert!(!farther_than(
        WorldPos { x: i32::MIN, y: 0, z: 0 },
        WorldPos { x: i32::MAX, y: 0, z: 0 },
        u32::MAX
    ));
}

#[test]
fn quantized_cell_spans_the_position() {
    let m = manager_at(0, 0, 0);
    let size: i64 = 30 * 1024;
    for x in [i32::MIN, -92161, -30721, -30720, -1, 0, 1, 30719, 30720, 614400, i32::MAX] {
        let c = m.quantize_pos(WorldPos { x, y: 0, z: -x.max(i32::MIN + 1) });
        assert!(c.x as i64 * size <= x as i64 && (x as i64) < (c.x as i64 + 1) * size);
        let z = -x.max(i32::MIN + 1) as i64;
        assert!(c.z as i64 * size <= z && z < (c.z as i64 + 1) * size);
    }
}

#[test]
fn manager_keeps_its_settings() {
    let m = manager_at(1, 2, 3);
    assert_eq!(m.get_settings(), Settings::standard(42));
    assert_eq!(m.player_pos(), WorldPos { x: 1, y: 2, z: 3 });
}
