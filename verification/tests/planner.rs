use gdvoxel::chunk::VoxelChunk;
use gdvoxel::config::Settings;
use gdvoxel::coord::{coord_dist_sq, ChunkCoord, WorldPos};
use gdvoxel::job::JobOutcome;
use gdvoxel::manager::VoxelChunkManager;
use gdvoxel::mesh::ChunkData;
use gdvoxel::pending::{contains_coord, insert_coord, remove_coord};
use gdvoxel::planner::plan_window;
use gdvoxel::residency::{
    drop_gone, exceeds, find_resident, has_handle, record_resident, retire_far, Resident,
};

type Manager = VoxelChunkManager<[f32; 3]>;

fn cell(x: i32, y: i32, z: i32) -> ChunkCoord {
    ChunkCoord { x, y, z }
}

fn origin() -> WorldPos {
    WorldPos { x: 0, y: 0, z: 0 }
}

fn manager(settings: Settings, pos: WorldPos) -> Manager {
    match Manager::new(settings, pos) {
        Ok(m) => m,
        Err(e) => panic!("settings refused: {:?}", e),
    }
}

fn triangle() -> ChunkData<[f32; 3]> {
    let positions = vec![[0.0, 0.0, 0.0], [1.0, 0.0, 0.0], [0.0, 1.0, 0.0]];
    let normals = vec![[0.0, 0.0, 1.0]; 3];
    match ChunkData::new(positions, normals, vec![0, 1, 2]) {
        Some(m) => m,
        None => panic!("a triangle is a mesh"),
    }
}

#[test]
fn planner_orders_the_window_nearest_first() {
    let mut m = manager(Settings::standard(42), origin());
    let update = m.ready();
    assert_eq!(update.planned.len(), 49);
    let center = cell(0, 0, 0);
    let d: Vec<u128> = update.planned.iter().map(|c| coord_dist_sq(*c, center)).collect();
    for i in 1..d.len() {
        assert!(d[i - 1] <= d[i], "distance falls at position {}", i);
    }
    assert_eq!(d[0], 0);
    assert_eq!(update.planned[0], center);
    assert_eq!(d[48], 18);
    assert_eq!(d.iter().filter(|x| **x == 18).count(), 4);
    assert_eq!(d.iter().filter(|x| **x == 9).count(), 4);
    assert!(update.planned.contains(&cell(3, 0, 3)));
    assert!(update.planned.contains(&cell(-3, 0, 3)));
    assert!(update.planned.contains(&cell(3, 0, 0)));
}

#[test]
fn planner_covers_the_window_and_nothing_else() {
    let mut m = manager(Settings::standard(42), origin());
    let update = m.ready();
    for x in -5..=5 {
        for z in -5..=5 {
            let inside = (-3..=3).contains(&x) && (-3..=3).contains(&z);
            assert_eq!(update.planned.contains(&cell(x, 0, z)), inside);
            assert_eq!(m.is_queued(cell(x, 0, z)), inside);
        }
    }
    assert!(update.planned.iter().all(|c| c.y == 0));
    let mut seen = update.planned.clone();
    seen.sort_by_key(|c| (c.x, c.z));
    seen.dedup();
    assert_eq!(seen.len(), 49);
}

#[test]
fn planner_window_follows_the_observer() {
    let size = 30 * 1024;
    let mut m = manager(Settings::standard(42), WorldPos { x: 10 * size + 5, y: 77, z: -4 * size });
    let update = m.ready();
    assert_eq!(update.planned.len(), 49);
    assert_eq!(update.planned[0], cell(10, 0, -4));
    assert!(update.planned.contains(&cell(7, 0, -7)));
    assert!(update.planned.contains(&cell(13, 0, -1)));
    assert!(!update.planned.contains(&cell(14, 0, -4)));
    assert!(!update.planned.contains(&cell(10, 0, -8)));
}

#[test]
fn planner_starts_a_job_for_every_planned_cell() {
    let mut m = manager(Settings::standard(42), origin());
    let update = m.ready();
    assert_eq!(update.jobs, update.planned);
    assert_eq!(update.cached.len(), update.planned.len());
    assert!(update.cached.iter().all(|c| c.is_none()));
    assert!(update.retired.is_empty());
}

#[test]
fn planner_skips_what_waits_already() {
    let mut m = manager(Settings::standard(42), origin());
    let first = m.ready();
    assert_eq!(first.planned.len(), 49);
    let second = m.update_chunks(&Vec::new());
    assert!(second.planned.is_empty());
    assert!(second.jobs.is_empty());
}

#[test]
fn planner_skips_resident_chunks() {
    let mut m = manager(Settings::standard(42), origin());
    m.on_chunk_added(cell(0, 0, 0), 11);
    m.on_chunk_added(cell(-3, 0, 2), 12);
    let update = m.ready();
    assert_eq!(update.planned.len(), 47);
    assert!(!update.planned.contains(&cell(0, 0, 0)));
    assert!(!update.planned.contains(&cell(-3, 0, 2)));
    assert!(!m.is_queued(cell(0, 0, 0)));
    assert_eq!(m.handle_of(cell(0, 0, 0)), Some(11));
}

#[test]
fn planner_plans_anew_what_the_host_lost() {
    let mut m = manager(Settings::standard(42), origin());
    m.on_chunk_added(cell(1, 0, 1), 21);
    m.on_chunk_added(cell(2, 0, 2), 22);
    let first = m.ready();
    assert_eq!(first.planned.len(), 47);
    let second = m.update_chunks(&vec![21]);
    assert_eq!(second.planned, vec![cell(1, 0, 1)]);
    assert!(second.retired.is_empty());
    assert_eq!(m.handle_of(cell(1, 0, 1)), None);
    assert_eq!(m.handle_of(cell(2, 0, 2)), Some(22));
}

#[test]
fn planner_window_at_the_edge_of_the_grid() {
    let center = cell(i32::MAX, 0, i32::MIN);
    let residents = vec![Resident { coord: cell(i32::MAX, 0, i32::MIN + 1), handle: 1 }];
    let mut queued: Vec<ChunkCoord> = Vec::new();
    let planned = plan_window(center, 2, &residents, &mut queued);
    let d: Vec<u128> = planned.iter().map(|c| coord_dist_sq(*c, center)).collect();
    assert_eq!(d, vec![0, 1, 2, 4, 4, 5, 5, 8]);
    assert_eq!(planned[0], center);
    assert_eq!(planned[1], cell(i32::MAX - 1, 0, i32::MIN));
    assert_eq!(planned[2], cell(i32::MAX - 1, 0, i32::MIN + 1));
    assert!(planned.contains(&cell(i32::MAX - 2, 0, i32::MIN)));
    assert!(planned.contains(&cell(i32::MAX, 0, i32::MIN + 2)));
    assert_eq!(planned[7], cell(i32::MAX - 2, 0, i32::MIN + 2));
    assert!(!planned.contains(&cell(i32::MAX, 0, i32::MIN + 1)));
    assert_eq!(queued.len(), 8);
}

#[test]
fn plan_window_of_radius_zero_is_the_centre() {
    let mut queued: Vec<ChunkCoord> = Vec::new();
    let planned = plan_window(cell(4, 2, -4), 0, &Vec::new(), &mut queued);
    assert_eq!(planned, vec![cell(4, 2, -4)]);
    assert_eq!(queued, vec![cell(4, 2, -4)]);
    let again = plan_window(cell(4, 2, -4), 0, &Vec::new(), &mut queued);
    assert!(again.is_empty());
    assert_eq!(queued.len(), 1);
}

#[test]
fn plan_window_of_radius_one() {
    let mut queued = vec![cell(-1, 0, 0)];
    let planned = plan_window(cell(0, 0, 0), 1, &Vec::new(), &mut queued);
    assert_eq!(planned.len(), 8);
    assert_eq!(planned[0], cell(0, 0, 0));
    assert!(!planned.contains(&cell(-1, 0, 0)));
    assert!(planned.contains(&cell(1, 0, 1)));
    assert!(planned.contains(&cell(1, 0, -1)));
    assert!(planned.contains(&cell(0, 0, 1)));
    let d: Vec<u128> = planned.iter().map(|c| coord_dist_sq(*c, cell(0, 0, 0))).collect();
    assert_eq!(d, vec![0, 1, 1, 1, 2, 2, 2, 2]);
    assert_eq!(queued.len(), 9);
    assert_eq!(queued[0], cell(-1, 0, 0));
}

#[test]
fn plan_window_reaches_as_far_on_either_side() {
    let mut queued: Vec<ChunkCoord> = Vec::new();
    let planned = plan_window(cell(0, 0, 0), 3, &Vec::new(), &mut queued);
    assert_eq!(planned.len(), 49);
    for c in &planned {
        assert!(planned.contains(&cell(-c.x, 0, c.z)));
        assert!(planned.contains(&cell(c.x, 0, -c.z)));
    }
}

#[test]
fn drained_queue_has_every_cell_once_lowest_priority_first() {
    let mut queued: Vec<ChunkCoord> = Vec::new();
    let planned = plan_window(cell(5, 9, 5), 2, &Vec::new(), &mut queued);
    assert_eq!(planned.len(), 25);
    assert_eq!(planned[0], cell(5, 9, 5));
    let d: Vec<u128> = planned.iter().map(|c| coord_dist_sq(*c, cell(5, 9, 5))).collect();
    assert_eq!(
        d,
        vec![0, 1, 1, 1, 1, 2, 2, 2, 2, 4, 4, 4, 4, 5, 5, 5, 5, 5, 5, 5, 5, 8, 8, 8, 8]
    );
}

#[test]
fn eviction_retires_a_far_chunk_exactly_once() {
    let mut m = manager(Settings::standard(42), origin());
    m.on_chunk_added(cell(193, 0, 0), 7);
    m.on_chunk_added(cell(192, 0, 0), 8);
    m.on_chunk_added(cell(0, 0, 1), 9);
    let update = m.ready();
    assert_eq!(update.retired, vec![Resident { coord: cell(193, 0, 0), handle: 7 }]);
    assert_eq!(m.handle_of(cell(193, 0, 0)), None);
    assert_eq!(m.handle_of(cell(192, 0, 0)), Some(8));
    assert_eq!(m.handle_of(cell(0, 0, 1)), Some(9));
    let again = m.update_chunks(&Vec::new());
    assert!(again.retired.is_empty());
}

#[test]
fn eviction_limit_is_the_multiple_times_the_radius() {
    let mut settings = Settings::standard(0);
    settings.eviction_multiple = 2;
    settings.render_distance = 3;
    assert_eq!(settings.retire_limit(), 6);
    let mut m = manager(settings, origin());
    m.on_chunk_added(cell(6, 0, 0), 1);
    m.on_chunk_added(cell(5, 0, 4), 2);
    m.on_chunk_added(cell(-4, 0, -4), 3);
    m.on_chunk_added(cell(0, 1, 6), 4);
    let update = m.ready();
    let mut handles: Vec<i64> = update.retired.iter().map(|r| r.handle).collect();
    handles.sort();
    assert_eq!(handles, vec![2, 4]);
    assert_eq!(m.handle_of(cell(6, 0, 0)), Some(1));
    assert_eq!(m.handle_of(cell(-4, 0, -4)), Some(3));
}

#[test]
fn eviction_does_not_destroy_what_is_gone() {
    let mut m = manager(Settings::standard(42), origin());
    m.on_chunk_added(cell(500, 0, 0), 7);
    let _ = m.ready();
    m.on_chunk_added(cell(600, 0, 0), 8);
    let update = m.update_chunks(&vec![8]);
    assert!(update.retired.is_empty());
    assert_eq!(m.handle_of(cell(600, 0, 0)), None);
    assert!(m.resident_handles().is_empty());
}

#[test]
fn hysteresis_holds_back_small_moves() {
    let mut m = manager(Settings::standard(42), origin());
    assert!(!m.update_player_position(WorldPos { x: 6 * 1024, y: 0, z: 0 }));
    assert_eq!(m.player_pos(), origin());
    assert!(!m.update_player_position(WorldPos { x: 6 * 1024, y: 0, z: 8 * 1024 }));
    assert_eq!(m.player_pos(), origin());
    assert!(m.update_player_position(WorldPos { x: 6 * 1024, y: 0, z: 8 * 1024 + 1 }));
    assert_eq!(m.player_pos(), WorldPos { x: 6 * 1024, y: 0, z: 8 * 1024 + 1 });
    assert!(!m.update_player_position(WorldPos { x: 6 * 1024, y: 0, z: 0 }));
}

#[test]
fn hysteresis_counts_from_the_last_planned_position() {
    let mut m = manager(Settings::standard(42), origin());
    assert!(!m.update_player_position(WorldPos { x: 4 * 1024, y: 0, z: 0 }));
    assert!(!m.update_player_position(WorldPos { x: 8 * 1024, y: 0, z: 0 }));
    assert!(m.update_player_position(WorldPos { x: 12 * 1024, y: 0, z: 0 }));
    assert!(!m.update_player_position(WorldPos { x: 20 * 1024, y: 0, z: 0 }));
    assert!(m.update_player_position(WorldPos { x: 23 * 1024, y: 0, z: 0 }));
}

#[test]
fn on_chunk_added_makes_a_waiting_cell_resident() {
    let mut m = manager(Settings::standard(42), origin());
    let _ = m.ready();
    assert!(m.is_queued(cell(1, 0, 1)));
    m.on_chunk_added(cell(1, 0, 1), 44);
    assert!(!m.is_queued(cell(1, 0, 1)));
    assert_eq!(m.handle_of(cell(1, 0, 1)), Some(44));
    m.on_chunk_added(cell(1, 0, 1), 45);
    assert_eq!(m.handle_of(cell(1, 0, 1)), Some(45));
    assert_eq!(m.resident_handles(), vec![45]);
}

#[test]
fn add_to_tree_reports_the_chunk_to_the_manager() {
    let mut m = manager(Settings::standard(42), origin());
    let _ = m.ready();
    let chunk = VoxelChunk {
        data_resolution: 32,
        voxel_size: 1024,
        seed: 42,
        coord: cell(2, 0, -1),
        handle: 90,
        mesh: triangle(),
        generated: true,
    };
    chunk.add_to_tree(&mut m);
    assert_eq!(m.handle_of(cell(2, 0, -1)), Some(90));
    assert!(!m.is_queued(cell(2, 0, -1)));
}

#[test]
fn finished_job_with_a_mesh_is_published_and_keeps_waiting() {
    let mut m = manager(Settings::standard(42), origin());
    let _ = m.ready();
    let published = m.finish_job(cell(0, 0, 0), JobOutcome::Success(triangle()));
    let p = match published {
        Some(p) => p,
        None => panic!("a mesh with geometry is published"),
    };
    assert_eq!(p.key, "chunk_0_0_0");
    assert_eq!(p.coord, cell(0, 0, 0));
    assert_eq!(p.mesh.indices(), &vec![0, 1, 2]);
    assert!(m.is_queued(cell(0, 0, 0)));
}

#[test]
fn finished_job_without_geometry_frees_the_cell() {
    let mut m = manager(Settings::standard(42), origin());
    let _ = m.ready();
    assert!(m.finish_job(cell(1, 0, 0), JobOutcome::Empty).is_none());
    assert!(!m.is_queued(cell(1, 0, 0)));
    assert!(m.finish_job(cell(2, 0, 0), JobOutcome::Exhausted).is_none());
    assert!(!m.is_queued(cell(2, 0, 0)));
    assert!(m.finish_job(cell(0, 0, 1), JobOutcome::Success(ChunkData::empty())).is_none());
    assert!(!m.is_queued(cell(0, 0, 1)));
    let update = m.update_chunks(&Vec::new());
    assert_eq!(update.planned.len(), 3);
    assert_eq!(update.jobs.len(), 3);
}

#[test]
fn report_without_a_running_job_changes_nothing() {
    let mut m = manager(Settings::standard(42), origin());
    let _ = m.ready();
    assert!(m.finish_job(cell(0, 0, 0), JobOutcome::Empty).is_none());
    assert!(m.finish_job(cell(0, 0, 0), JobOutcome::Success(triangle())).is_none());
    assert!(m.finish_job(cell(40, 0, 40), JobOutcome::Success(triangle())).is_none());
}

#[test]
fn cell_lists_hold_no_cell_twice() {
    let mut cells: Vec<ChunkCoord> = Vec::new();
    assert!(insert_coord(&mut cells, cell(1, 2, 3)));
    assert!(!insert_coord(&mut cells, cell(1, 2, 3)));
    assert!(insert_coord(&mut cells, cell(3, 2, 1)));
    assert_eq!(cells, vec![cell(1, 2, 3), cell(3, 2, 1)]);
    assert!(contains_coord(&cells, cell(3, 2, 1)));
    assert!(remove_coord(&mut cells, cell(1, 2, 3)));
    assert!(!remove_coord(&mut cells, cell(1, 2, 3)));
    assert!(!contains_coord(&cells, cell(1, 2, 3)));
    assert_eq!(cells, vec![cell(3, 2, 1)]);
}

#[test]
fn residency_helpers() {
    let mut residents: Vec<Resident> = Vec::new();
    record_resident(&mut residents, cell(0, 0, 0), 1);
    record_resident(&mut residents, cell(10, 0, 0), 2);
    record_resident(&mut residents, cell(0, 0, 0), 3);
    assert_eq!(residents.len(), 2);
    assert_eq!(find_resident(&residents, cell(0, 0, 0)), Some(0));
    assert_eq!(find_resident(&residents, cell(1, 0, 0)), None);
    assert_eq!(residents[0].handle, 3);
    assert!(has_handle(&vec![4, 5], 5));
    assert!(!has_handle(&vec![4, 5], 6));
    let retired = retire_far(&mut residents, cell(0, 0, 0), 9);
    assert_eq!(retired, vec![Resident { coord: cell(10, 0, 0), handle: 2 }]);
    assert_eq!(residents, vec![Resident { coord: cell(0, 0, 0), handle: 3 }]);
    drop_gone(&mut residents, &vec![3]);
    assert!(residents.is_empty());
}

#[test]
fn exceeds_compares_with_the_square_of_the_limit() {
    assert!(!exceeds(36, 6));
    assert!(exceeds(37, 6));
    assert!(exceeds(1, 0));
    assert!(!exceeds(0, 0));
    assert!(!exceeds((1u128 << 66) - 1, 1 << 33));
    assert!(exceeds((1u128 << 66) - 1, (1 << 33) - 1));
    assert!(exceeds(u128::MAX, u64::MAX));
    assert!(!exceeds(u64::MAX as u128 * u64::MAX as u128, u64::MAX));
    assert!(exceeds(u64::MAX as u128 * u64::MAX as u128 + 1, u64::MAX));
}
