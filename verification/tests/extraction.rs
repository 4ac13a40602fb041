use fast_surface_nets::{surface_nets, SurfaceNetsBuffer};
use gdvoxel::config::Settings;
use gdvoxel::coord::ChunkCoord;
use gdvoxel::job::{after_attempt, job_parameters, Backend, JobOutcome, JobParameters, JobStep};
use gdvoxel::lattice::DensityField;
use gdvoxel::mesh::ChunkData;
use gdvoxel::threaded_generator::{Completion, ThreadedGenerator};
use ndshape::RuntimeShape;

fn extract(job: &JobParameters, field: &DensityField<f32>) -> ChunkData<[f32; 3]> {
    let shape = RuntimeShape::<u32, 3>::new(job.lattice.dims());
    let mut buffer = SurfaceNetsBuffer::default();
    surface_nets(field.samples(), &shape, job.lowest, job.highest, &mut buffer);
    match ChunkData::new(buffer.positions, buffer.normals, buffer.indices) {
        Some(mesh) => mesh,
        None => panic!("extraction output is no mesh"),
    }
}

fn field_of(job: &JobParameters, density: impl Fn(u32, u32, u32) -> f32) -> DensityField<f32> {
    let mut samples = vec![0.0f32; job.lattice.size() as usize];
    for i in 0..job.lattice.size() {
        let [x, y, z] = job.lattice.delinearize(i).unwrap();
        samples[i as usize] = density(x, y, z);
    }
    DensityField::new(job.lattice, samples).unwrap()
}

#[test]
fn uniformly_positive_field_has_no_geometry_and_is_not_published() {
    let cell = ChunkCoord { x: 0, y: 0, z: 0 };
    let job = job_parameters(&Settings::standard(42), cell);
    let mesh = extract(&job, &field_of(&job, |_, _, _| 1.0));
    assert_eq!(mesh.positions().len(), 0);
    assert_eq!(mesh.indices().len(), 0);
    assert!(mesh.is_empty());
    let mut g = ThreadedGenerator::<[f32; 3]>::initialize(Settings::standard(42)).unwrap();
    let d = g.generate_chunk_data(&vec![cell]);
    assert_eq!(d.jobs, vec![cell]);
    let outcome = match after_attempt(Backend::Cpu, 1, mesh) {
        JobStep::Done(outcome) => outcome,
        JobStep::Retry => panic!("the worker's own backend does not try again"),
    };
    assert!(matches!(outcome, JobOutcome::Empty));
    assert!(matches!(g.complete(cell, outcome), Completion::Absent));
}

#[test]
fn planar_sign_change_yields_a_mesh_at_that_height() {
    let settings = Settings::standard(42);
    assert_eq!(settings.data_resolution, 32);
    let cell = ChunkCoord { x: 0, y: 0, z: 0 };
    let job = job_parameters(&settings, cell);
    let mesh = extract(&job, &field_of(&job, |_, y, _| if y < 16 { -0.5 } else { 0.5 }));
    assert!(!mesh.is_empty());
    assert!(mesh.positions().iter().all(|p| 15.0 <= p[1] && p[1] <= 17.0));
    assert_eq!(mesh.positions().len(), mesh.normals().len());
    assert_eq!(mesh.indices().len() % 3, 0);
    assert!(mesh.indices().iter().all(|i| (*i as usize) < mesh.positions().len()));
    let mut g = ThreadedGenerator::<[f32; 3]>::initialize(settings).unwrap();
    let _ = g.generate_chunk_data(&vec![cell]);
    let outcome = match after_attempt(Backend::Cpu, 1, mesh) {
        JobStep::Done(outcome) => outcome,
        JobStep::Retry => panic!("a mesh with geometry ends the job"),
    };
    match g.complete(cell, outcome) {
        Completion::Ready(p) => {
            assert_eq!(p.key, "chunk_0_0_0");
            assert_eq!(p.voxel_size, 1024);
            assert!(p.mesh.triangle_count() > 0);
        },
        other => panic!("expected a mesh to publish, got {:?}", other),
    }
}

#[test]
fn extraction_on_the_inner_range_stays_off_the_boundary() {
    let job = job_parameters(&Settings::standard(1), ChunkCoord { x: 0, y: 0, z: 0 });
    let mesh = extract(&job, &field_of(&job, |x, y, z| {
        let d = |a: u32| a as f32 - 15.5;
        (d(x) * d(x) + d(y) * d(y) + d(z) * d(z)).sqrt() - 20.0
    }));
    assert!(!mesh.is_empty());
    for p in mesh.positions() {
        for a in 0..3 {
            assert!(1.0 <= p[a] && p[a] <= 31.0);
        }
    }
}
