//! The scheduler of generation jobs: which cells have a job running, which
//! requests start a new one, and what becomes of a finished job.

use vstd::prelude::*;
use moka::policy::EvictionPolicy;
use moka::sync::Cache;
use std::hash::RandomState;
use crate::config::{ConfigError, Settings};
use crate::coord::ChunkCoord;
use crate::job::{JobOutcome, JobParameters, axis_offset, chunk_offset, job_parameters};
use crate::key::{chunk_key, key_text};
use crate::lattice::Extents;
use crate::mesh::ChunkData;
use crate::pending::{contains_coord, insert_coord, lemma_contains_after_push, remove_coord};

verus! {

/// The concurrent cache of the `moka` crate. Its inside is not looked into
/// and nothing is claimed of what it holds.
#[verifier::external_type_specification]
#[verifier::external_body]
#[verifier::reject_recursive_types(K)]
#[verifier::reject_recursive_types(V)]
#[verifier::reject_recursive_types(S)]
pub struct ExCache<K, V, S>(Cache<K, V, S>);

/// `CacheBuilder::build`, with `max_capacity` and the policy
/// `EvictionPolicy::lru`: a cache bounded to about `capacity` entries that
/// lets go of the least recently used first. Nothing is claimed of it.
#[verifier::external_body]
fn cache_new<V: Clone + Send + Sync + 'static>(capacity: u64) -> Cache<
    String,
    ChunkData<V>,
    RandomState,
> {
    Cache::builder().max_capacity(capacity).eviction_policy(EvictionPolicy::lru()).build()
}

/// `Cache::get`: a clone of the mesh stored under the key, if the cache
/// still holds one. The cache evicts as it sees fit, so nothing is claimed
/// of the answer.
#[verifier::external_body]
fn cache_get<V: Clone + Send + Sync + 'static>(
    cache: &Cache<String, ChunkData<V>, RandomState>,
    key: &String,
) -> Option<ChunkData<V>> {
    cache.get(key)
}

/// `Cache::insert`: stores the mesh under the key. Nothing is claimed of how
/// long it stays.
#[verifier::external_body]
fn cache_insert<V: Clone + Send + Sync + 'static>(
    cache: &Cache<String, ChunkData<V>, RandomState>,
    key: String,
    mesh: ChunkData<V>,
) {
    cache.insert(key, mesh)
}

/// Whether a request for cell `c` starts a job: only where no mesh of it
/// was found in the cache and no job for it is running.
pub open spec fn starts_job(in_flight: Set<ChunkCoord>, c: ChunkCoord, cached: bool) -> bool {
    !cached && !in_flight.contains(c)
}

/// The cells with a running job after a request for cell `c`.
pub open spec fn after_dispatch(in_flight: Set<ChunkCoord>, c: ChunkCoord, cached: bool) -> Set<
    ChunkCoord,
> {
    if starts_job(in_flight, c, cached) {
        in_flight.insert(c)
    } else {
        in_flight
    }
}

/// The cells with a running job after the job of cell `c` has reported.
pub open spec fn after_completion(in_flight: Set<ChunkCoord>, c: ChunkCoord) -> Set<ChunkCoord> {
    in_flight.remove(c)
}

/// The jobs that a run of requests starts, in the order of the requests:
/// `hits` says for each request whether the cache held a mesh.
pub open spec fn jobs_for(in_flight: Set<ChunkCoord>, positions: Seq<ChunkCoord>, hits: Seq<bool>) -> Seq<
    ChunkCoord,
>
    decreases positions.len(),
{
    if positions.len() == 0 {
        Seq::empty()
    } else {
        let earlier = jobs_for(in_flight, positions.drop_last(), hits.drop_last());
        if starts_job(in_flight.union(earlier.to_set()), positions.last(), hits.last()) {
            earlier.push(positions.last())
        } else {
            earlier
        }
    }
}

/// For each lookup, whether it found a mesh.
pub open spec fn hits_of<V>(cached: Seq<Option<ChunkData<V>>>) -> Seq<bool> {
    Seq::new(cached.len(), |i: int| cached[i].is_some())
}

/// Something that happens to the scheduler.
pub enum Event {
    /// A request for a cell; `cached` says whether the cache held its mesh.
    Dispatch { coord: ChunkCoord, cached: bool },
    /// The report of the job of a cell.
    Complete { coord: ChunkCoord },
}

/// The cells with a running job after an event.
pub open spec fn after_event(in_flight: Set<ChunkCoord>, event: Event) -> Set<ChunkCoord> {
    match event {
        Event::Dispatch { coord, cached } => after_dispatch(in_flight, coord, cached),
        Event::Complete { coord } => after_completion(in_flight, coord),
    }
}

/// The cells with a running job after a run of events.
pub open spec fn after_events(in_flight: Set<ChunkCoord>, events: Seq<Event>) -> Set<ChunkCoord>
    decreases events.len(),
{
    if events.len() == 0 {
        in_flight
    } else {
        after_event(after_events(in_flight, events.drop_last()), events.last())
    }
}

/// How many jobs for cell `c` a run of events starts.
pub open spec fn jobs_started(in_flight: Set<ChunkCoord>, events: Seq<Event>, c: ChunkCoord) -> nat
    decreases events.len(),
{
    if events.len() == 0 {
        0
    } else {
        let state = after_events(in_flight, events.drop_last());
        let earlier = jobs_started(in_flight, events.drop_last(), c);
        match events.last() {
            Event::Dispatch { coord, cached } => if coord == c && starts_job(state, coord, cached) {
                earlier + 1
            } else {
                earlier
            },
            Event::Complete { coord } => earlier,
        }
    }
}

/// How many jobs for cell `c` end during a run of events: a report counts
/// where a job for the cell is running.
pub open spec fn jobs_ended(in_flight: Set<ChunkCoord>, events: Seq<Event>, c: ChunkCoord) -> nat
    decreases events.len(),
{
    if events.len() == 0 {
        0
    } else {
        let state = after_events(in_flight, events.drop_last());
        let earlier = jobs_ended(in_flight, events.drop_last(), c);
        match events.last() {
            Event::Dispatch { coord, cached } => earlier,
            Event::Complete { coord } => if coord == c && state.contains(c) {
                earlier + 1
            } else {
                earlier
            },
        }
    }
}

/// Whatever is requested and reported, and in whatever order, at most one
/// job runs for a cell at any time: the jobs started for it and not yet
/// ended number one where the cell has a job running, and none otherwise.
pub proof fn lemma_at_most_one_job(events: Seq<Event>, c: ChunkCoord)
    ensures
        jobs_started(Set::empty(), events, c) - jobs_ended(Set::empty(), events, c) == (if after_events(
            Set::empty(),
            events,
        ).contains(c) {
            1int
        } else {
            0int
        }),
    decreases events.len(),
{
    if events.len() > 0 {
        lemma_at_most_one_job(events.drop_last(), c);
    }
}

/// A cell requested twice before its job reports starts one job only, and
/// that job's report is taken once: a second report finds no job running.
pub proof fn lemma_dispatch_once(
    in_flight: Set<ChunkCoord>,
    c: ChunkCoord,
    first_cached: bool,
    second_cached: bool,
)
    requires
        starts_job(in_flight, c, first_cached),
    ensures
        !starts_job(after_dispatch(in_flight, c, first_cached), c, second_cached),
        after_dispatch(after_dispatch(in_flight, c, first_cached), c, second_cached)
            == after_dispatch(in_flight, c, first_cached),
        after_dispatch(in_flight, c, first_cached).contains(c),
        !after_completion(after_dispatch(in_flight, c, first_cached), c).contains(c),
{
}

/// The jobs that a run of requests starts are among the requests, were not
/// running before, and hold no cell twice.
pub proof fn lemma_jobs_for(in_flight: Set<ChunkCoord>, positions: Seq<ChunkCoord>, hits: Seq<bool>)
    requires
        positions.len() == hits.len(),
    ensures
        jobs_for(in_flight, positions, hits).no_duplicates(),
        forall|c: ChunkCoord| #[trigger]
            jobs_for(in_flight, positions, hits).contains(c) ==> positions.contains(c)
                && !in_flight.contains(c),
        forall|i: int|
            0 <= i < positions.len() && !hits[i] ==> in_flight.contains(#[trigger] positions[i])
                || jobs_for(in_flight, positions, hits).contains(positions[i]),
    decreases positions.len(),
{
    if positions.len() > 0 {
        let earlier = jobs_for(in_flight, positions.drop_last(), hits.drop_last());
        let all = jobs_for(in_flight, positions, hits);
        let last = positions.last();
        lemma_jobs_for(in_flight, positions.drop_last(), hits.drop_last());
        assert forall|c: ChunkCoord| #[trigger] all.contains(c) implies positions.contains(c)
            && !in_flight.contains(c) by {
            let k = choose|k: int| 0 <= k < all.len() && all[k] == c;
            if k < earlier.len() {
                assert(earlier[k] == c);
                assert(earlier.contains(c));
                let j = choose|j: int|
                    0 <= j < positions.drop_last().len() && positions.drop_last()[j] == c;
                assert(positions[j] == c);
            } else {
                assert(c == last);
                assert(positions[positions.len() - 1] == c);
            }
        }
        assert forall|i: int| 0 <= i < positions.len() && !hits[i] implies in_flight.contains(
            #[trigger] positions[i],
        ) || all.contains(positions[i]) by {
            if i < positions.len() - 1 {
                assert(positions.drop_last()[i] == positions[i]);
                assert(hits.drop_last()[i] == hits[i]);
                if earlier.contains(positions[i]) {
                    let k = choose|k: int| 0 <= k < earlier.len() && earlier[k] == positions[i];
                    assert(all[k] == positions[i]);
                }
            } else {
                if !in_flight.contains(last) {
                    if earlier.contains(last) {
                        let k = choose|k: int| 0 <= k < earlier.len() && earlier[k] == last;
                        assert(all[k] == last);
                    } else {
                        assert(all[all.len() - 1] == last);
                    }
                }
            }
        }
    }
}

/// A cache answer in which only a mesh with geometry counts as found.
pub fn with_geometry<V>(answer: Option<ChunkData<V>>) -> (hit: Option<ChunkData<V>>)
    ensures
        hit == (match answer {
            Some(mesh) => if mesh@.is_empty() {
                None
            } else {
                Some(mesh)
            },
            None => None,
        }),
{
    match answer {
        Some(mesh) => {
            if mesh.is_empty() {
                None
            } else {
                Some(mesh)
            }
        },
        None => None,
    }
}

/// What a request for chunks comes to.
#[derive(Debug)]
pub struct Dispatch<V> {
    /// The cells for which a job is to be started, in the order requested.
    pub jobs: Vec<ChunkCoord>,
    /// For each cell requested, the mesh that the cache held for it.
    pub cached: Vec<Option<ChunkData<V>>>,
}

/// A finished mesh on its way to the host.
#[derive(Debug)]
pub struct Publish<V> {
    /// The key of the chunk.
    pub key: String,
    /// The grid cell of the chunk.
    pub coord: ChunkCoord,
    /// Lattice coordinates of the chunk's first sample in the world.
    pub offset: (i64, i64, i64),
    /// Edge length of a voxel in sub-units.
    pub voxel_size: u32,
    /// The mesh, in lattice coordinates of the chunk.
    pub mesh: ChunkData<V>,
}

/// Whether `p` is what goes to the host for the mesh of a cell: the
/// cell's key, the cell, its lattice offset, the voxel size and the mesh
/// itself.
pub open spec fn publishes<V>(
    p: Publish<V>,
    settings: Settings,
    coord: ChunkCoord,
    mesh: ChunkData<V>,
) -> bool {
    &&& p.key@ == key_text(coord)
    &&& p.coord == coord
    &&& p.offset.0 == axis_offset(coord.x, settings.data_resolution)
    &&& p.offset.1 == axis_offset(coord.y, settings.data_resolution)
    &&& p.offset.2 == axis_offset(coord.z, settings.data_resolution)
    &&& p.voxel_size == settings.voxel_size
    &&& p.mesh == mesh
}

/// Makes up what goes to the host for the mesh of a cell.
pub fn publish_for<V>(settings: &Settings, coord: ChunkCoord, mesh: ChunkData<V>) -> (p: Publish<V>)
    requires
        settings.valid(),
    ensures
        publishes(p, *settings, coord, mesh),
{
    Publish {
        key: chunk_key(coord),
        coord,
        offset: (
            chunk_offset(coord.x, settings.data_resolution),
            chunk_offset(coord.y, settings.data_resolution),
            chunk_offset(coord.z, settings.data_resolution),
        ),
        voxel_size: settings.voxel_size,
        mesh,
    }
}

/// What the report of a job comes to.
#[derive(Debug)]
pub enum Completion<V> {
    /// No job was running for the cell: nothing changed.
    Stale,
    /// The job left no geometry: the cell may be requested again.
    Absent,
    /// The job left a mesh, which is cached and goes to the host.
    Ready(Publish<V>),
}

/// The scheduler of generation jobs.
#[verifier::reject_recursive_types(V)]
pub struct ThreadedGenerator<V> {
    cache: Cache<String, ChunkData<V>, RandomState>,
    in_flight: Vec<ChunkCoord>,
    settings: Settings,
}

impl<V: Clone + Send + Sync + 'static> ThreadedGenerator<V> {
    /// The scheduler's invariant: no cell is listed twice as running, and
    /// the settings are valid.
    pub closed spec fn wf(&self) -> bool {
        self.in_flight@.no_duplicates() && self.settings.valid()
    }

    /// The cells for which a job is running.
    pub closed spec fn in_flight(&self) -> Set<ChunkCoord> {
        self.in_flight@.to_set()
    }

    /// The settings that the scheduler was made with.
    pub closed spec fn settings(&self) -> Settings {
        self.settings
    }

    /// Makes a scheduler with no job running, or refuses settings with a
    /// fault.
    pub fn initialize(settings: Settings) -> (made: Result<Self, ConfigError>)
        ensures
            match settings.first_fault() {
                Some(fault) => made matches Err(e) && e == fault,
                None => made matches Ok(g) && g.wf() && g.settings() == settings && g.in_flight()
                    == Set::<ChunkCoord>::empty(),
            },
    {
        match settings.validate() {
            Err(fault) => Err(fault),
            Ok(()) => {
                let g = ThreadedGenerator {
                    cache: cache_new(settings.cache_capacity),
                    in_flight: Vec::new(),
                    settings,
                };
                assert(g.in_flight@.to_set() =~= Set::<ChunkCoord>::empty());
                Ok(g)
            },
        }
    }

    /// The settings that the scheduler was made with.
    pub fn get_settings(&self) -> (settings: Settings)
        requires
            self.wf(),
        ensures
            settings == self.settings(),
            settings.valid(),
    {
        self.settings
    }

    /// Whether a job is running for the cell.
    pub fn is_in_flight(&self, coord: ChunkCoord) -> (running: bool)
        ensures
            running == self.in_flight().contains(coord),
    {
        contains_coord(&self.in_flight, coord)
    }

    /// The single point at which a job is let in: marks the cell as
    /// running and says so, unless its mesh was found in the cache or a job
    /// for it runs already.
    pub fn try_dispatch(&mut self, coord: ChunkCoord, cached: bool) -> (job: bool)
        requires
            old(self).wf(),
        ensures
            final(self).wf(),
            final(self).settings() == old(self).settings(),
            job == starts_job(old(self).in_flight(), coord, cached),
            final(self).in_flight() == after_dispatch(old(self).in_flight(), coord, cached),
    {
        if cached {
            return false;
        }
        insert_coord(&mut self.in_flight, coord)
    }

    /// Requests the chunks of the given cells. Each cell is looked up in the
    /// cache, where only a mesh with geometry counts as found; where none is
    /// found and no job for the cell is running, a job is to be started and
    /// the cell is marked as running.
    pub fn generate_chunk_data(&mut self, positions: &Vec<ChunkCoord>) -> (dispatch: Dispatch<V>)
        requires
            old(self).wf(),
        ensures
            final(self).wf(),
            final(self).settings() == old(self).settings(),
            dispatch.cached@.len() == positions@.len(),
            forall|i: int|
                0 <= i < dispatch.cached@.len() ==> (#[trigger] dispatch.cached@[i] matches Some(m)
                    ==> !m@.is_empty()),
            dispatch.jobs@ == jobs_for(
                old(self).in_flight(),
                positions@,
                hits_of(dispatch.cached@),
            ),
            final(self).in_flight() == old(self).in_flight().union(dispatch.jobs@.to_set()),
    {
        let mut jobs: Vec<ChunkCoord> = Vec::new();
        let mut cached: Vec<Option<ChunkData<V>>> = Vec::new();
        let mut i: usize = 0;
        proof {
            assert(positions@.take(0) =~= Seq::<ChunkCoord>::empty());
            assert(self.in_flight().union(jobs@.to_set()) =~= self.in_flight());
        }
        while i < positions.len()
            invariant
                i <= positions.len(),
                self.wf(),
                self.settings() == old(self).settings(),
                cached@.len() == i,
                forall|k: int|
                    0 <= k < cached@.len() ==> (#[trigger] cached@[k] matches Some(m)
                        ==> !m@.is_empty()),
                jobs@ == jobs_for(old(self).in_flight(), positions@.take(i as int), hits_of(cached@)),
                self.in_flight() == old(self).in_flight().union(jobs@.to_set()),
            decreases positions.len() - i,
        {
            let coord = positions[i];
            let key = chunk_key(coord);
            let hit = with_geometry(cache_get(&self.cache, &key));
            let found = hit.is_some();
            let ghost earlier = jobs@;
            let ghost hits = hits_of(cached@);
            let job = self.try_dispatch(coord, found);
            cached.push(hit);
            if job {
                jobs.push(coord);
            }
            proof {
                let now = positions@.take(i + 1);
                assert(now.drop_last() =~= positions@.take(i as int));
                assert(now.last() == coord);
                assert(hits_of(cached@).drop_last() =~= hits);
                assert(hits_of(cached@).last() == found);
                if job {
                    lemma_contains_after_push(earlier, coord);
                }
                assert(self.in_flight() =~= old(self).in_flight().union(jobs@.to_set()));
            }
            i += 1;
        }
        assert(positions@.take(positions@.len() as int) =~= positions@);
        Dispatch { jobs, cached }
    }

    /// Takes the report of the job of a cell. Where no job was running for
    /// the cell, nothing changes. Otherwise the cell is no longer running; a
    /// mesh with geometry is cached and handed on for the host, and any
    /// other outcome leaves the cell free to be requested again.
    pub fn complete(&mut self, coord: ChunkCoord, outcome: JobOutcome<V>) -> (done: Completion<V>)
        requires
            old(self).wf(),
        ensures
            final(self).wf(),
            final(self).settings() == old(self).settings(),
            final(self).in_flight() == after_completion(old(self).in_flight(), coord),
            !old(self).in_flight().contains(coord) ==> done is Stale,
            old(self).in_flight().contains(coord) ==> match outcome {
                JobOutcome::Success(mesh) => if mesh@.is_empty() {
                    done is Absent
                } else {
                    done matches Completion::Ready(p) && publishes(
                        p,
                        old(self).settings(),
                        coord,
                        mesh,
                    )
                },
                JobOutcome::Empty => done is Absent,
                JobOutcome::Exhausted => done is Absent,
            },
    {
        if !remove_coord(&mut self.in_flight, coord) {
            return Completion::Stale;
        }
        match outcome {
            JobOutcome::Success(mesh) => {
                if mesh.is_empty() {
                    Completion::Absent
                } else {
                    cache_insert(&self.cache, chunk_key(coord), mesh.clone());
                    Completion::Ready(publish_for(&self.settings, coord, mesh))
                }
            },
            JobOutcome::Empty => Completion::Absent,
            JobOutcome::Exhausted => Completion::Absent,
        }
    }

    /// What the job of a chunk works on.
    pub fn parameters(&self, coord: ChunkCoord) -> (job: JobParameters)
        requires
            self.wf(),
        ensures
            job.lattice.extents() == (Extents {
                x: self.settings().data_resolution as int,
                y: self.settings().data_resolution as int,
                z: self.settings().data_resolution as int,
            }),
            job.offset.0 == axis_offset(coord.x, self.settings().data_resolution),
            job.offset.1 == axis_offset(coord.y, self.settings().data_resolution),
            job.offset.2 == axis_offset(coord.z, self.settings().data_resolution),
            job.lowest[0] == 1 && job.lowest[1] == 1 && job.lowest[2] == 1,
            job.highest[0] == self.settings().data_resolution - 2,
            job.highest[1] == self.settings().data_resolution - 2,
            job.highest[2] == self.settings().data_resolution - 2,
            job.seed == self.settings().seed,
    {
        job_parameters(&self.settings, coord)
    }
}

} // verus!
