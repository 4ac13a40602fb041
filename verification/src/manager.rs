//! The chunk manager: it follows the observer, plans the chunks around it,
//! hands new ones to the scheduler and retires those out of range.

use vstd::prelude::*;
use crate::config::{ConfigError, Settings};
use crate::coord::{ChunkCoord, WorldPos, cell_size, quantized, pos_dist_sq, floor_div, farther_than};
use crate::job::JobOutcome;
use crate::key::{chunk_key, key_text};
use crate::mesh::ChunkData;
use crate::pending::{contains_coord, remove_coord};
use crate::planner::{in_window, nearest_first, plan_window};
use crate::residency::{
    Resident,
    distinct_coords,
    holds_coord,
    resident_map,
    position_of,
    lemma_resident_lookup,
    without_gone,
    within_range,
    beyond_range,
    record_resident,
    find_resident,
    drop_gone,
    retire_far,
};
use crate::threaded_generator::{
    ThreadedGenerator,
    Completion,
    Publish,
    publishes,
    jobs_for,
    hits_of,
    after_completion,
};

verus! {

/// What a planning pass comes to.
#[derive(Debug)]
pub struct ChunkUpdate<V> {
    /// The cells that now wait for a chunk, nearest first.
    pub planned: Vec<ChunkCoord>,
    /// The cells among them for which a job is to be started.
    pub jobs: Vec<ChunkCoord>,
    /// For each planned cell, the mesh that the cache held for it.
    pub cached: Vec<Option<ChunkData<V>>>,
    /// The resident chunks that the host is to destroy, each once.
    pub retired: Vec<Resident>,
}

/// The chunk manager.
#[verifier::reject_recursive_types(V)]
pub struct VoxelChunkManager<V> {
    player_pos: WorldPos,
    settings: Settings,
    threaded_generator: Option<ThreadedGenerator<V>>,
    queued_chunks: Vec<ChunkCoord>,
    generated_chunks: Vec<Resident>,
}

impl<V: Clone + Send + Sync + 'static> VoxelChunkManager<V> {
    /// The manager's invariant: valid settings, no cell waiting twice or
    /// resident twice, no cell both waiting and resident, and a scheduler,
    /// once there is one, that was made with the same settings.
    pub closed spec fn wf(&self) -> bool {
        &&& self.settings.valid()
        &&& self.queued_chunks@.no_duplicates()
        &&& distinct_coords(self.generated_chunks@)
        &&& forall|c: ChunkCoord| #[trigger]
            self.queued_chunks@.contains(c) ==> !holds_coord(self.generated_chunks@, c)
        &&& self.threaded_generator matches Some(g) ==> g.wf() && g.settings() == self.settings
    }

    /// Where the observer stood when the chunks were last planned.
    pub closed spec fn observer(&self) -> WorldPos {
        self.player_pos
    }

    /// The settings of the session.
    pub closed spec fn settings(&self) -> Settings {
        self.settings
    }

    /// Whether the scheduler has been set up.
    pub closed spec fn is_ready(&self) -> bool {
        self.threaded_generator.is_some()
    }

    /// The cells that wait for a chunk.
    pub closed spec fn pending(&self) -> Set<ChunkCoord> {
        self.queued_chunks@.to_set()
    }

    /// The cells for which a job is running.
    pub closed spec fn in_flight(&self) -> Set<ChunkCoord> {
        match self.threaded_generator {
            Some(g) => g.in_flight(),
            None => Set::empty(),
        }
    }

    /// The resident chunks: each cell with the handle of its host object.
    pub closed spec fn residents(&self) -> Map<ChunkCoord, i64> {
        resident_map(self.generated_chunks@)
    }

    /// The grid cell in which the observer stood when the chunks were last
    /// planned.
    pub open spec fn center(&self) -> ChunkCoord {
        quantized(
            self.observer(),
            cell_size(self.settings().data_resolution, self.settings().voxel_size),
        )
    }

    /// No cell both waits for a chunk and is resident.
    pub proof fn lemma_pending_not_resident(&self, c: ChunkCoord)
        requires
            self.wf(),
            self.pending().contains(c),
        ensures
            !self.residents().contains_key(c),
    {
    }

    /// A manager without chunks and without a scheduler, or the first fault
    /// of the settings.
    pub fn new(settings: Settings, player_pos: WorldPos) -> (made: Result<Self, ConfigError>)
        ensures
            match settings.first_fault() {
                Some(fault) => made matches Err(e) && e == fault,
                None => made matches Ok(m) && m.wf() && !m.is_ready() && m.settings() == settings
                    && m.observer() == player_pos && m.pending() == Set::<ChunkCoord>::empty()
                    && m.residents() == Map::<ChunkCoord, i64>::empty(),
            },
    {
        match settings.validate() {
            Err(fault) => Err(fault),
            Ok(()) => {
                let m = VoxelChunkManager {
                    player_pos,
                    settings,
                    threaded_generator: None,
                    queued_chunks: Vec::new(),
                    generated_chunks: Vec::new(),
                };
                assert(m.queued_chunks@.to_set() =~= Set::<ChunkCoord>::empty());
                assert(resident_map(m.generated_chunks@) =~= Map::<ChunkCoord, i64>::empty());
                Ok(m)
            },
        }
    }

    /// Takes a new position of the observer. Where it lies farther from the
    /// position of the last planning pass than the hysteresis, it becomes
    /// the position to plan around and a planning pass is due; otherwise
    /// nothing changes.
    pub fn update_player_position(&mut self, player_pos: WorldPos) -> (replan: bool)
        requires
            old(self).wf(),
        ensures
            final(self).wf(),
            replan == (pos_dist_sq(old(self).observer(), player_pos) > old(
                self,
            ).settings().hysteresis * old(self).settings().hysteresis),
            final(self).observer() == (if replan {
                player_pos
            } else {
                old(self).observer()
            }),
            final(self).settings() == old(self).settings(),
            final(self).is_ready() == old(self).is_ready(),
            final(self).pending() == old(self).pending(),
            final(self).in_flight() == old(self).in_flight(),
            final(self).residents() == old(self).residents(),
    {
        if farther_than(self.player_pos, player_pos, self.settings.hysteresis) {
            self.player_pos = player_pos;
            true
        } else {
            false
        }
    }

    /// The grid cell of a world position.
    pub fn quantize_pos(&self, pos: WorldPos) -> (cell: ChunkCoord)
        requires
            self.wf(),
        ensures
            cell == quantized(
                pos,
                cell_size(self.settings().data_resolution, self.settings().voxel_size),
            ),
    {
        let size = self.settings.cell();
        ChunkCoord { x: floor_div(pos.x, size), y: 0, z: floor_div(pos.z, size) }
    }

    /// The key of a grid cell.
    pub fn hash_chunk_pos(chunk_pos: ChunkCoord) -> (key: String)
        ensures
            key@ == key_text(chunk_pos),
    {
        chunk_key(chunk_pos)
    }

    /// Records that the host has materialized the chunk of a cell: the cell
    /// is resident under the given handle and no longer waits.
    pub fn on_chunk_added(&mut self, coord: ChunkCoord, handle: i64)
        requires
            old(self).wf(),
        ensures
            final(self).wf(),
            final(self).residents() == old(self).residents().insert(coord, handle),
            final(self).pending() == old(self).pending().remove(coord),
            final(self).observer() == old(self).observer(),
            final(self).settings() == old(self).settings(),
            final(self).is_ready() == old(self).is_ready(),
            final(self).in_flight() == old(self).in_flight(),
    {
        record_resident(&mut self.generated_chunks, coord, handle);
        remove_coord(&mut self.queued_chunks, coord);
        proof {
            assert forall|c: ChunkCoord| #[trigger]
                self.queued_chunks@.contains(c) implies !holds_coord(self.generated_chunks@, c) by {
                assert(self.queued_chunks@.to_set().contains(c));
                assert(old(self).queued_chunks@.contains(c));
                assert(c != coord);
                assert(resident_map(self.generated_chunks@).contains_key(c) == resident_map(
                    old(self).generated_chunks@,
                ).contains_key(c));
            }
        }
    }

    /// The settings of the session.
    pub fn get_settings(&self) -> (settings: Settings)
        requires
            self.wf(),
        ensures
            settings == self.settings(),
            settings.valid(),
    {
        self.settings
    }

    /// Where the observer stood when the chunks were last planned.
    pub fn player_pos(&self) -> (pos: WorldPos)
        ensures
            pos == self.observer(),
    {
        self.player_pos
    }

    /// Whether the cell waits for a chunk.
    pub fn is_queued(&self, coord: ChunkCoord) -> (waiting: bool)
        ensures
            waiting == self.pending().contains(coord),
    {
        contains_coord(&self.queued_chunks, coord)
    }

    /// The handle under which the cell is resident, if it is.
    pub fn handle_of(&self, coord: ChunkCoord) -> (handle: Option<i64>)
        requires
            self.wf(),
        ensures
            handle == (if self.residents().contains_key(coord) {
                Some(self.residents()[coord])
            } else {
                None
            }),
    {
        match find_resident(&self.generated_chunks, coord) {
            Some(i) => {
                proof {
                    lemma_resident_lookup(self.generated_chunks@, i as int);
                }
                Some(self.generated_chunks[i].handle)
            },
            None => None,
        }
    }

    /// The handles of the resident chunks, for the host to say which of
    /// them are gone.
    pub fn resident_handles(&self) -> (handles: Vec<i64>)
        requires
            self.wf(),
        ensures
            forall|h: i64|
                handles@.contains(h) <==> exists|c: ChunkCoord| #[trigger]
                    self.residents().contains_key(c) && self.residents()[c] == h,
    {
        let mut handles: Vec<i64> = Vec::new();
        let mut i: usize = 0;
        while i < self.generated_chunks.len()
            invariant
                i <= self.generated_chunks.len(),
                handles@.len() == i,
                forall|k: int| 0 <= k < i ==> handles@[k] == self.generated_chunks@[k].handle,
            decreases self.generated_chunks.len() - i,
        {
            handles.push(self.generated_chunks[i].handle);
            i += 1;
        }
        proof {
            let s = self.generated_chunks@;
            assert forall|h: i64|
                handles@.contains(h) <==> exists|c: ChunkCoord| #[trigger]
                    self.residents().contains_key(c) && self.residents()[c] == h by {
                if handles@.contains(h) {
                    let k = choose|k: int| 0 <= k < handles@.len() && handles@[k] == h;
                    lemma_resident_lookup(s, k);
                    assert(self.residents().contains_key(s[k].coord) && self.residents()[s[k].coord]
                        == h);
                }
                if exists|c: ChunkCoord| #[trigger]
                    self.residents().contains_key(c) && self.residents()[c] == h {
                    let c = choose|c: ChunkCoord| #[trigger]
                        self.residents().contains_key(c) && self.residents()[c] == h;
                    let k = position_of(s, c);
                    lemma_resident_lookup(s, k);
                    assert(handles@[k] == h);
                }
            }
        }
        handles
    }

    /// Sets up the scheduler and runs the first planning pass. It is for a
    /// manager that has no scheduler yet: a second one would forget the
    /// jobs of the first while their cells still wait.
    pub fn ready(&mut self) -> (update: ChunkUpdate<V>)
        requires
            old(self).wf(),
            !old(self).is_ready(),
        ensures
            final(self).wf(),
            final(self).is_ready(),
            final(self).observer() == old(self).observer(),
            final(self).settings() == old(self).settings(),
            update.planned@.no_duplicates(),
            forall|c: ChunkCoord|
                update.planned@.contains(c) <==> in_window(
                    c,
                    old(self).center(),
                    old(self).settings().render_distance,
                ) && !old(self).residents().contains_key(c) && !old(self).pending().contains(c),
            nearest_first(update.planned@, old(self).center()),
            final(self).pending() == old(self).pending().union(update.planned@.to_set()),
            update.cached@.len() == update.planned@.len(),
            forall|i: int|
                0 <= i < update.cached@.len() ==> (#[trigger] update.cached@[i] matches Some(m)
                    ==> !m@.is_empty()),
            update.jobs@ == jobs_for(
                Set::<ChunkCoord>::empty(),
                update.planned@,
                hits_of(update.cached@),
            ),
            final(self).in_flight() == update.jobs@.to_set(),
            final(self).residents() == within_range(
                old(self).residents(),
                old(self).center(),
                old(self).settings().eviction_limit() as u64,
            ),
            distinct_coords(update.retired@),
            resident_map(update.retired@) == beyond_range(
                old(self).residents(),
                old(self).center(),
                old(self).settings().eviction_limit() as u64,
            ),
    {
        let made = ThreadedGenerator::initialize(self.settings);
        self.threaded_generator = Some(made.unwrap());
        let none: Vec<i64> = Vec::new();
        proof {
            assert(without_gone(old(self).residents(), none@) =~= old(self).residents());
        }
        let update = self.update_chunks(&none);
        proof {
            assert(Set::<ChunkCoord>::empty().union(update.jobs@.to_set()) =~= update.jobs@.to_set());
        }
        update
    }

    /// Runs a planning pass around the cell of the observer. `gone` holds
    /// the handles of resident chunks whose host object no longer exists;
    /// those are forgotten without more ado. Every cell of the window that
    /// is then neither resident nor waiting is planned, nearest first, and
    /// requested from the scheduler. Last, the resident chunks that lie
    /// beyond the eviction limit are retired.
    pub fn update_chunks(&mut self, gone: &Vec<i64>) -> (update: ChunkUpdate<V>)
        requires
            old(self).wf(),
            old(self).is_ready(),
        ensures
            final(self).wf(),
            final(self).is_ready(),
            final(self).observer() == old(self).observer(),
            final(self).settings() == old(self).settings(),
            update.planned@.no_duplicates(),
            forall|c: ChunkCoord|
                update.planned@.contains(c) <==> in_window(
                    c,
                    old(self).center(),
                    old(self).settings().render_distance,
                ) && !without_gone(old(self).residents(), gone@).contains_key(c) && !old(
                    self,
                ).pending().contains(c),
            nearest_first(update.planned@, old(self).center()),
            final(self).pending() == old(self).pending().union(update.planned@.to_set()),
            update.cached@.len() == update.planned@.len(),
            forall|i: int|
                0 <= i < update.cached@.len() ==> (#[trigger] update.cached@[i] matches Some(m)
                    ==> !m@.is_empty()),
            update.jobs@ == jobs_for(
                old(self).in_flight(),
                update.planned@,
                hits_of(update.cached@),
            ),
            final(self).in_flight() == old(self).in_flight().union(update.jobs@.to_set()),
            final(self).residents() == within_range(
                without_gone(old(self).residents(), gone@),
                old(self).center(),
                old(self).settings().eviction_limit() as u64,
            ),
            distinct_coords(update.retired@),
            resident_map(update.retired@) == beyond_range(
                without_gone(old(self).residents(), gone@),
                old(self).center(),
                old(self).settings().eviction_limit() as u64,
            ),
    {
        let center = self.quantize_pos(self.player_pos);
        let limit = self.settings.retire_limit();
        drop_gone(&mut self.generated_chunks, gone);
        let ghost alive = self.generated_chunks@;
        let ghost waiting = self.queued_chunks@;
        proof {
            assert forall|c: ChunkCoord| #[trigger] waiting.contains(c) implies !holds_coord(
                alive,
                c,
            ) by {
                assert(resident_map(alive).contains_key(c) ==> resident_map(
                    old(self).generated_chunks@,
                ).contains_key(c));
            }
        }
        let planned = plan_window(
            center,
            self.settings.render_distance,
            &self.generated_chunks,
            &mut self.queued_chunks,
        );
        let mut generator = self.threaded_generator.take().unwrap();
        let dispatch = generator.generate_chunk_data(&planned);
        self.threaded_generator = Some(generator);
        let retired = retire_far(&mut self.generated_chunks, center, limit);
        proof {
            assert forall|c: ChunkCoord| #[trigger]
                self.queued_chunks@.contains(c) implies !holds_coord(self.generated_chunks@, c) by {
                assert(resident_map(self.generated_chunks@).contains_key(c) ==> resident_map(
                    alive,
                ).contains_key(c));
                if waiting.contains(c) {
                    assert(!holds_coord(alive, c));
                } else {
                    assert(planned@.contains(c));
                }
            }
            assert(self.queued_chunks@.to_set() =~= waiting.to_set().union(planned@.to_set()));
            assert forall|c: ChunkCoord|
                planned@.contains(c) <==> in_window(c, center, self.settings.render_distance)
                    && !without_gone(old(self).residents(), gone@).contains_key(c) && !old(
                    self,
                ).pending().contains(c) by {
                assert(resident_map(alive).contains_key(c) == holds_coord(alive, c));
            }
        }
        ChunkUpdate { planned, jobs: dispatch.jobs, cached: dispatch.cached, retired }
    }

    /// Takes the outcome of the job of a cell to the scheduler. A mesh with
    /// geometry comes back for the host to materialize, and the cell keeps
    /// waiting until the host has done so. Where the job left nothing, the
    /// cell no longer waits, so that a later pass plans it again. A report
    /// for a cell without a running job changes nothing.
    pub fn finish_job(&mut self, coord: ChunkCoord, outcome: JobOutcome<V>) -> (publish: Option<
        Publish<V>,
    >)
        requires
            old(self).wf(),
            old(self).is_ready(),
        ensures
            final(self).wf(),
            final(self).is_ready(),
            final(self).observer() == old(self).observer(),
            final(self).settings() == old(self).settings(),
            final(self).residents() == old(self).residents(),
            final(self).in_flight() == after_completion(old(self).in_flight(), coord),
            !old(self).in_flight().contains(coord) ==> publish is None && final(self).pending()
                == old(self).pending(),
            old(self).in_flight().contains(coord) ==> match outcome {
                JobOutcome::Success(mesh) => if mesh@.is_empty() {
                    publish is None && final(self).pending() == old(self).pending().remove(coord)
                } else {
                    publish matches Some(p) && publishes(p, old(self).settings(), coord, mesh)
                        && final(self).pending() == old(self).pending()
                },
                JobOutcome::Empty => publish is None && final(self).pending() == old(
                    self,
                ).pending().remove(coord),
                JobOutcome::Exhausted => publish is None && final(self).pending() == old(
                    self,
                ).pending().remove(coord),
            },
    {
        let mut generator = self.threaded_generator.take().unwrap();
        let done = generator.complete(coord, outcome);
        self.threaded_generator = Some(generator);
        match done {
            Completion::Stale => None,
            Completion::Absent => {
                remove_coord(&mut self.queued_chunks, coord);
                proof {
                    assert forall|c: ChunkCoord| #[trigger]
                        self.queued_chunks@.contains(c) implies !holds_coord(
                        self.generated_chunks@,
                        c,
                    ) by {
                        assert(self.queued_chunks@.to_set().contains(c));
                        assert(old(self).queued_chunks@.contains(c));
                    }
                }
                None
            },
            Completion::Ready(p) => Some(p),
        }
    }
}

} // verus!
