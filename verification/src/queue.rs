//! Nearest-first ordering of grid cells, kept in a priority queue.

use vstd::prelude::*;
use priority_queue::PriorityQueue;
use std::hash::RandomState;
use crate::coord::ChunkCoord;

verus! {

/// The priority queue of the `priority_queue` crate. Its inside is not
/// looked into; `queue_entries` names what it holds.
#[verifier::external_type_specification]
#[verifier::external_body]
#[verifier::reject_recursive_types(I)]
#[verifier::reject_recursive_types(P)]
#[verifier::reject_recursive_types(H)]
pub struct ExPriorityQueue<I, P, H>(PriorityQueue<I, P, H>);

/// A grid cell as the queue stores it: its three axis values.
pub type Cell = (i32, i32, i32);

/// A queue of grid cells, each with a priority.
pub type CellQueue = PriorityQueue<Cell, u128, RandomState>;

/// What a queue of grid cells holds: each cell with the priority it was last
/// pushed with.
pub uninterp spec fn queue_entries(q: CellQueue) -> Map<Cell, u128>;

/// `PriorityQueue::new`: a queue that holds nothing.
#[verifier::external_body]
pub(crate) fn queue_new() -> (q: CellQueue)
    ensures
        queue_entries(q) == (Map::<Cell, u128>::empty()),
{
    PriorityQueue::new()
}

/// `PriorityQueue::push`: the item is stored with the given priority, which
/// replaces the priority of an equal item already held; the replaced
/// priority is returned.
#[verifier::external_body]
pub(crate) fn queue_push(
    q: &mut CellQueue,
    item: Cell,
    priority: u128,
) -> (previous: Option<u128>)
    ensures
        queue_entries(*final(q)) == queue_entries(*old(q)).insert(item, priority),
        previous == (if queue_entries(*old(q)).contains_key(item) {
            Some(queue_entries(*old(q))[item])
        } else {
            None
        }),
{
    q.push(item, priority)
}

/// `PriorityQueue::into_sorted_vec`: every item held, once each, from the
/// highest priority to the lowest.
#[verifier::external_body]
fn queue_into_sorted_vec(q: CellQueue) -> (items: Vec<Cell>)
    ensures
        items@.no_duplicates(),
        forall|c: Cell| items@.contains(c) <==> queue_entries(q).contains_key(c),
        forall|i: int, j: int|
            0 <= i <= j < items@.len() ==> queue_entries(q)[items@[i]] >= queue_entries(
                q,
            )[items@[j]],
{
    q.into_sorted_vec()
}

/// The queue's form of a grid cell.
pub open spec fn cell_of(c: ChunkCoord) -> Cell {
    (c.x, c.y, c.z)
}

/// Empties the queue into a list that starts with the lowest priority: every
/// cell held comes out once, and no cell comes before one of lower priority.
pub(crate) fn drain_ascending(q: CellQueue) -> (cells: Vec<ChunkCoord>)
    ensures
        cells@.no_duplicates(),
        forall|c: ChunkCoord|
            #![trigger cells@.contains(c)]
            #![trigger cell_of(c)]
            cells@.contains(c) <==> queue_entries(q).contains_key(cell_of(c)),
        forall|i: int, j: int|
            0 <= i <= j < cells@.len() ==> queue_entries(q)[cell_of(cells@[i])] <= queue_entries(
                q,
            )[cell_of(cells@[j])],
{
    let ghost entries = queue_entries(q);
    let items = queue_into_sorted_vec(q);
    let n = items.len();
    let mut cells: Vec<ChunkCoord> = Vec::new();
    let mut k: usize = n;
    while k > 0
        invariant
            k <= n,
            n == items@.len(),
            cells@.len() == n - k,
            forall|m: int| 0 <= m < cells@.len() ==> cell_of(#[trigger] cells@[m]) == items@[n - 1 - m],
        decreases k,
    {
        k -= 1;
        let item = items[k];
        cells.push(ChunkCoord { x: item.0, y: item.1, z: item.2 });
    }
    proof {
        assert forall|a: int, b: int| 0 <= a < b < cells@.len() implies cells@[a] != cells@[b] by {
            assert(cell_of(cells@[a]) == items@[n - 1 - a]);
            assert(cell_of(cells@[b]) == items@[n - 1 - b]);
        }
        assert forall|c: ChunkCoord|
            #![trigger cells@.contains(c)]
            #![trigger cell_of(c)]
            cells@.contains(c) <==> entries.contains_key(cell_of(c)) by {
            if cells@.contains(c) {
                let m = choose|m: int| 0 <= m < cells@.len() && cells@[m] == c;
                assert(cell_of(cells@[m]) == items@[n - 1 - m]);
                assert(items@.contains(cell_of(c)));
            }
            if entries.contains_key(cell_of(c)) {
                assert(items@.contains(cell_of(c)));
                let m = choose|m: int| 0 <= m < items@.len() && items@[m] == cell_of(c);
                assert(cell_of(cells@[n - 1 - m]) == items@[m]);
                assert(cells@[n - 1 - m] == c);
            }
        }
        assert forall|i: int, j: int| 0 <= i <= j < cells@.len() implies entries[cell_of(
            cells@[i],
        )] <= entries[cell_of(cells@[j])] by {
            assert(cell_of(cells@[i]) == items@[n - 1 - i]);
            assert(cell_of(cells@[j]) == items@[n - 1 - j]);
        }
    }
    cells
}

} // verus!
