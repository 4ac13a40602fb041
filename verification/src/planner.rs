//! The planning pass: which grid cells around the observer still need a
//! chunk, nearest first.

use vstd::prelude::*;
use crate::coord::{ChunkCoord, dist_sq, coord_dist_sq};
use crate::queue::{queue_entries, queue_new, queue_push, drain_ascending, cell_of};
use crate::pending::{insert_coord, lemma_contains_after_push};
use crate::residency::{Resident, holds_coord, find_resident};

verus! {

/// The window of the given radius around `center`: the cells of its
/// horizontal plane that lie at most `radius` cells from it along each
/// horizontal axis.
pub open spec fn in_window(c: ChunkCoord, center: ChunkCoord, radius: u32) -> bool {
    &&& c.y == center.y
    &&& -(radius as int) <= c.x - center.x <= radius
    &&& -(radius as int) <= c.z - center.z <= radius
}

/// No cell of the sequence is farther from `center` than a later one.
pub open spec fn nearest_first(s: Seq<ChunkCoord>, center: ChunkCoord) -> bool {
    forall|i: int, j: int| 0 <= i <= j < s.len() ==> dist_sq(s[i], center) <= dist_sq(s[j], center)
}

/// The part of the window that a scan which stands at offsets `(dx, dz)` has
/// already passed.
pub open spec fn scanned(c: ChunkCoord, center: ChunkCoord, dx: int, dz: int) -> bool {
    c.x - center.x < dx || (c.x - center.x == dx && c.z - center.z < dz)
}

/// Plans the window around `center`: every cell of the window that is
/// neither resident nor queued is queued and handed back, nearest first.
pub fn plan_window(
    center: ChunkCoord,
    radius: u32,
    residents: &Vec<Resident>,
    queued: &mut Vec<ChunkCoord>,
) -> (planned: Vec<ChunkCoord>)
    requires
        old(queued)@.no_duplicates(),
    ensures
        final(queued)@.no_duplicates(),
        forall|c: ChunkCoord|
            final(queued)@.contains(c) <==> old(queued)@.contains(c) || planned@.contains(c),
        planned@.no_duplicates(),
        forall|c: ChunkCoord|
            planned@.contains(c) <==> in_window(c, center, radius) && !holds_coord(residents@, c)
                && !old(queued)@.contains(c),
        nearest_first(planned@, center),
{
    let r: i64 = radius as i64;
    let mut q = queue_new();
    let mut dx: i64 = -r;
    while dx <= r
        invariant
            r == radius,
            -r <= dx <= r + 1,
            queued@.no_duplicates(),
            forall|c: ChunkCoord|
                #![trigger queued@.contains(c)]
                #![trigger cell_of(c)]
                queued@.contains(c) <==> old(queued)@.contains(c) || queue_entries(q).contains_key(
                    cell_of(c),
                ),
            forall|c: ChunkCoord|
                queue_entries(q).contains_key(#[trigger] cell_of(c)) <==> in_window(c, center, radius)
                    && !holds_coord(residents@, c) && !old(queued)@.contains(c) && scanned(
                    c,
                    center,
                    dx as int,
                    -r as int,
                ),
            forall|c: ChunkCoord|
                queue_entries(q).contains_key(#[trigger] cell_of(c)) ==> queue_entries(q)[cell_of(c)]
                    == dist_sq(c, center),
        decreases r + 1 - dx,
    {
        let mut dz: i64 = -r;
        while dz <= r
            invariant
                r == radius,
                -r <= dx <= r,
                -r <= dz <= r + 1,
                queued@.no_duplicates(),
                forall|c: ChunkCoord|
                    #![trigger queued@.contains(c)]
                    #![trigger cell_of(c)]
                    queued@.contains(c) <==> old(queued)@.contains(c) || queue_entries(
                        q,
                    ).contains_key(cell_of(c)),
                forall|c: ChunkCoord|
                    queue_entries(q).contains_key(#[trigger] cell_of(c)) <==> in_window(
                        c,
                        center,
                        radius,
                    ) && !holds_coord(residents@, c) && !old(queued)@.contains(c) && scanned(
                        c,
                        center,
                        dx as int,
                        dz as int,
                    ),
                forall|c: ChunkCoord|
                    queue_entries(q).contains_key(#[trigger] cell_of(c)) ==> queue_entries(q)[cell_of(
                        c,
                    )] == dist_sq(c, center),
            decreases r + 1 - dz,
        {
            let x: i64 = center.x as i64 + dx;
            let z: i64 = center.z as i64 + dz;
            if -0x8000_0000 <= x && x <= 0x7fff_ffff && -0x8000_0000 <= z && z <= 0x7fff_ffff {
                let c = ChunkCoord { x: x as i32, y: center.y, z: z as i32 };
                if find_resident(residents, c).is_none() {
                    let ghost entries = queue_entries(q);
                    let ghost before = queued@;
                    if insert_coord(queued, c) {
                        assert(!entries.contains_key(cell_of(c)));
                        let priority = coord_dist_sq(c, center);
                        queue_push(&mut q, (c.x, c.y, c.z), priority);
                        proof {
                            lemma_contains_after_push(before, c);
                            assert forall|o: ChunkCoord|
                                #![trigger queued@.contains(o)]
                                #![trigger cell_of(o)]
                                queued@.contains(o) <==> old(queued)@.contains(o) || queue_entries(
                                    q,
                                ).contains_key(cell_of(o)) by {
                                assert(before.contains(o) <==> old(queued)@.contains(o)
                                    || entries.contains_key(cell_of(o)));
                                assert(cell_of(o) == cell_of(c) <==> o == c);
                            }
                        }
                    }
                }
            }
            dz += 1;
        }
        dx += 1;
    }
    let ghost entries = queue_entries(q);
    let planned = drain_ascending(q);
    proof {
        assert forall|i: int, j: int| 0 <= i <= j < planned@.len() implies dist_sq(
            planned@[i],
            center,
        ) <= dist_sq(planned@[j], center) by {
            assert(planned@.contains(planned@[i]));
            assert(planned@.contains(planned@[j]));
            assert(entries.contains_key(cell_of(planned@[i])));
            assert(entries.contains_key(cell_of(planned@[j])));
        }
    }
    planned
}

} // verus!
