//! The chunks that currently exist on the host side, each grid cell with the
//! handle of its host object.

use vstd::prelude::*;
use crate::coord::{ChunkCoord, dist_sq, coord_dist_sq};

verus! {

/// A chunk that exists on the host side.
#[derive(Clone, Copy, Debug, PartialEq, Eq, Structural)]
pub struct Resident {
    pub coord: ChunkCoord,
    pub handle: i64,
}

/// No grid cell occurs twice.
pub open spec fn distinct_coords(s: Seq<Resident>) -> bool {
    forall|i: int, j: int| 0 <= i < j < s.len() ==> s[i].coord != s[j].coord
}

/// Whether some entry is at the given grid cell.
pub open spec fn holds_coord(s: Seq<Resident>, c: ChunkCoord) -> bool {
    exists|i: int| 0 <= i < s.len() && #[trigger] s[i].coord == c
}

/// The position of the entry at the given grid cell.
pub open spec fn position_of(s: Seq<Resident>, c: ChunkCoord) -> int {
    choose|i: int| 0 <= i < s.len() && #[trigger] s[i].coord == c
}

/// The residency set as a map from grid cell to handle.
pub open spec fn resident_map(s: Seq<Resident>) -> Map<ChunkCoord, i64> {
    Map::new(|c: ChunkCoord| holds_coord(s, c), |c: ChunkCoord| s[position_of(s, c)].handle)
}

/// A residency map without the entries whose host object is gone.
pub open spec fn without_gone(m: Map<ChunkCoord, i64>, gone: Seq<i64>) -> Map<ChunkCoord, i64> {
    Map::new(|c: ChunkCoord| m.contains_key(c) && !gone.contains(m[c]), |c: ChunkCoord| m[c])
}

/// Whether a grid cell lies farther from `center` than `limit` cells.
pub open spec fn out_of_range(c: ChunkCoord, center: ChunkCoord, limit: u64) -> bool {
    dist_sq(c, center) > limit * limit
}

/// A residency map without the entries that are out of range.
pub open spec fn within_range(m: Map<ChunkCoord, i64>, center: ChunkCoord, limit: u64) -> Map<
    ChunkCoord,
    i64,
> {
    Map::new(
        |c: ChunkCoord| m.contains_key(c) && !out_of_range(c, center, limit),
        |c: ChunkCoord| m[c],
    )
}

/// The entries of a residency map that are out of range.
pub open spec fn beyond_range(m: Map<ChunkCoord, i64>, center: ChunkCoord, limit: u64) -> Map<
    ChunkCoord,
    i64,
> {
    Map::new(
        |c: ChunkCoord| m.contains_key(c) && out_of_range(c, center, limit),
        |c: ChunkCoord| m[c],
    )
}

/// Each entry of a duplicate-free sequence is what the map holds at its cell.
pub proof fn lemma_resident_lookup(s: Seq<Resident>, i: int)
    requires
        distinct_coords(s),
        0 <= i < s.len(),
    ensures
        resident_map(s).contains_key(s[i].coord),
        resident_map(s)[s[i].coord] == s[i].handle,
{
    let c = s[i].coord;
    assert(holds_coord(s, c));
    let k = position_of(s, c);
    assert(0 <= k < s.len() && s[k].coord == c);
    if k != i {
        if k < i {
            assert(s[k].coord != s[i].coord);
        } else {
            assert(s[i].coord != s[k].coord);
        }
    }
}

/// What a selection of the entries amounts to as a map: `kept` holds exactly
/// the entries of `all` that `keep` accepts.
proof fn lemma_selection(all: Seq<Resident>, kept: Seq<Resident>, keep: spec_fn(Resident) -> bool)
    requires
        distinct_coords(all),
        distinct_coords(kept),
        forall|k: int|
            0 <= k < kept.len() ==> keep(#[trigger] kept[k]) && exists|j: int|
                0 <= j < all.len() && all[j] == kept[k],
        forall|j: int|
            0 <= j < all.len() && keep(#[trigger] all[j]) ==> exists|k: int|
                0 <= k < kept.len() && kept[k] == all[j],
    ensures
        forall|c: ChunkCoord|
            resident_map(kept).contains_key(c) <==> resident_map(all).contains_key(c) && keep(
                Resident { coord: c, handle: resident_map(all)[c] },
            ),
        forall|c: ChunkCoord| #[trigger]
            resident_map(kept).contains_key(c) ==> resident_map(kept)[c] == resident_map(all)[c],
{
    assert forall|c: ChunkCoord|
        resident_map(kept).contains_key(c) <==> resident_map(all).contains_key(c) && keep(
            Resident { coord: c, handle: resident_map(all)[c] },
        ) by {
        if resident_map(kept).contains_key(c) {
            let k = position_of(kept, c);
            let j = choose|j: int| 0 <= j < all.len() && all[j] == kept[k];
            lemma_resident_lookup(all, j);
            assert(all[j] == Resident { coord: c, handle: resident_map(all)[c] });
        }
        if resident_map(all).contains_key(c) && keep(
            Resident { coord: c, handle: resident_map(all)[c] },
        ) {
            let j = position_of(all, c);
            lemma_resident_lookup(all, j);
            assert(all[j] == Resident { coord: c, handle: resident_map(all)[c] });
            let k = choose|k: int| 0 <= k < kept.len() && kept[k] == all[j];
            assert(kept[k].coord == c);
        }
    }
    assert forall|c: ChunkCoord| #[trigger]
        resident_map(kept).contains_key(c) implies resident_map(kept)[c] == resident_map(all)[c] by {
        let k = position_of(kept, c);
        lemma_resident_lookup(kept, k);
        let j = choose|j: int| 0 <= j < all.len() && all[j] == kept[k];
        lemma_resident_lookup(all, j);
    }
}

/// The position of the entry at a grid cell, if there is one.
pub fn find_resident(residents: &Vec<Resident>, c: ChunkCoord) -> (found: Option<usize>)
    ensures
        found.is_some() == holds_coord(residents@, c),
        found matches Some(i) ==> i < residents@.len() && residents@[i as int].coord == c,
{
    let mut i: usize = 0;
    while i < residents.len()
        invariant
            i <= residents.len(),
            forall|k: int| 0 <= k < i ==> residents@[k].coord != c,
        decreases residents.len() - i,
    {
        if residents[i].coord == c {
            return Some(i);
        }
        i += 1;
    }
    None
}

/// Records that the chunk at `coord` exists with the given handle, in place
/// of any earlier handle for that cell.
pub fn record_resident(residents: &mut Vec<Resident>, coord: ChunkCoord, handle: i64)
    requires
        distinct_coords(old(residents)@),
    ensures
        distinct_coords(final(residents)@),
        resident_map(final(residents)@) == resident_map(old(residents)@).insert(coord, handle),
{
    let entry = Resident { coord, handle };
    match find_resident(residents, coord) {
        Some(i) => {
            residents.set(i, entry);
        },
        None => {
            residents.push(entry);
        },
    }
    proof {
        let before = old(residents)@;
        let after = residents@;
        assert(distinct_coords(after));
        assert forall|c: ChunkCoord|
            resident_map(after).contains_key(c) <==> resident_map(before).insert(
                coord,
                handle,
            ).contains_key(c) by {
            if resident_map(after).contains_key(c) && c != coord {
                let k = position_of(after, c);
                assert(before[k].coord == c);
            }
            if resident_map(before).contains_key(c) && c != coord {
                let k = position_of(before, c);
                assert(after[k].coord == c);
            }
            if c == coord {
                if holds_coord(before, coord) {
                    let k = position_of(before, coord);
                    assert(after[k].coord == c);
                } else {
                    assert(after[after.len() - 1].coord == c);
                }
            }
        }
        assert forall|c: ChunkCoord| #[trigger]
            resident_map(after).contains_key(c) implies resident_map(after)[c] == resident_map(
            before,
        ).insert(coord, handle)[c] by {
            let k = position_of(after, c);
            lemma_resident_lookup(after, k);
            if c != coord {
                assert(before[k].coord == c);
                lemma_resident_lookup(before, k);
            }
        }
        assert(resident_map(after) =~= resident_map(before).insert(coord, handle));
    }
}

/// Whether `handle` is among `handles`.
pub fn has_handle(handles: &Vec<i64>, handle: i64) -> (found: bool)
    ensures
        found == handles@.contains(handle),
{
    let mut i: usize = 0;
    while i < handles.len()
        invariant
            i <= handles.len(),
            forall|k: int| 0 <= k < i ==> handles@[k] != handle,
        decreases handles.len() - i,
    {
        if handles[i] == handle {
            return true;
        }
        i += 1;
    }
    false
}

/// Forgets every entry whose handle is among `gone`.
pub fn drop_gone(residents: &mut Vec<Resident>, gone: &Vec<i64>)
    requires
        distinct_coords(old(residents)@),
    ensures
        distinct_coords(final(residents)@),
        resident_map(final(residents)@) == without_gone(resident_map(old(residents)@), gone@),
{
    let mut kept: Vec<Resident> = Vec::new();
    let mut i: usize = 0;
    while i < residents.len()
        invariant
            i <= residents.len(),
            distinct_coords(residents@),
            distinct_coords(kept@),
            forall|k: int|
                0 <= k < kept@.len() ==> !gone@.contains((#[trigger] kept@[k]).handle) && exists|
                    j: int,
                | 0 <= j < i && residents@[j] == kept@[k],
            forall|j: int|
                0 <= j < i && !gone@.contains((#[trigger] residents@[j]).handle) ==> exists|k: int|
                    0 <= k < kept@.len() && kept@[k] == residents@[j],
        decreases residents.len() - i,
    {
        let entry = residents[i];
        if !has_handle(gone, entry.handle) {
            let ghost before = kept@;
            kept.push(entry);
            proof {
                assert forall|j: int|
                    0 <= j < i + 1 && !gone@.contains((#[trigger] residents@[j]).handle) implies exists|
                    k: int,
                | 0 <= k < kept@.len() && kept@[k] == residents@[j] by {
                    if j < i {
                        let k = choose|k: int| 0 <= k < before.len() && before[k] == residents@[j];
                        assert(kept@[k] == residents@[j]);
                    } else {
                        assert(kept@[kept@.len() - 1] == residents@[j]);
                    }
                }
            }
        }
        i += 1;
    }
    proof {
        let all = residents@;
        let keep = |r: Resident| !gone@.contains(r.handle);
        lemma_selection(all, kept@, keep);
        assert(resident_map(kept@) =~= without_gone(resident_map(all), gone@));
    }
    *residents = kept;
}

/// Whether `d`, a squared distance, exceeds the square of `limit`.
pub fn exceeds(d: u128, limit: u64) -> (over: bool)
    ensures
        over == (d > limit * limit),
{
    let l: u128 = limit as u128;
    assert(l * l <= 0xffff_ffff_ffff_ffff * 0xffff_ffff_ffff_ffff) by (nonlinear_arith)
        requires
            l <= 0xffff_ffff_ffff_ffff,
    ;
    d > l * l
}

/// Takes out every entry that lies farther from `center` than `limit` cells
/// and hands those entries back, each once.
pub fn retire_far(residents: &mut Vec<Resident>, center: ChunkCoord, limit: u64) -> (retired: Vec<
    Resident,
>)
    requires
        distinct_coords(old(residents)@),
    ensures
        distinct_coords(final(residents)@),
        distinct_coords(retired@),
        resident_map(final(residents)@) == within_range(
            resident_map(old(residents)@),
            center,
            limit,
        ),
        resident_map(retired@) == beyond_range(resident_map(old(residents)@), center, limit),
{
    let mut kept: Vec<Resident> = Vec::new();
    let mut retired: Vec<Resident> = Vec::new();
    let mut i: usize = 0;
    while i < residents.len()
        invariant
            i <= residents.len(),
            distinct_coords(residents@),
            distinct_coords(kept@),
            distinct_coords(retired@),
            forall|k: int|
                0 <= k < kept@.len() ==> !out_of_range((#[trigger] kept@[k]).coord, center, limit)
                    && exists|j: int| 0 <= j < i && residents@[j] == kept@[k],
            forall|j: int|
                0 <= j < i && !out_of_range((#[trigger] residents@[j]).coord, center, limit)
                    ==> exists|k: int| 0 <= k < kept@.len() && kept@[k] == residents@[j],
            forall|k: int|
                0 <= k < retired@.len() ==> out_of_range(
                    (#[trigger] retired@[k]).coord,
                    center,
                    limit,
                ) && exists|j: int| 0 <= j < i && residents@[j] == retired@[k],
            forall|j: int|
                0 <= j < i && out_of_range((#[trigger] residents@[j]).coord, center, limit)
                    ==> exists|k: int| 0 <= k < retired@.len() && retired@[k] == residents@[j],
        decreases residents.len() - i,
    {
        let entry = residents[i];
        let d = coord_dist_sq(entry.coord, center);
        if exceeds(d, limit) {
            let ghost before = retired@;
            retired.push(entry);
            proof {
                assert forall|j: int|
                    0 <= j < i + 1 && out_of_range(
                        (#[trigger] residents@[j]).coord,
                        center,
                        limit,
                    ) implies exists|k: int|
                    0 <= k < retired@.len() && retired@[k] == residents@[j] by {
                    if j < i {
                        let k = choose|k: int| 0 <= k < before.len() && before[k] == residents@[j];
                        assert(retired@[k] == residents@[j]);
                    } else {
                        assert(retired@[retired@.len() - 1] == residents@[j]);
                    }
                }
            }
        } else {
            let ghost before = kept@;
            kept.push(entry);
            proof {
                assert forall|j: int|
                    0 <= j < i + 1 && !out_of_range(
                        (#[trigger] residents@[j]).coord,
                        center,
                        limit,
                    ) implies exists|k: int| 0 <= k < kept@.len() && kept@[k] == residents@[j] by {
                    if j < i {
                        let k = choose|k: int| 0 <= k < before.len() && before[k] == residents@[j];
                        assert(kept@[k] == residents@[j]);
                    } else {
                        assert(kept@[kept@.len() - 1] == residents@[j]);
                    }
                }
            }
        }
        i += 1;
    }
    proof {
        let all = residents@;
        let near = |r: Resident| !out_of_range(r.coord, center, limit);
        let far = |r: Resident| out_of_range(r.coord, center, limit);
        lemma_selection(all, kept@, near);
        lemma_selection(all, retired@, far);
        assert(resident_map(kept@) =~= within_range(resident_map(all), center, limit));
        assert(resident_map(retired@) =~= beyond_range(resident_map(all), center, limit));
    }
    *residents = kept;
    retired
}

} // verus!
