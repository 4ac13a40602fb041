//! Lists of grid cells in which no cell occurs twice: the cells that wait
//! for a chunk and the cells whose job is running.

use vstd::prelude::*;
use crate::coord::ChunkCoord;

verus! {

/// What a sequence holds once an element has been pushed: what it held
/// before, and that element.
pub proof fn lemma_contains_after_push<A>(s: Seq<A>, a: A)
    ensures
        forall|o: A| #[trigger] s.push(a).contains(o) <==> s.contains(o) || o == a,
        s.push(a).to_set() == s.to_set().insert(a),
{
    let after = s.push(a);
    assert forall|o: A| #[trigger] after.contains(o) <==> s.contains(o) || o == a by {
        if after.contains(o) {
            let k = choose|k: int| 0 <= k < after.len() && after[k] == o;
            if k < s.len() {
                assert(s[k] == o);
            }
        }
        if s.contains(o) {
            let k = choose|k: int| 0 <= k < s.len() && s[k] == o;
            assert(after[k] == o);
        }
        if o == a {
            assert(after[after.len() - 1] == o);
        }
    }
    assert(after.to_set() =~= s.to_set().insert(a));
}

/// Whether `c` is among `cells`.
pub fn contains_coord(cells: &Vec<ChunkCoord>, c: ChunkCoord) -> (found: bool)
    ensures
        found == cells@.contains(c),
{
    let mut i: usize = 0;
    while i < cells.len()
        invariant
            i <= cells.len(),
            forall|k: int| 0 <= k < i ==> cells@[k] != c,
        decreases cells.len() - i,
    {
        if cells[i] == c {
            return true;
        }
        i += 1;
    }
    false
}

/// Adds `c` to the cells unless it is among them, and says whether it was
/// added.
pub fn insert_coord(cells: &mut Vec<ChunkCoord>, c: ChunkCoord) -> (added: bool)
    requires
        old(cells)@.no_duplicates(),
    ensures
        final(cells)@.no_duplicates(),
        added == !old(cells)@.contains(c),
        final(cells)@.to_set() == old(cells)@.to_set().insert(c),
        added ==> final(cells)@ == old(cells)@.push(c),
        !added ==> final(cells)@ == old(cells)@,
{
    if contains_coord(cells, c) {
        assert(cells@.to_set() =~= cells@.to_set().insert(c));
        return false;
    }
    cells.push(c);
    proof {
        lemma_contains_after_push(old(cells)@, c);
    }
    true
}

/// Takes `c` out of the cells, and says whether it was among them.
pub fn remove_coord(cells: &mut Vec<ChunkCoord>, c: ChunkCoord) -> (removed: bool)
    requires
        old(cells)@.no_duplicates(),
    ensures
        final(cells)@.no_duplicates(),
        removed == old(cells)@.contains(c),
        final(cells)@.to_set() == old(cells)@.to_set().remove(c),
{
    let mut i: usize = 0;
    while i < cells.len()
        invariant
            i <= cells.len(),
            cells@ == old(cells)@,
            cells@.no_duplicates(),
            forall|k: int| 0 <= k < i ==> cells@[k] != c,
        decreases cells.len() - i,
    {
        if cells[i] == c {
            cells.remove(i);
            proof {
                let before = old(cells)@;
                let after = cells@;
                assert(after =~= before.remove(i as int));
                assert forall|a: int, b: int| 0 <= a < b < after.len() implies after[a] != after[b] by {
                    let a0 = if a < i { a } else { a + 1 };
                    let b0 = if b < i { b } else { b + 1 };
                    assert(after[a] == before[a0]);
                    assert(after[b] == before[b0]);
                }
                assert forall|o: ChunkCoord| after.contains(o) <==> before.contains(o) && o != c by {
                    if after.contains(o) {
                        let k = choose|k: int| 0 <= k < after.len() && after[k] == o;
                        let k0 = if k < i { k } else { k + 1 };
                        assert(before[k0] == o);
                        assert(k0 != i);
                        if o == c {
                            if k0 < i {
                                assert(before[k0] != before[i as int]);
                            } else {
                                assert(before[i as int] != before[k0]);
                            }
                        }
                    }
                    if before.contains(o) && o != c {
                        let k = choose|k: int| 0 <= k < before.len() && before[k] == o;
                        let k1 = if k < i { k } else { k - 1 };
                        assert(after[k1] == o);
                    }
                }
                assert(after.to_set() =~= before.to_set().remove(c));
            }
            return true;
        }
        i += 1;
    }
    assert(cells@.to_set() =~= old(cells)@.to_set().remove(c));
    false
}

} // verus!
