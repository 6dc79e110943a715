use vstd::prelude::*;
use crate::sprites::SpriteRequest;

verus! {

/// One entry of the generated level: a coordinate and what to put there.
pub type MapEntry = (usize, usize, SpriteRequest);

/// The generator's sole output: entries in the order the stages pushed them.
/// Several entries may share a coordinate; consumers resolve the layering.
pub type LevelMap = Vec<MapEntry>;

/// `e` sits at `(x, y)` and cannot be walked onto.
pub open spec fn entry_blocks(e: MapEntry, x: usize, y: usize) -> bool {
    e.0 == x && e.1 == y && e.2.blocks()
}

/// `e` is a door opening at `(x, y)`.
pub open spec fn entry_door(e: MapEntry, x: usize, y: usize) -> bool {
    e.0 == x && e.1 == y && e.2 == SpriteRequest::Door
}

/// Some entry of `m` blocks `(x, y)`.
pub open spec fn coord_blocked(m: Seq<MapEntry>, x: usize, y: usize) -> bool {
    exists|i: int| 0 <= i < m.len() && entry_blocks(#[trigger] m[i], x, y)
}

/// Some entry of `m` is a door at `(x, y)`.
pub open spec fn coord_door(m: Seq<MapEntry>, x: usize, y: usize) -> bool {
    exists|i: int| 0 <= i < m.len() && entry_door(#[trigger] m[i], x, y)
}

/// Every coordinate of `m` lies on a `width` by `height` grid.
pub open spec fn entries_in_bounds(m: Seq<MapEntry>, width: usize, height: usize) -> bool {
    forall|i: int| 0 <= i < m.len() ==> (#[trigger] m[i]).0 < width && m[i].1 < height
}

/// Whether `(x, y)` is blocked by any entry already in the map.
pub fn is_blocked_at(m: &Vec<MapEntry>, x: usize, y: usize) -> (r: bool)
    ensures
        r == coord_blocked(m@, x, y),
{
    let mut i: usize = 0;
    while i < m.len()
        invariant
            i <= m.len(),
            forall|k: int| 0 <= k < i ==> !entry_blocks(#[trigger] m@[k], x, y),
        decreases m.len() - i,
    {
        let e = m[i];
        if e.0 == x && e.1 == y && e.2.is_blocking() {
            proof {
                assert(entry_blocks(m@[i as int], x, y));
            }
            return true;
        }
        i = i + 1;
    }
    false
}

/// Whether the map holds a door entry at `(x, y)`.
pub fn is_door_at(m: &Vec<MapEntry>, x: usize, y: usize) -> (r: bool)
    ensures
        r == coord_door(m@, x, y),
{
    let mut i: usize = 0;
    while i < m.len()
        invariant
            i <= m.len(),
            forall|k: int| 0 <= k < i ==> !entry_door(#[trigger] m@[k], x, y),
        decreases m.len() - i,
    {
        let e = m[i];
        if e.0 == x && e.1 == y && e.2 == SpriteRequest::Door {
            proof {
                assert(entry_door(m@[i as int], x, y));
            }
            return true;
        }
        i = i + 1;
    }
    false
}


/// Blocking in a concatenation splits over its two parts.
pub proof fn lemma_coord_blocked_append(a: Seq<MapEntry>, b: Seq<MapEntry>, x: usize, y: usize)
    ensures
        coord_blocked(a + b, x, y) <==> (coord_blocked(a, x, y) || coord_blocked(b, x, y)),
{
    if coord_blocked(a + b, x, y) {
        let i = choose|i: int| 0 <= i < (a + b).len() && entry_blocks(#[trigger] (a + b)[i], x, y);
        if i < a.len() {
            assert(entry_blocks(a[i], x, y));
        } else {
            assert(entry_blocks(b[i - a.len()], x, y));
        }
    }
    if coord_blocked(a, x, y) {
        let i = choose|i: int| 0 <= i < a.len() && entry_blocks(#[trigger] a[i], x, y);
        assert(entry_blocks((a + b)[i], x, y));
    }
    if coord_blocked(b, x, y) {
        let i = choose|i: int| 0 <= i < b.len() && entry_blocks(#[trigger] b[i], x, y);
        assert(entry_blocks((a + b)[a.len() + i], x, y));
    }
}

} // verus!
