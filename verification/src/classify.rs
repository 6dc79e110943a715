use vstd::prelude::*;
use crate::sprites::{SpriteRequest, WallType};
use crate::grid::{GridModel, WallGrid};
use crate::level_map::{MapEntry, entries_in_bounds};

verus! {

/// The ordered 8-neighbour pattern around a cell, at offsets
/// `(-1,+1) (0,+1) (+1,+1) (-1,0) (+1,0) (-1,-1) (0,-1) (+1,-1)`;
/// neighbours outside the grid are `None`.
#[derive(Copy, Clone, Debug, PartialEq, Eq, Structural)]
pub struct NeighborPattern {
    pub nw: Option<WallType>,
    pub nn: Option<WallType>,
    pub ne: Option<WallType>,
    pub ww: Option<WallType>,
    pub ee: Option<WallType>,
    pub sw: Option<WallType>,
    pub ss: Option<WallType>,
    pub se: Option<WallType>,
}

/// Assemble a pattern from its eight slots, in the fixed slot order.
pub open spec fn mk_pattern(
    nw: Option<WallType>,
    nn: Option<WallType>,
    ne: Option<WallType>,
    ww: Option<WallType>,
    ee: Option<WallType>,
    sw: Option<WallType>,
    ss: Option<WallType>,
    se: Option<WallType>,
) -> NeighborPattern {
    NeighborPattern { nw, nn, ne, ww, ee, sw, ss, se }
}

/// Executable form of `mk_pattern`.
pub fn pattern_of(
    nw: Option<WallType>,
    nn: Option<WallType>,
    ne: Option<WallType>,
    ww: Option<WallType>,
    ee: Option<WallType>,
    sw: Option<WallType>,
    ss: Option<WallType>,
    se: Option<WallType>,
) -> (q: NeighborPattern)
    ensures
        q == mk_pattern(nw, nn, ne, ww, ee, sw, ss, se),
{
    NeighborPattern { nw, nn, ne, ww, ee, sw, ss, se }
}

/// The closed classification table: each listed pattern maps to its wall
/// sprite, and every unlisted pattern falls through to `Door`, which marks
/// an opening rather than an error.
pub open spec fn classify_spec(p: NeighborPattern) -> SpriteRequest {
    let n = None::<WallType>;
    let b = Some(WallType::Back);
    let f = Some(WallType::Front);
    let l = Some(WallType::Left);
    let r = Some(WallType::Right);
    if p == mk_pattern(n, n, n, b, b, n, n, n) {
        SpriteRequest::BackWall
    } else if p == mk_pattern(n, n, r, b, r, n, n, n) {
        SpriteRequest::BackWall
    } else if p == mk_pattern(l, n, n, l, b, n, n, n) {
        SpriteRequest::BackWall
    } else if p == mk_pattern(n, l, n, n, b, n, n, n) {
        SpriteRequest::BackWallRightCorner
    } else if p == mk_pattern(n, r, n, b, n, n, n, n) {
        SpriteRequest::BackWallLeftCorner
    } else if p == mk_pattern(n, n, n, n, f, n, l, n) {
        SpriteRequest::FrontWallLeftCorner
    } else if p == mk_pattern(n, n, n, f, n, n, r, n) {
        SpriteRequest::FrontWallRightCorner
    } else if p == mk_pattern(n, n, n, f, f, n, n, n) {
        SpriteRequest::FrontWall
    } else if p == mk_pattern(n, n, n, l, f, l, n, n) {
        SpriteRequest::FrontWall
    } else if p == mk_pattern(n, n, n, f, r, n, n, r) {
        SpriteRequest::FrontWall
    } else if p == mk_pattern(n, l, n, n, n, n, l, n) {
        SpriteRequest::LeftWall
    } else if p == mk_pattern(n, l, n, n, n, n, l, b) {
        SpriteRequest::LeftWall
    } else if p == mk_pattern(n, l, n, n, n, n, l, f) {
        SpriteRequest::LeftWall
    } else if p == mk_pattern(n, l, b, n, n, n, l, n) {
        SpriteRequest::LeftWall
    } else if p == mk_pattern(n, l, f, n, n, n, l, n) {
        SpriteRequest::LeftWall
    } else if p == mk_pattern(n, r, n, n, n, n, r, n) {
        SpriteRequest::RightWall
    } else if p == mk_pattern(n, r, n, n, n, b, r, n) {
        SpriteRequest::RightWall
    } else if p == mk_pattern(n, r, n, n, n, f, r, n) {
        SpriteRequest::RightWall
    } else if p == mk_pattern(b, r, n, n, n, n, r, n) {
        SpriteRequest::RightWall
    } else if p == mk_pattern(f, r, n, n, n, n, r, n) {
        SpriteRequest::RightWall
    } else {
        SpriteRequest::Door
    }
}

/// Whether `p` is one of the table's listed patterns.
pub open spec fn listed(p: NeighborPattern) -> bool {
    let n = None::<WallType>;
    let b = Some(WallType::Back);
    let f = Some(WallType::Front);
    let l = Some(WallType::Left);
    let r = Some(WallType::Right);
    ||| p == mk_pattern(n, n, n, b, b, n, n, n)
    ||| p == mk_pattern(n, n, r, b, r, n, n, n)
    ||| p == mk_pattern(l, n, n, l, b, n, n, n)
    ||| p == mk_pattern(n, l, n, n, b, n, n, n)
    ||| p == mk_pattern(n, r, n, b, n, n, n, n)
    ||| p == mk_pattern(n, n, n, n, f, n, l, n)
    ||| p == mk_pattern(n, n, n, f, n, n, r, n)
    ||| p == mk_pattern(n, n, n, f, f, n, n, n)
    ||| p == mk_pattern(n, n, n, l, f, l, n, n)
    ||| p == mk_pattern(n, n, n, f, r, n, n, r)
    ||| p == mk_pattern(n, l, n, n, n, n, l, n)
    ||| p == mk_pattern(n, l, n, n, n, n, l, b)
    ||| p == mk_pattern(n, l, n, n, n, n, l, f)
    ||| p == mk_pattern(n, l, b, n, n, n, l, n)
    ||| p == mk_pattern(n, l, f, n, n, n, l, n)
    ||| p == mk_pattern(n, r, n, n, n, n, r, n)
    ||| p == mk_pattern(n, r, n, n, n, b, r, n)
    ||| p == mk_pattern(n, r, n, n, n, f, r, n)
    ||| p == mk_pattern(b, r, n, n, n, n, r, n)
    ||| p == mk_pattern(f, r, n, n, n, n, r, n)
}

/// The table is closed: every pattern outside the listed enumeration is
/// classified `Door`, and every listed one reaches its wall sprite, never
/// `Door`. No partial or wildcard matching takes part in the lookup.
pub proof fn lemma_table_closure(p: NeighborPattern)
    ensures
        listed(p) <==> classify_spec(p) != SpriteRequest::Door,
        !listed(p) ==> classify_spec(p) == SpriteRequest::Door,
{
}

/// Classify one neighbour pattern by the closed table.
pub fn classify(p: &NeighborPattern) -> (s: SpriteRequest)
    ensures
        s == classify_spec(*p),
{
    let n: Option<WallType> = None;
    let b = Some(WallType::Back);
    let f = Some(WallType::Front);
    let l = Some(WallType::Left);
    let r = Some(WallType::Right);
    if *p == pattern_of(n, n, n, b, b, n, n, n) {
        SpriteRequest::BackWall
    } else if *p == pattern_of(n, n, r, b, r, n, n, n) {
        SpriteRequest::BackWall
    } else if *p == pattern_of(l, n, n, l, b, n, n, n) {
        SpriteRequest::BackWall
    } else if *p == pattern_of(n, l, n, n, b, n, n, n) {
        SpriteRequest::BackWallRightCorner
    } else if *p == pattern_of(n, r, n, b, n, n, n, n) {
        SpriteRequest::BackWallLeftCorner
    } else if *p == pattern_of(n, n, n, n, f, n, l, n) {
        SpriteRequest::FrontWallLeftCorner
    } else if *p == pattern_of(n, n, n, f, n, n, r, n) {
        SpriteRequest::FrontWallRightCorner
    } else if *p == pattern_of(n, n, n, f, f, n, n, n) {
        SpriteRequest::FrontWall
    } else if *p == pattern_of(n, n, n, l, f, l, n, n) {
        SpriteRequest::FrontWall
    } else if *p == pattern_of(n, n, n, f, r, n, n, r) {
        SpriteRequest::FrontWall
    } else if *p == pattern_of(n, l, n, n, n, n, l, n) {
        SpriteRequest::LeftWall
    } else if *p == pattern_of(n, l, n, n, n, n, l, b) {
        SpriteRequest::LeftWall
    } else if *p == pattern_of(n, l, n, n, n, n, l, f) {
        SpriteRequest::LeftWall
    } else if *p == pattern_of(n, l, b, n, n, n, l, n) {
        SpriteRequest::LeftWall
    } else if *p == pattern_of(n, l, f, n, n, n, l, n) {
        SpriteRequest::LeftWall
    } else if *p == pattern_of(n, r, n, n, n, n, r, n) {
        SpriteRequest::RightWall
    } else if *p == pattern_of(n, r, n, n, n, b, r, n) {
        SpriteRequest::RightWall
    } else if *p == pattern_of(n, r, n, n, n, f, r, n) {
        SpriteRequest::RightWall
    } else if *p == pattern_of(b, r, n, n, n, n, r, n) {
        SpriteRequest::RightWall
    } else if *p == pattern_of(f, r, n, n, n, n, r, n) {
        SpriteRequest::RightWall
    } else {
        SpriteRequest::Door
    }
}

/// The neighbour of `(x, y)` at offset `(dx, dy)`, `None` outside the grid.
pub open spec fn neighbor_spec(m: GridModel, x: int, y: int, dx: int, dy: int) -> Option<
    WallType,
> {
    if 0 <= x + dx < m.len() && 0 <= y + dy < m[x + dx].len() {
        m[x + dx][y + dy]
    } else {
        None
    }
}

/// The full 8-neighbour pattern of `(x, y)`.
pub open spec fn pattern_at_spec(m: GridModel, x: int, y: int) -> NeighborPattern {
    mk_pattern(
        neighbor_spec(m, x, y, -1, 1),
        neighbor_spec(m, x, y, 0, 1),
        neighbor_spec(m, x, y, 1, 1),
        neighbor_spec(m, x, y, -1, 0),
        neighbor_spec(m, x, y, 1, 0),
        neighbor_spec(m, x, y, -1, -1),
        neighbor_spec(m, x, y, 0, -1),
        neighbor_spec(m, x, y, 1, -1),
    )
}

/// Read the 8-neighbour pattern of `(x, y)` from the grid.
pub fn pattern_at(g: &WallGrid, x: usize, y: usize) -> (p: NeighborPattern)
    requires
        g.wf(),
        x < g.width,
        y < g.height,
    ensures
        p == pattern_at_spec(g@, x as int, y as int),
{
    let up = y + 1 < g.height;
    let down = y >= 1;
    let left = x >= 1;
    let right = x + 1 < g.width;
    let nw = if left && up { g.cells[x - 1][y + 1] } else { None };
    let nn = if up { g.cells[x][y + 1] } else { None };
    let ne = if right && up { g.cells[x + 1][y + 1] } else { None };
    let ww = if left { g.cells[x - 1][y] } else { None };
    let ee = if right { g.cells[x + 1][y] } else { None };
    let sw = if left && down { g.cells[x - 1][y - 1] } else { None };
    let ss = if down { g.cells[x][y - 1] } else { None };
    let se = if right && down { g.cells[x + 1][y - 1] } else { None };
    NeighborPattern { nw, nn, ne, ww, ee, sw, ss, se }
}

/// What the classifier emits for one cell: one entry when the cell carries a
/// wall mark, nothing otherwise.
pub open spec fn cell_entry(m: GridModel, x: int, y: int) -> Seq<MapEntry> {
    if m[x][y] is Some {
        seq![(x as usize, y as usize, classify_spec(pattern_at_spec(m, x, y)))]
    } else {
        Seq::empty()
    }
}

/// Entries of column `x` for rows `0 .. y`, in row order.
pub open spec fn col_entries(m: GridModel, x: int, y: nat) -> Seq<MapEntry>
    decreases y,
{
    if y == 0 {
        Seq::empty()
    } else {
        col_entries(m, x, (y - 1) as nat) + cell_entry(m, x, y - 1)
    }
}

/// Entries of columns `0 .. x`, column-major.
pub open spec fn wall_entries_upto(m: GridModel, x: nat) -> Seq<MapEntry>
    decreases x,
{
    if x == 0 {
        Seq::empty()
    } else {
        wall_entries_upto(m, (x - 1) as nat) + col_entries(m, x - 1, m[x - 1].len())
    }
}

/// Everything the wall classifier emits for a fully carved grid.
pub open spec fn wall_entries_spec(m: GridModel) -> Seq<MapEntry> {
    wall_entries_upto(m, m.len())
}

/// Walk the carved grid in column-major order and classify every marked
/// cell by its 8-neighbour pattern; unmarked cells emit nothing.
pub fn classify_grid(g: &WallGrid) -> (m: Vec<MapEntry>)
    requires
        g.wf(),
    ensures
        m@ == wall_entries_spec(g@),
{
    let mut m: Vec<MapEntry> = Vec::new();
    let mut x: usize = 0;
    while x < g.width
        invariant
            g.wf(),
            x <= g.width,
            m@ == wall_entries_upto(g@, x as nat),
        decreases g.width - x,
    {
        let mut y: usize = 0;
        while y < g.height
            invariant
                g.wf(),
                x < g.width,
                y <= g.height,
                m@ == wall_entries_upto(g@, x as nat) + col_entries(g@, x as int, y as nat),
            decreases g.height - y,
        {
            if g.cells[x][y].is_some() {
                let p = pattern_at(g, x, y);
                let s = classify(&p);
                m.push((x, y, s));
            } else {
                proof {
                    assert(g@[x as int][y as int] == g.cells@[x as int]@[y as int]);
                }
            }
            y = y + 1;
        }
        x = x + 1;
    }
    proof {
        assert(g@.len() == g.width);
    }
    m
}


/// Entries of one column stay on that column, below the scanned row.
proof fn lemma_col_entries_bounds(m: GridModel, x: int, y: nat)
    requires
        0 <= x <= usize::MAX,
        x < m.len(),
        y <= usize::MAX,
    ensures
        forall|i: int|
            0 <= i < col_entries(m, x, y).len() ==> (#[trigger] col_entries(m, x, y)[i]).0 == x
                && col_entries(m, x, y)[i].1 < y,
    decreases y,
{
    if y > 0 {
        lemma_col_entries_bounds(m, x, (y - 1) as nat);
        let prev = col_entries(m, x, (y - 1) as nat);
        let cur = col_entries(m, x, y);
        assert forall|i: int| 0 <= i < cur.len() implies (#[trigger] cur[i]).0 == x && cur[i].1
            < y by {
            if i < prev.len() {
                assert(cur[i] == prev[i]);
            } else {
                assert(cur[i] == cell_entry(m, x, y - 1)[i - prev.len()]);
            }
        }
    }
}

/// Every classified wall entry lies on the grid.
pub proof fn lemma_wall_entries_bounds(m: GridModel, width: usize, height: usize)
    requires
        m.len() == width,
        forall|x: int| 0 <= x < m.len() ==> (#[trigger] m[x]).len() == height,
    ensures
        entries_in_bounds(wall_entries_spec(m), width, height),
{
    lemma_wall_entries_upto_bounds(m, width, height, m.len());
}

proof fn lemma_wall_entries_upto_bounds(m: GridModel, width: usize, height: usize, x: nat)
    requires
        m.len() == width,
        x <= m.len(),
        forall|i: int| 0 <= i < m.len() ==> (#[trigger] m[i]).len() == height,
    ensures
        entries_in_bounds(wall_entries_upto(m, x), width, height),
    decreases x,
{
    if x > 0 {
        lemma_wall_entries_upto_bounds(m, width, height, (x - 1) as nat);
        lemma_col_entries_bounds(m, x - 1, m[x - 1].len());
        let prev = wall_entries_upto(m, (x - 1) as nat);
        let col = col_entries(m, x - 1, m[x - 1].len());
        let cur = wall_entries_upto(m, x);
        assert forall|i: int| 0 <= i < cur.len() implies (#[trigger] cur[i]).0 < width
            && cur[i].1 < height by {
            if i < prev.len() {
                assert(cur[i] == prev[i]);
            } else {
                assert(cur[i] == col[i - prev.len()]);
            }
        }
    }
}

} // verus!
