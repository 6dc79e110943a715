use vstd::prelude::*;
use vstd::pervasive::VecAdditionalExecFns;
use crate::sprites::SpriteRequest;
use crate::level_map::{MapEntry, coord_blocked, coord_door, entries_in_bounds, is_blocked_at, is_door_at};

verus! {

/// Where a sampled noise value falls against the two placement thresholds:
/// `Low` is at or below the shrubbery threshold, `Mid` above it but at or
/// below the tree threshold, `High` above the tree threshold.
#[derive(Copy, Clone, Debug, PartialEq, Eq, Structural)]
pub enum NoiseBand {
    Low,
    Mid,
    High,
}

/// The thresholded noise samples one cell needs: the light field drives
/// `Shrubbery`/`Tree`, the dark field drives `DarkShrubbery`/`WarpedTree`,
/// `door` is the dark field's magnitude scaled by the door-replacement
/// modifier, and `override_ok` says whether the third, override field
/// exceeded the wall-override threshold.
#[derive(Copy, Clone, Debug, PartialEq, Eq, Structural)]
pub struct CellNoise {
    pub light: NoiseBand,
    pub dark: NoiseBand,
    pub door: NoiseBand,
    pub override_ok: bool,
}

/// One pushed decision: a tree when the cell is blocked and the override
/// flag is set, or when the value clears the tree threshold; otherwise a
/// shrub when the value clears the shrubbery threshold; otherwise nothing.
pub open spec fn variant_entries(
    x: usize,
    y: usize,
    blocked: bool,
    ov: bool,
    band: NoiseBand,
    shrub: SpriteRequest,
    tree: SpriteRequest,
) -> Seq<MapEntry> {
    if (blocked && ov) || band == NoiseBand::High {
        seq![(x, y, tree)]
    } else if band != NoiseBand::Low {
        seq![(x, y, shrub)]
    } else {
        Seq::empty()
    }
}

/// All entries one cell contributes, in push order: the door-replacement
/// branch when the map holds a door there (dark or light variants by the
/// dark field's sign), then the light field's own branch, then the dark
/// field's own branch. Each branch decides independently, so one cell may
/// receive several entries.
pub open spec fn cell_foliage(base: Seq<MapEntry>, x: usize, y: usize, cn: CellNoise) -> Seq<
    MapEntry,
> {
    let blocked = coord_blocked(base, x, y);
    let ov = cn.override_ok;
    (if coord_door(base, x, y) {
        if cn.dark != NoiseBand::Low {
            variant_entries(
                x,
                y,
                blocked,
                ov,
                cn.door,
                SpriteRequest::DarkShrubbery,
                SpriteRequest::WarpedTree,
            )
        } else {
            variant_entries(x, y, blocked, ov, cn.door, SpriteRequest::Shrubbery, SpriteRequest::Tree)
        }
    } else {
        Seq::empty()
    }) + (if cn.light != NoiseBand::Low {
        variant_entries(x, y, blocked, ov, cn.light, SpriteRequest::Shrubbery, SpriteRequest::Tree)
    } else {
        Seq::empty()
    }) + (if cn.dark != NoiseBand::Low {
        variant_entries(
            x,
            y,
            blocked,
            ov,
            cn.dark,
            SpriteRequest::DarkShrubbery,
            SpriteRequest::WarpedTree,
        )
    } else {
        Seq::empty()
    })
}

/// Foliage of column `x` for rows `0 .. y`, in row order.
pub open spec fn col_foliage(
    base: Seq<MapEntry>,
    noise_col: Seq<CellNoise>,
    x: usize,
    y: nat,
) -> Seq<MapEntry>
    decreases y,
{
    if y == 0 {
        Seq::empty()
    } else {
        col_foliage(base, noise_col, x, (y - 1) as nat) + cell_foliage(
            base,
            x,
            (y - 1) as usize,
            noise_col[y - 1],
        )
    }
}

/// Foliage of columns `0 .. x`, column-major.
pub open spec fn foliage_upto(base: Seq<MapEntry>, noise: Seq<Seq<CellNoise>>, x: nat) -> Seq<
    MapEntry,
>
    decreases x,
{
    if x == 0 {
        Seq::empty()
    } else {
        foliage_upto(base, noise, (x - 1) as nat) + col_foliage(
            base,
            noise[x - 1],
            (x - 1) as usize,
            noise[x - 1].len(),
        )
    }
}

/// Everything the foliage stage appends for a given base map and noise grid.
pub open spec fn foliage_spec(base: Seq<MapEntry>, noise: Seq<Seq<CellNoise>>) -> Seq<MapEntry> {
    foliage_upto(base, noise, noise.len())
}

/// A dense grid of per-cell thresholded noise samples, indexed as
/// `cells[x][y]`.
pub struct NoiseGrid {
    pub width: usize,
    pub height: usize,
    pub cells: Vec<Vec<CellNoise>>,
}

impl View for NoiseGrid {
    type V = Seq<Seq<CellNoise>>;

    open spec fn view(&self) -> Seq<Seq<CellNoise>> {
        self.cells@.map_values(|c: Vec<CellNoise>| c@)
    }
}

impl NoiseGrid {
    /// The dense buffer really has `width` columns of `height` cells each.
    pub open spec fn wf(self) -> bool {
        &&& self.cells.len() == self.width
        &&& forall|x: int| 0 <= x < self.width ==> (#[trigger] self.cells[x]).len() == self.height
    }

    /// A grid holding `fill` in every cell.
    pub fn new_uniform(width: usize, height: usize, fill: CellNoise) -> (g: NoiseGrid)
        ensures
            g.wf(),
            g.width == width,
            g.height == height,
            forall|x: int, y: int| 0 <= x < width && 0 <= y < height ==> g@[x][y] == fill,
    {
        let mut cells: Vec<Vec<CellNoise>> = Vec::new();
        let mut x: usize = 0;
        while x < width
            invariant
                x <= width,
                cells.len() == x,
                forall|i: int| 0 <= i < x ==> (#[trigger] cells[i]).len() == height,
                forall|i: int, j: int| 0 <= i < x && 0 <= j < height ==> cells[i][j] == fill,
            decreases width - x,
        {
            let mut col: Vec<CellNoise> = Vec::new();
            let mut y: usize = 0;
            while y < height
                invariant
                    y <= height,
                    col.len() == y,
                    forall|j: int| 0 <= j < y ==> col[j] == fill,
                decreases height - y,
            {
                col.push(fill);
                y = y + 1;
            }
            cells.push(col);
            x = x + 1;
        }
        NoiseGrid { width, height, cells }
    }

    /// Overwrite the sample of one cell.
    pub fn set_cell(&mut self, x: usize, y: usize, cn: CellNoise)
        requires
            old(self).wf(),
            x < old(self).width,
            y < old(self).height,
        ensures
            final(self).wf(),
            final(self).width == old(self).width,
            final(self).height == old(self).height,
            final(self)@ == old(self)@.update(
                x as int,
                old(self)@[x as int].update(y as int, cn),
            ),
    {
        let ghost pre = self.cells@;
        self.cells[x].set(y, cn);
        proof {
            assert(self@ =~~= pre.map_values(|c: Vec<CellNoise>| c@).update(
                x as int,
                pre[x as int]@.update(y as int, cn),
            ));
        }
    }

    /// Executable check of `wf`, for callers outside verified code.
    pub fn is_wf(&self) -> (r: bool)
        ensures
            r == self.wf(),
    {
        if self.cells.len() != self.width {
            return false;
        }
        let mut x: usize = 0;
        while x < self.width
            invariant
                x <= self.width,
                self.cells.len() == self.width,
                forall|i: int| 0 <= i < x ==> (#[trigger] self.cells[i]).len() == self.height,
            decreases self.width - x,
        {
            if self.cells[x].len() != self.height {
                return false;
            }
            x = x + 1;
        }
        true
    }
}

/// Push what `variant_entries` describes for one branch of one cell.
fn push_variant(
    adds: &mut Vec<MapEntry>,
    x: usize,
    y: usize,
    blocked: bool,
    ov: bool,
    band: NoiseBand,
    shrub: SpriteRequest,
    tree: SpriteRequest,
)
    ensures
        final(adds)@ == old(adds)@ + variant_entries(x, y, blocked, ov, band, shrub, tree),
{
    if (blocked && ov) || band == NoiseBand::High {
        adds.push((x, y, tree));
    } else if band != NoiseBand::Low {
        adds.push((x, y, shrub));
    } else {
        proof {
            assert(old(adds)@ + variant_entries(x, y, blocked, ov, band, shrub, tree) =~= old(
                adds,
            )@);
        }
    }
}

/// Evaluate one cell's three decisions against `map` and push what
/// `cell_foliage` describes.
fn push_cell(adds: &mut Vec<MapEntry>, map: &Vec<MapEntry>, x: usize, y: usize, cn: CellNoise)
    ensures
        final(adds)@ == old(adds)@ + cell_foliage(map@, x, y, cn),
{
    let blocked = is_blocked_at(map, x, y);
    let door = is_door_at(map, x, y);
    let ghost pre_adds = adds@;
    if door {
        if cn.dark != NoiseBand::Low {
            push_variant(
                adds,
                x,
                y,
                blocked,
                cn.override_ok,
                cn.door,
                SpriteRequest::DarkShrubbery,
                SpriteRequest::WarpedTree,
            );
        } else {
            push_variant(
                adds,
                x,
                y,
                blocked,
                cn.override_ok,
                cn.door,
                SpriteRequest::Shrubbery,
                SpriteRequest::Tree,
            );
        }
    }
    if cn.light != NoiseBand::Low {
        push_variant(
            adds,
            x,
            y,
            blocked,
            cn.override_ok,
            cn.light,
            SpriteRequest::Shrubbery,
            SpriteRequest::Tree,
        );
    }
    if cn.dark != NoiseBand::Low {
        push_variant(
            adds,
            x,
            y,
            blocked,
            cn.override_ok,
            cn.dark,
            SpriteRequest::DarkShrubbery,
            SpriteRequest::WarpedTree,
        );
    }
    proof {
        assert(adds@ =~= pre_adds + cell_foliage(map@, x, y, cn));
    }
}

/// Evaluate every cell's three foliage decisions against the map as it stood
/// before this stage, and append the pushed entries to the map in
/// column-major cell order.
pub fn scatter(map: &mut Vec<MapEntry>, noise: &NoiseGrid)
    requires
        noise.wf(),
    ensures
        final(map)@ == old(map)@ + foliage_spec(old(map)@, noise@),
{
    let mut adds: Vec<MapEntry> = Vec::new();
    let mut x: usize = 0;
    while x < noise.width
        invariant
            noise.wf(),
            x <= noise.width,
            map@ == old(map)@,
            adds@ == foliage_upto(map@, noise@, x as nat),
        decreases noise.width - x,
    {
        let mut y: usize = 0;
        while y < noise.height
            invariant
                noise.wf(),
                x < noise.width,
                y <= noise.height,
                map@ == old(map)@,
                adds@ == foliage_upto(map@, noise@, x as nat) + col_foliage(
                    map@,
                    noise@[x as int],
                    x,
                    y as nat,
                ),
            decreases noise.height - y,
        {
            let cn = noise.cells[x][y];
            proof {
                assert(noise@[x as int][y as int] == noise.cells@[x as int]@[y as int]);
            }
            push_cell(&mut adds, map, x, y, cn);
            y = y + 1;
        }
        x = x + 1;
    }
    proof {
        assert(noise@.len() == noise.width);
    }
    map.append(&mut adds);
}


/// Foliage of one column stays on that column, below the scanned row.
proof fn lemma_col_foliage_bounds(base: Seq<MapEntry>, noise_col: Seq<CellNoise>, x: usize, y: nat)
    requires
        y <= usize::MAX,
    ensures
        forall|i: int|
            0 <= i < col_foliage(base, noise_col, x, y).len() ==> (#[trigger] col_foliage(
                base,
                noise_col,
                x,
                y,
            )[i]).0 == x && col_foliage(base, noise_col, x, y)[i].1 < y,
    decreases y,
{
    if y > 0 {
        lemma_col_foliage_bounds(base, noise_col, x, (y - 1) as nat);
        let prev = col_foliage(base, noise_col, x, (y - 1) as nat);
        let cell = cell_foliage(base, x, (y - 1) as usize, noise_col[y - 1]);
        let cur = col_foliage(base, noise_col, x, y);
        assert forall|i: int| 0 <= i < cur.len() implies (#[trigger] cur[i]).0 == x && cur[i].1
            < y by {
            if i < prev.len() {
                assert(cur[i] == prev[i]);
            } else {
                assert(cur[i] == cell[i - prev.len()]);
            }
        }
    }
}

/// Every foliage entry lies on the noise grid.
pub proof fn lemma_foliage_bounds(
    base: Seq<MapEntry>,
    noise: Seq<Seq<CellNoise>>,
    width: usize,
    height: usize,
)
    requires
        noise.len() == width,
        forall|x: int| 0 <= x < noise.len() ==> (#[trigger] noise[x]).len() == height,
    ensures
        entries_in_bounds(foliage_spec(base, noise), width, height),
{
    lemma_foliage_upto_bounds(base, noise, width, height, noise.len());
}

proof fn lemma_foliage_upto_bounds(
    base: Seq<MapEntry>,
    noise: Seq<Seq<CellNoise>>,
    width: usize,
    height: usize,
    x: nat,
)
    requires
        noise.len() == width,
        x <= noise.len(),
        forall|i: int| 0 <= i < noise.len() ==> (#[trigger] noise[i]).len() == height,
    ensures
        entries_in_bounds(foliage_upto(base, noise, x), width, height),
    decreases x,
{
    if x > 0 {
        lemma_foliage_upto_bounds(base, noise, width, height, (x - 1) as nat);
        lemma_col_foliage_bounds(base, noise[x - 1], (x - 1) as usize, noise[x - 1].len());
        let prev = foliage_upto(base, noise, (x - 1) as nat);
        let col = col_foliage(base, noise[x - 1], (x - 1) as usize, noise[x - 1].len());
        let cur = foliage_upto(base, noise, x);
        assert forall|i: int| 0 <= i < cur.len() implies (#[trigger] cur[i]).0 < width
            && cur[i].1 < height by {
            if i < prev.len() {
                assert(cur[i] == prev[i]);
            } else {
                assert(cur[i] == col[i - prev.len()]);
            }
        }
    }
}


/// Whether a sprite is one of the two tree variants.
pub open spec fn is_tree(s: SpriteRequest) -> bool {
    s == SpriteRequest::Tree || s == SpriteRequest::WarpedTree
}

/// One cell's decisions plant a tree only when the cell's override flag is
/// set on a blocked cell or some deciding band clears the tree threshold.
proof fn lemma_cell_tree_source(base: Seq<MapEntry>, x: usize, y: usize, cn: CellNoise, i: int)
    requires
        0 <= i < cell_foliage(base, x, y, cn).len(),
        is_tree(cell_foliage(base, x, y, cn)[i].2),
    ensures
        (coord_blocked(base, x, y) && cn.override_ok) || cn.light == NoiseBand::High || cn.dark
            == NoiseBand::High || cn.door == NoiseBand::High,
{
}

/// Override discipline for one column of cells.
proof fn lemma_col_tree_source(
    base: Seq<MapEntry>,
    noise_col: Seq<CellNoise>,
    x: usize,
    y: nat,
    i: int,
)
    requires
        y <= noise_col.len(),
        noise_col.len() <= usize::MAX,
        0 <= i < col_foliage(base, noise_col, x, y).len(),
        is_tree(col_foliage(base, noise_col, x, y)[i].2),
    ensures
        ({
            let e = col_foliage(base, noise_col, x, y)[i];
            let cn = noise_col[e.1 as int];
            (coord_blocked(base, e.0, e.1) && cn.override_ok) || cn.light == NoiseBand::High
                || cn.dark == NoiseBand::High || cn.door == NoiseBand::High
        }),
    decreases y,
{
    if y > 0 {
        let prev = col_foliage(base, noise_col, x, (y - 1) as nat);
        let cell = cell_foliage(base, x, (y - 1) as usize, noise_col[y - 1]);
        if i < prev.len() {
            lemma_col_tree_source(base, noise_col, x, (y - 1) as nat, i);
        } else {
            lemma_cell_tree_source(base, x, (y - 1) as usize, noise_col[y - 1], i - prev.len());
            lemma_col_foliage_bounds(base, noise_col, x, y);
        }
    }
}

/// Override discipline, P-style, over the whole foliage stage: a tree
/// variant lands on a cell only when the cell was blocked and its override
/// flag was drawn, or when one of the cell's deciding noise bands clears
/// the tree threshold. In particular a tree never lands on a blocked cell
/// through a merely mid-band value.
pub proof fn lemma_override_discipline(
    base: Seq<MapEntry>,
    noise: Seq<Seq<CellNoise>>,
    width: usize,
    height: usize,
    i: int,
)
    requires
        noise.len() == width,
        forall|x: int| 0 <= x < noise.len() ==> (#[trigger] noise[x]).len() == height,
        0 <= i < foliage_spec(base, noise).len(),
        is_tree(foliage_spec(base, noise)[i].2),
    ensures
        ({
            let e = foliage_spec(base, noise)[i];
            let cn = noise[e.0 as int][e.1 as int];
            (coord_blocked(base, e.0, e.1) && cn.override_ok) || cn.light == NoiseBand::High
                || cn.dark == NoiseBand::High || cn.door == NoiseBand::High
        }),
{
    lemma_upto_tree_source(base, noise, width, height, noise.len(), i);
}

proof fn lemma_upto_tree_source(
    base: Seq<MapEntry>,
    noise: Seq<Seq<CellNoise>>,
    width: usize,
    height: usize,
    x: nat,
    i: int,
)
    requires
        noise.len() == width,
        x <= noise.len(),
        forall|k: int| 0 <= k < noise.len() ==> (#[trigger] noise[k]).len() == height,
        0 <= i < foliage_upto(base, noise, x).len(),
        is_tree(foliage_upto(base, noise, x)[i].2),
    ensures
        ({
            let e = foliage_upto(base, noise, x)[i];
            let cn = noise[e.0 as int][e.1 as int];
            (coord_blocked(base, e.0, e.1) && cn.override_ok) || cn.light == NoiseBand::High
                || cn.dark == NoiseBand::High || cn.door == NoiseBand::High
        }),
    decreases x,
{
    if x > 0 {
        let prev = foliage_upto(base, noise, (x - 1) as nat);
        let col = col_foliage(base, noise[x - 1], (x - 1) as usize, noise[x - 1].len());
        if i < prev.len() {
            lemma_upto_tree_source(base, noise, width, height, (x - 1) as nat, i);
        } else {
            lemma_col_tree_source(base, noise[x - 1], (x - 1) as usize, noise[x - 1].len(), i - prev.len());
            lemma_col_foliage_bounds(base, noise[x - 1], (x - 1) as usize, noise[x - 1].len());
        }
    }
}

} // verus!
