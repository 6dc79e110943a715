use vstd::prelude::*;
use vstd::pervasive::VecAdditionalExecFns;
use crate::sprites::WallType;

verus! {

/// Upper bound (exclusive) on the width a carved room may be given.
pub const ROOM_MAX_WIDTH: usize = 20;

/// Upper bound (exclusive) on the height a carved room may be given.
pub const ROOM_MAX_HEIGHT: usize = 20;

/// Externally supplied grid dimensions for one generation run.
#[derive(Copy, Clone, Debug, PartialEq, Eq, Structural)]
pub struct GenConfig {
    pub width: usize,
    pub height: usize,
}

impl GenConfig {
    /// Room corners are drawn from `[0, width - ROOM_MAX_WIDTH)` and
    /// `[0, height - ROOM_MAX_HEIGHT)`; both ranges must be non-empty,
    /// so each dimension must strictly exceed the room maximum.
    pub open spec fn valid(self) -> bool {
        self.width > ROOM_MAX_WIDTH && self.height > ROOM_MAX_HEIGHT
    }

    /// Executable form of `valid`.
    pub fn is_valid(&self) -> (r: bool)
        ensures
            r == self.valid(),
    {
        self.width > ROOM_MAX_WIDTH && self.height > ROOM_MAX_HEIGHT
    }
}

/// A rectangular room, described by its two extreme corners
/// `(x0, y0)` and `(x1, y1)`, both inclusive.
#[derive(Copy, Clone, Debug, PartialEq, Eq, Structural)]
pub struct Room {
    pub x0: usize,
    pub y0: usize,
    pub x1: usize,
    pub y1: usize,
}

impl Room {
    /// The room fits on a `width` by `height` grid and its corners are ordered.
    pub open spec fn fits(self, width: int, height: int) -> bool {
        self.x0 <= self.x1 && self.x1 < width && self.y0 <= self.y1 && self.y1 < height
    }

    /// Shape the room generator promises: corner within the reduced range and
    /// both side lengths in `[4, room maximum)`.
    pub open spec fn well_formed(self, cfg: GenConfig) -> bool {
        &&& self.x0 < cfg.width - ROOM_MAX_WIDTH
        &&& self.y0 < cfg.height - ROOM_MAX_HEIGHT
        &&& 4 <= self.x1 - self.x0 < ROOM_MAX_WIDTH
        &&& 4 <= self.y1 - self.y0 < ROOM_MAX_HEIGHT
    }
}

/// What one room's carving leaves in a single cell: the room's right and left
/// columns are written after (and so on top of) its bottom and top rows, and
/// cells away from the room's ring keep their previous mark.
pub open spec fn carved_cell(prev: Option<WallType>, r: Room, x: int, y: int) -> Option<WallType> {
    if x == r.x1 && r.y0 <= y <= r.y1 {
        Some(WallType::Right)
    } else if x == r.x0 && r.y0 <= y <= r.y1 {
        Some(WallType::Left)
    } else if r.x0 <= x <= r.x1 && y == r.y1 {
        Some(WallType::Front)
    } else if r.x0 <= x <= r.x1 && y == r.y0 {
        Some(WallType::Back)
    } else {
        prev
    }
}

/// A dense `width` by `height` grid of optional wall marks, indexed as
/// `cells[x][y]`; written only while rooms are carved.
pub struct WallGrid {
    pub width: usize,
    pub height: usize,
    pub cells: Vec<Vec<Option<WallType>>>,
}

impl WallGrid {
    /// The dense buffer really has `width` columns of `height` cells each.
    pub open spec fn wf(self) -> bool {
        &&& self.cells.len() == self.width
        &&& forall|x: int| 0 <= x < self.width ==> (#[trigger] self.cells[x]).len() == self.height
    }

    /// The mark stored at `(x, y)`.
    pub open spec fn at(self, x: int, y: int) -> Option<WallType> {
        self.cells[x][y]
    }

    /// A fresh, all-open grid of the configured size.
    pub fn new(cfg: &GenConfig) -> (g: WallGrid)
        ensures
            g.wf(),
            g.width == cfg.width,
            g.height == cfg.height,
            forall|x: int, y: int|
                0 <= x < cfg.width && 0 <= y < cfg.height ==> g.at(x, y) is None,
    {
        let mut cells: Vec<Vec<Option<WallType>>> = Vec::new();
        let mut x: usize = 0;
        while x < cfg.width
            invariant
                x <= cfg.width,
                cells.len() == x,
                forall|i: int| 0 <= i < x ==> (#[trigger] cells[i]).len() == cfg.height,
                forall|i: int, j: int|
                    0 <= i < x && 0 <= j < cfg.height ==> cells[i][j] is None,
            decreases cfg.width - x,
        {
            let mut col: Vec<Option<WallType>> = Vec::new();
            let mut y: usize = 0;
            while y < cfg.height
                invariant
                    y <= cfg.height,
                    col.len() == y,
                    forall|j: int| 0 <= j < y ==> col[j] is None,
                decreases cfg.height - y,
            {
                col.push(None);
                y = y + 1;
            }
            cells.push(col);
            x = x + 1;
        }
        WallGrid { width: cfg.width, height: cfg.height, cells }
    }

    /// Mark the ring of `r` on the grid exactly as `carved_cell` describes:
    /// first the room's top and bottom rows, then its left and right columns,
    /// each later write overruling the earlier ones.
    pub fn carve_room(&mut self, r: Room)
        requires
            old(self).wf(),
            r.fits(old(self).width as int, old(self).height as int),
        ensures
            final(self).wf(),
            final(self).width == old(self).width,
            final(self).height == old(self).height,
            forall|x: int, y: int|
                0 <= x < old(self).width && 0 <= y < old(self).height
                    ==> final(self).at(x, y) == carved_cell(old(self).at(x, y), r, x, y),
    {
        let ghost g0 = *self;
        let mut x = r.x0;
        while x <= r.x1
            invariant
                self.wf(),
                self.width == g0.width,
                self.height == g0.height,
                r.fits(g0.width as int, g0.height as int),
                r.x0 <= x <= r.x1 + 1,
                forall|i: int, j: int|
                    0 <= i < g0.width && 0 <= j < g0.height
                        ==> self.at(i, j) == (if r.x0 <= i < x && j == r.y1 {
                            Some(WallType::Front)
                        } else if r.x0 <= i < x && j == r.y0 {
                            Some(WallType::Back)
                        } else {
                            g0.at(i, j)
                        }),
            decreases r.x1 + 1 - x,
        {
            let ghost sentry = *self;
            let ghost pre = self.cells@;
            self.cells[x].set(r.y0, Some(WallType::Back));
            self.cells[x].set(r.y1, Some(WallType::Front));
            proof {
                assert forall|i: int, j: int|
                    0 <= i < g0.width && 0 <= j < g0.height implies
                        self.at(i, j) == (if r.x0 <= i < x + 1 && j == r.y1 {
                            Some(WallType::Front)
                        } else if r.x0 <= i < x + 1 && j == r.y0 {
                            Some(WallType::Back)
                        } else {
                            g0.at(i, j)
                        }) by {
                    assert(sentry.at(i, j) == sentry.cells@[i]@[j]);
                    if i == x {
                        assert(self.cells@[i]@ == pre[i]@.update(r.y0 as int, Some(WallType::Back))
                            .update(r.y1 as int, Some(WallType::Front)));
                    } else {
                        assert(self.cells@[i]@ == pre[i]@);
                    }
                }
            }
            x = x + 1;
        }
        let ghost g1 = *self;
        let mut y = r.y0;
        while y <= r.y1
            invariant
                self.wf(),
                self.width == g0.width,
                self.height == g0.height,
                r.fits(g0.width as int, g0.height as int),
                r.y0 <= y <= r.y1 + 1,
                forall|i: int, j: int|
                    0 <= i < g0.width && 0 <= j < g0.height
                        ==> self.at(i, j) == (if i == r.x1 && r.y0 <= j < y {
                            Some(WallType::Right)
                        } else if i == r.x0 && r.y0 <= j < y {
                            Some(WallType::Left)
                        } else {
                            g1.at(i, j)
                        }),
                forall|i: int, j: int|
                    0 <= i < g0.width && 0 <= j < g0.height
                        ==> g1.at(i, j) == (if r.x0 <= i <= r.x1 && j == r.y1 {
                            Some(WallType::Front)
                        } else if r.x0 <= i <= r.x1 && j == r.y0 {
                            Some(WallType::Back)
                        } else {
                            g0.at(i, j)
                        }),
            decreases r.y1 + 1 - y,
        {
            let ghost sentry = *self;
            let ghost pre = self.cells@;
            self.cells[r.x0].set(y, Some(WallType::Left));
            self.cells[r.x1].set(y, Some(WallType::Right));
            proof {
                assert forall|i: int, j: int|
                    0 <= i < g0.width && 0 <= j < g0.height implies
                        self.at(i, j) == (if i == r.x1 && r.y0 <= j < y + 1 {
                            Some(WallType::Right)
                        } else if i == r.x0 && r.y0 <= j < y + 1 {
                            Some(WallType::Left)
                        } else {
                            g1.at(i, j)
                        }) by {
                    assert(sentry.at(i, j) == sentry.cells@[i]@[j]);
                    if i == r.x1 {
                        assert(self.cells@[i]@ == pre[i]@.update(y as int, Some(WallType::Right)));
                    } else if i == r.x0 {
                        assert(self.cells@[i]@ == pre[i]@.update(y as int, Some(WallType::Left)));
                    } else {
                        assert(self.cells@[i]@ == pre[i]@);
                    }
                }
            }
            y = y + 1;
        }
    }
}


/// Spec-level picture of a wall grid: one sequence per column.
pub type GridModel = Seq<Seq<Option<WallType>>>;

impl View for WallGrid {
    type V = GridModel;

    open spec fn view(&self) -> GridModel {
        self.cells@.map_values(|c: Vec<Option<WallType>>| c@)
    }
}

/// A whole grid after one room is carved onto `m`.
pub open spec fn carved_model(m: GridModel, r: Room) -> GridModel {
    Seq::new(m.len(), |x: int| Seq::new(m[x].len(), |y: int| carved_cell(m[x][y], r, x, y)))
}

/// A whole grid after the rooms are carved in order: each later room
/// overwrites whatever earlier rooms left on its ring.
pub open spec fn carved_model_all(m: GridModel, rooms: Seq<Room>) -> GridModel
    decreases rooms.len(),
{
    if rooms.len() == 0 {
        m
    } else {
        carved_model(carved_model_all(m, rooms.drop_last()), rooms.last())
    }
}

impl WallGrid {
    /// Carve every room of `rooms`, in order, onto the grid.
    pub fn carve_rooms(&mut self, rooms: &Vec<Room>)
        requires
            old(self).wf(),
            forall|i: int|
                0 <= i < rooms.len() ==> (#[trigger] rooms[i]).fits(
                    old(self).width as int,
                    old(self).height as int,
                ),
        ensures
            final(self).wf(),
            final(self).width == old(self).width,
            final(self).height == old(self).height,
            final(self)@ == carved_model_all(old(self)@, rooms@),
    {
        let ghost g0 = *self;
        let mut i: usize = 0;
        while i < rooms.len()
            invariant
                self.wf(),
                self.width == g0.width,
                self.height == g0.height,
                i <= rooms.len(),
                g0.wf(),
                forall|k: int|
                    0 <= k < rooms.len() ==> (#[trigger] rooms[k]).fits(
                        g0.width as int,
                        g0.height as int,
                    ),
                self@ == carved_model_all(g0@, rooms@.take(i as int)),
            decreases rooms.len() - i,
        {
            let ghost pre = *self;
            let r = rooms[i];
            self.carve_room(r);
            proof {
                assert(rooms@.take(i + 1).drop_last() == rooms@.take(i as int));
                assert(rooms@.take(i + 1).last() == rooms@[i as int]);
                assert forall|x: int| 0 <= x < self@.len() implies
                    self@[x] =~= carved_model(pre@, r)[x] by {
                    assert(self@[x] == self.cells@[x]@);
                    assert(pre@[x] == pre.cells@[x]@);
                    assert forall|y: int| 0 <= y < self@[x].len() implies
                        self@[x][y] == carved_model(pre@, r)[x][y] by {
                        assert(self.at(x, y) == carved_cell(pre.at(x, y), r, x, y));
                    }
                }
                assert(self@ =~~= carved_model(pre@, r));
            }
            i = i + 1;
        }
        proof {
            assert(rooms@.take(rooms@.len() as int) == rooms@);
        }
    }
}

} // verus!
