use vstd::prelude::*;
use crate::classify::{classify_grid, classify_spec, lemma_wall_entries_bounds, mk_pattern, pattern_at_spec, wall_entries_spec};
use crate::errors::GenError;
use crate::foliage::{CellNoise, NoiseGrid, foliage_spec, lemma_foliage_bounds, scatter};
use crate::grid::{
    GenConfig, GridModel, ROOM_MAX_HEIGHT, ROOM_MAX_WIDTH, Room, WallGrid, carved_cell,
    carved_model, carved_model_all,
};
use crate::level_map::{LevelMap, MapEntry, entries_in_bounds};
use crate::rng::{rng_from_seed, rng_range};
use crate::spawn::{add_players, lemma_spawn_adds_players, spawn_ok};
use crate::sprites::{SpriteRequest, WallType};

verus! {

/// The all-open grid model of the configured size.
pub open spec fn empty_model(cfg: GenConfig) -> GridModel {
    Seq::new(cfg.width as nat, |x: int| Seq::new(cfg.height as nat, |y: int| None::<WallType>))
}

/// The room draw the carver promises: between three and eight rooms, each of
/// the generated corner range and side lengths.
pub open spec fn rooms_ok(rooms: Seq<Room>, cfg: GenConfig) -> bool {
    &&& 3 <= rooms.len() <= 8
    &&& forall|i: int| 0 <= i < rooms.len() ==> (#[trigger] rooms[i]).well_formed(cfg)
}

/// The map the first two stages leave for a given room draw and noise grid:
/// the classified wall entries of the carved grid, then the foliage those
/// entries admit.
pub open spec fn base_with_foliage(
    rooms: Seq<Room>,
    noise: Seq<Seq<CellNoise>>,
    cfg: GenConfig,
) -> Seq<MapEntry> {
    let walls = wall_entries_spec(carved_model_all(empty_model(cfg), rooms));
    walls + foliage_spec(walls, noise)
}

/// The walls-and-foliage part of the pipeline is a definite function of the
/// drawn rooms and the noise grid: any two maps its description admits are
/// the same sequence. Only the random draws themselves can vary between runs.
pub proof fn lemma_base_map_deterministic(
    m1: Seq<MapEntry>,
    m2: Seq<MapEntry>,
    rooms: Seq<Room>,
    noise: Seq<Seq<CellNoise>>,
    cfg: GenConfig,
)
    requires
        m1 == base_with_foliage(rooms, noise, cfg),
        m2 == base_with_foliage(rooms, noise, cfg),
    ensures
        m1 == m2,
{
}

/// Derives one level layout from a numeric seed: carved room walls,
/// noise-driven foliage, and player spawn points, in that order.
pub struct ProceduralGenerator {
    pub seed: u32,
    pub cfg: GenConfig,
}

impl ProceduralGenerator {
    /// A generator for one seed on one grid configuration.
    pub fn new(seed: u32, cfg: GenConfig) -> (s: Self)
        ensures
            s.seed == seed,
            s.cfg == cfg,
    {
        ProceduralGenerator { seed, cfg }
    }

    /// Draw one room: corner uniform in the reduced ranges, side lengths
    /// uniform in `[4, room maximum)`.
    pub fn gen_room(rng: &mut rand_pcg::Pcg64, cfg: &GenConfig) -> (r: Room)
        requires
            cfg.valid(),
        ensures
            r.well_formed(*cfg),
            r.fits(cfg.width as int, cfg.height as int),
    {
        let x_pos = rng_range(rng, 0, cfg.width - ROOM_MAX_WIDTH);
        let y_pos = rng_range(rng, 0, cfg.height - ROOM_MAX_HEIGHT);
        let width = rng_range(rng, 4, ROOM_MAX_WIDTH);
        let height = rng_range(rng, 4, ROOM_MAX_HEIGHT);
        Room { x0: x_pos, y0: y_pos, x1: x_pos + width, y1: y_pos + height }
    }

    /// Run the three stages in order on one fresh map: carve a drawn set of
    /// rooms, classify every marked cell, scatter foliage by the supplied
    /// thresholded noise, then spawn players on free cells. An ill-sized
    /// grid fails fast, a spent spawn budget fails with the spawn error, and
    /// a success is exactly some admissible room draw's walls and foliage
    /// followed by an admissible spawn pass, every entry on the grid.
    pub fn get(&self, noise: &NoiseGrid) -> (res: Result<LevelMap, GenError>)
        requires
            noise.wf(),
            noise.width == self.cfg.width,
            noise.height == self.cfg.height,
        ensures
            res matches Err(e) && e == GenError::InvalidGridConfiguration <==> !self.cfg.valid(),
            match res {
                Ok(m) => {
                    &&& exists|rooms: Seq<Room>|
                        #[trigger] rooms_ok(rooms, self.cfg) && spawn_ok(
                            base_with_foliage(rooms, noise@, self.cfg),
                            m@,
                            self.cfg,
                        )
                    &&& entries_in_bounds(m@, self.cfg.width, self.cfg.height)
                    &&& m@.len() >= 8
                    &&& exists|i: int|
                        0 <= i < m@.len() && (#[trigger] m@[i]).2 == SpriteRequest::Player(0)
                },
                Err(e) => e == GenError::InvalidGridConfiguration
                    || e == GenError::NoFreeCellForSpawn,
            },
    {
        if !self.cfg.is_valid() {
            return Err(GenError::InvalidGridConfiguration);
        }
        let mut rng = rng_from_seed(self.seed as u64);
        let no_rooms = rng_range(&mut rng, 3, 9);
        let mut rooms: Vec<Room> = Vec::new();
        let mut i: usize = 0;
        while i < no_rooms
            invariant
                self.cfg.valid(),
                3 <= no_rooms <= 8,
                i <= no_rooms,
                rooms.len() == i,
                forall|k: int| 0 <= k < i ==> (#[trigger] rooms@[k]).well_formed(self.cfg),
                forall|k: int|
                    0 <= k < i ==> (#[trigger] rooms@[k]).fits(
                        self.cfg.width as int,
                        self.cfg.height as int,
                    ),
            decreases no_rooms - i,
        {
            let room = Self::gen_room(&mut rng, &self.cfg);
            rooms.push(room);
            i = i + 1;
        }

        let mut grid = WallGrid::new(&self.cfg);
        proof {
            assert forall|x: int| 0 <= x < grid@.len() implies grid@[x] =~= empty_model(
                self.cfg,
            )[x] by {
                assert(grid@[x] == grid.cells@[x]@);
                assert forall|y: int| 0 <= y < grid@[x].len() implies grid@[x][y] == empty_model(
                    self.cfg,
                )[x][y] by {
                    assert(grid.at(x, y) is None);
                }
            }
            assert(grid@ =~~= empty_model(self.cfg));
        }
        grid.carve_rooms(&rooms);
        let ghost walls = wall_entries_spec(carved_model_all(empty_model(self.cfg), rooms@));
        let mut map = classify_grid(&grid);
        proof {
            assert(map@ == walls);
            lemma_wall_entries_bounds(grid@, self.cfg.width, self.cfg.height);
        }
        scatter(&mut map, noise);
        proof {
            assert(map@ == base_with_foliage(rooms@, noise@, self.cfg));
            lemma_foliage_bounds(walls, noise@, self.cfg.width, self.cfg.height);
            assert(entries_in_bounds(map@, self.cfg.width, self.cfg.height));
        }
        let ghost base = map@;

        let mut rng2 = rng_from_seed(self.seed as u64);
        let res = add_players(&mut rng2, &mut map, &self.cfg);
        match res {
            Ok(_) => {
                proof {
                    lemma_spawn_adds_players(base, map@, self.cfg);
                    assert(rooms_ok(rooms@, self.cfg) && spawn_ok(
                        base_with_foliage(rooms@, noise@, self.cfg),
                        map@,
                        self.cfg,
                    ));
                    let add = map@.skip(base.len() as int);
                    assert forall|k: int|
                        0 <= k < map@.len() implies (#[trigger] map@[k]).0 < self.cfg.width
                        && map@[k].1 < self.cfg.height by {
                        if k < base.len() {
                            assert(map@[k] == map@.take(base.len() as int)[k]);
                        } else {
                            assert(map@[k] == add[k - base.len()]);
                        }
                    }
                }
                Ok(map)
            },
            Err(e) => Err(e),
        }
    }
}


/// Carving exactly one well-sized room onto an empty grid leaves a
/// rectangular ring of marks — `Back` along the room's `y0` row, `Front`
/// along `y1`, `Left` along the `x0` column and `Right` along `x1`, the
/// columns overruling the rows at the four corners — and the classifier
/// names those corners and the four straight edges as the table documents.
#[verifier::rlimit(80)]
pub proof fn lemma_single_room_ring(cfg: GenConfig, r: Room)
    requires
        r.fits(cfg.width as int, cfg.height as int),
        r.x0 + 3 <= r.x1,
        r.y0 + 3 <= r.y1,
    ensures
        ({
            let g = carved_model_all(empty_model(cfg), seq![r]);
            &&& forall|x: int, y: int|
                0 <= x < cfg.width && 0 <= y < cfg.height ==> #[trigger] g[x][y] == carved_cell(
                    None,
                    r,
                    x,
                    y,
                )
            &&& classify_spec(pattern_at_spec(g, r.x0 as int, r.y0 as int))
                == SpriteRequest::BackWallRightCorner
            &&& classify_spec(pattern_at_spec(g, r.x1 as int, r.y0 as int))
                == SpriteRequest::BackWallLeftCorner
            &&& classify_spec(pattern_at_spec(g, r.x0 as int, r.y1 as int))
                == SpriteRequest::FrontWallLeftCorner
            &&& classify_spec(pattern_at_spec(g, r.x1 as int, r.y1 as int))
                == SpriteRequest::FrontWallRightCorner
            &&& forall|x: int|
                r.x0 < x < r.x1 ==> #[trigger] classify_spec(pattern_at_spec(g, x, r.y0 as int))
                    == SpriteRequest::BackWall
            &&& forall|x: int|
                r.x0 < x < r.x1 ==> #[trigger] classify_spec(pattern_at_spec(g, x, r.y1 as int))
                    == SpriteRequest::FrontWall
            &&& forall|y: int|
                r.y0 < y < r.y1 ==> #[trigger] classify_spec(pattern_at_spec(g, r.x0 as int, y))
                    == SpriteRequest::LeftWall
            &&& forall|y: int|
                r.y0 < y < r.y1 ==> #[trigger] classify_spec(pattern_at_spec(g, r.x1 as int, y))
                    == SpriteRequest::RightWall
        }),
{
    let g = carved_model_all(empty_model(cfg), seq![r]);
    assert(seq![r].len() == 1);
    assert(seq![r].last() == r);
    assert(seq![r].drop_last() =~= Seq::<Room>::empty());
    assert(carved_model_all(empty_model(cfg), Seq::<Room>::empty()) == empty_model(cfg));
    assert(g == carved_model(carved_model_all(empty_model(cfg), seq![r].drop_last()), seq![r].last()));
    assert(g == carved_model(empty_model(cfg), r));
    assert forall|x: int, y: int|
        0 <= x < cfg.width && 0 <= y < cfg.height implies #[trigger] g[x][y] == carved_cell(
        None,
        r,
        x,
        y,
    ) by {
        assert(empty_model(cfg)[x][y] is None);
    }
    let x0 = r.x0 as int;
    let y0 = r.y0 as int;
    let x1 = r.x1 as int;
    let y1 = r.y1 as int;
    let n = None::<WallType>;
    let b = Some(WallType::Back);
    let f = Some(WallType::Front);
    let l = Some(WallType::Left);
    let rr = Some(WallType::Right);

    assert(pattern_at_spec(g, x0, y0) == mk_pattern(n, l, n, n, b, n, n, n));
    assert(pattern_at_spec(g, x1, y0) == mk_pattern(n, rr, n, b, n, n, n, n));
    assert(pattern_at_spec(g, x0, y1) == mk_pattern(n, n, n, n, f, n, l, n));
    assert(pattern_at_spec(g, x1, y1) == mk_pattern(n, n, n, f, n, n, rr, n));

    assert forall|x: int| r.x0 < x < r.x1 implies #[trigger] classify_spec(
        pattern_at_spec(g, x, y0),
    ) == SpriteRequest::BackWall by {
        if x == x0 + 1 {
            assert(pattern_at_spec(g, x, y0) == mk_pattern(l, n, n, l, b, n, n, n));
        } else if x == x1 - 1 {
            assert(pattern_at_spec(g, x, y0) == mk_pattern(n, n, rr, b, rr, n, n, n));
        } else {
            assert(pattern_at_spec(g, x, y0) == mk_pattern(n, n, n, b, b, n, n, n));
        }
    }
    assert forall|x: int| r.x0 < x < r.x1 implies #[trigger] classify_spec(
        pattern_at_spec(g, x, y1),
    ) == SpriteRequest::FrontWall by {
        if x == x0 + 1 {
            assert(pattern_at_spec(g, x, y1) == mk_pattern(n, n, n, l, f, l, n, n));
        } else if x == x1 - 1 {
            assert(pattern_at_spec(g, x, y1) == mk_pattern(n, n, n, f, rr, n, n, rr));
        } else {
            assert(pattern_at_spec(g, x, y1) == mk_pattern(n, n, n, f, f, n, n, n));
        }
    }
    assert forall|y: int| r.y0 < y < r.y1 implies #[trigger] classify_spec(
        pattern_at_spec(g, x0, y),
    ) == SpriteRequest::LeftWall by {
        if y == y0 + 1 {
            assert(pattern_at_spec(g, x0, y) == mk_pattern(n, l, n, n, n, n, l, b));
        } else if y == y1 - 1 {
            assert(pattern_at_spec(g, x0, y) == mk_pattern(n, l, f, n, n, n, l, n));
        } else {
            assert(pattern_at_spec(g, x0, y) == mk_pattern(n, l, n, n, n, n, l, n));
        }
    }
    assert forall|y: int| r.y0 < y < r.y1 implies #[trigger] classify_spec(
        pattern_at_spec(g, x1, y),
    ) == SpriteRequest::RightWall by {
        if y == y0 + 1 {
            assert(pattern_at_spec(g, x1, y) == mk_pattern(n, rr, n, n, n, b, rr, n));
        } else if y == y1 - 1 {
            assert(pattern_at_spec(g, x1, y) == mk_pattern(f, rr, n, n, n, n, rr, n));
        } else {
            assert(pattern_at_spec(g, x1, y) == mk_pattern(n, rr, n, n, n, n, rr, n));
        }
    }
}

} // verus!
