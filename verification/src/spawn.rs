use vstd::prelude::*;
use crate::errors::GenError;
use crate::grid::GenConfig;
use crate::level_map::{
    MapEntry, coord_blocked, entry_blocks, is_blocked_at, lemma_coord_blocked_append,
};
use crate::rng::rng_range;
use crate::sprites::SpriteRequest;

verus! {

/// How many rejected samples one placement may burn before the spawn stage
/// gives up with a `NoFreeCellForSpawn` error instead of looping on.
pub const SPAWN_ATTEMPT_LIMIT: usize = 10000;

/// The spawn entries appended after the prior stages' `base`: all player
/// markers, all inside the grid, none on a cell the prior stages blocked,
/// and no two on the same cell.
pub open spec fn players_ok(base: Seq<MapEntry>, add: Seq<MapEntry>, cfg: GenConfig) -> bool {
    &&& forall|i: int| 0 <= i < add.len() ==> (#[trigger] add[i]).2 is Player
    &&& forall|i: int| 0 <= i < add.len() ==> (#[trigger] add[i]).0 < cfg.width && add[i].1
        < cfg.height
    &&& forall|i: int|
        0 <= i < add.len() ==> !coord_blocked(base, (#[trigger] add[i]).0, add[i].1)
    &&& forall|i: int, j: int|
        0 <= i < j < add.len() ==> !((#[trigger] add[i]).0 == (#[trigger] add[j]).0 && add[i].1
            == add[j].1)
}

/// The number of players in groups `0 .. g`.
pub open spec fn sum_sizes(sizes: Seq<int>, g: int) -> int
    decreases g,
{
    if g <= 0 {
        0
    } else {
        sum_sizes(sizes, g - 1) + sizes[g - 1]
    }
}

/// Group `g` gets between `2 * (4 - g)` (inclusive) and `5 * (4 - g)`
/// (exclusive) players: earlier group ids draw from larger ranges.
pub open spec fn sizes_ok(sizes: Seq<int>) -> bool {
    &&& 1 <= sizes.len() <= 4
    &&& forall|g: int| 0 <= g < sizes.len() ==> 2 * (4 - g) <= #[trigger] sizes[g] < 5 * (4 - g)
}

/// Groups `0 .. g` stand in `add` as consecutive blocks of `Player(h)`
/// entries of the drawn sizes.
pub open spec fn grouped_prefix(add: Seq<MapEntry>, sizes: Seq<int>, g: int) -> bool {
    forall|h: int, k: int|
        0 <= h < g && 0 <= k < sizes[h] ==> (#[trigger] add[sum_sizes(sizes, h) + k]).2
            == SpriteRequest::Player(h as usize)
}

/// The whole appended part is exactly the drawn groups, in id order.
pub open spec fn grouped(add: Seq<MapEntry>, sizes: Seq<int>) -> bool {
    &&& add.len() == sum_sizes(sizes, sizes.len() as int)
    &&& grouped_prefix(add, sizes, sizes.len() as int)
}

/// What a successful spawn pass leaves behind: the prior map kept as a
/// prefix, and an appended block of player entries that is grouped by some
/// drawn sizes and books no cell twice.
pub open spec fn spawn_ok(base: Seq<MapEntry>, full: Seq<MapEntry>, cfg: GenConfig) -> bool {
    &&& full.len() >= base.len()
    &&& full.take(base.len() as int) == base
    &&& players_ok(base, full.skip(base.len() as int), cfg)
    &&& exists|sizes: Seq<int>|
        #[trigger] grouped(full.skip(base.len() as int), sizes) && sizes_ok(sizes)
}

/// A sum of group sizes is never negative.
proof fn lemma_sum_sizes_nonneg(sizes: Seq<int>, g: int)
    requires
        forall|h: int| 0 <= h < sizes.len() ==> #[trigger] sizes[h] >= 0,
        0 <= g <= sizes.len(),
    ensures
        sum_sizes(sizes, g) >= 0,
    decreases g,
{
    if g > 0 {
        lemma_sum_sizes_nonneg(sizes, g - 1);
    }
}

/// Block offsets grow with the group id.
proof fn lemma_sum_sizes_mono(sizes: Seq<int>, a: int, b: int)
    requires
        forall|h: int| 0 <= h < sizes.len() ==> #[trigger] sizes[h] >= 0,
        0 <= a <= b <= sizes.len(),
    ensures
        sum_sizes(sizes, a) <= sum_sizes(sizes, b),
    decreases b,
{
    if a < b {
        lemma_sum_sizes_mono(sizes, a, b - 1);
    }
}

/// A successful spawn pass is never empty: group id zero always exists and
/// brings at least its minimum of eight players, and its first entry is a
/// `Player(0)` marker.
pub proof fn lemma_spawn_adds_players(base: Seq<MapEntry>, full: Seq<MapEntry>, cfg: GenConfig)
    requires
        spawn_ok(base, full, cfg),
    ensures
        full.len() >= base.len() + 8,
        exists|i: int|
            base.len() <= i < full.len() && (#[trigger] full[i]).2 == SpriteRequest::Player(0),
{
    let add = full.skip(base.len() as int);
    let sizes = choose|sizes: Seq<int>| #[trigger] grouped(add, sizes) && sizes_ok(sizes);
    lemma_sum_sizes_mono(sizes, 1, sizes.len() as int);
    assert(sum_sizes(sizes, 1) == sizes[0]);
    assert(add.len() >= sizes[0] >= 8);
    assert(add[sum_sizes(sizes, 0) + 0].2 == SpriteRequest::Player(0));
    assert(add[0] == full[base.len() as int]);
    assert(full[base.len() as int].2 == SpriteRequest::Player(0));
}

/// Rejection-sample one player of group `id` onto a free cell of the
/// current map, or give up after the attempt budget is spent. On success
/// exactly one in-bounds `Player(id)` entry is appended, on a cell nothing
/// in the current map blocks; on failure the map is left unchanged.
fn place_one(
    rng: &mut rand_pcg::Pcg64,
    map: &mut Vec<MapEntry>,
    cfg: &GenConfig,
    id: usize,
) -> (res: Result<(), GenError>)
    requires
        cfg.width >= 1,
        cfg.height >= 1,
    ensures
        match res {
            Ok(_) => {
                &&& final(map)@.len() == old(map)@.len() + 1
                &&& final(map)@ == old(map)@.push(final(map)@.last())
                &&& final(map)@.last().2 == SpriteRequest::Player(id)
                &&& final(map)@.last().0 < cfg.width
                &&& final(map)@.last().1 < cfg.height
                &&& !coord_blocked(old(map)@, final(map)@.last().0, final(map)@.last().1)
            },
            Err(e) => e == GenError::NoFreeCellForSpawn && final(map)@ == old(map)@,
        },
{
    let mut attempts: usize = 0;
    while attempts < SPAWN_ATTEMPT_LIMIT
        invariant
            map@ == old(map)@,
            cfg.width >= 1,
            cfg.height >= 1,
        decreases SPAWN_ATTEMPT_LIMIT - attempts,
    {
        let x = rng_range(rng, 0, cfg.width);
        let y = rng_range(rng, 0, cfg.height);
        if !is_blocked_at(map, x, y) {
            map.push((x, y, SpriteRequest::Player(id)));
            return Ok(());
        }
        attempts = attempts + 1;
    }
    Err(GenError::NoFreeCellForSpawn)
}

/// Draw a group count in `[1, 4]`, a size for each group id from its
/// id-scaled range, and place every required player by rejection sampling
/// against the cumulative map; walls and foliage block cells, doors do not,
/// and placed players block the cells they take.
pub fn add_players(
    rng: &mut rand_pcg::Pcg64,
    map: &mut Vec<MapEntry>,
    cfg: &GenConfig,
) -> (res: Result<(), GenError>)
    requires
        cfg.width >= 1,
        cfg.height >= 1,
    ensures
        match res {
            Ok(_) => spawn_ok(old(map)@, final(map)@, *cfg),
            Err(e) => e == GenError::NoFreeCellForSpawn,
        },
{
    let ghost base = map@;
    let n = rng_range(rng, 1, 5);
    let mut sizes: Vec<usize> = Vec::new();
    let mut id: usize = 0;
    while id < n
        invariant
            n <= 4,
            id <= n,
            sizes.len() == id,
            forall|g: int| 0 <= g < id ==> 2 * (4 - g) <= #[trigger] sizes@[g] < 5 * (4 - g),
        decreases n - id,
    {
        let offset = 4 - id;
        let s = rng_range(rng, 2 * offset, 5 * offset);
        sizes.push(s);
        id = id + 1;
    }
    let ghost gsizes: Seq<int> = sizes@.map_values(|v: usize| v as int);
    proof {
        assert(forall|g: int| 0 <= g < gsizes.len() ==> #[trigger] gsizes[g] == sizes@[g]);
        assert(sizes_ok(gsizes));
    }

    let mut id: usize = 0;
    while id < sizes.len()
        invariant
            cfg.width >= 1,
            cfg.height >= 1,
            id <= sizes.len(),
            sizes.len() == gsizes.len(),
            sizes_ok(gsizes),
            forall|g: int| 0 <= g < gsizes.len() ==> #[trigger] gsizes[g] == sizes@[g],
            map@.len() == base.len() + sum_sizes(gsizes, id as int),
            map@.take(base.len() as int) == base,
            players_ok(base, map@.skip(base.len() as int), *cfg),
            grouped_prefix(map@.skip(base.len() as int), gsizes, id as int),
        decreases sizes.len() - id,
    {
        let group_size = sizes[id];
        let mut placed: usize = 0;
        while placed < group_size
            invariant
                cfg.width >= 1,
                cfg.height >= 1,
                id < sizes.len(),
                sizes.len() == gsizes.len(),
                sizes_ok(gsizes),
                forall|g: int| 0 <= g < gsizes.len() ==> #[trigger] gsizes[g] == sizes@[g],
                group_size == gsizes[id as int],
                placed <= group_size,
                map@.len() == base.len() + sum_sizes(gsizes, id as int) + placed,
                map@.take(base.len() as int) == base,
                players_ok(base, map@.skip(base.len() as int), *cfg),
                grouped_prefix(map@.skip(base.len() as int), gsizes, id as int),
                forall|k: int|
                    0 <= k < placed ==> (#[trigger] map@.skip(base.len() as int)[sum_sizes(
                        gsizes,
                        id as int,
                    ) + k]).2 == SpriteRequest::Player(id),
            decreases group_size - placed,
        {
            let ghost pre = map@;
            let r = place_one(rng, map, cfg, id);
            match r {
                Ok(_) => {
                    proof {
                        lemma_sum_sizes_nonneg(gsizes, id as int);
                        assert(base.len() <= pre.len());
                        let e = map@.last();
                        assert(map@ == pre.push(e));
                        assert(map@.take(base.len() as int) =~= base);
                        let add_pre = pre.skip(base.len() as int);
                        let add_now = map@.skip(base.len() as int);
                        assert(add_now =~= add_pre.push(e));
                        assert(pre =~= base + add_pre);
                        lemma_coord_blocked_append(base, add_pre, e.0, e.1);
                        // a colliding earlier player entry would block the cell
                        assert forall|i: int| 0 <= i < add_pre.len() implies !(
                        (#[trigger] add_now[i]).0 == e.0 && add_now[i].1 == e.1) by {
                            if add_now[i].0 == e.0 && add_now[i].1 == e.1 {
                                assert(entry_blocks(add_pre[i], e.0, e.1));
                            }
                        }
                        assert(players_ok(base, add_now, *cfg));
                        assert forall|h: int, k: int|
                            0 <= h < id && 0 <= k < gsizes[h] implies (#[trigger] add_now[
                        sum_sizes(gsizes, h) + k]).2 == SpriteRequest::Player(h as usize) by {
                            lemma_sum_sizes_nonneg(gsizes, h);
                            lemma_sum_sizes_mono(gsizes, h + 1, id as int);
                            assert(sum_sizes(gsizes, h) + k < sum_sizes(gsizes, h + 1));
                            assert(add_now[sum_sizes(gsizes, h) + k] == add_pre[sum_sizes(
                                gsizes,
                                h,
                            ) + k]);
                            assert(grouped_prefix(add_pre, gsizes, id as int));
                        }
                        assert(grouped_prefix(add_now, gsizes, id as int));
                    }
                    placed = placed + 1;
                },
                Err(e) => {
                    return Err(e);
                },
            }
        }
        proof {
            assert(sum_sizes(gsizes, id + 1) == sum_sizes(gsizes, id as int) + gsizes[id as int]);
            assert forall|h: int, k: int|
                0 <= h < id + 1 && 0 <= k < gsizes[h] implies (#[trigger] map@.skip(
                base.len() as int,
            )[sum_sizes(gsizes, h) + k]).2 == SpriteRequest::Player(h as usize) by {
                if h < id {
                    assert(grouped_prefix(map@.skip(base.len() as int), gsizes, id as int));
                }
            }
        }
        id = id + 1;
    }
    proof {
        lemma_sum_sizes_nonneg(gsizes, gsizes.len() as int);
        assert(map@.skip(base.len() as int).len() == sum_sizes(gsizes, gsizes.len() as int));
        assert(grouped(map@.skip(base.len() as int), gsizes));
    }
    Ok(())
}

} // verus!
