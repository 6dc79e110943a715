use lonely_tribes::classify::{NeighborPattern, classify, classify_grid, pattern_of};
use lonely_tribes::grid::{GenConfig, Room, WallGrid};
use lonely_tribes::sprites::{SpriteRequest, WallType};

fn pat(slots: [Option<WallType>; 8]) -> NeighborPattern {
    pattern_of(
        slots[0], slots[1], slots[2], slots[3], slots[4], slots[5], slots[6], slots[7],
    )
}

#[test]
fn every_listed_pattern_maps_to_its_sprite() {
    let n = None;
    let b = Some(WallType::Back);
    let f = Some(WallType::Front);
    let l = Some(WallType::Left);
    let r = Some(WallType::Right);
    let table = [
        ([n, n, n, b, b, n, n, n], SpriteRequest::BackWall),
        ([n, n, r, b, r, n, n, n], SpriteRequest::BackWall),
        ([l, n, n, l, b, n, n, n], SpriteRequest::BackWall),
        ([n, l, n, n, b, n, n, n], SpriteRequest::BackWallRightCorner),
        ([n, r, n, b, n, n, n, n], SpriteRequest::BackWallLeftCorner),
        ([n, n, n, n, f, n, l, n], SpriteRequest::FrontWallLeftCorner),
        ([n, n, n, f, n, n, r, n], SpriteRequest::FrontWallRightCorner),
        ([n, n, n, f, f, n, n, n], SpriteRequest::FrontWall),
        ([n, n, n, l, f, l, n, n], SpriteRequest::FrontWall),
        ([n, n, n, f, r, n, n, r], SpriteRequest::FrontWall),
        ([n, l, n, n, n, n, l, n], SpriteRequest::LeftWall),
        ([n, l, n, n, n, n, l, b], SpriteRequest::LeftWall),
        ([n, l, n, n, n, n, l, f], SpriteRequest::LeftWall),
        ([n, l, b, n, n, n, l, n], SpriteRequest::LeftWall),
        ([n, l, f, n, n, n, l, n], SpriteRequest::LeftWall),
        ([n, r, n, n, n, n, r, n], SpriteRequest::RightWall),
        ([n, r, n, n, n, b, r, n], SpriteRequest::RightWall),
        ([n, r, n, n, n, f, r, n], SpriteRequest::RightWall),
        ([b, r, n, n, n, n, r, n], SpriteRequest::RightWall),
        ([f, r, n, n, n, n, r, n], SpriteRequest::RightWall),
    ];
    for (slots, expected) in table {
        assert_eq!(classify(&pat(slots)), expected);
    }
}

#[test]
fn unlisted_patterns_fall_through_to_door() {
    let n = None;
    let b = Some(WallType::Back);
    let f = Some(WallType::Front);
    let l = Some(WallType::Left);
    let r = Some(WallType::Right);
    let misses = [
        [n, n, n, n, n, n, n, n],
        [b, b, b, b, b, b, b, b],
        [n, n, n, b, f, n, n, n],
        [l, n, r, b, r, n, n, n],
        [n, l, n, n, n, n, r, n],
        [f, r, n, n, n, n, r, f],
    ];
    for slots in misses {
        assert_eq!(classify(&pat(slots)), SpriteRequest::Door);
    }
}

#[test]
fn single_room_leaves_a_classified_ring() {
    // one room with corners (2,3) and (8,9) on an otherwise empty grid
    let cfg = GenConfig { width: 14, height: 14 };
    let mut grid = WallGrid::new(&cfg);
    let room = Room { x0: 2, y0: 3, x1: 8, y1: 9 };
    grid.carve_room(room);

    // ring marks: columns overrule rows at the corners
    for x in 2..=8usize {
        for y in 3..=9usize {
            let expected = if x == 8 {
                Some(WallType::Right)
            } else if x == 2 {
                Some(WallType::Left)
            } else if y == 9 {
                Some(WallType::Front)
            } else if y == 3 {
                Some(WallType::Back)
            } else {
                None
            };
            assert_eq!(grid.cells[x][y], expected);
        }
    }
    assert_eq!(grid.cells[0][0], None);
    assert_eq!(grid.cells[9][9], None);

    let entries = classify_grid(&grid);
    let at = |x: usize, y: usize| -> Vec<SpriteRequest> {
        entries.iter().filter(|(ex, ey, _)| (*ex, *ey) == (x, y)).map(|(_, _, s)| *s).collect()
    };
    assert_eq!(at(2, 3), vec![SpriteRequest::BackWallRightCorner]);
    assert_eq!(at(8, 3), vec![SpriteRequest::BackWallLeftCorner]);
    assert_eq!(at(2, 9), vec![SpriteRequest::FrontWallLeftCorner]);
    assert_eq!(at(8, 9), vec![SpriteRequest::FrontWallRightCorner]);
    for x in 3..=7usize {
        assert_eq!(at(x, 3), vec![SpriteRequest::BackWall]);
        assert_eq!(at(x, 9), vec![SpriteRequest::FrontWall]);
    }
    for y in 4..=8usize {
        assert_eq!(at(2, y), vec![SpriteRequest::LeftWall]);
        assert_eq!(at(8, y), vec![SpriteRequest::RightWall]);
    }
    // nothing outside the ring
    assert_eq!(entries.len(), 24);
}

#[test]
fn overlapping_rooms_overwrite_earlier_marks() {
    let cfg = GenConfig { width: 24, height: 24 };
    let mut grid = WallGrid::new(&cfg);
    grid.carve_room(Room { x0: 2, y0: 2, x1: 8, y1: 8 });
    grid.carve_room(Room { x0: 5, y0: 5, x1: 12, y1: 12 });
    // the later room's left column overwrote the earlier room's interior row
    assert_eq!(grid.cells[5][8], Some(WallType::Left));
    // the later room's top row overwrote the earlier right column
    assert_eq!(grid.cells[8][5], Some(WallType::Back));
    // untouched parts of the earlier ring survive
    assert_eq!(grid.cells[2][2], Some(WallType::Left));
    assert_eq!(grid.cells[4][2], Some(WallType::Back));
}
