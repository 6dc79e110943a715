use lonely_tribes::foliage::{CellNoise, NoiseBand, NoiseGrid, scatter};
use lonely_tribes::sprites::SpriteRequest;

fn uniform(light: NoiseBand, dark: NoiseBand, door: NoiseBand, override_ok: bool) -> CellNoise {
    CellNoise { light, dark, door, override_ok }
}

fn silent() -> CellNoise {
    uniform(NoiseBand::Low, NoiseBand::Low, NoiseBand::Low, false)
}

#[test]
fn silent_noise_grows_nothing() {
    let noise = NoiseGrid::new_uniform(6, 5, silent());
    let mut map = vec![(1usize, 1usize, SpriteRequest::BackWall)];
    scatter(&mut map, &noise);
    assert_eq!(map, vec![(1, 1, SpriteRequest::BackWall)]);
}

#[test]
fn mid_light_noise_scatters_shrubbery_everywhere() {
    let noise = NoiseGrid::new_uniform(
        3,
        2,
        uniform(NoiseBand::Mid, NoiseBand::Low, NoiseBand::Low, false),
    );
    let mut map = Vec::new();
    scatter(&mut map, &noise);
    assert_eq!(map.len(), 6);
    assert!(map.iter().all(|(_, _, s)| *s == SpriteRequest::Shrubbery));
    // column-major order, rows inner
    assert_eq!(map[0], (0, 0, SpriteRequest::Shrubbery));
    assert_eq!(map[1], (0, 1, SpriteRequest::Shrubbery));
    assert_eq!(map[2], (1, 0, SpriteRequest::Shrubbery));
}

#[test]
fn high_dark_noise_scatters_warped_trees() {
    let noise = NoiseGrid::new_uniform(
        2,
        2,
        uniform(NoiseBand::Low, NoiseBand::High, NoiseBand::Low, false),
    );
    let mut map = Vec::new();
    scatter(&mut map, &noise);
    assert_eq!(map.len(), 4);
    assert!(map.iter().all(|(_, _, s)| *s == SpriteRequest::WarpedTree));
}

#[test]
fn door_cells_grow_replacements() {
    // a door at (1,1); the dark field is positive there, so the dark
    // variants are chosen, and the scaled door magnitude clears the tree
    // threshold; the dark field's own branch adds a second, shrub entry
    let mut noise = NoiseGrid::new_uniform(3, 3, silent());
    noise.set_cell(1, 1, uniform(NoiseBand::Low, NoiseBand::Mid, NoiseBand::High, false));
    let mut map = vec![(1usize, 1usize, SpriteRequest::Door)];
    scatter(&mut map, &noise);
    assert_eq!(
        map,
        vec![
            (1, 1, SpriteRequest::Door),
            (1, 1, SpriteRequest::WarpedTree),
            (1, 1, SpriteRequest::DarkShrubbery),
        ],
    );
}

#[test]
fn door_replacement_uses_light_variants_for_nonpositive_dark_noise() {
    let mut noise = NoiseGrid::new_uniform(2, 2, silent());
    noise.set_cell(0, 1, uniform(NoiseBand::Low, NoiseBand::Low, NoiseBand::Mid, false));
    let mut map = vec![(0usize, 1usize, SpriteRequest::Door)];
    scatter(&mut map, &noise);
    assert_eq!(
        map,
        vec![(0, 1, SpriteRequest::Door), (0, 1, SpriteRequest::Shrubbery)],
    );
}

#[test]
fn override_flag_plants_trees_on_blocked_cells() {
    // a blocked cell with a mid light value: without the override the cell
    // gets a shrub, with it the branch is promoted to a tree
    let mut noise = NoiseGrid::new_uniform(2, 1, silent());
    noise.set_cell(0, 0, uniform(NoiseBand::Mid, NoiseBand::Low, NoiseBand::Low, false));
    noise.set_cell(1, 0, uniform(NoiseBand::Mid, NoiseBand::Low, NoiseBand::Low, true));
    let mut map = vec![
        (0usize, 0usize, SpriteRequest::BackWall),
        (1usize, 0usize, SpriteRequest::BackWall),
    ];
    scatter(&mut map, &noise);
    assert_eq!(map[2], (0, 0, SpriteRequest::Shrubbery));
    assert_eq!(map[3], (1, 0, SpriteRequest::Tree));
    assert_eq!(map.len(), 4);
}

#[test]
fn override_without_blockage_changes_nothing() {
    let noise = NoiseGrid::new_uniform(
        1,
        1,
        uniform(NoiseBand::Mid, NoiseBand::Low, NoiseBand::Low, true),
    );
    let mut map = Vec::new();
    scatter(&mut map, &noise);
    assert_eq!(map, vec![(0, 0, SpriteRequest::Shrubbery)]);
}

#[test]
fn well_formedness_check_sees_a_ragged_grid() {
    let mut grid = NoiseGrid::new_uniform(3, 3, silent());
    assert!(grid.is_wf());
    grid.cells[1].pop();
    assert!(!grid.is_wf());
    grid.cells.pop();
    assert!(!grid.is_wf());
}
