use lonely_tribes::errors::GenError;
use lonely_tribes::foliage::{CellNoise, NoiseBand, NoiseGrid};
use lonely_tribes::generator::ProceduralGenerator;
use lonely_tribes::grid::GenConfig;
use lonely_tribes::spawn::add_players;
use lonely_tribes::sprites::SpriteRequest;
use rand::SeedableRng;

fn quiet_noise(width: usize, height: usize) -> NoiseGrid {
    NoiseGrid::new_uniform(
        width,
        height,
        CellNoise {
            light: NoiseBand::Low,
            dark: NoiseBand::Low,
            door: NoiseBand::Low,
            override_ok: false,
        },
    )
}

fn is_wall_sprite(s: &SpriteRequest) -> bool {
    matches!(
        s,
        SpriteRequest::BackWall
            | SpriteRequest::FrontWall
            | SpriteRequest::LeftWall
            | SpriteRequest::RightWall
            | SpriteRequest::BackWallLeftCorner
            | SpriteRequest::BackWallRightCorner
            | SpriteRequest::FrontWallLeftCorner
            | SpriteRequest::FrontWallRightCorner
    )
}

#[test]
fn seed_42_end_to_end() {
    let cfg = GenConfig { width: 40, height: 40 };
    let noise = quiet_noise(40, 40);
    let generator = ProceduralGenerator::new(42, cfg);
    let map = generator.get(&noise).expect("generation for seed 42 succeeds");
    assert!(!map.is_empty());
    assert!(map.iter().any(|(_, _, s)| is_wall_sprite(s)));
    assert!(map.iter().any(|(_, _, s)| *s == SpriteRequest::Player(0)));
}

#[test]
fn generation_is_deterministic() {
    let cfg = GenConfig { width: 40, height: 40 };
    let noise = quiet_noise(40, 40);
    let generator = ProceduralGenerator::new(42, cfg);
    let first = generator.get(&noise).expect("first run succeeds");
    let second = generator.get(&noise).expect("second run succeeds");
    assert_eq!(first, second);
    let other = ProceduralGenerator::new(43, cfg);
    let third = other.get(&noise).expect("other seed succeeds");
    // not a guarantee in general, but these two seeds do differ
    assert_ne!(first, third);
}

#[test]
fn all_coordinates_in_bounds() {
    let cfg = GenConfig { width: 40, height: 40 };
    let noise = quiet_noise(40, 40);
    for seed in [0u32, 7, 42, 1000] {
        let map = ProceduralGenerator::new(seed, cfg).get(&noise).expect("generation succeeds");
        for (x, y, _) in &map {
            assert!(*x < 40 && *y < 40);
        }
    }
}

#[test]
fn players_never_share_or_take_blocked_cells() {
    let cfg = GenConfig { width: 40, height: 40 };
    let noise = quiet_noise(40, 40);
    let map = ProceduralGenerator::new(7, cfg).get(&noise).expect("generation succeeds");
    let players: Vec<(usize, usize)> = map
        .iter()
        .filter(|(_, _, s)| matches!(s, SpriteRequest::Player(_)))
        .map(|(x, y, _)| (*x, *y))
        .collect();
    assert!(!players.is_empty());
    for (i, a) in players.iter().enumerate() {
        for b in players.iter().skip(i + 1) {
            assert_ne!(a, b);
        }
    }
    // nothing that blocks a cell shares it with a player
    for (x, y, s) in &map {
        let blocks = *s != SpriteRequest::Blank
            && *s != SpriteRequest::Door
            && !matches!(s, SpriteRequest::Player(_));
        if blocks {
            assert!(!players.contains(&(*x, *y)));
        }
    }
}

#[test]
fn undersized_grid_is_rejected() {
    let cfg = GenConfig { width: 20, height: 40 };
    let noise = quiet_noise(20, 40);
    let res = ProceduralGenerator::new(42, cfg).get(&noise);
    assert_eq!(res, Err(GenError::InvalidGridConfiguration));

    let cfg = GenConfig { width: 40, height: 20 };
    let noise = quiet_noise(40, 20);
    let res = ProceduralGenerator::new(42, cfg).get(&noise);
    assert_eq!(res, Err(GenError::InvalidGridConfiguration));
}

#[test]
fn spawning_on_a_full_grid_fails() {
    let cfg = GenConfig { width: 1, height: 1 };
    let mut map = vec![(0usize, 0usize, SpriteRequest::Tree)];
    let mut rng = rand_pcg::Pcg64::seed_from_u64(99);
    let res = add_players(&mut rng, &mut map, &cfg);
    assert_eq!(res, Err(GenError::NoFreeCellForSpawn));
}

#[test]
fn spawning_fills_an_open_grid() {
    let cfg = GenConfig { width: 40, height: 40 };
    let mut map = Vec::new();
    let mut rng = rand_pcg::Pcg64::seed_from_u64(5);
    let res = add_players(&mut rng, &mut map, &cfg);
    assert_eq!(res, Ok(()));
    // group 0 always exists and holds at least eight players
    let group0 = map.iter().filter(|(_, _, s)| *s == SpriteRequest::Player(0)).count();
    assert!(group0 >= 8 && group0 < 20);
}
