use apartments::floor::{
    build_floor, create_floor, floor_design, Tile, TileColor, TileKind, TileSpawn,
};

#[test]
fn codes_zero_one_two_are_floor_wall_lava() {
    assert_eq!(TileKind::from_code(0), Some(TileKind::Floor));
    assert_eq!(TileKind::from_code(1), Some(TileKind::Wall));
    assert_eq!(TileKind::from_code(2), Some(TileKind::Lava));
}

#[test]
fn other_codes_are_unknown() {
    assert_eq!(TileKind::from_code(3), None);
    assert_eq!(TileKind::from_code(255), None);
}

#[test]
fn base_colour_follows_kind() {
    assert_eq!(Tile::new(0, 0, TileKind::Floor).get_color(), TileColor::NearWhite);
    assert_eq!(Tile::new(4, 1, TileKind::Wall).get_color(), TileColor::NearBlack);
    assert_eq!(Tile::new(7, 6, TileKind::Lava).get_color(), TileColor::Red);
}

#[test]
fn base_colour_ignores_coordinates() {
    assert_eq!(
        Tile::new(0, 0, TileKind::Wall).get_color(),
        Tile::new(200, 13, TileKind::Wall).get_color()
    );
}

#[test]
fn colour_channels_in_tenths() {
    assert_eq!(TileColor::NearWhite.rgb_tenths(), (10, 9, 9));
    assert_eq!(TileColor::NearBlack.rgb_tenths(), (0, 1, 1));
    assert_eq!(TileColor::Red.rgb_tenths(), (10, 0, 0));
    assert_eq!(TileColor::LightBlue.rgb_tenths(), (5, 5, 10));
    assert_eq!(TileColor::Blue.rgb_tenths(), (0, 0, 10));
}

#[test]
fn colour_channels_give_the_exact_intensities() {
    let (r, g, b) = TileColor::NearWhite.rgb_tenths();
    assert_eq!(r as f32 / 10.0, 1.0f32);
    assert_eq!(g as f32 / 10.0, 0.9f32);
    assert_eq!(b as f32 / 10.0, 0.9f32);
    let (r, g, b) = TileColor::NearBlack.rgb_tenths();
    assert_eq!(r as f32 / 10.0, 0.0f32);
    assert_eq!(g as f32 / 10.0, 0.1f32);
    assert_eq!(b as f32 / 10.0, 0.1f32);
    let (r, g, b) = TileColor::LightBlue.rgb_tenths();
    assert_eq!(r as f32 / 10.0, 0.5f32);
    assert_eq!(g as f32 / 10.0, 0.5f32);
    assert_eq!(b as f32 / 10.0, 1.0f32);
}

#[test]
fn tile_new_keeps_its_arguments() {
    let tile = Tile::new(3, 5, TileKind::Lava);
    assert_eq!(tile.x, 3);
    assert_eq!(tile.y, 5);
    assert_eq!(tile.tile_kind, TileKind::Lava);
}

#[test]
fn layout_is_eight_by_eight() {
    let design = floor_design();
    assert_eq!(
        design,
        vec![
            vec![0, 0, 0, 0, 0, 0, 2, 0],
            vec![0, 0, 0, 0, 0, 0, 0, 0],
            vec![0, 0, 0, 0, 0, 0, 0, 0],
            vec![0, 0, 0, 0, 0, 0, 0, 0],
            vec![0, 1, 1, 1, 0, 0, 0, 0],
            vec![0, 0, 0, 1, 0, 0, 0, 0],
            vec![0, 0, 0, 1, 0, 0, 0, 0],
            vec![0, 0, 0, 1, 0, 0, 0, 0],
        ]
    );
}

#[test]
fn exactly_one_tile_per_coordinate_pair() {
    let spawns = create_floor();
    assert_eq!(spawns.len(), 64);
    for x in 0u8..8 {
        for y in 0u8..8 {
            let here = spawns.iter().filter(|s| s.tile.x == x && s.tile.y == y).count();
            assert_eq!(here, 1);
        }
    }
    assert!(spawns.iter().all(|s| s.tile.x < 8 && s.tile.y < 8));
}

#[test]
fn every_tile_is_made_in_the_colour_of_its_kind() {
    for spawn in create_floor() {
        let expected = match spawn.tile.tile_kind {
            TileKind::Floor => TileColor::NearWhite,
            TileKind::Wall => TileColor::NearBlack,
            TileKind::Lava => TileColor::Red,
        };
        assert_eq!(spawn.color, expected);
        assert_eq!(spawn.color, spawn.tile.get_color());
    }
}

#[test]
fn top_row_has_lava_at_column_six_only() {
    let design = floor_design();
    assert_eq!(design[0], vec![0, 0, 0, 0, 0, 0, 2, 0]);
    let spawns = create_floor();
    // The topmost row is read last, so its tiles are the last eight.
    let from_top_row = &spawns[56..64];
    for (column, spawn) in from_top_row.iter().enumerate() {
        assert_eq!(spawn.tile.x, 7);
        assert_eq!(spawn.tile.y as usize, column);
        if column == 6 {
            assert_eq!(spawn.tile.tile_kind, TileKind::Lava);
        } else {
            assert_eq!(spawn.tile.tile_kind, TileKind::Floor);
        }
    }
}

#[test]
fn walls_stand_where_the_layout_has_them() {
    let spawns = create_floor();
    let mut walls: Vec<(u8, u8)> = spawns
        .iter()
        .filter(|s| s.tile.tile_kind == TileKind::Wall)
        .map(|s| (s.tile.x, s.tile.y))
        .collect();
    walls.sort();
    assert_eq!(walls, vec![(0, 3), (1, 3), (2, 3), (3, 1), (3, 2), (3, 3)]);
    let lava: Vec<(u8, u8)> = spawns
        .iter()
        .filter(|s| s.tile.tile_kind == TileKind::Lava)
        .map(|s| (s.tile.x, s.tile.y))
        .collect();
    assert_eq!(lava, vec![(7, 6)]);
}

#[test]
fn tiles_come_row_by_row_from_the_last_row() {
    let spawns = create_floor();
    for (k, spawn) in spawns.iter().enumerate() {
        assert_eq!(spawn.tile.x as usize, k / 8);
        assert_eq!(spawn.tile.y as usize, k % 8);
    }
    assert_eq!(
        spawns[3],
        TileSpawn {
            tile: Tile::new(0, 3, TileKind::Wall),
            color: TileColor::NearBlack,
            world_x: 0,
            world_z: 3,
        }
    );
}

#[test]
fn row_index_is_world_x_and_column_index_is_world_z() {
    for spawn in create_floor() {
        assert_eq!(spawn.world_x, spawn.tile.x as usize);
        assert_eq!(spawn.world_z, spawn.tile.y as usize);
    }
    let spawns = build_floor(&vec![vec![2, 1, 0], vec![0, 1, 2]]);
    assert_eq!(
        spawns,
        vec![
            TileSpawn { tile: Tile::new(0, 0, TileKind::Floor), color: TileColor::NearWhite, world_x: 0, world_z: 0 },
            TileSpawn { tile: Tile::new(0, 1, TileKind::Wall), color: TileColor::NearBlack, world_x: 0, world_z: 1 },
            TileSpawn { tile: Tile::new(0, 2, TileKind::Lava), color: TileColor::Red, world_x: 0, world_z: 2 },
            TileSpawn { tile: Tile::new(1, 0, TileKind::Lava), color: TileColor::Red, world_x: 1, world_z: 0 },
            TileSpawn { tile: Tile::new(1, 1, TileKind::Wall), color: TileColor::NearBlack, world_x: 1, world_z: 1 },
            TileSpawn { tile: Tile::new(1, 2, TileKind::Floor), color: TileColor::NearWhite, world_x: 1, world_z: 2 },
        ]
    );
}

#[test]
fn empty_layout_gives_no_tiles() {
    assert_eq!(build_floor(&Vec::new()), Vec::new());
    assert_eq!(build_floor(&vec![Vec::new(), Vec::new()]), Vec::new());
}

#[test]
fn rows_may_differ_in_length() {
    let spawns = build_floor(&vec![vec![1], vec![], vec![0, 2]]);
    let cells: Vec<(u8, u8, TileKind)> =
        spawns.iter().map(|s| (s.tile.x, s.tile.y, s.tile.tile_kind)).collect();
    assert_eq!(
        cells,
        vec![(0, 0, TileKind::Floor), (0, 1, TileKind::Lava), (2, 0, TileKind::Wall)]
    );
}

#[test]
fn tile_coordinates_keep_the_low_eight_bits() {
    let mut design: Vec<Vec<u8>> = Vec::new();
    for _ in 0..257 {
        design.push(vec![0]);
    }
    let spawns = build_floor(&design);
    assert_eq!(spawns.len(), 257);
    assert_eq!(spawns[255].tile.x, 255);
    assert_eq!(spawns[255].world_x, 255);
    assert_eq!(spawns[256].tile.x, 0);
    assert_eq!(spawns[256].world_x, 256);

    let wide = build_floor(&vec![vec![1; 300]]);
    assert_eq!(wide[299].tile.y, 43);
    assert_eq!(wide[299].world_z, 299);
    assert_eq!(wide[299].tile.x, 0);
}

#[test]
fn create_floor_is_build_floor_of_the_layout() {
    assert_eq!(create_floor(), build_floor(&floor_design()));
}
