use ant_arena::{
    ant_movement, compute_displacement, enemy_movement, spawn_ant, Ant, DirectionKeys, Enemy,
    Heading, Position, Viewport, World, ANT_SIZE, ANT_SPEED, ENEMY_COUNT, ENEMY_SIZE,
    ENEMY_SPEED, FOOD_COUNT, FOOD_SIZE, HEADING_DIAGONAL, HEADING_ONE, MICROS_PER_SECOND,
    POSITION_LIMIT, SIZE_MODIFIER, UNIT,
};

fn keys(left: bool, right: bool, up: bool, down: bool) -> DirectionKeys {
    DirectionKeys { left, right, up, down }
}

fn norm_sq(h: Heading) -> i64 {
    (h.x as i64) * (h.x as i64) + (h.y as i64) * (h.y as i64)
}

#[test]
fn constants_have_their_values() {
    assert_eq!(UNIT, 1000);
    assert_eq!(HEADING_ONE, 1_000_000);
    assert_eq!(HEADING_DIAGONAL, 707_106);
    assert_eq!(MICROS_PER_SECOND, 1_000_000);
    assert_eq!(POSITION_LIMIT, 1i64 << 62);
    assert_eq!(SIZE_MODIFIER, 400);
    assert_eq!(ANT_SIZE, 25_600);
    assert_eq!(ENEMY_SIZE, 25_600);
    assert_eq!(FOOD_SIZE, 12_000);
    assert_eq!(ANT_SPEED, 600_000);
    assert_eq!(ENEMY_SPEED, 200_000);
    assert_eq!(ENEMY_COUNT, 8);
    assert_eq!(FOOD_COUNT, 10);
}

#[test]
fn displacement_is_heading_times_speed_times_time() {
    assert_eq!(compute_displacement(1_000_000, 600_000, 500_000), 300_000);
    assert_eq!(compute_displacement(1_000_000, 200_000, 100_000), 20_000);
    assert_eq!(compute_displacement(1, 1_000_000, 1_000_000), 1);
}

#[test]
fn displacement_rounds_toward_zero() {
    assert_eq!(compute_displacement(707_106, 600_000, 16_667), 7_071);
    assert_eq!(compute_displacement(-707_106, 600_000, 16_667), -7_071);
    assert_eq!(compute_displacement(-707_106, 200_000, 100_000), -14_142);
    assert_eq!(compute_displacement(1, 999_999, 1_000_000), 0);
    assert_eq!(compute_displacement(-1, 999_999, 1_000_000), 0);
}

#[test]
fn displacement_is_zero_without_heading_speed_or_time() {
    assert_eq!(compute_displacement(0, 600_000, 1_000_000), 0);
    assert_eq!(compute_displacement(1_000_000, 0, 1_000_000), 0);
    assert_eq!(compute_displacement(1_000_000, 600_000, 0), 0);
}

#[test]
fn displacement_of_the_largest_arguments_does_not_overflow() {
    assert_eq!(compute_displacement(i32::MIN, u32::MAX, u32::MAX), -39_614_081_238_685_424);
    assert_eq!(compute_displacement(i32::MAX, u32::MAX, u32::MAX), 39_614_081_220_238_680);
}

#[test]
fn each_input_is_held_by_either_of_its_two_keys() {
    assert_eq!(
        DirectionKeys::from_keys(true, false, false, false, false, false, false, false),
        keys(true, false, false, false)
    );
    assert_eq!(
        DirectionKeys::from_keys(false, true, false, false, false, false, false, false),
        keys(true, false, false, false)
    );
    assert_eq!(
        DirectionKeys::from_keys(false, false, true, false, false, false, false, false),
        keys(false, true, false, false)
    );
    assert_eq!(
        DirectionKeys::from_keys(false, false, false, true, false, false, false, false),
        keys(false, true, false, false)
    );
    assert_eq!(
        DirectionKeys::from_keys(false, false, false, false, true, false, false, false),
        keys(false, false, true, false)
    );
    assert_eq!(
        DirectionKeys::from_keys(false, false, false, false, false, true, false, false),
        keys(false, false, true, false)
    );
    assert_eq!(
        DirectionKeys::from_keys(false, false, false, false, false, false, true, false),
        keys(false, false, false, true)
    );
    assert_eq!(
        DirectionKeys::from_keys(false, false, false, false, false, false, false, true),
        keys(false, false, false, true)
    );
    assert_eq!(
        DirectionKeys::from_keys(true, true, true, true, true, true, true, true),
        keys(true, true, true, true)
    );
    assert_eq!(
        DirectionKeys::from_keys(false, false, false, false, false, false, false, false),
        DirectionKeys::none()
    );
}

#[test]
fn axial_keys_give_exact_unit_headings() {
    assert_eq!(keys(true, false, false, false).heading(), Heading { x: -1_000_000, y: 0 });
    assert_eq!(keys(false, true, false, false).heading(), Heading { x: 1_000_000, y: 0 });
    assert_eq!(keys(false, false, true, false).heading(), Heading { x: 0, y: 1_000_000 });
    assert_eq!(keys(false, false, false, true).heading(), Heading { x: 0, y: -1_000_000 });
}

#[test]
fn diagonal_keys_give_unit_headings() {
    assert_eq!(keys(false, true, true, false).heading(), Heading { x: 707_106, y: 707_106 });
    assert_eq!(keys(true, false, true, false).heading(), Heading { x: -707_106, y: 707_106 });
    assert_eq!(keys(false, true, false, true).heading(), Heading { x: 707_106, y: -707_106 });
    assert_eq!(keys(true, false, false, true).heading(), Heading { x: -707_106, y: -707_106 });
}

#[test]
fn no_keys_give_the_zero_heading() {
    assert_eq!(DirectionKeys::none().heading(), Heading { x: 0, y: 0 });
    assert_eq!(keys(false, false, false, false).heading(), Heading::zero());
}

#[test]
fn opposite_keys_cancel() {
    assert_eq!(keys(true, true, false, false).heading(), Heading { x: 0, y: 0 });
    assert_eq!(keys(false, false, true, true).heading(), Heading { x: 0, y: 0 });
    assert_eq!(keys(true, true, true, true).heading(), Heading { x: 0, y: 0 });
    assert_eq!(keys(true, true, true, false).heading(), Heading { x: 0, y: 1_000_000 });
    assert_eq!(keys(true, true, false, true).heading(), Heading { x: 0, y: -1_000_000 });
    assert_eq!(keys(true, false, true, true).heading(), Heading { x: -1_000_000, y: 0 });
    assert_eq!(keys(false, true, true, true).heading(), Heading { x: 1_000_000, y: 0 });
}

#[test]
fn every_key_combination_gives_a_unit_or_zero_heading() {
    let mut nonzero = 0;
    for bits in 0..16u32 {
        let k = keys(bits & 1 != 0, bits & 2 != 0, bits & 4 != 0, bits & 8 != 0);
        let h = k.heading();
        assert!(h.is_valid());
        let cancelled = (k.left == k.right) && (k.up == k.down);
        if cancelled {
            assert_eq!(h, Heading { x: 0, y: 0 });
        } else {
            nonzero += 1;
            let n = norm_sq(h);
            assert!(999_996_000_004 <= n && n <= 1_000_000_000_000);
            assert_eq!(h, Heading::normalize(
                k.right as i32 - k.left as i32,
                k.up as i32 - k.down as i32,
            ));
        }
    }
    assert_eq!(nonzero, 12);
}

#[test]
fn position_advances_along_each_axis() {
    let p = Position::new(400_000, 300_000);
    assert_eq!(p, Position { x: 400_000, y: 300_000 });
    assert_eq!(
        p.advance(Heading { x: 1_000_000, y: 0 }, 600_000, 500_000),
        Position { x: 700_000, y: 300_000 }
    );
    assert_eq!(
        p.advance(Heading { x: -707_106, y: 707_106 }, 600_000, 1_000_000),
        Position { x: 400_000 - 424_263, y: 300_000 + 424_263 }
    );
    assert_eq!(p.advance(Heading { x: 0, y: 0 }, 600_000, 1_000_000), p);
    assert_eq!(p.advance(Heading { x: 1_000_000, y: 0 }, 600_000, 0), p);
}

#[test]
fn position_at_the_limit_can_still_advance() {
    let p = Position { x: POSITION_LIMIT, y: -POSITION_LIMIT };
    assert!(p.is_in_range());
    let q = p.advance(Heading { x: i32::MAX, y: i32::MIN }, u32::MAX, u32::MAX);
    assert_eq!(q.x, POSITION_LIMIT + 39_614_081_220_238_680);
    assert_eq!(q.y, -POSITION_LIMIT - 39_614_081_238_685_424);
    assert!(!q.is_in_range());
    assert!(!Position { x: POSITION_LIMIT + 1, y: 0 }.is_in_range());
    assert!(!Position { x: 0, y: -POSITION_LIMIT - 1 }.is_in_range());
}

#[test]
fn ant_movement_moves_only_the_player() {
    let viewport = Viewport { width: 800_000, height: 600_000 };
    let enemy = Enemy {
        direction: Heading { x: 0, y: 1_000_000 },
        position: Position { x: 100_000, y: 100_000 },
        half_extent: 12_800,
    };
    let mut world = World { player: Some(spawn_ant(viewport)), enemies: vec![enemy] };
    ant_movement(&mut world, keys(false, false, true, false), 100_000);
    let ant = world.player.as_ref().unwrap();
    assert_eq!(ant.position, Position { x: 400_000, y: 360_000 });
    assert_eq!(ant.name, "Eve");
    assert_eq!(ant.half_extent, 12_800);
    assert_eq!(world.enemies, vec![enemy]);
}

#[test]
fn ant_movement_is_not_confined() {
    let mut world = World {
        player: Some(Ant {
            name: "Eve".to_string(),
            position: Position { x: 780_000, y: 300_000 },
            half_extent: 12_800,
        }),
        enemies: Vec::new(),
    };
    ant_movement(&mut world, keys(false, true, false, false), 1_000_000);
    assert_eq!(world.player.as_ref().unwrap().position, Position { x: 1_380_000, y: 300_000 });
}

#[test]
fn ant_movement_without_a_player_does_nothing() {
    let enemy = Enemy {
        direction: Heading { x: 0, y: 1_000_000 },
        position: Position { x: 100_000, y: 100_000 },
        half_extent: 12_800,
    };
    let mut world = World { player: None, enemies: vec![enemy] };
    ant_movement(&mut world, keys(false, true, false, false), 1_000_000);
    assert_eq!(world, World { player: None, enemies: vec![enemy] });
}

#[test]
fn diagonal_movement_is_no_faster_than_axial_movement() {
    let viewport = Viewport { width: 800_000, height: 600_000 };
    let mut world = World { player: Some(spawn_ant(viewport)), enemies: Vec::new() };
    ant_movement(&mut world, keys(false, true, true, false), 100_000);
    let p = world.player.as_ref().unwrap().position;
    assert_eq!(p, Position { x: 442_426, y: 342_426 });
    let (dx, dy) = (p.x - 400_000, p.y - 300_000);
    let travelled_sq = dx * dx + dy * dy;
    assert!(travelled_sq <= 60_000 * 60_000);
    assert!(travelled_sq >= 59_998 * 59_998);
}

#[test]
fn enemy_movement_moves_every_enemy_along_its_heading() {
    let a = Enemy {
        direction: Heading { x: 1_000_000, y: 0 },
        position: Position { x: 100_000, y: 100_000 },
        half_extent: 12_800,
    };
    let b = Enemy {
        direction: Heading { x: -600_000, y: 800_000 },
        position: Position { x: 500_000, y: 200_000 },
        half_extent: 12_800,
    };
    let c = Enemy {
        direction: Heading { x: 0, y: 0 },
        position: Position { x: 1, y: 2 },
        half_extent: 12_800,
    };
    let mut world = World { player: None, enemies: vec![a, b, c] };
    enemy_movement(&mut world, 250_000);
    assert_eq!(world.enemies.len(), 3);
    assert_eq!(world.enemies[0], Enemy { position: Position { x: 150_000, y: 100_000 }, ..a });
    assert_eq!(world.enemies[1], Enemy { position: Position { x: 470_000, y: 240_000 }, ..b });
    assert_eq!(world.enemies[2], c);
    assert!(world.player.is_none());
}

#[test]
fn enemy_movement_of_no_enemies_does_nothing() {
    let viewport = Viewport { width: 800_000, height: 600_000 };
    let mut world = World { player: Some(spawn_ant(viewport)), enemies: Vec::new() };
    enemy_movement(&mut world, 1_000_000);
    assert_eq!(world, World { player: Some(spawn_ant(viewport)), enemies: Vec::new() });
}
