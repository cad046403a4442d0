use ant_arena::{
    confine_ant_movement, confine_enemy_movement, Ant, Bounds, Enemy, Heading, Position, Signal,
    Viewport, World,
};

fn viewport() -> Viewport {
    Viewport { width: 800_000, height: 600_000 }
}

fn bounds() -> Bounds {
    Bounds { x_min: 12_800, x_max: 787_200, y_min: 12_800, y_max: 587_200 }
}

fn enemy(x: i64, y: i64, hx: i32, hy: i32) -> Enemy {
    Enemy { direction: Heading { x: hx, y: hy }, position: Position { x, y }, half_extent: 12_800 }
}

fn ant(x: i64, y: i64) -> Ant {
    Ant { name: "Eve".to_string(), position: Position { x, y }, half_extent: 12_800 }
}

#[test]
fn arena_bounds_leave_a_margin_of_the_half_extent() {
    assert_eq!(viewport().bounds(12_800), bounds());
    assert_eq!(
        viewport().bounds(0),
        Bounds { x_min: 0, x_max: 800_000, y_min: 0, y_max: 600_000 }
    );
    assert_eq!(
        Viewport { width: u32::MAX, height: 0 }.bounds(u32::MAX),
        Bounds { x_min: 4_294_967_295, x_max: 0, y_min: 4_294_967_295, y_max: -4_294_967_295 }
    );
}

#[test]
fn positions_inside_the_bounds_stay() {
    let b = bounds();
    for p in [
        Position { x: 400_000, y: 300_000 },
        Position { x: 12_800, y: 12_800 },
        Position { x: 787_200, y: 587_200 },
        Position { x: 12_800, y: 587_200 },
    ] {
        assert!(b.holds(p));
        assert!(!p.escapes(&b));
        assert_eq!(p.confine(&b), p);
    }
}

#[test]
fn positions_outside_the_bounds_are_clamped_on_each_axis() {
    let b = bounds();
    let at = |x: i64, y: i64| Position { x, y };
    assert_eq!(at(12_799, 300_000).confine(&b), at(12_800, 300_000));
    assert_eq!(at(787_201, 300_000).confine(&b), at(787_200, 300_000));
    assert_eq!(at(400_000, -1).confine(&b), at(400_000, 12_800));
    assert_eq!(at(400_000, 600_000).confine(&b), at(400_000, 587_200));
    assert_eq!(
        Position { x: i64::MIN, y: i64::MAX }.confine(&b),
        Position { x: 12_800, y: 587_200 }
    );
    assert!(Position { x: 12_799, y: 300_000 }.escapes(&b));
    assert!(Position { x: 400_000, y: 587_201 }.escapes(&b));
    assert!(!b.holds(Position { x: 12_799, y: 300_000 }));
}

#[test]
fn confining_twice_is_confining_once() {
    let b = bounds();
    for p in [
        Position { x: -5, y: 1_000_000 },
        Position { x: 1_900_000, y: 300_000 },
        Position { x: 400_000, y: 300_000 },
        Position { x: i64::MAX, y: i64::MIN },
    ] {
        let once = p.confine(&b);
        assert_eq!(once.confine(&b), once);
        assert!(b.holds(once));
    }
}

#[test]
fn bounds_that_are_not_ordered_send_a_position_to_either_edge() {
    let narrow = Viewport { width: 10_000, height: 600_000 }.bounds(12_800);
    assert_eq!(narrow.x_min, 12_800);
    assert_eq!(narrow.x_max, -2_800);
    assert_eq!(Position { x: 0, y: 300_000 }.confine(&narrow), Position { x: 12_800, y: 300_000 });
    assert_eq!(
        Position { x: 12_800, y: 300_000 }.confine(&narrow),
        Position { x: -2_800, y: 300_000 }
    );
}

#[test]
fn heading_is_reflected_on_the_axis_that_was_crossed() {
    let b = bounds();
    let h = Heading { x: 600_000, y: -800_000 };
    assert_eq!(h.reflect(Position { x: 400_000, y: 300_000 }, &b), h);
    assert_eq!(h.reflect(Position { x: 12_800, y: 587_200 }, &b), h);
    assert_eq!(
        h.reflect(Position { x: 10_000, y: 300_000 }, &b),
        Heading { x: -600_000, y: -800_000 }
    );
    assert_eq!(
        h.reflect(Position { x: 790_000, y: 300_000 }, &b),
        Heading { x: -600_000, y: -800_000 }
    );
    assert_eq!(
        h.reflect(Position { x: 400_000, y: 0 }, &b),
        Heading { x: 600_000, y: 800_000 }
    );
    assert_eq!(
        h.reflect(Position { x: 400_000, y: 590_000 }, &b),
        Heading { x: 600_000, y: 800_000 }
    );
    assert_eq!(
        h.reflect(Position { x: 0, y: 0 }, &b),
        Heading { x: -600_000, y: 800_000 }
    );
}

#[test]
fn enemy_left_of_the_bounds_is_put_on_the_edge_and_turned() {
    let mut e = enemy(5_000, 300_000, -600_000, 800_000);
    assert!(e.confine(&bounds()));
    assert_eq!(e, enemy(12_800, 300_000, 600_000, 800_000));
    assert!(!e.confine(&bounds()));
    assert_eq!(e, enemy(12_800, 300_000, 600_000, 800_000));
}

#[test]
fn enemy_with_any_heading_is_reflected() {
    let mut e = enemy(900_000, -1, 3, -4);
    assert!(e.confine(&bounds()));
    assert_eq!(e, enemy(787_200, 12_800, -3, 4));
    let mut e = enemy(900_000, 300_000, i32::MAX, -i32::MAX);
    assert!(e.confine(&bounds()));
    assert_eq!(e, enemy(787_200, 300_000, -i32::MAX, -i32::MAX));
}

#[test]
fn enemy_outside_on_both_axes_bounces_once() {
    let mut world =
        World { player: None, enemies: vec![enemy(-14_142, -14_142, -707_106, -707_106)] };
    let signals = confine_enemy_movement(&mut world, viewport());
    assert_eq!(world.enemies, vec![enemy(12_800, 12_800, 707_106, 707_106)]);
    assert_eq!(signals, vec![Signal::Bounced { enemy: 0 }]);
}

#[test]
fn enemy_on_the_edge_does_not_bounce() {
    let mut world =
        World { player: None, enemies: vec![enemy(787_200, 12_800, 600_000, -800_000)] };
    let signals = confine_enemy_movement(&mut world, viewport());
    assert_eq!(world.enemies, vec![enemy(787_200, 12_800, 600_000, -800_000)]);
    assert!(signals.is_empty());
}

#[test]
fn bounces_are_signalled_in_storage_order() {
    let mut world = World {
        player: Some(ant(-50, 300_000)),
        enemies: vec![
            enemy(800_000, 300_000, 1_000_000, 0),
            enemy(400_000, 300_000, 1_000_000, 0),
            enemy(400_000, 0, 0, -1_000_000),
            enemy(400_000, 600_000, 0, 0),
        ],
    };
    let signals = confine_enemy_movement(&mut world, viewport());
    assert_eq!(
        signals,
        vec![
            Signal::Bounced { enemy: 0 },
            Signal::Bounced { enemy: 2 },
            Signal::Bounced { enemy: 3 },
        ]
    );
    assert_eq!(
        world.enemies,
        vec![
            enemy(787_200, 300_000, -1_000_000, 0),
            enemy(400_000, 300_000, 1_000_000, 0),
            enemy(400_000, 12_800, 0, 1_000_000),
            enemy(400_000, 587_200, 0, 0),
        ]
    );
    assert_eq!(world.player, Some(ant(-50, 300_000)));
}

#[test]
fn each_enemy_is_confined_by_its_own_half_extent() {
    let small = Enemy { half_extent: 1_000, ..enemy(500, 500, -600_000, -800_000) };
    let large = Enemy { half_extent: 100_000, ..enemy(50_000, 550_000, 600_000, 800_000) };
    let mut world = World { player: None, enemies: vec![small, large] };
    let signals = confine_enemy_movement(&mut world, viewport());
    assert_eq!(
        world.enemies[0],
        Enemy { half_extent: 1_000, ..enemy(1_000, 1_000, 600_000, 800_000) }
    );
    assert_eq!(
        world.enemies[1],
        Enemy { half_extent: 100_000, ..enemy(100_000, 500_000, -600_000, -800_000) }
    );
    assert_eq!(signals, vec![Signal::Bounced { enemy: 0 }, Signal::Bounced { enemy: 1 }]);
}

#[test]
fn confining_no_enemies_signals_nothing() {
    let mut world = World { player: Some(ant(1, 2)), enemies: Vec::new() };
    let signals = confine_enemy_movement(&mut world, viewport());
    assert!(signals.is_empty());
    assert_eq!(world, World { player: Some(ant(1, 2)), enemies: Vec::new() });
}

#[test]
fn player_is_clamped_without_a_signal_or_a_change_of_enemies() {
    let e = enemy(-5, -5, -600_000, -800_000);
    let mut world = World { player: Some(ant(1_900_000, -7)), enemies: vec![e] };
    confine_ant_movement(&mut world, viewport());
    assert_eq!(world.player, Some(ant(787_200, 12_800)));
    assert_eq!(world.enemies, vec![e]);
    confine_ant_movement(&mut world, viewport());
    assert_eq!(world.player, Some(ant(787_200, 12_800)));
}

#[test]
fn player_inside_the_bounds_is_left_alone() {
    let mut world = World { player: Some(ant(700_000, 300_000)), enemies: Vec::new() };
    confine_ant_movement(&mut world, viewport());
    assert_eq!(world.player, Some(ant(700_000, 300_000)));
}

#[test]
fn confining_without_a_player_does_nothing() {
    let e = enemy(-5, -5, -600_000, -800_000);
    let mut world = World { player: None, enemies: vec![e] };
    confine_ant_movement(&mut world, viewport());
    assert_eq!(world, World { player: None, enemies: vec![e] });
}

#[test]
fn ant_confine_keeps_name_and_half_extent() {
    let mut a = Ant {
        name: "Ada".to_string(),
        position: Position { x: -1, y: 900_000 },
        half_extent: 300,
    };
    a.confine(&Viewport { width: 1_000, height: 2_000 }.bounds(300));
    assert_eq!(
        a,
        Ant { name: "Ada".to_string(), position: Position { x: 300, y: 1_700 }, half_extent: 300 }
    );
}
