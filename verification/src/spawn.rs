//! Spawning: where the camera and the ant go, and how enemies and food are
//! scattered over the viewport from random bits.

use vstd::prelude::*;
use crate::entities::{Ant, AntModel, Enemy, EnemyModel, Food};
use crate::geometry::{Point, Position, Viewport};
use crate::heading::{
    lemma_normalized_is_valid, lemma_normalized_nonnegative, Direction, Heading,
};
use crate::units::{ANT_SIZE, ENEMY_COUNT, ENEMY_SIZE, FOOD_COUNT};

verus! {

/// Draws 32 bits by `rand::random::<u32>()`, which samples the generator
/// that `rand` keeps for each thread and seeds from the operating system.
/// The contract claims nothing of the bits: to the verifier any call may
/// return any value, so what is proved of the spawn functions holds for
/// every outcome of the draws.
#[verifier::external_body]
fn random_bits() -> (bits: u32) {
    rand::random::<u32>()
}

/// The fraction in `[0, 1)` that 32 random bits stand for, counted in
/// 2^24ths: the 24 most significant bits.
pub open spec fn fraction_of(bits: int) -> int {
    bits / 256
}

/// The share `fraction_of(bits)` of `extent`, rounded down.
pub open spec fn share_of(bits: int, extent: int) -> int {
    fraction_of(bits) * extent / 0x100_0000
}

/// The share of an extent lies within it, short of its far end unless the
/// extent is empty.
pub proof fn lemma_share_of_bounds(bits: u32, extent: u32)
    ensures
        0 <= share_of(bits as int, extent as int) <= extent,
        extent > 0 ==> share_of(bits as int, extent as int) < extent,
{
    let f = fraction_of(bits as int);
    assert(0 <= f * extent <= 0xff_ffff * extent) by (nonlinear_arith)
        requires
            0 <= f <= 0xff_ffff,
            0 <= extent,
    ;
}

/// Takes the share of `extent` that the random bits stand for.
pub fn scatter(bits: u32, extent: u32) -> (at: i64)
    ensures
        at == share_of(bits as int, extent as int),
        0 <= at <= extent,
        extent > 0 ==> at < extent,
{
    proof {
        lemma_share_of_bounds(bits, extent);
    }
    let fraction: u64 = (bits / 256) as u64;
    ((fraction * (extent as u64)) / 0x100_0000) as i64
}

/// The point of the viewport that two draws of random bits stand for.
pub open spec fn scattered_point(viewport: Viewport, x_bits: int, y_bits: int) -> Point {
    Point {
        x: share_of(x_bits, viewport.width as int),
        y: share_of(y_bits, viewport.height as int),
    }
}

/// The enemy that four draws of random bits stand for: two place it in the
/// viewport, and two give the vector that, brought to unit length, is its
/// direction.
pub open spec fn placed_enemy(
    viewport: Viewport,
    x_bits: int,
    y_bits: int,
    dx_bits: int,
    dy_bits: int,
) -> EnemyModel {
    EnemyModel {
        direction: Direction::normalized(fraction_of(dx_bits), fraction_of(dy_bits)),
        position: scattered_point(viewport, x_bits, y_bits),
        half_extent: (ENEMY_SIZE / 2) as nat,
    }
}

/// `enemy` is what `placed_enemy` gives for some four draws.
pub open spec fn is_placed_enemy(enemy: EnemyModel, viewport: Viewport) -> bool {
    exists|x_bits: u32, y_bits: u32, dx_bits: u32, dy_bits: u32|
        enemy == #[trigger] placed_enemy(
            viewport,
            x_bits as int,
            y_bits as int,
            dx_bits as int,
            dy_bits as int,
        )
}

/// `food` lies where `scattered_point` puts it for some two draws.
pub open spec fn is_placed_food(food: Food, viewport: Viewport) -> bool {
    exists|x_bits: u32, y_bits: u32|
        food.position@ == #[trigger] scattered_point(viewport, x_bits as int, y_bits as int)
}

/// Whatever the draws, a placed enemy lies in the viewport, within
/// `POSITION_LIMIT` of the origin, and its direction is valid and points
/// up and to the right, or along one of those axes, or nowhere.
pub proof fn lemma_placed_enemy(enemy: EnemyModel, viewport: Viewport)
    requires
        is_placed_enemy(enemy, viewport),
    ensures
        0 <= enemy.position.x <= viewport.width,
        0 <= enemy.position.y <= viewport.height,
        enemy.position.in_range(),
        enemy.direction.is_valid(),
        enemy.direction.x >= 0,
        enemy.direction.y >= 0,
        enemy.half_extent == ENEMY_SIZE / 2,
{
    let (x_bits, y_bits, dx_bits, dy_bits) = choose|
        x_bits: u32,
        y_bits: u32,
        dx_bits: u32,
        dy_bits: u32,
    |
        enemy == #[trigger] placed_enemy(
            viewport,
            x_bits as int,
            y_bits as int,
            dx_bits as int,
            dy_bits as int,
        );
    lemma_share_of_bounds(x_bits, viewport.width);
    lemma_share_of_bounds(y_bits, viewport.height);
    lemma_normalized_is_valid(fraction_of(dx_bits as int), fraction_of(dy_bits as int));
    lemma_normalized_nonnegative(fraction_of(dx_bits as int), fraction_of(dy_bits as int));
}

/// Where the camera goes: the middle of the viewport.
pub fn spawn_camera(viewport: Viewport) -> (at: Position)
    ensures
        at@ == viewport.center_point(),
{
    viewport.center()
}

/// The ant as it enters the world: named Eve, in the middle of the
/// viewport, with half of `ANT_SIZE` as its half-extent.
pub fn spawn_ant(viewport: Viewport) -> (ant: Ant)
    ensures
        ant@ == (AntModel {
            name: "Eve"@,
            position: viewport.center_point(),
            half_extent: (ANT_SIZE / 2) as nat,
        }),
        ant.position@.in_range(),
{
    Ant { name: "Eve".to_owned(), position: viewport.center(), half_extent: ANT_SIZE / 2 }
}

/// Makes the enemy that four draws of random bits stand for.
pub fn place_enemy(
    viewport: Viewport,
    x_bits: u32,
    y_bits: u32,
    dx_bits: u32,
    dy_bits: u32,
) -> (enemy: Enemy)
    ensures
        enemy@ == placed_enemy(
            viewport,
            x_bits as int,
            y_bits as int,
            dx_bits as int,
            dy_bits as int,
        ),
        is_placed_enemy(enemy@, viewport),
        enemy@.position.in_range(),
        enemy@.direction.is_valid(),
{
    let position = Position {
        x: scatter(x_bits, viewport.width),
        y: scatter(y_bits, viewport.height),
    };
    let direction = Heading::normalize((dx_bits / 256) as i32, (dy_bits / 256) as i32);
    let enemy = Enemy { direction, position, half_extent: ENEMY_SIZE / 2 };
    enemy
}

/// Makes the food item that two draws of random bits stand for.
pub fn place_food(viewport: Viewport, x_bits: u32, y_bits: u32) -> (food: Food)
    ensures
        food.position@ == scattered_point(viewport, x_bits as int, y_bits as int),
        is_placed_food(food, viewport),
        0 <= food.position.x <= viewport.width,
        0 <= food.position.y <= viewport.height,
{
    let food = Food {
        position: Position {
            x: scatter(x_bits, viewport.width),
            y: scatter(y_bits, viewport.height),
        },
    };
    food
}

/// Scatters `ENEMY_COUNT` enemies over the viewport, each with a random
/// direction, which has unit length unless both of its draws come out
/// empty. Each enemy takes four draws of random bits, in the order in which
/// `place_enemy` names them.
pub fn spawn_enemy(viewport: Viewport) -> (enemies: Vec<Enemy>)
    ensures
        enemies.len() == ENEMY_COUNT,
        forall|i: int|
            0 <= i < enemies.len() ==> is_placed_enemy(#[trigger] enemies[i]@, viewport),
        forall|i: int|
            0 <= i < enemies.len() ==> (#[trigger] enemies[i])@.position.in_range()
                && enemies[i]@.direction.is_valid(),
{
    let mut enemies: Vec<Enemy> = Vec::new();
    let mut i: usize = 0;
    while i < ENEMY_COUNT
        invariant
            i <= ENEMY_COUNT,
            enemies.len() == i,
            forall|j: int| 0 <= j < i ==> is_placed_enemy(#[trigger] enemies[j]@, viewport),
            forall|j: int|
                0 <= j < i ==> (#[trigger] enemies[j])@.position.in_range()
                    && enemies[j]@.direction.is_valid(),
        decreases ENEMY_COUNT - i,
    {
        let x_bits = random_bits();
        let y_bits = random_bits();
        let dx_bits = random_bits();
        let dy_bits = random_bits();
        let enemy = place_enemy(viewport, x_bits, y_bits, dx_bits, dy_bits);
        enemies.push(enemy);
        i = i + 1;
    }
    enemies
}

/// Scatters `FOOD_COUNT` food items over the viewport. Each item takes two
/// draws of random bits, in the order in which `place_food` names them.
pub fn spawn_food(viewport: Viewport) -> (food: Vec<Food>)
    ensures
        food.len() == FOOD_COUNT,
        forall|i: int| 0 <= i < food.len() ==> is_placed_food(#[trigger] food[i], viewport),
        forall|i: int|
            0 <= i < food.len() ==> 0 <= (#[trigger] food[i]).position.x <= viewport.width && 0
                <= food[i].position.y <= viewport.height,
{
    let mut food: Vec<Food> = Vec::new();
    let mut i: usize = 0;
    while i < FOOD_COUNT
        invariant
            i <= FOOD_COUNT,
            food.len() == i,
            forall|j: int| 0 <= j < i ==> is_placed_food(#[trigger] food[j], viewport),
            forall|j: int|
                0 <= j < i ==> 0 <= (#[trigger] food[j]).position.x <= viewport.width && 0
                    <= food[j].position.y <= viewport.height,
        decreases FOOD_COUNT - i,
    {
        let x_bits = random_bits();
        let y_bits = random_bits();
        let item = place_food(viewport, x_bits, y_bits);
        food.push(item);
        i = i + 1;
    }
    food
}

} // verus!
