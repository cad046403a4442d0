//! Per-frame simulation core of a small arena game: one player-controlled ant
//! moves inside the viewport, enemies bounce off its edges, and the first
//! contact between the ant and an enemy removes the ant.
//!
//! All quantities are integers. Lengths count thousandths of an arena unit,
//! time counts microseconds, and a heading component counts millionths, so
//! every rule of the game is stated and proved over exact arithmetic.
//!
//! A frame is one call of [`update`], which runs the five steps in order:
//! [`ant_movement`], [`confine_ant_movement`], [`enemy_movement`],
//! [`confine_enemy_movement`] and [`enemy_hit_player`]. What the frame asks
//! of the presentation layer comes back as a list of [`Signal`]s.
//!
//! Every executable type has a view with unbounded integers, and the
//! contracts are stated over these views: [`Point`] for [`Position`],
//! [`Direction`] for [`Heading`], [`Region`] for [`Bounds`], and the models
//! of [`Ant`], [`Enemy`] and [`World`].

pub mod collision;
pub mod confinement;
pub mod entities;
pub mod geometry;
pub mod heading;
pub mod kinematics;
pub mod spawn;
pub mod units;
pub mod world;

pub use collision::{circles_overlap, detect_collisions};
pub use entities::{Ant, AntModel, Enemy, EnemyModel, Food};
pub use geometry::{Bounds, Point, Position, Region, Viewport};
pub use heading::{Direction, Heading};
pub use kinematics::{DirectionKeys, HEADING_DIAGONAL};
pub use spawn::{
    place_enemy, place_food, scatter, spawn_ant, spawn_camera, spawn_enemy, spawn_food,
};
pub use units::{
    compute_displacement, ANT_SIZE, ANT_SPEED, ENEMY_COUNT, ENEMY_SIZE, ENEMY_SPEED, FOOD_COUNT,
    FOOD_SIZE, HEADING_ONE, MICROS_PER_SECOND, POSITION_LIMIT, SIZE_MODIFIER, UNIT,
};
pub use world::{
    ant_movement, confine_ant_movement, confine_enemy_movement, enemy_hit_player, enemy_movement,
    try_update, update, Signal, World, WorldModel,
};
