//! The entities of the arena. The ant is the player; enemies carry the
//! heading they keep from frame to frame; food is placed once and then left
//! alone.

use vstd::prelude::*;
use crate::confinement::lemma_reflect_keeps_valid;
use crate::confinement::is_outside;
use crate::geometry::{Bounds, Point, Position, Region, Viewport};
use crate::heading::{Direction, Heading};
use crate::units::{ANT_SPEED, ENEMY_SPEED};

verus! {

/// What an `Ant` stands for in contracts.
pub struct AntModel {
    pub name: Seq<char>,
    pub position: Point,
    pub half_extent: nat,
}

/// The player. Its half-extent is fixed when it is spawned; its heading is
/// worked out anew from the keys every frame and so is not stored.
#[derive(Clone, Debug, PartialEq, Eq)]
pub struct Ant {
    pub name: String,
    pub position: Position,
    pub half_extent: u32,
}

impl View for Ant {
    type V = AntModel;

    open spec fn view(&self) -> AntModel {
        AntModel {
            name: self.name@,
            position: self.position@,
            half_extent: self.half_extent as nat,
        }
    }
}

impl AntModel {
    /// The ant's arena bounds in the viewport.
    pub open spec fn bounds_in(self, viewport: Viewport) -> Region {
        viewport.bounds_of(self.half_extent as int)
    }

    /// The ant after following `d` at `ANT_SPEED` for `dt` microseconds.
    pub open spec fn advance(self, d: Direction, dt: int) -> AntModel {
        AntModel { position: self.position.advance(d, ANT_SPEED as int, dt), ..self }
    }

    /// The ant with its position clamped into the region.
    pub open spec fn confine(self, r: Region) -> AntModel {
        AntModel { position: self.position.confine(r), ..self }
    }

    /// The ant confined to its arena bounds in the viewport.
    pub open spec fn confine_in(self, viewport: Viewport) -> AntModel {
        self.confine(self.bounds_in(viewport))
    }
}

impl Ant {
    /// Moves the ant along `heading` at `ANT_SPEED` for `delta_micros`
    /// microseconds. Nothing else about it changes.
    pub fn advance(&mut self, heading: Heading, delta_micros: u32)
        requires
            old(self)@.advance(heading@, delta_micros as int).position.fits(),
        ensures
            final(self)@ == old(self)@.advance(heading@, delta_micros as int),
    {
        self.position = self.position.advance(heading, ANT_SPEED, delta_micros);
    }

    /// Clamps the ant into the bounds. Nothing else about it changes.
    pub fn confine(&mut self, bounds: &Bounds)
        ensures
            final(self)@ == old(self)@.confine(bounds@),
            bounds@.is_ordered() ==> bounds@.contains(final(self)@.position),
    {
        self.position = self.position.confine(bounds);
    }
}

/// What an `Enemy` stands for in contracts.
pub struct EnemyModel {
    pub direction: Direction,
    pub position: Point,
    pub half_extent: nat,
}

/// An enemy: it moves in a straight line along `direction` and is reflected
/// by the walls.
#[derive(Clone, Copy, Debug, PartialEq, Eq, Structural)]
pub struct Enemy {
    pub direction: Heading,
    pub position: Position,
    pub half_extent: u32,
}

impl View for Enemy {
    type V = EnemyModel;

    open spec fn view(&self) -> EnemyModel {
        EnemyModel {
            direction: self.direction@,
            position: self.position@,
            half_extent: self.half_extent as nat,
        }
    }
}

impl EnemyModel {
    /// The enemy's arena bounds in the viewport.
    pub open spec fn bounds_in(self, viewport: Viewport) -> Region {
        viewport.bounds_of(self.half_extent as int)
    }

    /// The enemy after following its direction at `ENEMY_SPEED` for `dt`
    /// microseconds.
    pub open spec fn advance(self, dt: int) -> EnemyModel {
        EnemyModel {
            position: self.position.advance(self.direction, ENEMY_SPEED as int, dt),
            ..self
        }
    }

    /// The enemy is strictly outside the region on at least one axis, so
    /// confinement reflects it.
    pub open spec fn bounces(self, r: Region) -> bool {
        self.position.escapes(r)
    }

    /// The enemy clamped into the region, with its direction reflected on
    /// each axis on which it had been strictly outside.
    pub open spec fn confine(self, r: Region) -> EnemyModel {
        EnemyModel {
            direction: self.direction.reflect(self.position, r),
            position: self.position.confine(r),
            ..self
        }
    }

    /// The enemy is strictly outside its arena bounds in the viewport.
    pub open spec fn bounces_in(self, viewport: Viewport) -> bool {
        self.bounces(self.bounds_in(viewport))
    }

    /// The enemy confined to its arena bounds in the viewport.
    pub open spec fn confine_in(self, viewport: Viewport) -> EnemyModel {
        self.confine(self.bounds_in(viewport))
    }
}

impl Enemy {
    /// Moves the enemy along its heading at `ENEMY_SPEED` for `delta_micros`
    /// microseconds. Nothing else about it changes.
    pub fn advance(&mut self, delta_micros: u32)
        requires
            old(self)@.advance(delta_micros as int).position.fits(),
        ensures
            final(self)@ == old(self)@.advance(delta_micros as int),
    {
        self.position = self.position.advance(self.direction, ENEMY_SPEED, delta_micros);
    }

    /// Clamps the enemy into the bounds and reflects its heading on each
    /// axis on which it had been strictly outside. Returns whether any axis
    /// was reflected: once, also where both were. No component of the
    /// heading may be `i32::MIN`, which has no negative; no component of a
    /// valid heading is.
    pub fn confine(&mut self, bounds: &Bounds) -> (bounced: bool)
        requires
            old(self).direction.x > i32::MIN,
            old(self).direction.y > i32::MIN,
        ensures
            final(self)@ == old(self)@.confine(bounds@),
            bounced == old(self)@.bounces(bounds@),
            final(self).direction@.is_valid() == old(self).direction@.is_valid(),
            bounds@.is_ordered() ==> bounds@.contains(final(self)@.position),
    {
        proof {
            lemma_reflect_keeps_valid(self.position@, self.direction@, bounds@);
        }
        let bounced = self.position.escapes(bounds);
        self.direction = self.direction.reflect(self.position, bounds);
        self.position = self.position.confine(bounds);
        bounced
    }
}

/// An enemy found left of the region with direction `(hx, hy)` is put on
/// the left edge with direction `(-hx, hy)`, or with `(-hx, -hy)` where it is
/// outside on the y axis as well. Either way it bounces, which is one fact
/// for the two axes together.
pub proof fn lemma_enemy_bounce_left(enemy: EnemyModel, r: Region)
    requires
        enemy.position.x < r.x_min,
    ensures
        enemy.confine(r).position.x == r.x_min,
        enemy.confine(r).direction.x == -enemy.direction.x,
        enemy.confine(r).direction.y == if is_outside(enemy.position.y, r.y_min, r.y_max) {
            -enemy.direction.y
        } else {
            enemy.direction.y
        },
        enemy.confine(r).half_extent == enemy.half_extent,
        enemy.bounces(r),
{
}

/// Confining an enemy twice gives what confining it once gives, whenever
/// the region is ordered: the second time it is inside and does not bounce.
pub proof fn lemma_enemy_confine_idempotent(enemy: EnemyModel, r: Region)
    requires
        r.is_ordered(),
    ensures
        enemy.confine(r).confine(r) == enemy.confine(r),
        !enemy.confine(r).bounces(r),
        r.contains(enemy.confine(r).position),
{
}

/// Confining the ant twice gives what confining it once gives, whenever the
/// region is ordered.
pub proof fn lemma_ant_confine_idempotent(ant: AntModel, r: Region)
    requires
        r.is_ordered(),
    ensures
        ant.confine(r).confine(r) == ant.confine(r),
        r.contains(ant.confine(r).position),
{
}

/// A food item. It takes no part in movement or collisions.
#[derive(Clone, Copy, Debug, PartialEq, Eq, Structural)]
pub struct Food {
    pub position: Position,
}

} // verus!
