//! Collision detection between bounding circles.

use vstd::prelude::*;
use crate::entities::{Ant, AntModel, Enemy, EnemyModel};
use crate::geometry::{Point, Position};

verus! {

/// Two circles overlap when their centres are closer than the sum of their
/// radii. The distance is compared by its square, which is exact: circles
/// that just touch do not overlap.
pub open spec fn overlaps(p: Point, p_radius: int, q: Point, q_radius: int) -> bool {
    p.dist_sq(q) < (p_radius + q_radius) * (p_radius + q_radius)
}

/// Circles whose centres are exactly the sum of their radii apart do not
/// overlap; circles whose centres are closer by any `gap` greater than zero
/// do. Here `distance` is the distance between the centres.
pub proof fn lemma_collision_boundary(
    p: Point,
    p_radius: nat,
    q: Point,
    q_radius: nat,
    distance: nat,
    gap: nat,
)
    requires
        p.dist_sq(q) == distance * distance,
    ensures
        distance == p_radius + q_radius ==> !overlaps(p, p_radius as int, q, q_radius as int),
        gap > 0 && distance + gap == p_radius + q_radius ==> overlaps(
            p,
            p_radius as int,
            q,
            q_radius as int,
        ),
        overlaps(p, p_radius as int, q, q_radius as int) <==> distance < p_radius + q_radius,
{
    let reach = p_radius + q_radius;
    if distance < reach {
        assert(distance * distance < reach * reach) by (nonlinear_arith)
            requires
                0 <= distance < reach,
        ;
    } else {
        assert(distance * distance >= reach * reach) by (nonlinear_arith)
            requires
                0 <= reach <= distance,
        ;
    }
}

/// Overlap does not depend on which circle is named first.
pub proof fn lemma_overlaps_symmetric(p: Point, p_radius: int, q: Point, q_radius: int)
    ensures
        overlaps(p, p_radius, q, q_radius) == overlaps(q, q_radius, p, p_radius),
{
    assert(p.dist_sq(q) == q.dist_sq(p)) by (nonlinear_arith)
        requires
            p.dist_sq(q) == (p.x - q.x) * (p.x - q.x) + (p.y - q.y) * (p.y - q.y),
            q.dist_sq(p) == (q.x - p.x) * (q.x - p.x) + (q.y - p.y) * (q.y - p.y),
    ;
}

/// Tells whether two circles overlap, for any two positions and radii.
pub fn circles_overlap(p: Position, p_radius: u32, q: Position, q_radius: u32) -> (hit: bool)
    ensures
        hit == overlaps(p@, p_radius as int, q@, q_radius as int),
{
    let reach: i128 = p_radius as i128 + q_radius as i128;
    let dx: i128 = p.x as i128 - q.x as i128;
    let dy: i128 = p.y as i128 - q.y as i128;
    if dx >= reach || dx <= -reach || dy >= reach || dy <= -reach {
        proof {
            assert(dx * dx + dy * dy >= reach * reach) by (nonlinear_arith)
                requires
                    0 <= reach,
                    dx >= reach || dx <= -reach || dy >= reach || dy <= -reach,
            ;
        }
        false
    } else {
        proof {
            assert(0 <= dx * dx < reach * reach && 0 <= dy * dy < reach * reach && reach * reach
                <= 0x2_0000_0000 * 0x2_0000_0000) by (nonlinear_arith)
                requires
                    -reach < dx < reach,
                    -reach < dy < reach,
                    reach <= 0x2_0000_0000,
            ;
        }
        dx * dx + dy * dy < reach * reach
    }
}

impl AntModel {
    /// The ant's circle overlaps the enemy's.
    pub open spec fn collides_with(self, enemy: EnemyModel) -> bool {
        overlaps(
            self.position,
            self.half_extent as int,
            enemy.position,
            enemy.half_extent as int,
        )
    }
}

/// The indices, in rising order, of those among the first `n` enemies whose
/// circle overlaps the ant's.
pub open spec fn collisions_among(player: AntModel, enemies: Seq<EnemyModel>, n: int) -> Seq<usize>
    decreases n,
{
    if n <= 0 {
        Seq::empty()
    } else if player.collides_with(enemies[n - 1]) {
        collisions_among(player, enemies, n - 1).push((n - 1) as usize)
    } else {
        collisions_among(player, enemies, n - 1)
    }
}

/// The indices, in rising order, of all enemies whose circle overlaps the
/// ant's.
pub open spec fn collisions(player: AntModel, enemies: Seq<EnemyModel>) -> Seq<usize> {
    collisions_among(player, enemies, enemies.len() as int)
}

/// `hits` holds the index of each of the first `n` enemies whose circle
/// overlaps the ant's, in rising order, and nothing else.
pub open spec fn lists_collisions(
    hits: Seq<usize>,
    player: AntModel,
    enemies: Seq<EnemyModel>,
    n: int,
) -> bool {
    &&& forall|k: int|
        0 <= k < hits.len() ==> 0 <= #[trigger] hits[k] < n && player.collides_with(
            enemies[hits[k] as int],
        )
    &&& forall|j: int, k: int| 0 <= j < k < hits.len() ==> hits[j] < hits[k]
    &&& forall|i: int|
        0 <= i < n && player.collides_with(#[trigger] enemies[i]) ==> hits.contains(i as usize)
}

/// `collisions_among` lists each overlapping enemy among the first `n`
/// once, in storage order, and lists no other.
pub proof fn lemma_collisions_among(player: AntModel, enemies: Seq<EnemyModel>, n: int)
    requires
        0 <= n <= enemies.len() <= usize::MAX,
    ensures
        lists_collisions(collisions_among(player, enemies, n), player, enemies, n),
    decreases n,
{
    if n > 0 {
        lemma_collisions_among(player, enemies, n - 1);
        let before = collisions_among(player, enemies, n - 1);
        let all = collisions_among(player, enemies, n);
        if player.collides_with(enemies[n - 1]) {
            assert(all[before.len() as int] == (n - 1) as usize);
            assert forall|i: int|
                0 <= i < n && player.collides_with(#[trigger] enemies[i]) implies all.contains(
                i as usize,
            ) by {
                if i < n - 1 {
                    let k = choose|k: int| 0 <= k < before.len() && before[k] == i as usize;
                    assert(all[k] == i as usize);
                }
            }
        }
    }
}

/// Some enemy overlaps the ant exactly when `collisions` is not empty; the
/// first entry is then the first such enemy in storage order.
pub proof fn lemma_collisions_nonempty(player: AntModel, enemies: Seq<EnemyModel>)
    requires
        enemies.len() <= usize::MAX,
    ensures
        collisions(player, enemies).len() > 0 <==> exists|i: int|
            0 <= i < enemies.len() && player.collides_with(#[trigger] enemies[i]),
        collisions(player, enemies).len() > 0 ==> forall|i: int|
            0 <= i < collisions(player, enemies)[0] ==> !player.collides_with(
                #[trigger] enemies[i],
            ),
{
    let hits = collisions(player, enemies);
    lemma_collisions_among(player, enemies, enemies.len() as int);
    if hits.len() > 0 {
        assert(player.collides_with(enemies[hits[0] as int]));
        assert forall|i: int| 0 <= i < hits[0] implies !player.collides_with(
            #[trigger] enemies[i],
        ) by {
            if player.collides_with(enemies[i]) {
                let k = choose|k: int| 0 <= k < hits.len() && hits[k] == i as usize;
                assert(k == 0 || hits[0] < hits[k]);
            }
        }
    }
}

/// What a list of enemies stands for in contracts.
pub open spec fn enemy_models(enemies: Seq<Enemy>) -> Seq<EnemyModel> {
    Seq::new(enemies.len(), |i: int| enemies[i]@)
}

/// Tests the ant's circle against every enemy's, in storage order, and
/// returns the indices of those that overlap it. No enemy is skipped after a
/// hit.
pub fn detect_collisions(player: &Ant, enemies: &Vec<Enemy>) -> (hits: Vec<usize>)
    ensures
        hits@ == collisions(player@, enemy_models(enemies@)),
{
    let mut hits: Vec<usize> = Vec::new();
    let mut i: usize = 0;
    while i < enemies.len()
        invariant
            i <= enemies.len(),
            hits@ == collisions_among(player@, enemy_models(enemies@), i as int),
        decreases enemies.len() - i,
    {
        let enemy = enemies[i];
        if circles_overlap(player.position, player.half_extent, enemy.position, enemy.half_extent) {
            hits.push(i);
        }
        i = i + 1;
    }
    hits
}

} // verus!
