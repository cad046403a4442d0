//! The world and the five steps that make up a frame.

use vstd::prelude::*;
use crate::collision::{collisions, detect_collisions, enemy_models, lemma_collisions_nonempty};
use crate::confinement::lemma_reflect_keeps_valid;
use crate::entities::{Ant, AntModel, Enemy, EnemyModel};
use crate::geometry::Viewport;
use crate::heading::lemma_valid_components;
use crate::kinematics::{lemma_advance_fits, DirectionKeys};
use crate::units::{ANT_SPEED, ENEMY_SPEED};

verus! {

/// What a frame tells the presentation layer.
#[derive(Clone, Copy, Debug, PartialEq, Eq, Structural)]
pub enum Signal {
    /// The enemy at this index of `World::enemies` was reflected by a wall.
    Bounced { enemy: usize },
    /// The player collided with an enemy.
    Died,
    /// The player has left the world: whatever stands for it outside is to
    /// be removed.
    PlayerRemoved,
}

/// Every signal of the sequence reports a bounce.
pub open spec fn only_bounces(signals: Seq<Signal>) -> bool {
    forall|k: int| 0 <= k < signals.len() ==> #[trigger] signals[k] is Bounced
}

/// What a `World` stands for in contracts.
pub struct WorldModel {
    pub player: Option<AntModel>,
    pub enemies: Seq<EnemyModel>,
}

/// The simulated world: the player while it is alive, and the enemies in
/// storage order. An enemy is known by its index, which never changes,
/// because no step adds or removes an enemy.
#[derive(Clone, Debug, PartialEq, Eq)]
pub struct World {
    pub player: Option<Ant>,
    pub enemies: Vec<Enemy>,
}

impl View for World {
    type V = WorldModel;

    open spec fn view(&self) -> WorldModel {
        WorldModel {
            player: match self.player {
                Some(ant) => Some(ant@),
                None => None,
            },
            enemies: enemy_models(self.enemies@),
        }
    }
}

impl WorldModel {
    /// The player, if there is one, is within `POSITION_LIMIT` of the origin.
    pub open spec fn player_in_range(self) -> bool {
        self.player matches Some(ant) ==> ant.position.in_range()
    }

    /// Every enemy is within `POSITION_LIMIT` of the origin.
    pub open spec fn enemies_in_range(self) -> bool {
        forall|i: int|
            0 <= i < self.enemies.len() ==> (#[trigger] self.enemies[i]).position.in_range()
    }

    /// Every enemy's direction is the zero vector or has unit length.
    pub open spec fn headings_valid(self) -> bool {
        forall|i: int|
            0 <= i < self.enemies.len() ==> (#[trigger] self.enemies[i]).direction.is_valid()
    }

    /// The state between frames: every entity is within `POSITION_LIMIT` of
    /// the origin and every stored direction is valid.
    pub open spec fn wf(self) -> bool {
        &&& self.player_in_range()
        &&& self.enemies_in_range()
        &&& self.headings_valid()
    }

    /// The player, if there is one and it fits into the viewport, lies
    /// within its arena bounds.
    pub open spec fn player_confined(self, viewport: Viewport) -> bool {
        self.player matches Some(ant) ==> {
            let r = ant.bounds_in(viewport);
            r.is_ordered() ==> r.contains(ant.position)
        }
    }

    /// Every enemy that fits into the viewport lies within its own arena
    /// bounds.
    pub open spec fn enemies_confined(self, viewport: Viewport) -> bool {
        forall|i: int|
            0 <= i < self.enemies.len() ==> {
                let r = (#[trigger] self.enemies[i]).bounds_in(viewport);
                r.is_ordered() ==> r.contains(self.enemies[i].position)
            }
    }

    /// Every entity that fits into the viewport lies within its own arena
    /// bounds.
    pub open spec fn confined(self, viewport: Viewport) -> bool {
        self.player_confined(viewport) && self.enemies_confined(viewport)
    }

    /// The world after the player, if there is one, followed the heading
    /// that the keys ask for during `dt` microseconds.
    pub open spec fn ant_movement(self, keys: DirectionKeys, dt: int) -> WorldModel {
        WorldModel {
            player: match self.player {
                Some(ant) => Some(ant.advance(keys.direction(), dt)),
                None => None,
            },
            ..self
        }
    }

    /// The world after the player, if there is one, was clamped into its
    /// arena bounds.
    pub open spec fn confine_ant_movement(self, viewport: Viewport) -> WorldModel {
        WorldModel {
            player: match self.player {
                Some(ant) => Some(ant.confine_in(viewport)),
                None => None,
            },
            ..self
        }
    }

    /// The world after every enemy followed its direction during `dt`
    /// microseconds.
    pub open spec fn enemy_movement(self, dt: int) -> WorldModel {
        WorldModel {
            enemies: Seq::new(self.enemies.len(), |i: int| self.enemies[i].advance(dt)),
            ..self
        }
    }

    /// The world after every enemy was clamped into its arena bounds and
    /// reflected where it had crossed them.
    pub open spec fn confine_enemy_movement(self, viewport: Viewport) -> WorldModel {
        WorldModel {
            enemies: Seq::new(self.enemies.len(), |i: int| self.enemies[i].confine_in(viewport)),
            ..self
        }
    }

    /// One `Bounced` signal, in storage order, for each of the first `n`
    /// enemies that is strictly outside its arena bounds.
    pub open spec fn bounce_signals_among(self, viewport: Viewport, n: int) -> Seq<Signal>
        decreases n,
    {
        if n <= 0 {
            Seq::empty()
        } else {
            let enemy = self.enemies[n - 1];
            let before = self.bounce_signals_among(viewport, n - 1);
            if enemy.bounces_in(viewport) {
                before.push(Signal::Bounced { enemy: (n - 1) as usize })
            } else {
                before
            }
        }
    }

    /// One `Bounced` signal, in storage order, for each enemy that is
    /// strictly outside its arena bounds.
    pub open spec fn bounce_signals(self, viewport: Viewport) -> Seq<Signal> {
        self.bounce_signals_among(viewport, self.enemies.len() as int)
    }

    /// What the collision detector reports: the indices, in storage order,
    /// of the enemies whose circle overlaps the player's. Without a player
    /// it reports nothing.
    pub open spec fn collisions(self) -> Seq<usize> {
        match self.player {
            Some(ant) => collisions(ant, self.enemies),
            None => Seq::empty(),
        }
    }

    /// There is a player, and its circle overlaps that of some enemy.
    pub open spec fn is_struck(self) -> bool {
        self.player matches Some(ant) && exists|i: int|
            0 <= i < self.enemies.len() && ant.collides_with(#[trigger] self.enemies[i])
    }

    /// The world after collisions were dealt with: a player that is struck
    /// is gone, and nothing else changes.
    pub open spec fn enemy_hit_player(self) -> WorldModel {
        if self.is_struck() {
            WorldModel { player: None, ..self }
        } else {
            self
        }
    }

    /// What is signalled when collisions are dealt with: the death and the
    /// removal of a player that is struck, each once however many enemies
    /// overlap it, and nothing otherwise.
    pub open spec fn death_signals(self) -> Seq<Signal> {
        if self.is_struck() {
            seq![Signal::Died, Signal::PlayerRemoved]
        } else {
            Seq::empty()
        }
    }

    /// The world as the enemies' confinement finds it during a frame: after
    /// the player moved and was confined and the enemies moved.
    pub open spec fn before_bounces(
        self,
        keys: DirectionKeys,
        viewport: Viewport,
        dt: int,
    ) -> WorldModel {
        self.ant_movement(keys, dt).confine_ant_movement(viewport).enemy_movement(dt)
    }

    /// The world after one frame. The steps run in this order: the player
    /// moves, the player is confined, the enemies move, the enemies are
    /// confined, collisions are dealt with.
    pub open spec fn update(self, keys: DirectionKeys, viewport: Viewport, dt: int) -> WorldModel {
        self.before_bounces(keys, viewport, dt).confine_enemy_movement(viewport).enemy_hit_player()
    }

    /// What one frame signals: the bounces in storage order, then the death
    /// and removal of the player if it was struck.
    pub open spec fn update_signals(
        self,
        keys: DirectionKeys,
        viewport: Viewport,
        dt: int,
    ) -> Seq<Signal> {
        let moved = self.before_bounces(keys, viewport, dt);
        moved.bounce_signals(viewport) + moved.confine_enemy_movement(viewport).death_signals()
    }
}

impl World {
    /// Tells whether the world is in the state that a frame starts from.
    pub fn is_well_formed(&self) -> (ok: bool)
        ensures
            ok == self@.wf(),
    {
        let player_ok = match &self.player {
            Some(ant) => ant.position.is_in_range(),
            None => true,
        };
        if !player_ok {
            return false;
        }
        let n = self.enemies.len();
        let mut i: usize = 0;
        while i < n
            invariant
                i <= n,
                n == self.enemies.len(),
                forall|j: int|
                    0 <= j < i ==> (#[trigger] self@.enemies[j]).position.in_range()
                        && self@.enemies[j].direction.is_valid(),
            decreases n - i,
        {
            let enemy = self.enemies[i];
            assert(self@.enemies[i as int] == enemy@);
            if !enemy.position.is_in_range() || !enemy.direction.is_valid() {
                return false;
            }
            i = i + 1;
        }
        true
    }

    /// Runs the collision detector: tests the player against every enemy,
    /// in storage order, and returns the indices of those that overlap it.
    /// Without a player it reports no collision.
    pub fn detect_collisions(&self) -> (hits: Vec<usize>)
        ensures
            hits@ == self@.collisions(),
            hits@.len() > 0 <==> self@.is_struck(),
    {
        match &self.player {
            Some(ant) => {
                proof {
                    assert(self.enemies@.len() == self.enemies.len());
                    lemma_collisions_nonempty(ant@, enemy_models(self.enemies@));
                }
                detect_collisions(ant, &self.enemies)
            },
            None => Vec::new(),
        }
    }
}

/// Moves the player along the heading that the held keys ask for. Without a
/// player nothing happens.
pub fn ant_movement(world: &mut World, keys: DirectionKeys, delta_micros: u32)
    requires
        old(world)@.player_in_range(),
    ensures
        final(world)@ == old(world)@.ant_movement(keys, delta_micros as int),
        final(world).enemies == old(world).enemies,
        old(world).player is None ==> final(world).player is None,
{
    let heading = keys.heading();
    match &mut world.player {
        Some(ant) => {
            proof {
                lemma_advance_fits(ant.position@, heading, ANT_SPEED, delta_micros);
            }
            ant.advance(heading, delta_micros);
        },
        None => {},
    }
}

/// Clamps the player into its arena bounds. Without a player nothing
/// happens.
pub fn confine_ant_movement(world: &mut World, viewport: Viewport)
    ensures
        final(world)@ == old(world)@.confine_ant_movement(viewport),
        final(world).enemies == old(world).enemies,
        old(world).player is None ==> final(world).player is None,
        final(world)@.player_in_range(),
        final(world)@.player_confined(viewport),
{
    match &mut world.player {
        Some(ant) => {
            let bounds = viewport.bounds(ant.half_extent);
            ant.confine(&bounds);
        },
        None => {},
    }
}

/// Moves every enemy along its own heading.
pub fn enemy_movement(world: &mut World, delta_micros: u32)
    requires
        old(world)@.enemies_in_range(),
    ensures
        final(world)@ == old(world)@.enemy_movement(delta_micros as int),
        final(world).enemies.len() == old(world).enemies.len(),
        final(world).player == old(world).player,
        old(world)@.headings_valid() ==> final(world)@.headings_valid(),
{
    let n = world.enemies.len();
    let mut i: usize = 0;
    while i < n
        invariant
            i <= n,
            n == world.enemies.len(),
            n == old(world).enemies.len(),
            world.player == old(world).player,
            old(world)@.enemies_in_range(),
            forall|j: int|
                0 <= j < i ==> (#[trigger] world.enemies@[j])@ == old(world).enemies@[j]@.advance(
                    delta_micros as int,
                ),
            forall|j: int| i <= j < n ==> #[trigger] world.enemies@[j] == old(world).enemies@[j],
        decreases n - i,
    {
        let mut enemy = world.enemies[i];
        proof {
            assert(old(world)@.enemies[i as int] == enemy@);
            lemma_advance_fits(enemy.position@, enemy.direction, ENEMY_SPEED, delta_micros);
        }
        enemy.advance(delta_micros);
        world.enemies.set(i, enemy);
        i = i + 1;
    }
    assert(world@.enemies =~= old(world)@.enemy_movement(delta_micros as int).enemies);
}

/// Clamps every enemy into its arena bounds, reflects the heading of each
/// on every axis on which it had crossed them, and reports each reflected
/// enemy once.
pub fn confine_enemy_movement(world: &mut World, viewport: Viewport) -> (signals: Vec<Signal>)
    requires
        old(world)@.headings_valid(),
    ensures
        final(world)@ == old(world)@.confine_enemy_movement(viewport),
        signals@ == old(world)@.bounce_signals(viewport),
        final(world)@.headings_valid(),
        final(world)@.enemies_in_range(),
        final(world)@.enemies_confined(viewport),
        final(world).enemies.len() == old(world).enemies.len(),
        final(world).player == old(world).player,
{
    let mut signals: Vec<Signal> = Vec::new();
    let n = world.enemies.len();
    let mut i: usize = 0;
    while i < n
        invariant
            i <= n,
            n == world.enemies.len(),
            n == old(world).enemies.len(),
            world.player == old(world).player,
            old(world)@.headings_valid(),
            forall|j: int|
                0 <= j < i ==> (#[trigger] world.enemies@[j])@
                    == old(world).enemies@[j]@.confine_in(viewport),
            forall|j: int| i <= j < n ==> #[trigger] world.enemies@[j] == old(world).enemies@[j],
            signals@ == old(world)@.bounce_signals_among(viewport, i as int),
        decreases n - i,
    {
        let mut enemy = world.enemies[i];
        let bounds = viewport.bounds(enemy.half_extent);
        proof {
            assert(old(world)@.enemies[i as int] == enemy@);
            lemma_valid_components(enemy.direction@);
        }
        if enemy.confine(&bounds) {
            signals.push(Signal::Bounced { enemy: i });
        }
        world.enemies.set(i, enemy);
        i = i + 1;
    }
    assert(world@.enemies =~= old(world)@.confine_enemy_movement(viewport).enemies);
    assert forall|j: int| 0 <= j < world@.enemies.len() implies {
        let r = (#[trigger] world@.enemies[j]).bounds_in(viewport);
        &&& world@.enemies[j].direction.is_valid()
        &&& world@.enemies[j].position.in_range()
        &&& r.is_ordered() ==> r.contains(world@.enemies[j].position)
    } by {
        let before = old(world)@.enemies[j];
        lemma_reflect_keeps_valid(
            before.position,
            before.direction,
            before.bounds_in(viewport),
        );
    }
    signals
}

/// Tests the player against every enemy and deals with the outcome: a player
/// that overlaps at least one enemy dies and leaves the world, which is
/// signalled once. Without a player nothing happens.
pub fn enemy_hit_player(world: &mut World) -> (signals: Vec<Signal>)
    ensures
        final(world)@ == old(world)@.enemy_hit_player(),
        signals@ == old(world)@.death_signals(),
        final(world).enemies == old(world).enemies,
        final(world).player is None || final(world).player == old(world).player,
        old(world).player is None ==> final(world).player is None && signals@.len() == 0,
{
    let hits = world.detect_collisions();
    let mut signals: Vec<Signal> = Vec::new();
    if hits.len() > 0 {
        world.player = None;
        signals.push(Signal::Died);
        signals.push(Signal::PlayerRemoved);
    }
    signals
}

/// Runs one frame: the player moves and is confined, the enemies move and
/// are confined, then collisions are dealt with. Returns the frame's signals
/// in the order in which they arose.
///
/// Between frames every entity that fits into the viewport lies within its
/// arena bounds, no enemy appears or disappears, and a player that is gone
/// stays gone: a world without a player signals bounces only.
pub fn update(
    world: &mut World,
    keys: DirectionKeys,
    viewport: Viewport,
    delta_micros: u32,
) -> (signals: Vec<Signal>)
    requires
        old(world)@.wf(),
    ensures
        final(world)@ == old(world)@.update(keys, viewport, delta_micros as int),
        signals@ == old(world)@.update_signals(keys, viewport, delta_micros as int),
        final(world)@.wf(),
        final(world)@.confined(viewport),
        final(world).enemies.len() == old(world).enemies.len(),
        old(world).player is None ==> final(world).player is None && only_bounces(signals@),
{
    ant_movement(world, keys, delta_micros);
    confine_ant_movement(world, viewport);
    enemy_movement(world, delta_micros);
    proof {
        lemma_bounce_signals_are_bounces(world@, viewport, world@.enemies.len() as int);
    }
    let mut signals = confine_enemy_movement(world, viewport);
    let mut deaths = enemy_hit_player(world);
    signals.append(&mut deaths);
    signals
}

/// Runs one frame if the world is well-formed, and otherwise leaves the
/// world as it is and returns nothing. It is `update` for a caller that
/// cannot tell in advance whether the world is well-formed.
pub fn try_update(
    world: &mut World,
    keys: DirectionKeys,
    viewport: Viewport,
    delta_micros: u32,
) -> (outcome: Option<Vec<Signal>>)
    ensures
        outcome is Some <==> old(world)@.wf(),
        outcome matches Some(signals) ==> {
            &&& final(world)@ == old(world)@.update(keys, viewport, delta_micros as int)
            &&& signals@ == old(world)@.update_signals(keys, viewport, delta_micros as int)
            &&& final(world)@.wf()
            &&& final(world)@.confined(viewport)
        },
        outcome is None ==> *final(world) == *old(world),
{
    if world.is_well_formed() {
        Some(update(world, keys, viewport, delta_micros))
    } else {
        None
    }
}

/// Once the player is gone it stays gone: a frame run on a world without a
/// player leaves it without one, whatever keys are held, and signals
/// nothing but bounces.
pub proof fn lemma_dead_stays_dead(
    w: WorldModel,
    keys: DirectionKeys,
    other_keys: DirectionKeys,
    viewport: Viewport,
    dt: int,
)
    requires
        w.player is None,
    ensures
        w.update(keys, viewport, dt).player is None,
        w.update(keys, viewport, dt) == w.update(other_keys, viewport, dt),
        only_bounces(w.update_signals(keys, viewport, dt)),
        !w.update_signals(keys, viewport, dt).contains(Signal::Died),
        !w.update_signals(keys, viewport, dt).contains(Signal::PlayerRemoved),
{
    let moved = w.before_bounces(keys, viewport, dt);
    lemma_bounce_signals_are_bounces(moved, viewport, moved.enemies.len() as int);
}

/// A frame never brings a player back, never renames or resizes the one
/// there is, and neither adds, removes nor resizes an enemy. The player is
/// gone after the frame exactly if it was gone before or was struck during
/// the frame, and its death is then signalled once.
pub proof fn lemma_update_keeps_population(
    w: WorldModel,
    keys: DirectionKeys,
    viewport: Viewport,
    dt: int,
)
    ensures
        w.update(keys, viewport, dt).enemies.len() == w.enemies.len(),
        forall|i: int|
            0 <= i < w.enemies.len() ==> (#[trigger] w.update(
                keys,
                viewport,
                dt,
            ).enemies[i]).half_extent == w.enemies[i].half_extent,
        w.update(keys, viewport, dt).player matches Some(after) ==> w.player matches Some(before)
            && after.name == before.name && after.half_extent == before.half_extent,
        w.update(keys, viewport, dt).player is None <==> w.player is None || w.before_bounces(
            keys,
            viewport,
            dt,
        ).confine_enemy_movement(viewport).is_struck(),
{
}

/// After a frame the world is well-formed and every entity that fits into
/// the viewport lies within its own arena bounds, wherever the entities
/// were before, as long as the directions were valid. Half-extents are
/// taken to fit in 32 bits, as those of every stored entity do.
pub proof fn lemma_update_keeps_wf(
    w: WorldModel,
    keys: DirectionKeys,
    viewport: Viewport,
    dt: int,
)
    requires
        w.headings_valid(),
        w.player matches Some(ant) ==> ant.half_extent <= u32::MAX,
        forall|i: int|
            0 <= i < w.enemies.len() ==> (#[trigger] w.enemies[i]).half_extent <= u32::MAX,
    ensures
        w.update(keys, viewport, dt).wf(),
        w.update(keys, viewport, dt).confined(viewport),
{
    let after = w.update(keys, viewport, dt);
    let moved = w.before_bounces(keys, viewport, dt);
    assert forall|i: int| 0 <= i < after.enemies.len() implies {
        let r = (#[trigger] after.enemies[i]).bounds_in(viewport);
        &&& after.enemies[i].position.in_range()
        &&& after.enemies[i].direction.is_valid()
        &&& r.is_ordered() ==> r.contains(after.enemies[i].position)
    } by {
        lemma_reflect_keeps_valid(
            moved.enemies[i].position,
            moved.enemies[i].direction,
            moved.enemies[i].bounds_in(viewport),
        );
    }
}

proof fn lemma_bounce_signals_are_bounces(w: WorldModel, viewport: Viewport, n: int)
    ensures
        only_bounces(w.bounce_signals_among(viewport, n)),
    decreases n,
{
    if n > 0 {
        lemma_bounce_signals_are_bounces(w, viewport, n - 1);
    }
}

/// `signals` holds one `Bounced` signal for each of the first `n` enemies
/// that is strictly outside its arena bounds, in storage order, and nothing
/// else.
pub open spec fn lists_bounces(
    signals: Seq<Signal>,
    w: WorldModel,
    viewport: Viewport,
    n: int,
) -> bool {
    &&& only_bounces(signals)
    &&& forall|k: int|
        0 <= k < signals.len() ==> {
            let i = (#[trigger] signals[k])->enemy;
            0 <= i < n && w.enemies[i as int].bounces_in(viewport)
        }
    &&& forall|j: int, k: int|
        0 <= j < k < signals.len() ==> signals[j]->enemy < signals[k]->enemy
    &&& forall|i: int|
        0 <= i < n && (#[trigger] w.enemies[i]).bounces_in(viewport) ==> signals.contains(
            Signal::Bounced { enemy: i as usize },
        )
}

/// `bounce_signals` names each enemy that is strictly outside its arena
/// bounds once, names no other, and names them in storage order. An enemy
/// that is outside on both axes is thus named once, not twice.
pub proof fn lemma_bounce_signals(w: WorldModel, viewport: Viewport)
    requires
        w.enemies.len() <= usize::MAX,
    ensures
        lists_bounces(w.bounce_signals(viewport), w, viewport, w.enemies.len() as int),
        w.bounce_signals(viewport).no_duplicates(),
{
    lemma_bounce_signals_among(w, viewport, w.enemies.len() as int);
}

proof fn lemma_bounce_signals_among(w: WorldModel, viewport: Viewport, n: int)
    requires
        0 <= n <= w.enemies.len() <= usize::MAX,
    ensures
        lists_bounces(w.bounce_signals_among(viewport, n), w, viewport, n),
    decreases n,
{
    if n > 0 {
        lemma_bounce_signals_among(w, viewport, n - 1);
        let before = w.bounce_signals_among(viewport, n - 1);
        let all = w.bounce_signals_among(viewport, n);
        let last = Signal::Bounced { enemy: (n - 1) as usize };
        if w.enemies[n - 1].bounces_in(viewport) {
            assert(all[before.len() as int] == last);
            assert forall|i: int|
                0 <= i < n && (#[trigger] w.enemies[i]).bounces_in(viewport) implies all.contains(
                Signal::Bounced { enemy: i as usize },
            ) by {
                if i < n - 1 {
                    let k = choose|k: int|
                        0 <= k < before.len() && before[k] == Signal::Bounced { enemy: i as usize };
                    assert(all[k] == Signal::Bounced { enemy: i as usize });
                }
            }
        }
    }
}

} // verus!
