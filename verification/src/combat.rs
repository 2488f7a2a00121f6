//! The combat resolver's model: axis-aligned bounding-box overlap, and
//! the per-tick pass that evaluates every attacker against the enemies in
//! store order. The first live enemy an attacker overlaps consumes the
//! attacker and takes its damage; an enemy whose health drops to zero or
//! below is removed at once, so a later attacker in the same tick finds
//! no target there. A final sweep removes any remaining enemy whose
//! health is zero or below.

use vstd::prelude::*;

verus! {

use crate::actor::{half_extent_of, Actor, CombatStats, Role};

/// Distance between two coordinates.
pub open spec fn dist(a: int, b: int) -> int {
    if a >= b {
        a - b
    } else {
        b - a
    }
}

/// Axis-aligned bounding-box overlap: boxes centered at the two actors'
/// positions, each with the half extent its role fixes, overlap exactly
/// when the centers are within the summed half extents on both axes.
pub open spec fn overlaps(a: Actor, b: Actor) -> bool {
    let reach = half_extent_of(a.role) + half_extent_of(b.role);
    dist(a.x as int, b.x as int) <= reach && dist(a.y as int, b.y as int) <= reach
}

/// Boolean AABB hit test between two actors.
pub fn aabb_overlaps(a: &Actor, b: &Actor) -> (r: bool)
    ensures
        r == overlaps(*a, *b),
{
    let reach: i128 = (a.half_extent() as i128) + (b.half_extent() as i128);
    let dx: i128 = (a.x as i128) - (b.x as i128);
    let dx: i128 = if dx < 0 {
        -dx
    } else {
        dx
    };
    let dy: i128 = (a.y as i128) - (b.y as i128);
    let dy: i128 = if dy < 0 {
        -dy
    } else {
        dy
    };
    dx <= reach && dy <= reach
}

/// The combat pass's working state: the actors (only enemy health ever
/// changes), a removal mark per actor, and the identifiers removed so
/// far, in removal order.
pub struct CombatState {
    pub actors: Seq<Actor>,
    pub flags: Seq<bool>,
    pub removed: Seq<u64>,
}

/// An attacker still in play: unmarked, attacker role, carrying combat
/// data.
pub open spec fn live_attacker(actors: Seq<Actor>, flags: Seq<bool>, i: int) -> bool {
    &&& 0 <= i < actors.len()
    &&& !flags[i]
    &&& actors[i].role == Role::Attacker
    &&& actors[i].combat is Some
}

/// An enemy still in play: unmarked, enemy role, carrying combat data.
pub open spec fn live_enemy(actors: Seq<Actor>, flags: Seq<bool>, j: int) -> bool {
    &&& 0 <= j < actors.len()
    &&& !flags[j]
    &&& actors[j].role == Role::Enemy
    &&& actors[j].combat is Some
}

/// The first live enemy at index `j` or later that attacker `i` overlaps,
/// if any: pair order is store order.
pub open spec fn target_of(actors: Seq<Actor>, flags: Seq<bool>, i: int, j: int) -> Option<int>
    decreases actors.len() - j,
{
    if j < 0 || j >= actors.len() {
        None
    } else if live_enemy(actors, flags, j) && overlaps(actors[i], actors[j]) {
        Some(j)
    } else {
        target_of(actors, flags, i, j + 1)
    }
}

/// One hit: enemy `j` takes attacker `i`'s damage, the attacker is
/// consumed (marked and recorded), and the enemy is removed at once if
/// its health dropped to zero or below.
pub open spec fn hit(s: CombatState, i: int, j: int) -> CombatState {
    let atk = s.actors[i];
    let en = s.actors[j];
    let new_health = (crate::actor::health_of(en) - crate::actor::damage_of(atk)) as i64;
    let struck = (Actor {
        combat: Some(CombatStats { health: new_health, damage: crate::actor::damage_of(en) as i64 }),
        ..en
    });
    let s1 = CombatState {
        actors: s.actors.update(j, struck),
        flags: s.flags.update(i, true),
        removed: s.removed.push(atk.id),
    };
    if new_health <= 0 {
        CombatState {
            flags: s1.flags.update(j, true),
            removed: s1.removed.push(en.id),
            ..s1
        }
    } else {
        s1
    }
}

/// Evaluate attacker `i`: its first live overlapping enemy, if any, takes
/// the hit; an actor that is not a live attacker changes nothing.
pub open spec fn attacker_step(s: CombatState, i: int) -> CombatState {
    if live_attacker(s.actors, s.flags, i) {
        match target_of(s.actors, s.flags, i, 0) {
            Some(j) => hit(s, i, j),
            None => s,
        }
    } else {
        s
    }
}

/// Evaluate the attackers from index `i` up, in store order.
pub open spec fn attackers_from(s: CombatState, i: int) -> CombatState
    decreases s.actors.len() - i,
    via attackers_from_decreases
{
    if i < 0 || i >= s.actors.len() {
        s
    } else {
        attackers_from(attacker_step(s, i), i + 1)
    }
}

#[via_fn]
proof fn attackers_from_decreases(s: CombatState, i: int) {
    if 0 <= i < s.actors.len() {
        lemma_target_in_range(s.actors, s.flags, i, 0);
        assert(attacker_step(s, i).actors.len() == s.actors.len());
    }
}

/// A target the search finds is a live enemy the attacker overlaps, and
/// no earlier candidate is; a search that finds none leaves no candidate
/// behind.
pub proof fn lemma_target_in_range(actors: Seq<Actor>, flags: Seq<bool>, i: int, j: int)
    requires
        j >= 0,
    ensures
        target_of(actors, flags, i, j) matches Some(t) ==> j <= t < actors.len() && live_enemy(
            actors,
            flags,
            t,
        ) && overlaps(actors[i], actors[t]),
        target_of(actors, flags, i, j) is None ==> forall|k: int|
            j <= k < actors.len() ==> !(live_enemy(actors, flags, k) && overlaps(
                actors[i],
                #[trigger] actors[k],
            )),
    decreases actors.len() - j,
{
    if j < 0 || j >= actors.len() {
    } else if live_enemy(actors, flags, j) && overlaps(actors[i], actors[j]) {
    } else {
        lemma_target_in_range(actors, flags, i, j + 1);
        if target_of(actors, flags, i, j) is None {
            assert forall|k: int|
                j <= k < actors.len() implies !(live_enemy(actors, flags, k) && overlaps(
                actors[i],
                #[trigger] actors[k],
            )) by {
                if k > j {
                    assert(!(live_enemy(actors, flags, k) && overlaps(actors[i], actors[k])));
                }
            }
        }
    }
}

/// Mark every remaining live enemy whose health is zero or below,
/// from index `j` up, recording each identifier.
pub open spec fn sweep_from(s: CombatState, j: int) -> CombatState
    decreases s.actors.len() - j,
{
    if j < 0 || j >= s.actors.len() {
        s
    } else {
        let s1 = if live_enemy(s.actors, s.flags, j) && crate::actor::health_of(s.actors[j])
            <= 0 {
            CombatState {
                flags: s.flags.update(j, true),
                removed: s.removed.push(s.actors[j].id),
                ..s
            }
        } else {
            s
        };
        sweep_from(s1, j + 1)
    }
}

/// The unmarked actors among the first `k`, in store order.
pub open spec fn kept_prefix(s: CombatState, k: int) -> Seq<Actor>
    decreases k,
{
    if k <= 0 {
        Seq::empty()
    } else if s.flags[k - 1] {
        kept_prefix(s, k - 1)
    } else {
        kept_prefix(s, k - 1).push(s.actors[k - 1])
    }
}

/// The combat pass's starting state: nothing marked, nothing removed.
pub open spec fn initial_state(actors: Seq<Actor>) -> CombatState {
    CombatState {
        actors,
        flags: Seq::new(actors.len(), |i: int| false),
        removed: Seq::empty(),
    }
}

/// The state after the whole pass: every attacker evaluated in order,
/// then the sweep of dead enemies.
pub open spec fn resolved_state(actors: Seq<Actor>) -> CombatState {
    sweep_from(attackers_from(initial_state(actors), 0), 0)
}

/// The actors the combat pass leaves in the store, in order.
pub open spec fn surviving_actors(actors: Seq<Actor>) -> Seq<Actor> {
    let s = resolved_state(actors);
    kept_prefix(s, s.actors.len() as int)
}

/// The identifiers the combat pass removes, in removal order: each
/// consumed attacker, each enemy killed by its hit, then the swept
/// enemies in store order.
pub open spec fn removed_ids(actors: Seq<Actor>) -> Seq<u64> {
    resolved_state(actors).removed
}

/// What the combat pass leaves untouched of an actor: everything but an
/// enemy's health.
pub open spec fn same_but_health(a: Actor, b: Actor) -> bool {
    &&& b.id == a.id
    &&& b.x == a.x
    &&& b.y == a.y
    &&& b.velocity == a.velocity
    &&& b.role == a.role
    &&& b.animation == a.animation
    &&& (b.combat is Some <==> a.combat is Some)
    &&& crate::actor::damage_of(b) == crate::actor::damage_of(a)
    &&& (a.role != Role::Enemy ==> b.combat == a.combat)
}

/// No enemy in the sequence has health zero or below.
pub open spec fn no_dead_enemies(s: Seq<Actor>) -> bool {
    forall|k: int|
        0 <= k < s.len() ==> ((#[trigger] s[k]).role == Role::Enemy && s[k].combat is Some
            ==> crate::actor::health_of(s[k]) > 0)
}

} // verus!
