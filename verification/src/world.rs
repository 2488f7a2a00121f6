//! The actor store and the per-tick update. The store owns every live
//! actor, keyed by a stable identifier; removal releases the slot
//! entirely, so a later lookup of the identifier finds nothing.

use vstd::prelude::*;

verus! {

use crate::actor::{damage_of, health_of, Actor, CombatStats, Role, SpawnError};
use crate::combat::{
    aabb_overlaps, attacker_step, attackers_from, hit, initial_state, kept_prefix, live_attacker,
    live_enemy, no_dead_enemies, overlaps, removed_ids, resolved_state, surviving_actors,
    same_but_health, sweep_from, target_of, CombatState,
};
use crate::motion::moved_x;

/// The combat pass's working state assembled from the resolver's pieces.
spec fn combat_now(actors: Seq<Actor>, flags: Seq<bool>, removed: Seq<u64>) -> CombatState {
    CombatState { actors, flags, removed }
}

/// The actor after the animation driver's update: its animation, if it
/// has one, advanced by the tick's delta; anything else untouched.
pub open spec fn animate_actor(a: Actor, dt_micros: u64) -> Actor {
    match a.animation {
        Some(st) => Actor { animation: Some(st.advanced(dt_micros)), ..a },
        None => a,
    }
}

/// The store after the animation driver's pass.
pub open spec fn animated_actors(s: Seq<Actor>, dt_micros: u64) -> Seq<Actor> {
    Seq::new(s.len(), |k: int| animate_actor(s[k], dt_micros))
}

/// The actor after the motion integrator's update: `velocity * dt` added
/// to its horizontal position; the vertical axis untouched.
pub open spec fn move_actor(a: Actor, dt_micros: u64) -> Actor {
    Actor { x: moved_x(a.x, a.velocity, dt_micros) as i64, ..a }
}

/// The store after the motion integrator's pass.
pub open spec fn moved_actors(s: Seq<Actor>, dt_micros: u64) -> Seq<Actor> {
    Seq::new(s.len(), |k: int| move_actor(s[k], dt_micros))
}

/// Machine limit on a tick: no animation timer may overflow its
/// accumulator.
pub open spec fn anim_fits(s: Seq<Actor>, dt_micros: u64) -> bool {
    forall|k: int|
        0 <= k < s.len() ==> ((#[trigger] s[k]).animation matches Some(st) ==> st.elapsed_micros
            + dt_micros <= u64::MAX)
}

/// Machine limit on a tick: every moved position must fit its type.
pub open spec fn motion_fits(s: Seq<Actor>, dt_micros: u64) -> bool {
    forall|k: int|
        0 <= k < s.len() ==> i64::MIN <= moved_x(
            (#[trigger] s[k]).x,
            s[k].velocity,
            dt_micros,
        ) <= i64::MAX
}

/// Some actor in the sequence carries the identifier.
pub open spec fn contains_id(s: Seq<Actor>, id: u64) -> bool {
    exists|k: int| 0 <= k < s.len() && (#[trigger] s[k]).id == id
}

/// The index of the actor carrying the identifier (under unique
/// identifiers there is at most one).
pub open spec fn index_of_id(s: Seq<Actor>, id: u64) -> int {
    choose|k: int| 0 <= k < s.len() && (#[trigger] s[k]).id == id
}

/// The sequence with the first actor carrying the identifier taken out,
/// or the sequence itself where none does.
pub open spec fn remove_id(s: Seq<Actor>, id: u64) -> Seq<Actor>
    decreases s.len(),
{
    if s.len() == 0 {
        s
    } else if s[0].id == id {
        s.drop_first()
    } else {
        seq![s[0]] + remove_id(s.drop_first(), id)
    }
}

/// No two actors share an identifier.
pub open spec fn unique_ids(s: Seq<Actor>) -> bool {
    forall|i: int, j: int|
        0 <= i < j < s.len() ==> (#[trigger] s[i]).id != (#[trigger] s[j]).id
}

/// Every actor in the sequence is well formed.
pub open spec fn all_valid(s: Seq<Actor>) -> bool {
    forall|k: int| 0 <= k < s.len() ==> (#[trigger] s[k]).valid()
}

/// Removing an identifier that no actor carries changes nothing.
pub proof fn lemma_remove_absent(s: Seq<Actor>, id: u64)
    requires
        !contains_id(s, id),
    ensures
        remove_id(s, id) == s,
    decreases s.len(),
{
    if s.len() > 0 {
        assert(s[0].id != id);
        assert(!contains_id(s.drop_first(), id)) by {
            assert forall|k: int|
                0 <= k < s.drop_first().len() implies (#[trigger] s.drop_first()[k]).id
                != id by {
                assert(s.drop_first()[k] == s[k + 1]);
            }
        }
        lemma_remove_absent(s.drop_first(), id);
        assert(seq![s[0]] + s.drop_first() =~= s);
    }
}

/// After an identifier is removed from a store with unique identifiers,
/// no actor carries it any more.
pub proof fn lemma_remove_id_absent_after(s: Seq<Actor>, id: u64)
    requires
        unique_ids(s),
    ensures
        !contains_id(remove_id(s, id), id),
    decreases s.len(),
{
    if s.len() > 0 {
        let rest = s.drop_first();
        assert(forall|k: int| 0 <= k < rest.len() ==> rest[k] == s[k + 1]);
        if s[0].id == id {
            assert forall|k: int|
                0 <= k < rest.len() implies (#[trigger] rest[k]).id != id by {
                assert(rest[k] == s[k + 1]);
            }
        } else {
            assert(unique_ids(rest));
            lemma_remove_id_absent_after(rest, id);
            let r = seq![s[0]] + remove_id(rest, id);
            assert forall|k: int| 0 <= k < r.len() implies (#[trigger] r[k]).id != id by {
                if k == 0 {
                    assert(r[0] == s[0]);
                } else {
                    assert(r[k] == remove_id(rest, id)[k - 1]);
                }
            }
        }
    }
}

/// Idempotent removal law: under unique identifiers, removing the same
/// identifier twice is the same as removing it once; the second removal
/// is a no-op, never a fault.
pub proof fn lemma_remove_idempotent(s: Seq<Actor>, id: u64)
    requires
        unique_ids(s),
    ensures
        remove_id(remove_id(s, id), id) == remove_id(s, id),
{
    lemma_remove_id_absent_after(s, id);
    lemma_remove_absent(remove_id(s, id), id);
}

/// The shared actor store: the single mutable resource of the
/// simulation. Its view is the sequence of live actors in store order.
pub struct World {
    actors: Vec<Actor>,
}

impl View for World {
    type V = Seq<Actor>;

    closed spec fn view(&self) -> Seq<Actor> {
        self.actors@
    }
}

impl World {
    /// Well-formedness: identifiers are unique and every actor is well
    /// formed. Constructors establish it; every tick preserves it.
    pub open spec fn wf(&self) -> bool {
        unique_ids(self@) && all_valid(self@)
    }

    /// An empty store.
    pub fn new() -> (w: World)
        ensures
            w@ == Seq::<Actor>::empty(),
            w.wf(),
    {
        World { actors: Vec::new() }
    }

    /// How many actors are live.
    pub fn len(&self) -> (n: usize)
        ensures
            n == self@.len(),
    {
        self.actors.len()
    }

    /// The actor at a store index, for enumeration by a presentation
    /// layer.
    pub fn get(&self, k: usize) -> (r: Option<&Actor>)
        ensures
            match r {
                Some(a) => k < self@.len() && *a == self@[k as int],
                None => k >= self@.len(),
            },
    {
        if k < self.actors.len() {
            Some(&self.actors[k])
        } else {
            None
        }
    }

    /// Whether an actor with the identifier is live.
    pub fn contains(&self, id: u64) -> (r: bool)
        ensures
            r == contains_id(self@, id),
    {
        let n = self.actors.len();
        let mut k: usize = 0;
        while k < n
            invariant
                k <= n,
                n == self@.len(),
                forall|m: int| 0 <= m < k ==> (#[trigger] self@[m]).id != id,
            decreases n - k,
        {
            if self.actors[k].id == id {
                return true;
            }
            k = k + 1;
        }
        false
    }

    /// Look an actor up by identifier. After removal the identifier is
    /// simply not found; there is no stale handle.
    pub fn lookup(&self, id: u64) -> (r: Option<&Actor>)
        requires
            self.wf(),
        ensures
            match r {
                Some(a) => contains_id(self@, id) && a.id == id && *a == self@[index_of_id(
                    self@,
                    id,
                )],
                None => !contains_id(self@, id),
            },
    {
        let n = self.actors.len();
        let mut k: usize = 0;
        while k < n
            invariant
                k <= n,
                n == self@.len(),
                self.wf(),
                forall|m: int| 0 <= m < k ==> (#[trigger] self@[m]).id != id,
            decreases n - k,
        {
            if self.actors[k].id == id {
                proof {
                    assert(contains_id(self@, id));
                    let ci = index_of_id(self@, id);
                    assert(0 <= ci < self@.len() && self@[ci].id == id);
                    assert(ci == k as int);
                }
                return Some(&self.actors[k]);
            }
            k = k + 1;
        }
        None
    }

    /// Insert an actor. A well-formed actor with a fresh identifier is
    /// appended; a duplicate identifier is rejected, and the store is
    /// unchanged.
    pub fn insert(&mut self, actor: Actor) -> (r: Result<(), SpawnError>)
        requires
            old(self).wf(),
            actor.valid(),
        ensures
            contains_id(old(self)@, actor.id) ==> r == Err::<(), SpawnError>(
                SpawnError::DuplicateId,
            ) && *final(self) == *old(self),
            !contains_id(old(self)@, actor.id) ==> r == Ok::<(), SpawnError>(()) && final(self)@
                == old(self)@.push(actor),
            final(self).wf(),
    {
        if self.contains(actor.id) {
            Err(SpawnError::DuplicateId)
        } else {
            self.actors.push(actor);
            proof {
                assert forall|i: int, j: int|
                    0 <= i < j < self@.len() implies (#[trigger] self@[i]).id != (
                #[trigger] self@[j]).id by {
                    if j < self@.len() - 1 {
                        assert(self@[i] == old(self)@[i]);
                        assert(self@[j] == old(self)@[j]);
                    } else {
                        assert(self@[j] == actor);
                        assert(self@[i] == old(self)@[i]);
                        assert(contains_id(old(self)@, actor.id) || old(self)@[i].id != actor.id);
                    }
                }
                assert(all_valid(self@)) by {
                    assert(forall|k: int|
                        0 <= k < self@.len() - 1 ==> self@[k] == old(self)@[k]);
                }
            }
            Ok(())
        }
    }

    /// Remove the actor carrying the identifier, if any. Removing an
    /// identifier that is not live is a no-op, never a fault, so removal
    /// is idempotent.
    pub fn remove(&mut self, id: u64) -> (removed: bool)
        requires
            old(self).wf(),
        ensures
            removed == contains_id(old(self)@, id),
            final(self)@ == remove_id(old(self)@, id),
            !contains_id(final(self)@, id),
            final(self).wf(),
    {
        let n = self.actors.len();
        let mut k: usize = 0;
        while k < n
            invariant
                k <= n,
                n == self@.len(),
                *self == *old(self),
                old(self).wf(),
                forall|m: int| 0 <= m < k ==> (#[trigger] self@[m]).id != id,
            decreases n - k,
        {
            if self.actors[k].id == id {
                self.actors.remove(k);
                proof {
                    lemma_remove_id_first_hit(old(self)@, id, k as int);
                    lemma_remove_id_absent_after(old(self)@, id);
                    assert(unique_ids(self@)) by {
                        assert(forall|m: int|
                            0 <= m < k ==> self@[m] == old(self)@[m]);
                        assert(forall|m: int|
                            k <= m < self@.len() ==> self@[m] == old(self)@[m + 1]);
                    }
                    assert(all_valid(self@)) by {
                        assert(forall|m: int|
                            0 <= m < k ==> self@[m] == old(self)@[m]);
                        assert(forall|m: int|
                            k <= m < self@.len() ==> self@[m] == old(self)@[m + 1]);
                    }
                }
                return true;
            }
            k = k + 1;
        }
        proof {
            lemma_remove_absent(self@, id);
        }
        false
    }

    /// The animation driver's pass: advance every animated actor's timer
    /// by the tick's delta and step its frame once per elapsed period.
    /// Actors without animation data are skipped; it never fails.
    pub fn animate_all(&mut self, dt_micros: u64)
        requires
            old(self).wf(),
            anim_fits(old(self)@, dt_micros),
        ensures
            final(self)@ == animated_actors(old(self)@, dt_micros),
            final(self).wf(),
    {
        let n = self.actors.len();
        let mut k: usize = 0;
        while k < n
            invariant
                k <= n,
                n == self@.len(),
                n == old(self)@.len(),
                old(self).wf(),
                anim_fits(old(self)@, dt_micros),
                forall|m: int|
                    0 <= m < k ==> self@[m] == animate_actor(old(self)@[m], dt_micros),
                forall|m: int| 0 <= m < k ==> (#[trigger] self@[m]).valid(),
                forall|m: int| k <= m < n ==> self@[m] == old(self)@[m],
            decreases n - k,
        {
            let a = self.actors[k];
            proof {
                assert(a == old(self)@[k as int]);
                assert(a.valid());
            }
            match a.animation {
                Some(st) => {
                    let mut advanced_st = st;
                    advanced_st.advance(dt_micros);
                    self.actors.set(k, Actor { animation: Some(advanced_st), ..a });
                },
                None => {},
            }
            k = k + 1;
        }
        proof {
            assert(self@ =~= animated_actors(old(self)@, dt_micros));
            assert(unique_ids(self@)) by {
                assert(forall|m: int|
                    0 <= m < n ==> (#[trigger] self@[m]).id == old(self)@[m].id);
            }
        }
    }

    /// The motion integrator's pass: add `velocity * dt` to every actor's
    /// horizontal position. Pure and total over well-formed input; the
    /// vertical axis is untouched.
    pub fn integrate_all(&mut self, dt_micros: u64)
        requires
            old(self).wf(),
            motion_fits(old(self)@, dt_micros),
        ensures
            final(self)@ == moved_actors(old(self)@, dt_micros),
            final(self).wf(),
    {
        let n = self.actors.len();
        let mut k: usize = 0;
        while k < n
            invariant
                k <= n,
                n == self@.len(),
                n == old(self)@.len(),
                old(self).wf(),
                motion_fits(old(self)@, dt_micros),
                forall|m: int| 0 <= m < k ==> self@[m] == move_actor(old(self)@[m], dt_micros),
                forall|m: int| k <= m < n ==> self@[m] == old(self)@[m],
            decreases n - k,
        {
            let a = self.actors[k];
            proof {
                assert(a == old(self)@[k as int]);
            }
            let new_x = crate::motion::step_position(a.x, a.velocity, dt_micros);
            self.actors.set(k, Actor { x: new_x, ..a });
            k = k + 1;
        }
        proof {
            assert(self@ =~= moved_actors(old(self)@, dt_micros));
            assert(unique_ids(self@)) by {
                assert(forall|m: int|
                    0 <= m < n ==> (#[trigger] self@[m]).id == old(self)@[m].id);
            }
            assert(all_valid(self@)) by {
                assert(forall|m: int|
                    0 <= m < n ==> (#[trigger] self@[m]).valid() == old(self)@[m].valid());
            }
        }
    }

    /// The combat resolver's pass. Every attacker is evaluated against
    /// the enemies in store order: the first live enemy an attacker
    /// overlaps takes the attacker's damage, and the attacker is consumed
    /// (it hits at most one enemy per tick). An enemy whose health drops
    /// to zero or below is removed at once, so a later attacker the same
    /// tick finds no target there; a final sweep removes any remaining
    /// enemy with health zero or below. Returns the removed identifiers,
    /// in removal order.
    pub fn resolve_combat(&mut self) -> (removed: Vec<u64>)
        requires
            old(self).wf(),
        ensures
            final(self)@ == surviving_actors(old(self)@),
            removed@ == removed_ids(old(self)@),
            final(self).wf(),
            no_dead_enemies(final(self)@),
    {
        let n = self.actors.len();
        let ghost orig = self@;
        let ghost s0 = initial_state(orig);

        let mut flags: Vec<bool> = Vec::new();
        while flags.len() < n
            invariant
                flags.len() <= n,
                forall|m: int| 0 <= m < flags.len() ==> !(#[trigger] flags@[m]),
            decreases n - flags.len(),
        {
            flags.push(false);
        }
        let mut removed: Vec<u64> = Vec::new();
        proof {
            assert(flags@ =~= s0.flags);
            assert(combat_now(self@, flags@, removed@) == s0);
        }

        let mut i: usize = 0;
        while i < n
            invariant
                i <= n,
                n == self@.len(),
                flags.len() == n,
                orig.len() == n,
                unique_ids(orig),
                all_valid(orig),
                s0 == initial_state(orig),
                attackers_from(s0, 0) == attackers_from(
                    combat_now(self@, flags@, removed@),
                    i as int,
                ),
                forall|m: int| 0 <= m < n ==> same_but_health(orig[m], #[trigger] self@[m]),
                forall|m: int|
                    0 <= m < n ==> (!flags@[m] && (#[trigger] self@[m]).combat is Some
                        ==> health_of(self@[m]) >= 0),
            decreases n - i,
        {
            let ghost pre = combat_now(self@, flags@, removed@);
            let a = self.actors[i];
            if !flags[i] && a.role == Role::Attacker && a.combat.is_some() {
                proof {
                    assert(live_attacker(pre.actors, pre.flags, i as int));
                }
                match find_target(&self.actors, &flags, i) {
                    Some(tgt) => {
                        let en = self.actors[tgt];
                        proof {
                            assert(live_enemy(pre.actors, pre.flags, tgt as int)) by {
                                crate::combat::lemma_target_in_range(
                                    pre.actors,
                                    pre.flags,
                                    i as int,
                                    0,
                                );
                            }
                            assert(damage_of(pre.actors[i as int]) == damage_of(
                                orig[i as int],
                            ));
                            assert(orig[i as int].valid());
                        }
                        let atk_stats = a.combat.unwrap();
                        let en_stats = en.combat.unwrap();
                        let new_health = en_stats.health - atk_stats.damage;
                        self.actors.set(
                            tgt,
                            Actor {
                                combat: Some(
                                    CombatStats { health: new_health, damage: en_stats.damage },
                                ),
                                ..en
                            },
                        );
                        flags.set(i, true);
                        removed.push(a.id);
                        if new_health <= 0 {
                            flags.set(tgt, true);
                            removed.push(en.id);
                        }
                        proof {
                            assert(combat_now(self@, flags@, removed@) == hit(
                                pre,
                                i as int,
                                tgt as int,
                            ));
                            assert(attacker_step(pre, i as int) == hit(pre, i as int, tgt as int));
                        }
                    },
                    None => {
                        proof {
                            assert(attacker_step(pre, i as int) == pre);
                        }
                    },
                }
            } else {
                proof {
                    assert(!live_attacker(pre.actors, pre.flags, i as int));
                    assert(attacker_step(pre, i as int) == pre);
                }
            }
            proof {
                assert(attackers_from(pre, i as int) == attackers_from(
                    attacker_step(pre, i as int),
                    i as int + 1,
                ));
            }
            i = i + 1;
        }
        proof {
            let fin = combat_now(self@, flags@, removed@);
            assert(attackers_from(fin, n as int) == fin);
        }

        let ghost s1 = combat_now(self@, flags@, removed@);
        let mut j: usize = 0;
        while j < n
            invariant
                j <= n,
                n == self@.len(),
                flags.len() == n,
                orig.len() == n,
                unique_ids(orig),
                all_valid(orig),
                s1 == attackers_from(s0, 0),
                self@ == s1.actors,
                sweep_from(s1, 0) == sweep_from(combat_now(self@, flags@, removed@), j as int),
                forall|m: int| 0 <= m < n ==> same_but_health(orig[m], #[trigger] self@[m]),
                forall|m: int|
                    0 <= m < n ==> (!flags@[m] && (#[trigger] self@[m]).combat is Some
                        ==> health_of(self@[m]) >= 0),
                forall|m: int|
                    0 <= m < j ==> (!flags@[m] && (#[trigger] self@[m]).role == Role::Enemy
                        && self@[m].combat is Some ==> health_of(self@[m]) > 0),
            decreases n - j,
        {
            let ghost pre = combat_now(self@, flags@, removed@);
            let e = self.actors[j];
            let dead = match e.combat {
                Some(c) => c.health <= 0,
                None => false,
            };
            if !flags[j] && e.role == Role::Enemy && e.combat.is_some() && dead {
                flags.set(j, true);
                removed.push(e.id);
                proof {
                    assert(live_enemy(pre.actors, pre.flags, j as int));
                    assert(sweep_from(pre, j as int) == sweep_from(
                        combat_now(self@, flags@, removed@),
                        j as int + 1,
                    ));
                }
            } else {
                proof {
                    assert(!(live_enemy(pre.actors, pre.flags, j as int) && health_of(
                        pre.actors[j as int],
                    ) <= 0));
                    assert(sweep_from(pre, j as int) == sweep_from(pre, j as int + 1));
                }
            }
            j = j + 1;
        }
        proof {
            let fin = combat_now(self@, flags@, removed@);
            assert(sweep_from(fin, n as int) == fin);
            assert(fin == resolved_state(orig));
        }

        let ghost s2 = combat_now(self@, flags@, removed@);
        let mut kept: Vec<Actor> = Vec::new();
        let mut k: usize = 0;
        while k < n
            invariant
                k <= n,
                n == self@.len(),
                flags.len() == n,
                orig.len() == n,
                unique_ids(orig),
                all_valid(orig),
                s2 == resolved_state(orig),
                self@ == s2.actors,
                flags@ == s2.flags,
                forall|m: int| 0 <= m < n ==> same_but_health(orig[m], #[trigger] self@[m]),
                forall|m: int|
                    0 <= m < n ==> (!flags@[m] && (#[trigger] self@[m]).combat is Some
                        ==> health_of(self@[m]) >= 0),
                forall|m: int|
                    0 <= m < n ==> (!flags@[m] && (#[trigger] self@[m]).role == Role::Enemy
                        && self@[m].combat is Some ==> health_of(self@[m]) > 0),
                kept@ == kept_prefix(s2, k as int),
                forall|m: int|
                    0 <= m < kept@.len() ==> exists|w: int|
                        0 <= w < k && !flags@[w] && #[trigger] kept@[m] == self@[w],
                unique_ids(kept@),
                all_valid(kept@),
                no_dead_enemies(kept@),
            decreases n - k,
        {
            if !flags[k] {
                let ghost kept_pre = kept@;
                let chosen = self.actors[k];
                proof {
                    assert(same_but_health(orig[k as int], chosen));
                    assert(orig[k as int].valid());
                    assert(chosen.valid()) by {
                        if chosen.role == Role::Enemy {
                            assert(chosen.combat matches Some(c) ==> c.valid());
                        }
                    }
                }
                kept.push(chosen);
                proof {
                    assert forall|m: int|
                        0 <= m < kept_pre.len() implies (#[trigger] kept_pre[m]).id
                        != chosen.id by {
                        let w = choose|w: int|
                            0 <= w < k && !flags@[w] && kept_pre[m] == self@[w];
                        assert(kept_pre[m].id == orig[w].id);
                        assert(chosen.id == orig[k as int].id);
                    }
                    assert(unique_ids(kept@)) by {
                        assert forall|m1: int, m2: int|
                            0 <= m1 < m2 < kept@.len() implies (#[trigger] kept@[m1]).id != (
                        #[trigger] kept@[m2]).id by {
                            if m2 < kept@.len() - 1 {
                                assert(kept@[m1] == kept_pre[m1]);
                                assert(kept@[m2] == kept_pre[m2]);
                            } else {
                                assert(kept@[m1] == kept_pre[m1]);
                                assert(kept@[m2] == chosen);
                            }
                        }
                    }
                    assert forall|m: int|
                        0 <= m < kept@.len() implies exists|w: int|
                        0 <= w < k + 1 && !flags@[w] && #[trigger] kept@[m] == self@[w] by {
                        if m < kept@.len() - 1 {
                            let w = choose|w: int|
                                0 <= w < k && !flags@[w] && kept_pre[m] == self@[w];
                            assert(0 <= w < k + 1 && !flags@[w] && kept@[m] == self@[w]);
                        } else {
                            assert(0 <= k < k + 1 && !flags@[k as int] && kept@[m] == self@[k as int]);
                        }
                    }
                }
            }
            k = k + 1;
        }
        proof {
            assert(kept@ == surviving_actors(orig));
        }
        self.actors = kept;
        removed
    }

    /// One simulation tick: the animation driver and the motion
    /// integrator run over the whole store (they touch disjoint fields,
    /// so their relative order is immaterial), then the combat resolver
    /// runs over the updated positions. Returns the identifiers removed
    /// this tick; the removals are visible to the next tick's iteration.
    pub fn tick(&mut self, dt_micros: u64) -> (removed: Vec<u64>)
        requires
            old(self).wf(),
            anim_fits(old(self)@, dt_micros),
            motion_fits(old(self)@, dt_micros),
        ensures
            final(self)@ == surviving_actors(
                moved_actors(animated_actors(old(self)@, dt_micros), dt_micros),
            ),
            removed@ == removed_ids(
                moved_actors(animated_actors(old(self)@, dt_micros), dt_micros),
            ),
            final(self).wf(),
            no_dead_enemies(final(self)@),
    {
        self.animate_all(dt_micros);
        proof {
            assert(motion_fits(self@, dt_micros)) by {
                assert forall|k: int|
                    0 <= k < self@.len() implies i64::MIN <= moved_x(
                    (#[trigger] self@[k]).x,
                    self@[k].velocity,
                    dt_micros,
                ) <= i64::MAX by {
                    assert(self@[k] == animate_actor(old(self)@[k], dt_micros));
                    assert(self@[k].x == old(self)@[k].x && self@[k].velocity == old(
                        self,
                    )@[k].velocity);
                }
            }
        }
        self.integrate_all(dt_micros);
        self.resolve_combat()
    }

    /// Runtime check of a tick's machine limits, for callers that cannot
    /// establish them otherwise: whether every animation accumulator and
    /// every moved position fits its type under this delta.
    pub fn check_tick_bounds(&self, dt_micros: u64) -> (r: bool)
        ensures
            r == (anim_fits(self@, dt_micros) && motion_fits(self@, dt_micros)),
    {
        let n = self.actors.len();
        let mut k: usize = 0;
        while k < n
            invariant
                k <= n,
                n == self@.len(),
                forall|m: int|
                    0 <= m < k ==> ((#[trigger] self@[m]).animation matches Some(st)
                        ==> st.elapsed_micros + dt_micros <= u64::MAX),
                forall|m: int|
                    0 <= m < k ==> i64::MIN <= moved_x(
                        (#[trigger] self@[m]).x,
                        self@[m].velocity,
                        dt_micros,
                    ) <= i64::MAX,
            decreases n - k,
        {
            let a = self.actors[k];
            match a.animation {
                Some(st) => {
                    if st.elapsed_micros > u64::MAX - dt_micros {
                        return false;
                    }
                },
                None => {},
            }
            proof {
                let vi = a.velocity as int;
                let di = dt_micros as int;
                assert(vi * di <= 0x8000_0000_0000_0000 * 0xffff_ffff_ffff_ffff && vi * di
                    >= -0x8000_0000_0000_0000 * 0xffff_ffff_ffff_ffff) by (nonlinear_arith)
                    requires
                        -0x8000_0000_0000_0000 <= vi <= 0x7fff_ffff_ffff_ffff,
                        0 <= di <= 0xffff_ffff_ffff_ffff,
                ;
            }
            let moved: i128 = (a.x as i128) + (a.velocity as i128) * (dt_micros as i128);
            if moved < i64::MIN as i128 || moved > i64::MAX as i128 {
                return false;
            }
            k = k + 1;
        }
        true
    }
}

/// Find the first live enemy that attacker `i` overlaps, scanning the
/// store in order.
fn find_target(actors: &Vec<Actor>, flags: &Vec<bool>, i: usize) -> (r: Option<usize>)
    requires
        actors.len() == flags.len(),
        i < actors.len(),
    ensures
        match r {
            Some(t) => t < actors.len() && target_of(actors@, flags@, i as int, 0) == Some(
                t as int,
            ),
            None => target_of(actors@, flags@, i as int, 0) is None,
        },
{
    let n = actors.len();
    let mut j: usize = 0;
    while j < n
        invariant
            j <= n,
            n == actors.len(),
            flags.len() == n,
            i < n,
            target_of(actors@, flags@, i as int, 0) == target_of(
                actors@,
                flags@,
                i as int,
                j as int,
            ),
        decreases n - j,
    {
        let e = &actors[j];
        if !flags[j] && e.role == Role::Enemy && e.combat.is_some() && aabb_overlaps(
            &actors[i],
            e,
        ) {
            proof {
                assert(live_enemy(actors@, flags@, j as int));
                assert(target_of(actors@, flags@, i as int, j as int) == Some(j as int));
            }
            return Some(j);
        }
        proof {
            assert(!(live_enemy(actors@, flags@, j as int) && overlaps(
                actors@[i as int],
                actors@[j as int],
            )));
            assert(target_of(actors@, flags@, i as int, j as int) == target_of(
                actors@,
                flags@,
                i as int,
                j as int + 1,
            ));
        }
        j = j + 1;
    }
    None
}

/// Where the first `k` actors miss the identifier and actor `k` carries
/// it, removal by identifier is removal at index `k`.
proof fn lemma_remove_id_first_hit(s: Seq<Actor>, id: u64, k: int)
    requires
        0 <= k < s.len(),
        s[k].id == id,
        forall|m: int| 0 <= m < k ==> (#[trigger] s[m]).id != id,
    ensures
        remove_id(s, id) == s.remove(k),
    decreases k,
{
    if k == 0 {
        assert(remove_id(s, id) == s.drop_first());
        assert(s.drop_first() =~= s.remove(0));
    } else {
        let rest = s.drop_first();
        assert(forall|m: int| 0 <= m < rest.len() ==> rest[m] == s[m + 1]);
        assert(s[0].id != id);
        lemma_remove_id_first_hit(rest, id, k - 1);
        assert(seq![s[0]] + rest.remove(k - 1) =~= s.remove(k));
    }
}

} // verus!
