use ticksim::actor::{Actor, CombatStats, Role, SpawnError, MICROPIXELS_PER_PIXEL};
use ticksim::animation::AnimationState;
use ticksim::world::World;

#[test]
fn removal_is_idempotent() {
    let mut w = World::new();
    w.insert(Actor::new(7, 0, 0, 0, Role::Neutral)).unwrap();
    assert!(w.remove(7));
    assert!(!w.remove(7)); // already gone: a no-op, never a fault
    assert!(!w.remove(7));
    assert_eq!(w.len(), 0);
}

#[test]
fn lookup_after_removal_finds_nothing() {
    let mut w = World::new();
    w.insert(Actor::new(3, 5, 5, 0, Role::Neutral)).unwrap();
    assert!(w.lookup(3).is_some());
    w.remove(3);
    assert!(w.lookup(3).is_none());
}

#[test]
fn duplicate_identifier_is_rejected() {
    let mut w = World::new();
    w.insert(Actor::new(1, 0, 0, 0, Role::Neutral)).unwrap();
    let r = w.insert(Actor::new(1, 9, 9, 9, Role::Enemy));
    assert_eq!(r, Err(SpawnError::DuplicateId));
    assert_eq!(w.len(), 1);
    assert_eq!(w.lookup(1).unwrap().x, 0);
}

#[test]
fn combat_stats_reject_negative_values() {
    assert_eq!(CombatStats::new(-1, 0), Err(SpawnError::NegativeHealth));
    assert_eq!(CombatStats::new(0, -1), Err(SpawnError::NegativeDamage));
    assert!(CombatStats::new(0, 0).is_ok());
}

#[test]
fn tick_moves_and_animates_before_combat() {
    // Before motion the bullet (140 px) and the zombie (200 px) are 60 px
    // apart: no overlap. After one 0.1 s tick the bullet is at 190 px and
    // the zombie at 199 px, 9 px apart: a hit. The zombie's animation
    // also advances one frame the same tick.
    let mut w = World::new();

    let mut bullet = Actor::new(10, 140 * MICROPIXELS_PER_PIXEL, 0, 500, Role::Attacker);
    bullet.combat = Some(CombatStats::new(1, 1).unwrap());
    w.insert(bullet).unwrap();

    let mut zombie = Actor::new(20, 200 * MICROPIXELS_PER_PIXEL, 0, -10, Role::Enemy);
    zombie.combat = Some(CombatStats::new(2, 1).unwrap());
    zombie.animation = Some(AnimationState::new(0, 5, 0, 100_000).unwrap());
    w.insert(zombie).unwrap();

    assert!(w.check_tick_bounds(100_000));
    let removed = w.tick(100_000);

    assert_eq!(removed, vec![10]);
    assert!(w.lookup(10).is_none());
    let z = w.lookup(20).unwrap();
    assert_eq!(z.x, 199 * MICROPIXELS_PER_PIXEL);
    assert_eq!(z.combat.unwrap().health, 1);
    assert_eq!(z.animation.unwrap().current_frame, 1);
}

#[test]
fn removals_are_visible_to_the_next_tick() {
    let mut w = World::new();
    let mut bullet = Actor::new(1, 150 * MICROPIXELS_PER_PIXEL, 0, 0, Role::Attacker);
    bullet.combat = Some(CombatStats::new(1, 5).unwrap());
    w.insert(bullet).unwrap();
    let mut zombie = Actor::new(2, 150 * MICROPIXELS_PER_PIXEL, 0, 0, Role::Enemy);
    zombie.combat = Some(CombatStats::new(5, 1).unwrap());
    w.insert(zombie).unwrap();

    let first = w.tick(100_000);
    assert_eq!(first, vec![1, 2]);
    let second = w.tick(100_000);
    assert!(second.is_empty());
    assert_eq!(w.len(), 0);
}

#[test]
fn get_enumerates_live_actors_in_store_order() {
    let mut w = World::new();
    w.insert(Actor::new(4, 1, 0, 0, Role::Neutral)).unwrap();
    w.insert(Actor::new(9, 2, 0, 0, Role::Neutral)).unwrap();
    assert_eq!(w.get(0).unwrap().id, 4);
    assert_eq!(w.get(1).unwrap().id, 9);
    assert!(w.get(2).is_none());
}
