use ticksim::actor::{Actor, CombatStats, Role, MICROPIXELS_PER_PIXEL};
use ticksim::world::World;

fn combatant(id: u64, x_px: i64, role: Role, health: i64, damage: i64) -> Actor {
    let mut a = Actor::new(id, x_px * MICROPIXELS_PER_PIXEL, 0, 0, role);
    a.combat = Some(CombatStats::new(health, damage).unwrap());
    a
}

#[test]
fn overlapping_attacker_hits_once_and_is_removed() {
    // Attacker at (150, 0) with half extent 2.5 px, enemy at (150, 0)
    // with half extent 16 px: overlap, the attacker is consumed, and the
    // enemy loses exactly the attacker's damage.
    let mut w = World::new();
    w.insert(combatant(1, 150, Role::Attacker, 1, 7)).unwrap();
    w.insert(combatant(2, 150, Role::Enemy, 100, 1)).unwrap();
    let removed = w.resolve_combat();
    assert_eq!(removed, vec![1]);
    assert!(w.lookup(1).is_none());
    let enemy = w.lookup(2).unwrap();
    assert_eq!(enemy.combat.unwrap().health, 93);
}

#[test]
fn distant_pair_does_not_interact() {
    // Attacker at 150 px, enemy at 300 px: the 150 px gap exceeds the
    // 18.5 px summed half extents, so nothing is mutated.
    let mut w = World::new();
    w.insert(combatant(1, 150, Role::Attacker, 1, 7)).unwrap();
    w.insert(combatant(2, 300, Role::Enemy, 100, 1)).unwrap();
    let removed = w.resolve_combat();
    assert!(removed.is_empty());
    assert_eq!(w.lookup(1).unwrap().combat.unwrap().health, 1);
    assert_eq!(w.lookup(2).unwrap().combat.unwrap().health, 100);
}

#[test]
fn touching_boxes_count_as_overlap() {
    // Centers exactly 18.5 px apart: the boxes touch, which is a hit.
    let mut w = World::new();
    let mut atk = Actor::new(1, 0, 0, 0, Role::Attacker);
    atk.combat = Some(CombatStats::new(1, 3).unwrap());
    let mut en = Actor::new(2, 18_500_000, 0, 0, Role::Enemy);
    en.combat = Some(CombatStats::new(10, 1).unwrap());
    w.insert(atk).unwrap();
    w.insert(en).unwrap();
    let removed = w.resolve_combat();
    assert_eq!(removed, vec![1]);
    assert_eq!(w.lookup(2).unwrap().combat.unwrap().health, 7);
}

#[test]
fn lethal_hit_removes_enemy_same_tick() {
    // The first attacker's hit drops the enemy to zero health; the enemy
    // is removed at once, so the second overlapping attacker finds no
    // target and survives.
    let mut w = World::new();
    w.insert(combatant(1, 150, Role::Attacker, 1, 1)).unwrap();
    w.insert(combatant(2, 150, Role::Attacker, 1, 1)).unwrap();
    w.insert(combatant(3, 150, Role::Enemy, 1, 1)).unwrap();
    let removed = w.resolve_combat();
    assert_eq!(removed, vec![1, 3]);
    assert!(w.lookup(1).is_none());
    assert!(w.lookup(3).is_none());
    assert!(w.lookup(2).is_some());
    assert_eq!(w.lookup(2).unwrap().combat.unwrap().health, 1);
}

#[test]
fn attacker_consumes_on_first_match_only() {
    // Two enemies in reach: only the first in store order takes damage.
    let mut w = World::new();
    w.insert(combatant(1, 150, Role::Attacker, 1, 4)).unwrap();
    w.insert(combatant(2, 150, Role::Enemy, 100, 1)).unwrap();
    w.insert(combatant(3, 151, Role::Enemy, 100, 1)).unwrap();
    let removed = w.resolve_combat();
    assert_eq!(removed, vec![1]);
    assert_eq!(w.lookup(2).unwrap().combat.unwrap().health, 96);
    assert_eq!(w.lookup(3).unwrap().combat.unwrap().health, 100);
}

#[test]
fn zero_health_enemy_is_swept_without_attackers() {
    let mut w = World::new();
    w.insert(combatant(5, 10, Role::Enemy, 0, 1)).unwrap();
    let removed = w.resolve_combat();
    assert_eq!(removed, vec![5]);
    assert_eq!(w.len(), 0);
}

#[test]
fn neutral_actors_never_collide() {
    let mut w = World::new();
    w.insert(combatant(1, 150, Role::Neutral, 1, 9)).unwrap();
    w.insert(combatant(2, 150, Role::Enemy, 100, 1)).unwrap();
    let removed = w.resolve_combat();
    assert!(removed.is_empty());
    assert_eq!(w.lookup(2).unwrap().combat.unwrap().health, 100);
}
