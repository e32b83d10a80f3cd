use fella_sim::geometry::{distance_milli, isqrt};
use fella_sim::motives::{BasicMotive, BasicMotives, BasicMotivesDelta};
use fella_sim::utility::{score_action, select_best, FellaAction, select_action};
use fella_sim::world::{WorldObject, WorldObjectCatalog, WorldPosition};
use fella_sim::SimError;

fn effect_on(motive: BasicMotive, amount: i64) -> BasicMotivesDelta {
    let mut d = BasicMotivesDelta::new();
    d.add(motive, amount);
    d
}

fn object(id: u64, x: i64, y: i64, motive: BasicMotive, amount: i64) -> WorldObject {
    WorldObject {
        id,
        position: WorldPosition { x, y },
        effect: effect_on(motive, amount),
    }
}

#[test]
fn isqrt_exact_values() {
    assert_eq!(isqrt(0), 0);
    assert_eq!(isqrt(1), 1);
    assert_eq!(isqrt(3), 1);
    assert_eq!(isqrt(4), 2);
    assert_eq!(isqrt(80_000_000), 8944);
    assert_eq!(isqrt(u64::MAX), 4_294_967_295);
}

#[test]
fn distance_is_the_euclidean_floor() {
    let a = WorldPosition { x: 0, y: 0 };
    let b = WorldPosition { x: 3000, y: 4000 };
    assert_eq!(distance_milli(&a, &b), 5000);
    let c = WorldPosition { x: 8000, y: 4000 };
    assert_eq!(distance_milli(&a, &c), 8944);
    assert_eq!(distance_milli(&a, &a), 0);
}

#[test]
fn score_exact_value_and_distance_penalty() {
    let m = BasicMotives::new();
    let o = object(1, 0, 0, BasicMotive::Hunger, 200_000);
    // Raw benefit: 200_000 * (1_000_000 - 500_000) = 1e11, no distance.
    assert_eq!(score_action(&m, &o, 0), 100_000_000_000);
    // One world unit away halves it: 1e11 * 1000 / 2000.
    assert_eq!(score_action(&m, &o, 1000), 50_000_000_000);
}

#[test]
fn score_is_monotone_in_distance() {
    let m = BasicMotives::new();
    let o = object(1, 0, 0, BasicMotive::Fun, 150_000);
    let mut previous = score_action(&m, &o, 0);
    for d in [1u64, 10, 100, 1000, 10_000, 100_000] {
        let s = score_action(&m, &o, d);
        assert!(s <= previous);
        previous = s;
    }
}

#[test]
fn harmful_objects_score_zero_at_any_distance() {
    let m = BasicMotives::new();
    let o = object(1, 0, 0, BasicMotive::Hunger, -300_000);
    assert_eq!(score_action(&m, &o, 0), 0);
    assert_eq!(score_action(&m, &o, 5000), 0);
}

#[test]
fn depleted_motives_weigh_more() {
    let mut hungry = BasicMotives::new();
    hungry.set(BasicMotive::Hunger, 100_000);
    let sated = BasicMotives::new();
    let o = object(1, 0, 0, BasicMotive::Hunger, 200_000);
    assert!(score_action(&hungry, &o, 0) > score_action(&sated, &o, 0));
}

#[test]
fn selection_picks_the_highest_scorer() {
    let mut catalog = WorldObjectCatalog::new();
    assert!(catalog.add_object(object(1, 0, 0, BasicMotive::Hunger, 100_000)));
    assert!(catalog.add_object(object(2, 0, 0, BasicMotive::Hunger, 300_000)));
    let m = BasicMotives::new();
    let from = WorldPosition { x: 0, y: 0 };
    let chosen = select_best(&catalog, &m, &from).unwrap();
    assert_eq!(catalog.object_at(chosen).id, 2);
    match select_action(&catalog, &m, &from) {
        Some(FellaAction::UseObject(id)) => assert_eq!(id, 2),
        None => panic!("an action was due"),
    }
}

#[test]
fn selection_is_stable_under_permutation() {
    let a = object(7, 1000, 0, BasicMotive::Energy, 250_000);
    let b = object(3, 0, 1000, BasicMotive::Energy, 250_000);
    let c = object(5, 4000, 4000, BasicMotive::Fun, 90_000);
    let m = BasicMotives::new();
    let from = WorldPosition { x: 500, y: 500 };

    let mut cat1 = WorldObjectCatalog::new();
    assert!(cat1.add_object(a.clone()));
    assert!(cat1.add_object(b.clone()));
    assert!(cat1.add_object(c.clone()));
    let mut cat2 = WorldObjectCatalog::new();
    assert!(cat2.add_object(c));
    assert!(cat2.add_object(b));
    assert!(cat2.add_object(a));

    let id1 = cat1.object_at(select_best(&cat1, &m, &from).unwrap()).id;
    let id2 = cat2.object_at(select_best(&cat2, &m, &from).unwrap()).id;
    assert_eq!(id1, id2);
    // The two equal scorers tie; the smaller identity wins.
    assert_eq!(id1, 3);
}

#[test]
fn nothing_above_threshold_is_a_normal_idle_outcome() {
    let mut catalog = WorldObjectCatalog::new();
    // A tiny benefit, far away: the score cannot clear the threshold.
    assert!(catalog.add_object(object(1, 900_000, 900_000, BasicMotive::Fun, 1)));
    let m = BasicMotives::new();
    let from = WorldPosition { x: -900_000, y: -900_000 };
    assert_eq!(select_best(&catalog, &m, &from), None);
    assert!(select_action(&catalog, &m, &from).is_none());
}

#[test]
fn catalog_identities_stay_unique() {
    let mut catalog = WorldObjectCatalog::new();
    assert!(catalog.add_object(object(1, 0, 0, BasicMotive::Hunger, 10_000)));
    assert!(!catalog.add_object(object(1, 5000, 0, BasicMotive::Fun, 20_000)));
    assert_eq!(catalog.len(), 1);
    assert!(catalog.find_by_id(1).is_some());
    assert!(catalog.find_by_id(9).is_none());
    assert!(catalog.get_by_id(1).is_ok());
    assert_eq!(catalog.get_by_id(9).err(), Some(SimError::NotFound));
}
