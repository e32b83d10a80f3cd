use fella_sim::fella::{create_fella, AgentHandle, Simulation};
use fella_sim::geometry::distance_milli;
use fella_sim::motives::{BasicMotive, BasicMotivesDelta};
use fella_sim::time::TimeScale;
use fella_sim::world::{WorldObject, WorldObjectCatalog, WorldPosition};
use fella_sim::SimError;

fn effect_on(motive: BasicMotive, amount: i64) -> BasicMotivesDelta {
    let mut d = BasicMotivesDelta::new();
    d.add(motive, amount);
    d
}

fn empty_world() -> Simulation {
    Simulation::new(WorldObjectCatalog::new())
}

#[test]
fn spawned_agents_start_with_default_motives() {
    let mut sim = empty_world();
    let h = sim.spawn_agent("Felix Fella".to_string(), WorldPosition { x: 0, y: 0 });
    assert_eq!(sim.motive_of(h, BasicMotive::Hunger), Ok(500_000));
    assert_eq!(sim.position_of(h), Ok(WorldPosition { x: 0, y: 0 }));
    assert_eq!(sim.name_of(h).unwrap().as_str(), "Felix Fella");
}

#[test]
fn stale_handles_report_not_found() {
    let mut sim = empty_world();
    let h = sim.spawn_agent("Fiona Fella".to_string(), WorldPosition { x: 1000, y: 0 });
    assert!(sim.despawn_agent(h).is_ok());
    assert_eq!(sim.motive_of(h, BasicMotive::Fun), Err(SimError::NotFound));
    assert_eq!(sim.position_of(h), Err(SimError::NotFound));
    assert_eq!(sim.name_of(h).err(), Some(SimError::NotFound));
    assert_eq!(sim.notify_selected(h), Err(SimError::NotFound));
    assert_eq!(sim.despawn_agent(h), Err(SimError::NotFound));
    // A made-up handle is just as dead.
    let bogus = AgentHandle { index: 999, generation: 0 };
    assert_eq!(sim.position_of(bogus), Err(SimError::NotFound));
}

#[test]
fn notify_selected_is_display_state_only() {
    let mut sim = empty_world();
    let h = sim.spawn_agent("Felix Fella".to_string(), WorldPosition { x: 0, y: 0 });
    assert_eq!(sim.selected.0, None);
    assert!(sim.notify_selected(h).is_ok());
    assert_eq!(sim.selected.0, Some(h));
    // Selection does not disturb the agent.
    assert_eq!(sim.motive_of(h, BasicMotive::Hunger), Ok(500_000));
}

#[test]
fn paused_steps_change_nothing() {
    let mut sim = empty_world();
    let h = sim.spawn_agent("Felix Fella".to_string(), WorldPosition { x: 0, y: 0 });
    sim.agents[0].fella.as_mut().unwrap().walk_target.target = WorldPosition { x: 5000, y: 0 };
    let clock_before = sim.clock;
    for real_delta in [1u64, 16, 1000, 123_456_789, u64::MAX] {
        sim.step(real_delta, TimeScale::Paused);
    }
    assert_eq!(sim.clock, clock_before);
    assert_eq!(sim.motive_of(h, BasicMotive::Hunger), Ok(500_000));
    assert_eq!(sim.position_of(h), Ok(WorldPosition { x: 0, y: 0 }));
}

#[test]
fn faster_scales_advance_the_clock_linearly() {
    let mut sim = empty_world();
    let start = sim.clock.millis;
    sim.step(100, TimeScale::Normal);
    assert_eq!(sim.clock.millis, start + 100);
    sim.step(100, TimeScale::Fast);
    assert_eq!(sim.clock.millis, start + 300);
    sim.step(100, TimeScale::Fastest);
    assert_eq!(sim.clock.millis, start + 700);
}

#[test]
fn movement_scenario_walks_one_unit_per_second() {
    let mut sim = empty_world();
    let _h = sim.spawn_agent("Felix Fella".to_string(), WorldPosition { x: 0, y: 0 });
    sim.agents[0].fella.as_mut().unwrap().walk_target.target = WorldPosition { x: 8000, y: 4000 };
    sim.move_to_walk_target(1000);
    let p = sim.agents[0].fella.as_ref().unwrap().position;
    // One world unit along the normalized direction toward (8, 4):
    // 8000 * 1000 / 8944 and 4000 * 1000 / 8944.
    assert_eq!(p, WorldPosition { x: 894, y: 447 });
    let stepped = distance_milli(&WorldPosition { x: 0, y: 0 }, &p);
    assert!((990..=1000).contains(&stepped));
}

#[test]
fn movement_scenario_converges_without_overshoot() {
    let mut sim = empty_world();
    let _h = sim.spawn_agent("Felix Fella".to_string(), WorldPosition { x: 0, y: 0 });
    let target = WorldPosition { x: 8000, y: 4000 };
    sim.agents[0].fella.as_mut().unwrap().walk_target.target = target;
    let mut remaining =
        distance_milli(&sim.agents[0].fella.as_ref().unwrap().position, &target);
    for _ in 0..20 {
        sim.move_to_walk_target(1000);
        let now = distance_milli(&sim.agents[0].fella.as_ref().unwrap().position, &target);
        assert!(now <= remaining);
        remaining = now;
    }
    assert!(remaining < 100);
    // The final step lands exactly on the target instead of oscillating.
    assert_eq!(sim.agents[0].fella.as_ref().unwrap().position, target);
}

#[test]
fn degenerate_direction_skips_the_update() {
    let mut sim = empty_world();
    let _h = sim.spawn_agent("Felix Fella".to_string(), WorldPosition { x: 123, y: -456 });
    // Walk target equals the position: direction has zero length.
    sim.move_to_walk_target(1000);
    let p = sim.agents[0].fella.as_ref().unwrap().position;
    assert_eq!(p, WorldPosition { x: 123, y: -456 });
}

#[test]
fn wander_waits_out_the_anti_jitter_cooldown() {
    let mut sim = empty_world();
    let _h = sim.spawn_agent("Felix Fella".to_string(), WorldPosition { x: 0, y: 0 });
    // Reached the target, but assigned this very tick: nothing may happen.
    let before = sim.agents[0].fella.as_ref().unwrap().walk_target;
    sim.assign_random_walk_target();
    assert_eq!(sim.agents[0].fella.as_ref().unwrap().walk_target, before);
    // Not even one full tick later.
    sim.clock.update(1999 - (sim.clock.millis % 1000));
    sim.assign_random_walk_target();
    assert_eq!(sim.agents[0].fella.as_ref().unwrap().walk_target, before);
}

#[test]
fn wander_assigns_a_bounded_target_after_the_cooldown() {
    let mut sim = empty_world();
    let _h = sim.spawn_agent("Felix Fella".to_string(), WorldPosition { x: 0, y: 0 });
    sim.clock.update(2000);
    sim.assign_random_walk_target();
    let wt = sim.agents[0].fella.as_ref().unwrap().walk_target;
    assert_eq!(wt.assigned_at, sim.clock);
    assert!((-8000..8000).contains(&wt.target.x));
    assert!((-4000..4000).contains(&wt.target.y));
}

#[test]
fn wander_leaves_seeking_agents_alone() {
    let mut catalog = WorldObjectCatalog::new();
    assert!(catalog.add_object(WorldObject {
        id: 1,
        position: WorldPosition { x: 0, y: 0 },
        effect: effect_on(BasicMotive::Hunger, 300_000),
    }));
    let mut sim = Simulation::new(catalog);
    let _h = sim.spawn_agent("Felix Fella".to_string(), WorldPosition { x: 0, y: 0 });
    sim.select_actions();
    assert!(sim.agents[0].fella.as_ref().unwrap().pending_action.is_some());
    let before = sim.agents[0].fella.as_ref().unwrap().walk_target;
    sim.clock.update(5000);
    sim.assign_random_walk_target();
    assert_eq!(sim.agents[0].fella.as_ref().unwrap().walk_target, before);
}

#[test]
fn seek_and_use_cycle_applies_the_effect_once() {
    let mut catalog = WorldObjectCatalog::new();
    assert!(catalog.add_object(WorldObject {
        id: 42,
        position: WorldPosition { x: 0, y: 0 },
        effect: effect_on(BasicMotive::Hunger, 300_000),
    }));
    let mut sim = Simulation::new(catalog);
    let h = sim.spawn_agent("Felix Fella".to_string(), WorldPosition { x: 0, y: 0 });

    // First step: decay, then the selector commits to the object.
    sim.step(1000, TimeScale::Normal);
    let pending = sim.agents[0].fella.as_ref().unwrap().pending_action;
    assert_eq!(pending.map(|p| p.object_id), Some(42));
    assert_eq!(sim.motive_of(h, BasicMotive::Hunger), Ok(494_000));

    // Second step: arrived, but only one tick since assignment.
    sim.step(1000, TimeScale::Normal);
    assert!(sim.agents[0].fella.as_ref().unwrap().pending_action.is_some());
    assert_eq!(sim.motive_of(h, BasicMotive::Hunger), Ok(488_000));

    // Third step: the cooldown has elapsed; the effect lands, the action
    // clears, the agent is idle again.
    sim.step(1000, TimeScale::Normal);
    assert!(sim.agents[0].fella.as_ref().unwrap().pending_action.is_none());
    assert_eq!(sim.motive_of(h, BasicMotive::Hunger), Ok(782_000));
}

#[test]
fn idle_agents_ignore_objects_below_the_threshold() {
    let mut catalog = WorldObjectCatalog::new();
    assert!(catalog.add_object(WorldObject {
        id: 1,
        position: WorldPosition { x: 900_000, y: 900_000 },
        effect: effect_on(BasicMotive::Fun, 1),
    }));
    let mut sim = Simulation::new(catalog);
    let _h = sim.spawn_agent(
        "Felix Fella".to_string(),
        WorldPosition { x: -900_000, y: -900_000 },
    );
    sim.select_actions();
    assert!(sim.agents[0].fella.as_ref().unwrap().pending_action.is_none());
}

#[test]
fn create_fella_spawns_into_the_table() {
    let mut sim = empty_world();
    let h1 = create_fella(&mut sim, "Felix Fella".to_string(), WorldPosition { x: 0, y: 0 });
    let h2 = create_fella(&mut sim, "Fiona Fella".to_string(), WorldPosition { x: 1000, y: 0 });
    assert_ne!(h1, h2);
    assert_eq!(sim.name_of(h1).unwrap().as_str(), "Felix Fella");
    assert_eq!(sim.name_of(h2).unwrap().as_str(), "Fiona Fella");
}

#[test]
fn decay_is_paused_with_the_clock() {
    let mut catalog = WorldObjectCatalog::new();
    assert!(catalog.add_object(WorldObject {
        id: 1,
        position: WorldPosition { x: 2000, y: 2000 },
        effect: effect_on(BasicMotive::Energy, 400_000),
    }));
    let mut sim = Simulation::new(catalog);
    let h = sim.spawn_agent("Fiona Fella".to_string(), WorldPosition { x: 0, y: 0 });
    sim.step(60_000, TimeScale::Paused);
    assert_eq!(sim.motive_of(h, BasicMotive::Energy), Ok(500_000));
    assert!(sim.agents[0].fella.as_ref().unwrap().pending_action.is_none());
}
