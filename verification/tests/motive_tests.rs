use fella_sim::motives::{
    default_decay_delta, BasicMotive, BasicMotives, BasicMotivesDelta, MOTIVE_SCALE,
};

#[test]
fn defaults_are_half_full() {
    let m = BasicMotives::new();
    assert_eq!(m.get(BasicMotive::Hunger), 500_000);
    assert_eq!(m.get(BasicMotive::Environment), 500_000);
}

#[test]
fn set_clamps_into_the_unit_interval() {
    let mut m = BasicMotives::new();
    m.set(BasicMotive::Fun, -5);
    assert_eq!(m.get(BasicMotive::Fun), 0);
    m.set(BasicMotive::Fun, 2 * MOTIVE_SCALE);
    assert_eq!(m.get(BasicMotive::Fun), MOTIVE_SCALE);
    m.set(BasicMotive::Fun, 123_456);
    assert_eq!(m.get(BasicMotive::Fun), 123_456);
}

#[test]
fn change_saturates_at_both_ends() {
    let mut m = BasicMotives::new();
    m.change(BasicMotive::Social, 700_000);
    assert_eq!(m.get(BasicMotive::Social), MOTIVE_SCALE);
    m.change(BasicMotive::Social, i64::MIN + 1);
    assert_eq!(m.get(BasicMotive::Social), 0);
    m.change(BasicMotive::Social, i64::MAX);
    assert_eq!(m.get(BasicMotive::Social), MOTIVE_SCALE);
    m.change(BasicMotive::Social, -250_000);
    assert_eq!(m.get(BasicMotive::Social), 750_000);
}

#[test]
fn delta_accumulates_per_channel() {
    let mut d = BasicMotivesDelta::new();
    d.add(BasicMotive::Hunger, 300);
    d.add(BasicMotive::Hunger, -100);
    d.add(BasicMotive::Energy, 50);
    assert_eq!(d.get(BasicMotive::Hunger), 200);
    assert_eq!(d.get(BasicMotive::Energy), 50);
    assert_eq!(d.get(BasicMotive::Fun), 0);
}

#[test]
fn delta_accumulation_order_does_not_matter() {
    let mut a = BasicMotivesDelta::new();
    a.add(BasicMotive::Hunger, 300);
    a.add(BasicMotive::Energy, -70);
    a.add(BasicMotive::Hunger, 11);
    let mut b = BasicMotivesDelta::new();
    b.add(BasicMotive::Hunger, 11);
    b.add(BasicMotive::Hunger, 300);
    b.add(BasicMotive::Energy, -70);
    assert_eq!(a.get(BasicMotive::Hunger), b.get(BasicMotive::Hunger));
    assert_eq!(a.get(BasicMotive::Energy), b.get(BasicMotive::Energy));
    assert_eq!(a.get(BasicMotive::Comfort), b.get(BasicMotive::Comfort));
}

#[test]
fn scale_converts_per_second_rates_to_a_step() {
    let mut d = default_decay_delta();
    d.scale(60_000);
    assert_eq!(d.get(BasicMotive::Hunger), -360_000);
    assert_eq!(d.get(BasicMotive::Energy), -240_000);
    assert_eq!(d.get(BasicMotive::Environment), -540_000);
}

#[test]
fn scale_rounds_toward_zero_for_both_signs() {
    let mut d = BasicMotivesDelta::new();
    d.add(BasicMotive::Hunger, 7);
    d.add(BasicMotive::Energy, -7);
    d.scale(500);
    assert_eq!(d.get(BasicMotive::Hunger), 3);
    assert_eq!(d.get(BasicMotive::Energy), -3);
}

#[test]
fn add_applies_and_clamps_every_channel() {
    let mut m = BasicMotives::new();
    let mut d = BasicMotivesDelta::new();
    d.add(BasicMotive::Hunger, 700_000);
    d.add(BasicMotive::Energy, -700_000);
    d.add(BasicMotive::Fun, i64::MAX);
    m.add(&d);
    assert_eq!(m.get(BasicMotive::Hunger), MOTIVE_SCALE);
    assert_eq!(m.get(BasicMotive::Energy), 0);
    assert_eq!(m.get(BasicMotive::Fun), MOTIVE_SCALE);
    assert_eq!(m.get(BasicMotive::Social), 500_000);
}

#[test]
fn decay_scenario_one_simulated_minute() {
    // All motives start at one half; sixty seconds of default decay.
    let mut m = BasicMotives::new();
    m.decay(60_000);
    assert_eq!(m.get(BasicMotive::Hunger), 140_000);
    assert_eq!(m.get(BasicMotive::Bathroom), 200_000);
    assert_eq!(m.get(BasicMotive::Energy), 260_000);
    assert_eq!(m.get(BasicMotive::Hygiene), 200_000);
    assert_eq!(m.get(BasicMotive::Social), 200_000);
    assert_eq!(m.get(BasicMotive::Fun), 20_000);
    assert_eq!(m.get(BasicMotive::Comfort), 200_000);
    // Environment would drop below zero and is clamped at empty.
    assert_eq!(m.get(BasicMotive::Environment), 0);
}

#[test]
fn decay_keeps_every_motive_in_the_unit_interval() {
    let mut m = BasicMotives::new();
    for _ in 0..100 {
        m.decay(30_000);
    }
    for motive in [
        BasicMotive::Hunger,
        BasicMotive::Bathroom,
        BasicMotive::Energy,
        BasicMotive::Hygiene,
        BasicMotive::Social,
        BasicMotive::Fun,
        BasicMotive::Comfort,
        BasicMotive::Environment,
    ] {
        let v = m.get(motive);
        assert!((0..=MOTIVE_SCALE).contains(&v));
    }
}
