use fella_sim::time::{
    advance_time, update_simulation_time, SimulationDeltaTime, SimulationTime, TimeScale,
};
use fella_sim::SimError;

#[test]
fn default_clock_starts_at_noon_of_day_zero() {
    let t = SimulationTime::default();
    assert_eq!(t.ticks(), 720);
    assert!(!t.is_first_tick());
    assert_eq!(t.get_year(), 0);
    assert_eq!(t.get_day(), 0);
    assert_eq!(t.get_time(), 720);
    assert_eq!(t.get_hour_minute(), (12, 0));
}

#[test]
fn ticks_floor_fractional_seconds() {
    let t = SimulationTime { millis: 1999 };
    assert_eq!(t.ticks(), 1);
    let t = SimulationTime { millis: 2000 };
    assert_eq!(t.ticks(), 2);
    let t = SimulationTime { millis: 0 };
    assert!(t.is_first_tick());
}

#[test]
fn calendar_readout() {
    // One year, two days, three hours, four minutes of ticks.
    let ticks: u64 = 360 * 1440 + 2 * 1440 + 3 * 60 + 4;
    let t = SimulationTime { millis: ticks * 1000 + 999 };
    assert_eq!(t.get_year(), 1);
    assert_eq!(t.get_day(), 2);
    assert_eq!(t.get_hour_minute(), (3, 4));
}

#[test]
fn time_since_ticks_is_tick_difference() {
    let earlier = SimulationTime { millis: 720_500 };
    let later = SimulationTime { millis: 723_900 };
    assert_eq!(later.time_since_ticks(&earlier), Ok(3));
    // Equal snapshots elapse zero ticks.
    assert_eq!(later.time_since_ticks(&later), Ok(0));
}

#[test]
fn time_since_ticks_rejects_out_of_order_snapshots() {
    let earlier = SimulationTime { millis: 720_000 };
    let later = SimulationTime { millis: 720_001 };
    assert_eq!(
        earlier.time_since_ticks(&later),
        Err(SimError::InvalidTimeOrdering)
    );
}

#[test]
fn update_accumulates() {
    let mut t = SimulationTime { millis: 1000 };
    t.update(2500);
    assert_eq!(t.millis, 3500);
}

#[test]
fn paused_scale_yields_no_delta() {
    let mut sdt = SimulationDeltaTime(None);
    update_simulation_time(&TimeScale::Paused, 987_654, &mut sdt);
    assert_eq!(sdt.0, None);
    // Pausing yields no delta for any real delta at all.
    update_simulation_time(&TimeScale::Paused, u64::MAX, &mut sdt);
    assert_eq!(sdt.0, None);
    let mut clock = SimulationTime { millis: 5000 };
    advance_time(&sdt, &mut clock);
    assert_eq!(clock.millis, 5000);
}

#[test]
fn scales_multiply_the_real_delta() {
    let mut sdt = SimulationDeltaTime(None);
    update_simulation_time(&TimeScale::Normal, 100, &mut sdt);
    assert_eq!(sdt.0, Some(100));
    update_simulation_time(&TimeScale::Fast, 100, &mut sdt);
    assert_eq!(sdt.0, Some(200));
    update_simulation_time(&TimeScale::Fastest, 100, &mut sdt);
    assert_eq!(sdt.0, Some(400));
    let mut clock = SimulationTime { millis: 0 };
    advance_time(&sdt, &mut clock);
    assert_eq!(clock.millis, 400);
}

#[test]
fn display_string_pads_hours_and_minutes() {
    let t = SimulationTime::default();
    assert_eq!(t.display_string(), "Year 0, Day 0, 12:00");
    let t = SimulationTime { millis: 725 * 1000 };
    assert_eq!(t.display_string(), "Year 0, Day 0, 12:05");
    let ticks: u64 = 3 * 360 * 1440 + 17 * 1440 + 9 * 60 + 8;
    let t = SimulationTime { millis: ticks * 1000 };
    assert_eq!(t.display_string(), "Year 3, Day 17, 09:08");
    let t = SimulationTime { millis: 0 };
    assert_eq!(t.display_string(), "Year 0, Day 0, 00:00");
}
