//! The simulation clock: real elapsed time is turned into simulation time
//! through a pausable multiplier, and simulation time is read out in ticks
//! (one tick per simulated second) and in calendar form.

use vstd::prelude::*;

use crate::SimError;

verus! {

/// Milliseconds of simulation time per tick (one tick = one simulated second).
pub const MILLIS_PER_TICK: u64 = 1000;

pub const MINUTES_PER_HOUR: u64 = 60;
pub const HOURS_PER_DAY: u64 = 24;
/// One tick is one in-game minute for calendar purposes.
pub const TICKS_PER_DAY: u64 = 1440;
pub const DAYS_PER_YEAR: u64 = 360;
/// The clock starts at noon of day zero.
pub const DEFAULT_TICK: u64 = 720;

/// Accumulated simulation time. It only ever increases.
#[derive(Clone, Copy, Debug, PartialEq, Eq, Structural)]
pub struct SimulationTime {
    /// Accumulated simulation time in milliseconds.
    pub millis: u64,
}

impl Default for SimulationTime {
    /// A fresh clock starts at `DEFAULT_TICK` ticks.
    fn default() -> (r: Self)
        ensures
            r.millis == DEFAULT_TICK * MILLIS_PER_TICK,
    {
        SimulationTime { millis: 720_000 }
    }
}

impl SimulationTime {
    /// The clock's whole ticks: the floor of its fractional-second counter.
    pub open spec fn spec_ticks(&self) -> u64 {
        self.millis / MILLIS_PER_TICK
    }

    /// Converts the fractional-second counter to whole ticks.
    #[verifier::when_used_as_spec(spec_ticks)]
    pub fn ticks(&self) -> (r: u64)
        ensures
            r == self.spec_ticks(),
    {
        self.millis / MILLIS_PER_TICK
    }

    pub fn is_first_tick(&self) -> (r: bool)
        ensures
            r == (self.spec_ticks() == 0),
    {
        self.ticks() == 0
    }

    pub fn get_year(&self) -> (r: u64)
        ensures
            r == self.spec_ticks() / TICKS_PER_DAY / DAYS_PER_YEAR,
    {
        self.ticks() / TICKS_PER_DAY / DAYS_PER_YEAR
    }

    pub fn get_day(&self) -> (r: u64)
        ensures
            r == (self.spec_ticks() / TICKS_PER_DAY) % DAYS_PER_YEAR,
    {
        (self.ticks() / TICKS_PER_DAY) % DAYS_PER_YEAR
    }

    /// The tick within the current day.
    pub fn get_time(&self) -> (r: u64)
        ensures
            r == self.spec_ticks() % TICKS_PER_DAY,
    {
        self.ticks() % TICKS_PER_DAY
    }

    pub fn get_hour_minute(&self) -> (r: (u32, u32))
        ensures
            r.0 == self.spec_ticks() % TICKS_PER_DAY / MINUTES_PER_HOUR,
            r.1 == self.spec_ticks() % TICKS_PER_DAY % MINUTES_PER_HOUR,
    {
        let time: u64 = self.get_time();
        let hour: u64 = time / MINUTES_PER_HOUR;
        let minute: u64 = time % MINUTES_PER_HOUR;
        (hour as u32, minute as u32)
    }

    /// Accumulates a simulation delta; the clock never regresses.
    pub fn update(&mut self, delta_millis: u64)
        requires
            old(self).millis + delta_millis <= u64::MAX,
        ensures
            final(self).millis == old(self).millis + delta_millis,
    {
        self.millis = self.millis + delta_millis;
    }

    /// Whole ticks elapsed between an earlier snapshot and this one.
    ///
    /// A snapshot taken later than `self` is a caller error, reported as
    /// `InvalidTimeOrdering` rather than aborting; the tick count is never
    /// negative.
    pub fn time_since_ticks(&self, other: &SimulationTime) -> (r: Result<u64, SimError>)
        ensures
            other.millis <= self.millis ==> r == Ok::<u64, SimError>(
                (self.spec_ticks() - other.spec_ticks()) as u64,
            ),
            other.millis > self.millis ==> r == Err::<u64, SimError>(
                SimError::InvalidTimeOrdering,
            ),
    {
        if other.millis > self.millis {
            Err(SimError::InvalidTimeOrdering)
        } else {
            proof {
                lemma_ticks_monotone(*other, *self);
            }
            Ok(self.ticks() - other.ticks())
        }
    }
}

/// The tick counter never regresses when the millisecond counter does not.
pub proof fn lemma_ticks_monotone(a: SimulationTime, b: SimulationTime)
    requires
        a.millis <= b.millis,
    ensures
        a.spec_ticks() <= b.spec_ticks(),
{
    vstd::arithmetic::div_mod::lemma_div_is_ordered(
        a.millis as int,
        b.millis as int,
        MILLIS_PER_TICK as int,
    );
}

/// The character of one decimal digit.
pub open spec fn spec_digit_char(d: int) -> char {
    if d == 0 {
        '0'
    } else if d == 1 {
        '1'
    } else if d == 2 {
        '2'
    } else if d == 3 {
        '3'
    } else if d == 4 {
        '4'
    } else if d == 5 {
        '5'
    } else if d == 6 {
        '6'
    } else if d == 7 {
        '7'
    } else if d == 8 {
        '8'
    } else {
        '9'
    }
}

/// The decimal representation of a non-negative number, most significant
/// digit first, without leading zeros (zero itself is `"0"`).
pub open spec fn spec_decimal(n: int) -> Seq<char>
    decreases n,
{
    if n < 10 {
        seq![spec_digit_char(n)]
    } else {
        spec_decimal(n / 10).push(spec_digit_char(n % 10))
    }
}

/// The decimal representation padded to at least two digits, as clock
/// displays write hours and minutes.
pub open spec fn spec_two_digits(n: int) -> Seq<char> {
    if n < 10 {
        seq!['0'].add(spec_decimal(n))
    } else {
        spec_decimal(n)
    }
}

/// The calendar label of a clock value:
/// `Year <y>, Day <d>, <hh>:<mm>`.
pub open spec fn spec_time_label(t: SimulationTime) -> Seq<char> {
    "Year "@.add(spec_decimal(t.spec_ticks() as int / TICKS_PER_DAY as int / DAYS_PER_YEAR as int))
        .add(", Day "@).add(
        spec_decimal(t.spec_ticks() as int / TICKS_PER_DAY as int % DAYS_PER_YEAR as int),
    ).add(", "@).add(
        spec_two_digits(t.spec_ticks() as int % TICKS_PER_DAY as int / MINUTES_PER_HOUR as int),
    ).add(":"@).add(
        spec_two_digits(t.spec_ticks() as int % TICKS_PER_DAY as int % MINUTES_PER_HOUR as int),
    )
}

/// Relies on `String::push`: appends exactly one character.
#[verifier::external_body]
fn push_char(s: &mut String, c: char)
    ensures
        final(s)@ == old(s)@.push(c),
{
    s.push(c)
}

/// Relies on `String::push_str`: appends exactly the given slice.
#[verifier::external_body]
fn push_str(s: &mut String, t: &str)
    ensures
        final(s)@ == old(s)@.add(t@),
{
    s.push_str(t)
}

/// The digit character of a value below ten.
fn digit_char(d: u64) -> (r: char)
    requires
        d < 10,
    ensures
        r == spec_digit_char(d as int),
{
    match d {
        0 => '0',
        1 => '1',
        2 => '2',
        3 => '3',
        4 => '4',
        5 => '5',
        6 => '6',
        7 => '7',
        8 => '8',
        _ => '9',
    }
}

/// Appends the decimal representation of `n`.
fn push_decimal(s: &mut String, n: u64)
    ensures
        final(s)@ == old(s)@.add(spec_decimal(n as int)),
{
    let mut digits: Vec<char> = Vec::new();
    let mut m: u64 = n;
    digits.push(digit_char(m % 10));
    m = m / 10;
    proof {
        if n >= 10 {
            assert(spec_decimal(n as int) == spec_decimal(m as int).push(
                spec_digit_char(n as int % 10),
            ));
            assert(spec_decimal(n as int) =~= spec_decimal(m as int).add(digits@.reverse()));
        } else {
            assert(spec_decimal(n as int) =~= digits@.reverse());
        }
    }
    while m > 0
        invariant
            digits@.len() >= 1,
            m > 0 ==> spec_decimal(n as int) == spec_decimal(m as int).add(digits@.reverse()),
            m == 0 ==> spec_decimal(n as int) == digits@.reverse(),
        decreases m,
    {
        let d: char = digit_char(m % 10);
        let ghost prev = digits@;
        digits.push(d);
        proof {
            assert(digits@.reverse() =~= seq![d].add(prev.reverse()));
            if m >= 10 {
                assert(spec_decimal(m as int) == spec_decimal(m as int / 10).push(
                    spec_digit_char(m as int % 10),
                ));
                assert(spec_decimal(m as int).add(prev.reverse()) =~= spec_decimal(
                    m as int / 10,
                ).add(digits@.reverse()));
            } else {
                assert(spec_decimal(m as int) =~= seq![spec_digit_char(m as int)]);
                assert(spec_decimal(m as int).add(prev.reverse()) =~= digits@.reverse());
            }
        }
        m = m / 10;
    }
    let count: usize = digits.len();
    let mut j: usize = 0;
    while j < count
        invariant
            j <= count,
            count == digits@.len(),
            digits@.reverse() == spec_decimal(n as int),
            s@ == old(s)@.add(digits@.reverse().take(j as int)),
        decreases count - j,
    {
        let c: char = digits[count - 1 - j];
        proof {
            assert(digits@.reverse()[j as int] == digits@[count - 1 - j as int]);
            assert(digits@.reverse().take(j as int + 1) =~= digits@.reverse().take(j as int).push(
                digits@.reverse()[j as int],
            ));
        }
        push_char(s, c);
        j = j + 1;
    }
    proof {
        assert(digits@.reverse().take(count as int) =~= digits@.reverse());
    }
}

/// Appends the decimal representation of `n`, left-padded with `0` to two
/// digits.
fn push_two_digits(s: &mut String, n: u64)
    ensures
        final(s)@ == old(s)@.add(spec_two_digits(n as int)),
{
    if n < 10 {
        push_char(s, '0');
        let ghost mid = s@;
        push_decimal(s, n);
        proof {
            assert(s@ =~= old(s)@.add(spec_two_digits(n as int)));
        }
    } else {
        push_decimal(s, n);
    }
}

impl SimulationTime {
    /// The calendar label of this clock value, in the form
    /// `Year <y>, Day <d>, <hh>:<mm>`.
    pub fn display_string(&self) -> (r: String)
        ensures
            r@ == spec_time_label(*self),
    {
        let mut s = String::new();
        push_str(&mut s, "Year ");
        push_decimal(&mut s, self.get_year());
        push_str(&mut s, ", Day ");
        push_decimal(&mut s, self.get_day());
        push_str(&mut s, ", ");
        let (hour, minute): (u32, u32) = self.get_hour_minute();
        push_two_digits(&mut s, hour as u64);
        push_str(&mut s, ":");
        push_two_digits(&mut s, minute as u64);
        proof {
            assert(s@ =~= spec_time_label(*self));
        }
        s
    }
}

/// How fast simulation time runs relative to real time.
#[derive(Clone, Copy, Debug, PartialEq, Eq, Structural)]
pub enum TimeScale {
    Paused,
    Normal,
    Fast,
    Fastest,
}

impl TimeScale {
    /// The real-to-simulated multiplier of each scale.
    pub open spec fn spec_multiplier(&self) -> u64 {
        match self {
            TimeScale::Paused => 0,
            TimeScale::Normal => 1,
            TimeScale::Fast => 2,
            TimeScale::Fastest => 4,
        }
    }

    #[verifier::when_used_as_spec(spec_multiplier)]
    pub fn multiplier(&self) -> (r: u64)
        ensures
            r == self.spec_multiplier(),
    {
        match self {
            TimeScale::Paused => 0,
            TimeScale::Normal => 1,
            TimeScale::Fast => 2,
            TimeScale::Fastest => 4,
        }
    }
}

/// The simulation delta of the current step: `None` while paused, so that
/// every consumer can make the no-op path explicit instead of applying a
/// zero duration.
#[derive(Clone, Copy, Debug, PartialEq, Eq, Structural)]
pub struct SimulationDeltaTime(pub Option<u64>);

impl SimulationDeltaTime {
    /// Derives this step's simulation delta from the real delta and scale:
    /// no delta at all while paused, otherwise the scaled real delta.
    pub fn update(&mut self, time_scale: &TimeScale, real_delta_millis: u64)
        requires
            *time_scale != TimeScale::Paused ==> real_delta_millis * 4 <= u64::MAX,
        ensures
            *time_scale == TimeScale::Paused ==> final(self).0 is None,
            *time_scale != TimeScale::Paused ==> final(self).0 == Some(
                (real_delta_millis * time_scale.spec_multiplier()) as u64,
            ),
    {
        self.0 = match time_scale {
            TimeScale::Paused => None,
            TimeScale::Normal => Some(real_delta_millis),
            TimeScale::Fast => Some(real_delta_millis * 2),
            TimeScale::Fastest => Some(real_delta_millis * 4),
        };
    }
}

/// Recomputes the step's simulation delta from the time scale.
pub fn update_simulation_time(
    time_scale: &TimeScale,
    real_delta_millis: u64,
    simulation_delta_time: &mut SimulationDeltaTime,
)
    requires
        *time_scale != TimeScale::Paused ==> real_delta_millis * 4 <= u64::MAX,
    ensures
        *time_scale == TimeScale::Paused ==> final(simulation_delta_time).0 is None,
        *time_scale != TimeScale::Paused ==> final(simulation_delta_time).0 == Some(
            (real_delta_millis * time_scale.spec_multiplier()) as u64,
        ),
{
    simulation_delta_time.update(time_scale, real_delta_millis);
}

/// Advances the world clock by the step's delta; while paused there is no
/// delta and the clock is left untouched.
pub fn advance_time(simulation_time: &SimulationDeltaTime, world_time: &mut SimulationTime)
    requires
        simulation_time.0 matches Some(d) ==> old(world_time).millis + d <= u64::MAX,
    ensures
        simulation_time.0 is None ==> *final(world_time) == *old(world_time),
        simulation_time.0 matches Some(d) ==> final(world_time).millis == old(
            world_time,
        ).millis + d,
{
    let d: u64 = match simulation_time.0 {
        Some(d) => d,
        None => {
            return ;
        },
    };
    world_time.update(d);
}

} // verus!
