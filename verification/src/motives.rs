//! Per-agent needs ("motives"): eight bounded values that decay with
//! simulation time and are restored by using world objects.
//!
//! A motive value is a fixed-point fraction of the unit interval, in
//! millionths: `0` is fully depleted, `MOTIVE_SCALE` is fully satisfied.

use vstd::prelude::*;

verus! {

/// Fixed-point denominator: one unit of need, in millionths.
pub const MOTIVE_SCALE: i64 = 1_000_000;

/// Every motive starts at half of the unit interval at spawn.
pub const MOTIVE_DEFAULT: i64 = 500_000;

/// Number of motive channels.
pub const MOTIVE_COUNT: usize = 8;

/// Largest simulation delta, in milliseconds, a single decay step accepts;
/// it keeps the scaled per-channel change within `i64`.
pub const MAX_DECAY_STEP_MILLIS: u64 = 1_000_000_000_000;

/// The fixed, closed set of needs an agent carries.
#[derive(Clone, Copy, Debug, PartialEq, Eq, Hash, Structural)]
pub enum BasicMotive {
    Hunger,
    Bathroom,
    Energy,
    Hygiene,
    Social,
    Fun,
    Comfort,
    Environment,
}

impl BasicMotive {
    /// The channel this motive occupies in a motive vector.
    pub open spec fn spec_index(&self) -> usize {
        match self {
            BasicMotive::Hunger => 0,
            BasicMotive::Bathroom => 1,
            BasicMotive::Energy => 2,
            BasicMotive::Hygiene => 3,
            BasicMotive::Social => 4,
            BasicMotive::Fun => 5,
            BasicMotive::Comfort => 6,
            BasicMotive::Environment => 7,
        }
    }

    #[verifier::when_used_as_spec(spec_index)]
    pub fn index(&self) -> (r: usize)
        ensures
            r == self.spec_index(),
            r < MOTIVE_COUNT,
    {
        match self {
            BasicMotive::Hunger => 0,
            BasicMotive::Bathroom => 1,
            BasicMotive::Energy => 2,
            BasicMotive::Hygiene => 3,
            BasicMotive::Social => 4,
            BasicMotive::Fun => 5,
            BasicMotive::Comfort => 6,
            BasicMotive::Environment => 7,
        }
    }
}

/// Clamps a fixed-point need value into the unit interval `[0, MOTIVE_SCALE]`.
pub open spec fn clamp_unit(v: int) -> int {
    if v < 0 {
        0
    } else if v > MOTIVE_SCALE as int {
        MOTIVE_SCALE as int
    } else {
        v
    }
}

/// A per-second change scaled to a step of `millis` milliseconds, rounded
/// toward zero.
pub open spec fn scaled_change(v: int, millis: int) -> int {
    if v >= 0 {
        v * millis / 1000
    } else {
        -((-v) * millis / 1000)
    }
}

/// Default per-second decay of each channel, in millionths, negative because
/// needs deplete over time. These are tunable balance constants.
pub open spec fn default_decay_view() -> Seq<int> {
    seq![-6000, -5000, -4000, -5000, -5000, -8000, -5000, -9000]
}

/// One motive channel's clamped value.
#[derive(Clone, Copy, Debug, PartialEq, Eq, Structural)]
pub struct MotiveValue(pub i64);

impl Default for MotiveValue {
    fn default() -> (r: Self)
        ensures
            r.0 == MOTIVE_DEFAULT,
    {
        MotiveValue(500_000)
    }
}

/// A pending signed change to a motive vector, one entry per channel. It is
/// transient: accumulated within a step and then consumed by
/// `BasicMotives::add`, never persisted.
#[derive(Clone, Debug)]
pub struct BasicMotivesDelta(pub Vec<i64>);

impl View for BasicMotivesDelta {
    type V = Seq<int>;

    open spec fn view(&self) -> Seq<int> {
        self.0@.map_values(|v: i64| v as int)
    }
}

impl BasicMotivesDelta {
    pub open spec fn wf(&self) -> bool {
        self.0.len() == MOTIVE_COUNT
    }

    /// The all-zero change.
    pub fn new() -> (r: Self)
        ensures
            r.wf(),
            r@ == Seq::new(MOTIVE_COUNT as nat, |i: int| 0int),
    {
        let r = BasicMotivesDelta(vec![0i64, 0, 0, 0, 0, 0, 0, 0]);
        proof {
            assert(r@ =~= Seq::new(MOTIVE_COUNT as nat, |i: int| 0int));
        }
        r
    }

    /// Accumulates `value` into one channel.
    pub fn add(&mut self, motive: BasicMotive, value: i64)
        requires
            old(self).wf(),
            i64::MIN <= old(self)@[motive.spec_index() as int] + value <= i64::MAX,
        ensures
            final(self).wf(),
            final(self)@ == delta_add(old(self)@, motive.spec_index() as int, value as int),
    {
        let i: usize = motive.index();
        let cur: i64 = self.0[i];
        self.0.set(i, cur + value);
        proof {
            assert(final(self)@ =~= delta_add(
                old(self)@,
                motive.spec_index() as int,
                value as int,
            ));
        }
    }

    pub fn get(&self, motive: BasicMotive) -> (r: i64)
        requires
            self.wf(),
        ensures
            r == self@[motive.spec_index() as int],
    {
        self.0[motive.index()]
    }

    /// Turns per-second rates into this step's change: every channel is
    /// multiplied by `delta_millis` milliseconds and divided by 1000,
    /// rounding toward zero.
    pub fn scale(&mut self, delta_millis: u64)
        requires
            old(self).wf(),
            forall|i: int|
                0 <= i < MOTIVE_COUNT ==> (#[trigger] old(self)@[i]) > i64::MIN && -(
                i64::MAX as int) <= old(self)@[i] * delta_millis <= i64::MAX as int,
        ensures
            final(self).wf(),
            forall|i: int|
                0 <= i < MOTIVE_COUNT ==> final(self)@[i] == scaled_change(
                    old(self)@[i],
                    delta_millis as int,
                ),
    {
        let mut i: usize = 0;
        while i < MOTIVE_COUNT
            invariant
                i <= MOTIVE_COUNT,
                self.wf(),
                forall|k: int|
                    0 <= k < MOTIVE_COUNT ==> (#[trigger] old(self)@[k]) > i64::MIN && -(
                    i64::MAX as int) <= old(self)@[k] * delta_millis <= i64::MAX as int,
                forall|k: int| i <= k < MOTIVE_COUNT ==> self@[k] == old(self)@[k],
                forall|k: int|
                    0 <= k < i ==> self@[k] == scaled_change(old(self)@[k], delta_millis as int),
            decreases MOTIVE_COUNT - i,
        {
            let v: i64 = self.0[i];
            proof {
                assert(v as int == self@[i as int]);
                assert(v as int == old(self)@[i as int]);
            }
            let scaled: i64 = if v >= 0 {
                proof {
                    assert(v as int * delta_millis as int <= i64::MAX as int);
                    vstd::arithmetic::div_mod::lemma_div_is_ordered(
                        v as int * delta_millis as int,
                        i64::MAX as int,
                        1000,
                    );
                }
                (((v as u64) * delta_millis) / 1000) as i64
            } else {
                proof {
                    vstd::arithmetic::mul::lemma_mul_unary_negation(
                        v as int,
                        delta_millis as int,
                    );
                    assert((-(v as int)) * delta_millis as int <= i64::MAX as int);
                    vstd::arithmetic::div_mod::lemma_div_is_ordered(
                        (-(v as int)) * delta_millis as int,
                        i64::MAX as int,
                        1000,
                    );
                }
                -((((-v) as u64) * delta_millis / 1000) as i64)
            };
            let ghost prev = self@;
            self.0.set(i, scaled);
            proof {
                assert(self@ =~= prev.update(i as int, scaled as int));
            }
            i = i + 1;
        }
    }
}

impl Default for BasicMotivesDelta {
    fn default() -> (r: Self)
        ensures
            r.wf(),
            r@ == Seq::new(MOTIVE_COUNT as nat, |i: int| 0int),
    {
        BasicMotivesDelta::new()
    }
}

/// The default per-second decay as a concrete delta.
pub fn default_decay_delta() -> (r: BasicMotivesDelta)
    ensures
        r.wf(),
        r@ == default_decay_view(),
{
    let r = BasicMotivesDelta(vec![-6000i64, -5000, -4000, -5000, -5000, -8000, -5000, -9000]);
    proof {
        assert(r@ =~= default_decay_view());
    }
    r
}

/// An agent's motive vector: eight clamped values, exclusively owned by the
/// agent, all `MOTIVE_DEFAULT` at spawn.
#[derive(Clone, Debug)]
pub struct BasicMotives(pub Vec<MotiveValue>);

impl View for BasicMotives {
    type V = Seq<int>;

    open spec fn view(&self) -> Seq<int> {
        self.0@.map_values(|v: MotiveValue| v.0 as int)
    }
}

impl BasicMotives {
    /// Well-formed: one entry per channel, each within the unit interval.
    pub open spec fn wf(&self) -> bool {
        &&& self.0.len() == MOTIVE_COUNT
        &&& forall|i: int| 0 <= i < MOTIVE_COUNT ==> 0 <= #[trigger] self@[i] <= MOTIVE_SCALE
    }

    /// A fresh vector with every channel at the spawn default.
    pub fn new() -> (r: Self)
        ensures
            r.wf(),
            r@ == Seq::new(MOTIVE_COUNT as nat, |i: int| MOTIVE_DEFAULT as int),
    {
        let r = BasicMotives(
            vec![
                MotiveValue(500_000),
                MotiveValue(500_000),
                MotiveValue(500_000),
                MotiveValue(500_000),
                MotiveValue(500_000),
                MotiveValue(500_000),
                MotiveValue(500_000),
                MotiveValue(500_000),
            ],
        );
        proof {
            assert(r@ =~= Seq::new(MOTIVE_COUNT as nat, |i: int| MOTIVE_DEFAULT as int));
        }
        r
    }

    pub fn get(&self, motive: BasicMotive) -> (r: i64)
        requires
            self.wf(),
        ensures
            r == self@[motive.spec_index() as int],
    {
        self.0[motive.index()].0
    }

    /// Overwrites one channel, clamping the value into the unit interval.
    pub fn set(&mut self, motive: BasicMotive, value: i64)
        requires
            old(self).wf(),
        ensures
            final(self).wf(),
            final(self)@ == old(self)@.update(motive.spec_index() as int, clamp_unit(value as int)),
    {
        let clamped: i64 = if value < 0 {
            0
        } else if value > MOTIVE_SCALE {
            MOTIVE_SCALE
        } else {
            value
        };
        let i: usize = motive.index();
        self.0.set(i, MotiveValue(clamped));
        proof {
            assert(final(self)@ =~= old(self)@.update(
                motive.spec_index() as int,
                clamp_unit(value as int),
            ));
        }
    }

    /// Adds `delta` to one channel and clamps. Total for every `delta`: a
    /// change past either end of the interval saturates there.
    pub fn change(&mut self, motive: BasicMotive, delta: i64)
        requires
            old(self).wf(),
        ensures
            final(self).wf(),
            final(self)@ == old(self)@.update(
                motive.spec_index() as int,
                clamp_unit(old(self)@[motive.spec_index() as int] + delta),
            ),
    {
        let i: usize = motive.index();
        let cur: i64 = self.0[i].0;
        let next: i64 = if delta >= MOTIVE_SCALE {
            MOTIVE_SCALE
        } else if delta <= -MOTIVE_SCALE {
            0
        } else if cur + delta < 0 {
            0
        } else if cur + delta > MOTIVE_SCALE {
            MOTIVE_SCALE
        } else {
            cur + delta
        };
        self.0.set(i, MotiveValue(next));
        proof {
            assert(final(self)@ =~= old(self)@.update(
                motive.spec_index() as int,
                clamp_unit(old(self)@[motive.spec_index() as int] + delta),
            ));
        }
    }

    /// Consumes a pending delta: every channel is shifted by the delta's
    /// entry and clamped back into the unit interval. Total for deltas of
    /// any magnitude.
    pub fn add(&mut self, delta: &BasicMotivesDelta)
        requires
            old(self).wf(),
            delta.wf(),
        ensures
            final(self).wf(),
            final(self)@.len() == MOTIVE_COUNT,
            forall|i: int|
                0 <= i < MOTIVE_COUNT ==> final(self)@[i] == clamp_unit(old(self)@[i] + delta@[i]),
    {
        let mut i: usize = 0;
        while i < MOTIVE_COUNT
            invariant
                i <= MOTIVE_COUNT,
                self.wf(),
                delta.wf(),
                forall|k: int| i <= k < MOTIVE_COUNT ==> self@[k] == old(self)@[k],
                forall|k: int| 0 <= k < i ==> self@[k] == clamp_unit(old(self)@[k] + delta@[k]),
            decreases MOTIVE_COUNT - i,
        {
            let cur: i64 = self.0[i].0;
            let d: i64 = delta.0[i];
            proof {
                assert(cur as int == self@[i as int]);
                assert(0 <= cur as int <= MOTIVE_SCALE);
                assert(d as int == delta@[i as int]);
            }
            let next: i64 = if d >= MOTIVE_SCALE {
                MOTIVE_SCALE
            } else if d <= -MOTIVE_SCALE {
                0
            } else if cur + d < 0 {
                0
            } else if cur + d > MOTIVE_SCALE {
                MOTIVE_SCALE
            } else {
                cur + d
            };
            let ghost prev = self@;
            self.0.set(i, MotiveValue(next));
            proof {
                assert(self@ =~= prev.update(i as int, next as int));
            }
            i = i + 1;
        }
    }

    /// Depletes every channel by its default per-second rate times the
    /// step's simulation delta, clamped into the unit interval.
    pub fn decay(&mut self, delta_millis: u64)
        requires
            old(self).wf(),
            delta_millis <= MAX_DECAY_STEP_MILLIS,
        ensures
            final(self).wf(),
            forall|i: int|
                0 <= i < MOTIVE_COUNT ==> final(self)@[i] == clamp_unit(
                    old(self)@[i] + scaled_change(default_decay_view()[i], delta_millis as int),
                ),
    {
        let mut rates = default_decay_delta();
        proof {
            assert forall|i: int| 0 <= i < MOTIVE_COUNT implies rates@[i] > i64::MIN && -(
            i64::MAX as int) <= rates@[i] * delta_millis <= i64::MAX as int by {
                assert(-9000 <= rates@[i] <= -4000);
                assert(rates@[i] * delta_millis >= -9000 * delta_millis) by (nonlinear_arith)
                    requires
                        rates@[i] >= -9000,
                        delta_millis >= 0,
                ;
                assert(rates@[i] * delta_millis <= 0) by (nonlinear_arith)
                    requires
                        rates@[i] <= 0,
                        delta_millis >= 0,
                ;
            }
        }
        rates.scale(delta_millis);
        self.add(&rates);
    }
}

impl Default for BasicMotives {
    fn default() -> (r: Self)
        ensures
            r.wf(),
            r@ == Seq::new(MOTIVE_COUNT as nat, |i: int| MOTIVE_DEFAULT as int),
    {
        BasicMotives::new()
    }
}

/// Accumulating a value into one channel of a pending delta, at the
/// spec level.
pub open spec fn delta_add(s: Seq<int>, i: int, v: int) -> Seq<int> {
    s.update(i, s[i] + v)
}

/// Pointwise sum of two pending deltas, at the spec level.
pub open spec fn delta_sum(a: Seq<int>, b: Seq<int>) -> Seq<int> {
    Seq::new(a.len(), |i: int| a[i] + b[i])
}

/// Within one step, the order in which two single-channel changes are
/// accumulated into a pending delta does not matter.
pub proof fn lemma_delta_add_commutes(s: Seq<int>, i: int, v: int, j: int, w: int)
    requires
        0 <= i < s.len(),
        0 <= j < s.len(),
    ensures
        delta_add(delta_add(s, i, v), j, w) == delta_add(delta_add(s, j, w), i, v),
{
    assert(delta_add(delta_add(s, i, v), j, w) =~= delta_add(delta_add(s, j, w), i, v));
}

/// Combining whole pending deltas is commutative.
pub proof fn lemma_delta_sum_commutes(a: Seq<int>, b: Seq<int>)
    requires
        a.len() == b.len(),
    ensures
        delta_sum(a, b) == delta_sum(b, a),
{
    assert(delta_sum(a, b) =~= delta_sum(b, a));
}

/// Combining whole pending deltas is associative.
pub proof fn lemma_delta_sum_associative(a: Seq<int>, b: Seq<int>, c: Seq<int>)
    requires
        a.len() == b.len(),
        b.len() == c.len(),
    ensures
        delta_sum(delta_sum(a, b), c) == delta_sum(a, delta_sum(b, c)),
{
    assert(delta_sum(delta_sum(a, b), c) =~= delta_sum(a, delta_sum(b, c)));
}

} // verus!
