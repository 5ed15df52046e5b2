//! Time units and the timer steps that make up a delay.

use vstd::prelude::*;

use crate::proto::types::Hertz;

verus! {

/// A duration in microseconds.
#[derive(Clone, Copy, PartialEq, Eq, Structural, PartialOrd, Ord, Debug)]
pub struct Microseconds(pub u32);

/// A duration in milliseconds.
#[derive(Clone, Copy, PartialEq, Eq, Structural, PartialOrd, Ord, Debug)]
pub struct Milliseconds(pub u32);

impl Microseconds {
    /// Microseconds per second.
    pub const SECS_FACTOR: u32 = 1_000_000;

    /// The period of the given frequency.
    pub fn from_hertz(hz: Hertz) -> (t: Self)
        requires
            hz.0 > 0,
        ensures
            t.0 == 1_000_000u32 / hz.0,
    {
        Self(Self::SECS_FACTOR / hz.0)
    }

    /// The frequency with this period.
    pub fn to_hertz(self) -> (hz: Hertz)
        requires
            self.0 > 0,
        ensures
            hz.0 == 1_000_000u32 / self.0,
    {
        Hertz(Self::SECS_FACTOR / self.0)
    }

    /// The same duration in microseconds.
    pub fn from_millis(ms: Milliseconds) -> (t: Self)
        requires
            ms.0 * 1_000 <= u32::MAX,
        ensures
            t.0 == ms.0 * 1_000,
    {
        Self(ms.0 * 1_000)
    }
}

impl Milliseconds {
    /// Milliseconds per second.
    pub const SECS_FACTOR: u32 = 1_000;

    /// The period of the given frequency.
    pub fn from_hertz(hz: Hertz) -> (t: Self)
        requires
            hz.0 > 0,
        ensures
            t.0 == 1_000u32 / hz.0,
    {
        Self(Self::SECS_FACTOR / hz.0)
    }

    /// The frequency with this period.
    pub fn to_hertz(self) -> (hz: Hertz)
        requires
            self.0 > 0,
        ensures
            hz.0 == 1_000u32 / self.0,
    {
        Hertz(Self::SECS_FACTOR / self.0)
    }
}

impl From<u32> for Microseconds {
    fn from(inner: u32) -> (t: Self) {
        Self(inner)
    }
}

impl vstd::std_specs::convert::FromSpecImpl<u32> for Microseconds {
    open spec fn obeys_from_spec() -> bool {
        true
    }

    open spec fn from_spec(inner: u32) -> Self {
        Microseconds(inner)
    }
}

impl From<u32> for Milliseconds {
    fn from(inner: u32) -> (t: Self) {
        Self(inner)
    }
}

impl vstd::std_specs::convert::FromSpecImpl<u32> for Milliseconds {
    open spec fn obeys_from_spec() -> bool {
        true
    }

    open spec fn from_spec(inner: u32) -> Self {
        Milliseconds(inner)
    }
}

/// The frequencies a count-down timer is started with to wait `timeout` units, where
/// `factor` units make a second: while more than `factor` units remain, a step at
/// `factor` hertz that takes one unit away; then a last step at `factor / rest` hertz.
pub open spec fn spec_count_down_steps(timeout: u32, factor: u32) -> Seq<Hertz>
    decreases timeout,
{
    if factor == 0 || timeout == 0 {
        Seq::empty()
    } else if timeout > factor {
        seq![Hertz(factor)] + spec_count_down_steps((timeout - factor) as u32, factor)
    } else {
        seq![Hertz(factor / timeout)]
    }
}

/// The frequencies a count-down timer is started with to wait `timeout` units.
pub fn count_down_steps(timeout: u32, factor: u32) -> (steps: Vec<Hertz>)
    requires
        timeout > 0,
        factor > 0,
    ensures
        steps@ == spec_count_down_steps(timeout, factor),
{
    let mut steps: Vec<Hertz> = Vec::new();
    let mut rest = timeout;
    while rest > factor
        invariant
            factor > 0,
            rest > 0,
            steps@ + spec_count_down_steps(rest, factor) == spec_count_down_steps(timeout, factor),
        decreases rest,
    {
        steps.push(Hertz(factor));
        proof {
            assert(spec_count_down_steps(rest, factor) == seq![Hertz(factor)] + spec_count_down_steps(
                (rest - factor) as u32,
                factor,
            ));
            assert(steps@ + spec_count_down_steps((rest - factor) as u32, factor) =~= (steps@.drop_last()
                + seq![Hertz(factor)]) + spec_count_down_steps((rest - factor) as u32, factor));
        }
        rest = rest - factor;
    }
    steps.push(Hertz(factor / rest));
    proof {
        assert(spec_count_down_steps(rest, factor) == seq![Hertz(factor / rest)]);
    }
    steps
}

/// The frequencies a count-down timer is started with to wait a duration of `secs` seconds
/// and `nanos` nanoseconds: the seconds as milliseconds, then the milliseconds of the
/// fraction, then its microseconds (which count the milliseconds again).
pub open spec fn spec_delay_steps(secs: u64, nanos: u32) -> Seq<Hertz> {
    let ms = nanos / 1_000_000;
    let us = nanos / 1_000;
    (if secs > 0 {
        spec_count_down_steps(((secs as u32) * 1_000) as u32, 1_000)
    } else {
        Seq::empty()
    }) + (if ms > 0 {
        spec_count_down_steps(ms as u32, 1_000)
    } else {
        Seq::empty()
    }) + (if us > 0 {
        spec_count_down_steps(us as u32, 1_000_000)
    } else {
        Seq::empty()
    })
}

/// The frequencies a count-down timer is started with to wait the given duration.
pub fn delay_steps(secs: u64, nanos: u32) -> (steps: Vec<Hertz>)
    requires
        nanos < 1_000_000_000,
        secs > 0 ==> 0 < (secs as u32) && (secs as u32) * 1_000 <= u32::MAX,
    ensures
        steps@ == spec_delay_steps(secs, nanos),
{
    let mut steps: Vec<Hertz> = Vec::new();
    if secs > 0 {
        let mut s = count_down_steps(secs as u32 * Milliseconds::SECS_FACTOR, Milliseconds::SECS_FACTOR);
        steps.append(&mut s);
    }
    let ms = nanos / 1_000_000;
    if ms > 0 {
        let mut s = count_down_steps(ms, Milliseconds::SECS_FACTOR);
        steps.append(&mut s);
    }
    let us = nanos / 1_000;
    if us > 0 {
        let mut s = count_down_steps(us, Microseconds::SECS_FACTOR);
        steps.append(&mut s);
    }
    assert(steps@ =~= spec_delay_steps(secs, nanos));
    steps
}

/// Waiting `timeout` units, `factor` to a second, takes as many timer steps as whole or
/// partial seconds the timeout spans: every step but the last waits a whole second (runs
/// at `factor` hertz), and the last waits the rest, between one unit and a second (runs at
/// `factor / rest` hertz).
pub proof fn lemma_count_down_steps(timeout: u32, factor: u32)
    requires
        timeout > 0,
        factor > 0,
    ensures
        ({
            let steps = spec_count_down_steps(timeout, factor);
            let n = steps.len();
            let rest = timeout - (n - 1) * factor;
            &&& n >= 1
            &&& n == (timeout + factor - 1) / (factor as int)
            &&& 0 < rest <= factor
            &&& forall|i: int| 0 <= i < n - 1 ==> #[trigger] steps[i] == Hertz(factor)
            &&& steps[n - 1] == Hertz(((factor as int) / rest) as u32)
        }),
    decreases timeout,
{
    let f = factor as int;
    let t = timeout as int;
    let steps = spec_count_down_steps(timeout, factor);
    if timeout > factor {
        let t2 = (timeout - factor) as u32;
        lemma_count_down_steps(t2, factor);
        let tail = spec_count_down_steps(t2, factor);
        let m = tail.len();
        assert(steps == seq![Hertz(factor)] + tail);
        assert(steps.len() == m + 1);
        // The count of seconds grows by one with the extra second.
        vstd::arithmetic::div_mod::lemma_fundamental_div_mod(t2 + f - 1, f);
        let q = (t2 + f - 1) / f;
        let r = (t2 + f - 1) % f;
        vstd::arithmetic::div_mod::lemma_mod_bound(t2 + f - 1, f);
        assert(t + f - 1 == (q + 1) * f + r) by (nonlinear_arith)
            requires
                t2 + f - 1 == f * q + r,
                t2 == t - f,
        ;
        vstd::arithmetic::div_mod::lemma_fundamental_div_mod_converse(t + f - 1, f, q + 1, r);
        assert(timeout - (steps.len() - 1) * factor == t2 - (m - 1) * factor) by (nonlinear_arith)
            requires
                steps.len() == m + 1,
                t2 == timeout - factor,
        ;
        assert forall|i: int| 0 <= i < steps.len() - 1 implies #[trigger] steps[i] == Hertz(factor) by {
            if i > 0 {
                assert(steps[i] == tail[i - 1]);
            }
        }
        assert(steps[steps.len() - 1] == tail[m - 1]);
    } else {
        assert(steps == seq![Hertz((factor / timeout) as u32)]);
        vstd::arithmetic::div_mod::lemma_fundamental_div_mod_converse(t + f - 1, f, 1, t - 1);
    }
}

/// A delay of whole seconds and a fraction waits the seconds first and then the fraction,
/// each as on its own: the seconds in one run of millisecond steps, and the fraction as
/// its milliseconds, then its microseconds (which count those milliseconds again). Nothing
/// is waited for less than a microsecond.
pub proof fn lemma_delay_parts(secs: u64, nanos: u32)
    requires
        nanos < 1_000_000_000,
        secs > 0 ==> (secs as u32) * 1_000 <= u32::MAX,
    ensures
        spec_delay_steps(secs, nanos) == spec_delay_steps(secs, 0) + spec_delay_steps(0, nanos),
        secs > 0 ==> spec_delay_steps(secs, 0) == spec_count_down_steps(
            ((secs as u32) * 1_000) as u32,
            1_000,
        ),
        spec_delay_steps(0, 0) == Seq::<Hertz>::empty(),
        nanos < 1_000 ==> spec_delay_steps(0, nanos) == Seq::<Hertz>::empty(),
        1_000 <= nanos < 1_000_000 ==> spec_delay_steps(0, nanos) == spec_count_down_steps(
            nanos / 1_000,
            1_000_000,
        ),
        1_000_000 <= nanos ==> spec_delay_steps(0, nanos) == spec_count_down_steps(
            nanos / 1_000_000,
            1_000,
        ) + spec_count_down_steps(nanos / 1_000, 1_000_000),
{
    assert(spec_delay_steps(secs, nanos) =~= spec_delay_steps(secs, 0) + spec_delay_steps(0, nanos));
    assert(spec_delay_steps(0, 0) =~= Seq::<Hertz>::empty());
    if secs > 0 {
        assert(spec_delay_steps(secs, 0) =~= spec_count_down_steps(
            ((secs as u32) * 1_000) as u32,
            1_000,
        ));
    }
    if nanos < 1_000 {
        assert(spec_delay_steps(0, nanos) =~= Seq::<Hertz>::empty());
    } else if nanos < 1_000_000 {
        assert(spec_delay_steps(0, nanos) =~= spec_count_down_steps(nanos / 1_000, 1_000_000));
    } else {
        assert(spec_delay_steps(0, nanos) =~= spec_count_down_steps(nanos / 1_000_000, 1_000)
            + spec_count_down_steps(nanos / 1_000, 1_000_000));
    }
}

} // verus!
