use vstd::prelude::*;
use crate::waveform::RampType;

verus! {

/// One scheduled ramp of an automated parameter.
#[derive(Clone, Copy, Debug)]
pub struct RampEvent<V> {
    pub start_value: V,
    pub end_value: V,
    pub start_sample: u64,
    pub duration_samples: u64,
    pub ramp_type: RampType,
}

/// What decides a parameter's value at one sample.
#[derive(Clone, Copy, Debug)]
pub enum RampPoint<V> {
    /// No scheduled ramp has started: the parameter's own value holds.
    Held(V),
    /// A ramp is under way: `elapsed` of its `duration` samples have passed.
    Ramping { start: V, end: V, ramp_type: RampType, elapsed: u64, duration: u64 },
    /// The latest started ramp has finished at `end`.
    Reached(V),
}

/// The mathematical state of a parameter: its value, its default and its
/// ramps in the order they were scheduled.
pub struct ParamModel<V> {
    pub current: V,
    pub default: V,
    pub events: Seq<RampEvent<V>>,
}

/// Index of the last event that has started by sample `s`, or -1.
pub open spec fn latest_started<V>(events: Seq<RampEvent<V>>, s: u64) -> int
    decreases events.len(),
{
    if events.len() == 0 {
        -1
    } else if events.last().start_sample <= s {
        events.len() - 1
    } else {
        latest_started(events.drop_last(), s)
    }
}

/// `latest_started` picks the last event whose start has been reached.
pub proof fn lemma_latest_started<V>(events: Seq<RampEvent<V>>, s: u64)
    ensures
        -1 <= latest_started(events, s) < events.len(),
        latest_started(events, s) >= 0 ==> events[latest_started(events, s)].start_sample <= s,
        forall|j: int|
            latest_started(events, s) < j < events.len() ==> #[trigger] events[j].start_sample > s,
    decreases events.len(),
{
    if events.len() > 0 && events.last().start_sample > s {
        lemma_latest_started(events.drop_last(), s);
        assert forall|j: int| latest_started(events, s) < j < events.len() implies #[trigger] events[j].start_sample > s by {
            if j < events.len() - 1 {
                assert(events.drop_last()[j] == events[j]);
            }
        }
    }
}

/// The point that the event `e`, once started, gives at sample `s`.
pub open spec fn event_point<V>(e: RampEvent<V>, s: u64) -> RampPoint<V> {
    if s - e.start_sample < e.duration_samples {
        RampPoint::Ramping {
            start: e.start_value,
            end: e.end_value,
            ramp_type: e.ramp_type,
            elapsed: (s - e.start_sample) as u64,
            duration: e.duration_samples,
        }
    } else {
        RampPoint::Reached(e.end_value)
    }
}

/// The value at sample `s` is decided by the last event that has started by
/// then; with none, by the parameter's own value.
pub open spec fn point_at<V>(current: V, events: Seq<RampEvent<V>>, s: u64) -> RampPoint<V> {
    let i = latest_started(events, s);
    if i < 0 {
        RampPoint::Held(current)
    } else {
        event_point(events[i], s)
    }
}

/// A requested length in samples, with a ramp lasting at least one sample.
pub open spec fn ramp_length(samples: u64) -> u64 {
    if samples == 0 { 1 } else { samples }
}

impl<V> ParamModel<V> {
    pub open spec fn value_point(self, s: u64) -> RampPoint<V> {
        point_at(self.current, self.events, s)
    }

    pub open spec fn with_value(self, v: V) -> Self {
        ParamModel { current: v, ..self }
    }

    pub open spec fn with_ramp(
        self,
        target: V,
        samples: u64,
        anchor: u64,
        ramp_type: RampType,
    ) -> Self {
        ParamModel {
            events: self.events.push(
                RampEvent {
                    start_value: self.current,
                    end_value: target,
                    start_sample: anchor,
                    duration_samples: ramp_length(samples),
                    ramp_type,
                },
            ),
            ..self
        }
    }

    pub open spec fn cancelled(self) -> Self {
        ParamModel { events: Seq::empty(), ..self }
    }

    pub open spec fn reset(self) -> Self {
        ParamModel { current: self.default, default: self.default, events: Seq::empty() }
    }

    /// Every ramp lasts at least one sample.
    pub open spec fn well_formed(self) -> bool {
        forall|i: int| 0 <= i < self.events.len() ==> #[trigger] self.events[i].duration_samples >= 1
    }
}

/// With nothing scheduled, the value last set holds at every sample.
pub proof fn lemma_set_value_holds<V>(p: ParamModel<V>, v: V, s: u64)
    requires
        p.events.len() == 0,
    ensures
        p.with_value(v).value_point(s) == RampPoint::Held(v),
{
}

/// After a reset the default holds at every sample.
pub proof fn lemma_reset_holds_default<V>(p: ParamModel<V>, s: u64)
    ensures
        p.reset().value_point(s) == RampPoint::Held(p.default),
{
}

/// After cancelling, whatever was scheduled, the present value holds at every
/// sample.
pub proof fn lemma_cancel_holds_current<V>(p: ParamModel<V>, s: u64)
    ensures
        p.cancelled().value_point(s) == RampPoint::Held(p.current),
{
}

/// A ramp scheduled last, from the present value over `samples` samples at
/// `anchor`: `k` samples later it is under way with `k` of `samples` elapsed
/// while `k < samples`, and from then on it has reached its target.
pub proof fn lemma_ramp_progress<V>(
    p: ParamModel<V>,
    target: V,
    samples: u64,
    anchor: u64,
    ramp_type: RampType,
    k: u64,
)
    requires
        samples >= 1,
        anchor + k <= u64::MAX,
    ensures
        p.with_ramp(target, samples, anchor, ramp_type).value_point((anchor + k) as u64) == if k
            < samples {
            RampPoint::Ramping {
                start: p.current,
                end: target,
                ramp_type,
                elapsed: k,
                duration: samples,
            }
        } else {
            RampPoint::Reached(target)
        },
{
    let q = p.with_ramp(target, samples, anchor, ramp_type);
    assert(q.events.last() == q.events[q.events.len() - 1]);
}

/// A ramp of zero length lasts one sample: it starts at its anchor and has
/// reached its target one sample later.
pub proof fn lemma_zero_length_ramp<V>(
    p: ParamModel<V>,
    target: V,
    anchor: u64,
    ramp_type: RampType,
)
    requires
        anchor < u64::MAX,
    ensures
        p.with_ramp(target, 0, anchor, ramp_type).events.last().duration_samples == 1,
        p.with_ramp(target, 0, anchor, ramp_type).value_point(anchor) == (RampPoint::Ramping {
            start: p.current,
            end: target,
            ramp_type,
            elapsed: 0,
            duration: 1,
        }),
        p.with_ramp(target, 0, anchor, ramp_type).value_point((anchor + 1) as u64)
            == RampPoint::Reached(target),
{
    let q = p.with_ramp(target, 0, anchor, ramp_type);
    assert(q.events.last() == q.events[q.events.len() - 1]);
}

/// An automated parameter's value, default and schedule of ramps.
///
/// Values are carried as they are given: bounding them to the parameter's
/// range, and computing a value inside a ramp, is the caller's part.
pub struct ParamSchedule<V> {
    current: V,
    default: V,
    events: Vec<RampEvent<V>>,
}

impl<V> View for ParamSchedule<V> {
    type V = ParamModel<V>;

    closed spec fn view(&self) -> ParamModel<V> {
        ParamModel { current: self.current, default: self.default, events: self.events@ }
    }
}

impl<V: Copy> ParamSchedule<V> {
    /// A parameter at its default with nothing scheduled.
    pub fn new(default: V) -> (r: Self)
        ensures
            r@ == (ParamModel { current: default, default, events: Seq::<RampEvent<V>>::empty() }),
            r@.well_formed(),
    {
        ParamSchedule { current: default, default, events: Vec::new() }
    }

    pub fn current(&self) -> (r: V)
        ensures
            r == self@.current,
    {
        self.current
    }

    pub fn default_value(&self) -> (r: V)
        ensures
            r == self@.default,
    {
        self.default
    }

    pub fn event_count(&self) -> (r: usize)
        ensures
            r == self@.events.len(),
    {
        self.events.len()
    }

    pub fn event(&self, i: usize) -> (r: RampEvent<V>)
        requires
            i < self@.events.len(),
        ensures
            r == self@.events[i as int],
    {
        self.events[i]
    }

    /// Replaces the parameter's own value. Scheduled ramps stay and, once
    /// started, still decide the value.
    pub fn set_value(&mut self, value: V)
        ensures
            final(self)@ == old(self)@.with_value(value),
    {
        self.current = value;
    }

    /// Appends a ramp from the present value to `target`, starting at sample
    /// `anchor` and lasting `samples` samples (one at least).
    pub fn schedule(&mut self, target: V, samples: u64, anchor: u64, ramp_type: RampType)
        ensures
            final(self)@ == old(self)@.with_ramp(target, samples, anchor, ramp_type),
            old(self)@.well_formed() ==> final(self)@.well_formed(),
    {
        let duration_samples = if samples == 0 { 1 } else { samples };
        let event = RampEvent {
            start_value: self.current,
            end_value: target,
            start_sample: anchor,
            duration_samples,
            ramp_type,
        };
        self.events.push(event);
    }

    /// Drops every scheduled ramp.
    pub fn cancel_scheduled_values(&mut self)
        ensures
            final(self)@ == old(self)@.cancelled(),
            final(self)@.well_formed(),
    {
        self.events.clear();
        assert(self.events@ =~= Seq::<RampEvent<V>>::empty());
    }

    /// Returns to the default value with nothing scheduled.
    pub fn reset(&mut self)
        ensures
            final(self)@ == old(self)@.reset(),
            final(self)@.well_formed(),
    {
        self.current = self.default;
        self.events.clear();
        assert(self.events@ =~= Seq::<RampEvent<V>>::empty());
    }

    /// A copy with the same value, default and schedule.
    pub fn duplicate(&self) -> (r: Self)
        ensures
            r@ == self@,
    {
        let mut events: Vec<RampEvent<V>> = Vec::new();
        let mut i: usize = 0;
        while i < self.events.len()
            invariant
                i <= self.events@.len(),
                events@ == self.events@.take(i as int),
            decreases self.events@.len() - i,
        {
            events.push(self.events[i]);
            i += 1;
            assert(events@ =~= self.events@.take(i as int));
        }
        assert(self.events@.take(i as int) =~= self.events@);
        ParamSchedule { current: self.current, default: self.default, events }
    }

    /// Index of the last scheduled ramp that has started by sample `s`.
    fn latest_started_index(&self, s: u64) -> (r: Option<usize>)
        ensures
            r is None <==> latest_started(self@.events, s) < 0,
            r matches Some(i) ==> i == latest_started(self@.events, s),
    {
        let mut found: Option<usize> = None;
        let mut i: usize = 0;
        while i < self.events.len()
            invariant
                i <= self.events@.len(),
                found is None <==> latest_started(self.events@.take(i as int), s) < 0,
                found matches Some(j) ==> j == latest_started(self.events@.take(i as int), s),
            decreases self.events@.len() - i,
        {
            let prefix = Ghost(self.events@.take(i as int + 1));
            assert(prefix@.drop_last() =~= self.events@.take(i as int));
            assert(prefix@.last() == self.events@[i as int]);
            if self.events[i].start_sample <= s {
                found = Some(i);
            }
            i += 1;
        }
        assert(self.events@.take(i as int) =~= self.events@);
        found
    }

    /// What decides the value at sample `s`.
    pub fn value_point(&self, s: u64) -> (r: RampPoint<V>)
        ensures
            r == self@.value_point(s),
    {
        proof {
            lemma_latest_started(self@.events, s);
        }
        match self.latest_started_index(s) {
            None => RampPoint::Held(self.current),
            Some(i) => {
                let e = self.events[i];
                let elapsed = s - e.start_sample;
                if elapsed < e.duration_samples {
                    RampPoint::Ramping {
                        start: e.start_value,
                        end: e.end_value,
                        ramp_type: e.ramp_type,
                        elapsed,
                        duration: e.duration_samples,
                    }
                } else {
                    RampPoint::Reached(e.end_value)
                }
            },
        }
    }
}

} // verus!
