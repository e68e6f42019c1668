//! The bounded, insertion-ordered history of progress readings.
use crate::clock::{millis_since, monotonic_now, saturate_millis, wall_clock_millis};
use crate::eta::{estimate_eta, eta_of};
use crate::extract::{progress_of, FractionMatcher, ProgressMatcher};
use crate::rate::{analyze_rate, series_of, RatePoint};
use crate::runner::CmdOutput;
use std::collections::VecDeque;
use std::time::Instant;
use vstd::prelude::*;

verus! {

/// Most samples the store keeps; appending beyond it evicts the oldest.
pub const CAPACITY: usize = 1000;

/// One observed progress reading, such as `123/456`.
#[derive(Clone, Copy, Debug, PartialEq, Eq, Structural)]
pub struct Sample {
    /// Monotonic capture time, in milliseconds since the store's clock origin.
    pub instant: u64,
    /// Calendar capture time, in milliseconds since the Unix epoch.
    pub time: u64,
    pub value: u64,
    pub max: u64,
}

/// The history after appending `s` to `q`: `s` goes to the newest end and,
/// when that makes the history longer than `CAPACITY`, the oldest sample leaves.
pub open spec fn bounded_push(q: Seq<Sample>, s: Sample) -> Seq<Sample> {
    if q.len() + 1 > CAPACITY {
        q.push(s).drop_first()
    } else {
        q.push(s)
    }
}

/// The history after appending each of `xs`, in order, to `q`.
pub open spec fn appended(q: Seq<Sample>, xs: Seq<Sample>) -> Seq<Sample>
    decreases xs.len(),
{
    if xs.len() == 0 {
        q
    } else {
        appended(bounded_push(q, xs[0]), xs.drop_first())
    }
}

/// The newest `CAPACITY` elements of `q` (all of them when there are fewer).
pub open spec fn newest(q: Seq<Sample>) -> Seq<Sample> {
    if q.len() > CAPACITY {
        q.subrange(q.len() - CAPACITY, q.len() as int)
    } else {
        q
    }
}

/// Whatever samples are appended to a store holding at most `CAPACITY` samples,
/// the store afterwards holds exactly the newest `CAPACITY` samples of the old
/// contents followed by the new ones, in insertion order: it never grows beyond
/// `CAPACITY`, and eviction always removes the oldest sample first.
pub proof fn lemma_bounded_fifo(q: Seq<Sample>, xs: Seq<Sample>)
    requires
        q.len() <= CAPACITY,
    ensures
        appended(q, xs) == newest(q + xs),
        appended(q, xs).len() <= CAPACITY,
    decreases xs.len(),
{
    if xs.len() > 0 {
        let q1 = bounded_push(q, xs[0]);
        lemma_bounded_fifo(q1, xs.drop_first());
        assert(q1 + xs.drop_first() =~= newest(q + xs.take(1)) + xs.drop_first());
        assert(q + xs =~= (q + xs.take(1)) + xs.drop_first());
        let whole = q + xs;
        if whole.len() > CAPACITY {
            assert(newest(q1 + xs.drop_first()) =~= newest(whole));
        } else {
            assert(q1 + xs.drop_first() =~= whole);
        }
    }
}

/// Appending one sample more than `CAPACITY` to an empty store leaves exactly
/// `CAPACITY` samples: the second through the last of those appended.
pub proof fn lemma_one_past_capacity(xs: Seq<Sample>)
    requires
        xs.len() == CAPACITY + 1,
    ensures
        appended(Seq::empty(), xs) == xs.subrange(1, xs.len() as int),
        appended(Seq::empty(), xs).len() == CAPACITY,
{
    lemma_bounded_fifo(Seq::empty(), xs);
    assert(Seq::<Sample>::empty() + xs =~= xs);
}

/// What the status pane shows for a history.
#[derive(Clone, Copy, Debug, PartialEq, Eq, Structural)]
pub enum Status {
    /// Fewer than two samples: no estimate can be made yet.
    Waiting,
    /// The newest reading, and the whole seconds left until it reaches its
    /// maximum when that is known.
    Progress { value: u64, max: u64, eta: Option<u128> },
}

/// The status for a history, estimating from its oldest and newest samples.
pub open spec fn status_of(q: Seq<Sample>) -> Status {
    if q.len() < 2 {
        Status::Waiting
    } else {
        let first = q[0];
        let last = q.last();
        let elapsed = if first.instant <= last.instant {
            (last.instant - first.instant) as u64
        } else {
            0
        };
        Status::Progress {
            value: last.value,
            max: last.max,
            eta: eta_of(first.value, last.value, last.max, elapsed),
        }
    }
}

/// The sample store: a bounded first-in, first-out history of samples.
pub struct Analyzer {
    samples: VecDeque<Sample>,
    /// The moment that monotonic sample times count from.
    origin: Instant,
}

impl Analyzer {
    /// The samples held, oldest first.
    pub closed spec fn view(&self) -> Seq<Sample> {
        self.samples@
    }

    pub open spec fn wf(&self) -> bool {
        self@.len() <= CAPACITY
    }

    pub fn new() -> (r: Self)
        ensures
            r@ == Seq::<Sample>::empty(),
            r.wf(),
    {
        Analyzer { samples: VecDeque::new(), origin: monotonic_now() }
    }

    /// Appends `s` at the newest end, evicting the oldest sample when the
    /// store would otherwise exceed `CAPACITY`.
    pub fn push_sample(&mut self, s: Sample)
        requires
            old(self).wf(),
        ensures
            final(self).wf(),
            final(self)@ == bounded_push(old(self)@, s),
    {
        self.samples.push_back(s);
        if self.samples.len() > CAPACITY {
            let _ = self.samples.pop_front();
        }
    }

    /// Looks for a reading in the output's stdout with `matcher` and, when
    /// there is one, appends it stamped with the given times; otherwise leaves
    /// the store as it was.
    pub fn process_output_with<M: ProgressMatcher>(
        &mut self,
        matcher: &M,
        outp: &CmdOutput,
        instant: u64,
        time: u64,
    )
        requires
            old(self).wf(),
        ensures
            final(self).wf(),
            final(self)@ == match matcher.reading(outp.stdout@) {
                None => old(self)@,
                Some((value, max)) => bounded_push(
                    old(self)@,
                    Sample { instant, time, value, max },
                ),
            },
    {
        match matcher.find(outp.stdout.as_str()) {
            Some((value, max)) => self.push_sample(Sample { instant, time, value, max }),
            None => {},
        }
    }

    /// Extracts the leftmost `<digits>/<digits>` reading from the output's
    /// stdout and, when there is one, appends it stamped with the given times;
    /// otherwise leaves the store as it was.
    pub fn process_output_at(&mut self, outp: &CmdOutput, instant: u64, time: u64)
        requires
            old(self).wf(),
        ensures
            final(self).wf(),
            final(self)@ == match progress_of(outp.stdout@) {
                None => old(self)@,
                Some((value, max)) => bounded_push(
                    old(self)@,
                    Sample { instant, time, value, max },
                ),
            },
    {
        self.process_output_with(&FractionMatcher, outp, instant, time)
    }

    /// Like `process_output_at`, stamping the sample with the current
    /// monotonic and calendar time.
    pub fn process_output(&mut self, outp: &CmdOutput)
        requires
            old(self).wf(),
        ensures
            final(self).wf(),
            match progress_of(outp.stdout@) {
                None => final(self)@ == old(self)@,
                Some((value, max)) => {
                    &&& final(self)@ == bounded_push(old(self)@, final(self)@.last())
                    &&& final(self)@.last().value == value
                    &&& final(self)@.last().max == max
                },
            },
    {
        let instant = saturate_millis(millis_since(&self.origin));
        let time = match wall_clock_millis() {
            Some(ms) => saturate_millis(ms),
            None => 0,
        };
        self.process_output_at(outp, instant, time);
    }

    /// The rate series over the samples held.
    pub fn rate_series(&self) -> (r: Vec<RatePoint>)
        ensures
            r@ == series_of(self@),
    {
        let s = self.snapshot();
        analyze_rate(s.as_slice())
    }

    /// The newest reading and the completion estimate, or `Waiting` while
    /// fewer than two samples are held.
    pub fn status(&self) -> (r: Status)
        ensures
            r == status_of(self@),
    {
        let n = self.samples.len();
        if n < 2 {
            return Status::Waiting;
        }
        let first = self.samples[0];
        let last = self.samples[n - 1];
        let elapsed = if first.instant <= last.instant {
            last.instant - first.instant
        } else {
            0
        };
        Status::Progress {
            value: last.value,
            max: last.max,
            eta: estimate_eta(first.value, last.value, last.max, elapsed),
        }
    }

    pub fn len(&self) -> (r: usize)
        ensures
            r == self@.len(),
    {
        self.samples.len()
    }

    /// A point-in-time copy of the samples, oldest first.
    pub fn snapshot(&self) -> (r: Vec<Sample>)
        ensures
            r@ == self@,
    {
        let mut out: Vec<Sample> = Vec::new();
        let n = self.samples.len();
        let mut i: usize = 0;
        while i < n
            invariant
                n == self@.len(),
                i <= n,
                out@ == self@.subrange(0, i as int),
            decreases n - i,
        {
            out.push(self.samples[i]);
            i += 1;
            assert(out@ =~= self@.subrange(0, i as int));
        }
        assert(out@ =~= self@);
        out
    }
}

} // verus!
