//! The rate-of-change series derived from the sample history.
use crate::store::Sample;
use vstd::prelude::*;

verus! {

/// The rate between two samples, kept exact as a change in value over a
/// change in monotonic time (milliseconds), keyed at the earlier sample's time.
#[derive(Clone, Copy, Debug, PartialEq, Eq, Structural)]
pub struct RatePoint {
    pub at: u64,
    pub delta_value: i128,
    pub delta_time: u64,
}

/// The value changed between `a` and the later sample `b`, over positive time.
pub open spec fn is_change(a: Sample, b: Sample) -> bool {
    a.value != b.value && a.instant < b.instant
}

pub open spec fn step_of(a: Sample, b: Sample) -> RatePoint {
    RatePoint {
        at: a.instant,
        delta_value: (b.value - a.value) as i128,
        delta_time: (b.instant - a.instant) as u64,
    }
}

/// One rate for each pair of consecutive samples across which the value
/// changed; flat pairs give none.
pub open spec fn changes_of(s: Seq<Sample>) -> Seq<RatePoint>
    decreases s.len(),
{
    if s.len() < 2 {
        Seq::empty()
    } else {
        let prev = changes_of(s.drop_last());
        let a = s[s.len() - 2];
        let b = s[s.len() - 1];
        if is_change(a, b) {
            prev.push(step_of(a, b))
        } else {
            prev
        }
    }
}

/// The rate series shown: the changes without the first one, which serves as
/// warm-up.
pub open spec fn series_of(s: Seq<Sample>) -> Seq<RatePoint> {
    let c = changes_of(s);
    if c.len() == 0 {
        c
    } else {
        c.drop_first()
    }
}

/// The rates across every change of value in `samples`, oldest first.
pub fn rate_changes(samples: &[Sample]) -> (r: Vec<RatePoint>)
    ensures
        r@ == changes_of(samples@),
{
    let mut out: Vec<RatePoint> = Vec::new();
    let n = samples.len();
    if n < 2 {
        return out;
    }
    let mut i: usize = 1;
    while i < n
        invariant
            n == samples@.len(),
            1 <= i <= n,
            out@ == changes_of(samples@.subrange(0, i as int)),
        decreases n - i,
    {
        let a = samples[i - 1];
        let b = samples[i];
        let ghost s1 = samples@.subrange(0, i + 1);
        assert(s1.drop_last() =~= samples@.subrange(0, i as int));
        if a.value != b.value && a.instant < b.instant {
            let dv: i128 = b.value as i128 - a.value as i128;
            out.push(RatePoint { at: a.instant, delta_value: dv, delta_time: b.instant - a.instant });
        }
        i += 1;
    }
    assert(samples@.subrange(0, n as int) =~= samples@);
    out
}

/// The rate series of `samples`: the rates across changes of value, oldest
/// first, without the first of them.
pub fn analyze_rate(samples: &[Sample]) -> (r: Vec<RatePoint>)
    ensures
        r@ == series_of(samples@),
{
    let mut c = rate_changes(samples);
    if c.len() > 0 {
        let _ = c.remove(0);
        assert(c@ =~= changes_of(samples@).drop_first());
    }
    c
}

/// Every rate of the series spans positive time over which the value
/// changed, and stands for a pair of consecutive samples: the series never
/// holds an entry for a flat interval.
pub proof fn lemma_series_skips_flat(s: Seq<Sample>)
    ensures
        forall|k: int|
            0 <= k < series_of(s).len() ==> {
                let p = #[trigger] series_of(s)[k];
                &&& p.delta_value != 0
                &&& p.delta_time > 0
                &&& exists|i: int|
                    #![trigger s[i]]
                    0 < i < s.len() && is_change(s[i - 1], s[i]) && p == step_of(s[i - 1], s[i])
            },
{
    lemma_changes_are_steps(s);
    let c = changes_of(s);
    if c.len() > 0 {
        assert forall|k: int| 0 <= k < series_of(s).len() implies series_of(s)[k] == c[k + 1] by {}
    }
}

proof fn lemma_changes_are_steps(s: Seq<Sample>)
    ensures
        forall|k: int|
            0 <= k < changes_of(s).len() ==> {
                let p = #[trigger] changes_of(s)[k];
                &&& p.delta_value != 0
                &&& p.delta_time > 0
                &&& exists|i: int|
                    #![trigger s[i]]
                    0 < i < s.len() && is_change(s[i - 1], s[i]) && p == step_of(s[i - 1], s[i])
            },
    decreases s.len(),
{
    if s.len() >= 2 {
        let t = s.drop_last();
        lemma_changes_are_steps(t);
        assert forall|k: int| 0 <= k < changes_of(s).len() implies {
            let p = #[trigger] changes_of(s)[k];
            &&& p.delta_value != 0
            &&& p.delta_time > 0
            &&& exists|i: int|
                #![trigger s[i]]
                0 < i < s.len() && is_change(s[i - 1], s[i]) && p == step_of(s[i - 1], s[i])
        } by {
            if k < changes_of(t).len() {
                let p = changes_of(t)[k];
                let i = choose|i: int|
                    #![trigger t[i]]
                    0 < i < t.len() && is_change(t[i - 1], t[i]) && p == step_of(t[i - 1], t[i]);
                assert(s[i - 1] == t[i - 1] && s[i] == t[i]);
            } else {
                let i = s.len() - 1;
                assert(is_change(s[i - 1], s[i]));
            }
        }
    }
}

} // verus!
