//! Finds a progress reading of the shape `<digits>/<digits>` in command output.
use vstd::prelude::*;
use vstd::utf8::encode_utf8;

verus! {

pub open spec fn is_digit(c: u8) -> bool {
    0x30 <= c <= 0x39
}

/// The end of the run of digits that starts at `i`: the first index at or
/// after `i` that is past the end of `b` or holds no digit.
pub open spec fn run_end(b: Seq<u8>, i: int) -> int
    decreases b.len() - i,
{
    if 0 <= i < b.len() && is_digit(b[i]) {
        run_end(b, i + 1)
    } else {
        i
    }
}

/// A match of `[0-9]+/[0-9]+` starts at `i`.
pub open spec fn matches_at(b: Seq<u8>, i: int) -> bool {
    let j = run_end(b, i);
    &&& 0 <= i < b.len()
    &&& is_digit(b[i])
    &&& j + 1 < b.len()
    &&& b[j] == 0x2f
    &&& is_digit(b[j + 1])
}

/// The leftmost start of a match at or after `i`.
pub open spec fn first_match_from(b: Seq<u8>, i: int) -> Option<int>
    decreases b.len() - i,
{
    if i < 0 || i >= b.len() {
        None
    } else if matches_at(b, i) {
        Some(i)
    } else {
        first_match_from(b, i + 1)
    }
}

/// The number written in decimal by the digits `d`.
pub open spec fn digits_value(d: Seq<u8>) -> nat
    decreases d.len(),
{
    if d.len() == 0 {
        0
    } else {
        digits_value(d.drop_last()) * 10 + (d.last() - 0x30) as nat
    }
}

/// The reading in `b`: the two numbers of the leftmost `[0-9]+/[0-9]+` match,
/// where the digit runs are taken whole. There is none when nothing matches or
/// when either number does not fit in a `u64`.
pub open spec fn progress_in(b: Seq<u8>) -> Option<(u64, u64)> {
    match first_match_from(b, 0) {
        None => None,
        Some(i) => {
            let j = run_end(b, i);
            let k = run_end(b, j + 1);
            let v = digits_value(b.subrange(i, j));
            let m = digits_value(b.subrange(j + 1, k));
            if v <= u64::MAX && m <= u64::MAX {
                Some((v as u64, m as u64))
            } else {
                None
            }
        },
    }
}

/// The reading in the text `t`, found in its UTF-8 encoding.
pub open spec fn progress_of(t: Seq<char>) -> Option<(u64, u64)> {
    progress_in(encode_utf8(t))
}

/// A detection rule: finds at most one `(value, max)` reading in a text.
pub trait ProgressMatcher {
    /// The reading that the rule finds in `text`.
    spec fn reading(&self, text: Seq<char>) -> Option<(u64, u64)>;

    fn find(&self, text: &str) -> (r: Option<(u64, u64)>)
        ensures
            r == self.reading(text@),
    ;
}

/// The default rule: the leftmost `<digits>/<digits>`.
pub struct FractionMatcher;

impl ProgressMatcher for FractionMatcher {
    open spec fn reading(&self, text: Seq<char>) -> Option<(u64, u64)> {
        progress_of(text)
    }

    fn find(&self, text: &str) -> (r: Option<(u64, u64)>) {
        parse_progress(text)
    }
}

proof fn lemma_run_end_bounds(b: Seq<u8>, i: int)
    requires
        0 <= i <= b.len(),
    ensures
        i <= run_end(b, i) <= b.len(),
        forall|k: int| i <= k < run_end(b, i) ==> is_digit(b[k]),
    decreases b.len() - i,
{
    if i < b.len() && is_digit(b[i]) {
        lemma_run_end_bounds(b, i + 1);
    }
}

/// Every position inside a run of digits ends that run at the same place.
proof fn lemma_run_end_inner(b: Seq<u8>, i: int, k: int)
    requires
        0 <= i <= k < run_end(b, i),
    ensures
        run_end(b, k) == run_end(b, i),
    decreases k - i,
{
    if i < k {
        lemma_run_end_inner(b, i + 1, k);
    }
}

proof fn lemma_digits_value_grows(d: Seq<u8>, n: int)
    requires
        0 <= n <= d.len(),
        forall|k: int| 0 <= k < d.len() ==> is_digit(d[k]),
    ensures
        digits_value(d.take(n)) <= digits_value(d),
    decreases d.len() - n,
{
    if n < d.len() {
        lemma_digits_value_grows(d, n + 1);
        let t = d.take(n + 1);
        assert(t.drop_last() =~= d.take(n));
        let x = digits_value(d.take(n));
        assert(x <= x * 10) by (nonlinear_arith);
    } else {
        assert(d.take(n) =~= d);
    }
}

/// The run of digits `b[start..end]` as a number, when it fits in a `u64`.
fn parse_digits(b: &[u8], start: usize, end: usize) -> (r: Option<u64>)
    requires
        start <= end <= b@.len(),
        forall|k: int| start <= k < end ==> is_digit(b@[k]),
    ensures
        r == (if digits_value(b@.subrange(start as int, end as int)) <= u64::MAX {
            Some(digits_value(b@.subrange(start as int, end as int)) as u64)
        } else {
            None
        }),
{
    let ghost d = b@.subrange(start as int, end as int);
    let mut v: u64 = 0;
    let mut i: usize = start;
    while i < end
        invariant
            start <= i <= end <= b@.len(),
            d == b@.subrange(start as int, end as int),
            forall|k: int| start <= k < end ==> is_digit(b@[k]),
            v as nat == digits_value(d.take(i - start)),
        decreases end - i,
    {
        assert(d.take(i - start + 1).drop_last() =~= d.take(i - start));
        let next: u128 = v as u128 * 10 + (b[i] - 0x30u8) as u128;
        if next > u64::MAX as u128 {
            proof {
                lemma_digits_value_grows(d, i - start + 1);
            }
            return None;
        }
        v = next as u64;
        i += 1;
    }
    assert(d.take(end - start) =~= d);
    Some(v)
}

/// Finds the leftmost `<digits>/<digits>` in `text` and reads both numbers.
pub fn parse_progress(text: &str) -> (r: Option<(u64, u64)>)
    ensures
        r == progress_of(text@),
{
    let b: &[u8] = text.as_bytes();
    let n = b.len();
    let mut i: usize = 0;
    while i < n
        invariant
            n == b@.len(),
            b@ == encode_utf8(text@),
            i <= n,
            first_match_from(b@, 0) == first_match_from(b@, i as int),
        decreases n - i,
    {
        if b[i] < 0x30 || b[i] > 0x39 {
            i += 1;
            continue;
        }
        let mut j: usize = i;
        while j < n && b[j] >= 0x30 && b[j] <= 0x39
            invariant
                i <= j <= n,
                n == b@.len(),
                run_end(b@, i as int) == run_end(b@, j as int),
            decreases n - j,
        {
            j += 1;
        }
        assert(run_end(b@, j as int) == j as int);
        proof {
            lemma_run_end_bounds(b@, i as int);
        }
        if n - j > 1 && b[j] == 0x2f && b[j + 1] >= 0x30 && b[j + 1] <= 0x39 {
            assert(matches_at(b@, i as int));
            let mut k: usize = j + 1;
            while k < n && b[k] >= 0x30 && b[k] <= 0x39
                invariant
                    j + 1 <= k <= n,
                    n == b@.len(),
                    run_end(b@, j + 1) == run_end(b@, k as int),
                decreases n - k,
            {
                k += 1;
            }
            assert(run_end(b@, k as int) == k as int);
            assert(first_match_from(b@, i as int) == Some(i as int));
            proof {
                lemma_run_end_bounds(b@, j + 1);
            }
            let v = parse_digits(b, i, j);
            let m = parse_digits(b, j + 1, k);
            let r = match (v, m) {
                (Some(v), Some(m)) => Some((v, m)),
                _ => None,
            };
            return r;
        }
        assert forall|k: int| i <= k < j implies !matches_at(b@, k) by {
            lemma_run_end_inner(b@, i as int, k);
        }
        assert forall|k: int| i <= k <= j implies first_match_from(b@, k)
            == first_match_from(b@, j as int) by {
            lemma_first_match_skip(b@, k, j as int);
        }
        i = j;
    }
    None
}

proof fn lemma_first_match_skip(b: Seq<u8>, k: int, j: int)
    requires
        0 <= k <= j <= b.len(),
        forall|x: int| k <= x < j ==> !matches_at(b, x),
    ensures
        first_match_from(b, k) == first_match_from(b, j),
    decreases j - k,
{
    if k < j {
        lemma_first_match_skip(b, k + 1, j);
    }
}

} // verus!
