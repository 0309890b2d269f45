use vstd::prelude::*;
use vstd::arithmetic::div_mod::{
    lemma_div_by_multiple, lemma_div_is_ordered, lemma_mod_division_less_than_divisor,
    lemma_add_mod_noop_right, lemma_small_mod,
};

verus! {

/// The sum of a window of samples.
pub open spec fn sample_sum(s: Seq<u64>) -> int
    decreases s.len(),
{
    if s.len() == 0 {
        0
    } else {
        s[0] + sample_sum(s.subrange(1, s.len() as int))
    }
}

proof fn lemma_sample_sum_update(s: Seq<u64>, i: int, v: u64)
    requires
        0 <= i < s.len(),
    ensures
        sample_sum(s.update(i, v)) == sample_sum(s) - s[i] + v,
    decreases s.len(),
{
    let t = s.update(i, v);
    if i == 0 {
        assert(t.subrange(1, t.len() as int) =~= s.subrange(1, s.len() as int));
    } else {
        assert(t.subrange(1, t.len() as int) =~= s.subrange(1, s.len() as int).update(
            i - 1,
            v,
        ));
        lemma_sample_sum_update(s.subrange(1, s.len() as int), i - 1, v);
    }
}

proof fn lemma_sample_sum_le(s: Seq<u64>, m: u64)
    requires
        forall|j: int| 0 <= j < s.len() ==> s[j] <= m,
    ensures
        0 <= sample_sum(s) <= s.len() * m,
    decreases s.len(),
{
    if s.len() > 0 {
        lemma_sample_sum_le(s.subrange(1, s.len() as int), m);
        assert(s.len() * m == (s.len() - 1) * m + m) by (nonlinear_arith);
    }
}

proof fn lemma_sample_sum_element_le(s: Seq<u64>, i: int)
    requires
        0 <= i < s.len(),
    ensures
        s[i] <= sample_sum(s),
    decreases s.len(),
{
    if i == 0 {
        lemma_sample_sum_le(s.subrange(1, s.len() as int), u64::MAX);
    } else {
        lemma_sample_sum_element_le(s.subrange(1, s.len() as int), i - 1);
        assert(sample_sum(s) >= sample_sum(s.subrange(1, s.len() as int)));
    }
}

proof fn lemma_sample_sum_constant(s: Seq<u64>, v: u64)
    requires
        forall|j: int| 0 <= j < s.len() ==> s[j] == v,
    ensures
        sample_sum(s) == s.len() * v,
    decreases s.len(),
{
    if s.len() > 0 {
        lemma_sample_sum_constant(s.subrange(1, s.len() as int), v);
        assert(s.len() * v == (s.len() - 1) * v + v) by (nonlinear_arith);
    }
}

/// A rolling frames-per-second estimator: a ring buffer of the last
/// `measurements.len()` instantaneous samples plus their running sum.
/// One sample is recorded per rendered frame; the reported value is the
/// truncating integer average of the stored window.
///
/// Samples are plain integers; a caller working in fractional
/// frames-per-second scales its values to a fixed-point unit of its choice
/// before recording them.
pub struct FpsCounter {
    pub measurements: Vec<u64>,
    pub idx: usize,
    pub sum: u128,
}

impl FpsCounter {
    /// The ring cursor is in range and the running sum really is the sum of
    /// the stored window.
    pub open spec fn wf(&self) -> bool {
        &&& self.measurements@.len() >= 1
        &&& self.idx < self.measurements@.len()
        &&& self.sum == sample_sum(self.measurements@)
    }

    pub open spec fn capacity(&self) -> int {
        self.measurements@.len() as int
    }

    /// A fresh counter: a window of `num_measurements` zero samples.
    pub fn new(num_measurements: usize) -> (c: FpsCounter)
        requires
            num_measurements >= 1,
        ensures
            c.wf(),
            c.capacity() == num_measurements,
            c.idx == 0,
            forall|j: int| 0 <= j < c.measurements@.len() ==> c.measurements@[j] == 0u64,
    {
        let measurements = vec![0u64; num_measurements];
        proof {
            lemma_sample_sum_constant(measurements@, 0u64);
        }
        FpsCounter { measurements, idx: 0, sum: 0 }
    }

    /// Records one sample over the oldest entry of the ring and returns the
    /// rolling average of the stored window: the truncating quotient of the
    /// window's sum by its capacity.
    pub fn add_measurement(&mut self, fps: u64) -> (avg: u64)
        requires
            old(self).wf(),
        ensures
            final(self).wf(),
            final(self).capacity() == old(self).capacity(),
            final(self).measurements@ == old(self).measurements@.update(
                old(self).idx as int,
                fps,
            ),
            final(self).idx == (old(self).idx + 1) % old(self).measurements@.len() as int,
            avg == sample_sum(final(self).measurements@) / old(self).capacity(),
    {
        let num_measurements = self.measurements.len();
        proof {
            lemma_sample_sum_element_le(self.measurements@, self.idx as int);
            lemma_sample_sum_le(self.measurements@, u64::MAX);
            assert(self.measurements@.len() * u64::MAX < u128::MAX - u64::MAX)
                by (nonlinear_arith)
                requires self.measurements@.len() <= usize::MAX
            ;
        }
        let dropped = self.measurements[self.idx];
        self.sum = self.sum - dropped as u128;
        self.sum = self.sum + fps as u128;
        self.measurements[self.idx] = fps;
        self.idx = self.idx + 1;
        self.idx = self.idx % num_measurements;
        proof {
            lemma_sample_sum_update(old(self).measurements@, old(self).idx as int, fps);
            lemma_sample_sum_le(self.measurements@, u64::MAX);
            lemma_div_is_ordered(
                sample_sum(self.measurements@),
                self.measurements@.len() * u64::MAX,
                self.measurements@.len() as int,
            );
            lemma_div_by_multiple(u64::MAX as int, self.measurements@.len() as int);
            assert(self.measurements@.len() * u64::MAX == u64::MAX * self.measurements@.len())
                by (nonlinear_arith);
        }
        (self.sum / (num_measurements as u128)) as u64
    }
}

/// The window after `n` further samples of value `v` have been recorded,
/// starting with the ring cursor at `i`: the `m`-th of those samples lands at
/// position `(i + m)` modulo the capacity, exactly as `add_measurement`
/// stores it.
pub open spec fn fed(s: Seq<u64>, i: int, v: u64, n: nat) -> Seq<u64>
    decreases n,
{
    if n == 0 {
        s
    } else {
        fed(s, i, v, (n - 1) as nat).update((i + n - 1) % (s.len() as int), v)
    }
}

/// One `fed` step is exactly the window update `add_measurement` performs
/// when the ring cursor stands at `i`.
pub proof fn lemma_fed_one(s: Seq<u64>, i: int, v: u64)
    requires
        s.len() >= 1,
        0 <= i < s.len(),
    ensures
        fed(s, i, v, 1) == s.update(i, v),
{
    lemma_small_mod(i as nat, s.len() as nat);
    assert(fed(s, i, v, 0) == s);
    assert(fed(s, i, v, 1) == s.update((i + 1 - 1) % (s.len() as int), v));
    assert(i % (s.len() as int) == i);
}

proof fn lemma_fed_len(s: Seq<u64>, i: int, v: u64, n: nat)
    requires
        s.len() >= 1,
    ensures
        fed(s, i, v, n).len() == s.len(),
    decreases n,
{
    if n > 0 {
        lemma_fed_len(s, i, v, (n - 1) as nat);
        lemma_mod_division_less_than_divisor(i + n - 1, s.len() as int);
    }
}

proof fn lemma_fed_at(s: Seq<u64>, i: int, v: u64, n: nat, j: int)
    requires
        s.len() >= 1,
        0 <= i,
        0 <= j < s.len(),
    ensures
        fed(s, i, v, n)[j] == if exists|m: int| 0 <= m < n && #[trigger] ((i + m) % (s.len() as int)) == j {
            v
        } else {
            s[j]
        },
    decreases n,
{
    let len = s.len() as int;
    if n > 0 {
        lemma_fed_len(s, i, v, (n - 1) as nat);
        lemma_fed_at(s, i, v, (n - 1) as nat, j);
        lemma_mod_division_less_than_divisor(i + n - 1, len);
        if (i + n - 1) % len == j {
            assert(0 <= n - 1 < n && (i + (n - 1)) % len == j);
        } else {
            assert((exists|m: int| 0 <= m < n && #[trigger] ((i + m) % len) == j) <==> (exists|m: int|
                0 <= m < n - 1 && #[trigger] ((i + m) % len) == j)) by {
                if exists|m: int| 0 <= m < n && #[trigger] ((i + m) % len) == j {
                    let m = choose|m: int| 0 <= m < n && #[trigger] ((i + m) % len) == j;
                    assert(m != n - 1);
                }
            }
        }
    }
}

/// Rolling-average convergence: from any well-formed window, recording the
/// same sample value at least `capacity` times in a row leaves every stored
/// sample equal to that value, and the rolling average — the quotient
/// returned by the last `add_measurement` call — is then exactly that value.
pub proof fn lemma_constant_feed_converges(s: Seq<u64>, i: int, v: u64, n: nat)
    requires
        s.len() >= 1,
        0 <= i < s.len(),
        n >= s.len(),
    ensures
        fed(s, i, v, n).len() == s.len(),
        forall|j: int| 0 <= j < s.len() ==> fed(s, i, v, n)[j] == v,
        sample_sum(fed(s, i, v, n)) / (s.len() as int) == v,
{
    let len = s.len() as int;
    lemma_fed_len(s, i, v, n);
    assert forall|j: int| 0 <= j < len implies fed(s, i, v, n)[j] == v by {
        lemma_fed_at(s, i, v, n, j);
        let m = (j - i) % len;
        lemma_mod_division_less_than_divisor(j - i, len);
        lemma_add_mod_noop_right(i, j - i, len);
        lemma_small_mod(j as nat, len as nat);
        assert(0 <= m < n && (i + m) % len == j);
    }
    lemma_sample_sum_constant(fed(s, i, v, n), v);
    lemma_div_by_multiple(v as int, len);
    assert(len * v == v * len) by (nonlinear_arith);
}

} // verus!
