//! Bookkeeping of benchmark runs: how an ensemble is shared out among
//! threads, and how their results add up.
use vstd::prelude::*;
use crate::chaos_data::{live_samples, ChaosData};

verus! {

/// The outcome of one run: how long it took and how many samples were
/// still valid at its end.
#[derive(Debug, Clone, Copy, PartialEq, Eq)]
pub struct ChaosBenchmarkRun {
    /// The time the run took, in nanoseconds.
    pub runtime: u128,
    pub num_valid_end_states: usize,
}

impl ChaosBenchmarkRun {
    /// The time the run took in whole milliseconds, cut to the machine's
    /// word.
    pub fn runtime_millis(&self) -> (millis: usize)
        ensures
            millis == (self.runtime / 1_000_000) as usize,
    {
        #[verifier::truncate]
        ((self.runtime / 1_000_000) as usize)
    }

    pub fn runtime_nanos(&self) -> (nanos: u128)
        ensures
            nanos == self.runtime,
    {
        self.runtime
    }

    pub fn num_valid_end_states(&self) -> (n: usize)
        ensures
            n == self.num_valid_end_states,
    {
        self.num_valid_end_states
    }
}

/// Why a benchmark has no result to show.
#[derive(Debug, Clone, Copy, PartialEq, Eq)]
pub enum BenchmarkError {
    /// Nothing has been run yet.
    NoRuns,
    /// The run with the given index among the threads failed.
    ThreadFailed(usize),
}

/// The runs of a benchmark, the warm-up runs first.
pub struct ChaosBenchmarkResult {
    pub num_warmups: usize,
    pub runs: Vec<Result<ChaosBenchmarkRun, BenchmarkError>>,
}

impl ChaosBenchmarkResult {
    /// All runs, warm-up runs included.
    pub fn runs(&self) -> (runs: &Vec<Result<ChaosBenchmarkRun, BenchmarkError>>)
        ensures
            *runs == self.runs,
    {
        &self.runs
    }

    pub fn number_of_warmups(&self) -> (n: usize)
        ensures
            n == self.num_warmups,
    {
        self.num_warmups
    }
}

impl Default for ChaosBenchmarkResult {
    fn default() -> (result: Self)
        ensures
            result.num_warmups == 0,
            result.runs@ == seq![Err::<ChaosBenchmarkRun, BenchmarkError>(BenchmarkError::NoRuns)],
    {
        let mut runs: Vec<Result<ChaosBenchmarkRun, BenchmarkError>> = Vec::new();
        runs.push(Err(BenchmarkError::NoRuns));
        Self { num_warmups: 0, runs }
    }
}

/// Number of live samples in the first `k` ensembles.
pub open spec fn live_total<V>(data: Seq<&ChaosData<V>>, k: nat) -> nat
    decreases k,
{
    if k == 0 {
        0
    } else {
        live_total(data, (k - 1) as nat) + live_samples(data[k - 1]@).len()
    }
}

/// Number of samples that are still valid, over all ensembles.
pub fn evaluate_chaos_data<V>(data: Vec<&ChaosData<V>>) -> (n: usize)
    requires
        live_total(data@, data@.len()) <= usize::MAX,
    ensures
        n == live_total(data@, data@.len()),
{
    let mut n: usize = 0;
    let mut k: usize = 0;
    while k < data.len()
        invariant
            k <= data@.len(),
            n == live_total(data@, k as nat),
            live_total(data@, data@.len()) <= usize::MAX,
        decreases data@.len() - k,
    {
        let live = data[k].data_filtered().len();
        proof {
            lemma_live_total_grows(data@, (k + 1) as nat, data@.len());
        }
        n = n + live;
        k = k + 1;
    }
    n
}

/// The live samples of more ensembles are no fewer.
pub proof fn lemma_live_total_grows<V>(data: Seq<&ChaosData<V>>, k: nat, m: nat)
    requires
        k <= m,
    ensures
        live_total(data, k) <= live_total(data, m),
    decreases m,
{
    if k < m {
        lemma_live_total_grows(data, k, (m - 1) as nat);
    }
}

/// The sum of the first `k` shares.
pub open spec fn shares_total(shares: Seq<usize>, k: nat) -> nat
    decreases k,
{
    if k == 0 {
        0
    } else {
        shares_total(shares, (k - 1) as nat) + shares[k - 1] as nat
    }
}

/// Number of processors the system offers to this process, as
/// `num_cpus::get` reports it. The number depends on the machine and on how
/// the process is confined, so nothing is claimed of it.
#[verifier::external_body]
pub(crate) fn available_cpus() -> (n: usize) {
    num_cpus::get()
}

/// Shares `num_samples` samples out among `num_threads` threads: every
/// thread gets the same number, and the first thread the remainder on top.
pub fn split_samples(num_samples: usize, num_threads: usize) -> (shares: Vec<usize>)
    requires
        num_threads > 0,
    ensures
        shares@.len() == num_threads,
        shares@[0] == num_samples / num_threads + num_samples % num_threads,
        forall|i: int| 1 <= i < num_threads ==> shares@[i] == num_samples / num_threads,
        shares_total(shares@, shares@.len()) == num_samples,
{
    let per_thread = num_samples / num_threads;
    let remaining = num_samples % num_threads;
    proof {
        assert(num_samples == per_thread * num_threads + remaining) by (nonlinear_arith)
            requires
                per_thread == num_samples / num_threads,
                remaining == num_samples % num_threads,
                num_threads > 0,
        ;
        assert(per_thread * num_threads >= per_thread) by (nonlinear_arith)
            requires
                num_threads >= 1,
                per_thread >= 0,
        ;
    }
    let mut shares: Vec<usize> = Vec::new();
    shares.push(per_thread + remaining);
    proof {
        reveal_with_fuel(shares_total, 2);
        assert(shares_total(shares@, 1) == per_thread + remaining);
        assert(per_thread * 1 == per_thread) by (nonlinear_arith);
    }
    let mut i: usize = 1;
    while i < num_threads
        invariant
            1 <= i <= num_threads,
            shares@.len() == i,
            shares@[0] == per_thread + remaining,
            forall|k: int| 1 <= k < i ==> shares@[k] == per_thread,
            shares_total(shares@, i as nat) == per_thread * i + remaining,
            num_samples == per_thread * num_threads + remaining,
        decreases num_threads - i,
    {
        let ghost before = shares@;
        shares.push(per_thread);
        proof {
            lemma_shares_total_prefix(before, shares@, i as nat);
            assert(per_thread * i + per_thread == per_thread * (i + 1)) by (nonlinear_arith);
        }
        i = i + 1;
    }
    shares
}

/// The sum of the first `k` shares depends on those shares alone.
pub proof fn lemma_shares_total_prefix(a: Seq<usize>, b: Seq<usize>, k: nat)
    requires
        k <= a.len(),
        k <= b.len(),
        forall|i: int| 0 <= i < k ==> a[i] == b[i],
    ensures
        shares_total(a, k) == shares_total(b, k),
    decreases k,
{
    if k > 0 {
        lemma_shares_total_prefix(a, b, (k - 1) as nat);
    }
}

/// Shares the samples out among as many threads as the system offers
/// processors to this process; one thread takes all where it offers none.
/// Whatever the number of threads, the shares add up to `num_samples`.
pub fn thread_shares(num_samples: usize) -> (shares: Vec<usize>)
    ensures
        shares@.len() >= 1,
        shares@[0] == (num_samples as int) / (shares@.len() as int) + (num_samples as int) % (
            shares@.len() as int),
        forall|i: int|
            1 <= i < shares@.len() ==> shares@[i] == (num_samples as int) / (shares@.len() as int),
        shares_total(shares@, shares@.len()) == num_samples,
{
    let num_threads = available_cpus();
    if num_threads == 0 {
        split_samples(num_samples, 1)
    } else {
        split_samples(num_samples, num_threads)
    }
}

/// The sum of the valid end states of the first `k` runs, where all of
/// them succeeded.
pub open spec fn valid_total(runs: Seq<Result<ChaosBenchmarkRun, BenchmarkError>>, k: nat) -> nat
    decreases k,
{
    if k == 0 {
        0
    } else {
        valid_total(runs, (k - 1) as nat) + (match runs[k - 1] {
            Ok(run) => run.num_valid_end_states as nat,
            Err(_) => 0,
        })
    }
}

/// Puts the runs of the threads together into one run of the given
/// duration: its valid end states are those of all threads. The first
/// thread that failed makes the whole run fail.
pub fn combine_thread_runs(runs: &Vec<Result<ChaosBenchmarkRun, BenchmarkError>>, runtime: u128) -> (total:
    Result<ChaosBenchmarkRun, BenchmarkError>)
    requires
        valid_total(runs@, runs@.len()) <= usize::MAX,
    ensures
        match total {
            Ok(run) => {
                &&& forall|i: int| 0 <= i < runs@.len() ==> runs@[i] is Ok
                &&& run.runtime == runtime
                &&& run.num_valid_end_states == valid_total(runs@, runs@.len())
            },
            Err(e) => exists|i: int|
                0 <= i < runs@.len() && runs@[i] is Err && e == BenchmarkError::ThreadFailed(
                    i as usize,
                ) && forall|j: int| 0 <= j < i ==> runs@[j] is Ok,
        },
{
    let mut total_num_valid_end_states: usize = 0;
    let mut k: usize = 0;
    while k < runs.len()
        invariant
            k <= runs@.len(),
            forall|i: int| 0 <= i < k ==> runs@[i] is Ok,
            total_num_valid_end_states == valid_total(runs@, k as nat),
            valid_total(runs@, runs@.len()) <= usize::MAX,
        decreases runs@.len() - k,
    {
        match &runs[k] {
            Ok(res) => {
                proof {
                    lemma_valid_total_grows(runs@, (k + 1) as nat, runs@.len());
                }
                total_num_valid_end_states = total_num_valid_end_states
                    + res.num_valid_end_states();
            },
            Err(_) => {
                return Err(BenchmarkError::ThreadFailed(k));
            },
        }
        k = k + 1;
    }
    Ok(ChaosBenchmarkRun { runtime, num_valid_end_states: total_num_valid_end_states })
}

/// The valid end states of more runs are no fewer.
pub proof fn lemma_valid_total_grows(
    runs: Seq<Result<ChaosBenchmarkRun, BenchmarkError>>,
    k: nat,
    m: nat,
)
    requires
        k <= m,
    ensures
        valid_total(runs, k) <= valid_total(runs, m),
    decreases m,
{
    if k < m {
        lemma_valid_total_grows(runs, k, (m - 1) as nat);
    }
}

} // verus!
