use vstd::prelude::*;

verus! {

/// One of the two updates that a counter accepts.
pub enum CounterOp {
    Increment,
    Reset,
}

/// The value that follows `v` under `op`.
pub open spec fn step(v: nat, op: CounterOp) -> nat {
    match op {
        CounterOp::Increment => v + 1,
        CounterOp::Reset => 0,
    }
}

/// The value reached from `start` by applying `ops` one after the other.
/// Operations that callers make under one lock take effect in some such order.
pub open spec fn run(start: nat, ops: Seq<CounterOp>) -> nat
    decreases ops.len(),
{
    if ops.len() == 0 {
        start
    } else {
        step(run(start, ops.drop_last()), ops.last())
    }
}

/// `n` increments in a row.
pub open spec fn increments(n: nat) -> Seq<CounterOp> {
    Seq::new(n, |i: int| CounterOp::Increment)
}

/// How many entries of `schedule` name thread `t`.
pub open spec fn occurrences(schedule: Seq<nat>, t: nat) -> nat
    decreases schedule.len(),
{
    if schedule.len() == 0 {
        0
    } else {
        occurrences(schedule.drop_last(), t) + if schedule.last() == t {
            1nat
        } else {
            0nat
        }
    }
}

/// How many entries of `schedule` name one of the threads below `n`.
pub open spec fn occurrences_below(schedule: Seq<nat>, n: nat) -> nat
    decreases n,
{
    if n == 0 {
        0
    } else {
        occurrences_below(schedule, (n - 1) as nat) + occurrences(schedule, (n - 1) as nat)
    }
}

/// A counter that starts at zero, goes up by one on each increment and
/// returns to zero on reset.
pub struct Counter {
    value: u64,
}

impl View for Counter {
    type V = nat;

    closed spec fn view(&self) -> nat {
        self.value as nat
    }
}

impl Counter {
    /// A counter at zero.
    pub fn new() -> (c: Counter)
        ensures
            c@ == 0,
    {
        Counter { value: 0 }
    }

    /// The current value.
    pub fn value(&self) -> (r: u64)
        ensures
            r == self@,
    {
        self.value
    }

    /// Adds one and returns the new value.
    pub fn increment(&mut self) -> (r: u64)
        requires
            old(self)@ < u64::MAX,
        ensures
            final(self)@ == step(old(self)@, CounterOp::Increment),
            r == final(self)@,
    {
        self.value = self.value + 1;
        self.value
    }

    /// Sets the value back to zero.
    pub fn reset(&mut self)
        ensures
            final(self)@ == step(old(self)@, CounterOp::Reset),
    {
        self.value = 0;
    }
}

/// Whatever came before, a reset followed by two increments, with nothing
/// else in between, gives 1 and then 2.
pub proof fn lemma_reset_then_two_increments(start: nat, history: Seq<CounterOp>)
    ensures
        run(start, history.push(CounterOp::Reset).push(CounterOp::Increment)) == 1,
        run(
            start,
            history.push(CounterOp::Reset).push(CounterOp::Increment).push(CounterOp::Increment),
        ) == 2,
{
    let h1 = history.push(CounterOp::Reset);
    let h2 = h1.push(CounterOp::Increment);
    let h3 = h2.push(CounterOp::Increment);
    assert(h1.drop_last() =~= history);
    assert(h2.drop_last() =~= h1);
    assert(h3.drop_last() =~= h2);
    assert(run(start, h1) == 0);
    assert(run(start, h2) == 1);
}

/// A second reset right after a first one changes nothing: the value stays zero.
pub proof fn lemma_reset_idempotent(start: nat, history: Seq<CounterOp>)
    ensures
        run(start, history.push(CounterOp::Reset).push(CounterOp::Reset)) == run(
            start,
            history.push(CounterOp::Reset),
        ),
        run(start, history.push(CounterOp::Reset)) == 0,
{
    let h1 = history.push(CounterOp::Reset);
    assert(h1.push(CounterOp::Reset).drop_last() =~= h1);
}

/// `k` increments from `start` reach `start + k`: none is lost or counted twice.
pub proof fn lemma_run_increments(start: nat, k: nat)
    ensures
        run(start, increments(k)) == start + k,
    decreases k,
{
    if k > 0 {
        lemma_run_increments(start, (k - 1) as nat);
        assert(increments(k).drop_last() =~= increments((k - 1) as nat));
    }
}

proof fn lemma_occurrences_below_push(schedule: Seq<nat>, t: nat, n: nat)
    ensures
        occurrences_below(schedule.push(t), n) == occurrences_below(schedule, n) + if t < n {
            1nat
        } else {
            0nat
        },
    decreases n,
{
    assert(schedule.push(t).drop_last() =~= schedule);
    if n > 0 {
        lemma_occurrences_below_push(schedule, t, (n - 1) as nat);
    }
}

proof fn lemma_occurrences_below_empty(schedule: Seq<nat>, n: nat)
    requires
        schedule.len() == 0,
    ensures
        occurrences_below(schedule, n) == 0,
    decreases n,
{
    if n > 0 {
        lemma_occurrences_below_empty(schedule, (n - 1) as nat);
    }
}

proof fn lemma_occurrences_below_len(schedule: Seq<nat>, n: nat)
    requires
        forall|k: int| 0 <= k < schedule.len() ==> schedule[k] < n,
    ensures
        occurrences_below(schedule, n) == schedule.len(),
    decreases schedule.len(),
{
    if schedule.len() > 0 {
        let rest = schedule.drop_last();
        lemma_occurrences_below_len(rest, n);
        assert(schedule.last() < n);
        lemma_occurrences_below_push(rest, schedule.last(), n);
        assert(rest.push(schedule.last()) =~= schedule);
    } else {
        lemma_occurrences_below_empty(schedule, n);
    }
}

proof fn lemma_occurrences_below_uniform(schedule: Seq<nat>, n: nat, m: nat)
    requires
        forall|t: nat| t < n ==> occurrences(schedule, t) == m,
    ensures
        occurrences_below(schedule, n) == n * m,
    decreases n,
{
    if n > 0 {
        let p = (n - 1) as nat;
        lemma_occurrences_below_uniform(schedule, p, m);
        assert(occurrences(schedule, p) == m);
        assert(p * m + m == n * m) by (nonlinear_arith)
            requires
                p + 1 == n,
        ;
    } else {
        assert(n * m == 0) by (nonlinear_arith)
            requires
                n == 0,
        ;
    }
}

/// `threads` threads that each increment `per_thread` times, with no reset,
/// leave a counter that started at zero at `threads * per_thread`, in
/// whatever order the lock lets their increments through. `schedule` lists,
/// in that order, the thread that made each increment.
pub proof fn lemma_concurrent_increments(threads: nat, per_thread: nat, schedule: Seq<nat>)
    requires
        forall|k: int| 0 <= k < schedule.len() ==> schedule[k] < threads,
        forall|t: nat| t < threads ==> occurrences(schedule, t) == per_thread,
    ensures
        run(0, increments(schedule.len())) == threads * per_thread,
{
    lemma_occurrences_below_len(schedule, threads);
    lemma_occurrences_below_uniform(schedule, threads, per_thread);
    lemma_run_increments(0, schedule.len());
}

} // verus!
