//! Per-port throughput benchmarking: the closed set of physical ports, one
//! round's raw results, and the aggregator that merges rounds under a
//! "best successful, most-recent failing" policy.
//!
//! Throughput is carried in hundredths of a megabyte per second, so the
//! display layer can format it as a decimal without the core holding
//! floating-point values.

use vstd::prelude::*;

verus! {

/// Fixed textual identifier of one physical USB port/speed combination.
#[derive(Clone, Copy, Debug, Eq, PartialEq, Structural)]
pub enum PortDesc {
    Usb2ALeft,
    Usb2ARight,
    Usb2CLeft,
    Usb2CRight,
    Usb3ALeft,
    Usb3ARight,
    Usb3CLeft,
    Usb3CRight,
}

/// Number of known ports.
pub const PORT_COUNT: usize = 8;

impl PortDesc {
    pub open spec fn index_spec(self) -> int {
        match self {
            PortDesc::Usb2ALeft => 0,
            PortDesc::Usb2ARight => 1,
            PortDesc::Usb2CLeft => 2,
            PortDesc::Usb2CRight => 3,
            PortDesc::Usb3ALeft => 4,
            PortDesc::Usb3ARight => 5,
            PortDesc::Usb3CLeft => 6,
            PortDesc::Usb3CRight => 7,
        }
    }

    /// Position of this port in the aggregation table.
    pub fn index(self) -> (r: usize)
        ensures
            r == self.index_spec(),
            r < PORT_COUNT,
    {
        match self {
            PortDesc::Usb2ALeft => 0,
            PortDesc::Usb2ARight => 1,
            PortDesc::Usb2CLeft => 2,
            PortDesc::Usb2CRight => 3,
            PortDesc::Usb3ALeft => 4,
            PortDesc::Usb3ARight => 5,
            PortDesc::Usb3CLeft => 6,
            PortDesc::Usb3CRight => 7,
        }
    }

    pub open spec fn description_spec(self) -> Seq<char> {
        match self {
            PortDesc::Usb2ALeft => "USB 2.0: USB-A Left"@,
            PortDesc::Usb2ARight => "USB 2.0: USB-A Right"@,
            PortDesc::Usb2CLeft => "USB 2.0: USB-C Left"@,
            PortDesc::Usb2CRight => "USB 2.0: USB-C Right"@,
            PortDesc::Usb3ALeft => "USB 3.2 Gen 2: USB-A Left"@,
            PortDesc::Usb3ARight => "USB 3.2 Gen 2: USB-A Right"@,
            PortDesc::Usb3CLeft => "USB 3.2 Gen 2: USB-C Left"@,
            PortDesc::Usb3CRight => "USB 3.2 Gen 2: USB-C Right"@,
        }
    }

    /// Human-readable port descriptor.
    pub fn description(self) -> (r: String)
        ensures
            r@ == self.description_spec(),
    {
        match self {
            PortDesc::Usb2ALeft => String::from_str("USB 2.0: USB-A Left"),
            PortDesc::Usb2ARight => String::from_str("USB 2.0: USB-A Right"),
            PortDesc::Usb2CLeft => String::from_str("USB 2.0: USB-C Left"),
            PortDesc::Usb2CRight => String::from_str("USB 2.0: USB-C Right"),
            PortDesc::Usb3ALeft => String::from_str("USB 3.2 Gen 2: USB-A Left"),
            PortDesc::Usb3ARight => String::from_str("USB 3.2 Gen 2: USB-A Right"),
            PortDesc::Usb3CLeft => String::from_str("USB 3.2 Gen 2: USB-C Left"),
            PortDesc::Usb3CRight => String::from_str("USB 3.2 Gen 2: USB-C Right"),
        }
    }

    /// All known ports, in table order.
    pub fn all() -> (r: Vec<PortDesc>)
        ensures
            r@.len() == PORT_COUNT,
            forall|i: int| 0 <= i < PORT_COUNT ==> #[trigger] r@[i].index_spec() == i,
    {
        let mut v: Vec<PortDesc> = Vec::new();
        v.push(PortDesc::Usb2ALeft);
        v.push(PortDesc::Usb2ARight);
        v.push(PortDesc::Usb2CLeft);
        v.push(PortDesc::Usb2CRight);
        v.push(PortDesc::Usb3ALeft);
        v.push(PortDesc::Usb3ARight);
        v.push(PortDesc::Usb3CLeft);
        v.push(PortDesc::Usb3CRight);
        v
    }
}

/// One benchmark round as reported by a board: a raw result per port.
/// Successful values are throughput in hundredths of a megabyte per second.
pub struct Benchmark {
    pub port_results: Vec<(PortDesc, Result<u64, String>)>,
}

/// The round reports every known port exactly once, in table order.
pub open spec fn covers_all_ports(b: &Benchmark) -> bool {
    b.port_results@.len() == PORT_COUNT && forall|i: int|
        0 <= i < PORT_COUNT ==> (#[trigger] b.port_results@[i]).0.index_spec() == i
}

/// A stored or reported result with the error abstracted to its text.
pub open spec fn bench_view(r: Result<u64, String>) -> Result<u64, Seq<char>> {
    match r {
        Ok(v) => Result::<u64, Seq<char>>::Ok(v),
        Err(s) => Result::<u64, Seq<char>>::Err(s@),
    }
}

/// The per-port merge rule: a stored success is only ever replaced by a
/// larger success; a stored error is always replaced by the newest result.
pub open spec fn merge(
    stored: Result<u64, Seq<char>>,
    new: Result<u64, Seq<char>>,
) -> Result<u64, Seq<char>> {
    match stored {
        Ok(prev) => match new {
            Ok(n) => if n > prev {
                new
            } else {
                stored
            },
            Err(_) => stored,
        },
        Err(_) => new,
    }
}

/// A whole round folded into the table, front entry first.
pub open spec fn apply_round(
    state: Seq<Result<u64, Seq<char>>>,
    entries: Seq<(PortDesc, Result<u64, Seq<char>>)>,
) -> Seq<Result<u64, Seq<char>>>
    decreases entries.len(),
{
    if entries.len() == 0 {
        state
    } else {
        let idx = entries[0].0.index_spec();
        apply_round(state.update(idx, merge(state[idx], entries[0].1)), entries.drop_first())
    }
}

pub open spec fn round_view(b: &Benchmark) -> Seq<(PortDesc, Result<u64, Seq<char>>)> {
    b.port_results@.map_values(|e: (PortDesc, Result<u64, String>)| (e.0, bench_view(e.1)))
}

/// The aggregated per-port results, persisted across benchmark rounds and
/// resettable on demand.
pub struct TestResults {
    bench: Vec<Result<u64, String>>,
}

impl TestResults {
    /// One stored result per known port.
    pub closed spec fn wf(&self) -> bool {
        self.bench.len() == PORT_COUNT
    }

    pub closed spec fn view(&self) -> Seq<Result<u64, Seq<char>>> {
        self.bench@.map_values(|r: Result<u64, String>| bench_view(r))
    }

    /// A fresh table: every port starts in the "no benchmarks performed"
    /// error state.
    pub fn new() -> (r: TestResults)
        ensures
            r.wf(),
            r@.len() == PORT_COUNT,
            forall|i: int|
                0 <= i < PORT_COUNT ==> r@[i] == Result::<u64, Seq<char>>::Err(
                    "no benchmarks performed"@,
                ),
    {
        let mut r = TestResults { bench: Vec::new() };
        r.reset();
        r
    }

    /// Clear all ports back to the default "no benchmarks performed" error.
    pub fn reset(&mut self)
        ensures
            final(self).wf(),
            final(self)@.len() == PORT_COUNT,
            forall|i: int|
                0 <= i < PORT_COUNT ==> final(self)@[i] == Result::<u64, Seq<char>>::Err(
                    "no benchmarks performed"@,
                ),
    {
        let mut fresh: Vec<Result<u64, String>> = Vec::new();
        let mut i: usize = 0;
        while i < PORT_COUNT
            invariant
                i <= PORT_COUNT,
                fresh@.len() == i,
                forall|j: int|
                    0 <= j < i ==> bench_view(#[trigger] fresh@[j]) == Result::<u64, Seq<char>>::Err(
                        "no benchmarks performed"@,
                    ),
            decreases PORT_COUNT - i,
        {
            fresh.push(Err(String::from_str("no benchmarks performed")));
            i = i + 1;
        }
        self.bench = fresh;
        proof {
            assert forall|j: int| 0 <= j < PORT_COUNT implies self@[j] == Result::<
                u64,
                Seq<char>,
            >::Err("no benchmarks performed"@) by {
                assert(self@[j] == bench_view(self.bench@[j]));
            }
        }
    }

    /// The stored result for one port.
    pub fn get(&self, port: PortDesc) -> (r: &Result<u64, String>)
        requires
            self.wf(),
        ensures
            bench_view(*r) == self@[port.index_spec()],
    {
        let idx = port.index();
        let r = &self.bench[idx];
        proof {
            assert(self@[idx as int] == bench_view(self.bench@[idx as int]));
        }
        r
    }

    /// Merge one port's newest result into the table.
    pub fn update(&mut self, port: PortDesc, new: Result<u64, String>)
        requires
            old(self).wf(),
        ensures
            final(self).wf(),
            final(self)@ == old(self)@.update(
                port.index_spec(),
                merge(old(self)@[port.index_spec()], bench_view(new)),
            ),
    {
        let idx = port.index();
        proof {
            assert(old(self)@[idx as int] == bench_view(old(self).bench@[idx as int]));
        }
        let replace: bool = match &self.bench[idx] {
            Ok(prev) => match &new {
                Ok(n) => *n > *prev,
                Err(_) => false,
            },
            Err(_) => true,
        };
        if replace {
            self.bench[idx] = new;
            proof {
                assert(final(self)@ =~= old(self)@.update(
                    idx as int,
                    merge(old(self)@[idx as int], bench_view(new)),
                ));
            }
        } else {
            proof {
                assert(final(self)@ =~= old(self)@.update(
                    idx as int,
                    merge(old(self)@[idx as int], bench_view(new)),
                ));
            }
        }
    }

    /// Merge a whole benchmark round, entry by entry.
    pub fn update_round(&mut self, round: &Benchmark)
        requires
            old(self).wf(),
        ensures
            final(self).wf(),
            final(self)@ == apply_round(old(self)@, round_view(round)),
    {
        let n = round.port_results.len();
        proof {
            assert(round_view(round).skip(0) =~= round_view(round));
        }
        let mut i: usize = 0;
        while i < n
            invariant
                self.wf(),
                n == round.port_results@.len(),
                i <= n,
                apply_round(old(self)@, round_view(round)) == apply_round(
                    self@,
                    round_view(round).skip(i as int),
                ),
            decreases n - i,
        {
            let entry = &round.port_results[i];
            let value: Result<u64, String> = match &entry.1 {
                Ok(v) => Ok(*v),
                Err(s) => Err(s.clone()),
            };
            let ghost pre = self@;
            self.update(entry.0, value);
            proof {
                let rv = round_view(round);
                assert(rv.skip(i as int)[0] == rv[i as int]);
                assert(rv.skip(i as int).drop_first() =~= rv.skip(i as int + 1));
                assert(bench_view(value) == rv[i as int].1);
            }
            i = i + 1;
        }
        proof {
            assert(round_view(round).skip(n as int) =~= Seq::empty());
        }
    }

    /// Merge the outcome of one benchmark call: a successful round is
    /// merged port by port; a failed round leaves the table untouched —
    /// errors are reported by the caller, never recorded over stored
    /// results.
    pub fn update_outcome(&mut self, outcome: &Result<Benchmark, String>)
        requires
            old(self).wf(),
        ensures
            final(self).wf(),
            outcome matches Ok(round) ==> final(self)@ == apply_round(
                old(self)@,
                round_view(round),
            ),
            outcome is Err ==> final(self)@ == old(self)@,
    {
        match outcome {
            Ok(round) => self.update_round(round),
            Err(_) => (),
        }
    }
}

/// A sequence of per-port updates folded through the merge rule.
pub open spec fn fold_merge(
    init: Result<u64, Seq<char>>,
    updates: Seq<Result<u64, Seq<char>>>,
) -> Result<u64, Seq<char>>
    decreases updates.len(),
{
    if updates.len() == 0 {
        init
    } else {
        fold_merge(merge(init, updates[0]), updates.drop_first())
    }
}

/// Some update in the sequence reports a success.
pub open spec fn has_success(updates: Seq<Result<u64, Seq<char>>>) -> bool {
    exists|i: int| 0 <= i < updates.len() && updates[i] is Ok
}

/// The largest success value in the sequence, or -1 when there is none.
pub open spec fn max_success(updates: Seq<Result<u64, Seq<char>>>) -> int
    decreases updates.len(),
{
    if updates.len() == 0 {
        -1
    } else {
        let rest = max_success(updates.drop_first());
        match updates[0] {
            Ok(v) => if v > rest {
                v as int
            } else {
                rest
            },
            Err(_) => rest,
        }
    }
}

/// Once the table holds a success, folding further updates keeps the best
/// success seen so far: errors never displace it and smaller successes
/// never regress it.
pub proof fn lemma_fold_from_success(v: u64, updates: Seq<Result<u64, Seq<char>>>)
    ensures
        fold_merge(Result::Ok(v), updates) == Result::<u64, Seq<char>>::Ok(
            if max_success(updates) > v {
                max_success(updates) as u64
            } else {
                v
            },
        ),
    decreases updates.len(),
{
    if updates.len() == 0 {
    } else {
        match updates[0] {
            Ok(n) => {
                if n > v {
                    lemma_fold_from_success(n, updates.drop_first());
                } else {
                    lemma_fold_from_success(v, updates.drop_first());
                }
            },
            Err(_) => {
                lemma_fold_from_success(v, updates.drop_first());
            },
        }
    }
}

/// Aggregation law: starting from any error state — as `new` and `reset`
/// leave every port, and with each `update` applying exactly one `merge`
/// step — a non-empty sequence of per-port updates leaves the greatest
/// submitted success if there is one, and otherwise the last submitted
/// error.
pub proof fn lemma_aggregate_sequence(
    init: Result<u64, Seq<char>>,
    updates: Seq<Result<u64, Seq<char>>>,
)
    requires
        init is Err,
        updates.len() > 0,
    ensures
        has_success(updates) ==> fold_merge(init, updates) == Result::<u64, Seq<char>>::Ok(
            max_success(updates) as u64,
        ),
        !has_success(updates) ==> fold_merge(init, updates) == updates.last(),
    decreases updates.len(),
{
    let rest = updates.drop_first();
    match updates[0] {
        Ok(v) => {
            lemma_fold_from_success(v, rest);
            assert(has_success(updates));
            assert(max_success(updates) == if max_success(rest) > v {
                max_success(rest)
            } else {
                v as int
            });
        },
        Err(_) => {
            if updates.len() == 1 {
                assert(!has_success(updates)) by {
                    assert(forall|i: int|
                        0 <= i < updates.len() ==> #[trigger] updates[i] == updates[0]);
                }
                assert(rest.len() == 0);
                assert(fold_merge(init, updates) == fold_merge(merge(init, updates[0]), rest));
                assert(merge(init, updates[0]) == updates[0]);
                assert(updates.last() == updates[0]);
            } else {
                lemma_aggregate_sequence(updates[0], rest);
                assert(has_success(updates) == has_success(rest)) by {
                    if has_success(rest) {
                        let i = choose|i: int| 0 <= i < rest.len() && rest[i] is Ok;
                        assert(updates[i + 1] is Ok);
                    } else if has_success(updates) {
                        let i = choose|i: int| 0 <= i < updates.len() && updates[i] is Ok;
                        assert(rest[i - 1] is Ok);
                    }
                }
                assert(updates.last() == rest.last());
            }
        },
    }
}

} // verus!
