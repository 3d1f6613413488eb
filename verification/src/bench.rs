//! A benchmark that steps a machine as fast as it goes and counts the steps.

use crate::chip8::VM;
use crate::host::{clock_between, clock_now, duration_nanos};
use crate::machine::{can_step, keeps_running, run, step, Machine};
use std::time::{Duration, Instant};
use vstd::prelude::*;

verus! {

/// A machine under benchmark, with the limit and the results of the run.
pub struct Bench {
    pub vm: VM,
    /// The benchmark stops after the step that follows this many counted
    /// ones.
    pub max_cycles: usize,
    /// How long the last benchmark took, in nanoseconds.
    pub duration: u128,
    /// How many steps the last benchmark counted.
    pub score: usize,
}

/// Whether a benchmark that starts in state `start`, counts `score` steps and
/// ends in state `end` is one that `randoms` accounts for: the machine took
/// one step for each byte of `randoms`; each of these steps was one it could
/// take; the first `score` of them kept it running; and then either the
/// machine could not take another step, or it took one more, with which it
/// halted or the count had reached `max_cycles`.
pub open spec fn is_benchmark_of(
    start: Machine,
    randoms: Seq<u8>,
    end: Machine,
    score: int,
    max_cycles: int,
) -> bool {
    &&& end == run(start, randoms)
    &&& 0 <= score <= max_cycles
    &&& forall|k: int| 0 <= k < randoms.len() ==> can_step(#[trigger] run(start, randoms.take(k)))
    &&& forall|k: int|
        0 <= k < score ==> keeps_running(#[trigger] run(start, randoms.take(k)), randoms[k])
    &&& if randoms.len() == score {
        !can_step(end)
    } else {
        &&& randoms.len() == score + 1
        &&& score == max_cycles || !keeps_running(run(start, randoms.take(score)), randoms[score])
    }
}

impl Bench {
    /// A benchmark of `vm` that counts up to a hundred million steps.
    pub fn new(vm: VM) -> (bench: Bench)
        ensures
            bench.vm == vm,
            bench.max_cycles == 100_000_000,
            bench.duration == 0,
            bench.score == 0,
    {
        Bench { vm, max_cycles: 100_000_000, duration: 0, score: 0 }
    }

    /// Steps the machine until it halts, cannot take a step, or has taken
    /// one step more than `max_cycles`; records how many steps were counted
    /// before the last one, and how long it all took by the clock.
    pub fn test(&mut self)
        ensures
            final(self).max_cycles == old(self).max_cycles,
            exists|randoms: Seq<u8>|
                is_benchmark_of(
                    old(self).vm@,
                    randoms,
                    final(self).vm@,
                    final(self).score as int,
                    old(self).max_cycles as int,
                ),
    {
        self.score = 0;
        self.duration = 0;

        let mut cycles: usize = 0;
        let start: Instant = clock_now();
        let ghost first: Machine = self.vm@;
        let ghost mut randoms: Seq<u8> = Seq::empty();

        loop
            invariant_except_break
                randoms.len() == cycles,
            invariant
                self.max_cycles == old(self).max_cycles,
                first == old(self).vm@,
                cycles <= self.max_cycles,
                self.vm@ == run(first, randoms),
                forall|k: int|
                    0 <= k < randoms.len() ==> can_step(#[trigger] run(first, randoms.take(k))),
                forall|k: int|
                    0 <= k < cycles ==> keeps_running(
                        #[trigger] run(first, randoms.take(k)),
                        randoms[k],
                    ),
            ensures
                is_benchmark_of(
                    first,
                    randoms,
                    self.vm@,
                    cycles as int,
                    self.max_cycles as int,
                ),
            decreases self.max_cycles - cycles,
        {
            if !self.vm.can_step() {
                break ;
            }
            let ghost before: Machine = self.vm@;
            let ghost earlier: Seq<u8> = randoms;
            let running: u8 = self.vm.next();
            proof {
                let random = choose|random: u8|
                    {
                        &&& self.vm@ == #[trigger] step(before, random)
                        &&& running == if keeps_running(before, random) {
                            1u8
                        } else {
                            0u8
                        }
                    };
                randoms = earlier.push(random);
                assert(randoms.drop_last() =~= earlier);
                assert(randoms.take(cycles as int) =~= earlier);
                assert forall|k: int| 0 <= k < randoms.len() implies can_step(
                    #[trigger] run(first, randoms.take(k)),
                ) by {
                    if k < cycles {
                        assert(randoms.take(k) =~= earlier.take(k));
                    }
                }
                assert forall|k: int| 0 <= k < cycles implies keeps_running(
                    #[trigger] run(first, randoms.take(k)),
                    randoms[k],
                ) by {
                    assert(randoms.take(k) =~= earlier.take(k));
                }
            }
            if running == 0 || cycles >= self.max_cycles {
                break ;
            }
            cycles += 1;
        }

        let end: Instant = clock_now();
        let elapsed: Duration = clock_between(&start, &end);

        self.duration = duration_nanos(&elapsed);
        self.score = cycles;
        assert(is_benchmark_of(
            old(self).vm@,
            randoms,
            self.vm@,
            self.score as int,
            old(self).max_cycles as int,
        ));
    }
}

} // verus!
