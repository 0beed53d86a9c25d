use crate::candidate::Candidate;
use crate::options::address_of;
use crate::options::Options;
use crate::shared::SharedBest;
use crate::signal::CancellationSignal;
use crate::throughput::Throughput;
use vstd::prelude::*;

verus! {

/// The search index of a worker's `n`-th step: `n` moved by the worker's
/// offset, wrapping around the `u32` range.
pub open spec fn strided_index(n: u32, offset: u32) -> u32 {
    ((n + offset) % 0x1_0000_0000) as u32
}

/// What a worker did in one step.
pub enum Step {
    /// The signal was raised: the worker produces nothing more.
    Stop,
    /// The candidate did not beat the best that the worker saw.
    Skip,
    /// The candidate beat the best that the worker saw and goes to the arbiter.
    Send(Candidate),
}

/// The index to search next, or nothing once the search is to stop.
pub fn next_index(should_continue: bool, n: u32, offset: u32) -> (index: Option<u32>)
    ensures
        index == (if should_continue {
            Some(strided_index(n, offset))
        } else {
            None::<u32>
        }),
{
    if should_continue {
        Some(n.wrapping_add(offset))
    } else {
        None
    }
}

/// The worker's own filter: lets a candidate through only if it is strictly
/// better than the snapshot `best`.
pub fn screen(options: &Options, candidate: Candidate, best: &Option<Candidate>) -> (passed: Option<
    Candidate,
>)
    ensures
        passed == (if options.improves(candidate.address@, address_of(*best)) {
            Some(candidate)
        } else {
            None::<Candidate>
        }),
{
    if options.is_better(&candidate, best) {
        Some(candidate)
    } else {
        None
    }
}

/// One step of a worker: stop if the signal is raised; else count the step,
/// derive the candidate at the next index from `base`, and screen it against a
/// fresh snapshot of the shared best, whichever the other threads left there.
pub fn step(
    options: &Options,
    base: &Candidate,
    signal: &CancellationSignal,
    throughput: &Throughput,
    shared: &SharedBest,
    n: u32,
    offset: u32,
) -> (step: Step)
    ensures
        step is Stop || exists|candidate: Candidate, best: Option<Candidate>|
            candidate.is_child_of(*base, strided_index(n, offset)) && #[trigger] screened(
                *options,
                candidate,
                best,
            ) == step,
        step matches Step::Send(c) ==> c.is_child_of(*base, strided_index(n, offset)),
{
    let should_continue = !signal.is_raised();
    match next_index(should_continue, n, offset) {
        None => Step::Stop,
        Some(index) => {
            throughput.increment();
            let candidate = base.derive(index);
            let best = shared.read();
            let ghost derived = candidate;
            let step = match screen(options, candidate, &best) {
                Some(c) => Step::Send(c),
                None => Step::Skip,
            };
            assert(screened(*options, derived, best) == step);
            step
        },
    }
}

/// What a worker that goes on does with the candidate it derived, given the
/// snapshot `best` that it saw: it sends a strict improvement and skips
/// anything else.
pub open spec fn screened(options: Options, candidate: Candidate, best: Option<Candidate>) -> Step {
    if options.improves(candidate.address@, address_of(best)) {
        Step::Send(candidate)
    } else {
        Step::Skip
    }
}

} // verus!
