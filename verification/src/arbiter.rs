use crate::candidate::Candidate;
use crate::options::address_of;
use crate::options::lemma_nothing_outranks_perfect;
use crate::options::lemma_outranks_is_asymmetric;
use crate::options::lemma_outranks_is_transitive;
use crate::options::Options;
use crate::shared::share;
use crate::shared::SharedBest;
use crate::signal::CancellationSignal;
use std::sync::Arc;
use vstd::prelude::*;
use vstd::utf8::is_ascii_chars;

verus! {

/// What the arbiter did with a candidate that reached it.
#[derive(Debug, Clone, Copy, PartialEq, Eq, Structural)]
pub enum Verdict {
    /// The candidate did not beat the committed best and was dropped.
    Discarded,
    /// The candidate became the new best; `accepted` says whether it also ends
    /// the search.
    Committed { accepted: bool },
}

/// The verdict on `candidate` when `current` is the committed best: committed
/// only if strictly better, and accepted if it then starts with the desired
/// prefix as written.
pub open spec fn judge(options: Options, candidate: Candidate, current: Option<Candidate>) -> Verdict {
    if options.improves(candidate.address@, address_of(current)) {
        Verdict::Committed { accepted: options.perfect(candidate.address@) }
    } else {
        Verdict::Discarded
    }
}

/// The committed best after the arbiter has handled `arrival`.
pub open spec fn after_arrival(options: Options, best: Option<Candidate>, arrival: Candidate) -> Option<
    Candidate,
> {
    match judge(options, arrival, best) {
        Verdict::Committed { .. } => Some(arrival),
        Verdict::Discarded => best,
    }
}

/// The committed best after the arbiter has handled `arrivals` in their order.
pub open spec fn after_arrivals(
    options: Options,
    best: Option<Candidate>,
    arrivals: Seq<Candidate>,
) -> Option<Candidate>
    decreases arrivals.len(),
{
    if arrivals.len() == 0 {
        best
    } else {
        after_arrival(
            options,
            after_arrivals(options, best, arrivals.drop_last()),
            arrivals.last(),
        )
    }
}

/// Whether `arrival` ends the search when `best` is committed: it is committed
/// and accepted.
pub open spec fn ends_search(options: Options, best: Option<Candidate>, arrival: Candidate) -> bool {
    judge(options, arrival, best) == (Verdict::Committed { accepted: true })
}

/// The arbiter's stop record after it has handled `arrivals` in their order,
/// starting from the best `best` and the record `stopped`.
pub open spec fn stopped_after(
    options: Options,
    best: Option<Candidate>,
    stopped: bool,
    arrivals: Seq<Candidate>,
) -> bool
    decreases arrivals.len(),
{
    if arrivals.len() == 0 {
        stopped
    } else {
        stopped_after(options, best, stopped, arrivals.drop_last()) || ends_search(
            options,
            after_arrivals(options, best, arrivals.drop_last()),
            arrivals.last(),
        )
    }
}

/// Decides on a candidate against the best that is committed right now.
pub fn arbitrate(options: &Options, candidate: &Candidate, current: &Option<Candidate>) -> (verdict:
    Verdict)
    ensures
        verdict == judge(*options, *candidate, *current),
{
    if options.is_better(candidate, current) {
        Verdict::Committed { accepted: options.is_perfect_match(candidate) }
    } else {
        Verdict::Discarded
    }
}

/// The one writer of a shared best. It makes the cell that it publishes in and
/// hands out handles for reading, so no cell has two writers. It keeps what it
/// committed last and whether it has ended the search, and judges every
/// arrival against that record: a worker's snapshot may be stale by the time
/// its candidate arrives, the arbiter's record never is.
pub struct Arbiter {
    best: Option<Candidate>,
    stopped: bool,
    shared: Arc<SharedBest>,
}

impl Arbiter {
    /// The candidate committed last, if any.
    pub closed spec fn best(&self) -> Option<Candidate> {
        self.best
    }

    /// Whether a committed candidate has ended the search.
    pub closed spec fn stopped(&self) -> bool {
        self.stopped
    }

    /// The cell in which the arbiter publishes.
    pub closed spec fn cell(&self) -> SharedBest {
        *self.shared
    }

    /// An arbiter that has committed nothing yet, with a cell of its own.
    pub fn new() -> (arbiter: Arbiter)
        ensures
            arbiter.best() is None,
            !arbiter.stopped(),
    {
        Arbiter { best: None, stopped: false, shared: Arc::new(SharedBest::new()) }
    }

    /// A handle on the arbiter's cell, for the workers to read.
    pub fn shared(&self) -> (handle: Arc<SharedBest>)
        ensures
            *handle == self.cell(),
    {
        share(&self.shared)
    }

    /// The candidate committed last, if any.
    pub fn committed(&self) -> (best: &Option<Candidate>)
        ensures
            *best == self.best(),
    {
        &self.best
    }

    /// Whether a committed candidate has ended the search.
    pub fn has_stopped(&self) -> (stopped: bool)
        ensures
            stopped == self.stopped(),
    {
        self.stopped
    }

    /// Handles one candidate that came through the channel. A candidate that
    /// beats the committed best replaces it and is published in the arbiter's
    /// cell; if it also starts with the desired prefix, `signal` is raised
    /// after that. Any other candidate changes nothing.
    pub fn receive(
        &mut self,
        options: &Options,
        signal: &CancellationSignal,
        candidate: Candidate,
    ) -> (verdict: Verdict)
        ensures
            verdict == judge(*options, candidate, old(self).best()),
            final(self).best() == after_arrival(*options, old(self).best(), candidate),
            final(self).stopped() == (old(self).stopped() || ends_search(
                *options,
                old(self).best(),
                candidate,
            )),
            final(self).cell() == old(self).cell(),
    {
        let verdict = arbitrate(options, &candidate, &self.best);
        match verdict {
            Verdict::Committed { accepted } => {
                self.shared.commit(candidate.clone());
                self.best = Some(candidate);
                if accepted {
                    signal.raise();
                    self.stopped = true;
                }
            },
            Verdict::Discarded => {},
        }
        verdict
    }
}

/// Every change of the committed best is a strict improvement: between two
/// moments of a run the best is either the same, or the later one ranks above
/// the earlier one and is not outranked by it.
pub proof fn lemma_best_never_regresses(
    options: Options,
    best: Option<Candidate>,
    arrivals: Seq<Candidate>,
    i: int,
    j: int,
)
    requires
        0 <= i <= j <= arrivals.len(),
    ensures
        ({
            let earlier = after_arrivals(options, best, arrivals.take(i));
            let later = after_arrivals(options, best, arrivals.take(j));
            later == earlier || (later matches Some(l) && (earlier matches Some(e)
                ==> options.outranks(l.address@, e.address@) && !options.outranks(
                e.address@,
                l.address@,
            )))
        }),
    decreases j - i,
{
    if i < j {
        lemma_best_never_regresses(options, best, arrivals, i, j - 1);
        let earlier = after_arrivals(options, best, arrivals.take(i));
        let middle = after_arrivals(options, best, arrivals.take(j - 1));
        let later = after_arrivals(options, best, arrivals.take(j));
        assert(arrivals.take(j).drop_last() =~= arrivals.take(j - 1));
        assert(later == after_arrival(options, middle, arrivals[j - 1]));
        if later != middle && middle != earlier {
            if let (Some(e), Some(m), Some(l)) = (earlier, middle, later) {
                lemma_outranks_is_transitive(options, l.address@, m.address@, e.address@);
            }
        }
        if let (Some(e), Some(l)) = (earlier, later) {
            lemma_outranks_is_asymmetric(options, l.address@, e.address@);
        }
    }
}

/// Two candidates that both beat the committed best leave the stronger one
/// committed, in whichever order they arrive.
pub proof fn lemma_stronger_wins_in_either_order(
    options: Options,
    best: Option<Candidate>,
    a: Candidate,
    b: Candidate,
)
    requires
        options.improves(a.address@, address_of(best)),
        options.improves(b.address@, address_of(best)),
        options.outranks(b.address@, a.address@),
    ensures
        after_arrivals(options, best, seq![a, b]) == Some(b),
        after_arrivals(options, best, seq![b, a]) == Some(b),
{
    assert(seq![a, b].drop_last() =~= seq![a]);
    assert(seq![b, a].drop_last() =~= seq![b]);
    assert(seq![a].drop_last() =~= Seq::<Candidate>::empty());
    assert(seq![b].drop_last() =~= Seq::<Candidate>::empty());
    assert(after_arrivals(options, best, seq![a]) == Some(a)) by {
        reveal_with_fuel(after_arrivals, 2);
    }
    assert(after_arrivals(options, best, seq![b]) == Some(b)) by {
        reveal_with_fuel(after_arrivals, 2);
    }
    lemma_outranks_is_asymmetric(options, b.address@, a.address@);
}

/// A candidate that ties with the committed best on both criteria never
/// replaces it.
pub proof fn lemma_tie_keeps_committed(options: Options, committed: Candidate, arrival: Candidate)
    requires
        options.prefix_rank(arrival.address@) == options.prefix_rank(committed.address@),
        options.match_rank(arrival.address@) == options.match_rank(committed.address@),
    ensures
        judge(options, arrival, Some(committed)) == Verdict::Discarded,
        after_arrival(options, Some(committed), arrival) == Some(committed),
{
}

/// The stop record is set exactly when some arrival was committed and
/// accepted, and once set it is never cleared.
pub proof fn lemma_stop_record(
    options: Options,
    best: Option<Candidate>,
    stopped: bool,
    arrivals: Seq<Candidate>,
)
    ensures
        stopped_after(options, best, stopped, arrivals) <==> stopped || exists|i: int|
            0 <= i < arrivals.len() && #[trigger] ends_search(
                options,
                after_arrivals(options, best, arrivals.take(i)),
                arrivals[i],
            ),
        forall|i: int|
            0 <= i <= arrivals.len() && #[trigger] stopped_after(
                options,
                best,
                stopped,
                arrivals.take(i),
            ) ==> stopped_after(options, best, stopped, arrivals),
    decreases arrivals.len(),
{
    if arrivals.len() > 0 {
        let earlier = arrivals.drop_last();
        let last = arrivals.len() - 1;
        lemma_stop_record(options, best, stopped, earlier);
        assert(arrivals.take(last) =~= earlier);
        assert(arrivals.take(arrivals.len() as int) =~= arrivals);
        assert forall|i: int| 0 <= i < last implies arrivals.take(i) == earlier.take(i)
            && arrivals[i] == earlier[i] by {
            assert(arrivals.take(i) =~= earlier.take(i));
        }
        if stopped_after(options, best, stopped, arrivals) && !stopped {
            if ends_search(options, after_arrivals(options, best, earlier), arrivals.last()) {
                assert(ends_search(
                    options,
                    after_arrivals(options, best, arrivals.take(last)),
                    arrivals[last],
                ));
            } else {
                let i = choose|i: int|
                    0 <= i < earlier.len() && #[trigger] ends_search(
                        options,
                        after_arrivals(options, best, earlier.take(i)),
                        earlier[i],
                    );
                assert(ends_search(
                    options,
                    after_arrivals(options, best, arrivals.take(i)),
                    arrivals[i],
                ));
            }
        }
        assert forall|i: int|
            0 <= i <= arrivals.len() && #[trigger] stopped_after(
                options,
                best,
                stopped,
                arrivals.take(i),
            ) implies stopped_after(options, best, stopped, arrivals) by {
            if i < arrivals.len() {
                assert(arrivals.take(i) =~= earlier.take(i));
            }
        }
    } else {
        assert(arrivals.take(0) =~= arrivals);
    }
}

/// Once a candidate that starts with the desired prefix is committed, it stays
/// committed: every later arrival is discarded. Where case is ignored this is
/// stated of an ASCII address.
pub proof fn lemma_accepted_best_is_final(
    options: Options,
    best: Candidate,
    arrivals: Seq<Candidate>,
)
    requires
        options.perfect(best.address@),
        options.only_case_sensitive || is_ascii_chars(best.address@),
    ensures
        after_arrivals(options, Some(best), arrivals) == Some(best),
        forall|i: int|
            0 <= i < arrivals.len() ==> #[trigger] judge(options, arrivals[i], Some(best))
                == Verdict::Discarded,
    decreases arrivals.len(),
{
    assert forall|i: int| 0 <= i < arrivals.len() implies #[trigger] judge(
        options,
        arrivals[i],
        Some(best),
    ) == Verdict::Discarded by {
        lemma_nothing_outranks_perfect(options, best.address@, arrivals[i].address@);
    }
    if arrivals.len() > 0 {
        lemma_accepted_best_is_final(options, best, arrivals.drop_last());
        assert(arrivals.last() == arrivals[arrivals.len() - 1]);
    }
}

} // verus!
