use crate::candidate::Candidate;
use std::collections::VecDeque;
use vstd::prelude::*;

verus! {

/// The number of candidates that a channel buffers unless told otherwise.
pub const DEFAULT_CAPACITY: usize = 10;

/// The buffer after `candidate` was offered to it: taken in at the back while
/// there is room, left as it was once `capacity` candidates wait.
pub open spec fn offer(queue: Seq<Candidate>, capacity: nat, candidate: Candidate) -> Seq<
    Candidate,
> {
    if queue.len() < capacity {
        queue.push(candidate)
    } else {
        queue
    }
}

/// The buffer after every candidate of `offers` was offered in turn and none
/// was taken out.
pub open spec fn offer_all(queue: Seq<Candidate>, capacity: nat, offers: Seq<Candidate>) -> Seq<
    Candidate,
>
    decreases offers.len(),
{
    if offers.len() == 0 {
        queue
    } else {
        offer(offer_all(queue, capacity, offers.drop_last()), capacity, offers.last())
    }
}

/// The buffer after its oldest candidate, if there is one, was taken out.
pub open spec fn taken(queue: Seq<Candidate>) -> Seq<Candidate> {
    if queue.len() > 0 {
        queue.drop_first()
    } else {
        queue
    }
}

/// What one end does to a channel whose other end is still there.
pub enum ChannelEvent {
    /// A worker offers a candidate.
    Offer(Candidate),
    /// The arbiter tries to take one out.
    Take,
}

/// The buffer after `events` happened in their order.
pub open spec fn queue_after(queue: Seq<Candidate>, capacity: nat, events: Seq<ChannelEvent>) -> Seq<
    Candidate,
>
    decreases events.len(),
{
    if events.len() == 0 {
        queue
    } else {
        let before = queue_after(queue, capacity, events.drop_last());
        match events.last() {
            ChannelEvent::Offer(candidate) => offer(before, capacity, candidate),
            ChannelEvent::Take => taken(before),
        }
    }
}

/// The candidates that the buffer took in during `events`, in their order:
/// every offer that found room.
pub open spec fn admitted(queue: Seq<Candidate>, capacity: nat, events: Seq<ChannelEvent>) -> Seq<
    Candidate,
>
    decreases events.len(),
{
    if events.len() == 0 {
        Seq::empty()
    } else {
        let before = queue_after(queue, capacity, events.drop_last());
        let earlier = admitted(queue, capacity, events.drop_last());
        match events.last() {
            ChannelEvent::Offer(candidate) => if before.len() < capacity {
                earlier.push(candidate)
            } else {
                earlier
            },
            ChannelEvent::Take => earlier,
        }
    }
}

/// The candidates that the arbiter got during `events`, in their order.
pub open spec fn delivered(queue: Seq<Candidate>, capacity: nat, events: Seq<ChannelEvent>) -> Seq<
    Candidate,
>
    decreases events.len(),
{
    if events.len() == 0 {
        Seq::empty()
    } else {
        let before = queue_after(queue, capacity, events.drop_last());
        let earlier = delivered(queue, capacity, events.drop_last());
        match events.last() {
            ChannelEvent::Offer(_) => earlier,
            ChannelEvent::Take => if before.len() > 0 {
                earlier.push(before[0])
            } else {
                earlier
            },
        }
    }
}

/// What became of a candidate that a worker tried to send.
pub enum SendOutcome {
    /// It waits in the buffer.
    Sent,
    /// The buffer is full: the candidate comes back and the worker has to wait.
    Full(Candidate),
    /// The arbiter is gone: the candidate comes back and the worker stops.
    Disconnected(Candidate),
}

/// What the arbiter got when it tried to receive.
pub enum RecvOutcome {
    /// The candidate that waited longest.
    Received(Candidate),
    /// Nothing waits, but workers may still send: the arbiter has to wait.
    Empty,
    /// Nothing waits and every worker has left: the search is over.
    Closed,
}

/// The bounded buffer between the workers and the arbiter. Candidates leave in
/// the order in which they came, and none is ever dropped.
pub struct ImprovementChannel {
    queue: VecDeque<Candidate>,
    capacity: usize,
    senders_done: bool,
    receiver_gone: bool,
}

impl View for ImprovementChannel {
    type V = Seq<Candidate>;

    /// The candidates that wait, oldest first.
    closed spec fn view(&self) -> Seq<Candidate> {
        self.queue@
    }
}

impl ImprovementChannel {
    #[verifier::type_invariant]
    spec fn within_capacity(self) -> bool {
        self.queue@.len() <= self.capacity
    }

    /// The most candidates that may wait at once.
    pub closed spec fn bound(&self) -> nat {
        self.capacity as nat
    }

    /// Whether every worker has left.
    pub closed spec fn senders_done(&self) -> bool {
        self.senders_done
    }

    /// Whether the arbiter has left.
    pub closed spec fn receiver_gone(&self) -> bool {
        self.receiver_gone
    }

    /// Moves the queue out and leaves an empty one behind, so that it can be
    /// changed while the channel itself stays within its capacity.
    fn take_queue(&mut self) -> (queue: VecDeque<Candidate>)
        ensures
            queue@ == old(self)@,
            final(self)@ == Seq::<Candidate>::empty(),
            final(self).capacity == old(self).capacity,
            final(self).senders_done == old(self).senders_done,
            final(self).receiver_gone == old(self).receiver_gone,
    {
        let mut queue = VecDeque::new();
        core::mem::swap(&mut self.queue, &mut queue);
        queue
    }

    /// An empty channel that buffers up to `capacity` candidates. One of
    /// capacity 0 never takes anything.
    pub fn new(capacity: usize) -> (channel: ImprovementChannel)
        ensures
            channel@ == Seq::<Candidate>::empty(),
            channel.bound() == capacity,
            !channel.senders_done(),
            !channel.receiver_gone(),
    {
        ImprovementChannel {
            queue: VecDeque::new(),
            capacity,
            senders_done: false,
            receiver_gone: false,
        }
    }

    /// The most candidates that may wait at once.
    pub fn capacity(&self) -> (capacity: usize)
        ensures
            capacity == self.bound(),
    {
        self.capacity
    }

    /// The number of candidates that wait; never more than the capacity.
    pub fn len(&self) -> (len: usize)
        ensures
            len == self@.len(),
            len <= self.bound(),
    {
        proof {
            use_type_invariant(self);
        }
        self.queue.len()
    }

    /// Offers a candidate. It is buffered if the arbiter still listens and there
    /// is room; otherwise it is handed back untouched and the buffer stays as it
    /// was.
    pub fn try_send(&mut self, candidate: Candidate) -> (outcome: SendOutcome)
        ensures
            final(self).bound() == old(self).bound(),
            final(self).senders_done() == old(self).senders_done(),
            final(self).receiver_gone() == old(self).receiver_gone(),
            final(self)@.len() <= final(self).bound(),
            old(self).receiver_gone() ==> outcome == SendOutcome::Disconnected(candidate)
                && final(self)@ == old(self)@,
            !old(self).receiver_gone() ==> final(self)@ == offer(
                old(self)@,
                old(self).bound(),
                candidate,
            ),
            !old(self).receiver_gone() && old(self)@.len() < old(self).bound() ==> outcome
                == SendOutcome::Sent,
            !old(self).receiver_gone() && old(self)@.len() >= old(self).bound() ==> outcome
                == SendOutcome::Full(candidate),
    {
        proof {
            use_type_invariant(&*self);
        }
        if self.receiver_gone {
            SendOutcome::Disconnected(candidate)
        } else if self.queue.len() < self.capacity {
            let mut queue = self.take_queue();
            queue.push_back(candidate);
            self.queue = queue;
            SendOutcome::Sent
        } else {
            SendOutcome::Full(candidate)
        }
    }

    /// Takes the oldest waiting candidate out. With nothing waiting, says
    /// whether more may still come.
    pub fn try_recv(&mut self) -> (outcome: RecvOutcome)
        ensures
            final(self).bound() == old(self).bound(),
            final(self).senders_done() == old(self).senders_done(),
            final(self).receiver_gone() == old(self).receiver_gone(),
            old(self)@.len() > 0 ==> outcome == RecvOutcome::Received(old(self)@[0]),
            final(self)@ == taken(old(self)@),
            old(self)@.len() == 0 && old(self).senders_done() ==> outcome == RecvOutcome::Closed,
            old(self)@.len() == 0 && !old(self).senders_done() ==> outcome == RecvOutcome::Empty,
    {
        proof {
            use_type_invariant(&*self);
        }
        let mut queue = self.take_queue();
        let oldest = queue.pop_front();
        assert(oldest is Some ==> queue@ =~= old(self)@.drop_first());
        self.queue = queue;
        match oldest {
            Some(candidate) => RecvOutcome::Received(candidate),
            None => if self.senders_done {
                RecvOutcome::Closed
            } else {
                RecvOutcome::Empty
            },
        }
    }

    /// Records that every worker has left. What waits can still be received.
    pub fn close_senders(&mut self)
        ensures
            final(self).senders_done(),
            final(self)@ == old(self)@,
            final(self).bound() == old(self).bound(),
            final(self).receiver_gone() == old(self).receiver_gone(),
    {
        proof {
            use_type_invariant(&*self);
        }
        self.senders_done = true;
    }

    /// Records that the arbiter has left. Every later send is turned away.
    pub fn close_receiver(&mut self)
        ensures
            final(self).receiver_gone(),
            final(self)@ == old(self)@,
            final(self).bound() == old(self).bound(),
            final(self).senders_done() == old(self).senders_done(),
    {
        proof {
            use_type_invariant(&*self);
        }
        self.receiver_gone = true;
    }
}

/// While nothing is taken out, a buffer within its capacity stays within it
/// whatever is offered: it takes the offers in their order until it is full and
/// turns every later one away.
pub proof fn lemma_stalled_receiver_bounds_buffer(
    queue: Seq<Candidate>,
    capacity: nat,
    offers: Seq<Candidate>,
)
    requires
        queue.len() <= capacity,
    ensures
        offer_all(queue, capacity, offers).len() <= capacity,
        offer_all(queue, capacity, offers) == queue + offers.take(
            if offers.len() <= capacity - queue.len() {
                offers.len() as int
            } else {
                capacity - queue.len()
            },
        ),
    decreases offers.len(),
{
    if offers.len() == 0 {
        assert(offers.take(0) =~= Seq::<Candidate>::empty());
        assert(queue + offers.take(0) =~= queue);
    } else {
        let earlier = offers.drop_last();
        lemma_stalled_receiver_bounds_buffer(queue, capacity, earlier);
        let room = capacity - queue.len();
        if offers.len() <= room {
            assert(earlier.take(earlier.len() as int) =~= earlier);
            assert(offers.take(offers.len() as int) =~= offers);
            assert(queue + offers =~= (queue + earlier).push(offers.last()));
        } else {
            assert(earlier.take(room) =~= offers.take(room));
        }
    }
}

/// Over any run of offers and takes nothing is lost, doubled, changed or
/// reordered: what the arbiter got, followed by what still waits, is what
/// waited at first followed by what was taken in. The buffer stays within its
/// capacity throughout.
pub proof fn lemma_every_admitted_candidate_arrives_once(
    queue: Seq<Candidate>,
    capacity: nat,
    events: Seq<ChannelEvent>,
)
    requires
        queue.len() <= capacity,
    ensures
        queue_after(queue, capacity, events).len() <= capacity,
        delivered(queue, capacity, events) + queue_after(queue, capacity, events) == queue
            + admitted(queue, capacity, events),
    decreases events.len(),
{
    if events.len() == 0 {
        assert(Seq::<Candidate>::empty() + queue =~= queue + Seq::<Candidate>::empty());
    } else {
        let earlier = events.drop_last();
        lemma_every_admitted_candidate_arrives_once(queue, capacity, earlier);
        let before = queue_after(queue, capacity, earlier);
        let got = delivered(queue, capacity, earlier);
        let came = admitted(queue, capacity, earlier);
        assert(got + before == queue + came);
        match events.last() {
            ChannelEvent::Offer(candidate) => {
                if before.len() < capacity {
                    assert(got + before.push(candidate) =~= (got + before).push(candidate));
                    assert(queue + came.push(candidate) =~= (queue + came).push(candidate));
                }
            },
            ChannelEvent::Take => {
                if before.len() > 0 {
                    assert(got.push(before[0]) + before.drop_first() =~= got + before);
                }
            },
        }
    }
}

} // verus!
