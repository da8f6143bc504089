//! The order in which requests on one attribute are offered to its
//! channel. Each request takes a ticket when it arrives, and a request is
//! let through only when every request that arrived before it has been
//! taken by the channel or has failed for good. So a request that found the
//! channel full keeps its turn, and no later request passes it.

use crate::error::GattError;
use crate::gatt::event::Submission;
use vstd::prelude::*;

verus! {

/// What happens at the door of one attribute.
#[derive(Clone, Copy, Debug, PartialEq, Eq, Structural)]
pub enum AdmissionEvent {
    /// A request arrived.
    Arrived,
    /// The request with this ticket asks whether it may be offered now.
    Asked(u64),
    /// The request with this ticket was offered and is done with: the
    /// channel took it, or it failed for good.
    Settled(u64),
}

/// What a request is told.
#[derive(Clone, Copy, Debug, PartialEq, Eq, Structural)]
pub enum AdmissionAction {
    /// The ticket of the request that arrived.
    Ticket(u64),
    /// No ticket is left; the request is turned away with this error.
    Refuse(GattError),
    /// It is this request's turn: offer it to the channel.
    Offer,
    /// An earlier request has not been settled: ask again later.
    Wait,
    /// The request is told nothing: it was settled just now, or its ticket
    /// was never given out, or it is settled already, or it was not its
    /// turn to be settled.
    Nothing,
}

/// The tickets given out so far are those below `issued`, and the tickets
/// settled so far are those below `settled`. `offered` says whether the
/// request whose turn it is has been let through to the channel.
#[derive(Clone, Copy, Debug, PartialEq, Eq, Structural)]
pub struct AdmissionState {
    pub issued: u64,
    pub settled: u64,
    pub offered: bool,
}

impl AdmissionState {
    /// No ticket is settled that was not given out, and only a request
    /// that has a ticket was let through.
    pub open spec fn wf(self) -> bool {
        self.settled <= self.issued && (self.offered ==> self.settled < self.issued)
    }

    /// The state before any request.
    pub open spec fn initial() -> AdmissionState {
        AdmissionState { issued: 0, settled: 0, offered: false }
    }

    /// Whether it is the turn of `ticket`: it was given out, and it is the
    /// lowest ticket that is not settled.
    pub open spec fn is_turn_of(self, ticket: u64) -> bool {
        ticket == self.settled && ticket < self.issued
    }

    /// The state after `event` and what the request is told. A request
    /// that arrives gets the next ticket. A request that asks is let
    /// through if it is its turn and waits if an earlier one is not
    /// settled. A request is settled only in its turn and after it was let
    /// through, and the turn then passes to the next ticket.
    pub open spec fn spec_step(self, event: AdmissionEvent) -> (AdmissionState, AdmissionAction) {
        match event {
            AdmissionEvent::Arrived => if self.issued < u64::MAX {
                (
                    AdmissionState { issued: (self.issued + 1) as u64, ..self },
                    AdmissionAction::Ticket(self.issued),
                )
            } else {
                (self, AdmissionAction::Refuse(GattError::ChannelFull))
            },
            AdmissionEvent::Asked(ticket) => if self.is_turn_of(ticket) {
                (AdmissionState { offered: true, ..self }, AdmissionAction::Offer)
            } else if self.settled < ticket && ticket < self.issued {
                (self, AdmissionAction::Wait)
            } else {
                (self, AdmissionAction::Nothing)
            },
            AdmissionEvent::Settled(ticket) => if self.is_turn_of(ticket) && self.offered {
                (
                    AdmissionState {
                        settled: (self.settled + 1) as u64,
                        offered: false,
                        ..self
                    },
                    AdmissionAction::Nothing,
                )
            } else {
                (self, AdmissionAction::Nothing)
            },
        }
    }
}

/// The door of one attribute.
#[derive(Clone, Copy, Debug)]
pub struct Admission {
    state: AdmissionState,
}

impl View for Admission {
    type V = AdmissionState;

    closed spec fn view(&self) -> AdmissionState {
        self.state
    }
}

impl Admission {
    #[verifier::type_invariant]
    spec fn valid(self) -> bool {
        self.state.wf()
    }

    /// The door before any request.
    pub fn new() -> (admission: Self)
        ensures
            admission@ == AdmissionState::initial(),
    {
        Admission { state: AdmissionState { issued: 0, settled: 0, offered: false } }
    }

    /// The state of the door.
    pub fn state(&self) -> (state: AdmissionState)
        ensures
            state == self@,
            state.wf(),
    {
        proof {
            use_type_invariant(self);
        }
        self.state
    }

    /// Takes in one event and says what the request is told, as
    /// `spec_step` describes. A request is told to offer only in its turn,
    /// which is when every ticket below its own is settled.
    pub fn step(&mut self, event: AdmissionEvent) -> (action: AdmissionAction)
        ensures
            (final(self)@, action) == old(self)@.spec_step(event),
            final(self)@.wf(),
            action == AdmissionAction::Offer ==> event == AdmissionEvent::Asked(
                old(self)@.settled,
            ),
    {
        proof {
            use_type_invariant(&*self);
        }
        match event {
            AdmissionEvent::Arrived => {
                if self.state.issued < u64::MAX {
                    let ticket = self.state.issued;
                    self.state = AdmissionState { issued: ticket + 1, ..self.state };
                    AdmissionAction::Ticket(ticket)
                } else {
                    AdmissionAction::Refuse(GattError::ChannelFull)
                }
            },
            AdmissionEvent::Asked(ticket) => {
                if ticket == self.state.settled && ticket < self.state.issued {
                    self.state = AdmissionState { offered: true, ..self.state };
                    AdmissionAction::Offer
                } else if self.state.settled < ticket && ticket < self.state.issued {
                    AdmissionAction::Wait
                } else {
                    AdmissionAction::Nothing
                }
            },
            AdmissionEvent::Settled(ticket) => {
                if ticket == self.state.settled && ticket < self.state.issued
                    && self.state.offered {
                    self.state = AdmissionState {
                        issued: self.state.issued,
                        settled: ticket + 1,
                        offered: false,
                    };
                }
                AdmissionAction::Nothing
            },
        }
    }
}

/// Whether a request that was offered with this result is done with, so
/// that the turn passes on: it is, unless the channel was full and the
/// request is to be offered again.
pub fn settles(submission: &Submission) -> (done: bool)
    ensures
        done == !(submission is Retry),
{
    match submission {
        Submission::Retry => false,
        _ => true,
    }
}

/// The state of a door after `events`.
pub open spec fn after_events(events: Seq<AdmissionEvent>) -> AdmissionState
    decreases events.len(),
{
    if events.len() == 0 {
        AdmissionState::initial()
    } else {
        after_events(events.drop_last()).spec_step(events.last()).0
    }
}

/// The tickets that were given out during `events`, in the order in which
/// their requests arrived.
pub open spec fn tickets_given(events: Seq<AdmissionEvent>) -> Seq<u64>
    decreases events.len(),
{
    if events.len() == 0 {
        Seq::empty()
    } else {
        let before = tickets_given(events.drop_last());
        match after_events(events.drop_last()).spec_step(events.last()).1 {
            AdmissionAction::Ticket(ticket) => before.push(ticket),
            _ => before,
        }
    }
}

/// The tickets whose requests were let through to the channel during
/// `events`, in the order in which they were let through for the first
/// time.
pub open spec fn tickets_let_through(events: Seq<AdmissionEvent>) -> Seq<u64>
    decreases events.len(),
{
    if events.len() == 0 {
        Seq::empty()
    } else {
        let before = tickets_let_through(events.drop_last());
        match (events.last(), after_events(events.drop_last()).spec_step(events.last()).1) {
            (AdmissionEvent::Asked(ticket), AdmissionAction::Offer) => if before.len() > 0
                && before.last() == ticket {
                before
            } else {
                before.push(ticket)
            },
            _ => before,
        }
    }
}

/// The numbers from zero up to, and without, `count`.
pub open spec fn counting(count: nat) -> Seq<u64> {
    Seq::new(count, |i: int| i as u64)
}

/// Requests on one attribute reach its channel in the order in which they
/// arrived. Whatever happens at the door and in whatever order: tickets are
/// given out in the order of arrival, counting from zero; and the requests
/// that were let through to the channel are, in the order in which they
/// were let through, the first of those tickets, none left out and none
/// before its turn. A request is let through only while every earlier one
/// is settled, so one that found the channel full is offered again before
/// any later one is offered at all.
pub proof fn lemma_in_order_of_arrival(events: Seq<AdmissionEvent>)
    ensures
        after_events(events).wf(),
        tickets_given(events) == counting(after_events(events).issued as nat),
        tickets_let_through(events).len() <= after_events(events).issued,
        tickets_let_through(events) == counting(tickets_let_through(events).len()),
        tickets_let_through(events).len() == after_events(events).settled + if after_events(
            events,
        ).offered {
            1int
        } else {
            0int
        },
    decreases events.len(),
{
    if events.len() > 0 {
        let earlier = events.drop_last();
        lemma_in_order_of_arrival(earlier);
        let before = after_events(earlier);
        let given = tickets_given(earlier);
        let through = tickets_let_through(earlier);
        assert(tickets_given(events) =~= counting(after_events(events).issued as nat));
        assert(tickets_let_through(events) =~= counting(tickets_let_through(events).len()));
    }
}

} // verus!
