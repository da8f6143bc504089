//! The registration of a tree with the host stack, as a sequence of
//! decisions: which object to publish or to withdraw next, given how the
//! host stack took the last step. Whoever talks to the host stack performs
//! each action and reports what came of it.

use crate::error::GattError;
use vstd::prelude::*;

verus! {

/// How far a registration has come.
#[derive(Clone, Copy, Debug, PartialEq, Eq, Structural)]
pub enum Phase {
    /// Nothing was done yet.
    Idle,
    /// Objects are being published, one after the other.
    Publishing,
    /// Every object is published; the host stack has been asked to take the
    /// tree and has not answered.
    Announcing,
    /// The registration failed for the reason given; the objects that were
    /// published are being withdrawn, last one first.
    Withdrawing(GattError),
    /// The host stack took the tree. Every object is visible.
    Registered,
    /// The registration failed for the reason given. No object is visible.
    Failed(GattError),
}

/// What the host stack made of the last action, or the request to begin.
#[derive(Clone, Copy, Debug, PartialEq, Eq, Structural)]
pub enum HostEvent {
    /// Begin the registration.
    Start,
    /// The last action was carried out.
    Accepted,
    /// The host stack refused the last action.
    Rejected,
    /// The host stack did not answer the last action in time.
    TimedOut,
}

/// What is to be done next.
#[derive(Clone, Copy, Debug, PartialEq, Eq, Structural)]
pub enum Action {
    /// Nothing: the event does not belong to the phase.
    Nothing,
    /// Publish the object with this index in the list of objects.
    Publish(usize),
    /// Ask the host stack to take the tree that is now published.
    Announce,
    /// Withdraw the object with this index.
    Withdraw(usize),
    /// The tree is registered.
    Done,
    /// The registration failed for this reason, and nothing is visible.
    Fail(GattError),
}

/// The state of a registration: the tree has `total` objects, of which the
/// first `published` are visible.
#[derive(Clone, Copy, Debug, PartialEq, Eq, Structural)]
pub struct RegistrationState {
    pub total: usize,
    pub published: usize,
    pub phase: Phase,
}

/// The registration of one tree with the host stack.
#[derive(Clone, Copy, Debug)]
pub struct Registration {
    state: RegistrationState,
}

/// Why a registration fails on an event: a timeout is reported as such,
/// anything else as a refusal.
pub open spec fn spec_cause(event: HostEvent) -> GattError {
    if event == HostEvent::TimedOut {
        GattError::TransportTimeout
    } else {
        GattError::RegistrationFailed
    }
}

impl RegistrationState {
    /// The count of visible objects fits the phase: none before the start
    /// and after a failure, all while announcing and once registered, at
    /// least one while withdrawing, and fewer than all while publishing.
    pub open spec fn wf(self) -> bool {
        match self.phase {
            Phase::Idle => self.published == 0,
            Phase::Publishing => self.published < self.total,
            Phase::Announcing => self.published == self.total,
            Phase::Withdrawing(_) => 0 < self.published <= self.total,
            Phase::Registered => self.published == self.total,
            Phase::Failed(_) => self.published == 0,
        }
    }

    /// Whether the registration has ended.
    pub open spec fn spec_is_finished(self) -> bool {
        self.phase is Registered || self.phase is Failed
    }

    /// Whether the event belongs to the phase: the start to an idle
    /// registration, an answer of the host stack to one that is under way.
    pub open spec fn expects(self, event: HostEvent) -> bool {
        match self.phase {
            Phase::Idle => event == HostEvent::Start,
            Phase::Registered => false,
            Phase::Failed(_) => false,
            _ => event != HostEvent::Start,
        }
    }

    /// The rollback from this state for `cause`: done at once where nothing
    /// is visible, else beginning with the object published last.
    pub open spec fn spec_roll_back(self, cause: GattError) -> (RegistrationState, Action) {
        if self.published == 0 {
            (RegistrationState { phase: Phase::Failed(cause), ..self }, Action::Fail(cause))
        } else {
            (
                RegistrationState { phase: Phase::Withdrawing(cause), ..self },
                Action::Withdraw((self.published - 1) as usize),
            )
        }
    }

    /// The state after `event` and the action that it calls for.
    pub open spec fn spec_step(self, event: HostEvent) -> (RegistrationState, Action) {
        if !self.expects(event) {
            (self, Action::Nothing)
        } else {
            match self.phase {
                Phase::Idle => if self.total == 0 {
                    (RegistrationState { phase: Phase::Announcing, ..self }, Action::Announce)
                } else {
                    (RegistrationState { phase: Phase::Publishing, ..self }, Action::Publish(0))
                },
                Phase::Publishing => if event == HostEvent::Accepted {
                    if self.published + 1 == self.total {
                        (
                            RegistrationState {
                                published: self.total,
                                phase: Phase::Announcing,
                                ..self
                            },
                            Action::Announce,
                        )
                    } else {
                        (
                            RegistrationState { published: (self.published + 1) as usize, ..self },
                            Action::Publish((self.published + 1) as usize),
                        )
                    }
                } else {
                    self.spec_roll_back(spec_cause(event))
                },
                Phase::Announcing => if event == HostEvent::Accepted {
                    (RegistrationState { phase: Phase::Registered, ..self }, Action::Done)
                } else {
                    self.spec_roll_back(spec_cause(event))
                },
                Phase::Withdrawing(cause) => (RegistrationState {
                    published: (self.published - 1) as usize,
                    ..self
                }).spec_roll_back(cause),
                _ => (self, Action::Nothing),
            }
        }
    }

    /// An upper bound on the number of events that the registration still
    /// takes before it has ended.
    pub open spec fn remaining(self) -> nat {
        match self.phase {
            Phase::Idle => (2 * self.total + 3) as nat,
            Phase::Publishing => (2 * self.total - self.published + 2) as nat,
            Phase::Announcing => (self.total + 1) as nat,
            Phase::Withdrawing(_) => self.published as nat,
            Phase::Registered => 0,
            Phase::Failed(_) => 0,
        }
    }

    /// Turns to failure for `cause`: the action is the first withdrawal, or
    /// the failure itself where nothing is visible.
    fn roll_back(&mut self, cause: GattError) -> (action: Action)
        requires
            old(self).published <= old(self).total,
        ensures
            (*final(self), action) == old(self).spec_roll_back(cause),
            final(self).wf(),
    {
        if self.published == 0 {
            self.phase = Phase::Failed(cause);
            Action::Fail(cause)
        } else {
            self.phase = Phase::Withdrawing(cause);
            Action::Withdraw(self.published - 1)
        }
    }

    /// The step that `spec_step` describes.
    fn step(&mut self, event: HostEvent) -> (action: Action)
        requires
            old(self).wf(),
        ensures
            (*final(self), action) == old(self).spec_step(event),
            final(self).wf(),
            final(self).total == old(self).total,
            final(self).phase is Registered ==> final(self).published == final(self).total,
            final(self).phase is Failed ==> final(self).published == 0,
            old(self).expects(event) ==> final(self).remaining() < old(self).remaining(),
    {
        let expected = match self.phase {
            Phase::Idle => event == HostEvent::Start,
            Phase::Registered => false,
            Phase::Failed(_) => false,
            _ => event != HostEvent::Start,
        };
        if !expected {
            return Action::Nothing;
        }
        let cause = if event == HostEvent::TimedOut {
            GattError::TransportTimeout
        } else {
            GattError::RegistrationFailed
        };
        match self.phase {
            Phase::Idle => {
                if self.total == 0 {
                    self.phase = Phase::Announcing;
                    Action::Announce
                } else {
                    self.phase = Phase::Publishing;
                    Action::Publish(0)
                }
            },
            Phase::Publishing => {
                if event == HostEvent::Accepted {
                    self.published = self.published + 1;
                    if self.published == self.total {
                        self.phase = Phase::Announcing;
                        Action::Announce
                    } else {
                        Action::Publish(self.published)
                    }
                } else {
                    self.roll_back(cause)
                }
            },
            Phase::Announcing => {
                if event == HostEvent::Accepted {
                    self.phase = Phase::Registered;
                    Action::Done
                } else {
                    self.roll_back(cause)
                }
            },
            Phase::Withdrawing(earlier) => {
                self.published = self.published - 1;
                self.roll_back(earlier)
            },
            _ => Action::Nothing,
        }
    }
}

impl View for Registration {
    type V = RegistrationState;

    closed spec fn view(&self) -> RegistrationState {
        self.state
    }
}

impl Registration {
    #[verifier::type_invariant]
    spec fn valid(self) -> bool {
        self.state.wf()
    }

    /// The registration of a tree of `total` objects, before its start.
    pub fn new(total: usize) -> (registration: Self)
        ensures
            registration@ == (RegistrationState { total, published: 0, phase: Phase::Idle }),
            registration@.wf(),
    {
        Registration { state: RegistrationState { total, published: 0, phase: Phase::Idle } }
    }

    /// The state of the registration.
    pub fn state(&self) -> (state: RegistrationState)
        ensures
            state == self@,
            state.wf(),
    {
        proof {
            use_type_invariant(self);
        }
        self.state
    }

    /// Whether the registration has ended.
    pub fn is_finished(&self) -> (finished: bool)
        ensures
            finished == self@.spec_is_finished(),
    {
        match self.state.phase {
            Phase::Registered => true,
            Phase::Failed(_) => true,
            _ => false,
        }
    }

    /// Takes in what came of the last action and says what is to be done
    /// next. An event that does not belong to the phase changes nothing.
    /// Otherwise objects are published in the order of their indices; when
    /// all are visible the host stack is asked to take the tree; and on the
    /// first refusal or timeout everything that is visible is withdrawn
    /// again, last one first, before the failure is reported. So the
    /// registration ends with every object visible or with none, and each
    /// event that belongs to the phase brings the end nearer.
    pub fn step(&mut self, event: HostEvent) -> (action: Action)
        ensures
            (final(self)@, action) == old(self)@.spec_step(event),
            final(self)@.wf(),
            final(self)@.total == old(self)@.total,
            final(self)@.phase is Registered ==> final(self)@.published == final(self)@.total,
            final(self)@.phase is Failed ==> final(self)@.published == 0,
            old(self)@.expects(event) ==> final(self)@.remaining() < old(self)@.remaining(),
    {
        proof {
            use_type_invariant(&*self);
        }
        let mut state = self.state;
        let action = state.step(event);
        self.state = state;
        action
    }
}

/// The state that a registration of `total` objects is in after `events`.
pub open spec fn after_events(total: usize, events: Seq<HostEvent>) -> RegistrationState
    decreases events.len(),
{
    if events.len() == 0 {
        RegistrationState { total, published: 0, phase: Phase::Idle }
    } else {
        after_events(total, events.drop_last()).spec_step(events.last()).0
    }
}

/// Whatever the host stack answers and however often, the tree is never
/// left half registered: once the registration has ended, every object is
/// visible or none is, and before that the visible ones are the first ones.
pub proof fn lemma_all_or_nothing(total: usize, events: Seq<HostEvent>)
    ensures
        after_events(total, events).wf(),
        after_events(total, events).total == total,
        after_events(total, events).published <= total,
        after_events(total, events).phase is Registered ==> after_events(
            total,
            events,
        ).published == total,
        after_events(total, events).phase is Failed ==> after_events(total, events).published
            == 0,
    decreases events.len(),
{
    if events.len() > 0 {
        lemma_all_or_nothing(total, events.drop_last());
    }
}

} // verus!
