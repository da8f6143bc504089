//! The bridge between the transport and the application: the events that an
//! attribute sends over its channel, and the way an answer comes back.

use crate::error::GattError;
use crate::gatt::gatt_properties::Properties;
use futures::channel::mpsc;
use futures::channel::oneshot;
use vstd::prelude::*;

verus! {

/// `futures::channel::mpsc::Sender`, the sending half of a bounded channel.
/// Nothing inside it is read here.
#[verifier::external_type_specification]
#[verifier::external_body]
#[verifier::reject_recursive_types(T)]
pub struct ExMpscSender<T>(futures::channel::mpsc::Sender<T>);

/// `futures::channel::oneshot::Sender`, the sending half of a channel for
/// one value. Nothing inside it is read here.
#[verifier::external_type_specification]
#[verifier::external_body]
#[verifier::reject_recursive_types(T)]
pub struct ExOneshotSender<T>(futures::channel::oneshot::Sender<T>);

/// `futures::channel::oneshot::Receiver`, the receiving half of a channel
/// for one value. Nothing inside it is read here.
#[verifier::external_type_specification]
#[verifier::external_body]
#[verifier::reject_recursive_types(T)]
pub struct ExOneshotReceiver<T>(futures::channel::oneshot::Receiver<T>);

/// `futures::channel::oneshot::Canceled`, the error of a receiving half
/// whose sender is gone.
#[verifier::external_type_specification]
#[verifier::external_body]
pub struct ExOneshotCanceled(futures::channel::oneshot::Canceled);

/// The sending half of the bounded channel of one capability of one attribute.
pub type EventSender = mpsc::Sender<Event>;

/// What the application answers to a read or a write.
#[derive(Debug)]
pub enum Response {
    /// The request succeeded. A read carries the value; a write carries
    /// nothing, or what the application chose to hand back.
    Success(Vec<u8>),
    /// The request failed, with a code of the application's choosing.
    Failure(u8),
}

/// The handle with which the application answers one request.
#[derive(Debug)]
pub struct Responder {
    sender: oneshot::Sender<Response>,
}

/// The handle on which the transport waits for the answer to one request.
#[derive(Debug)]
pub struct Pending {
    receiver: oneshot::Receiver<Response>,
}

/// What reaches the application over an attribute's channel.
#[derive(Debug)]
pub enum Event {
    /// A remote read; the value is owed through the responder.
    ReadRequest(Responder),
    /// A remote write of the bytes; an acknowledgement is owed through the
    /// responder.
    WriteRequest(Vec<u8>, Responder),
    /// A remote client started to listen. Nothing is owed.
    NotifySubscribe,
    /// A remote client stopped listening. Nothing is owed.
    NotifyUnsubscribe,
}

/// An `Event` as a plain value: its kind and, for a write, the bytes. The
/// responder of a request is left out: it is a handle of which nothing can
/// be said but that it is there.
pub enum EventView {
    ReadRequest,
    WriteRequest(Seq<u8>),
    NotifySubscribe,
    NotifyUnsubscribe,
}

impl View for Event {
    type V = EventView;

    open spec fn view(&self) -> EventView {
        match self {
            Event::ReadRequest(_) => EventView::ReadRequest,
            Event::WriteRequest(bytes, _) => EventView::WriteRequest(bytes@),
            Event::NotifySubscribe => EventView::NotifySubscribe,
            Event::NotifyUnsubscribe => EventView::NotifyUnsubscribe,
        }
    }
}

impl Event {
    /// Whether the application owes an answer to the event.
    pub open spec fn spec_expects_response(&self) -> bool {
        self@ is ReadRequest || self@ is WriteRequest
    }

    #[verifier::when_used_as_spec(spec_expects_response)]
    pub fn expects_response(&self) -> (owed: bool)
        ensures
            owed == self.spec_expects_response(),
    {
        match self {
            Event::ReadRequest(_) => true,
            Event::WriteRequest(_, _) => true,
            Event::NotifySubscribe => false,
            Event::NotifyUnsubscribe => false,
        }
    }
}

/// What a remote client asks of an attribute.
#[derive(Debug)]
pub enum Request {
    /// Read the value.
    Read,
    /// Write these bytes.
    Write(Vec<u8>),
    /// Start to listen for changes of the value.
    Subscribe,
    /// Stop listening.
    Unsubscribe,
}

/// What the transport holds once a request was taken.
#[derive(Debug)]
pub enum Reply {
    /// The application's answer to a read or a write will arrive here.
    Pending(Pending),
    /// The number of listeners after a client came or went.
    Subscribers(usize),
}

/// How one attempt to enqueue an event ended.
#[derive(Debug)]
pub enum SendOutcome {
    /// The event is in the channel.
    Delivered,
    /// The channel is full. The event comes back.
    Full(Event),
    /// The receiving half is gone. The event comes back.
    Closed(Event),
}

/// What a look at a pending answer found.
#[derive(Debug)]
pub enum Taken {
    /// The application has not answered yet.
    Waiting,
    /// The application's answer.
    Ready(Response),
    /// The application dropped the responder without an answer.
    Abandoned,
}

/// Calls `futures::channel::mpsc::Sender::try_send`. Trusted: whether the
/// event is taken depends on the channel, so nothing is claimed of that; an
/// event that is not taken is handed back as it was given. The call does
/// not wait. It gives up only where the channel would have to count more
/// than half of `usize::MAX` events, which no memory holds.
#[verifier::external_body]
fn try_send(sender: &mut mpsc::Sender<Event>, event: Event) -> (outcome: SendOutcome)
    ensures
        outcome matches SendOutcome::Full(back) ==> back == event,
        outcome matches SendOutcome::Closed(back) ==> back == event,
{
    match sender.try_send(event) {
        Ok(()) => SendOutcome::Delivered,
        Err(error) => if error.is_full() {
            SendOutcome::Full(error.into_inner())
        } else {
            SendOutcome::Closed(error.into_inner())
        },
    }
}

/// Whether the two halves belong to one channel, so that what is sent on
/// the one is what arrives at the other: the relation between the two
/// halves that `futures::channel::oneshot::channel` hands out together.
pub uninterp spec fn halves_of_one_channel(
    sender: oneshot::Sender<Response>,
    receiver: oneshot::Receiver<Response>,
) -> bool;

/// Calls `futures::channel::oneshot::channel`. Trusted: the two halves that
/// come back belong to one channel.
#[verifier::external_body]
fn oneshot_channel() -> (halves: (oneshot::Sender<Response>, oneshot::Receiver<Response>))
    ensures
        halves_of_one_channel(halves.0, halves.1),
{
    oneshot::channel()
}

/// Calls `futures::channel::oneshot::Sender::send`. Trusted: an answer that
/// the waiting side can no longer take is handed back as it was given.
#[verifier::external_body]
fn oneshot_send(sender: oneshot::Sender<Response>, response: Response) -> (refused: Option<
    Response,
>)
    ensures
        refused matches Some(back) ==> back == response,
{
    sender.send(response).err()
}

/// Calls `futures::channel::oneshot::Receiver::try_recv`. Trusted: what is
/// found depends on the other half, so nothing is claimed of it.
#[verifier::external_body]
fn oneshot_try_recv(receiver: &mut oneshot::Receiver<Response>) -> (taken: Taken) {
    match receiver.try_recv() {
        Ok(Some(response)) => Taken::Ready(response),
        Ok(None) => Taken::Waiting,
        Err(_) => Taken::Abandoned,
    }
}

/// The two ends of the path on which one answer travels.
fn response_channel() -> (ends: (Responder, Pending))
    ensures
        ends.0.answers(ends.1),
{
    let (sender, receiver) = oneshot_channel();
    (Responder { sender }, Pending { receiver })
}

/// What the transport is told after an attempt to enqueue: success when the
/// event was delivered, `ChannelFull` when the channel was full, and
/// `ChannelClosed` when the application's end was gone.
pub open spec fn spec_delivery_result(outcome: SendOutcome) -> Result<(), GattError> {
    match outcome {
        SendOutcome::Delivered => Ok(()),
        SendOutcome::Full(_) => Err(GattError::ChannelFull),
        SendOutcome::Closed(_) => Err(GattError::ChannelClosed),
    }
}

#[verifier::when_used_as_spec(spec_delivery_result)]
pub fn delivery_result(outcome: SendOutcome) -> (result: Result<(), GattError>)
    ensures
        result == spec_delivery_result(outcome),
{
    match outcome {
        SendOutcome::Delivered => Ok(()),
        SendOutcome::Full(_) => Err(GattError::ChannelFull),
        SendOutcome::Closed(_) => Err(GattError::ChannelClosed),
    }
}

/// What the transport is told after a look at a pending answer: nothing yet
/// while the application has not answered, the bytes of a success, the
/// application's code for a failure, and `ChannelClosed` when the responder
/// was dropped.
pub open spec fn spec_reply_of(taken: Taken) -> Option<Result<Seq<u8>, GattError>> {
    match taken {
        Taken::Waiting => None,
        Taken::Ready(Response::Success(bytes)) => Some(Ok(bytes@)),
        Taken::Ready(Response::Failure(code)) => Some(Err(GattError::Application(code))),
        Taken::Abandoned => Some(Err(GattError::ChannelClosed)),
    }
}

/// The answer to a request as the transport hands it on.
pub open spec fn reply_view(reply: Option<Result<Vec<u8>, GattError>>) -> Option<
    Result<Seq<u8>, GattError>,
> {
    match reply {
        None => None,
        Some(Ok(bytes)) => Some(Ok(bytes@)),
        Some(Err(error)) => Some(Err(error)),
    }
}

pub fn reply_of(taken: Taken) -> (reply: Option<Result<Vec<u8>, GattError>>)
    ensures
        reply_view(reply) == spec_reply_of(taken),
{
    match taken {
        Taken::Waiting => None,
        Taken::Ready(Response::Success(bytes)) => Some(Ok(bytes)),
        Taken::Ready(Response::Failure(code)) => Some(Err(GattError::Application(code))),
        Taken::Abandoned => Some(Err(GattError::ChannelClosed)),
    }
}

/// What a caller that can wait does after it offered a request.
#[derive(Debug)]
pub enum Submission {
    /// The channel was full: nothing was enqueued, and the same request is
    /// to be offered again once there is room.
    Retry,
    /// The request was taken; the answer will arrive on the handle.
    Taken(Pending),
    /// The request failed for good.
    Failed(GattError),
}

/// What a caller that can wait does after a request was offered with the
/// result given: it offers the request again where the channel was full,
/// which is how a full channel holds the caller back without losing or
/// reordering anything; any other error is final, and so is success.
pub fn submission_of(offered: Result<Pending, GattError>) -> (next: Submission)
    ensures
        next == match offered {
            Ok(pending) => Submission::Taken(pending),
            Err(GattError::ChannelFull) => Submission::Retry,
            Err(error) => Submission::Failed(error),
        },
{
    match offered {
        Ok(pending) => Submission::Taken(pending),
        Err(GattError::ChannelFull) => Submission::Retry,
        Err(error) => Submission::Failed(error),
    }
}

/// What the transport hands on once the wait for an answer has ended: the
/// bytes of a success, the application's code for a failure, and
/// `ChannelClosed` where the wait ended without an answer because the
/// responder was dropped.
pub open spec fn spec_awaited_reply(answer: Option<Response>) -> Result<Seq<u8>, GattError> {
    match answer {
        Some(Response::Success(bytes)) => Ok(bytes@),
        Some(Response::Failure(code)) => Err(GattError::Application(code)),
        None => Err(GattError::ChannelClosed),
    }
}

pub fn awaited_reply(answer: Option<Response>) -> (reply: Result<Vec<u8>, GattError>)
    ensures
        reply_view(Some(reply)) == Some(spec_awaited_reply(answer)),
{
    match answer {
        Some(Response::Success(bytes)) => Ok(bytes),
        Some(Response::Failure(code)) => Err(GattError::Application(code)),
        None => Err(GattError::ChannelClosed),
    }
}

/// The acknowledgement of a write: the reply without the bytes.
pub fn acknowledgement(reply: Result<Vec<u8>, GattError>) -> (acknowledged: Result<(), GattError>)
    ensures
        acknowledged == match reply {
            Ok(_) => Ok::<(), GattError>(()),
            Err(error) => Err::<(), GattError>(error),
        },
{
    match reply {
        Ok(_) => Ok(()),
        Err(error) => Err(error),
    }
}

/// What the application is told after it answered a request: success when
/// the answer was taken, and `ChannelClosed` when the answer came back
/// because the transport no longer waits for it.
pub open spec fn spec_answer_result(refused: Option<Response>) -> Result<(), GattError> {
    match refused {
        None => Ok(()),
        Some(_) => Err(GattError::ChannelClosed),
    }
}

#[verifier::when_used_as_spec(spec_answer_result)]
pub fn answer_result(refused: Option<Response>) -> (result: Result<(), GattError>)
    ensures
        result == spec_answer_result(refused),
{
    match refused {
        None => Ok(()),
        Some(_) => Err(GattError::ChannelClosed),
    }
}

impl Responder {
    /// Whether an answer given through this responder is one that arrives
    /// on `pending`: the two hold the halves of one channel.
    pub closed spec fn answers(self, pending: Pending) -> bool {
        halves_of_one_channel(self.sender, pending.receiver)
    }

    /// Answers the request, without waiting. Whether the answer is taken is
    /// for the other end to decide; the result is `answer_result` of what
    /// it decided.
    pub fn respond(self, response: Response) -> (result: Result<(), GattError>)
        ensures
            result == Ok::<(), GattError>(()) || result == Err::<(), GattError>(
                GattError::ChannelClosed,
            ),
    {
        answer_result(oneshot_send(self.sender, response))
    }
}

impl Pending {
    /// The receiving half that the handle holds.
    pub closed spec fn spec_receiver(self) -> oneshot::Receiver<Response> {
        self.receiver
    }

    /// Gives up the handle for the receiving half that it holds, for a
    /// caller that waits on it in its own way.
    pub fn into_receiver(self) -> (receiver: oneshot::Receiver<Response>)
        ensures
            receiver == self.spec_receiver(),
    {
        self.receiver
    }

    /// Looks for the answer without waiting. `None` means that the
    /// application has not answered yet. The answer is handed out once; a
    /// later look finds the channel closed.
    pub fn poll(&mut self) -> (reply: Option<Result<Vec<u8>, GattError>>)
        ensures
            reply matches Some(Err(error)) ==> (error == GattError::ChannelClosed
                || error is Application),
    {
        reply_of(oneshot_try_recv(&mut self.receiver))
    }
}

/// Enqueues `event` on the channel behind `sender`, without waiting.
/// Whether the channel takes the event is the channel's to decide; the
/// result is `delivery_result` of what it decided.
pub fn send_event(sender: &mut EventSender, event: Event) -> (result: Result<(), GattError>)
    ensures
        result == Ok::<(), GattError>(()) || result == Err::<(), GattError>(
            GattError::ChannelFull,
        ) || result == Err::<(), GattError>(GattError::ChannelClosed),
{
    delivery_result(try_send(sender, event))
}

/// A read request and the handle on which its answer will arrive: the
/// responder in the event answers to that handle.
pub fn read_request() -> (pair: (Event, Pending))
    ensures
        pair.0@ == EventView::ReadRequest,
        pair.0 matches Event::ReadRequest(responder) && responder.answers(pair.1),
{
    let (responder, pending) = response_channel();
    (Event::ReadRequest(responder), pending)
}

/// A write request for `payload` and the handle on which its
/// acknowledgement will arrive: the responder in the event answers to that
/// handle.
pub fn write_request(payload: Vec<u8>) -> (pair: (Event, Pending))
    ensures
        pair.0@ == EventView::WriteRequest(payload@),
        pair.0 matches Event::WriteRequest(_, responder) && responder.answers(pair.1),
{
    let (responder, pending) = response_channel();
    (Event::WriteRequest(payload, responder), pending)
}

/// The event that tells the application of a change in who listens.
pub fn notify_event(subscribe: bool) -> (event: Event)
    ensures
        event@ == if subscribe {
            EventView::NotifySubscribe
        } else {
            EventView::NotifyUnsubscribe
        },
{
    if subscribe {
        Event::NotifySubscribe
    } else {
        Event::NotifyUnsubscribe
    }
}

impl Properties<EventSender> {
    /// Whether a remote read can be served: the read flag is set and a
    /// channel is attached for it.
    pub open spec fn serves_read(self) -> bool {
        self.flags.spec_can_read() && self.read is Some
    }

    /// Whether a remote write can be served.
    pub open spec fn serves_write(self) -> bool {
        self.flags.spec_can_write() && self.write is Some
    }

    /// The same flags, and a channel wherever there was one. The channels
    /// themselves may have taken an event.
    pub open spec fn same_shape(self, other: Self) -> bool {
        &&& self.flags == other.flags
        &&& self.read is Some <==> other.read is Some
        &&& self.write is Some <==> other.write is Some
    }

    /// Hands a remote read to the application. Where reads are not served
    /// the answer is `UnsupportedOperation` and no channel is touched.
    /// Otherwise a read request is offered to the read channel, without
    /// waiting: the answer is the pending reply if the channel took it,
    /// `ChannelFull` if it had no room, `ChannelClosed` if the application
    /// dropped its end.
    pub fn read_value(&mut self) -> (result: Result<Pending, GattError>)
        ensures
            final(self).same_shape(*old(self)),
            final(self).write == old(self).write,
            !old(self).serves_read() ==> *final(self) == *old(self),
            !old(self).serves_read() ==> result matches Err(GattError::UnsupportedOperation),
            old(self).serves_read() ==> result is Ok || (result matches Err(
                GattError::ChannelFull,
            )) || (result matches Err(GattError::ChannelClosed)),
    {
        if !self.flags.can_read() {
            return Err(GattError::UnsupportedOperation);
        }
        match &mut self.read {
            None => Err(GattError::UnsupportedOperation),
            Some(sender) => {
                let (event, pending) = read_request();
                match send_event(sender, event) {
                    Ok(()) => Ok(pending),
                    Err(error) => Err(error),
                }
            },
        }
    }

    /// Hands a remote write of `payload` to the application. Where writes
    /// are not served the answer is `UnsupportedOperation` and no channel is
    /// touched. Otherwise a write request with the payload is offered to the
    /// write channel, without waiting, with the same three answers as for a
    /// read.
    pub fn write_value(&mut self, payload: Vec<u8>) -> (result: Result<Pending, GattError>)
        ensures
            final(self).same_shape(*old(self)),
            final(self).read == old(self).read,
            !old(self).serves_write() ==> *final(self) == *old(self),
            !old(self).serves_write() ==> result matches Err(GattError::UnsupportedOperation),
            old(self).serves_write() ==> result is Ok || (result matches Err(
                GattError::ChannelFull,
            )) || (result matches Err(GattError::ChannelClosed)),
    {
        if !self.flags.can_write() {
            return Err(GattError::UnsupportedOperation);
        }
        match &mut self.write {
            None => Err(GattError::UnsupportedOperation),
            Some(sender) => {
                let (event, pending) = write_request(payload);
                match send_event(sender, event) {
                    Ok(()) => Ok(pending),
                    Err(error) => Err(error),
                }
            },
        }
    }

    /// Tells the application that a client started or stopped listening.
    /// Without the notify or the indicate flag the answer is
    /// `UnsupportedOperation` and no channel is touched. Otherwise the event
    /// goes to the read channel, or to the write channel where there is no
    /// read channel, without waiting and with nothing owed in return; with
    /// no channel at all there is nobody to tell, which is a success.
    pub fn notify(&mut self, subscribe: bool) -> (result: Result<(), GattError>)
        ensures
            final(self).same_shape(*old(self)),
            old(self).read is Some ==> final(self).write == old(self).write,
            old(self).read is None ==> final(self).read == old(self).read,
            !old(self).flags.spec_can_notify() ==> *final(self) == *old(self),
            !old(self).flags.spec_can_notify() ==> result == Err::<(), GattError>(
                GattError::UnsupportedOperation,
            ),
            old(self).flags.spec_can_notify() ==> result == Ok::<(), GattError>(()) || result
                == Err::<(), GattError>(GattError::ChannelFull) || result == Err::<
                (),
                GattError,
            >(GattError::ChannelClosed),
            old(self).flags.spec_can_notify() && old(self).read is None && old(self).write
                is None ==> result == Ok::<(), GattError>(()) && *final(self) == *old(self),
    {
        if !self.flags.can_notify() {
            return Err(GattError::UnsupportedOperation);
        }
        let event = notify_event(subscribe);
        match &mut self.read {
            Some(sender) => send_event(sender, event),
            None => match &mut self.write {
                Some(sender) => send_event(sender, event),
                None => Ok(()),
            },
        }
    }
}

} // verus!
