//! A finished characteristic.

use crate::error::GattError;
use crate::gatt::attribute::{all_distinct, distinct, identities, position, Attribute};
use crate::gatt::descriptor::Descriptor;
use crate::gatt::event::{EventSender, Pending, Reply, Request};
use crate::gatt::gatt_properties::{Properties, PropertyFlags};
use crate::uuid::Uuid;
use vstd::prelude::*;
use vstd::std_specs::cmp::PartialEqSpecImpl;

verus! {

/// A characteristic of a service: an identifier, the capabilities that it
/// serves with the channel of each, its descriptors in the order in which
/// they were added, and the number of clients that listen to it.
#[derive(Debug)]
pub struct Characteristic {
    uuid: Uuid,
    properties: Properties<EventSender>,
    descriptors: Vec<Descriptor>,
    subscribers: usize,
}

/// The count of listeners after one more has come, held at the largest
/// number that can be counted.
pub open spec fn one_more(count: usize) -> usize {
    if count < usize::MAX {
        (count + 1) as usize
    } else {
        count
    }
}

/// The count of listeners after one has gone, held at zero.
pub open spec fn one_less(count: usize) -> usize {
    if count > 0 {
        (count - 1) as usize
    } else {
        count
    }
}

impl Characteristic {
    pub closed spec fn spec_uuid(self) -> Uuid {
        self.uuid
    }

    pub closed spec fn spec_properties(self) -> Properties<EventSender> {
        self.properties
    }

    pub closed spec fn spec_descriptors(self) -> Seq<Descriptor> {
        self.descriptors@
    }

    pub closed spec fn spec_subscribers(self) -> usize {
        self.subscribers
    }

    /// The capabilities that the characteristic serves.
    pub open spec fn spec_flags(self) -> PropertyFlags {
        self.spec_properties().flags
    }

    /// Flags and channels agree, and no two descriptors share an identifier.
    pub open spec fn wf(self) -> bool {
        &&& self.spec_properties().consistent()
        &&& distinct(self.spec_descriptors())
    }

    /// A characteristic holds no more descriptors than can be counted.
    pub proof fn lemma_bounded(self)
        ensures
            self.spec_descriptors().len() <= usize::MAX,
    {
        assert(self.descriptors.len() == self.descriptors@.len());
    }

    /// What the operations on a characteristic never change: its identifier,
    /// its flags, and its descriptors' identifiers and flags.
    pub open spec fn same_shape(self, other: Self) -> bool {
        &&& self.spec_uuid() == other.spec_uuid()
        &&& self.spec_flags() == other.spec_flags()
        &&& self.spec_descriptors().len() == other.spec_descriptors().len()
        &&& forall|k: int|
            0 <= k < self.spec_descriptors().len() ==> (
            #[trigger] self.spec_descriptors()[k]).spec_uuid()
                == other.spec_descriptors()[k].spec_uuid()
                && self.spec_descriptors()[k].spec_flags()
                == other.spec_descriptors()[k].spec_flags()
    }

    #[verifier::type_invariant]
    spec fn valid(self) -> bool {
        self.wf()
    }

    /// The characteristic `uuid` with what `properties` can serve and with
    /// `descriptors`, which the caller has kept distinct. Nobody listens yet.
    pub(crate) fn assemble(
        uuid: Uuid,
        properties: Properties<EventSender>,
        descriptors: Vec<Descriptor>,
    ) -> (characteristic: Self)
        requires
            distinct(descriptors@),
        ensures
            characteristic.wf(),
            characteristic.spec_uuid() == uuid,
            characteristic.spec_properties().is_settled_from(properties),
            characteristic.spec_descriptors() == descriptors@,
            characteristic.spec_subscribers() == 0,
    {
        let settled = properties.settle();
        Characteristic { uuid, properties: settled, descriptors, subscribers: 0 }
    }

    /// The characteristic `uuid` with what `properties` can serve and with
    /// `descriptors`. Flags and channels are settled against each other as
    /// `Properties::settle` says. Two descriptors with one identifier are
    /// refused with `DuplicateAttribute`.
    pub fn new(
        uuid: Uuid,
        properties: Properties<EventSender>,
        descriptors: Vec<Descriptor>,
    ) -> (result: Result<Self, GattError>)
        ensures
            result is Ok <==> distinct(descriptors@),
            result matches Err(error) ==> error == GattError::DuplicateAttribute,
            result matches Ok(characteristic) ==> characteristic.wf() && characteristic.spec_uuid()
                == uuid && characteristic.spec_properties().is_settled_from(properties)
                && characteristic.spec_descriptors() == descriptors@
                && characteristic.spec_subscribers() == 0,
    {
        if !all_distinct(&descriptors) {
            return Err(GattError::DuplicateAttribute);
        }
        Ok(Characteristic::assemble(uuid, properties, descriptors))
    }

    pub fn flags(&self) -> (flags: PropertyFlags)
        ensures
            flags == self.spec_flags(),
    {
        self.properties.flags
    }

    /// The descriptors, in the order in which they were added.
    pub fn descriptors(&self) -> (descriptors: &Vec<Descriptor>)
        ensures
            descriptors@ == self.spec_descriptors(),
    {
        &self.descriptors
    }

    /// How many clients listen to the characteristic.
    pub fn subscribers(&self) -> (count: usize)
        ensures
            count == self.spec_subscribers(),
    {
        self.subscribers
    }

    /// Where the descriptor `uuid` stands among the descriptors.
    pub fn find_descriptor(&self, uuid: Uuid) -> (found: Option<usize>)
        ensures
            found is Some <==> identities(self.spec_descriptors()).contains(uuid@),
            found matches Some(k) ==> k < self.spec_descriptors().len()
                && self.spec_descriptors()[k as int].spec_uuid() == uuid,
    {
        let found = position(&self.descriptors, uuid);
        proof {
            if let Some(k) = found {
                Uuid::lemma_view_injective(self.descriptors@[k as int].spec_uuid(), uuid);
            }
        }
        found
    }

    /// Hands a remote read to the application. Without the read flag the
    /// answer is `UnsupportedOperation` and nothing reaches the application.
    /// Otherwise a read request is offered to the read channel, without
    /// waiting: the pending reply if the channel took it, `ChannelFull` if
    /// it had no room, `ChannelClosed` if the application dropped its end.
    pub fn read_value(&mut self) -> (result: Result<Pending, GattError>)
        ensures
            final(self).wf(),
            final(self).same_shape(*old(self)),
            final(self).spec_descriptors() == old(self).spec_descriptors(),
            final(self).spec_subscribers() == old(self).spec_subscribers(),
            !old(self).spec_flags().spec_can_read() ==> *final(self) == *old(self),
            !old(self).spec_flags().spec_can_read() ==> result matches Err(
                GattError::UnsupportedOperation,
            ),
            old(self).spec_flags().spec_can_read() ==> result is Ok || (result matches Err(
                GattError::ChannelFull,
            )) || (result matches Err(GattError::ChannelClosed)),
    {
        proof {
            use_type_invariant(&*self);
        }
        let mut properties = Properties::empty();
        std::mem::swap(&mut self.properties, &mut properties);
        let result = properties.read_value();
        std::mem::swap(&mut self.properties, &mut properties);
        result
    }

    /// Hands a remote write of `payload` to the application. Without the write
    /// flag the answer is `UnsupportedOperation` and nothing reaches the
    /// application. Otherwise a write request is offered to the write
    /// channel, with the same three answers as for a read.
    pub fn write_value(&mut self, payload: Vec<u8>) -> (result: Result<Pending, GattError>)
        ensures
            final(self).wf(),
            final(self).same_shape(*old(self)),
            final(self).spec_descriptors() == old(self).spec_descriptors(),
            final(self).spec_subscribers() == old(self).spec_subscribers(),
            !old(self).spec_flags().spec_can_write() ==> *final(self) == *old(self),
            !old(self).spec_flags().spec_can_write() ==> result matches Err(
                GattError::UnsupportedOperation,
            ),
            old(self).spec_flags().spec_can_write() ==> result is Ok || (result matches Err(
                GattError::ChannelFull,
            )) || (result matches Err(GattError::ChannelClosed)),
    {
        proof {
            use_type_invariant(&*self);
        }
        let mut properties = Properties::empty();
        std::mem::swap(&mut self.properties, &mut properties);
        let result = properties.write_value(payload);
        std::mem::swap(&mut self.properties, &mut properties);
        result
    }

    /// Counts a client that starts to listen, and tells the application.
    /// Without the notify or the indicate flag the answer is
    /// `UnsupportedOperation`. The count moves only when the application
    /// could be told (or has no channel to be told on); the answer is then
    /// the new count.
    pub fn subscribe(&mut self) -> (result: Result<usize, GattError>)
        ensures
            final(self).wf(),
            final(self).same_shape(*old(self)),
            final(self).spec_descriptors() == old(self).spec_descriptors(),
            !old(self).spec_flags().spec_can_notify() ==> *final(self) == *old(self) && result
                == Err::<usize, GattError>(GattError::UnsupportedOperation),
            result matches Ok(count) ==> count == one_more(old(self).spec_subscribers())
                && final(self).spec_subscribers() == count,
            old(self).spec_flags().spec_can_notify() && !old(self).has_channel() ==> result
                == Ok::<usize, GattError>(one_more(old(self).spec_subscribers())),
            result matches Err(error) ==> final(self).spec_subscribers()
                == old(self).spec_subscribers(),
            old(self).spec_flags().spec_can_notify() ==> result is Ok || result == Err::<
                usize,
                GattError,
            >(GattError::ChannelFull) || result == Err::<usize, GattError>(
                GattError::ChannelClosed,
            ),
    {
        proof {
            use_type_invariant(&*self);
        }
        let mut properties = Properties::empty();
        std::mem::swap(&mut self.properties, &mut properties);
        let told = properties.notify(true);
        std::mem::swap(&mut self.properties, &mut properties);
        match told {
            Err(error) => Err(error),
            Ok(()) => {
                if self.subscribers < usize::MAX {
                    self.subscribers = self.subscribers + 1;
                }
                Ok(self.subscribers)
            },
        }
    }

    /// Counts a client that stops listening, and tells the application; the
    /// mirror image of `subscribe`. The count does not go below zero.
    pub fn unsubscribe(&mut self) -> (result: Result<usize, GattError>)
        ensures
            final(self).wf(),
            final(self).same_shape(*old(self)),
            final(self).spec_descriptors() == old(self).spec_descriptors(),
            !old(self).spec_flags().spec_can_notify() ==> *final(self) == *old(self) && result
                == Err::<usize, GattError>(GattError::UnsupportedOperation),
            result matches Ok(count) ==> count == one_less(old(self).spec_subscribers())
                && final(self).spec_subscribers() == count,
            old(self).spec_flags().spec_can_notify() && !old(self).has_channel() ==> result
                == Ok::<usize, GattError>(one_less(old(self).spec_subscribers())),
            result matches Err(error) ==> final(self).spec_subscribers()
                == old(self).spec_subscribers(),
            old(self).spec_flags().spec_can_notify() ==> result is Ok || result == Err::<
                usize,
                GattError,
            >(GattError::ChannelFull) || result == Err::<usize, GattError>(
                GattError::ChannelClosed,
            ),
    {
        proof {
            use_type_invariant(&*self);
        }
        let mut properties = Properties::empty();
        std::mem::swap(&mut self.properties, &mut properties);
        let told = properties.notify(false);
        std::mem::swap(&mut self.properties, &mut properties);
        match told {
            Err(error) => Err(error),
            Ok(()) => {
                if self.subscribers > 0 {
                    self.subscribers = self.subscribers - 1;
                }
                Ok(self.subscribers)
            },
        }
    }

    /// Hands a remote read of the descriptor at `index` to the application,
    /// as `Descriptor::read_value` does. An index past the last descriptor
    /// names nothing that could be read: `UnsupportedOperation`.
    pub fn read_descriptor(&mut self, index: usize) -> (result: Result<Pending, GattError>)
        ensures
            final(self).wf(),
            final(self).same_shape(*old(self)),
            final(self).spec_properties() == old(self).spec_properties(),
            final(self).spec_subscribers() == old(self).spec_subscribers(),
            forall|k: int|
                0 <= k < old(self).spec_descriptors().len() && k != index
                    ==> final(self).spec_descriptors()[k] == old(self).spec_descriptors()[k],
            !old(self).serves_descriptor_read(index) ==> final(self).spec_descriptors()
                == old(self).spec_descriptors(),
            !old(self).serves_descriptor_read(index) ==> result matches Err(
                GattError::UnsupportedOperation,
            ),
            old(self).serves_descriptor_read(index) ==> result is Ok || (result matches Err(
                GattError::ChannelFull,
            )) || (result matches Err(GattError::ChannelClosed)),
    {
        proof {
            use_type_invariant(&*self);
        }
        if index >= self.descriptors.len() {
            return Err(GattError::UnsupportedOperation);
        }
        let ghost before = self.descriptors@;
        let mut descriptors = Vec::new();
        std::mem::swap(&mut self.descriptors, &mut descriptors);
        assert(identities(self.descriptors@) =~= Seq::<u128>::empty());
        let result = descriptors[index].read_value();
        proof {
            assert(identities(descriptors@) =~= identities(before));
            if !before[index as int].spec_flags().spec_can_read() {
                assert(descriptors@ =~= before);
            }
        }
        std::mem::swap(&mut self.descriptors, &mut descriptors);
        result
    }

    /// Hands a remote write of the descriptor at `index` to the application,
    /// as `Descriptor::write_value` does. An index past the last descriptor
    /// names nothing that could be written: `UnsupportedOperation`.
    pub fn write_descriptor(&mut self, index: usize, payload: Vec<u8>) -> (result: Result<
        Pending,
        GattError,
    >)
        ensures
            final(self).wf(),
            final(self).same_shape(*old(self)),
            final(self).spec_properties() == old(self).spec_properties(),
            final(self).spec_subscribers() == old(self).spec_subscribers(),
            forall|k: int|
                0 <= k < old(self).spec_descriptors().len() && k != index
                    ==> final(self).spec_descriptors()[k] == old(self).spec_descriptors()[k],
            !old(self).serves_descriptor_write(index) ==> final(self).spec_descriptors()
                == old(self).spec_descriptors(),
            !old(self).serves_descriptor_write(index) ==> result matches Err(
                GattError::UnsupportedOperation,
            ),
            old(self).serves_descriptor_write(index) ==> result is Ok || (result matches Err(
                GattError::ChannelFull,
            )) || (result matches Err(GattError::ChannelClosed)),
    {
        proof {
            use_type_invariant(&*self);
        }
        if index >= self.descriptors.len() {
            return Err(GattError::UnsupportedOperation);
        }
        let ghost before = self.descriptors@;
        let mut descriptors = Vec::new();
        std::mem::swap(&mut self.descriptors, &mut descriptors);
        assert(identities(self.descriptors@) =~= Seq::<u128>::empty());
        let result = descriptors[index].write_value(payload);
        proof {
            assert(identities(descriptors@) =~= identities(before));
            if !before[index as int].spec_flags().spec_can_write() {
                assert(descriptors@ =~= before);
            }
        }
        std::mem::swap(&mut self.descriptors, &mut descriptors);
        result
    }

    /// Whether the application can be told of anything on this
    /// characteristic: a read or a write channel is attached.
    pub open spec fn has_channel(self) -> bool {
        self.spec_properties().read is Some || self.spec_properties().write is Some
    }

    /// The reply that is owed whatever any channel does. That is the case
    /// for a subscription on a characteristic with the notify or the
    /// indicate flag and without a channel: there is nobody to tell, so the
    /// listener is counted at once.
    pub open spec fn owes(self, descriptor: Option<usize>, request: Request) -> Option<Reply> {
        if descriptor is None && self.spec_flags().spec_can_notify() && !self.has_channel() {
            match request {
                Request::Subscribe => Some(Reply::Subscribers(one_more(self.spec_subscribers()))),
                Request::Unsubscribe => Some(
                    Reply::Subscribers(one_less(self.spec_subscribers())),
                ),
                _ => None,
            }
        } else {
            None
        }
    }

    /// Whether the attribute that is meant serves the request: the
    /// characteristic itself where `descriptor` is `None`, else its
    /// descriptor at that index. A read needs the read flag, a write the
    /// write flag, and a subscription, which only a characteristic takes,
    /// the notify or the indicate flag.
    pub open spec fn supports(self, descriptor: Option<usize>, request: Request) -> bool {
        match descriptor {
            None => match request {
                Request::Read => self.spec_flags().spec_can_read(),
                Request::Write(_) => self.spec_flags().spec_can_write(),
                Request::Subscribe => self.spec_flags().spec_can_notify(),
                Request::Unsubscribe => self.spec_flags().spec_can_notify(),
            },
            Some(index) => match request {
                Request::Read => self.serves_descriptor_read(index),
                Request::Write(_) => self.serves_descriptor_write(index),
                Request::Subscribe => false,
                Request::Unsubscribe => false,
            },
        }
    }

    /// Whether `reply` is of the kind that answers `request`, given that
    /// `count` clients listened before: a pending answer for a read or a
    /// write, the new number of listeners for a subscription.
    pub open spec fn answers(request: Request, count: usize, reply: Reply) -> bool {
        match request {
            Request::Read => reply is Pending,
            Request::Write(_) => reply is Pending,
            Request::Subscribe => reply == Reply::Subscribers(one_more(count)),
            Request::Unsubscribe => reply == Reply::Subscribers(one_less(count)),
        }
    }

    /// Takes one request for the characteristic, or for its descriptor at
    /// the index given. A request that the attribute does not support, or
    /// that names a descriptor that is not there, is answered with
    /// `UnsupportedOperation` before any channel is touched. A supported
    /// request is offered to the application without waiting: it is taken,
    /// or the answer is `ChannelFull` or `ChannelClosed`. The number of
    /// listeners moves only with a subscription that was taken.
    pub fn handle(&mut self, descriptor: Option<usize>, request: Request) -> (result: Result<
        Reply,
        GattError,
    >)
        ensures
            final(self).wf(),
            final(self).same_shape(*old(self)),
            !old(self).supports(descriptor, request) ==> result == Err::<Reply, GattError>(
                GattError::UnsupportedOperation,
            ) && final(self).spec_properties() == old(self).spec_properties()
                && final(self).spec_descriptors() == old(self).spec_descriptors(),
            old(self).supports(descriptor, request) ==> result is Ok || result == Err::<
                Reply,
                GattError,
            >(GattError::ChannelFull) || result == Err::<Reply, GattError>(
                GattError::ChannelClosed,
            ),
            result matches Ok(reply) ==> Self::answers(
                request,
                old(self).spec_subscribers(),
                reply,
            ),
            old(self).owes(descriptor, request) matches Some(reply) ==> result == Ok::<
                Reply,
                GattError,
            >(reply),
            final(self).spec_subscribers() == match result {
                Ok(Reply::Subscribers(count)) => count,
                _ => old(self).spec_subscribers(),
            },
    {
        proof {
            use_type_invariant(&*self);
        }
        match descriptor {
            None => match request {
                Request::Read => match self.read_value() {
                    Ok(pending) => Ok(Reply::Pending(pending)),
                    Err(error) => Err(error),
                },
                Request::Write(payload) => match self.write_value(payload) {
                    Ok(pending) => Ok(Reply::Pending(pending)),
                    Err(error) => Err(error),
                },
                Request::Subscribe => match self.subscribe() {
                    Ok(count) => Ok(Reply::Subscribers(count)),
                    Err(error) => Err(error),
                },
                Request::Unsubscribe => match self.unsubscribe() {
                    Ok(count) => Ok(Reply::Subscribers(count)),
                    Err(error) => Err(error),
                },
            },
            Some(index) => match request {
                Request::Read => match self.read_descriptor(index) {
                    Ok(pending) => Ok(Reply::Pending(pending)),
                    Err(error) => Err(error),
                },
                Request::Write(payload) => match self.write_descriptor(index, payload) {
                    Ok(pending) => Ok(Reply::Pending(pending)),
                    Err(error) => Err(error),
                },
                Request::Subscribe => Err(GattError::UnsupportedOperation),
                Request::Unsubscribe => Err(GattError::UnsupportedOperation),
            },
        }
    }

    /// Whether the characteristic has a descriptor at `index` that serves
    /// reads.
    pub open spec fn serves_descriptor_read(self, index: usize) -> bool {
        index < self.spec_descriptors().len()
            && self.spec_descriptors()[index as int].spec_flags().spec_can_read()
    }

    /// Whether the characteristic has a descriptor at `index` that serves
    /// writes.
    pub open spec fn serves_descriptor_write(self, index: usize) -> bool {
        index < self.spec_descriptors().len()
            && self.spec_descriptors()[index as int].spec_flags().spec_can_write()
    }
}

impl Attribute for Characteristic {
    open spec fn identity(&self) -> u128 {
        self.spec_uuid()@
    }

    fn uuid(&self) -> (uuid: Uuid)
        ensures
            uuid == self.spec_uuid(),
    {
        self.uuid
    }
}

impl PartialEqSpecImpl for Characteristic {
    open spec fn obeys_eq_spec() -> bool {
        true
    }

    /// Two characteristics are the same attribute when their identifiers
    /// are equal, whatever else they hold.
    open spec fn eq_spec(&self, other: &Characteristic) -> bool {
        self.spec_uuid() == other.spec_uuid()
    }
}

impl PartialEq for Characteristic {
    fn eq(&self, other: &Characteristic) -> (same: bool) {
        self.uuid == other.uuid
    }
}

impl Eq for Characteristic {

}

} // verus!
