//! A finished descriptor.

use crate::error::GattError;
use crate::gatt::attribute::Attribute;
use crate::gatt::event::{EventSender, Pending};
use crate::gatt::gatt_properties::{Capability, Properties, PropertyFlags};
use crate::uuid::Uuid;
use vstd::prelude::*;
use vstd::std_specs::cmp::PartialEqSpecImpl;

verus! {

/// A descriptor of a characteristic: an identifier, the flags `read` and
/// `write` as far as they are served, and the channel of each.
#[derive(Debug)]
pub struct Descriptor {
    uuid: Uuid,
    properties: Properties<EventSender>,
}

/// The capabilities that a descriptor built from `properties` serves: read
/// if the read flag is set and a read channel is attached, write if the
/// write flag is set and a write channel is attached, and no other.
pub open spec fn descriptor_flags(properties: Properties<EventSender>) -> Set<Capability> {
    Set::new(
        |c: Capability|
            (c == Capability::Read && properties.flags@.contains(Capability::Read)
                && properties.read is Some) || (c == Capability::Write
                && properties.flags@.contains(Capability::Write) && properties.write is Some),
    )
}

impl Descriptor {
    pub closed spec fn spec_uuid(self) -> Uuid {
        self.uuid
    }

    pub closed spec fn spec_properties(self) -> Properties<EventSender> {
        self.properties
    }

    /// The capabilities that the descriptor serves.
    pub open spec fn spec_flags(self) -> PropertyFlags {
        self.spec_properties().flags
    }

    /// Flags and channels agree, and only read and write are named.
    pub open spec fn wf(self) -> bool {
        &&& self.spec_properties().consistent()
        &&& self.spec_flags()@.subset_of(set![Capability::Read, Capability::Write])
    }

    #[verifier::type_invariant]
    spec fn valid(self) -> bool {
        self.wf()
    }

    /// Whether this is the descriptor `uuid` with what `properties` can
    /// serve of a descriptor's capabilities: the flags of
    /// `descriptor_flags`, and of the two channels those whose flag stays.
    pub open spec fn is_built_from(self, uuid: Uuid, properties: Properties<EventSender>) -> bool {
        &&& self.wf()
        &&& self.spec_uuid() == uuid
        &&& self.spec_flags()@ == descriptor_flags(properties)
        &&& self.spec_properties().read == if descriptor_flags(properties).contains(
            Capability::Read,
        ) {
            properties.read
        } else {
            None
        }
        &&& self.spec_properties().write == if descriptor_flags(properties).contains(
            Capability::Write,
        ) {
            properties.write
        } else {
            None
        }
    }

    /// The descriptor `uuid` with what `properties` can serve of a
    /// descriptor's capabilities. Flags other than read and write are
    /// dropped; then flags and channels are settled against each other.
    pub fn new(uuid: Uuid, properties: Properties<EventSender>) -> (descriptor: Self)
        ensures
            descriptor.is_built_from(uuid, properties),
    {
        let restricted = Properties {
            flags: properties.flags.descriptor_subset(),
            read: properties.read,
            write: properties.write,
        };
        let settled = restricted.settle();
        proof {
            assert(settled.flags@ =~= descriptor_flags(properties));
        }
        Descriptor { uuid, properties: settled }
    }

    pub fn flags(&self) -> (flags: PropertyFlags)
        ensures
            flags == self.spec_flags(),
    {
        self.properties.flags
    }

    /// Hands a remote read of the descriptor to the application; see
    /// `Properties::read_value`. The descriptor stays as it was built.
    pub fn read_value(&mut self) -> (result: Result<Pending, GattError>)
        ensures
            final(self).wf(),
            final(self).spec_uuid() == old(self).spec_uuid(),
            final(self).spec_flags() == old(self).spec_flags(),
            !old(self).spec_flags().spec_can_read() ==> *final(self) == *old(self),
            !old(self).spec_flags().spec_can_read() ==> result matches Err(
                GattError::UnsupportedOperation,
            ),
            old(self).spec_flags().spec_can_read() ==> result is Ok || (result matches Err(
                GattError::ChannelFull,
            )) || (result matches Err(GattError::ChannelClosed)),
    {
        proof {
            use_type_invariant(&*self);
        }
        let mut properties = Properties::empty();
        std::mem::swap(&mut self.properties, &mut properties);
        let result = properties.read_value();
        std::mem::swap(&mut self.properties, &mut properties);
        result
    }

    /// Hands a remote write of the descriptor to the application; see
    /// `Properties::write_value`.
    pub fn write_value(&mut self, payload: Vec<u8>) -> (result: Result<Pending, GattError>)
        ensures
            final(self).wf(),
            final(self).spec_uuid() == old(self).spec_uuid(),
            final(self).spec_flags() == old(self).spec_flags(),
            !old(self).spec_flags().spec_can_write() ==> *final(self) == *old(self),
            !old(self).spec_flags().spec_can_write() ==> result matches Err(
                GattError::UnsupportedOperation,
            ),
            old(self).spec_flags().spec_can_write() ==> result is Ok || (result matches Err(
                GattError::ChannelFull,
            )) || (result matches Err(GattError::ChannelClosed)),
    {
        proof {
            use_type_invariant(&*self);
        }
        let mut properties = Properties::empty();
        std::mem::swap(&mut self.properties, &mut properties);
        let result = properties.write_value(payload);
        std::mem::swap(&mut self.properties, &mut properties);
        result
    }
}

impl Attribute for Descriptor {
    open spec fn identity(&self) -> u128 {
        self.spec_uuid()@
    }

    fn uuid(&self) -> (uuid: Uuid)
        ensures
            uuid == self.spec_uuid(),
    {
        self.uuid
    }
}

impl PartialEqSpecImpl for Descriptor {
    open spec fn obeys_eq_spec() -> bool {
        true
    }

    /// Two descriptors are the same attribute when their identifiers are
    /// equal, whatever else they hold.
    open spec fn eq_spec(&self, other: &Descriptor) -> bool {
        self.spec_uuid() == other.spec_uuid()
    }
}

impl PartialEq for Descriptor {
    fn eq(&self, other: &Descriptor) -> (same: bool) {
        self.uuid == other.uuid
    }
}

impl Eq for Descriptor {

}

} // verus!
