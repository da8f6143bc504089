//! Services, and the builders that assemble a service from characteristics
//! and a characteristic from descriptors.

use super::characteristic::Characteristic as OCharacteristic;
use crate::common::{ChainedBuilder, ConsumeBuilder};
use crate::error::GattError;
use crate::gatt::attribute::{
    all_distinct, distinct, identities, insert_unique, inserted, lemma_inserted, position,
    Attribute,
};
use crate::gatt::descriptor::Descriptor;
use crate::gatt::event::{Event, EventSender, Reply, Request};
use crate::gatt::gatt_properties::{Capability, Properties, PropertyFlags};
use crate::uuid::Uuid;
use futures::channel::mpsc;
use vstd::prelude::*;
use vstd::std_specs::cmp::PartialEqSpecImpl;

verus! {

/// The parts of a service, as they come: an identifier, whether the service
/// is primary, and characteristics of which nothing is known yet.
#[derive(Debug)]
pub struct _Service {
    pub(crate) uuid: Uuid,
    pub(crate) primary: bool,
    pub(crate) characteristics: Vec<OCharacteristic>,
}

impl _Service {
    pub closed spec fn spec_uuid(self) -> Uuid {
        self.uuid
    }

    pub closed spec fn spec_primary(self) -> bool {
        self.primary
    }

    pub closed spec fn spec_characteristics(self) -> Seq<OCharacteristic> {
        self.characteristics@
    }

    pub fn new(uuid: Uuid, primary: bool, characteristics: Vec<OCharacteristic>) -> (parts: Self)
        ensures
            parts.spec_uuid() == uuid,
            parts.spec_primary() == primary,
            parts.spec_characteristics() == characteristics@,
    {
        _Service { uuid, primary, characteristics }
    }

    /// Makes a service of the parts. Two characteristics with one
    /// identifier are refused with `DuplicateAttribute`.
    pub fn validate(self) -> (result: Result<Service, GattError>)
        ensures
            result is Ok <==> distinct(self.spec_characteristics()),
            result matches Err(error) ==> error == GattError::DuplicateAttribute,
            result matches Ok(service) ==> service.wf() && service.spec_uuid() == self.spec_uuid()
                && service.spec_primary() == self.spec_primary()
                && service.spec_characteristics() == self.spec_characteristics(),
    {
        if !all_distinct(&self.characteristics) {
            return Err(GattError::DuplicateAttribute);
        }
        Ok(
            Service {
                uuid: self.uuid,
                primary: self.primary,
                characteristics: self.characteristics,
            },
        )
    }
}

/// A finished service: an identifier, whether the service is primary, and
/// its characteristics in the order in which they were added, no two with
/// one identifier.
#[derive(Debug)]
pub struct Service {
    pub(crate) uuid: Uuid,
    pub(crate) primary: bool,
    characteristics: Vec<OCharacteristic>,
}

impl Service {
    pub closed spec fn spec_uuid(self) -> Uuid {
        self.uuid
    }

    pub closed spec fn spec_primary(self) -> bool {
        self.primary
    }

    pub closed spec fn spec_characteristics(self) -> Seq<OCharacteristic> {
        self.characteristics@
    }

    /// No two characteristics share an identifier.
    pub open spec fn wf(self) -> bool {
        distinct(self.spec_characteristics())
    }

    /// A service holds no more characteristics than can be counted.
    pub proof fn lemma_bounded(self)
        ensures
            self.spec_characteristics().len() <= usize::MAX,
    {
        assert(self.characteristics.len() == self.characteristics@.len());
    }

    #[verifier::type_invariant]
    spec fn valid(self) -> bool {
        self.wf()
    }

    /// What the operations on a service never change: its identifier,
    /// whether it is primary, and the shape of each characteristic.
    pub open spec fn same_shape(self, other: Self) -> bool {
        &&& self.spec_uuid() == other.spec_uuid()
        &&& self.spec_primary() == other.spec_primary()
        &&& self.spec_characteristics().len() == other.spec_characteristics().len()
        &&& forall|m: int|
            0 <= m < self.spec_characteristics().len() ==> (
            #[trigger] self.spec_characteristics()[m]).same_shape(other.spec_characteristics()[m])
    }

    pub fn primary(&self) -> (primary: bool)
        ensures
            primary == self.spec_primary(),
    {
        self.primary
    }

    /// The characteristics, in the order in which they were added.
    pub fn characteristics(&self) -> (characteristics: &Vec<OCharacteristic>)
        ensures
            characteristics@ == self.spec_characteristics(),
            distinct(characteristics@),
    {
        proof {
            use_type_invariant(self);
        }
        &self.characteristics
    }

    /// Where the characteristic `uuid` stands among the characteristics.
    pub fn find_characteristic(&self, uuid: Uuid) -> (found: Option<usize>)
        ensures
            found is Some <==> identities(self.spec_characteristics()).contains(uuid@),
            found matches Some(m) ==> m < self.spec_characteristics().len()
                && self.spec_characteristics()[m as int].spec_uuid() == uuid,
    {
        let found = position(&self.characteristics, uuid);
        proof {
            if let Some(m) = found {
                Uuid::lemma_view_injective(self.characteristics@[m as int].spec_uuid(), uuid);
            }
        }
        found
    }

    /// Whether the service has a characteristic at `characteristic` that
    /// supports the request, itself or with its descriptor at `descriptor`.
    pub open spec fn supports(
        self,
        characteristic: usize,
        descriptor: Option<usize>,
        request: Request,
    ) -> bool {
        characteristic < self.spec_characteristics().len()
            && self.spec_characteristics()[characteristic as int].supports(descriptor, request)
    }

    /// The reply that is owed whatever any channel does; see
    /// `Characteristic::owes`.
    pub open spec fn owes(
        self,
        characteristic: usize,
        descriptor: Option<usize>,
        request: Request,
    ) -> Option<Reply> {
        if characteristic < self.spec_characteristics().len() {
            self.spec_characteristics()[characteristic as int].owes(descriptor, request)
        } else {
            None
        }
    }

    /// Takes one request for the characteristic at the index given, or for
    /// one of its descriptors, as `Characteristic::handle` does. An index
    /// past the last characteristic names nothing: `UnsupportedOperation`.
    /// No other characteristic is touched.
    pub fn handle(
        &mut self,
        characteristic: usize,
        descriptor: Option<usize>,
        request: Request,
    ) -> (result: Result<Reply, GattError>)
        ensures
            final(self).wf(),
            final(self).same_shape(*old(self)),
            forall|m: int|
                0 <= m < old(self).spec_characteristics().len() && m != characteristic
                    ==> final(self).spec_characteristics()[m]
                    == old(self).spec_characteristics()[m],
            !old(self).supports(characteristic, descriptor, request) ==> result == Err::<
                Reply,
                GattError,
            >(GattError::UnsupportedOperation),
            old(self).supports(characteristic, descriptor, request) ==> result is Ok || result
                == Err::<Reply, GattError>(GattError::ChannelFull) || result == Err::<
                Reply,
                GattError,
            >(GattError::ChannelClosed),
            old(self).owes(characteristic, descriptor, request) matches Some(reply) ==> result
                == Ok::<Reply, GattError>(reply),
            result matches Ok(reply) ==> characteristic < old(self).spec_characteristics().len()
                && OCharacteristic::answers(
                request,
                old(self).spec_characteristics()[characteristic as int].spec_subscribers(),
                reply,
            ),
            characteristic < old(self).spec_characteristics().len()
                ==> final(self).spec_characteristics()[characteristic as int].spec_subscribers()
                == match result {
                Ok(Reply::Subscribers(count)) => count,
                _ => old(self).spec_characteristics()[characteristic as int].spec_subscribers(),
            },
    {
        proof {
            use_type_invariant(&*self);
        }
        if characteristic >= self.characteristics.len() {
            return Err(GattError::UnsupportedOperation);
        }
        let ghost before = self.characteristics@;
        let mut characteristics = Vec::new();
        std::mem::swap(&mut self.characteristics, &mut characteristics);
        assert(identities(self.characteristics@) =~= Seq::<u128>::empty());
        let result = characteristics[characteristic].handle(descriptor, request);
        proof {
            assert(identities(characteristics@) =~= identities(before));
        }
        std::mem::swap(&mut self.characteristics, &mut characteristics);
        result
    }
}

impl Attribute for Service {
    open spec fn identity(&self) -> u128 {
        self.spec_uuid()@
    }

    fn uuid(&self) -> (uuid: Uuid)
        ensures
            uuid == self.spec_uuid(),
    {
        self.uuid
    }
}

/// A service under construction.
#[derive(Debug)]
pub struct ServiceBuilder {
    pub(crate) uuid: Uuid,
    pub(crate) primary: bool,
    characteristics: Vec<OCharacteristic>,
    failed: bool,
}

/// A `ServiceBuilder` as a plain value.
pub struct ServiceParts {
    pub uuid: Uuid,
    pub primary: bool,
    pub characteristics: Seq<OCharacteristic>,
    /// Whether an attribute was turned away because its identifier was
    /// taken among its siblings.
    pub failed: bool,
}

impl View for ServiceBuilder {
    type V = ServiceParts;

    closed spec fn view(&self) -> ServiceParts {
        ServiceParts {
            uuid: self.uuid,
            primary: self.primary,
            characteristics: self.characteristics@,
            failed: self.failed,
        }
    }
}

impl ServiceParts {
    /// Whether `after` is what these parts become when the characteristic
    /// `target` is handed in. The finished characteristic stands at the end,
    /// unless its identifier is taken: then it is turned away. The chain has
    /// failed from then on, as it has when `target` itself had turned a
    /// descriptor away.
    pub open spec fn takes(self, target: CharacteristicParts, after: ServiceParts) -> bool {
        &&& after.uuid == self.uuid
        &&& after.primary == self.primary
        &&& after.failed == (self.failed || target.duplicate || identities(
            self.characteristics,
        ).contains(target.uuid@))
        &&& if identities(self.characteristics).contains(target.uuid@) {
            after.characteristics == self.characteristics
        } else {
            &&& after.characteristics.len() == self.characteristics.len() + 1
            &&& after.characteristics.drop_last() == self.characteristics
            &&& target.finishes_to(after.characteristics.last())
        }
    }
}

impl ServiceBuilder {
    #[verifier::type_invariant]
    spec fn valid(self) -> bool {
        distinct(self.characteristics@)
    }

    /// No two of the characteristics added so far share an identifier.
    pub open spec fn wf(self) -> bool {
        distinct(self@.characteristics)
    }

    pub fn new(uuid: Uuid, primary: bool) -> (builder: Self)
        ensures
            builder.wf(),
            builder@ == (ServiceParts {
                uuid,
                primary,
                characteristics: Seq::<OCharacteristic>::empty(),
                failed: false,
            }),
    {
        let characteristics: Vec<OCharacteristic> = Vec::new();
        assert(identities(characteristics@) =~= Seq::<u128>::empty());
        ServiceBuilder { uuid, primary, characteristics, failed: false }
    }

    /// Starts the characteristic `uuid`. The chain that comes back is
    /// configured as a characteristic; completing it hands the
    /// characteristic to this builder.
    pub fn new_characteristic(self, uuid: Uuid) -> (chain: ChainedBuilder<Characteristic, Self>)
        ensures
            chain.parent() == self,
            chain.child()@.fresh(uuid),
            chain.child().wf(),
    {
        ChainedBuilder::new(Characteristic::new(uuid), self)
    }

    /// Ends the construction. Where an attribute was turned away for its
    /// identifier, at any level below the service, there is no service:
    /// `DuplicateAttribute`.
    pub fn build(self) -> (result: Result<Service, GattError>)
        ensures
            result is Ok <==> !self@.failed,
            result matches Err(error) ==> error == GattError::DuplicateAttribute,
            result matches Ok(service) ==> service.wf() && service.spec_uuid() == self@.uuid
                && service.spec_primary() == self@.primary && service.spec_characteristics()
                == self@.characteristics,
    {
        proof {
            use_type_invariant(&self);
        }
        if self.failed {
            Err(GattError::DuplicateAttribute)
        } else {
            Ok(
                Service {
                    uuid: self.uuid,
                    primary: self.primary,
                    characteristics: self.characteristics,
                },
            )
        }
    }
}

impl ConsumeBuilder<Characteristic> for ServiceBuilder {
    open spec fn consumes(self, target: Characteristic, parent: Self) -> bool {
        self@.takes(target@, parent@) && parent.wf()
    }

    fn consume(self, target: Characteristic) -> (parent: Self) {
        proof {
            use_type_invariant(&self);
            use_type_invariant(&target);
        }
        let mut this = self;
        let ghost before = this.characteristics@;
        if target.duplicate {
            this.failed = true;
        }
        let finished = OCharacteristic::assemble(
            target.uuid,
            target.characteristic_properties,
            target.descriptors,
        );
        proof {
            lemma_inserted(before, finished);
        }
        let mut characteristics = Vec::new();
        std::mem::swap(&mut this.characteristics, &mut characteristics);
        assert(identities(this.characteristics@) =~= Seq::<u128>::empty());
        let added = insert_unique(&mut characteristics, finished);
        std::mem::swap(&mut this.characteristics, &mut characteristics);
        if !added {
            this.failed = true;
        } else {
            assert(this.characteristics@.drop_last() =~= before);
        }
        this
    }
}


/// A characteristic under construction: the identifier, the flags and
/// channels asked for so far, the flags and channels of the descriptor that
/// is being prepared, and the descriptors that were added.
#[derive(Debug)]
pub struct Characteristic {
    uuid: Uuid,
    characteristic_properties: Properties<EventSender>,
    descriptor_properties: Properties<EventSender>,
    descriptors: Vec<Descriptor>,
    duplicate: bool,
}

/// A `Characteristic` under construction, as a plain value.
pub struct CharacteristicParts {
    pub uuid: Uuid,
    pub characteristic_properties: Properties<EventSender>,
    pub descriptor_properties: Properties<EventSender>,
    pub descriptors: Seq<Descriptor>,
    /// Whether a descriptor was turned away because its identifier was taken.
    pub duplicate: bool,
}

impl View for Characteristic {
    type V = CharacteristicParts;

    closed spec fn view(&self) -> CharacteristicParts {
        CharacteristicParts {
            uuid: self.uuid,
            characteristic_properties: self.characteristic_properties,
            descriptor_properties: self.descriptor_properties,
            descriptors: self.descriptors@,
            duplicate: self.duplicate,
        }
    }
}

impl CharacteristicParts {
    /// The parts of a characteristic for which nothing was asked yet.
    pub open spec fn fresh(self, uuid: Uuid) -> bool {
        &&& self.uuid == uuid
        &&& self.characteristic_properties.flags@ == Set::<Capability>::empty()
        &&& self.characteristic_properties.read is None
        &&& self.characteristic_properties.write is None
        &&& self.descriptor_properties.flags@ == Set::<Capability>::empty()
        &&& self.descriptor_properties.read is None
        &&& self.descriptor_properties.write is None
        &&& self.descriptors == Seq::<Descriptor>::empty()
        &&& !self.duplicate
    }

    /// Whether `finished` is what these parts finish to: the identifier, the
    /// characteristic's flags and channels settled against each other, the
    /// descriptors that were added, and nobody listening.
    pub open spec fn finishes_to(self, finished: OCharacteristic) -> bool {
        &&& finished.wf()
        &&& finished.spec_uuid() == self.uuid
        &&& finished.spec_properties().is_settled_from(self.characteristic_properties)
        &&& finished.spec_descriptors() == self.descriptors
        &&& finished.spec_subscribers() == 0
    }

    /// The parts after the descriptor `descriptor` was handed in: it stands
    /// at the end, unless its identifier is taken, which is remembered.
    pub open spec fn with_descriptor(self, descriptor: Descriptor) -> CharacteristicParts {
        CharacteristicParts {
            descriptors: inserted(self.descriptors, descriptor),
            duplicate: self.duplicate || identities(self.descriptors).contains(
                descriptor.identity(),
            ),
            ..self
        }
    }
}

impl Characteristic {
    #[verifier::type_invariant]
    spec fn valid(self) -> bool {
        distinct(self.descriptors@)
    }

    /// No two of the descriptors added so far share an identifier.
    pub open spec fn wf(self) -> bool {
        distinct(self@.descriptors)
    }

    /// Sets the channel on which reads of the characteristic reach the
    /// application.
    pub fn set_characteristic_read(&mut self, sender: mpsc::Sender<Event>) -> (this: &mut Self)
        ensures
            *final(self) == *final(this),
            this@ == (CharacteristicParts {
                characteristic_properties: Properties {
                    read: Some(sender),
                    ..old(self)@.characteristic_properties
                },
                ..old(self)@
            }),
    {
        proof {
            use_type_invariant(&*self);
        }
        self.characteristic_properties.read = Some(sender);
        self
    }

    /// Sets the channel on which writes of the characteristic reach the
    /// application.
    pub fn set_characteristic_write(&mut self, sender: mpsc::Sender<Event>) -> (this: &mut Self)
        ensures
            *final(self) == *final(this),
            this@ == (CharacteristicParts {
                characteristic_properties: Properties {
                    write: Some(sender),
                    ..old(self)@.characteristic_properties
                },
                ..old(self)@
            }),
    {
        proof {
            use_type_invariant(&*self);
        }
        self.characteristic_properties.write = Some(sender);
        self
    }

    /// Sets the capabilities asked for the characteristic.
    pub fn set_characteristic_flags(&mut self, flags: PropertyFlags) -> (this: &mut Self)
        ensures
            *final(self) == *final(this),
            this@ == (CharacteristicParts {
                characteristic_properties: Properties {
                    flags,
                    ..old(self)@.characteristic_properties
                },
                ..old(self)@
            }),
    {
        proof {
            use_type_invariant(&*self);
        }
        self.characteristic_properties.flags = flags;
        self
    }

    /// Sets the channel on which reads of the descriptor in preparation
    /// reach the application.
    pub fn set_descriptor_read(&mut self, sender: mpsc::Sender<Event>) -> (this: &mut Self)
        ensures
            *final(self) == *final(this),
            this@ == (CharacteristicParts {
                descriptor_properties: Properties {
                    read: Some(sender),
                    ..old(self)@.descriptor_properties
                },
                ..old(self)@
            }),
    {
        proof {
            use_type_invariant(&*self);
        }
        self.descriptor_properties.read = Some(sender);
        self
    }

    /// Sets the channel on which writes of the descriptor in preparation
    /// reach the application.
    pub fn set_descriptor_write(&mut self, sender: mpsc::Sender<Event>) -> (this: &mut Self)
        ensures
            *final(self) == *final(this),
            this@ == (CharacteristicParts {
                descriptor_properties: Properties {
                    write: Some(sender),
                    ..old(self)@.descriptor_properties
                },
                ..old(self)@
            }),
    {
        proof {
            use_type_invariant(&*self);
        }
        self.descriptor_properties.write = Some(sender);
        self
    }

    /// Sets the capabilities asked for the descriptor in preparation.
    pub fn set_descriptor_flags(&mut self, flags: PropertyFlags) -> (this: &mut Self)
        ensures
            *final(self) == *final(this),
            this@ == (CharacteristicParts {
                descriptor_properties: Properties { flags, ..old(self)@.descriptor_properties },
                ..old(self)@
            }),
    {
        proof {
            use_type_invariant(&*self);
        }
        self.descriptor_properties.flags = flags;
        self
    }

    pub fn new(uuid: Uuid) -> (characteristic: Self)
        ensures
            characteristic@.fresh(uuid),
            characteristic.wf(),
    {
        let descriptors: Vec<Descriptor> = Vec::new();
        assert(identities(descriptors@) =~= Seq::<u128>::empty());
        Self {
            uuid,
            characteristic_properties: Properties::default(),
            descriptor_properties: Properties::default(),
            descriptors,
            duplicate: false,
        }
    }

    /// Ends the preparation of a descriptor: the flags and channels set for
    /// it become the descriptor `uuid` as `Descriptor::new` makes it, which
    /// is handed in as by `consume`, and the preparation starts afresh.
    pub fn add_descriptor(&mut self, uuid: Uuid) -> (this: &mut Self)
        ensures
            *final(self) == *final(this),
            this.wf(),
            exists|descriptor: Descriptor|
                {
                    &&& descriptor.is_built_from(uuid, old(self)@.descriptor_properties)
                    &&& this@.descriptors == #[trigger] inserted(
                        old(self)@.descriptors,
                        descriptor,
                    )
                },
            this@.duplicate == (old(self)@.duplicate || identities(
                old(self)@.descriptors,
            ).contains(uuid@)),
            this@.uuid == old(self)@.uuid,
            this@.characteristic_properties == old(self)@.characteristic_properties,
            this@.descriptor_properties.flags@ == Set::<Capability>::empty(),
            this@.descriptor_properties.read is None,
            this@.descriptor_properties.write is None,
    {
        proof {
            use_type_invariant(&*self);
        }
        let mut properties = Properties::default();
        std::mem::swap(&mut self.descriptor_properties, &mut properties);
        let descriptor = Descriptor::new(uuid, properties);
        let ghost before = self.descriptors@;
        let mut descriptors = Vec::new();
        std::mem::swap(&mut self.descriptors, &mut descriptors);
        assert(identities(self.descriptors@) =~= Seq::<u128>::empty());
        let added = insert_unique(&mut descriptors, descriptor);
        proof {
            lemma_inserted(before, descriptor);
            assert(descriptors@ == inserted(before, descriptor));
        }
        std::mem::swap(&mut self.descriptors, &mut descriptors);
        if !added {
            self.duplicate = true;
        }
        proof {
            assert(descriptor.is_built_from(uuid, old(self)@.descriptor_properties));
            assert(self@.descriptors == inserted(old(self)@.descriptors, descriptor));
        }
        self
    }

    /// Ends the construction. A descriptor that was prepared but not added
    /// is left out. Where a descriptor was turned away for its identifier,
    /// the characteristic is not to be used: `DuplicateAttribute`.
    pub fn finish(self) -> (result: Result<OCharacteristic, GattError>)
        ensures
            result is Ok <==> !self@.duplicate,
            result matches Err(error) ==> error == GattError::DuplicateAttribute,
            result matches Ok(finished) ==> self@.finishes_to(finished),
    {
        proof {
            use_type_invariant(&self);
        }
        if self.duplicate {
            Err(GattError::DuplicateAttribute)
        } else {
            Ok(
                OCharacteristic::assemble(
                    self.uuid,
                    self.characteristic_properties,
                    self.descriptors,
                ),
            )
        }
    }
}

impl ConsumeBuilder<Descriptor> for Characteristic {
    /// The descriptor stands at the end of the descriptors, unless its
    /// identifier is taken: then it is turned away and that is remembered
    /// until the characteristic is finished.
    open spec fn consumes(self, target: Descriptor, parent: Self) -> bool {
        parent@ == self@.with_descriptor(target) && parent.wf()
    }

    fn consume(self, target: Descriptor) -> (parent: Self) {
        proof {
            use_type_invariant(&self);
            lemma_inserted(self.descriptors@, target);
        }
        let mut this = self;
        let mut descriptors = Vec::new();
        std::mem::swap(&mut this.descriptors, &mut descriptors);
        assert(identities(this.descriptors@) =~= Seq::<u128>::empty());
        let added = insert_unique(&mut descriptors, target);
        std::mem::swap(&mut this.descriptors, &mut descriptors);
        if !added {
            this.duplicate = true;
        }
        this
    }
}

impl Attribute for Characteristic {
    open spec fn identity(&self) -> u128 {
        self@.uuid@
    }

    fn uuid(&self) -> (uuid: Uuid)
        ensures
            uuid == self@.uuid,
    {
        self.uuid
    }
}

impl PartialEqSpecImpl for Characteristic {
    open spec fn obeys_eq_spec() -> bool {
        true
    }

    /// Two characteristics under construction stand for the same attribute
    /// when their identifiers are equal, whatever else was asked for them.
    open spec fn eq_spec(&self, other: &Characteristic) -> bool {
        self@.uuid == other@.uuid
    }
}

impl PartialEq for Characteristic {
    fn eq(&self, other: &Characteristic) -> (same: bool) {
        self.uuid == other.uuid
    }
}

impl Eq for Characteristic {

}

/// The identifiers of the characteristics that were handed to a builder.
pub open spec fn target_uuids(targets: Seq<CharacteristicParts>) -> Seq<u128> {
    Seq::new(targets.len(), |i: int| targets[i].uuid@)
}

/// Whether `states` are the states that a service builder goes through
/// while it takes in `targets` one after the other, beginning with no
/// characteristic and no failure.
pub open spec fn is_construction(
    states: Seq<ServiceParts>,
    targets: Seq<CharacteristicParts>,
) -> bool {
    &&& states.len() == targets.len() + 1
    &&& states[0].characteristics.len() == 0
    &&& !states[0].failed
    &&& forall|i: int|
        0 <= i < targets.len() ==> (#[trigger] states[i]).takes(targets[i], states[i + 1])
}

/// The first `upto` steps of a construction.
proof fn lemma_construction_prefix(
    states: Seq<ServiceParts>,
    targets: Seq<CharacteristicParts>,
    upto: int,
)
    requires
        is_construction(states, targets),
        0 <= upto <= targets.len(),
    ensures
        distinct(states[upto].characteristics),
        identities(states[upto].characteristics).to_set() == target_uuids(targets).take(
            upto,
        ).to_set(),
        states[upto].failed <==> !target_uuids(targets).take(upto).no_duplicates() || exists|
            i: int,
        |
            0 <= i < upto && (#[trigger] targets[i]).duplicate,
        states[upto].uuid == states[0].uuid,
        states[upto].primary == states[0].primary,
    decreases upto,
{
    let uuids = target_uuids(targets);
    if upto == 0 {
        assert(identities(states[0].characteristics) =~= Seq::<u128>::empty());
        assert(uuids.take(0) =~= Seq::<u128>::empty());
        assert(identities(states[0].characteristics).to_set() =~= uuids.take(0).to_set());
    } else {
        let i = upto - 1;
        lemma_construction_prefix(states, targets, i);
        let before = states[i];
        let after = states[upto];
        let target = targets[i];
        assert(before.takes(target, after));
        let ids = identities(before.characteristics);
        let new_ids = identities(after.characteristics);
        let seen = uuids.take(i);
        let now = uuids.take(upto);
        assert(now =~= seen.push(target.uuid@));
        assert(ids.contains(target.uuid@) <==> seen.contains(target.uuid@)) by {
            assert(ids.to_set().contains(target.uuid@) <==> seen.to_set().contains(target.uuid@));
        }
        assert(now.to_set() =~= seen.to_set().insert(target.uuid@)) by {
            assert forall|u: u128| now.to_set().contains(u) <==> seen.to_set().insert(
                target.uuid@,
            ).contains(u) by {
                if now.contains(u) {
                    let j = choose|j: int| 0 <= j < now.len() && now[j] == u;
                    if j < i {
                        assert(seen[j] == u);
                    }
                }
                if seen.contains(u) {
                    let j = choose|j: int| 0 <= j < seen.len() && seen[j] == u;
                    assert(now[j] == u);
                }
                if u == target.uuid@ {
                    assert(now[i] == u);
                }
            }
        }
        assert(now.no_duplicates() <==> seen.no_duplicates() && !seen.contains(target.uuid@)) by {
            if now.no_duplicates() {
                assert forall|a: int, b: int|
                    0 <= a < seen.len() && 0 <= b < seen.len() && a != b implies seen[a]
                    != seen[b] by {
                    assert(now[a] == seen[a]);
                    assert(now[b] == seen[b]);
                }
                if seen.contains(target.uuid@) {
                    let j = choose|j: int| 0 <= j < seen.len() && seen[j] == target.uuid@;
                    assert(now[j] == now[i]);
                }
            }
            if seen.no_duplicates() && !seen.contains(target.uuid@) {
                assert forall|a: int, b: int|
                    0 <= a < now.len() && 0 <= b < now.len() && a != b implies now[a]
                    != now[b] by {
                    if a < i {
                        assert(seen[a] == now[a]);
                    }
                    if b < i {
                        assert(seen[b] == now[b]);
                    }
                }
            }
        }
        if ids.contains(target.uuid@) {
            assert(after.characteristics == before.characteristics);
        } else {
            let finished = after.characteristics.last();
            assert(after.characteristics =~= before.characteristics.push(finished));
            assert(finished.identity() == target.uuid@);
            assert(after.characteristics == inserted(before.characteristics, finished));
            lemma_inserted(before.characteristics, finished);
        }
        assert(new_ids.to_set() =~= now.to_set());
    }
}

/// However a service is built through the chain, the characteristics that
/// the builder holds are as many as there are distinct identifiers among
/// those that were handed to it; and the chain has failed exactly when an
/// identifier was handed in twice, or when a characteristic had itself
/// turned a descriptor away. The builder's own identifier and whether the
/// service is primary stay as they were set.
pub proof fn lemma_distinct_characteristics(
    states: Seq<ServiceParts>,
    targets: Seq<CharacteristicParts>,
)
    requires
        is_construction(states, targets),
    ensures
        states.last().characteristics.len() == target_uuids(targets).to_set().len(),
        identities(states.last().characteristics).to_set() == target_uuids(targets).to_set(),
        distinct(states.last().characteristics),
        states.last().failed <==> !target_uuids(targets).no_duplicates() || exists|i: int|
            0 <= i < targets.len() && (#[trigger] targets[i]).duplicate,
        states.last().uuid == states[0].uuid,
        states.last().primary == states[0].primary,
{
    lemma_construction_prefix(states, targets, targets.len() as int);
    assert(target_uuids(targets).take(targets.len() as int) =~= target_uuids(targets));
    identities(states.last().characteristics).unique_seq_to_set();
}

/// The first `upto` steps of a construction in which no identifier comes
/// twice.
proof fn lemma_insertion_prefix(
    states: Seq<ServiceParts>,
    targets: Seq<CharacteristicParts>,
    upto: int,
)
    requires
        is_construction(states, targets),
        target_uuids(targets).no_duplicates(),
        0 <= upto <= targets.len(),
    ensures
        states[upto].characteristics.len() == upto,
        forall|i: int|
            0 <= i < upto ==> (#[trigger] targets[i]).finishes_to(states[upto].characteristics[i]),
    decreases upto,
{
    if upto > 0 {
        let i = upto - 1;
        lemma_insertion_prefix(states, targets, i);
        lemma_construction_prefix(states, targets, i);
        let uuids = target_uuids(targets);
        let seen = uuids.take(i);
        let ids = identities(states[i].characteristics);
        assert(states[i].takes(targets[i], states[upto]));
        if ids.contains(targets[i].uuid@) {
            assert(ids.to_set().contains(targets[i].uuid@));
            assert(seen.to_set().contains(targets[i].uuid@));
            let j = choose|j: int| 0 <= j < seen.len() && seen[j] == targets[i].uuid@;
            assert(uuids[j] == uuids[i]);
            assert(false);
        }
        let row = states[upto].characteristics;
        assert forall|k: int| 0 <= k < upto implies (#[trigger] targets[k]).finishes_to(
            row[k],
        ) by {
            if k < i {
                assert(row[k] == row.drop_last()[k]);
            }
        }
    }
}

/// Where no identifier is handed in twice, the characteristics of the
/// service stand in the order in which they were handed in: the one that
/// was handed in as the `i`-th is the `i`-th, counted from zero, and so has
/// the index `i` in its address.
pub proof fn lemma_insertion_order(states: Seq<ServiceParts>, targets: Seq<CharacteristicParts>)
    requires
        is_construction(states, targets),
        target_uuids(targets).no_duplicates(),
    ensures
        states.last().characteristics.len() == targets.len(),
        forall|i: int|
            0 <= i < targets.len() ==> (#[trigger] targets[i]).finishes_to(
                states.last().characteristics[i],
            ),
        !states.last().failed <==> forall|i: int|
            0 <= i < targets.len() ==> !(#[trigger] targets[i]).duplicate,
{
    lemma_insertion_prefix(states, targets, targets.len() as int);
    lemma_distinct_characteristics(states, targets);
}

} // verus!
