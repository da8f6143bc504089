use bluster::common::{ChainedBuilder, ConsumeBuilder};
use bluster::gatt::attribute::Attribute;
use bluster::gatt::descriptor::Descriptor;
use bluster::gatt::event::Event;
use bluster::gatt::gatt_properties::{Capability, Properties, PropertyFlags};
use bluster::gatt::service::{Characteristic, ServiceBuilder, _Service};
use bluster::uuid::Uuid;
use bluster::GattError;
use futures::channel::mpsc;

const HEART_RATE: u128 = 0x0000180d_0000_1000_8000_00805f9b34fb;
const MEASUREMENT: u128 = 0x00002a37_0000_1000_8000_00805f9b34fb;
const BODY_SENSOR: u128 = 0x00002a38_0000_1000_8000_00805f9b34fb;
const CONTROL_POINT: u128 = 0x00002a39_0000_1000_8000_00805f9b34fb;
const CLIENT_CONFIG: u128 = 0x00002902_0000_1000_8000_00805f9b34fb;
const USER_DESCRIPTION: u128 = 0x00002901_0000_1000_8000_00805f9b34fb;

fn read_flag() -> PropertyFlags {
    PropertyFlags::single(Capability::Read)
}

#[test]
fn service_holds_one_characteristic_per_distinct_uuid() {
    let builder = ServiceBuilder::new(Uuid::from_u128(HEART_RATE), true)
        .new_characteristic(Uuid::from_u128(MEASUREMENT))
        .complete_chain()
        .new_characteristic(Uuid::from_u128(BODY_SENSOR))
        .complete_chain()
        .new_characteristic(Uuid::from_u128(CONTROL_POINT))
        .complete_chain();
    let service = match builder.build() {
        Ok(service) => service,
        Err(error) => panic!("three distinct uuids were refused: {:?}", error),
    };
    assert_eq!(service.characteristics().len(), 3);
    assert_eq!(service.uuid().as_u128(), HEART_RATE);
    assert!(service.primary());
    let uuids: Vec<u128> = service.characteristics().iter().map(|c| c.uuid().as_u128()).collect();
    assert_eq!(uuids, vec![MEASUREMENT, BODY_SENSOR, CONTROL_POINT]);
}

#[test]
fn duplicate_characteristic_fails_the_chain() {
    let builder = ServiceBuilder::new(Uuid::from_u128(HEART_RATE), true)
        .new_characteristic(Uuid::from_u128(MEASUREMENT))
        .complete_chain()
        .new_characteristic(Uuid::from_u128(BODY_SENSOR))
        .complete_chain()
        .new_characteristic(Uuid::from_u128(MEASUREMENT))
        .complete_chain();
    assert!(matches!(builder.build(), Err(GattError::DuplicateAttribute)));
}

#[test]
fn duplicate_characteristic_fails_every_time() {
    for _ in 0..5 {
        let builder = ServiceBuilder::new(Uuid::from_u128(HEART_RATE), false)
            .new_characteristic(Uuid::from_u128(BODY_SENSOR))
            .complete_chain()
            .new_characteristic(Uuid::from_u128(BODY_SENSOR))
            .complete_chain();
        assert!(matches!(builder.build(), Err(GattError::DuplicateAttribute)));
    }
}

#[test]
fn failure_shows_when_the_parent_is_finished() {
    let builder = ServiceBuilder::new(Uuid::from_u128(HEART_RATE), true)
        .new_characteristic(Uuid::from_u128(MEASUREMENT))
        .complete_chain()
        .new_characteristic(Uuid::from_u128(MEASUREMENT))
        .complete_chain();
    let builder = builder.new_characteristic(Uuid::from_u128(BODY_SENSOR)).complete_chain();
    assert!(matches!(builder.build(), Err(GattError::DuplicateAttribute)));
}

#[test]
fn empty_service_builds() {
    let service = ServiceBuilder::new(Uuid::from_u128(HEART_RATE), false).build();
    match service {
        Ok(service) => {
            assert_eq!(service.characteristics().len(), 0);
            assert!(!service.primary());
        }
        Err(error) => panic!("{:?}", error),
    }
}

#[test]
fn chain_is_configured_as_the_child() {
    let (read, _read_end) = mpsc::channel::<Event>(1);
    let mut chain = ServiceBuilder::new(Uuid::from_u128(HEART_RATE), true)
        .new_characteristic(Uuid::from_u128(MEASUREMENT));
    chain
        .set_characteristic_flags(read_flag().union(PropertyFlags::single(Capability::Notify)))
        .set_characteristic_read(read);
    let service = match chain.complete_chain().build() {
        Ok(service) => service,
        Err(error) => panic!("{:?}", error),
    };
    let characteristic = &service.characteristics()[0];
    assert_eq!(characteristic.flags().bits(), 0x12);
    assert_eq!(characteristic.subscribers(), 0);
    assert_eq!(characteristic.descriptors().len(), 0);
}

#[test]
fn chained_builder_hands_the_child_to_the_parent() {
    let parent = ServiceBuilder::new(Uuid::from_u128(HEART_RATE), true);
    let chain = ChainedBuilder::new(Characteristic::new(Uuid::from_u128(BODY_SENSOR)), parent);
    let direct = ServiceBuilder::new(Uuid::from_u128(HEART_RATE), true)
        .consume(Characteristic::new(Uuid::from_u128(BODY_SENSOR)));
    let (chained, direct) = match (chain.complete_chain().build(), direct.build()) {
        (Ok(chained), Ok(direct)) => (chained, direct),
        _ => panic!("a single characteristic was refused"),
    };
    assert_eq!(chained.characteristics().len(), 1);
    assert_eq!(direct.characteristics().len(), 1);
    assert_eq!(
        chained.characteristics()[0].uuid().as_u128(),
        direct.characteristics()[0].uuid().as_u128()
    );
}

#[test]
fn descriptors_are_added_in_order() {
    let (read, _read_end) = mpsc::channel::<Event>(1);
    let (write, _write_end) = mpsc::channel::<Event>(1);
    let mut chain = ServiceBuilder::new(Uuid::from_u128(HEART_RATE), true)
        .new_characteristic(Uuid::from_u128(MEASUREMENT));
    chain
        .set_descriptor_flags(read_flag())
        .set_descriptor_read(read)
        .add_descriptor(Uuid::from_u128(USER_DESCRIPTION))
        .set_descriptor_flags(PropertyFlags::all())
        .set_descriptor_write(write)
        .add_descriptor(Uuid::from_u128(CLIENT_CONFIG));
    let service = match chain.complete_chain().build() {
        Ok(service) => service,
        Err(error) => panic!("{:?}", error),
    };
    let descriptors = service.characteristics()[0].descriptors();
    assert_eq!(descriptors.len(), 2);
    assert_eq!(descriptors[0].uuid().as_u128(), USER_DESCRIPTION);
    assert_eq!(descriptors[0].flags().bits(), 0x02);
    assert_eq!(descriptors[1].uuid().as_u128(), CLIENT_CONFIG);
    assert_eq!(descriptors[1].flags().bits(), 0x08);
}

#[test]
fn set_descriptor_flags_leaves_the_characteristic_alone() {
    let (read, _read_end) = mpsc::channel::<Event>(1);
    let mut chain = ServiceBuilder::new(Uuid::from_u128(HEART_RATE), true)
        .new_characteristic(Uuid::from_u128(MEASUREMENT));
    chain
        .set_characteristic_flags(read_flag())
        .set_characteristic_read(read)
        .set_descriptor_flags(PropertyFlags::single(Capability::Write));
    let service = match chain.complete_chain().build() {
        Ok(service) => service,
        Err(error) => panic!("{:?}", error),
    };
    assert_eq!(service.characteristics()[0].flags().bits(), 0x02);
}

#[test]
fn duplicate_descriptor_fails_the_chain() {
    let mut chain = ServiceBuilder::new(Uuid::from_u128(HEART_RATE), true)
        .new_characteristic(Uuid::from_u128(MEASUREMENT));
    chain
        .add_descriptor(Uuid::from_u128(CLIENT_CONFIG))
        .add_descriptor(Uuid::from_u128(CLIENT_CONFIG));
    assert!(matches!(chain.complete_chain().build(), Err(GattError::DuplicateAttribute)));
}

#[test]
fn duplicate_descriptor_fails_the_characteristic() {
    let mut characteristic = Characteristic::new(Uuid::from_u128(MEASUREMENT));
    characteristic.add_descriptor(Uuid::from_u128(CLIENT_CONFIG));
    let characteristic = characteristic
        .consume(Descriptor::new(Uuid::from_u128(CLIENT_CONFIG), Properties::default()));
    assert!(matches!(characteristic.finish(), Err(GattError::DuplicateAttribute)));
}

#[test]
fn same_uuid_under_different_parents_is_no_duplicate() {
    let mut first = ServiceBuilder::new(Uuid::from_u128(HEART_RATE), true)
        .new_characteristic(Uuid::from_u128(MEASUREMENT));
    first.add_descriptor(Uuid::from_u128(CLIENT_CONFIG));
    let mut second = first.complete_chain().new_characteristic(Uuid::from_u128(BODY_SENSOR));
    second.add_descriptor(Uuid::from_u128(CLIENT_CONFIG));
    assert!(second.complete_chain().build().is_ok());
}

#[test]
fn characteristics_are_the_same_by_uuid_alone() {
    let mut one = Characteristic::new(Uuid::from_u128(MEASUREMENT));
    one.set_characteristic_flags(PropertyFlags::all());
    let other = Characteristic::new(Uuid::from_u128(MEASUREMENT));
    let different = Characteristic::new(Uuid::from_u128(BODY_SENSOR));
    assert!(one == other);
    assert!(one != different);
    let (one, other) = match (one.finish(), other.finish()) {
        (Ok(one), Ok(other)) => (one, other),
        _ => panic!("a characteristic without descriptors was refused"),
    };
    assert!(one == other);
    assert!(
        Descriptor::new(Uuid::from_u128(CLIENT_CONFIG), Properties::default())
            != Descriptor::new(Uuid::from_u128(USER_DESCRIPTION), Properties::default())
    );
}

#[test]
fn service_parts_are_validated() {
    let finished = |uuid: u128| match Characteristic::new(Uuid::from_u128(uuid)).finish() {
        Ok(finished) => finished,
        Err(error) => panic!("{:?}", error),
    };
    let parts = _Service::new(
        Uuid::from_u128(HEART_RATE),
        true,
        vec![finished(MEASUREMENT), finished(BODY_SENSOR)],
    );
    match parts.validate() {
        Ok(service) => assert_eq!(service.characteristics().len(), 2),
        Err(error) => panic!("{:?}", error),
    }
    let parts = _Service::new(
        Uuid::from_u128(HEART_RATE),
        true,
        vec![finished(MEASUREMENT), finished(BODY_SENSOR), finished(MEASUREMENT)],
    );
    assert!(matches!(parts.validate(), Err(GattError::DuplicateAttribute)));
}

#[test]
fn find_characteristic_by_uuid() {
    let service = ServiceBuilder::new(Uuid::from_u128(HEART_RATE), true)
        .new_characteristic(Uuid::from_u128(MEASUREMENT))
        .complete_chain()
        .new_characteristic(Uuid::from_u128(BODY_SENSOR))
        .complete_chain()
        .build();
    let service = match service {
        Ok(service) => service,
        Err(error) => panic!("{:?}", error),
    };
    assert_eq!(service.find_characteristic(Uuid::from_u128(BODY_SENSOR)), Some(1));
    assert_eq!(service.find_characteristic(Uuid::from_u128(CONTROL_POINT)), None);
}
