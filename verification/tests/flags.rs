use bluster::gatt::gatt_properties::{Capability, Properties, PropertyFlags};

fn flags(capabilities: &[Capability]) -> PropertyFlags {
    let mut all = PropertyFlags::empty();
    for capability in capabilities {
        all = all.union(PropertyFlags::single(*capability));
    }
    all
}

#[test]
fn capability_bits_follow_the_characteristic_properties_field() {
    assert_eq!(Capability::Read.bit(), 0x02);
    assert_eq!(Capability::WriteWithoutResponse.bit(), 0x04);
    assert_eq!(Capability::Write.bit(), 0x08);
    assert_eq!(Capability::Notify.bit(), 0x10);
    assert_eq!(Capability::Indicate.bit(), 0x20);
}

#[test]
fn union_is_bitwise() {
    let both = flags(&[Capability::Read, Capability::Notify]);
    assert_eq!(both.bits(), 0x12);
    assert!(both.has(Capability::Read));
    assert!(both.has(Capability::Notify));
    assert!(!both.has(Capability::Write));
    assert_eq!(both.union(both), both);
}

#[test]
fn empty_and_all() {
    assert_eq!(PropertyFlags::empty().bits(), 0);
    assert!(PropertyFlags::empty().is_empty());
    assert_eq!(PropertyFlags::all().bits(), 0x3e);
    assert!(!PropertyFlags::all().is_empty());
    assert!(PropertyFlags::all().contains(flags(&[Capability::Write, Capability::Indicate])));
}

#[test]
fn from_bits_takes_capability_bits_only() {
    assert_eq!(PropertyFlags::from_bits(0x0a).map(|f| f.bits()), Some(0x0a));
    assert_eq!(PropertyFlags::from_bits(0x01), None);
    assert_eq!(PropertyFlags::from_bits(0x40), None);
    assert_eq!(PropertyFlags::from_bits_truncate(0xff).bits(), 0x3e);
    assert_eq!(PropertyFlags::from_bits_truncate(0x41).bits(), 0);
}

#[test]
fn contains_and_intersects() {
    let read_write = flags(&[Capability::Read, Capability::Write]);
    let read = flags(&[Capability::Read]);
    let notify = flags(&[Capability::Notify]);
    assert!(read_write.contains(read));
    assert!(!read.contains(read_write));
    assert!(read_write.contains(PropertyFlags::empty()));
    assert!(read_write.intersects(read));
    assert!(!read_write.intersects(notify));
    assert!(!read_write.intersects(PropertyFlags::empty()));
}

#[test]
fn intersection_and_difference() {
    let a = flags(&[Capability::Read, Capability::Write, Capability::Notify]);
    let b = flags(&[Capability::Write, Capability::Indicate]);
    assert_eq!(a.intersection(b).bits(), 0x08);
    assert_eq!(a.difference(b).bits(), 0x12);
    assert_eq!(b.difference(a).bits(), 0x20);
}

#[test]
fn descriptor_subset_keeps_read_and_write() {
    assert_eq!(PropertyFlags::all().descriptor_subset().bits(), 0x0a);
    assert_eq!(flags(&[Capability::Notify]).descriptor_subset().bits(), 0);
}

#[test]
fn capabilities_by_operation() {
    assert!(flags(&[Capability::Read]).can_read());
    assert!(!flags(&[Capability::Write]).can_read());
    assert!(flags(&[Capability::Write]).can_write());
    assert!(!flags(&[Capability::WriteWithoutResponse]).can_write());
    assert!(flags(&[Capability::WriteWithoutResponse, Capability::Write]).can_write());
    assert!(!flags(&[Capability::Read, Capability::Notify]).can_write());
    assert!(flags(&[Capability::Notify]).can_notify());
    assert!(flags(&[Capability::Indicate]).can_notify());
    assert!(!flags(&[Capability::Read, Capability::Write]).can_notify());
}

#[test]
fn names_come_in_the_host_stack_order() {
    assert_eq!(
        PropertyFlags::all().names(),
        vec!["read", "write-without-response", "write", "notify", "indicate"]
    );
    assert_eq!(flags(&[Capability::Notify, Capability::Read]).names(), vec!["read", "notify"]);
    assert!(PropertyFlags::empty().names().is_empty());
}

#[test]
fn settle_keeps_a_capability_that_has_its_channel() {
    let settled = Properties {
        flags: flags(&[Capability::Read, Capability::Notify]),
        read: Some(7u32),
        write: None,
    }
    .settle();
    assert_eq!(settled.flags.bits(), 0x12);
    assert_eq!(settled.read, Some(7));
    assert_eq!(settled.write, None);
}

#[test]
fn settle_drops_a_channel_without_its_flag() {
    let settled = Properties {
        flags: flags(&[Capability::Read]),
        read: Some(1u32),
        write: Some(2u32),
    }
    .settle();
    assert_eq!(settled.flags.bits(), 0x02);
    assert_eq!(settled.read, Some(1));
    assert_eq!(settled.write, None);
}

#[test]
fn settle_withdraws_a_flag_without_its_channel() {
    let settled = Properties::<u32> {
        flags: flags(&[
            Capability::Read,
            Capability::Write,
            Capability::WriteWithoutResponse,
            Capability::Indicate,
        ]),
        read: None,
        write: None,
    }
    .settle();
    assert_eq!(settled.flags.bits(), 0x24);
    assert_eq!(settled.read, None);
    assert_eq!(settled.write, None);
}

#[test]
fn settle_gives_write_without_response_no_channel() {
    let settled = Properties {
        flags: flags(&[Capability::WriteWithoutResponse]),
        read: None,
        write: Some(9u32),
    }
    .settle();
    assert_eq!(settled.flags.bits(), 0x04);
    assert_eq!(settled.write, None);
    let settled = Properties::<u32> {
        flags: flags(&[Capability::WriteWithoutResponse, Capability::Write]),
        read: None,
        write: None,
    }
    .settle();
    assert_eq!(settled.flags.bits(), 0x04);
}

#[test]
fn settled_properties_have_a_channel_exactly_where_the_flag_is() {
    for bits in 0u8..=0x3f {
        let Some(requested) = PropertyFlags::from_bits(bits & 0x3e) else {
            unreachable!()
        };
        for with_read in [false, true] {
            for with_write in [false, true] {
                let settled = Properties {
                    flags: requested,
                    read: if with_read { Some(1u8) } else { None },
                    write: if with_write { Some(2u8) } else { None },
                }
                .settle();
                assert_eq!(settled.read.is_some(), settled.flags.can_read());
                assert_eq!(settled.write.is_some(), settled.flags.can_write());
                assert_eq!(settled.read.is_some(), requested.can_read() && with_read);
                assert_eq!(settled.write.is_some(), requested.can_write() && with_write);
                assert!(requested.contains(settled.flags));
            }
        }
    }
}

#[test]
fn default_properties_are_empty() {
    let properties = Properties::<u32>::default();
    assert!(properties.flags.is_empty());
    assert_eq!(properties.read, None);
    assert_eq!(properties.write, None);
}
