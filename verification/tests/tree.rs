use bluster::gatt::address::{append_decimal, Address};
use bluster::gatt::event::Event;
use bluster::gatt::gatt_properties::{Capability, PropertyFlags};
use bluster::gatt::service::{Service, ServiceBuilder};
use bluster::gatt::tree::{ObjectEntry, Tree};
use bluster::uuid::Uuid;
use bluster::GattError;
use futures::channel::mpsc;

const BASE: &str = "/org/bluez/example";

fn uuid(short: u16) -> Uuid {
    Uuid::from_u128(((short as u128) << 96) | 0x0000_1000_8000_00805f9b34fb)
}

fn built(builder: ServiceBuilder) -> Service {
    match builder.build() {
        Ok(service) => service,
        Err(error) => panic!("the service was refused: {:?}", error),
    }
}

fn tree_of(services: Vec<Service>) -> Tree {
    match Tree::new(BASE.to_string(), services) {
        Ok(tree) => tree,
        Err(error) => panic!("the tree was refused: {:?}", error),
    }
}

/// Two services: the first with two characteristics, of which the second
/// has two descriptors; the second with one characteristic.
fn sample() -> Tree {
    let (read, _read_end) = mpsc::channel::<Event>(1);
    let (write, _write_end) = mpsc::channel::<Event>(1);
    let mut first = ServiceBuilder::new(uuid(0x180d), true).new_characteristic(uuid(0x2a37));
    first
        .set_characteristic_flags(
            PropertyFlags::single(Capability::Read).union(PropertyFlags::single(Capability::Notify)),
        )
        .set_characteristic_read(read);
    let mut second = first.complete_chain().new_characteristic(uuid(0x2a39));
    second
        .set_characteristic_flags(PropertyFlags::single(Capability::Write))
        .set_characteristic_write(write)
        .add_descriptor(uuid(0x2901))
        .add_descriptor(uuid(0x2902));
    let heart_rate = built(second.complete_chain());
    let battery = built(
        ServiceBuilder::new(uuid(0x180f), false).new_characteristic(uuid(0x2a19)).complete_chain(),
    );
    tree_of(vec![heart_rate, battery])
}

fn paths(entries: &[ObjectEntry]) -> Vec<String> {
    entries.iter().map(|entry| entry.path.clone()).collect()
}

#[test]
fn paths_follow_the_scheme() {
    assert_eq!(Address::Service(0).path(BASE), "/org/bluez/example/service0");
    assert_eq!(Address::Characteristic(0, 0).path(BASE), "/org/bluez/example/service0/char0");
    assert_eq!(
        Address::Descriptor(2, 1, 3).path(BASE),
        "/org/bluez/example/service2/char1/desc3"
    );
    assert_eq!(Address::Descriptor(10, 205, 9).path(""), "/service10/char205/desc9");
    assert_eq!(Address::Service(usize::MAX).path("x"), format!("x/service{}", usize::MAX));
}

#[test]
fn decimal_has_no_leading_zeros() {
    for (number, text) in [(0usize, "0"), (7, "7"), (10, "10"), (99, "99"), (100, "100"), (4096, "4096")] {
        let mut written = String::from("n");
        append_decimal(&mut written, number);
        assert_eq!(written, format!("n{}", text));
    }
}

#[test]
fn parent_is_one_level_up() {
    assert_eq!(Address::Service(4).parent(), None);
    assert_eq!(Address::Characteristic(4, 2).parent(), Some(Address::Service(4)));
    assert_eq!(Address::Descriptor(4, 2, 1).parent(), Some(Address::Characteristic(4, 2)));
}

#[test]
fn objects_are_walked_top_down_in_insertion_order() {
    let entries = sample().objects();
    assert_eq!(
        paths(&entries),
        vec![
            "/org/bluez/example/service0",
            "/org/bluez/example/service0/char0",
            "/org/bluez/example/service0/char1",
            "/org/bluez/example/service0/char1/desc0",
            "/org/bluez/example/service0/char1/desc1",
            "/org/bluez/example/service1",
            "/org/bluez/example/service1/char0",
        ]
    );
    let addresses: Vec<Address> = entries.iter().map(|entry| entry.address).collect();
    assert_eq!(
        addresses,
        vec![
            Address::Service(0),
            Address::Characteristic(0, 0),
            Address::Characteristic(0, 1),
            Address::Descriptor(0, 1, 0),
            Address::Descriptor(0, 1, 1),
            Address::Service(1),
            Address::Characteristic(1, 0),
        ]
    );
}

#[test]
fn objects_say_what_the_host_stack_learns() {
    let entries = sample().objects();
    assert_eq!(entries[0].uuid, "0000180d-0000-1000-8000-00805f9b34fb");
    assert!(entries[0].primary);
    assert!(entries[0].flags.is_empty());
    assert_eq!(entries[0].parent, None);

    assert_eq!(entries[1].uuid, "00002a37-0000-1000-8000-00805f9b34fb");
    assert!(!entries[1].primary);
    assert_eq!(entries[1].flags.names(), vec!["read", "notify"]);
    assert_eq!(entries[1].parent.as_deref(), Some("/org/bluez/example/service0"));

    assert_eq!(entries[2].flags.names(), vec!["write"]);
    assert_eq!(entries[3].uuid, "00002901-0000-1000-8000-00805f9b34fb");
    assert!(entries[3].flags.is_empty());
    assert_eq!(entries[3].parent.as_deref(), Some("/org/bluez/example/service0/char1"));
    assert_eq!(entries[4].uuid, "00002902-0000-1000-8000-00805f9b34fb");

    assert_eq!(entries[5].uuid, "0000180f-0000-1000-8000-00805f9b34fb");
    assert!(!entries[5].primary);
    assert_eq!(entries[6].parent.as_deref(), Some("/org/bluez/example/service1"));
}

#[test]
fn rebuilding_the_same_tree_gives_the_same_addresses() {
    let first = sample().objects();
    let second = sample().objects();
    assert_eq!(paths(&first), paths(&second));
    for (one, other) in first.iter().zip(second.iter()) {
        assert_eq!(one.address, other.address);
        assert_eq!(one.uuid, other.uuid);
        assert_eq!(one.parent, other.parent);
    }
}

#[test]
fn entry_at_an_address() {
    let tree = sample();
    match tree.entry_at(Address::Descriptor(0, 1, 1)) {
        Some(entry) => {
            assert_eq!(entry.path, "/org/bluez/example/service0/char1/desc1");
            assert_eq!(entry.uuid, "00002902-0000-1000-8000-00805f9b34fb");
        }
        None => panic!("the descriptor is missing"),
    }
    assert!(tree.entry_at(Address::Descriptor(0, 0, 0)).is_none());
    assert!(tree.entry_at(Address::Characteristic(1, 1)).is_none());
    assert!(tree.entry_at(Address::Service(2)).is_none());
}

#[test]
fn resolve_reads_a_path_back() {
    let tree = sample();
    for entry in tree.objects() {
        assert_eq!(tree.resolve(&entry.path), Some(entry.address));
    }
    assert_eq!(tree.resolve("/org/bluez/example/service2"), None);
    assert_eq!(tree.resolve("/org/bluez/example/service01"), None);
    assert_eq!(tree.resolve("/org/bluez/example"), None);
    assert_eq!(tree.resolve("/org/bluez/example/service0/desc0"), None);
}

#[test]
fn empty_tree_has_no_objects() {
    let tree = tree_of(Vec::new());
    assert!(tree.objects().is_empty());
    assert_eq!(tree.base(), BASE);
    assert_eq!(tree.resolve("/org/bluez/example/service0"), None);
}

#[test]
fn two_services_with_one_uuid_are_refused() {
    let one = built(ServiceBuilder::new(uuid(0x180d), true));
    let other = built(ServiceBuilder::new(uuid(0x180d), false));
    assert!(matches!(
        Tree::new(BASE.to_string(), vec![one, other]),
        Err(GattError::DuplicateAttribute)
    ));
}

#[test]
fn uuid_text_has_the_hyphenated_form() {
    for value in [0u128, 1, u128::MAX, 0x0123456789abcdef_fedcba9876543210] {
        let text = Uuid::from_u128(value).to_hyphenated_string();
        assert_eq!(text.len(), 36);
        for (index, character) in text.chars().enumerate() {
            if [8, 13, 18, 23].contains(&index) {
                assert_eq!(character, '-');
            } else {
                assert!(character.is_ascii_digit() || ('a'..='f').contains(&character));
            }
        }
    }
}

#[test]
fn uuid_text_is_hyphenated_lower_case() {
    assert_eq!(
        Uuid::from_u128(0xA1A2A3A4_B1B2_C1C2_D1D2_D3D4D5D6D7D8).to_hyphenated_string(),
        "a1a2a3a4-b1b2-c1c2-d1d2-d3d4d5d6d7d8"
    );
    assert_eq!(Uuid::from_u128(0).to_hyphenated_string(), "00000000-0000-0000-0000-000000000000");
    assert_eq!(Uuid::from_u128(0x1234).as_u128(), 0x1234);
}

#[test]
fn uuid_text_spells_the_bits_most_significant_first() {
    let values = [
        0u128,
        1,
        u128::MAX,
        0x0123456789abcdef_fedcba9876543210,
        0x0000180d_0000_1000_8000_00805f9b34fb,
        0x8000_0000_0000_0000_0000_0000_0000_0000,
    ];
    for value in values {
        let mut expected = String::new();
        let mut group = 0;
        for position in 0..36 {
            if [8, 13, 18, 23].contains(&position) {
                expected.push('-');
            } else {
                let digit = ((value >> (4 * (31 - group))) & 0xf) as u32;
                match std::char::from_digit(digit, 16) {
                    Some(character) => expected.push(character),
                    None => unreachable!(),
                }
                group += 1;
            }
        }
        assert_eq!(Uuid::from_u128(value).to_hyphenated_string(), expected);
    }
}
