use bluster::bluez::mgmt::HciSocketAddress;
use bluster::bluez::{
    error_name, error_of, find_adapter, host_event_of, interface_of, io_error_of, is_timeout_name,
    object_properties, property_method, reply_error_name, ManagedObject, ObjectValue,
};
use bluster::gatt::gatt_properties::{Capability, PropertyFlags};
use bluster::gatt::tree::ObjectEntry;
use bluster::gatt::address::Address;
use bluster::gatt::registration::HostEvent;
use bluster::peripheral::properties::{Alias, Powered};
use bluster::peripheral::{get_call, set_call};
use bluster::{ErrorType, GattError, PeripheralError, TransportError};

fn object(path: &str, interfaces: &[&str]) -> ManagedObject {
    ManagedObject {
        path: path.to_string(),
        interfaces: interfaces.iter().map(|name| name.to_string()).collect(),
    }
}

#[test]
fn adapter_is_the_first_object_that_can_advertise() {
    let objects = vec![
        object("/org/bluez", &["org.bluez.AgentManager1"]),
        object("/org/bluez/hci0", &["org.bluez.Adapter1", "org.bluez.LEAdvertisingManager1"]),
        object("/org/bluez/hci1", &["org.bluez.LEAdvertisingManager1"]),
    ];
    assert_eq!(find_adapter(&objects), Some(1));
}

#[test]
fn no_adapter_where_nothing_can_advertise() {
    let objects = vec![
        object("/org/bluez", &["org.bluez.AgentManager1"]),
        object("/org/bluez/hci0", &["org.bluez.Adapter1", "org.bluez.LEAdvertisingManager"]),
        object("/org/bluez/hci1", &[]),
    ];
    assert_eq!(find_adapter(&objects), None);
    assert_eq!(find_adapter(&Vec::new()), None);
}

#[test]
fn has_interface_compares_whole_names() {
    let adapter = object("/org/bluez/hci0", &["org.bluez.Adapter1"]);
    assert!(adapter.has_interface("org.bluez.Adapter1"));
    assert!(!adapter.has_interface("org.bluez.Adapter"));
    assert!(!adapter.has_interface("org.bluez.Adapter11"));
}

#[test]
fn names_on_the_bus() {
    assert_eq!(bluster::bluez::DBUS_PROPERTIES_IFACE, "org.freedesktop.DBus.Properties");
    assert_eq!(bluster::bluez::DBUS_OBJECTMANAGER_IFACE, "org.freedesktop.DBus.ObjectManager");
    assert_eq!(bluster::bluez::BLUEZ_SERVICE_NAME, "org.bluez");
    assert_eq!(bluster::bluez::ADAPTER_IFACE, "org.bluez.Adapter1");
    assert_eq!(bluster::bluez::GATT_GATT_MANAGER_IFACE, "org.bluez.GattManager1");
    assert_eq!(bluster::bluez::PATH_BASE, "/org/bluez/example");
    assert_eq!(bluster::bluez::BLUEZ_DBUS_TIMEOUT_SECS, 30);
}

#[test]
fn interface_by_level() {
    assert_eq!(interface_of(Address::Service(0)), "org.bluez.GattService1");
    assert_eq!(interface_of(Address::Characteristic(0, 1)), "org.bluez.GattCharacteristic1");
    assert_eq!(interface_of(Address::Descriptor(0, 1, 2)), "org.bluez.GattDescriptor1");
}

#[test]
fn transport_errors_by_name() {
    assert_eq!(error_name(TransportError::Failed), "org.bluez.Error.Failed");
    assert_eq!(error_name(TransportError::InProgress), "org.bluez.Error.InProgress");
    assert_eq!(error_name(TransportError::NotPermitted), "org.bluez.Error.NotPermitted");
    assert_eq!(error_name(TransportError::NotAuthorized), "org.bluez.Error.NotAuthorized");
    assert_eq!(error_name(TransportError::InvalidOffset), "org.bluez.Error.InvalidOffset");
    assert_eq!(error_name(TransportError::NotSupported), "org.bluez.Error.NotSupported");
    assert_eq!(reply_error_name(GattError::UnsupportedOperation), "org.bluez.Error.NotSupported");
    assert_eq!(reply_error_name(GattError::ChannelClosed), "org.bluez.Error.Failed");
    assert_eq!(reply_error_name(GattError::Application(7)), "org.bluez.Error.InvalidOffset");
}

#[test]
fn property_calls_name_their_method() {
    assert_eq!(property_method(&get_call::<Powered>()), "Get");
    assert_eq!(property_method(&set_call::<Alias>("kitchen".to_string())), "Set");
}

#[test]
fn timeouts_by_name() {
    assert!(is_timeout_name("org.freedesktop.DBus.Error.NoReply"));
    assert!(is_timeout_name("org.freedesktop.DBus.Error.Timeout"));
    assert!(is_timeout_name("org.freedesktop.DBus.Error.TimedOut"));
    assert!(!is_timeout_name("org.freedesktop.DBus.Error.Failed"));
    assert!(!is_timeout_name(""));
}

#[test]
fn host_event_of_a_call() {
    assert_eq!(host_event_of(&Ok(())), HostEvent::Accepted);
    let timeout = error_of(Some("org.freedesktop.DBus.Error.NoReply".to_string()), None);
    assert_eq!(host_event_of(&Err(timeout)), HostEvent::TimedOut);
    let refusal = error_of(Some("org.bluez.Error.Failed".to_string()), Some("no".to_string()));
    assert_eq!(host_event_of(&Err(refusal)), HostEvent::Rejected);
}

#[test]
fn error_of_a_name_and_a_message() {
    let error = error_of(Some("org.bluez.Error.Failed".to_string()), Some("busy".to_string()));
    assert_eq!(error.name(), "org.bluez.Error.Failed");
    assert_eq!(error.description(), "busy");
    assert_eq!(error.kind(), ErrorType::Bluez);
    let error = error_of(None, None);
    assert_eq!(error.name(), "");
    assert_eq!(error.description(), "");
}

#[test]
fn error_from_an_error_of_the_bus() {
    let error = PeripheralError::from(dbus::Error::new_custom("org.bluez.Error.Rejected", "not now"));
    assert_eq!(error.name(), "org.bluez.Error.Rejected");
    assert_eq!(error.description(), "not now");
    assert_eq!(error.kind(), ErrorType::Bluez);
}

#[test]
fn error_from_an_io_error() {
    let error = PeripheralError::from(std::io::Error::new(std::io::ErrorKind::NotFound, "gone"));
    assert_eq!(error.name(), "std::io::Error: NotFound");
    assert_eq!(
        error.description(),
        format!("{:?}", std::io::Error::new(std::io::ErrorKind::NotFound, "gone"))
    );
    assert_eq!(error.kind(), ErrorType::Bluez);
    let error = io_error_of("TimedOut", "late".to_string());
    assert_eq!(error.name(), "std::io::Error: TimedOut");
    assert_eq!(error.description(), "late");
}

#[test]
fn error_from_nothing() {
    let error = PeripheralError::from(());
    assert_eq!(error.name(), "no name");
    assert_eq!(error.description(), "no description");
    assert_eq!(error.kind(), ErrorType::Bluez);
}

#[test]
fn management_address() {
    assert_eq!(
        HciSocketAddress::get_mgmt_address(),
        HciSocketAddress { hci_family: 31, hci_dev: 65535, hci_channel: 3 }
    );
    assert_eq!(bluster::bluez::mgmt::BTPROTO_HCI, 1);
}

fn keys_and_values(entry: &ObjectEntry) -> Vec<(String, String)> {
    object_properties(entry)
        .into_iter()
        .map(|property| {
            let value = match property.value {
                ObjectValue::Text(text) => format!("text {}", text),
                ObjectValue::Flag(flag) => format!("flag {}", flag),
                ObjectValue::Names(names) => format!("names {}", names.join(",")),
                ObjectValue::Path(path) => format!("path {}", path),
            };
            (property.key.to_string(), value)
        })
        .collect()
}

fn pair(key: &str, value: &str) -> (String, String) {
    (key.to_string(), value.to_string())
}

#[test]
fn properties_of_a_service() {
    let entry = ObjectEntry {
        address: Address::Service(0),
        path: "/org/bluez/example/service0".to_string(),
        uuid: "0000180d-0000-1000-8000-00805f9b34fb".to_string(),
        primary: true,
        flags: PropertyFlags::empty(),
        parent: None,
    };
    assert_eq!(
        keys_and_values(&entry),
        vec![pair("UUID", "text 0000180d-0000-1000-8000-00805f9b34fb"), pair("Primary", "flag true")]
    );
}

#[test]
fn properties_of_a_characteristic() {
    let entry = ObjectEntry {
        address: Address::Characteristic(0, 1),
        path: "/org/bluez/example/service0/char1".to_string(),
        uuid: "00002a37-0000-1000-8000-00805f9b34fb".to_string(),
        primary: false,
        flags: PropertyFlags::single(Capability::Read).union(PropertyFlags::single(Capability::Notify)),
        parent: Some("/org/bluez/example/service0".to_string()),
    };
    assert_eq!(
        keys_and_values(&entry),
        vec![
            pair("UUID", "text 00002a37-0000-1000-8000-00805f9b34fb"),
            pair("Flags", "names read,notify"),
            pair("Service", "path /org/bluez/example/service0"),
        ]
    );
}

#[test]
fn properties_of_a_descriptor() {
    let entry = ObjectEntry {
        address: Address::Descriptor(0, 1, 0),
        path: "/org/bluez/example/service0/char1/desc0".to_string(),
        uuid: "00002902-0000-1000-8000-00805f9b34fb".to_string(),
        primary: false,
        flags: PropertyFlags::single(Capability::Write),
        parent: Some("/org/bluez/example/service0/char1".to_string()),
    };
    assert_eq!(
        keys_and_values(&entry),
        vec![
            pair("UUID", "text 00002902-0000-1000-8000-00805f9b34fb"),
            pair("Flags", "names write"),
            pair("Characteristic", "path /org/bluez/example/service0/char1"),
        ]
    );
}

#[test]
fn error_from_an_error_of_the_bus_without_a_message() {
    let error = PeripheralError::from(dbus::Error::new_custom("org.freedesktop.DBus.Error.NoReply", ""));
    assert_eq!(error.name(), "org.freedesktop.DBus.Error.NoReply");
    assert_eq!(error.description(), "");
    assert_eq!(host_event_of(&Err(error)), HostEvent::TimedOut);
}
