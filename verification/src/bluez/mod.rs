//! What the library knows of the BlueZ host stack: the names on its bus,
//! the choice of the adapter, the errors that come from it and go to it.

pub mod mgmt;
pub mod outside;

use crate::error::{ErrorType, GattError, PeripheralError, TransportError};
use crate::gatt::address::Address;
use crate::gatt::gatt_properties::name_texts;
use crate::gatt::registration::HostEvent;
use crate::gatt::tree::ObjectEntry;
use crate::peripheral::{Access, PropertyCall};
use dbus::arg::TypeMismatchError as DbusTypeMismatchError;
use dbus::Error as DbusError;
use std::io::Error as IoError;
use std::io::ErrorKind as IoErrorKind;
use vstd::prelude::*;
use vstd::std_specs::convert::FromSpecImpl;
use vstd::string::StringExecFns;

verus! {

pub const DBUS_PROPERTIES_IFACE: &'static str = "org.freedesktop.DBus.Properties";

pub const DBUS_OBJECTMANAGER_IFACE: &'static str = "org.freedesktop.DBus.ObjectManager";

pub const BLUEZ_SERVICE_NAME: &'static str = "org.bluez";

pub const ADAPTER_IFACE: &'static str = "org.bluez.Adapter1";

pub const LE_ADVERTISING_MANAGER_IFACE: &'static str = "org.bluez.LEAdvertisingManager1";

pub const LE_ADVERTISEMENT_IFACE: &'static str = "org.bluez.LEAdvertisement1";

pub const GATT_SERVICE_IFACE: &'static str = "org.bluez.GattService1";

pub const GATT_CHARACTERISTIC_IFACE: &'static str = "org.bluez.GattCharacteristic1";

pub const GATT_DESCRIPTOR_IFACE: &'static str = "org.bluez.GattDescriptor1";

pub const GATT_GATT_MANAGER_IFACE: &'static str = "org.bluez.GattManager1";

pub const BLUEZ_ERROR_FAILED: &'static str = "org.bluez.Error.Failed";

pub const BLUEZ_ERROR_INPROGRESS: &'static str = "org.bluez.Error.InProgress";

pub const BLUEZ_ERROR_NOTPERMITTED: &'static str = "org.bluez.Error.NotPermitted";

pub const BLUEZ_ERROR_NOTAUTHORIZED: &'static str = "org.bluez.Error.NotAuthorized";

pub const BLUEZ_ERROR_INVALIDOFFSET: &'static str = "org.bluez.Error.InvalidOffset";

pub const BLUEZ_ERROR_NOTSUPPORTED: &'static str = "org.bluez.Error.NotSupported";

/// The path below which a tree is exported.
pub const PATH_BASE: &'static str = "/org/bluez/example";

/// The seconds that a call to the host stack may take.
pub const BLUEZ_DBUS_TIMEOUT_SECS: u64 = 30;

/// One object that the host stack manages: its path and the names of its
/// interfaces.
#[derive(Debug)]
pub struct ManagedObject {
    pub path: String,
    pub interfaces: Vec<String>,
}

impl ManagedObject {
    /// Whether the object has the interface `name`.
    pub open spec fn spec_has_interface(&self, name: Seq<char>) -> bool {
        exists|j: int| 0 <= j < self.interfaces@.len() && (#[trigger] self.interfaces@[j])@ == name
    }

    pub fn has_interface(&self, name: &str) -> (has: bool)
        ensures
            has == self.spec_has_interface(name@),
    {
        let wanted = String::from_str(name);
        let mut j: usize = 0;
        while j < self.interfaces.len()
            invariant
                j <= self.interfaces.len(),
                wanted@ == name@,
                forall|i: int| 0 <= i < j ==> (#[trigger] self.interfaces@[i])@ != name@,
            decreases self.interfaces.len() - j,
        {
            if self.interfaces[j] == wanted {
                return true;
            }
            j += 1;
        }
        false
    }
}

/// The adapter among `objects`: the first object that can advertise, which
/// is one with the interface `LE_ADVERTISING_MANAGER_IFACE`. The answer is
/// its index; there is none where no object can advertise.
pub fn find_adapter(objects: &Vec<ManagedObject>) -> (found: Option<usize>)
    ensures
        found matches Some(i) ==> i < objects.len() && objects[i as int].spec_has_interface(
            LE_ADVERTISING_MANAGER_IFACE@,
        ) && forall|j: int|
            0 <= j < i ==> !(#[trigger] objects[j]).spec_has_interface(
                LE_ADVERTISING_MANAGER_IFACE@,
            ),
        found is None ==> forall|j: int|
            0 <= j < objects.len() ==> !(#[trigger] objects[j]).spec_has_interface(
                LE_ADVERTISING_MANAGER_IFACE@,
            ),
{
    let mut i: usize = 0;
    while i < objects.len()
        invariant
            i <= objects.len(),
            forall|j: int|
                0 <= j < i ==> !(#[trigger] objects[j]).spec_has_interface(
                    LE_ADVERTISING_MANAGER_IFACE@,
                ),
        decreases objects.len() - i,
    {
        if objects[i].has_interface(LE_ADVERTISING_MANAGER_IFACE) {
            return Some(i);
        }
        i += 1;
    }
    None
}

/// The name of the method of `DBUS_PROPERTIES_IFACE` that carries out a
/// property call on `ADAPTER_IFACE`.
pub fn property_method(call: &PropertyCall) -> (member: &'static str)
    ensures
        member@ == if call.access == Access::Read {
            "Get"@
        } else {
            "Set"@
        },
{
    match call.access {
        Access::Read => "Get",
        Access::Write => "Set",
    }
}

/// The interface under which the host stack sees the attribute at
/// `address`.
pub fn interface_of(address: Address) -> (name: &'static str)
    ensures
        name@ == match address {
            Address::Service(_) => GATT_SERVICE_IFACE@,
            Address::Characteristic(_, _) => GATT_CHARACTERISTIC_IFACE@,
            Address::Descriptor(_, _, _) => GATT_DESCRIPTOR_IFACE@,
        },
{
    match address {
        Address::Service(_) => GATT_SERVICE_IFACE,
        Address::Characteristic(_, _) => GATT_CHARACTERISTIC_IFACE,
        Address::Descriptor(_, _, _) => GATT_DESCRIPTOR_IFACE,
    }
}

/// The value of one property of an object that the host stack discovers.
#[derive(Debug)]
pub enum ObjectValue {
    Text(String),
    Flag(bool),
    Names(Vec<&'static str>),
    Path(String),
}

/// An `ObjectValue` as a plain value.
pub enum ObjectValueView {
    Text(Seq<char>),
    Flag(bool),
    Names(Seq<Seq<char>>),
    Path(Seq<char>),
}

impl View for ObjectValue {
    type V = ObjectValueView;

    open spec fn view(&self) -> ObjectValueView {
        match self {
            ObjectValue::Text(text) => ObjectValueView::Text(text@),
            ObjectValue::Flag(flag) => ObjectValueView::Flag(*flag),
            ObjectValue::Names(names) => ObjectValueView::Names(name_texts(names@)),
            ObjectValue::Path(path) => ObjectValueView::Path(path@),
        }
    }
}

/// One property of an object that the host stack discovers: its key and
/// its value.
#[derive(Debug)]
pub struct ObjectProperty {
    pub key: &'static str,
    pub value: ObjectValue,
}

/// Keys and values of `properties`, in their order.
pub open spec fn property_views(properties: Seq<ObjectProperty>) -> Seq<
    (Seq<char>, ObjectValueView),
> {
    Seq::new(properties.len(), |i: int| (properties[i].key@, properties[i].value@))
}

/// The property that names the object above, under `key`; none for an
/// object that has nothing above it.
pub open spec fn parent_property(key: Seq<char>, parent: Option<String>) -> Seq<
    (Seq<char>, ObjectValueView),
> {
    match parent {
        Some(path) => seq![(key, ObjectValueView::Path(path@))],
        None => Seq::empty(),
    }
}

/// The properties under which the host stack learns of an object. Every
/// object has `UUID`. A service has `Primary` besides. A characteristic
/// has `Flags` and, naming its service, `Service`; a descriptor has `Flags`
/// and, naming its characteristic, `Characteristic`.
pub open spec fn spec_object_properties(entry: ObjectEntry) -> Seq<(Seq<char>, ObjectValueView)> {
    let first = seq![("UUID"@, ObjectValueView::Text(entry.uuid@))];
    match entry.address {
        Address::Service(_) => first.push(("Primary"@, ObjectValueView::Flag(entry.primary))),
        Address::Characteristic(_, _) => first.push(
            ("Flags"@, ObjectValueView::Names(entry.flags.spec_names())),
        ) + parent_property("Service"@, entry.parent),
        Address::Descriptor(_, _, _) => first.push(
            ("Flags"@, ObjectValueView::Names(entry.flags.spec_names())),
        ) + parent_property("Characteristic"@, entry.parent),
    }
}

/// The properties under which the host stack learns of the object that
/// `entry` describes, in the order of `spec_object_properties`.
pub fn object_properties(entry: &ObjectEntry) -> (properties: Vec<ObjectProperty>)
    ensures
        property_views(properties@) == spec_object_properties(*entry),
{
    let mut properties: Vec<ObjectProperty> = Vec::new();
    properties.push(ObjectProperty { key: "UUID", value: ObjectValue::Text(entry.uuid.clone()) });
    match entry.address {
        Address::Service(_) => {
            properties.push(
                ObjectProperty { key: "Primary", value: ObjectValue::Flag(entry.primary) },
            );
        },
        Address::Characteristic(_, _) => {
            properties.push(
                ObjectProperty { key: "Flags", value: ObjectValue::Names(entry.flags.names()) },
            );
            match &entry.parent {
                Some(path) => {
                    properties.push(
                        ObjectProperty { key: "Service", value: ObjectValue::Path(path.clone()) },
                    );
                },
                None => {},
            }
        },
        Address::Descriptor(_, _, _) => {
            properties.push(
                ObjectProperty { key: "Flags", value: ObjectValue::Names(entry.flags.names()) },
            );
            match &entry.parent {
                Some(path) => {
                    properties.push(
                        ObjectProperty {
                            key: "Characteristic",
                            value: ObjectValue::Path(path.clone()),
                        },
                    );
                },
                None => {},
            }
        },
    }
    assert(property_views(properties@) =~= spec_object_properties(*entry));
    properties
}

/// The name under which the host stack knows a transport error.
pub fn error_name(word: TransportError) -> (name: &'static str)
    ensures
        name@ == match word {
            TransportError::Failed => BLUEZ_ERROR_FAILED@,
            TransportError::InProgress => BLUEZ_ERROR_INPROGRESS@,
            TransportError::NotPermitted => BLUEZ_ERROR_NOTPERMITTED@,
            TransportError::NotAuthorized => BLUEZ_ERROR_NOTAUTHORIZED@,
            TransportError::InvalidOffset => BLUEZ_ERROR_INVALIDOFFSET@,
            TransportError::NotSupported => BLUEZ_ERROR_NOTSUPPORTED@,
        },
{
    match word {
        TransportError::Failed => BLUEZ_ERROR_FAILED,
        TransportError::InProgress => BLUEZ_ERROR_INPROGRESS,
        TransportError::NotPermitted => BLUEZ_ERROR_NOTPERMITTED,
        TransportError::NotAuthorized => BLUEZ_ERROR_NOTAUTHORIZED,
        TransportError::InvalidOffset => BLUEZ_ERROR_INVALIDOFFSET,
        TransportError::NotSupported => BLUEZ_ERROR_NOTSUPPORTED,
    }
}

/// The name under which a remote caller is told of `error`.
pub fn reply_error_name(error: GattError) -> (name: &'static str)
    ensures
        name@ == match error.spec_to_transport() {
            TransportError::Failed => BLUEZ_ERROR_FAILED@,
            TransportError::InProgress => BLUEZ_ERROR_INPROGRESS@,
            TransportError::NotPermitted => BLUEZ_ERROR_NOTPERMITTED@,
            TransportError::NotAuthorized => BLUEZ_ERROR_NOTAUTHORIZED@,
            TransportError::InvalidOffset => BLUEZ_ERROR_INVALIDOFFSET@,
            TransportError::NotSupported => BLUEZ_ERROR_NOTSUPPORTED@,
        },
{
    error_name(error.to_transport())
}

/// Whether `name` is one of the names under which the bus reports that an
/// answer did not come in time.
pub open spec fn spec_is_timeout_name(name: Seq<char>) -> bool {
    name == "org.freedesktop.DBus.Error.NoReply"@ || name == "org.freedesktop.DBus.Error.Timeout"@
        || name == "org.freedesktop.DBus.Error.TimedOut"@
}

pub fn is_timeout_name(name: &str) -> (timeout: bool)
    ensures
        timeout == spec_is_timeout_name(name@),
{
    let name = String::from_str(name);
    name == String::from_str("org.freedesktop.DBus.Error.NoReply") || name == String::from_str(
        "org.freedesktop.DBus.Error.Timeout",
    ) || name == String::from_str("org.freedesktop.DBus.Error.TimedOut")
}

/// What the registration is told of a call to the host stack: that it was
/// accepted where it succeeded, that it timed out where the error has one
/// of the bus's names for that, and else that it was rejected.
pub fn host_event_of(result: &Result<(), PeripheralError>) -> (event: HostEvent)
    ensures
        event == match result {
            Ok(_) => HostEvent::Accepted,
            Err(error) => if spec_is_timeout_name(error.spec_name()) {
                HostEvent::TimedOut
            } else {
                HostEvent::Rejected
            },
        },
{
    match result {
        Ok(_) => HostEvent::Accepted,
        Err(error) => if is_timeout_name(error.name()) {
            HostEvent::TimedOut
        } else {
            HostEvent::Rejected
        },
    }
}

/// The library's error for a failed call to the host stack, as far as the
/// bus named it: a missing name or message is the empty text.
pub fn error_of(name: Option<String>, message: Option<String>) -> (error: PeripheralError)
    ensures
        error.spec_name() == match name {
            Some(text) => text@,
            None => Seq::<char>::empty(),
        },
        error.spec_description() == match message {
            Some(text) => text@,
            None => Seq::<char>::empty(),
        },
        error.spec_kind() == ErrorType::Bluez,
{
    let name = match name {
        Some(text) => text,
        None => String::new(),
    };
    let message = match message {
        Some(text) => text,
        None => String::new(),
    };
    PeripheralError::new(name, message, ErrorType::Bluez)
}

/// The name that the bus gave an error, if it gave one: what
/// `dbus::Error::name` reads.
pub uninterp spec fn bus_error_name(error: DbusError) -> Option<Seq<char>>;

/// The message that came with an error of the bus, if one came: what
/// `dbus::Error::message` reads.
pub uninterp spec fn bus_error_message(error: DbusError) -> Option<Seq<char>>;

/// The bus's error for a value of the wrong type: what the `From` impl of
/// `dbus::Error` makes of a type mismatch.
pub uninterp spec fn bus_error_of_mismatch(mismatch: DbusTypeMismatchError) -> DbusError;

/// The kind of an error of `std::io`: what `std::io::Error::kind` gives.
pub uninterp spec fn io_error_kind_of(error: IoError) -> IoErrorKind;

/// A kind of error of `std::io`, written as `Debug` writes it.
pub uninterp spec fn io_kind_name(kind: IoErrorKind) -> Seq<char>;

/// A text, or the empty text where there is none.
pub open spec fn text_or_empty(text: Option<Seq<char>>) -> Seq<char> {
    match text {
        Some(text) => text,
        None => Seq::empty(),
    }
}

/// Calls `dbus::Error::name`. Trusted: the text handed back is the name
/// that the error holds, which is what `bus_error_name` names.
#[verifier::external_body]
fn dbus_error_name(error: &DbusError) -> (name: Option<String>)
    ensures
        match name {
            Some(text) => bus_error_name(*error) == Some(text@),
            None => bus_error_name(*error) is None,
        },
{
    match error.name() {
        Some(name) => Some(name.to_string()),
        None => None,
    }
}

/// Calls `dbus::Error::message`. Trusted: the text handed back is the
/// message that the error holds, which is what `bus_error_message` names.
#[verifier::external_body]
fn dbus_error_message(error: &DbusError) -> (message: Option<String>)
    ensures
        match message {
            Some(text) => bus_error_message(*error) == Some(text@),
            None => bus_error_message(*error) is None,
        },
{
    match error.message() {
        Some(message) => Some(message.to_string()),
        None => None,
    }
}

/// Calls the `From` impl of `dbus::Error` for a type mismatch. Trusted: the
/// error is a function of the mismatch, and its name is the bus's name for
/// a plain failure; its message says what was expected and what was found.
#[verifier::external_body]
fn dbus_error_of_mismatch(mismatch: DbusTypeMismatchError) -> (error: DbusError)
    ensures
        error == bus_error_of_mismatch(mismatch),
        bus_error_name(error) == Some("org.freedesktop.DBus.Error.Failed"@),
{
    DbusError::from(mismatch)
}

/// Calls `std::io::Error::kind`. Trusted: the kind is a function of the
/// error, and is what `io_error_kind_of` names.
#[verifier::external_body]
fn io_error_kind(error: &IoError) -> (kind: IoErrorKind)
    ensures
        kind == io_error_kind_of(*error),
{
    error.kind()
}

/// Writes a kind of error of `std::io` as `Debug` does. Trusted: the text
/// depends on the kind alone, and is what `io_kind_name` names.
#[verifier::external_body]
fn io_kind_text(kind: IoErrorKind) -> (text: String)
    ensures
        text@ == io_kind_name(kind),
{
    format!("{:?}", kind)
}

/// Writes an error of `std::io` as `Debug` does. The text may hold the
/// system's own message for the error, so nothing is claimed of it.
#[verifier::external_body]
fn io_error_text(error: &IoError) -> (text: String) {
    format!("{:?}", error)
}

impl FromSpecImpl<DbusError> for PeripheralError {
    open spec fn obeys_from_spec() -> bool {
        false
    }

    open spec fn from_spec(v: DbusError) -> Self {
        arbitrary()
    }
}

impl From<DbusError> for PeripheralError {
    /// The library's error for an error of the bus: it keeps the name and
    /// the message that the bus gave, each empty where the bus gave none.
    fn from(dbus_error: DbusError) -> (error: PeripheralError)
        ensures
            error.spec_name() == text_or_empty(bus_error_name(dbus_error)),
            error.spec_description() == text_or_empty(bus_error_message(dbus_error)),
            error.spec_kind() == ErrorType::Bluez,
    {
        error_of(dbus_error_name(&dbus_error), dbus_error_message(&dbus_error))
    }
}

impl FromSpecImpl<DbusTypeMismatchError> for PeripheralError {
    open spec fn obeys_from_spec() -> bool {
        false
    }

    open spec fn from_spec(v: DbusTypeMismatchError) -> Self {
        arbitrary()
    }
}

impl From<DbusTypeMismatchError> for PeripheralError {
    /// The library's error for a value of the wrong type: that of the bus's
    /// error for it, which is a plain failure with the bus's message.
    fn from(dbus_type_mismatch_error: DbusTypeMismatchError) -> (error: PeripheralError)
        ensures
            error.spec_name() == "org.freedesktop.DBus.Error.Failed"@,
            error.spec_description() == text_or_empty(
                bus_error_message(bus_error_of_mismatch(dbus_type_mismatch_error)),
            ),
            error.spec_kind() == ErrorType::Bluez,
    {
        PeripheralError::from(dbus_error_of_mismatch(dbus_type_mismatch_error))
    }
}

/// The library's error for an error of `std::io`, given the two texts that
/// `Debug` writes for it: the name is `std::io::Error: ` and the kind, the
/// description is the error itself.
pub fn io_error_of(kind: &str, error: String) -> (result: PeripheralError)
    ensures
        result.spec_name() == "std::io::Error: "@ + kind@,
        result.spec_description() == error@,
        result.spec_kind() == ErrorType::Bluez,
{
    let mut name = String::from_str("std::io::Error: ");
    name.append(kind);
    PeripheralError::new(name, error, ErrorType::Bluez)
}

impl FromSpecImpl<IoError> for PeripheralError {
    open spec fn obeys_from_spec() -> bool {
        false
    }

    open spec fn from_spec(v: IoError) -> Self {
        arbitrary()
    }
}

impl From<IoError> for PeripheralError {
    /// The library's error for an error of `std::io`: the name is
    /// `std::io::Error: ` and the error's kind, the description what
    /// `Debug` writes of the error.
    fn from(io_error: IoError) -> (error: PeripheralError)
        ensures
            error.spec_name() == "std::io::Error: "@ + io_kind_name(
                io_error_kind_of(io_error),
            ),
            error.spec_kind() == ErrorType::Bluez,
    {
        let kind = io_kind_text(io_error_kind(&io_error));
        io_error_of(kind.as_str(), io_error_text(&io_error))
    }
}

impl FromSpecImpl<()> for PeripheralError {
    open spec fn obeys_from_spec() -> bool {
        false
    }

    open spec fn from_spec(v: ()) -> Self {
        arbitrary()
    }
}

impl From<()> for PeripheralError {
    /// The error of which nothing is known.
    fn from(_unit: ()) -> (error: PeripheralError)
        ensures
            error.spec_name() == "no name"@,
            error.spec_description() == "no description"@,
            error.spec_kind() == ErrorType::Bluez,
    {
        PeripheralError::new(
            String::from_str("no name"),
            String::from_str("no description"),
            ErrorType::Bluez,
        )
    }
}

} // verus!
