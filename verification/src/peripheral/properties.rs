//! The properties of the adapter of a peripheral.

use vstd::prelude::*;

verus! {

/// The type of the value of a property.
#[derive(Clone, Copy, Debug, PartialEq, Eq, Structural)]
pub enum ValueType {
    Boolean,
    Text,
}

/// The value of a property, as it travels to and from the host stack.
#[derive(Debug)]
pub enum PropertyValue {
    Boolean(bool),
    Text(String),
}

impl PropertyValue {
    pub open spec fn spec_value_type(self) -> ValueType {
        match self {
            PropertyValue::Boolean(_) => ValueType::Boolean,
            PropertyValue::Text(_) => ValueType::Text,
        }
    }

    pub fn value_type(&self) -> (value_type: ValueType)
        ensures
            value_type == self.spec_value_type(),
    {
        match self {
            PropertyValue::Boolean(_) => ValueType::Boolean,
            PropertyValue::Text(_) => ValueType::Text,
        }
    }
}

/// A property of the adapter. It is the type parameter of the calls that
/// read and set properties: the key under which the host stack knows the
/// property, and the type of its value.
pub trait PeripheralProperty {
    /// The type of the property's value in this library.
    type Type;

    /// The key under which the host stack knows the property.
    spec fn spec_dbus_key() -> Seq<char>;

    /// The type of the property's value on the wire.
    spec fn spec_value_type() -> ValueType;

    /// Whether `sent` is `value` as it travels.
    spec fn carries(value: Self::Type, sent: PropertyValue) -> bool;

    fn dbus_key() -> (key: &'static str)
        ensures
            key@ == Self::spec_dbus_key(),
    ;

    fn value_type() -> (value_type: ValueType)
        ensures
            value_type == Self::spec_value_type(),
    ;

    /// The value as it travels to the host stack.
    fn into_value(value: Self::Type) -> (sent: PropertyValue)
        ensures
            Self::carries(value, sent),
            sent.spec_value_type() == Self::spec_value_type(),
    ;

    /// The value that came from the host stack, if it is of the property's
    /// type. A value as it travels stands for one value only, and that is
    /// the one read.
    fn from_value(sent: PropertyValue) -> (value: Option<Self::Type>)
        ensures
            value is Some <==> sent.spec_value_type() == Self::spec_value_type(),
            value matches Some(read) ==> Self::carries(read, sent),
            forall|other: Self::Type| Self::carries(other, sent) ==> value == Some(other),
    ;
}

/// Whether the adapter is powered.
pub struct Powered;

/// Whether the adapter can be discovered.
pub struct Discoverable;

/// The name under which the adapter is known.
pub struct Alias;

impl PeripheralProperty for Powered {
    type Type = bool;

    open spec fn spec_dbus_key() -> Seq<char> {
        "Powered"@
    }

    open spec fn spec_value_type() -> ValueType {
        ValueType::Boolean
    }

    open spec fn carries(value: bool, sent: PropertyValue) -> bool {
        sent == PropertyValue::Boolean(value)
    }

    fn dbus_key() -> (key: &'static str) {
        "Powered"
    }

    fn value_type() -> (value_type: ValueType) {
        ValueType::Boolean
    }

    fn into_value(value: bool) -> (sent: PropertyValue) {
        PropertyValue::Boolean(value)
    }

    fn from_value(sent: PropertyValue) -> (value: Option<bool>) {
        match sent {
            PropertyValue::Boolean(value) => Some(value),
            PropertyValue::Text(_) => None,
        }
    }
}

impl PeripheralProperty for Discoverable {
    type Type = bool;

    open spec fn spec_dbus_key() -> Seq<char> {
        "Discoverable"@
    }

    open spec fn spec_value_type() -> ValueType {
        ValueType::Boolean
    }

    open spec fn carries(value: bool, sent: PropertyValue) -> bool {
        sent == PropertyValue::Boolean(value)
    }

    fn dbus_key() -> (key: &'static str) {
        "Discoverable"
    }

    fn value_type() -> (value_type: ValueType) {
        ValueType::Boolean
    }

    fn into_value(value: bool) -> (sent: PropertyValue) {
        PropertyValue::Boolean(value)
    }

    fn from_value(sent: PropertyValue) -> (value: Option<bool>) {
        match sent {
            PropertyValue::Boolean(value) => Some(value),
            PropertyValue::Text(_) => None,
        }
    }
}

impl PeripheralProperty for Alias {
    type Type = String;

    open spec fn spec_dbus_key() -> Seq<char> {
        "Alias"@
    }

    open spec fn spec_value_type() -> ValueType {
        ValueType::Text
    }

    open spec fn carries(value: String, sent: PropertyValue) -> bool {
        sent == PropertyValue::Text(value)
    }

    fn dbus_key() -> (key: &'static str) {
        "Alias"
    }

    fn value_type() -> (value_type: ValueType) {
        ValueType::Text
    }

    fn into_value(value: String) -> (sent: PropertyValue) {
        PropertyValue::Text(value)
    }

    fn from_value(sent: PropertyValue) -> (value: Option<String>) {
        match sent {
            PropertyValue::Boolean(_) => None,
            PropertyValue::Text(value) => Some(value),
        }
    }
}

} // verus!
