//! The platform independent interface of a peripheral: the properties of
//! the adapter, the calls that read and set them, and the trait of whatever
//! carries the calls out.

pub mod properties;

use crate::error::{ErrorType, PeripheralError};
use crate::peripheral::properties::{PeripheralProperty, PropertyValue, ValueType};
use vstd::prelude::*;
use vstd::string::StringExecFns;

verus! {

/// Whether a property call reads or sets.
#[derive(Clone, Copy, Debug, PartialEq, Eq, Structural)]
pub enum Access {
    Read,
    Write,
}

/// One call on a property of the adapter: the key of the property, the type
/// of its value, and for a write the value.
#[derive(Debug)]
pub struct PropertyCall {
    pub access: Access,
    pub key: &'static str,
    pub value_type: ValueType,
    pub value: Option<PropertyValue>,
}

/// A peripheral of some platform. It carries out one property call on its
/// adapter and hands back what the host stack answered: the value for a
/// read, nothing for a write. What the answer is lies with the host stack.
pub trait Peripheral: Sized {
    fn call(&self, call: PropertyCall) -> Result<Option<PropertyValue>, PeripheralError>;
}

/// Whether `call` is the call that reads the property `P`: a read under
/// the property's key, for a value of the property's type, with no value.
pub open spec fn is_get_call<P: PeripheralProperty>(call: PropertyCall) -> bool {
    &&& call.access == Access::Read
    &&& call.key@ == P::spec_dbus_key()
    &&& call.value_type == P::spec_value_type()
    &&& call.value is None
}

/// Whether `call` is the call that sets the property `P` to `value`: a
/// write under the property's key, with `value` as it travels.
pub open spec fn is_set_call<P: PeripheralProperty>(call: PropertyCall, value: P::Type) -> bool {
    &&& call.access == Access::Write
    &&& call.key@ == P::spec_dbus_key()
    &&& call.value_type == P::spec_value_type()
    &&& call.value matches Some(sent) && P::carries(value, sent) && sent.spec_value_type()
        == P::spec_value_type()
}

/// Whether `error` is the error for an answer that does not hold a value of
/// the property's type.
pub open spec fn is_type_mismatch(error: PeripheralError) -> bool {
    &&& error.spec_name() == "org.freedesktop.DBus.Error.Failed"@
    &&& error.spec_description() == "the value is not of the property's type"@
    &&& error.spec_kind() == ErrorType::Bluez
}

/// Whether `result` is what reading the property `P` comes to when the host
/// stack answers `reply`: an error stays that error, a value of the
/// property's type is the result, and anything else is a type mismatch.
pub open spec fn reads_as<P: PeripheralProperty>(
    reply: Result<Option<PropertyValue>, PeripheralError>,
    result: Result<P::Type, PeripheralError>,
) -> bool {
    match reply {
        Err(error) => result == Err::<P::Type, PeripheralError>(error),
        Ok(None) => result matches Err(error) && is_type_mismatch(error),
        Ok(Some(value)) => if value.spec_value_type() == P::spec_value_type() {
            &&& result matches Ok(read) && P::carries(read, value)
            &&& forall|other: P::Type| P::carries(other, value) ==> result == Ok::<
                P::Type,
                PeripheralError,
            >(other)
        } else {
            result matches Err(error) && is_type_mismatch(error)
        },
    }
}

/// Whether `result` is what setting a property comes to when the host stack
/// answers `reply`: an error stays that error, and any other answer is a
/// success.
pub open spec fn writes_as(
    reply: Result<Option<PropertyValue>, PeripheralError>,
    result: Result<(), PeripheralError>,
) -> bool {
    match reply {
        Err(error) => result == Err::<(), PeripheralError>(error),
        Ok(_) => result == Ok::<(), PeripheralError>(()),
    }
}

/// Reading back what was set gives what was set: where the answer to the
/// call that reads `P` holds the value that the call that set `P` to
/// `value` carried, the value read is `value`.
pub proof fn lemma_read_back<P: PeripheralProperty>(
    value: P::Type,
    written: PropertyCall,
    result: Result<P::Type, PeripheralError>,
)
    requires
        is_set_call::<P>(written, value),
        reads_as::<P>(Ok(written.value), result),
    ensures
        result == Ok::<P::Type, PeripheralError>(value),
{
}

/// The call that reads the property `P`.
pub fn get_call<P: PeripheralProperty>() -> (call: PropertyCall)
    ensures
        is_get_call::<P>(call),
{
    PropertyCall {
        access: Access::Read,
        key: P::dbus_key(),
        value_type: P::value_type(),
        value: None,
    }
}

/// The call that sets the property `P` to `value`.
pub fn set_call<P: PeripheralProperty>(value: P::Type) -> (call: PropertyCall)
    ensures
        is_set_call::<P>(call, value),
{
    PropertyCall {
        access: Access::Write,
        key: P::dbus_key(),
        value_type: P::value_type(),
        value: Some(P::into_value(value)),
    }
}

/// The error for an answer that does not hold a value of the type that the
/// property has.
pub fn type_mismatch() -> (error: PeripheralError)
    ensures
        is_type_mismatch(error),
{
    PeripheralError::new(
        String::from_str("org.freedesktop.DBus.Error.Failed"),
        String::from_str("the value is not of the property's type"),
        ErrorType::Bluez,
    )
}

/// What reading the property `P` comes to, given the host stack's
/// answer: an error stays that error, a value of the property's type is the
/// result, and anything else is a type mismatch.
pub fn read_reply<P: PeripheralProperty>(
    reply: Result<Option<PropertyValue>, PeripheralError>,
) -> (result: Result<P::Type, PeripheralError>)
    ensures
        reads_as::<P>(reply, result),
{
    match reply {
        Err(error) => Err(error),
        Ok(None) => Err(type_mismatch()),
        Ok(Some(value)) => match P::from_value(value) {
            Some(read) => Ok(read),
            None => Err(type_mismatch()),
        },
    }
}

/// What setting a property comes to, given the host stack's answer: an
/// error stays that error, and any other answer is a success.
pub fn write_reply(reply: Result<Option<PropertyValue>, PeripheralError>) -> (result: Result<
    (),
    PeripheralError,
>)
    ensures
        writes_as(reply, result),
{
    match reply {
        Err(error) => Err(error),
        Ok(_) => Ok(()),
    }
}

/// Reads the property `P` of the peripheral. The peripheral is handed the
/// call that reads `P`, once, and the result is what reading `P` comes to
/// on the answer that the peripheral gave to that call.
pub fn get_property<A: Peripheral, P: PeripheralProperty>(peripheral: &A) -> (result: Result<
    P::Type,
    PeripheralError,
>)
    ensures
        exists|call: PropertyCall, reply: Result<Option<PropertyValue>, PeripheralError>|
            {
                &&& is_get_call::<P>(call)
                &&& #[trigger] call_ensures(A::call, (peripheral, call), reply)
                &&& reads_as::<P>(reply, result)
            },
{
    let call = get_call::<P>();
    let ghost handed = call;
    let reply = peripheral.call(call);
    let ghost answered = reply;
    let result = read_reply::<P>(reply);
    proof {
        assert(is_get_call::<P>(handed) && call_ensures(A::call, (peripheral, handed), answered)
            && reads_as::<P>(answered, result));
    }
    result
}

/// Sets the property `P` of the peripheral to `value`. The peripheral is
/// handed the call that sets `P` to `value`, once, and the result is what
/// setting a property comes to on the answer that the peripheral gave to
/// that call.
pub fn set_property<A: Peripheral, P: PeripheralProperty>(
    peripheral: &A,
    value: P::Type,
) -> (result: Result<(), PeripheralError>)
    ensures
        exists|call: PropertyCall, reply: Result<Option<PropertyValue>, PeripheralError>|
            {
                &&& is_set_call::<P>(call, value)
                &&& #[trigger] call_ensures(A::call, (peripheral, call), reply)
                &&& writes_as(reply, result)
            },
{
    let call = set_call::<P>(value);
    let ghost handed = call;
    let reply = peripheral.call(call);
    let ghost answered = reply;
    let result = write_reply(reply);
    proof {
        assert(is_set_call::<P>(handed, value) && call_ensures(
            A::call,
            (peripheral, handed),
            answered,
        ) && writes_as(answered, result));
    }
    result
}

} // verus!
