use bluster::peripheral::properties::{
    Alias, Discoverable, PeripheralProperty, Powered, PropertyValue, ValueType,
};
use bluster::peripheral::{
    get_call, get_property, read_reply, set_call, set_property, write_reply, Access, Peripheral,
    PropertyCall,
};
use bluster::{ErrorType, PeripheralError};
use std::cell::RefCell;

/// An adapter that keeps its properties in memory.
struct Bench {
    powered: RefCell<bool>,
    alias: RefCell<String>,
    calls: RefCell<Vec<(Access, &'static str)>>,
}

impl Bench {
    fn new() -> Bench {
        Bench {
            powered: RefCell::new(false),
            alias: RefCell::new("bench".to_string()),
            calls: RefCell::new(Vec::new()),
        }
    }
}

impl Peripheral for Bench {
    fn call(&self, call: PropertyCall) -> Result<Option<PropertyValue>, PeripheralError> {
        self.calls.borrow_mut().push((call.access, call.key));
        match (call.access, call.key, call.value) {
            (Access::Read, "Powered", None) => Ok(Some(PropertyValue::Boolean(*self.powered.borrow()))),
            (Access::Read, "Alias", None) => Ok(Some(PropertyValue::Text(self.alias.borrow().clone()))),
            (Access::Read, "Discoverable", None) => Ok(Some(PropertyValue::Text("yes".to_string()))),
            (Access::Write, "Powered", Some(PropertyValue::Boolean(value))) => {
                *self.powered.borrow_mut() = value;
                Ok(None)
            }
            (Access::Write, "Alias", Some(PropertyValue::Text(value))) => {
                *self.alias.borrow_mut() = value;
                Ok(None)
            }
            _ => Err(PeripheralError::new(
                "org.freedesktop.DBus.Error.InvalidArgs".to_string(),
                "no such property".to_string(),
                ErrorType::Bluez,
            )),
        }
    }
}

#[test]
fn properties_have_their_keys_and_types() {
    assert_eq!(Powered::dbus_key(), "Powered");
    assert_eq!(Discoverable::dbus_key(), "Discoverable");
    assert_eq!(Alias::dbus_key(), "Alias");
    assert_eq!(Powered::value_type(), ValueType::Boolean);
    assert_eq!(Discoverable::value_type(), ValueType::Boolean);
    assert_eq!(Alias::value_type(), ValueType::Text);
}

#[test]
fn calls_carry_key_type_and_value() {
    let call = get_call::<Alias>();
    assert_eq!(call.access, Access::Read);
    assert_eq!(call.key, "Alias");
    assert_eq!(call.value_type, ValueType::Text);
    assert!(call.value.is_none());
    let call = set_call::<Powered>(true);
    assert_eq!(call.access, Access::Write);
    assert_eq!(call.key, "Powered");
    assert_eq!(call.value_type, ValueType::Boolean);
    assert!(matches!(call.value, Some(PropertyValue::Boolean(true))));
    let call = set_call::<Alias>("kitchen".to_string());
    assert!(matches!(call.value, Some(PropertyValue::Text(ref name)) if name == "kitchen"));
}

#[test]
fn values_travel_by_type() {
    assert!(matches!(Powered::into_value(false), PropertyValue::Boolean(false)));
    assert_eq!(Powered::from_value(PropertyValue::Boolean(true)), Some(true));
    assert_eq!(Powered::from_value(PropertyValue::Text("true".to_string())), None);
    assert_eq!(Alias::from_value(PropertyValue::Text("a".to_string())), Some("a".to_string()));
    assert_eq!(Alias::from_value(PropertyValue::Boolean(true)), None);
    assert_eq!(PropertyValue::Boolean(true).value_type(), ValueType::Boolean);
    assert_eq!(PropertyValue::Text(String::new()).value_type(), ValueType::Text);
}

#[test]
fn set_then_get() {
    let bench = Bench::new();
    assert!(matches!(get_property::<Bench, Powered>(&bench), Ok(false)));
    assert!(set_property::<Bench, Powered>(&bench, true).is_ok());
    assert!(matches!(get_property::<Bench, Powered>(&bench), Ok(true)));
    assert!(set_property::<Bench, Alias>(&bench, "kitchen".to_string()).is_ok());
    assert!(matches!(get_property::<Bench, Alias>(&bench), Ok(ref name) if name == "kitchen"));
    assert_eq!(
        *bench.calls.borrow(),
        vec![
            (Access::Read, "Powered"),
            (Access::Write, "Powered"),
            (Access::Read, "Powered"),
            (Access::Write, "Alias"),
            (Access::Read, "Alias"),
        ]
    );
}

#[test]
fn value_of_the_wrong_type_is_an_error() {
    let bench = Bench::new();
    match get_property::<Bench, Discoverable>(&bench) {
        Err(error) => {
            assert_eq!(error.name(), "org.freedesktop.DBus.Error.Failed");
            assert_eq!(error.kind(), ErrorType::Bluez);
        }
        Ok(value) => panic!("a text was read as {:?}", value),
    }
}

#[test]
fn error_of_the_host_stack_is_handed_on() {
    let bench = Bench::new();
    match set_property::<Bench, Discoverable>(&bench, true) {
        Err(error) => {
            assert_eq!(error.name(), "org.freedesktop.DBus.Error.InvalidArgs");
            assert_eq!(error.description(), "no such property");
        }
        Ok(()) => panic!("an unknown property was set"),
    }
}

#[test]
fn replies_by_what_came_back() {
    assert!(matches!(read_reply::<Powered>(Ok(Some(PropertyValue::Boolean(true)))), Ok(true)));
    assert!(read_reply::<Powered>(Ok(None)).is_err());
    assert!(read_reply::<Powered>(Ok(Some(PropertyValue::Text("x".to_string())))).is_err());
    let failed = PeripheralError::new("n".to_string(), "d".to_string(), ErrorType::Bluez);
    match read_reply::<Alias>(Err(failed)) {
        Err(error) => assert_eq!(error.name(), "n"),
        Ok(_) => panic!("an error became a value"),
    }
    assert!(write_reply(Ok(None)).is_ok());
    assert!(write_reply(Ok(Some(PropertyValue::Boolean(true)))).is_ok());
    let failed = PeripheralError::new("n".to_string(), "d".to_string(), ErrorType::Bluez);
    assert!(write_reply(Err(failed)).is_err());
}
