//! The types of the bus and of `std::io` that pass through the library
//! unopened.

use vstd::prelude::*;

verus! {

/// `dbus::Error`, an error of the bus.
#[verifier::external_type_specification]
#[verifier::external_body]
pub struct ExDbusError(dbus::Error);

/// `dbus::arg::TypeMismatchError`, the error for a value of the wrong type.
#[verifier::external_type_specification]
#[verifier::external_body]
pub struct ExDbusTypeMismatchError(dbus::arg::TypeMismatchError);

/// `std::io::Error`.
#[verifier::external_type_specification]
#[verifier::external_body]
pub struct ExIoError(std::io::Error);

/// `std::io::ErrorKind`.
#[verifier::external_type_specification]
#[verifier::external_body]
pub struct ExIoErrorKind(std::io::ErrorKind);

} // verus!
