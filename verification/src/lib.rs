//! A Bluetooth Low Energy GATT peripheral: the attribute tree, the builders
//! that assemble it, the addresses under which the host stack sees it, and the
//! bridge that carries remote reads and writes to the application.

pub mod bluez;
pub mod common;
pub mod error;
pub mod gatt;
pub mod peripheral;
pub mod uuid;

pub use self::error::{ErrorType, GattError, PeripheralError, TransportError};
pub use self::peripheral::Peripheral;
