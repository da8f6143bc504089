//! The GATT attribute tree and everything that is built from it.

pub mod address;
pub mod admission;
pub mod attribute;
pub mod characteristic;
pub mod descriptor;
pub mod event;
pub mod gatt_properties;
pub mod registration;
pub mod service;
pub mod tree;
