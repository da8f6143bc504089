//! The address of the management channel of the BlueZ Bluetooth Management
//! API.

use vstd::prelude::*;

verus! {

pub const BTPROTO_HCI: i32 = 1;

pub const HCI_CHANNEL_CONTROL: u16 = 3;

pub const HCI_DEV_NONE: u16 = 65535;

/// The number of the Bluetooth address family.
pub const AF_BLUETOOTH: u16 = 31;

/// The address of an HCI socket, field by field as `sockaddr_hci` has them.
#[derive(Clone, Copy, Debug, PartialEq, Eq, Structural)]
pub struct HciSocketAddress {
    pub hci_family: u16,
    pub hci_dev: u16,
    pub hci_channel: u16,
}

/// Reads `libc::AF_BLUETOOTH`. Trusted: on Linux, the one platform with a
/// BlueZ host stack and the one this module is for, the constant is 31.
#[verifier::external_body]
fn address_family() -> (family: u16)
    ensures
        family == AF_BLUETOOTH,
{
    libc::AF_BLUETOOTH as u16
}

impl HciSocketAddress {
    /// The address of the management channel: the Bluetooth family, no
    /// device, the control channel.
    pub fn get_mgmt_address() -> (address: Self)
        ensures
            address == (HciSocketAddress {
                hci_family: AF_BLUETOOTH,
                hci_dev: HCI_DEV_NONE,
                hci_channel: HCI_CHANNEL_CONTROL,
            }),
    {
        Self {
            hci_family: address_family(),
            hci_dev: HCI_DEV_NONE,
            hci_channel: HCI_CHANNEL_CONTROL,
        }
    }
}

} // verus!
