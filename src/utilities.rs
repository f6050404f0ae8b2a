//! Plain value types shared by the whole tree.
use vstd::prelude::*;

verus! {

/// The status code with which the stack reports a successful operation.
pub const GATT_OK: u32 = 0;

/// A Bluetooth UUID of one of the three widths the stack accepts.
///
/// Equality of UUIDs is what correlates a stack confirmation with the entity
/// that asked for it.
#[derive(Clone, Copy, Debug, PartialEq, Eq, Structural)]
pub enum BleUuid {
    Uuid16(u16),
    Uuid32(u32),
    Uuid128(u128),
}

/// Who may read or write an attribute.
#[derive(Clone, Copy, Debug, PartialEq, Eq, Structural)]
pub struct AttributePermissions {
    pub read_access: bool,
    pub write_access: bool,
}

/// The operations a characteristic advertises to clients.
#[derive(Clone, Copy, Debug, PartialEq, Eq, Structural)]
pub struct CharacteristicProperties {
    pub broadcast: bool,
    pub read: bool,
    pub write_without_response: bool,
    pub write: bool,
    pub notify: bool,
    pub indicate: bool,
}

/// Whether read requests are answered by the application or by the stack.
#[derive(Clone, Copy, Debug, PartialEq, Eq, Structural)]
pub enum AttributeControl {
    ResponseByApp,
    AutomaticResponse,
}

/// The advertising parameters that the stack starts advertising with.
#[derive(Clone, Copy, Debug, PartialEq, Eq, Structural)]
pub struct AdvertisingParameters {
    pub interval_min: u16,
    pub interval_max: u16,
    pub channel_map: u8,
}

/// The advertisement payload, as configured on the stack.
#[derive(Clone, Copy, Debug, PartialEq, Eq, Structural)]
pub struct AdvertisingData {
    pub set_scan_response: bool,
    pub include_name: bool,
    pub include_tx_power: bool,
    pub min_interval: u16,
    pub max_interval: u16,
    pub appearance: u16,
}

impl AttributePermissions {
    /// Permissions with the given read and write access.
    pub fn new(read_access: bool, write_access: bool) -> (r: Self)
        ensures
            r.read_access == read_access,
            r.write_access == write_access,
    {
        AttributePermissions { read_access, write_access }
    }
}

impl AdvertisingData {
    /// The same payload, marked as the scan-response payload.
    pub open spec fn as_scan_response(self) -> AdvertisingData {
        AdvertisingData { set_scan_response: true, ..self }
    }
}

} // verus!
