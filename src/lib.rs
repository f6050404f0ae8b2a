//! Server-side control plane for a Bluetooth Low Energy GATT service tree.
//!
//! The tree (profile, service, characteristic, descriptor) is registered with
//! the BLE stack level by level, each level once its parent's stack-assigned
//! handle is known. The stack's confirmations come back as events, which the
//! server correlates to the entity that asked for them and answers with the
//! next calls to make. The library itself never talks to the stack: every
//! step returns the stack calls to perform, in order.

pub mod utilities;
pub mod stack;
pub mod descriptor;
pub mod characteristic;
pub mod service;
pub mod profile;
pub mod server;
pub mod laws;

pub use characteristic::Characteristic;
pub use descriptor::Descriptor;
pub use profile::Profile;
pub use server::GattServer;
pub use service::Service;
pub use stack::{Call, GattError, GattsEvent, StackCall};
pub use utilities::{
    AdvertisingData, AdvertisingParameters, AttributeControl, AttributePermissions, BleUuid,
    CharacteristicProperties, GATT_OK,
};
