//! Descriptors: the leaves of the tree.
use vstd::prelude::*;
use crate::stack::{Call, StackCall};
use crate::utilities::{AttributePermissions, BleUuid};

verus! {

/// A metadata attribute attached to one characteristic.
#[derive(Clone, Copy, Debug, PartialEq, Eq, Structural)]
pub struct Descriptor {
    pub uuid: BleUuid,
    pub permissions: AttributePermissions,
    /// Set once, when the stack confirms the descriptor.
    pub attribute_handle: Option<u16>,
}

impl Descriptor {
    /// The call that adds this descriptor under the given service and characteristic.
    pub open spec fn add_call(self, service_handle: u16, characteristic_handle: u16) -> Call {
        Call::AddDescriptor {
            service_handle,
            characteristic_handle,
            uuid: self.uuid,
            permissions: self.permissions,
        }
    }

    /// A descriptor that is not registered yet.
    pub fn new(uuid: BleUuid, permissions: AttributePermissions) -> (r: Descriptor)
        ensures
            r.uuid == uuid,
            r.permissions == permissions,
            r.attribute_handle is None,
    {
        Descriptor { uuid, permissions, attribute_handle: None }
    }

    /// The stack call that registers this descriptor under a characteristic
    /// whose handle is known.
    pub fn register_self(&self, service_handle: u16, characteristic_handle: u16) -> (r: StackCall)
        ensures
            r@ == self.add_call(service_handle, characteristic_handle),
    {
        StackCall::AddDescriptor {
            service_handle,
            characteristic_handle,
            uuid: self.uuid,
            permissions: self.permissions,
        }
    }
}

} // verus!
