//! Characteristics: data attributes of a service, each with its descriptors.
use vstd::prelude::*;
use crate::descriptor::Descriptor;
use crate::stack::{calls_view, lemma_calls_view_push, Call, GattError, StackCall};
use crate::utilities::{AttributeControl, AttributePermissions, BleUuid, CharacteristicProperties};

verus! {

/// A readable, writable or notifiable data attribute within a service.
#[derive(Clone, Debug)]
pub struct Characteristic {
    pub name: Option<String>,
    pub uuid: BleUuid,
    pub value: Vec<u8>,
    pub descriptors: Vec<Descriptor>,
    /// Set once, when the stack confirms the characteristic.
    pub attribute_handle: Option<u16>,
    /// Set when the characteristic is registered into its service.
    pub service_handle: Option<u16>,
    pub permissions: AttributePermissions,
    pub properties: CharacteristicProperties,
    pub control: AttributeControl,
}

impl Characteristic {
    /// Reads are to be answered by the stack, which has no value to answer with.
    pub open spec fn lacks_automatic_value(self) -> bool {
        self.control == AttributeControl::AutomaticResponse && self.value@.len() == 0
    }

    /// The call that adds this characteristic to the service with the given handle.
    pub open spec fn add_call(self, service_handle: u16) -> Call {
        Call::AddCharacteristic {
            service_handle,
            uuid: self.uuid,
            permissions: self.permissions,
            properties: self.properties,
            control: self.control,
            value: self.value@,
        }
    }

    /// The calls that add each descriptor, in order, under the given handles.
    pub open spec fn descriptor_calls(self, service_handle: u16, handle: u16) -> Seq<Call> {
        self.descriptors@.map_values(|d: Descriptor| d.add_call(service_handle, handle))
    }

    /// The same characteristic, registered into the service with the given handle.
    pub open spec fn placed_in(self, service_handle: u16) -> Characteristic {
        Characteristic { service_handle: Some(service_handle), ..self }
    }

    /// Creates a new [`Characteristic`], with no value, no descriptors and no handle.
    pub fn new(
        name: &str,
        uuid: BleUuid,
        permissions: AttributePermissions,
        properties: CharacteristicProperties,
    ) -> (r: Characteristic)
        ensures
            r.name is Some && r.name->Some_0@ == name@,
            r.uuid == uuid,
            r.value@.len() == 0,
            r.descriptors@.len() == 0,
            r.attribute_handle is None,
            r.service_handle is None,
            r.permissions == permissions,
            r.properties == properties,
            r.control == AttributeControl::ResponseByApp,
    {
        Characteristic {
            name: Some(name.to_string()),
            uuid,
            value: Vec::new(),
            descriptors: Vec::new(),
            attribute_handle: None,
            service_handle: None,
            permissions,
            properties,
            control: AttributeControl::ResponseByApp,
        }
    }

    /// Adds a [`Descriptor`] to the [`Characteristic`], after those it already has.
    pub fn add_descriptor(&mut self, descriptor: &mut Descriptor) -> (r: &mut Self)
        ensures
            r.descriptors@ == old(self).descriptors@.push(*old(descriptor)),
            *r == (Characteristic { descriptors: r.descriptors, ..*old(self) }),
            *final(self) == *final(r),
            *final(descriptor) == *old(descriptor),
    {
        self.descriptors.push(*descriptor);
        self
    }

    /// Sets the value that reads of the characteristic return.
    pub fn set_value(&mut self, value: Vec<u8>)
        ensures
            *final(self) == (Characteristic { value, ..*old(self) }),
    {
        self.value = value;
    }

    /// Sets who answers reads of the characteristic.
    pub fn set_control(&mut self, control: AttributeControl)
        ensures
            *final(self) == (Characteristic { control, ..*old(self) }),
    {
        self.control = control;
    }

    /// Registers the [`Characteristic`] into the service with the given handle:
    /// records that handle and returns the stack call to make.
    ///
    /// A characteristic whose reads the stack answers must have a value; one
    /// without is refused before any call is made.
    pub fn register_self(&mut self, service_handle: u16) -> (r: Result<StackCall, GattError>)
        ensures
            *final(self) == old(self).placed_in(service_handle),
            old(self).lacks_automatic_value() ==> r == Err::<StackCall, GattError>(
                GattError::AutomaticResponseWithoutValue,
            ),
            !old(self).lacks_automatic_value() ==> r is Ok && r->Ok_0@ == old(self).add_call(
                service_handle,
            ),
    {
        self.service_handle = Some(service_handle);
        if self.control == AttributeControl::AutomaticResponse && self.value.len() == 0 {
            return Err(GattError::AutomaticResponseWithoutValue);
        }
        let value = self.value.clone();
        assert(value@ == self.value@);
        Ok(
            StackCall::AddCharacteristic {
                service_handle,
                uuid: self.uuid,
                permissions: self.permissions,
                properties: self.properties,
                control: self.control,
                value,
            },
        )
    }

    /// Registers the descriptors of this [`Characteristic`], in order.
    ///
    /// Called once the stack has confirmed the characteristic: a descriptor is
    /// only ever added under a characteristic whose handle is known.
    pub fn register_descriptors(&self) -> (r: Result<Vec<StackCall>, GattError>)
        ensures
            (self.attribute_handle is None || self.service_handle is None) ==> r
                == Err::<Vec<StackCall>, GattError>(GattError::MissingHandle),
            (self.attribute_handle is Some && self.service_handle is Some) ==> r is Ok
                && calls_view(r->Ok_0@) == self.descriptor_calls(
                self.service_handle->Some_0,
                self.attribute_handle->Some_0,
            ),
    {
        let handle = match self.attribute_handle {
            Some(h) => h,
            None => return Err(GattError::MissingHandle),
        };
        let service_handle = match self.service_handle {
            Some(h) => h,
            None => return Err(GattError::MissingHandle),
        };
        let mut calls: Vec<StackCall> = Vec::new();
        let mut i: usize = 0;
        while i < self.descriptors.len()
            invariant
                i <= self.descriptors@.len(),
                calls_view(calls@) == self.descriptor_calls(service_handle, handle).take(i as int),
            decreases self.descriptors@.len() - i,
        {
            let call = self.descriptors[i].register_self(service_handle, handle);
            proof {
                lemma_calls_view_push(calls@, call);
            }
            calls.push(call);
            i = i + 1;
            assert(calls_view(calls@) =~= self.descriptor_calls(service_handle, handle).take(
                i as int,
            ));
        }
        assert(self.descriptor_calls(service_handle, handle).take(i as int) =~= self.descriptor_calls(
            service_handle,
            handle,
        ));
        Ok(calls)
    }
}

} // verus!
