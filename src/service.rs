//! Services: named collections of characteristics.
use vstd::prelude::*;
use crate::characteristic::Characteristic;
use crate::stack::{calls_view, lemma_calls_view_push, Call, GattError, StackCall};
use crate::utilities::BleUuid;

verus! {

/// A collection of characteristics, registered under one profile.
#[derive(Clone, Debug)]
pub struct Service {
    pub uuid: BleUuid,
    pub is_primary: bool,
    /// Set once, when the stack confirms the creation of the service.
    pub handle: Option<u16>,
    pub characteristics: Vec<Characteristic>,
}

impl Service {
    /// The call that creates this service under the given interface.
    pub open spec fn create_call(self, interface: u8) -> Call {
        Call::CreateService { interface, uuid: self.uuid, is_primary: self.is_primary }
    }

    /// The calls that add each characteristic, in order, to the service with the given handle.
    pub open spec fn characteristic_calls(self, handle: u16) -> Seq<Call> {
        self.characteristics@.map_values(|c: Characteristic| c.add_call(handle))
    }

    /// Some characteristic of the service cannot be registered as it stands.
    pub open spec fn has_invalid_characteristic(self) -> bool {
        exists|j: int|
            0 <= j < self.characteristics@.len()
                && (#[trigger] self.characteristics@[j]).lacks_automatic_value()
    }

    /// `next` is this service with every characteristic placed in the service
    /// with the given handle, and nothing else changed.
    pub open spec fn children_placed(self, next: Service, handle: u16) -> bool {
        &&& next.uuid == self.uuid
        &&& next.is_primary == self.is_primary
        &&& next.handle == self.handle
        &&& next.characteristics@.len() == self.characteristics@.len()
        &&& forall|j: int|
            0 <= j < self.characteristics@.len() ==> #[trigger] next.characteristics@[j]
                == self.characteristics@[j].placed_in(handle)
    }

    /// A service with no characteristics and no handle.
    pub fn new(uuid: BleUuid, is_primary: bool) -> (r: Service)
        ensures
            r.uuid == uuid,
            r.is_primary == is_primary,
            r.handle is None,
            r.characteristics@.len() == 0,
    {
        Service { uuid, is_primary, handle: None, characteristics: Vec::new() }
    }

    /// Adds a [`Characteristic`] to the service, after those it already has.
    pub fn add_characteristic(&mut self, characteristic: Characteristic)
        ensures
            final(self).characteristics@ == old(self).characteristics@.push(characteristic),
            final(self).uuid == old(self).uuid,
            final(self).is_primary == old(self).is_primary,
            final(self).handle == old(self).handle,
    {
        self.characteristics.push(characteristic);
    }

    /// The stack call that creates this service under the given interface.
    pub fn register_self(&self, interface: u8) -> (r: StackCall)
        ensures
            r@ == self.create_call(interface),
    {
        StackCall::CreateService { interface, uuid: self.uuid, is_primary: self.is_primary }
    }

    /// The stack call that starts this service, once its handle is known.
    pub fn start(&self) -> (r: Result<StackCall, GattError>)
        ensures
            self.handle is None ==> r == Err::<StackCall, GattError>(GattError::MissingHandle),
            self.handle is Some ==> r is Ok && r->Ok_0@ == (Call::StartService {
                service_handle: self.handle->Some_0,
            }),
    {
        match self.handle {
            Some(h) => Ok(StackCall::StartService { service_handle: h }),
            None => Err(GattError::MissingHandle),
        }
    }

    /// Registers the characteristics of the service, in order, once its
    /// handle is known; stops at the first one that cannot be registered.
    pub fn register_characteristics(&mut self) -> (r: Result<Vec<StackCall>, GattError>)
        ensures
            old(self).handle is None ==> r == Err::<Vec<StackCall>, GattError>(
                GattError::MissingHandle,
            ) && *final(self) == *old(self),
            old(self).handle is Some && old(self).has_invalid_characteristic() ==> r == Err::<
                Vec<StackCall>,
                GattError,
            >(GattError::AutomaticResponseWithoutValue),
            old(self).handle is Some && !old(self).has_invalid_characteristic() ==> {
                &&& r is Ok
                &&& calls_view(r->Ok_0@) == old(self).characteristic_calls(old(self).handle->Some_0)
                &&& old(self).children_placed(*final(self), old(self).handle->Some_0)
            },
    {
        let handle = match self.handle {
            Some(h) => h,
            None => return Err(GattError::MissingHandle),
        };
        let mut calls: Vec<StackCall> = Vec::new();
        let mut i: usize = 0;
        while i < self.characteristics.len()
            invariant
                i <= self.characteristics@.len(),
                self.characteristics@.len() == old(self).characteristics@.len(),
                self.uuid == old(self).uuid,
                self.is_primary == old(self).is_primary,
                self.handle == old(self).handle,
                old(self).handle == Some(handle),
                forall|j: int|
                    0 <= j < i ==> #[trigger] self.characteristics@[j]
                        == old(self).characteristics@[j].placed_in(handle),
                forall|j: int|
                    i <= j < self.characteristics@.len() ==> #[trigger] self.characteristics@[j]
                        == old(self).characteristics@[j],
                forall|j: int|
                    0 <= j < i ==> !(#[trigger] old(self).characteristics@[j]).lacks_automatic_value(),
                calls_view(calls@) == old(self).characteristic_calls(handle).take(i as int),
            decreases self.characteristics@.len() - i,
        {
            let res = self.characteristics[i].register_self(handle);
            match res {
                Ok(call) => {
                    proof {
                        lemma_calls_view_push(calls@, call);
                    }
                    calls.push(call);
                },
                Err(e) => {
                    return Err(e);
                },
            }
            i = i + 1;
            assert(calls_view(calls@) =~= old(self).characteristic_calls(handle).take(i as int));
        }
        assert(old(self).characteristic_calls(handle).take(i as int) =~= old(
            self,
        ).characteristic_calls(handle));
        Ok(calls)
    }
}

} // verus!
