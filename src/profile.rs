//! Profiles, the lookups that correlate a confirmation with an entity of the
//! tree, and the handling of the events that concern one profile.
use vstd::prelude::*;
use crate::characteristic::Characteristic;
use crate::descriptor::Descriptor;
use crate::service::Service;
use crate::stack::{
    calls_view, lemma_calls_view_add, no_calls, lemma_calls_view_push, Call, GattError, GattsEvent,
    StackCall,
};
use crate::utilities::{BleUuid, GATT_OK};

verus! {

/// An application-level group of services, registered under one stack interface.
#[derive(Clone, Debug)]
pub struct Profile {
    pub identifier: u16,
    /// Set once, when the stack confirms the registration of the profile.
    pub interface: Option<u8>,
    pub services: Vec<Service>,
}

/// `i` is the first service with the given UUID.
pub open spec fn first_service(services: Seq<Service>, uuid: BleUuid, i: int) -> bool {
    &&& 0 <= i < services.len()
    &&& services[i].uuid == uuid
    &&& forall|i2: int| 0 <= i2 < i ==> (#[trigger] services[i2]).uuid != uuid
}

/// The position of the first service with the given UUID, where there is one.
pub open spec fn service_pos(services: Seq<Service>, uuid: BleUuid) -> int {
    choose|i: int| first_service(services, uuid, i)
}

/// No service has the given UUID.
pub open spec fn no_service(services: Seq<Service>, uuid: BleUuid) -> bool {
    forall|i: int| 0 <= i < services.len() ==> (#[trigger] services[i]).uuid != uuid
}

/// No service has the given handle.
pub open spec fn no_service_with_handle(services: Seq<Service>, handle: u16) -> bool {
    forall|i: int| 0 <= i < services.len() ==> (#[trigger] services[i]).handle != Some(handle)
}

/// `(k, j)` is the first characteristic, services in order and then
/// characteristics in order, that satisfies `p`.
pub open spec fn first_char(
    services: Seq<Service>,
    p: spec_fn(Characteristic) -> bool,
    k: int,
    j: int,
) -> bool {
    &&& 0 <= k < services.len()
    &&& 0 <= j < services[k].characteristics@.len()
    &&& p(services[k].characteristics@[j])
    &&& forall|k2: int, j2: int|
        0 <= k2 < k && 0 <= j2 < services[k2].characteristics@.len() ==> !p(
            #[trigger] services[k2].characteristics@[j2],
        )
    &&& forall|j2: int| 0 <= j2 < j ==> !p(#[trigger] services[k].characteristics@[j2])
}

/// The position of the first characteristic that satisfies `p`, where there is one.
pub open spec fn char_pos(services: Seq<Service>, p: spec_fn(Characteristic) -> bool) -> (int, int) {
    choose|kj: (int, int)| first_char(services, p, kj.0, kj.1)
}

/// No characteristic satisfies `p`.
pub open spec fn no_char(services: Seq<Service>, p: spec_fn(Characteristic) -> bool) -> bool {
    forall|k: int, j: int|
        0 <= k < services.len() && 0 <= j < services[k].characteristics@.len() ==> !p(
            #[trigger] services[k].characteristics@[j],
        )
}

/// Characteristics are matched by UUID when the stack confirms them.
pub open spec fn uuid_is(uuid: BleUuid) -> spec_fn(Characteristic) -> bool {
    |c: Characteristic| c.uuid == uuid
}

/// Characteristics are matched by attribute handle when a client reads them.
pub open spec fn handle_is(handle: u16) -> spec_fn(Characteristic) -> bool {
    |c: Characteristic| c.attribute_handle == Some(handle)
}

/// The descriptor at `(k, j, l)` of the services.
pub open spec fn descriptor_at(services: Seq<Service>, k: int, j: int, l: int) -> Descriptor {
    services[k].characteristics@[j].descriptors@[l]
}

/// `(k, j, l)` names a descriptor of the services.
pub open spec fn descriptor_in(services: Seq<Service>, k: int, j: int, l: int) -> bool {
    &&& 0 <= k < services.len()
    &&& 0 <= j < services[k].characteristics@.len()
    &&& 0 <= l < services[k].characteristics@[j].descriptors@.len()
}

/// `(k, j, l)` is the first descriptor, in the order of the tree, with the given UUID.
pub open spec fn first_descriptor(services: Seq<Service>, uuid: BleUuid, k: int, j: int, l: int) -> bool {
    &&& descriptor_in(services, k, j, l)
    &&& descriptor_at(services, k, j, l).uuid == uuid
    &&& forall|k2: int, j2: int, l2: int|
        descriptor_in(services, k2, j2, l2) && (k2 < k || (k2 == k && j2 < j) || (k2 == k && j2 == j
            && l2 < l)) ==> (#[trigger] descriptor_at(services, k2, j2, l2)).uuid != uuid
}

/// The position of the first descriptor with the given UUID, where there is one.
pub open spec fn descriptor_pos(services: Seq<Service>, uuid: BleUuid) -> (int, int, int) {
    choose|p: (int, int, int)| first_descriptor(services, uuid, p.0, p.1, p.2)
}

/// No descriptor has the given UUID.
pub open spec fn no_descriptor(services: Seq<Service>, uuid: BleUuid) -> bool {
    forall|k: int, j: int, l: int|
        descriptor_in(services, k, j, l) ==> (#[trigger] descriptor_at(services, k, j, l)).uuid
            != uuid
}

/// The answer to a read of the given characteristic.
pub open spec fn read_response(
    c: Characteristic,
    interface: u8,
    handle: u16,
    conn_id: u16,
    trans_id: u32,
) -> Call {
    Call::SendReadResponse {
        interface,
        conn_id,
        trans_id,
        status: GATT_OK,
        handle,
        value: c.value@,
    }
}

/// The calls of a step are the ones `step_calls` names.
pub proof fn lemma_step_calls(p: Profile, event: GattsEvent, interface: u8, next: Profile, calls: Seq<Call>)
    requires
        p.step(event, interface, next, calls),
    ensures
        calls == p.step_calls(event, interface),
{
}

proof fn lemma_first_service_unique(services: Seq<Service>, uuid: BleUuid, i: int)
    requires
        first_service(services, uuid, i),
    ensures
        service_pos(services, uuid) == i,
{
    let i2 = service_pos(services, uuid);
    assert(first_service(services, uuid, i2));
    if i2 < i {
        assert(services[i2].uuid != uuid);
    } else if i < i2 {
        assert(services[i].uuid != uuid);
    }
}

proof fn lemma_first_char_unique(services: Seq<Service>, p: spec_fn(Characteristic) -> bool, k: int, j: int)
    requires
        first_char(services, p, k, j),
    ensures
        char_pos(services, p) == (k, j),
{
    let w = (k, j);
    assert(first_char(services, p, w.0, w.1));
    let kj = char_pos(services, p);
    assert(first_char(services, p, kj.0, kj.1));
    if kj.0 < k {
        assert(!p(services[kj.0].characteristics@[kj.1]));
    } else if k < kj.0 {
        assert(!p(services[k].characteristics@[j]));
    } else if kj.1 < j {
        assert(!p(services[k].characteristics@[kj.1]));
    } else if j < kj.1 {
        assert(!p(services[k].characteristics@[j]));
    }
}

proof fn lemma_first_descriptor_unique(services: Seq<Service>, uuid: BleUuid, k: int, j: int, l: int)
    requires
        first_descriptor(services, uuid, k, j, l),
    ensures
        descriptor_pos(services, uuid) == (k, j, l),
{
    let w = (k, j, l);
    assert(first_descriptor(services, uuid, w.0, w.1, w.2));
    let p = descriptor_pos(services, uuid);
    assert(first_descriptor(services, uuid, p.0, p.1, p.2));
    assert(descriptor_at(services, p.0, p.1, p.2).uuid == uuid);
    assert(descriptor_at(services, k, j, l).uuid == uuid);
}

impl Service {
    /// `next` is this service with only the characteristic at `j` changed.
    pub open spec fn same_except_characteristic(self, next: Service, j: int) -> bool {
        &&& next.uuid == self.uuid
        &&& next.is_primary == self.is_primary
        &&& next.handle == self.handle
        &&& next.characteristics@.len() == self.characteristics@.len()
        &&& forall|j2: int|
            0 <= j2 < self.characteristics@.len() && j2 != j ==> #[trigger] next.characteristics@[j2]
                == self.characteristics@[j2]
    }
}

impl Characteristic {
    /// `next` is this characteristic with only the descriptor at `l` changed.
    pub open spec fn same_except_descriptor(self, next: Characteristic, l: int) -> bool {
        &&& next == (Characteristic { descriptors: next.descriptors, ..self })
        &&& next.descriptors@.len() == self.descriptors@.len()
        &&& forall|l2: int|
            0 <= l2 < self.descriptors@.len() && l2 != l ==> #[trigger] next.descriptors@[l2]
                == self.descriptors@[l2]
    }
}

impl Profile {
    /// The calls that create each service, in order, under the given interface.
    pub open spec fn service_calls(self, interface: u8) -> Seq<Call> {
        self.services@.map_values(|s: Service| s.create_call(interface))
    }

    /// `next` is this profile with only the service at `k` changed.
    pub open spec fn same_except_service(self, next: Profile, k: int) -> bool {
        &&& next.identifier == self.identifier
        &&& next.interface == self.interface
        &&& next.services@.len() == self.services@.len()
        &&& forall|k2: int|
            0 <= k2 < self.services@.len() && k2 != k ==> #[trigger] next.services@[k2]
                == self.services@[k2]
    }

    /// The error with which the profile refuses an event, if it does.
    pub open spec fn step_error(self, event: GattsEvent) -> Option<GattError> {
        let services = self.services@;
        match event {
            GattsEvent::Registered { status, .. } => {
                if status == GATT_OK && self.interface is None {
                    Some(GattError::MissingHandle)
                } else {
                    None
                }
            },
            GattsEvent::ServiceCreated { status, service_uuid, .. } => {
                if no_service(services, service_uuid) {
                    Some(GattError::UnknownService { uuid: service_uuid })
                } else {
                    let s = services[service_pos(services, service_uuid)];
                    if s.handle is Some {
                        Some(GattError::AlreadyRegistered)
                    } else if status == GATT_OK && s.has_invalid_characteristic() {
                        Some(GattError::AutomaticResponseWithoutValue)
                    } else {
                        None
                    }
                }
            },
            GattsEvent::ServiceStarted { service_handle, .. } => {
                if no_service_with_handle(services, service_handle) {
                    Some(GattError::UnknownServiceHandle { handle: service_handle })
                } else {
                    None
                }
            },
            GattsEvent::CharacteristicAdded { status, char_uuid, .. } => {
                if no_char(services, uuid_is(char_uuid)) {
                    Some(GattError::UnknownCharacteristic { uuid: char_uuid })
                } else if status != GATT_OK {
                    None
                } else {
                    let kj = char_pos(services, uuid_is(char_uuid));
                    let c = services[kj.0].characteristics@[kj.1];
                    if c.attribute_handle is Some {
                        Some(GattError::AlreadyRegistered)
                    } else if c.service_handle is None {
                        Some(GattError::MissingHandle)
                    } else {
                        None
                    }
                }
            },
            GattsEvent::DescriptorAdded { status, descr_uuid, .. } => {
                if no_descriptor(services, descr_uuid) {
                    Some(GattError::UnknownDescriptor { uuid: descr_uuid })
                } else if status != GATT_OK {
                    None
                } else {
                    let p = descriptor_pos(services, descr_uuid);
                    if descriptor_at(services, p.0, p.1, p.2).attribute_handle is Some {
                        Some(GattError::AlreadyRegistered)
                    } else {
                        None
                    }
                }
            },
            _ => None,
        }
    }

    /// The calls the profile makes on `event`, reported on `interface`, where
    /// `step_error` is `None`.
    pub open spec fn step_calls(self, event: GattsEvent, interface: u8) -> Seq<Call> {
        let services = self.services@;
        match event {
            GattsEvent::Registered { status, .. } => if status == GATT_OK {
                self.service_calls(self.interface->Some_0)
            } else {
                Seq::<Call>::empty()
            },
            GattsEvent::ServiceCreated { status, service_uuid, service_handle } => {
                let i = service_pos(services, service_uuid);
                let created = Service { handle: Some(service_handle), ..services[i] };
                if status == GATT_OK {
                    seq![Call::StartService { service_handle }] + created.characteristic_calls(
                        service_handle,
                    )
                } else {
                    Seq::<Call>::empty()
                }
            },
            GattsEvent::CharacteristicAdded { status, char_uuid, attr_handle } => {
                let kj = char_pos(services, uuid_is(char_uuid));
                let c = services[kj.0].characteristics@[kj.1];
                let added = Characteristic { attribute_handle: Some(attr_handle), ..c };
                if status == GATT_OK {
                    added.descriptor_calls(c.service_handle->Some_0, attr_handle)
                } else {
                    Seq::<Call>::empty()
                }
            },
            GattsEvent::Read { handle, conn_id, trans_id } => {
                if no_char(services, handle_is(handle)) {
                    Seq::<Call>::empty()
                } else {
                    let kj = char_pos(services, handle_is(handle));
                    seq![
                        read_response(
                            services[kj.0].characteristics@[kj.1],
                            interface,
                            handle,
                            conn_id,
                            trans_id,
                        ),
                    ]
                }
            },
            _ => Seq::<Call>::empty(),
        }
    }

    /// Handling `event`, reported on `interface`, takes the profile from
    /// `self` to `next` and makes `calls`, where `step_error` is `None`.
    pub open spec fn step(
        self,
        event: GattsEvent,
        interface: u8,
        next: Profile,
        calls: Seq<Call>,
    ) -> bool {
        let services = self.services@;
        match event {
            GattsEvent::Registered { status, .. } => {
                &&& next == self
                &&& calls == if status == GATT_OK {
                    self.service_calls(self.interface->Some_0)
                } else {
                    Seq::<Call>::empty()
                }
            },
            GattsEvent::ServiceCreated { status, service_uuid, service_handle } => {
                let i = service_pos(services, service_uuid);
                let created = Service { handle: Some(service_handle), ..services[i] };
                &&& first_service(services, service_uuid, i)
                &&& self.same_except_service(next, i)
                &&& if status == GATT_OK {
                    &&& created.children_placed(next.services@[i], service_handle)
                    &&& calls == seq![Call::StartService { service_handle }]
                        + created.characteristic_calls(service_handle)
                } else {
                    next.services@[i] == created && calls == Seq::<Call>::empty()
                }
            },
            GattsEvent::CharacteristicAdded { status, char_uuid, attr_handle } => {
                let kj = char_pos(services, uuid_is(char_uuid));
                let c = services[kj.0].characteristics@[kj.1];
                let added = Characteristic { attribute_handle: Some(attr_handle), ..c };
                &&& first_char(services, uuid_is(char_uuid), kj.0, kj.1)
                &&& if status == GATT_OK {
                    &&& self.same_except_service(next, kj.0)
                    &&& services[kj.0].same_except_characteristic(next.services@[kj.0], kj.1)
                    &&& next.services@[kj.0].characteristics@[kj.1] == added
                    &&& calls == added.descriptor_calls(c.service_handle->Some_0, attr_handle)
                } else {
                    next == self && calls == Seq::<Call>::empty()
                }
            },
            GattsEvent::DescriptorAdded { status, descr_uuid, attr_handle } => {
                let p = descriptor_pos(services, descr_uuid);
                let c = services[p.0].characteristics@[p.1];
                let d = c.descriptors@[p.2];
                &&& first_descriptor(services, descr_uuid, p.0, p.1, p.2)
                &&& calls == Seq::<Call>::empty()
                &&& if status == GATT_OK {
                    &&& self.same_except_service(next, p.0)
                    &&& services[p.0].same_except_characteristic(next.services@[p.0], p.1)
                    &&& c.same_except_descriptor(next.services@[p.0].characteristics@[p.1], p.2)
                    &&& next.services@[p.0].characteristics@[p.1].descriptors@[p.2] == (Descriptor {
                        attribute_handle: Some(attr_handle),
                        ..d
                    })
                } else {
                    next == self
                }
            },
            GattsEvent::Read { handle, conn_id, trans_id } => {
                &&& next == self
                &&& if no_char(services, handle_is(handle)) {
                    calls == Seq::<Call>::empty()
                } else {
                    let kj = char_pos(services, handle_is(handle));
                    &&& first_char(services, handle_is(handle), kj.0, kj.1)
                    &&& calls == seq![
                        read_response(
                            services[kj.0].characteristics@[kj.1],
                            interface,
                            handle,
                            conn_id,
                            trans_id,
                        ),
                    ]
                }
            },
            _ => next == self && calls == Seq::<Call>::empty(),
        }
    }

    /// A profile with the given application identifier, no services and no interface.
    pub fn new(identifier: u16) -> (r: Profile)
        ensures
            r.identifier == identifier,
            r.interface is None,
            r.services@.len() == 0,
    {
        Profile { identifier, interface: None, services: Vec::new() }
    }

    /// Adds a [`Service`] to the profile, after those it already has.
    pub fn add_service(&mut self, service: Service)
        ensures
            final(self).services@ == old(self).services@.push(service),
            final(self).identifier == old(self).identifier,
            final(self).interface == old(self).interface,
    {
        self.services.push(service);
    }

    /// The stack call that registers this profile's application.
    pub fn register_self(&self) -> (r: StackCall)
        ensures
            r@ == (Call::RegisterApplication { app_id: self.identifier }),
    {
        StackCall::RegisterApplication { app_id: self.identifier }
    }

    /// Registers the services of the profile, in order, once its interface is known.
    pub fn register_services(&self) -> (r: Result<Vec<StackCall>, GattError>)
        ensures
            self.interface is None ==> r == Err::<Vec<StackCall>, GattError>(
                GattError::MissingHandle,
            ),
            self.interface is Some ==> r is Ok && calls_view(r->Ok_0@) == self.service_calls(
                self.interface->Some_0,
            ),
    {
        let interface = match self.interface {
            Some(i) => i,
            None => return Err(GattError::MissingHandle),
        };
        let mut calls: Vec<StackCall> = Vec::new();
        let mut i: usize = 0;
        while i < self.services.len()
            invariant
                i <= self.services@.len(),
                calls_view(calls@) == self.service_calls(interface).take(i as int),
            decreases self.services@.len() - i,
        {
            let call = self.services[i].register_self(interface);
            proof {
                lemma_calls_view_push(calls@, call);
            }
            calls.push(call);
            i = i + 1;
            assert(calls_view(calls@) =~= self.service_calls(interface).take(i as int));
        }
        assert(self.service_calls(interface).take(i as int) =~= self.service_calls(interface));
        Ok(calls)
    }

    fn find_service(&self, uuid: BleUuid) -> (r: Option<usize>)
        ensures
            r is Some ==> first_service(self.services@, uuid, r->Some_0 as int),
            r is None ==> no_service(self.services@, uuid),
    {
        let mut i: usize = 0;
        while i < self.services.len()
            invariant
                i <= self.services@.len(),
                forall|i2: int| 0 <= i2 < i ==> (#[trigger] self.services@[i2]).uuid != uuid,
            decreases self.services@.len() - i,
        {
            if self.services[i].uuid == uuid {
                return Some(i);
            }
            i = i + 1;
        }
        None
    }

    fn has_service_with_handle(&self, handle: u16) -> (r: bool)
        ensures
            r == !no_service_with_handle(self.services@, handle),
    {
        let mut i: usize = 0;
        while i < self.services.len()
            invariant
                i <= self.services@.len(),
                forall|i2: int|
                    0 <= i2 < i ==> (#[trigger] self.services@[i2]).handle != Some(handle),
            decreases self.services@.len() - i,
        {
            match self.services[i].handle {
                Some(h) => {
                    if h == handle {
                        return true;
                    }
                },
                None => {},
            }
            i = i + 1;
        }
        false
    }

    fn find_characteristic(&self, uuid: BleUuid) -> (r: Option<(usize, usize)>)
        ensures
            r is Some ==> first_char(
                self.services@,
                uuid_is(uuid),
                r->Some_0.0 as int,
                r->Some_0.1 as int,
            ),
            r is None ==> no_char(self.services@, uuid_is(uuid)),
    {
        let ghost p = uuid_is(uuid);
        let mut k: usize = 0;
        while k < self.services.len()
            invariant
                k <= self.services@.len(),
                p == uuid_is(uuid),
                forall|k2: int, j2: int|
                    0 <= k2 < k && 0 <= j2 < self.services@[k2].characteristics@.len() ==> !p(
                        #[trigger] self.services@[k2].characteristics@[j2],
                    ),
            decreases self.services@.len() - k,
        {
            let mut j: usize = 0;
            while j < self.services[k].characteristics.len()
                invariant
                    k < self.services@.len(),
                    j <= self.services@[k as int].characteristics@.len(),
                    p == uuid_is(uuid),
                    forall|k2: int, j2: int|
                        0 <= k2 < k && 0 <= j2 < self.services@[k2].characteristics@.len() ==> !p(
                            #[trigger] self.services@[k2].characteristics@[j2],
                        ),
                    forall|j2: int|
                        0 <= j2 < j ==> !p(#[trigger] self.services@[k as int].characteristics@[j2]),
                decreases self.services@[k as int].characteristics@.len() - j,
            {
                if self.services[k].characteristics[j].uuid == uuid {
                    return Some((k, j));
                }
                j = j + 1;
            }
            k = k + 1;
        }
        None
    }

    fn find_characteristic_by_handle(&self, handle: u16) -> (r: Option<(usize, usize)>)
        ensures
            r is Some ==> first_char(
                self.services@,
                handle_is(handle),
                r->Some_0.0 as int,
                r->Some_0.1 as int,
            ),
            r is None ==> no_char(self.services@, handle_is(handle)),
    {
        let ghost p = handle_is(handle);
        let mut k: usize = 0;
        while k < self.services.len()
            invariant
                k <= self.services@.len(),
                p == handle_is(handle),
                forall|k2: int, j2: int|
                    0 <= k2 < k && 0 <= j2 < self.services@[k2].characteristics@.len() ==> !p(
                        #[trigger] self.services@[k2].characteristics@[j2],
                    ),
            decreases self.services@.len() - k,
        {
            let mut j: usize = 0;
            while j < self.services[k].characteristics.len()
                invariant
                    k < self.services@.len(),
                    j <= self.services@[k as int].characteristics@.len(),
                    p == handle_is(handle),
                    forall|k2: int, j2: int|
                        0 <= k2 < k && 0 <= j2 < self.services@[k2].characteristics@.len() ==> !p(
                            #[trigger] self.services@[k2].characteristics@[j2],
                        ),
                    forall|j2: int|
                        0 <= j2 < j ==> !p(#[trigger] self.services@[k as int].characteristics@[j2]),
                decreases self.services@[k as int].characteristics@.len() - j,
            {
                match self.services[k].characteristics[j].attribute_handle {
                    Some(h) => {
                        if h == handle {
                            return Some((k, j));
                        }
                    },
                    None => {},
                }
                j = j + 1;
            }
            k = k + 1;
        }
        None
    }

    fn find_descriptor(&self, uuid: BleUuid) -> (r: Option<(usize, usize, usize)>)
        ensures
            r is Some ==> first_descriptor(
                self.services@,
                uuid,
                r->Some_0.0 as int,
                r->Some_0.1 as int,
                r->Some_0.2 as int,
            ),
            r is None ==> no_descriptor(self.services@, uuid),
    {
        let ghost ss = self.services@;
        let mut k: usize = 0;
        while k < self.services.len()
            invariant
                k <= ss.len(),
                ss == self.services@,
                forall|k2: int, j2: int, l2: int|
                    descriptor_in(ss, k2, j2, l2) && k2 < k ==> (#[trigger] descriptor_at(
                        ss,
                        k2,
                        j2,
                        l2,
                    )).uuid != uuid,
            decreases ss.len() - k,
        {
            let mut j: usize = 0;
            while j < self.services[k].characteristics.len()
                invariant
                    k < ss.len(),
                    ss == self.services@,
                    j <= ss[k as int].characteristics@.len(),
                    forall|k2: int, j2: int, l2: int|
                        descriptor_in(ss, k2, j2, l2) && (k2 < k || (k2 == k && j2 < j)) ==> (
                        #[trigger] descriptor_at(ss, k2, j2, l2)).uuid != uuid,
                decreases ss[k as int].characteristics@.len() - j,
            {
                let mut l: usize = 0;
                while l < self.services[k].characteristics[j].descriptors.len()
                    invariant
                        k < ss.len(),
                        ss == self.services@,
                        j < ss[k as int].characteristics@.len(),
                        l <= ss[k as int].characteristics@[j as int].descriptors@.len(),
                        forall|k2: int, j2: int, l2: int|
                            descriptor_in(ss, k2, j2, l2) && (k2 < k || (k2 == k && j2 < j) || (k2
                                == k && j2 == j && l2 < l)) ==> (#[trigger] descriptor_at(
                                ss,
                                k2,
                                j2,
                                l2,
                            )).uuid != uuid,
                    decreases ss[k as int].characteristics@[j as int].descriptors@.len() - l,
                {
                    if self.services[k].characteristics[j].descriptors[l].uuid == uuid {
                        return Some((k, j, l));
                    }
                    l = l + 1;
                }
                j = j + 1;
            }
            k = k + 1;
        }
        None
    }


    /// Handles an event of this profile, reported on `interface`: correlates
    /// it with the entity it confirms, records the confirmed handle, and
    /// returns the calls that continue the registration or answer the read.
    ///
    /// A read of a descriptor is not answered.
    pub fn gatts_event_handler(&mut self, event: GattsEvent, interface: u8) -> (r: Result<
        Vec<StackCall>,
        GattError,
    >)
        ensures
            r is Ok ==> old(self).step_error(event) is None && old(self).step(
                event,
                interface,
                *final(self),
                calls_view(r->Ok_0@),
            ),
            r is Err ==> old(self).step_error(event) == Some(r->Err_0),
    {
        match event {
            GattsEvent::Registered { status, .. } => {
                if status != GATT_OK {
                    return Ok(no_calls());
                }
                self.register_services()
            },
            GattsEvent::ServiceCreated { status, service_uuid, service_handle } => {
                let i = match self.find_service(service_uuid) {
                    Some(i) => i,
                    None => return Err(GattError::UnknownService { uuid: service_uuid }),
                };
                proof {
                    lemma_first_service_unique(self.services@, service_uuid, i as int);
                }
                if self.services[i].handle.is_some() {
                    return Err(GattError::AlreadyRegistered);
                }
                self.services[i].handle = Some(service_handle);
                if status != GATT_OK {
                    return Ok(no_calls());
                }
                let mut rest = match self.services[i].register_characteristics() {
                    Ok(v) => v,
                    Err(e) => return Err(e),
                };
                let start = StackCall::StartService { service_handle };
                let mut calls: Vec<StackCall> = Vec::new();
                calls.push(start);
                proof {
                    lemma_calls_view_add(calls@, rest@);
                    assert(calls_view(calls@) =~= seq![Call::StartService { service_handle }]);
                }
                calls.append(&mut rest);
                Ok(calls)
            },
            GattsEvent::ServiceStarted { service_handle, .. } => {
                if self.has_service_with_handle(service_handle) {
                    Ok(no_calls())
                } else {
                    Err(GattError::UnknownServiceHandle { handle: service_handle })
                }
            },
            GattsEvent::CharacteristicAdded { status, char_uuid, attr_handle } => {
                let (k, j) = match self.find_characteristic(char_uuid) {
                    Some(kj) => kj,
                    None => return Err(GattError::UnknownCharacteristic { uuid: char_uuid }),
                };
                proof {
                    lemma_first_char_unique(self.services@, uuid_is(char_uuid), k as int, j as int);
                }
                if status != GATT_OK {
                    return Ok(no_calls());
                }
                if self.services[k].characteristics[j].attribute_handle.is_some() {
                    return Err(GattError::AlreadyRegistered);
                }
                self.services[k].characteristics[j].attribute_handle = Some(attr_handle);
                self.services[k].characteristics[j].register_descriptors()
            },
            GattsEvent::DescriptorAdded { status, descr_uuid, attr_handle } => {
                let (k, j, l) = match self.find_descriptor(descr_uuid) {
                    Some(p) => p,
                    None => return Err(GattError::UnknownDescriptor { uuid: descr_uuid }),
                };
                proof {
                    lemma_first_descriptor_unique(
                        self.services@,
                        descr_uuid,
                        k as int,
                        j as int,
                        l as int,
                    );
                }
                if status != GATT_OK {
                    return Ok(no_calls());
                }
                if self.services[k].characteristics[j].descriptors[l].attribute_handle.is_some() {
                    return Err(GattError::AlreadyRegistered);
                }
                self.services[k].characteristics[j].descriptors[l].attribute_handle = Some(
                    attr_handle,
                );
                Ok(no_calls())
            },
            GattsEvent::Read { handle, conn_id, trans_id } => {
                match self.find_characteristic_by_handle(handle) {
                    Some((k, j)) => {
                        proof {
                            lemma_first_char_unique(
                                self.services@,
                                handle_is(handle),
                                k as int,
                                j as int,
                            );
                        }
                        let value = self.services[k].characteristics[j].value.clone();
                        assert(value@ == self.services@[k as int].characteristics@[j as int].value@);
                        let response = StackCall::SendReadResponse {
                            interface,
                            conn_id,
                            trans_id,
                            status: GATT_OK,
                            handle,
                            value,
                        };
                        let mut calls: Vec<StackCall> = Vec::new();
                        calls.push(response);
                        proof {
                            assert(calls_view(calls@) =~= seq![response@]);
                        }
                        Ok(calls)
                    },
                    None => Ok(no_calls()),
                }
            },
            _ => Ok(no_calls()),
        }
    }

}

} // verus!
