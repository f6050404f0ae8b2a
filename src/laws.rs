//! Laws of the registration protocol, stated over the step relations of the
//! profile and the server and proved from them.
use vstd::prelude::*;
use crate::characteristic::Characteristic;
use crate::profile::Profile;
use crate::server::{
    dispatch_calls, dispatched, on_interface, with_interface, GattServer,
};
use crate::service::Service;
use crate::stack::{Call, GattsEvent};
use crate::utilities::GATT_OK;

verus! {

/// A handle, once set, keeps its value.
pub open spec fn handle_kept(a: Option<u16>, b: Option<u16>) -> bool {
    a is Some ==> b == a
}

/// No handle of the characteristic or its descriptors is cleared or overwritten.
pub open spec fn characteristic_handles_kept(a: Characteristic, b: Characteristic) -> bool {
    &&& handle_kept(a.attribute_handle, b.attribute_handle)
    &&& b.descriptors@.len() == a.descriptors@.len()
    &&& forall|l: int|
        0 <= l < a.descriptors@.len() ==> handle_kept(
            (#[trigger] a.descriptors@[l]).attribute_handle,
            b.descriptors@[l].attribute_handle,
        )
}

/// No handle of the service or below it is cleared or overwritten.
pub open spec fn service_handles_kept(a: Service, b: Service) -> bool {
    &&& handle_kept(a.handle, b.handle)
    &&& b.characteristics@.len() == a.characteristics@.len()
    &&& forall|j: int|
        0 <= j < a.characteristics@.len() ==> characteristic_handles_kept(
            #[trigger] a.characteristics@[j],
            b.characteristics@[j],
        )
}

/// No interface or handle of the profile or below it is cleared or overwritten.
pub open spec fn profile_handles_kept(a: Profile, b: Profile) -> bool {
    &&& (a.interface is Some ==> b.interface == a.interface)
    &&& b.services@.len() == a.services@.len()
    &&& forall|k: int|
        0 <= k < a.services@.len() ==> service_handles_kept(
            #[trigger] a.services@[k],
            b.services@[k],
        )
}

/// No interface or handle anywhere in the server is cleared or overwritten.
pub open spec fn server_handles_kept(a: GattServer, b: GattServer) -> bool {
    &&& b.profiles@.len() == a.profiles@.len()
    &&& forall|k: int|
        0 <= k < a.profiles@.len() ==> profile_handles_kept(
            #[trigger] a.profiles@[k],
            b.profiles@[k],
        )
}

/// A handle of a profile, once set, is never cleared or overwritten by an event.
pub proof fn lemma_profile_step_keeps_handles(
    p: Profile,
    event: GattsEvent,
    interface: u8,
    next: Profile,
    calls: Seq<Call>,
)
    requires
        p.step_error(event) is None,
        p.step(event, interface, next, calls),
    ensures
        profile_handles_kept(p, next),
{
    match event {
        GattsEvent::ServiceCreated { status, service_uuid, service_handle } => {
            let i = crate::profile::service_pos(p.services@, service_uuid);
            assert forall|k: int| 0 <= k < p.services@.len() implies service_handles_kept(
                #[trigger] p.services@[k],
                next.services@[k],
            ) by {
                if k == i {
                    assert forall|j: int| 0 <= j < p.services@[k].characteristics@.len() implies characteristic_handles_kept(
                        #[trigger] p.services@[k].characteristics@[j],
                        next.services@[k].characteristics@[j],
                    ) by {
                        if status == GATT_OK {
                            assert(next.services@[k].characteristics@[j]
                                == p.services@[k].characteristics@[j].placed_in(service_handle));
                        }
                    }
                }
            }
        },
        GattsEvent::CharacteristicAdded { status, char_uuid, .. } => {
            if status == GATT_OK {
                let kj = crate::profile::char_pos(p.services@, crate::profile::uuid_is(char_uuid));
                assert forall|k: int| 0 <= k < p.services@.len() implies service_handles_kept(
                    #[trigger] p.services@[k],
                    next.services@[k],
                ) by {
                    if k == kj.0 {
                        assert forall|j: int| 0 <= j < p.services@[k].characteristics@.len() implies characteristic_handles_kept(
                            #[trigger] p.services@[k].characteristics@[j],
                            next.services@[k].characteristics@[j],
                        ) by {}
                    }
                }
            }
        },
        GattsEvent::DescriptorAdded { status, descr_uuid, .. } => {
            if status == GATT_OK {
                let q = crate::profile::descriptor_pos(p.services@, descr_uuid);
                assert forall|k: int| 0 <= k < p.services@.len() implies service_handles_kept(
                    #[trigger] p.services@[k],
                    next.services@[k],
                ) by {
                    if k == q.0 {
                        assert forall|j: int| 0 <= j < p.services@[k].characteristics@.len() implies characteristic_handles_kept(
                            #[trigger] p.services@[k].characteristics@[j],
                            next.services@[k].characteristics@[j],
                        ) by {
                            if j == q.1 {
                                let c = p.services@[k].characteristics@[j];
                                let c2 = next.services@[k].characteristics@[j];
                                assert forall|l: int| 0 <= l < c.descriptors@.len() implies handle_kept(
                                    (#[trigger] c.descriptors@[l]).attribute_handle,
                                    c2.descriptors@[l].attribute_handle,
                                ) by {}
                            }
                        }
                    }
                }
            }
        },
        _ => {},
    }
}

proof fn lemma_dispatch_error_none(ps: Seq<Profile>, event: GattsEvent, interface: u8, n: int)
    requires
        0 <= n <= ps.len(),
        crate::server::dispatch_error_upto(ps, event, interface, n) is None,
    ensures
        forall|m: int|
            0 <= m < n ==> #[trigger] crate::server::profile_error(ps, event, interface, m) is None,
    decreases n,
{
    if n > 0 {
        lemma_dispatch_error_none(ps, event, interface, n - 1);
    }
}

/// Every profile that an event is dispatched to accepts it and keeps its handles.
proof fn lemma_dispatched_keeps_handles(ps: Seq<Profile>, event: GattsEvent, interface: u8, next: Seq<Profile>)
    requires
        crate::server::dispatch_error(ps, event, interface) is None,
        dispatched(ps, event, interface, next),
    ensures
        forall|k: int| 0 <= k < ps.len() ==> profile_handles_kept(#[trigger] ps[k], next[k]),
        forall|k: int|
            0 <= k < ps.len() && on_interface(#[trigger] ps[k], interface) ==> ps[k].step_error(
                event,
            ) is None,
{
    lemma_dispatch_error_none(ps, event, interface, ps.len() as int);
    assert forall|k: int| 0 <= k < ps.len() && on_interface(#[trigger] ps[k], interface) implies ps[k].step_error(
        event,
    ) is None by {
        assert(crate::server::profile_error(ps, event, interface, k) is None);
    }
    assert forall|k: int| 0 <= k < ps.len() implies profile_handles_kept(#[trigger] ps[k], next[k]) by {
        if on_interface(ps[k], interface) {
            assert(crate::server::profile_error(ps, event, interface, k) is None);
            lemma_profile_step_keeps_handles(ps[k], event, interface, next[k], ps[k].step_calls(event, interface));
        }
    }
}

/// Whatever event the server accepts, no interface or handle anywhere in the
/// tree is cleared or overwritten: each is set at most once.
pub proof fn lemma_server_step_keeps_handles(
    s: GattServer,
    event: GattsEvent,
    interface: u8,
    next: GattServer,
    calls: Seq<Call>,
)
    requires
        s.step_error(event, interface) is None,
        s.step(event, interface, next, calls),
    ensures
        server_handles_kept(s, next),
{
    let ps = s.profiles@;
    match event {
        GattsEvent::Connect { .. } => {},
        GattsEvent::Disconnect { .. } => {},
        GattsEvent::MtuChanged { .. } => {},
        GattsEvent::Registered { status, app_id } => {
            if status == GATT_OK {
                let k = crate::server::profile_pos(ps, app_id);
                let ps1 = with_interface(ps, k, interface);
                lemma_dispatched_keeps_handles(ps1, event, interface, next.profiles@);
                assert forall|m: int| 0 <= m < ps.len() implies profile_handles_kept(
                    #[trigger] ps[m],
                    next.profiles@[m],
                ) by {
                    assert(profile_handles_kept(ps1[m], next.profiles@[m]));
                    assert(ps1[m].services == ps[m].services);
                }
            } else {
                lemma_dispatched_keeps_handles(ps, event, interface, next.profiles@);
            }
        },
        _ => {
            lemma_dispatched_keeps_handles(ps, event, interface, next.profiles@);
        },
    }
}

/// A call that sets up the device rather than the tree.
pub open spec fn is_device_call(c: Call) -> bool {
    c is SetDeviceName || c is ConfigureAdvertisingData || c is StartAdvertising
}

/// The calls set the device name.
pub open spec fn names_device(calls: Seq<Call>) -> bool {
    exists|i: int| 0 <= i < calls.len() && (#[trigger] calls[i]) is SetDeviceName
}

/// A profile never makes a device-wide call.
pub proof fn lemma_profile_makes_no_device_call(p: Profile, event: GattsEvent, interface: u8, m: int)
    requires
        0 <= m < p.step_calls(event, interface).len(),
    ensures
        !is_device_call(p.step_calls(event, interface)[m]),
{
    match event {
        GattsEvent::ServiceCreated { status, service_uuid, service_handle } => {
            if status == GATT_OK && m > 0 {
                let i = crate::profile::service_pos(p.services@, service_uuid);
                assert(p.step_calls(event, interface)[m] == (Service {
                    handle: Some(service_handle),
                    ..p.services@[i]
                }).characteristic_calls(service_handle)[m - 1]);
            }
        },
        _ => {},
    }
}

/// `c` is one of the calls of a profile that the event is dispatched to.
pub open spec fn from_profile(ps: Seq<Profile>, event: GattsEvent, interface: u8, c: Call) -> bool {
    exists|k: int, m: int|
        0 <= k < ps.len() && on_interface(ps[k], interface) && 0 <= m < ps[k].step_calls(
            event,
            interface,
        ).len() && #[trigger] ps[k].step_calls(event, interface)[m] == c
}

/// Each dispatched call comes from a profile registered on the interface.
pub proof fn lemma_dispatch_calls_origin(ps: Seq<Profile>, event: GattsEvent, interface: u8, i: int)
    requires
        0 <= i < dispatch_calls(ps, event, interface).len(),
    ensures
        from_profile(ps, event, interface, dispatch_calls(ps, event, interface)[i]),
    decreases ps.len(),
{
    let front = ps.drop_last();
    let c = dispatch_calls(ps, event, interface)[i];
    let before = dispatch_calls(front, event, interface);
    if i < before.len() {
        lemma_dispatch_calls_origin(front, event, interface, i);
        let (k, m) = choose|k: int, m: int|
            0 <= k < front.len() && on_interface(front[k], interface) && 0 <= m < front[k].step_calls(
                event,
                interface,
            ).len() && #[trigger] front[k].step_calls(event, interface)[m] == before[i];
        assert(ps[k] == front[k]);
        assert(ps[k].step_calls(event, interface)[m] == c);
    } else {
        let k = ps.len() - 1;
        let m = i - before.len();
        assert(ps[k].step_calls(event, interface)[m] == c);
    }
}

/// An accepted event sets the device name exactly when it is the first
/// confirmed registration; the flag that records it is never cleared.
pub proof fn lemma_device_named_on_first_registration(
    s: GattServer,
    event: GattsEvent,
    interface: u8,
    next: GattServer,
    calls: Seq<Call>,
)
    requires
        s.step_error(event, interface) is None,
        s.step(event, interface, next, calls),
    ensures
        s.name_set ==> next.name_set,
        names_device(calls) <==> (!s.name_set && next.name_set),
        !s.name_set && next.name_set ==> calls.take(3) == s.device_configuration(),
{
    let ps = s.profiles@;
    let dps = match event {
        GattsEvent::Registered { status, app_id } => if status == GATT_OK {
            with_interface(ps, crate::server::profile_pos(ps, app_id), interface)
        } else {
            ps
        },
        _ => ps,
    };
    let n: int = match event {
        GattsEvent::Registered { status, .. } => if status == GATT_OK && !s.name_set {
            3
        } else {
            0
        },
        _ => 0,
    };
    match event {
        GattsEvent::Connect { .. } => {},
        GattsEvent::MtuChanged { .. } => {},
        GattsEvent::Disconnect { .. } => {
            if names_device(calls) {
                let i = choose|i: int| 0 <= i < calls.len() && (#[trigger] calls[i]) is SetDeviceName;
                assert(calls[i] is StartAdvertising);
            }
        },
        _ => {
            if names_device(calls) {
                let i = choose|i: int| 0 <= i < calls.len() && (#[trigger] calls[i]) is SetDeviceName;
                if i >= n {
                    assert(calls.skip(n)[i - n] == calls[i]);
                    lemma_dispatch_calls_origin(dps, event, interface, i - n);
                    let (k, m) = choose|k: int, m: int|
                        0 <= k < dps.len() && on_interface(dps[k], interface) && 0 <= m < dps[k].step_calls(
                            event,
                            interface,
                        ).len() && #[trigger] dps[k].step_calls(event, interface)[m] == calls[i];
                    lemma_profile_makes_no_device_call(dps[k], event, interface, m);
                }
            }
            if n == 3 {
                assert(calls.take(3)[0] == calls[0]);
                assert(calls[0] is SetDeviceName);
            }
        },
    }
}

proof fn lemma_name_set_stays(
    states: Seq<GattServer>,
    events: Seq<GattsEvent>,
    interfaces: Seq<u8>,
    calls: Seq<Seq<Call>>,
    from: int,
    to: int,
)
    requires
        states.len() == events.len() + 1,
        interfaces.len() == events.len(),
        calls.len() == events.len(),
        forall|t: int|
            0 <= t < events.len() ==> (#[trigger] states[t]).step_error(events[t], interfaces[t])
                is None && states[t].step(events[t], interfaces[t], states[t + 1], calls[t]),
        0 <= from <= to <= events.len(),
        states[from].name_set,
    ensures
        states[to].name_set,
    decreases to - from,
{
    if from < to {
        assert(states[from].step(events[from], interfaces[from], states[from + 1], calls[from]));
        lemma_device_named_on_first_registration(
            states[from],
            events[from],
            interfaces[from],
            states[from + 1],
            calls[from],
        );
        lemma_name_set_stays(states, events, interfaces, calls, from + 1, to);
    }
}

/// Over any run of accepted events, the device name and advertisement
/// payload are configured at most once.
pub proof fn lemma_device_configured_once(
    states: Seq<GattServer>,
    events: Seq<GattsEvent>,
    interfaces: Seq<u8>,
    calls: Seq<Seq<Call>>,
    t1: int,
    t2: int,
)
    requires
        states.len() == events.len() + 1,
        interfaces.len() == events.len(),
        calls.len() == events.len(),
        forall|t: int|
            0 <= t < events.len() ==> (#[trigger] states[t]).step_error(events[t], interfaces[t])
                is None && states[t].step(events[t], interfaces[t], states[t + 1], calls[t]),
        0 <= t1 < t2 < events.len(),
        names_device(calls[t1]),
    ensures
        !names_device(calls[t2]),
{
    assert(states[t1].step(events[t1], interfaces[t1], states[t1 + 1], calls[t1]));
    lemma_device_named_on_first_registration(states[t1], events[t1], interfaces[t1], states[t1 + 1], calls[t1]);
    lemma_name_set_stays(states, events, interfaces, calls, t1 + 1, t2);
    assert(states[t2].step(events[t2], interfaces[t2], states[t2 + 1], calls[t2]));
    lemma_device_named_on_first_registration(states[t2], events[t2], interfaces[t2], states[t2 + 1], calls[t2]);
}

/// A disconnection restarts advertising once, with the stored parameters,
/// and changes nothing.
pub proof fn lemma_disconnect_restarts_advertising(
    s: GattServer,
    remote_address: [u8; 6],
    interface: u8,
    next: GattServer,
    calls: Seq<Call>,
)
    requires
        s.step(GattsEvent::Disconnect { remote_address }, interface, next, calls),
    ensures
        next == s,
        calls.len() == 1,
        calls[0] == (Call::StartAdvertising { parameters: s.advertisement_parameters }),
{
}

/// Some characteristic with the given attribute handle has a descriptor with the given UUID.
pub open spec fn owned_by_registered(services: Seq<Service>, characteristic_handle: u16, uuid: crate::utilities::BleUuid) -> bool {
    exists|k: int, j: int, l: int|
        crate::profile::descriptor_in(services, k, j, l) && services[k].characteristics@[j].attribute_handle
            == Some(characteristic_handle) && (#[trigger] crate::profile::descriptor_at(
            services,
            k,
            j,
            l,
        )).uuid == uuid
}

/// A descriptor is only ever added under a characteristic whose attribute
/// handle the stack has already confirmed: the call names that handle, and
/// the characteristic holds it once the event is handled.
pub proof fn lemma_descriptor_follows_characteristic(
    p: Profile,
    event: GattsEvent,
    interface: u8,
    next: Profile,
    calls: Seq<Call>,
    m: int,
)
    requires
        p.step_error(event) is None,
        p.step(event, interface, next, calls),
        0 <= m < calls.len(),
        calls[m] is AddDescriptor,
    ensures
        owned_by_registered(
            next.services@,
            calls[m]->AddDescriptor_characteristic_handle,
            calls[m]->AddDescriptor_uuid,
        ),
{
    match event {
        GattsEvent::ServiceCreated { status, service_uuid, service_handle } => {
            let i = crate::profile::service_pos(p.services@, service_uuid);
            if m > 0 {
                assert(calls[m] == (Service {
                    handle: Some(service_handle),
                    ..p.services@[i]
                }).characteristic_calls(service_handle)[m - 1]);
            }
        },
        GattsEvent::CharacteristicAdded { status, char_uuid, attr_handle } => {
            let kj = crate::profile::char_pos(p.services@, crate::profile::uuid_is(char_uuid));
            let c = next.services@[kj.0].characteristics@[kj.1];
            assert(crate::profile::descriptor_in(next.services@, kj.0, kj.1, m));
            assert(crate::profile::descriptor_at(next.services@, kj.0, kj.1, m) == c.descriptors@[m]);
        },
        _ => {},
    }
}

/// Across the whole server: every descriptor call of an accepted event names
/// a characteristic handle that the stack has confirmed, held by the
/// characteristic that owns the descriptor once the event is handled.
pub proof fn lemma_server_descriptor_follows_characteristic(
    s: GattServer,
    event: GattsEvent,
    interface: u8,
    next: GattServer,
    calls: Seq<Call>,
    i: int,
)
    requires
        s.step_error(event, interface) is None,
        s.step(event, interface, next, calls),
        0 <= i < calls.len(),
        calls[i] is AddDescriptor,
    ensures
        exists|k: int|
            0 <= k < next.profiles@.len() && owned_by_registered(
                (#[trigger] next.profiles@[k]).services@,
                calls[i]->AddDescriptor_characteristic_handle,
                calls[i]->AddDescriptor_uuid,
            ),
{
    let ps = s.profiles@;
    match event {
        GattsEvent::Connect { .. } => {},
        GattsEvent::MtuChanged { .. } => {},
        GattsEvent::Disconnect { .. } => {},
        _ => {
            let dps = match event {
                GattsEvent::Registered { status, app_id } => if status == GATT_OK {
                    with_interface(ps, crate::server::profile_pos(ps, app_id), interface)
                } else {
                    ps
                },
                _ => ps,
            };
            let n: int = match event {
                GattsEvent::Registered { status, .. } => if status == GATT_OK && !s.name_set {
                    3
                } else {
                    0
                },
                _ => 0,
            };
            if i < n {
                assert(calls.take(3)[i] == calls[i]);
            }
            assert(calls.skip(n)[i - n] == calls[i]);
            lemma_dispatch_calls_origin(dps, event, interface, i - n);
            let (k, m) = choose|k: int, m: int|
                0 <= k < dps.len() && on_interface(dps[k], interface) && 0 <= m < dps[k].step_calls(
                    event,
                    interface,
                ).len() && #[trigger] dps[k].step_calls(event, interface)[m] == calls[i];
            lemma_dispatched_keeps_handles(dps, event, interface, next.profiles@);
            lemma_descriptor_follows_characteristic(
                dps[k],
                event,
                interface,
                next.profiles@[k],
                dps[k].step_calls(event, interface),
                m,
            );
        },
    }
}

/// A service whose creation the stack reports as failed gets its handle and
/// registers nothing: its characteristics stay as they were, and so does
/// every other service.
pub proof fn lemma_failed_service_registers_nothing(
    p: Profile,
    status: u32,
    service_uuid: crate::utilities::BleUuid,
    service_handle: u16,
    interface: u8,
    next: Profile,
    calls: Seq<Call>,
)
    requires
        status != GATT_OK,
        p.step_error(GattsEvent::ServiceCreated { status, service_uuid, service_handle }) is None,
        p.step(
            GattsEvent::ServiceCreated { status, service_uuid, service_handle },
            interface,
            next,
            calls,
        ),
    ensures
        calls.len() == 0,
        next.services@.len() == p.services@.len(),
        forall|k: int|
            0 <= k < p.services@.len() && !crate::profile::first_service(
                p.services@,
                service_uuid,
                k,
            ) ==> #[trigger] next.services@[k] == p.services@[k],
        forall|k: int|
            crate::profile::first_service(p.services@, service_uuid, k) ==> {
                &&& (#[trigger] next.services@[k]).handle == Some(service_handle)
                &&& next.services@[k].characteristics == p.services@[k].characteristics
                &&& next.services@[k].uuid == p.services@[k].uuid
            },
{
    let i = crate::profile::service_pos(p.services@, service_uuid);
    assert forall|k: int| crate::profile::first_service(p.services@, service_uuid, k) implies k == i by {
        if k < i {
            assert(p.services@[k].uuid != service_uuid);
        } else if i < k {
            assert(p.services@[i].uuid != service_uuid);
        }
    }
}

/// Once a service has its handle, no later event places its characteristics
/// anywhere, and one that was never placed is never confirmed: a service
/// whose creation failed keeps its subtree unregistered for good.
pub proof fn lemma_created_service_keeps_children(
    p: Profile,
    event: GattsEvent,
    interface: u8,
    next: Profile,
    calls: Seq<Call>,
    k: int,
)
    requires
        p.step_error(event) is None,
        p.step(event, interface, next, calls),
        0 <= k < p.services@.len(),
        p.services@[k].handle is Some,
    ensures
        next.services@[k].handle == p.services@[k].handle,
        next.services@[k].characteristics@.len() == p.services@[k].characteristics@.len(),
        forall|j: int|
            0 <= j < p.services@[k].characteristics@.len() ==> (#[trigger] next.services@[k].characteristics@[j]).service_handle
                == p.services@[k].characteristics@[j].service_handle,
        forall|j: int|
            0 <= j < p.services@[k].characteristics@.len()
                && p.services@[k].characteristics@[j].service_handle is None ==> (
            #[trigger] next.services@[k].characteristics@[j]).attribute_handle
                == p.services@[k].characteristics@[j].attribute_handle,
{
    match event {
        GattsEvent::CharacteristicAdded { status, char_uuid, .. } => {
            if status == GATT_OK {
                let kj = crate::profile::char_pos(p.services@, crate::profile::uuid_is(char_uuid));
                if kj.0 == k {
                    assert(p.services@[k].same_except_characteristic(next.services@[k], kj.1));
                }
            }
        },
        GattsEvent::DescriptorAdded { status, descr_uuid, .. } => {
            if status == GATT_OK {
                let q = crate::profile::descriptor_pos(p.services@, descr_uuid);
                if q.0 == k {
                    let c = p.services@[k].characteristics@[q.1];
                    assert(c.same_except_descriptor(next.services@[k].characteristics@[q.1], q.2));
                }
            }
        },
        _ => {},
    }
}

/// A read of a handle that a characteristic holds is answered once, with
/// that characteristic's current value and a success status; a read of any
/// other handle is not answered.
pub proof fn lemma_read_answered_once(
    p: Profile,
    handle: u16,
    conn_id: u16,
    trans_id: u32,
    interface: u8,
    next: Profile,
    calls: Seq<Call>,
)
    requires
        p.step(GattsEvent::Read { handle, conn_id, trans_id }, interface, next, calls),
    ensures
        next == p,
        crate::profile::no_char(p.services@, crate::profile::handle_is(handle)) ==> calls.len() == 0,
        !crate::profile::no_char(p.services@, crate::profile::handle_is(handle)) ==> {
            let kj = crate::profile::char_pos(p.services@, crate::profile::handle_is(handle));
            let c = p.services@[kj.0].characteristics@[kj.1];
            &&& c.attribute_handle == Some(handle)
            &&& calls.len() == 1
            &&& calls[0] == (Call::SendReadResponse {
                interface,
                conn_id,
                trans_id,
                status: GATT_OK,
                handle,
                value: c.value@,
            })
        },
{
}

/// How many registration calls a confirmed step makes: one per child of the
/// confirmed entity, and a start of the service before its characteristics.
pub open spec fn fans_out(p: Profile, event: GattsEvent, calls: Seq<Call>) -> bool {
    match event {
        GattsEvent::Registered { status, .. } => status == GATT_OK ==> {
            &&& calls.len() == p.services@.len()
            &&& forall|m: int| 0 <= m < calls.len() ==> (#[trigger] calls[m]) is CreateService
        },
        GattsEvent::ServiceCreated { status, service_uuid, .. } => status == GATT_OK ==> {
            let s = p.services@[crate::profile::service_pos(p.services@, service_uuid)];
            &&& calls.len() == 1 + s.characteristics@.len()
            &&& calls[0] is StartService
            &&& forall|m: int| 1 <= m < calls.len() ==> (#[trigger] calls[m]) is AddCharacteristic
        },
        GattsEvent::CharacteristicAdded { status, char_uuid, .. } => status == GATT_OK ==> {
            let kj = crate::profile::char_pos(p.services@, crate::profile::uuid_is(char_uuid));
            let c = p.services@[kj.0].characteristics@[kj.1];
            &&& calls.len() == c.descriptors@.len()
            &&& forall|m: int| 0 <= m < calls.len() ==> (#[trigger] calls[m]) is AddDescriptor
        },
        GattsEvent::DescriptorAdded { .. } => calls.len() == 0,
        _ => true,
    }
}

/// Each confirmed registration asks for exactly its children: a profile for
/// its services, a service for its characteristics (after starting it), a
/// characteristic for its descriptors, and a descriptor for nothing.
pub proof fn lemma_registration_fans_out(
    p: Profile,
    event: GattsEvent,
    interface: u8,
    next: Profile,
    calls: Seq<Call>,
)
    requires
        p.step_error(event) is None,
        p.step(event, interface, next, calls),
    ensures
        fans_out(p, event, calls),
{
    match event {
        GattsEvent::ServiceCreated { status, service_uuid, service_handle } => {
            if status == GATT_OK {
                let i = crate::profile::service_pos(p.services@, service_uuid);
                let created = Service { handle: Some(service_handle), ..p.services@[i] };
                assert forall|m: int| 1 <= m < calls.len() implies (#[trigger] calls[m]) is AddCharacteristic by {
                    assert(calls[m] == created.characteristic_calls(service_handle)[m - 1]);
                }
            }
        },
        _ => {},
    }
}

} // verus!
