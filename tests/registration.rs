use bluedroid::{
    AdvertisingData, AdvertisingParameters, AttributeControl, AttributePermissions, BleUuid,
    Characteristic, CharacteristicProperties, Descriptor, GattError, GattServer, GattsEvent,
    Profile, Service, StackCall, GATT_OK,
};

const FAILED: u32 = 133;

fn properties() -> CharacteristicProperties {
    CharacteristicProperties {
        broadcast: false,
        read: true,
        write_without_response: false,
        write: true,
        notify: false,
        indicate: false,
    }
}

fn permissions() -> AttributePermissions {
    AttributePermissions::new(true, false)
}

fn parameters() -> AdvertisingParameters {
    AdvertisingParameters { interval_min: 0x20, interval_max: 0x40, channel_map: 7 }
}

fn payload() -> AdvertisingData {
    AdvertisingData {
        set_scan_response: false,
        include_name: true,
        include_tx_power: true,
        min_interval: 6,
        max_interval: 16,
        appearance: 0,
    }
}

fn server() -> GattServer {
    GattServer::new(String::from("ESP32-GATT-Server"), parameters(), payload())
}

/// A characteristic with `k` descriptors, UUIDs derived from `tag`.
fn characteristic(tag: u16, k: u16) -> Characteristic {
    let mut c = Characteristic::new("c", BleUuid::Uuid16(tag), permissions(), properties());
    for l in 0..k {
        let mut d = Descriptor::new(BleUuid::Uuid32(((tag as u32) << 8) | l as u32), permissions());
        c.add_descriptor(&mut d);
    }
    c
}

/// A profile of `n` services, each of `m` characteristics, each of `k` descriptors.
fn profile(app_id: u16, n: u16, m: u16, k: u16) -> Profile {
    let mut p = Profile::new(app_id);
    for s in 0..n {
        let mut service = Service::new(BleUuid::Uuid128(((app_id as u128) << 64) | s as u128), true);
        for c in 0..m {
            service.add_characteristic(characteristic(app_id * 1000 + s * 100 + c, k));
        }
        p.add_service(service);
    }
    p
}

fn is_registration(call: &StackCall) -> bool {
    matches!(
        call,
        StackCall::RegisterApplication { .. }
            | StackCall::CreateService { .. }
            | StackCall::AddCharacteristic { .. }
            | StackCall::AddDescriptor { .. }
    )
}

/// Plays the stack: answers each call with its confirmation, reporting
/// `status_of` for each created service, and returns every call made.
fn run_stack(
    server: &mut GattServer,
    first: Vec<StackCall>,
    status_of: &dyn Fn(BleUuid) -> u32,
) -> Vec<StackCall> {
    let mut pending: std::collections::VecDeque<StackCall> = first.into_iter().collect();
    let mut made = Vec::new();
    let mut next_handle: u16 = 40;
    let mut next_interface: u8 = 3;
    let mut interface_of_app: Vec<(u16, u8)> = Vec::new();
    let mut last_interface: u8 = 0;
    while let Some(call) = pending.pop_front() {
        made.push(call.clone());
        let (event, interface) = match call {
            StackCall::RegisterApplication { app_id } => {
                let i = next_interface;
                next_interface += 1;
                interface_of_app.push((app_id, i));
                (GattsEvent::Registered { status: GATT_OK, app_id }, i)
            }
            StackCall::CreateService { interface, uuid, .. } => {
                next_handle += 1;
                last_interface = interface;
                (
                    GattsEvent::ServiceCreated {
                        status: status_of(uuid),
                        service_uuid: uuid,
                        service_handle: next_handle,
                    },
                    interface,
                )
            }
            StackCall::StartService { service_handle } => {
                (GattsEvent::ServiceStarted { status: GATT_OK, service_handle }, last_interface)
            }
            StackCall::AddCharacteristic { uuid, .. } => {
                next_handle += 1;
                (
                    GattsEvent::CharacteristicAdded {
                        status: GATT_OK,
                        char_uuid: uuid,
                        attr_handle: next_handle,
                    },
                    last_interface,
                )
            }
            StackCall::AddDescriptor { uuid, .. } => {
                next_handle += 1;
                (
                    GattsEvent::DescriptorAdded {
                        status: GATT_OK,
                        descr_uuid: uuid,
                        attr_handle: next_handle,
                    },
                    last_interface,
                )
            }
            _ => continue,
        };
        let more = server.gatts_event_handler(event, interface).expect("event accepted");
        pending.extend(more);
    }
    made
}

fn all_registered(p: &Profile) -> bool {
    p.interface.is_some()
        && p.services.iter().all(|s| {
            s.handle.is_some()
                && s.characteristics.iter().all(|c| {
                    c.attribute_handle.is_some()
                        && c.service_handle == s.handle
                        && c.descriptors.iter().all(|d| d.attribute_handle.is_some())
                })
        })
}

#[test]
fn new_characteristic_has_no_handles() {
    let c = Characteristic::new("battery", BleUuid::Uuid16(0x2a19), permissions(), properties());
    assert_eq!(c.name, Some(String::from("battery")));
    assert_eq!(c.attribute_handle, None);
    assert_eq!(c.service_handle, None);
    assert!(c.descriptors.is_empty());
    assert!(c.value.is_empty());
    assert_eq!(c.control, AttributeControl::ResponseByApp);
    let d = Descriptor::new(BleUuid::Uuid16(0x2902), permissions());
    assert_eq!(d.attribute_handle, None);
    let s = Service::new(BleUuid::Uuid16(0x180f), true);
    assert_eq!(s.handle, None);
    let p = Profile::new(7);
    assert_eq!(p.interface, None);
    let g = server();
    assert!(!g.name_set);
}

#[test]
fn add_descriptor_keeps_order() {
    let mut c = characteristic(1, 0);
    let mut a = Descriptor::new(BleUuid::Uuid16(0x2901), permissions());
    let mut b = Descriptor::new(BleUuid::Uuid16(0x2902), permissions());
    c.add_descriptor(&mut a);
    c.add_descriptor(&mut b);
    assert_eq!(c.descriptors, vec![a, b]);
}

#[test]
fn descriptors_wait_for_the_characteristic_handle() {
    let mut c = characteristic(1, 2);
    assert_eq!(c.register_descriptors().unwrap_err(), GattError::MissingHandle);
    c.register_self(12).unwrap();
    assert_eq!(c.register_descriptors().unwrap_err(), GattError::MissingHandle);
    c.attribute_handle = Some(13);
    let calls = c.register_descriptors().unwrap();
    assert_eq!(calls.len(), 2);
    for (l, call) in calls.iter().enumerate() {
        match call {
            StackCall::AddDescriptor { service_handle, characteristic_handle, uuid, .. } => {
                assert_eq!(*service_handle, 12);
                assert_eq!(*characteristic_handle, 13);
                assert_eq!(*uuid, c.descriptors[l].uuid);
            }
            other => panic!("unexpected call {:?}", other),
        }
    }
}

#[test]
fn automatic_response_needs_a_value() {
    let mut c = characteristic(1, 0);
    c.set_control(AttributeControl::AutomaticResponse);
    assert_eq!(c.register_self(9).unwrap_err(), GattError::AutomaticResponseWithoutValue);
    c.set_value(vec![1, 2, 3]);
    match c.register_self(9).unwrap() {
        StackCall::AddCharacteristic { service_handle, value, control, .. } => {
            assert_eq!(service_handle, 9);
            assert_eq!(value, vec![1, 2, 3]);
            assert_eq!(control, AttributeControl::AutomaticResponse);
        }
        other => panic!("unexpected call {:?}", other),
    }
    assert_eq!(c.service_handle, Some(9));
}

#[test]
fn full_registration_issues_every_call_once() {
    let (n, m, k) = (2u16, 3u16, 2u16);
    let mut g = server();
    g.add_profile(profile(1, n, m, k));
    let first = g.register_profiles();
    let made = run_stack(&mut g, first, &|_| GATT_OK);
    let registrations = made.iter().filter(|c| is_registration(c)).count();
    let (n, m, k) = (n as usize, m as usize, k as usize);
    assert_eq!(registrations, 1 + n + n * m + n * m * k);
    assert!(all_registered(&g.profiles[0]));
}

#[test]
fn descriptor_calls_come_after_their_characteristic_is_confirmed() {
    let mut g = server();
    g.add_profile(profile(1, 2, 2, 2));
    let first = g.register_profiles();
    let made = run_stack(&mut g, first, &|_| GATT_OK);
    let mut confirmed: Vec<u16> = Vec::new();
    let handles: Vec<(BleUuid, u16)> = g.profiles[0]
        .services
        .iter()
        .flat_map(|s| s.characteristics.iter())
        .map(|c| (c.uuid, c.attribute_handle.unwrap()))
        .collect();
    for call in &made {
        match call {
            StackCall::AddCharacteristic { uuid, .. } => {
                let h = handles.iter().find(|(u, _)| u == uuid).unwrap().1;
                confirmed.push(h);
            }
            StackCall::AddDescriptor { characteristic_handle, .. } => {
                assert!(confirmed.contains(characteristic_handle));
            }
            _ => {}
        }
    }
}

#[test]
fn failed_service_leaves_its_subtree_unregistered() {
    let mut g = server();
    g.add_profile(profile(1, 2, 2, 2));
    let failing = g.profiles[0].services[0].uuid;
    let first = g.register_profiles();
    let made = run_stack(&mut g, first, &|u| if u == failing { FAILED } else { GATT_OK });
    let p = &g.profiles[0];
    assert!(p.services[0].handle.is_some());
    for c in &p.services[0].characteristics {
        assert_eq!(c.service_handle, None);
        assert_eq!(c.attribute_handle, None);
        assert!(c.descriptors.iter().all(|d| d.attribute_handle.is_none()));
        assert!(!made.iter().any(|call| matches!(call,
            StackCall::AddCharacteristic { uuid, .. } if *uuid == c.uuid)));
    }
    let sibling = &p.services[1];
    assert!(sibling.characteristics.iter().all(|c| c.attribute_handle.is_some()
        && c.descriptors.iter().all(|d| d.attribute_handle.is_some())));
}

#[test]
fn device_is_configured_once_for_three_profiles() {
    let mut g = server();
    for app in 1..=3 {
        g.add_profile(profile(app, 1, 1, 1));
    }
    let mut configuration = Vec::new();
    for (i, app) in (1..=3u16).enumerate() {
        let calls = g
            .gatts_event_handler(GattsEvent::Registered { status: GATT_OK, app_id: app }, 10 + i as u8)
            .unwrap();
        let names = calls.iter().filter(|c| matches!(c, StackCall::SetDeviceName { .. })).count();
        configuration.push(names);
        if i == 0 {
            match (&calls[0], &calls[1], &calls[2]) {
                (
                    StackCall::SetDeviceName { name },
                    StackCall::ConfigureAdvertisingData { data: a },
                    StackCall::ConfigureAdvertisingData { data: b },
                ) => {
                    assert_eq!(name, "ESP32-GATT-Server");
                    assert_eq!(*a, payload());
                    assert_eq!(*b, AdvertisingData { set_scan_response: true, ..payload() });
                }
                other => panic!("unexpected calls {:?}", other),
            }
            assert_eq!(calls.len(), 4);
        } else {
            assert_eq!(calls.len(), 1);
        }
    }
    assert_eq!(configuration, vec![1, 0, 0]);
    assert!(g.name_set);
}

#[test]
fn disconnect_restarts_advertising() {
    let mut g = server();
    g.add_profile(profile(1, 1, 1, 1));
    let first = g.register_profiles();
    run_stack(&mut g, first, &|_| GATT_OK);
    let before = format!("{:?}", g);
    let calls = g
        .gatts_event_handler(GattsEvent::Disconnect { remote_address: [1, 2, 3, 4, 5, 6] }, 3)
        .unwrap();
    assert_eq!(calls.len(), 1);
    match &calls[0] {
        StackCall::StartAdvertising { parameters: p } => assert_eq!(*p, parameters()),
        other => panic!("unexpected call {:?}", other),
    }
    assert_eq!(format!("{:?}", g), before);
    let calls = g
        .gatts_event_handler(GattsEvent::Connect { remote_address: [1, 2, 3, 4, 5, 6] }, 3)
        .unwrap();
    assert!(calls.is_empty());
    let calls = g.gatts_event_handler(GattsEvent::MtuChanged { mtu: 247 }, 3).unwrap();
    assert!(calls.is_empty());
}

#[test]
fn read_of_a_characteristic_is_answered_with_its_value() {
    let mut g = server();
    let mut p = profile(1, 1, 2, 1);
    p.services[0].characteristics[1].set_value(vec![0x42, 0x43]);
    g.add_profile(p);
    let first = g.register_profiles();
    run_stack(&mut g, first, &|_| GATT_OK);
    let handle = g.profiles[0].services[0].characteristics[1].attribute_handle.unwrap();
    let calls = g
        .gatts_event_handler(GattsEvent::Read { handle, conn_id: 5, trans_id: 77 }, 3)
        .unwrap();
    assert_eq!(calls.len(), 1);
    match &calls[0] {
        StackCall::SendReadResponse { interface, conn_id, trans_id, status, handle: h, value } => {
            assert_eq!((*interface, *conn_id, *trans_id, *status, *h), (3, 5, 77, GATT_OK, handle));
            assert_eq!(*value, vec![0x42, 0x43]);
        }
        other => panic!("unexpected call {:?}", other),
    }
}

#[test]
fn read_of_an_unknown_or_descriptor_handle_is_not_answered() {
    let mut g = server();
    g.add_profile(profile(1, 1, 1, 1));
    let first = g.register_profiles();
    run_stack(&mut g, first, &|_| GATT_OK);
    let calls = g
        .gatts_event_handler(GattsEvent::Read { handle: 999, conn_id: 5, trans_id: 1 }, 3)
        .unwrap();
    assert!(calls.is_empty());
    let dh = g.profiles[0].services[0].characteristics[0].descriptors[0].attribute_handle.unwrap();
    let calls = g
        .gatts_event_handler(GattsEvent::Read { handle: dh, conn_id: 5, trans_id: 2 }, 3)
        .unwrap();
    assert!(calls.is_empty());
}

#[test]
fn events_that_match_nothing_are_refused() {
    let mut g = server();
    g.add_profile(profile(1, 1, 1, 1));
    assert_eq!(
        g.gatts_event_handler(GattsEvent::Registered { status: GATT_OK, app_id: 9 }, 3).unwrap_err(),
        GattError::UnknownApplication { app_id: 9 }
    );
    g.gatts_event_handler(GattsEvent::Registered { status: GATT_OK, app_id: 1 }, 3).unwrap();
    assert_eq!(
        g.gatts_event_handler(GattsEvent::Registered { status: GATT_OK, app_id: 1 }, 4).unwrap_err(),
        GattError::AlreadyRegistered
    );
    let unknown = BleUuid::Uuid16(0xdead);
    let created = GattsEvent::ServiceCreated { status: GATT_OK, service_uuid: unknown, service_handle: 5 };
    assert_eq!(g.gatts_event_handler(created, 3).unwrap_err(), GattError::UnknownService { uuid: unknown });
    let started = GattsEvent::ServiceStarted { status: GATT_OK, service_handle: 5 };
    assert_eq!(
        g.gatts_event_handler(started, 3).unwrap_err(),
        GattError::UnknownServiceHandle { handle: 5 }
    );
    let added = GattsEvent::CharacteristicAdded { status: GATT_OK, char_uuid: unknown, attr_handle: 6 };
    assert_eq!(
        g.gatts_event_handler(added, 3).unwrap_err(),
        GattError::UnknownCharacteristic { uuid: unknown }
    );
    let added = GattsEvent::DescriptorAdded { status: GATT_OK, descr_uuid: unknown, attr_handle: 7 };
    assert_eq!(
        g.gatts_event_handler(added, 3).unwrap_err(),
        GattError::UnknownDescriptor { uuid: unknown }
    );
    // An event on an interface no profile holds reaches no profile.
    assert!(g.gatts_event_handler(created, 8).unwrap().is_empty());
    assert!(g.gatts_event_handler(GattsEvent::Other { code: 99 }, 3).unwrap().is_empty());
}

#[test]
fn a_second_confirmation_does_not_overwrite_a_handle() {
    let mut g = server();
    g.add_profile(profile(1, 1, 1, 0));
    let uuid = g.profiles[0].services[0].uuid;
    g.gatts_event_handler(GattsEvent::Registered { status: GATT_OK, app_id: 1 }, 3).unwrap();
    let created = GattsEvent::ServiceCreated { status: GATT_OK, service_uuid: uuid, service_handle: 20 };
    let calls = g.gatts_event_handler(created, 3).unwrap();
    assert!(matches!(calls[0], StackCall::StartService { service_handle: 20 }));
    assert_eq!(calls.len(), 2);
    let again = GattsEvent::ServiceCreated { status: GATT_OK, service_uuid: uuid, service_handle: 30 };
    assert_eq!(g.gatts_event_handler(again, 3).unwrap_err(), GattError::AlreadyRegistered);
    assert_eq!(g.profiles[0].services[0].handle, Some(20));
    let cu = g.profiles[0].services[0].characteristics[0].uuid;
    let added = GattsEvent::CharacteristicAdded { status: GATT_OK, char_uuid: cu, attr_handle: 21 };
    assert!(g.gatts_event_handler(added, 3).unwrap().is_empty());
    let added = GattsEvent::CharacteristicAdded { status: GATT_OK, char_uuid: cu, attr_handle: 22 };
    assert_eq!(g.gatts_event_handler(added, 3).unwrap_err(), GattError::AlreadyRegistered);
    assert_eq!(g.profiles[0].services[0].characteristics[0].attribute_handle, Some(21));
}

#[test]
fn failed_confirmations_register_nothing() {
    let mut g = server();
    g.add_profile(profile(1, 1, 1, 1));
    assert!(g
        .gatts_event_handler(GattsEvent::Registered { status: FAILED, app_id: 1 }, 3)
        .unwrap()
        .is_empty());
    assert_eq!(g.profiles[0].interface, None);
    g.gatts_event_handler(GattsEvent::Registered { status: GATT_OK, app_id: 1 }, 3).unwrap();
    let cu = g.profiles[0].services[0].characteristics[0].uuid;
    let added = GattsEvent::CharacteristicAdded { status: FAILED, char_uuid: cu, attr_handle: 21 };
    assert!(g.gatts_event_handler(added, 3).unwrap().is_empty());
    assert_eq!(g.profiles[0].services[0].characteristics[0].attribute_handle, None);
}

#[test]
fn registering_profiles_asks_for_each_application() {
    let mut g = server();
    g.add_profile(Profile::new(4));
    g.add_profile(Profile::new(2));
    let calls = g.register_profiles();
    assert_eq!(calls.len(), 2);
    assert!(matches!(calls[0], StackCall::RegisterApplication { app_id: 4 }));
    assert!(matches!(calls[1], StackCall::RegisterApplication { app_id: 2 }));
}
