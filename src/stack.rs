//! The boundary with the BLE stack: the events it delivers, the calls the
//! server asks it to make, and the errors of correlation.
use vstd::prelude::*;
use crate::utilities::{
    AdvertisingData, AdvertisingParameters, AttributeControl, AttributePermissions, BleUuid,
    CharacteristicProperties,
};

verus! {

/// An event delivered by the stack, with the interface it was reported on
/// passed beside it.
#[derive(Clone, Copy, Debug)]
pub enum GattsEvent {
    Connect { remote_address: [u8; 6] },
    Disconnect { remote_address: [u8; 6] },
    MtuChanged { mtu: u16 },
    /// A profile (application) was registered; the interface is its handle.
    Registered { status: u32, app_id: u16 },
    ServiceCreated { status: u32, service_uuid: BleUuid, service_handle: u16 },
    ServiceStarted { status: u32, service_handle: u16 },
    CharacteristicAdded { status: u32, char_uuid: BleUuid, attr_handle: u16 },
    DescriptorAdded { status: u32, descr_uuid: BleUuid, attr_handle: u16 },
    Read { handle: u16, conn_id: u16, trans_id: u32 },
    /// Any event kind that the server does not handle.
    Other { code: u32 },
}

/// A call that the server asks to be made on the stack.
#[derive(Clone, Debug)]
pub enum StackCall {
    RegisterApplication { app_id: u16 },
    CreateService { interface: u8, uuid: BleUuid, is_primary: bool },
    StartService { service_handle: u16 },
    AddCharacteristic {
        service_handle: u16,
        uuid: BleUuid,
        permissions: AttributePermissions,
        properties: CharacteristicProperties,
        control: AttributeControl,
        value: Vec<u8>,
    },
    AddDescriptor {
        service_handle: u16,
        characteristic_handle: u16,
        uuid: BleUuid,
        permissions: AttributePermissions,
    },
    StartAdvertising { parameters: AdvertisingParameters },
    SetDeviceName { name: String },
    ConfigureAdvertisingData { data: AdvertisingData },
    SendReadResponse {
        interface: u8,
        conn_id: u16,
        trans_id: u32,
        status: u32,
        handle: u16,
        value: Vec<u8>,
    },
}

/// The mathematical value of a [`StackCall`]: byte buffers and names as sequences.
pub ghost enum Call {
    RegisterApplication { app_id: u16 },
    CreateService { interface: u8, uuid: BleUuid, is_primary: bool },
    StartService { service_handle: u16 },
    AddCharacteristic {
        service_handle: u16,
        uuid: BleUuid,
        permissions: AttributePermissions,
        properties: CharacteristicProperties,
        control: AttributeControl,
        value: Seq<u8>,
    },
    AddDescriptor {
        service_handle: u16,
        characteristic_handle: u16,
        uuid: BleUuid,
        permissions: AttributePermissions,
    },
    StartAdvertising { parameters: AdvertisingParameters },
    SetDeviceName { name: Seq<char> },
    ConfigureAdvertisingData { data: AdvertisingData },
    SendReadResponse {
        interface: u8,
        conn_id: u16,
        trans_id: u32,
        status: u32,
        handle: u16,
        value: Seq<u8>,
    },
}

impl View for StackCall {
    type V = Call;

    open spec fn view(&self) -> Call {
        match *self {
            StackCall::RegisterApplication { app_id } => Call::RegisterApplication { app_id },
            StackCall::CreateService { interface, uuid, is_primary } => Call::CreateService {
                interface,
                uuid,
                is_primary,
            },
            StackCall::StartService { service_handle } => Call::StartService { service_handle },
            StackCall::AddCharacteristic {
                service_handle,
                uuid,
                permissions,
                properties,
                control,
                value,
            } => Call::AddCharacteristic {
                service_handle,
                uuid,
                permissions,
                properties,
                control,
                value: value@,
            },
            StackCall::AddDescriptor {
                service_handle,
                characteristic_handle,
                uuid,
                permissions,
            } => Call::AddDescriptor { service_handle, characteristic_handle, uuid, permissions },
            StackCall::StartAdvertising { parameters } => Call::StartAdvertising { parameters },
            StackCall::SetDeviceName { name } => Call::SetDeviceName { name: name@ },
            StackCall::ConfigureAdvertisingData { data } => Call::ConfigureAdvertisingData { data },
            StackCall::SendReadResponse { interface, conn_id, trans_id, status, handle, value } =>
                Call::SendReadResponse {
                interface,
                conn_id,
                trans_id,
                status,
                handle,
                value: value@,
            },
        }
    }
}

/// The values of a sequence of calls, in order.
pub open spec fn calls_view(v: Seq<StackCall>) -> Seq<Call> {
    v.map_values(|c: StackCall| c@)
}

/// A desynchronisation between what the server asked for and what the stack
/// reports, or a tree that cannot be registered as it stands.
///
/// The stack treats each of these as unrecoverable; they are returned here so
/// that the embedding decides how to stop.
#[derive(Clone, Copy, Debug, PartialEq, Eq, Structural)]
pub enum GattError {
    /// No profile has the application identifier that was confirmed.
    UnknownApplication { app_id: u16 },
    /// No service has the UUID that was confirmed.
    UnknownService { uuid: BleUuid },
    /// No service has the handle that was reported.
    UnknownServiceHandle { handle: u16 },
    /// No characteristic has the UUID that was confirmed.
    UnknownCharacteristic { uuid: BleUuid },
    /// No descriptor has the UUID that was confirmed.
    UnknownDescriptor { uuid: BleUuid },
    /// A second confirmation arrived for an entity whose handle is already set.
    AlreadyRegistered,
    /// A registration was asked of an entity whose parent has no handle yet.
    MissingHandle,
    /// A characteristic answered by the stack has no value to answer with.
    AutomaticResponseWithoutValue,
}

/// No calls at all.
pub(crate) fn no_calls() -> (r: Vec<StackCall>)
    ensures
        calls_view(r@) == Seq::<Call>::empty(),
{
    let r: Vec<StackCall> = Vec::new();
    assert(calls_view(r@) =~= Seq::<Call>::empty());
    r
}

/// The calls after a push, as values.
pub proof fn lemma_calls_view_push(v: Seq<StackCall>, c: StackCall)
    ensures
        calls_view(v.push(c)) == calls_view(v).push(c@),
{
    assert(calls_view(v.push(c)) =~= calls_view(v).push(c@));
}

/// The calls after an append, as values.
pub proof fn lemma_calls_view_add(v: Seq<StackCall>, w: Seq<StackCall>)
    ensures
        calls_view(v + w) == calls_view(v) + calls_view(w),
{
    assert(calls_view(v + w) =~= calls_view(v) + calls_view(w));
}

} // verus!
