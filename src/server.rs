//! The server: all profiles, the device-wide state, and the single entry
//! point through which every stack event passes.
use vstd::prelude::*;
use crate::profile::{lemma_step_calls, Profile};
use crate::stack::{calls_view, lemma_calls_view_add, no_calls, Call, GattError, GattsEvent, StackCall};
use crate::utilities::{AdvertisingData, AdvertisingParameters, GATT_OK};

verus! {

/// The GATT server: the profiles it serves and how the device presents itself.
#[derive(Clone, Debug)]
pub struct GattServer {
    pub profiles: Vec<Profile>,
    pub advertisement_parameters: AdvertisingParameters,
    pub advertisement_data: AdvertisingData,
    pub device_name: String,
    /// Set once, when the device name and advertisement payload are configured.
    pub name_set: bool,
}

/// `k` is the first profile with the given application identifier.
pub open spec fn first_profile(profiles: Seq<Profile>, app_id: u16, k: int) -> bool {
    &&& 0 <= k < profiles.len()
    &&& profiles[k].identifier == app_id
    &&& forall|k2: int| 0 <= k2 < k ==> (#[trigger] profiles[k2]).identifier != app_id
}

/// The position of the first profile with the given application identifier.
pub open spec fn profile_pos(profiles: Seq<Profile>, app_id: u16) -> int {
    choose|k: int| first_profile(profiles, app_id, k)
}

/// No profile has the given application identifier.
pub open spec fn no_profile(profiles: Seq<Profile>, app_id: u16) -> bool {
    forall|k: int| 0 <= k < profiles.len() ==> (#[trigger] profiles[k]).identifier != app_id
}

/// The profiles after the one at `k` has been given its interface.
pub open spec fn with_interface(profiles: Seq<Profile>, k: int, interface: u8) -> Seq<Profile> {
    profiles.update(k, Profile { interface: Some(interface), ..profiles[k] })
}

/// The error of the profile at `k` on the event, if it is dispatched there.
pub open spec fn profile_error(profiles: Seq<Profile>, event: GattsEvent, interface: u8, k: int) -> Option<GattError> {
    if profiles[k].interface == Some(interface) {
        profiles[k].step_error(event)
    } else {
        None
    }
}

/// The first error among the first `n` profiles that the event is dispatched to.
pub open spec fn dispatch_error_upto(
    profiles: Seq<Profile>,
    event: GattsEvent,
    interface: u8,
    n: int,
) -> Option<GattError>
    decreases n,
{
    if n <= 0 {
        None
    } else {
        let e = dispatch_error_upto(profiles, event, interface, n - 1);
        if e is Some {
            e
        } else {
            profile_error(profiles, event, interface, n - 1)
        }
    }
}

/// The first error of a profile that the event is dispatched to.
pub open spec fn dispatch_error(profiles: Seq<Profile>, event: GattsEvent, interface: u8) -> Option<GattError> {
    dispatch_error_upto(profiles, event, interface, profiles.len() as int)
}

/// Whether the event, reported on `interface`, is dispatched to the profile.
pub open spec fn on_interface(profile: Profile, interface: u8) -> bool {
    profile.interface == Some(interface)
}

/// Each profile registered on `interface` handles the event, taking
/// `profiles` to `next`; the others stay as they are.
pub open spec fn dispatched(
    profiles: Seq<Profile>,
    event: GattsEvent,
    interface: u8,
    next: Seq<Profile>,
) -> bool {
    &&& next.len() == profiles.len()
    &&& forall|k: int|
        0 <= k < profiles.len() ==> if on_interface(#[trigger] profiles[k], interface) {
            profiles[k].step(event, interface, next[k], profiles[k].step_calls(event, interface))
        } else {
            next[k] == profiles[k]
        }
}

/// The calls of the profiles that the event is dispatched to, in order.
pub open spec fn dispatch_calls(profiles: Seq<Profile>, event: GattsEvent, interface: u8) -> Seq<Call>
    decreases profiles.len(),
{
    if profiles.len() == 0 {
        Seq::<Call>::empty()
    } else {
        let last = profiles.last();
        dispatch_calls(profiles.drop_last(), event, interface) + if on_interface(last, interface) {
            last.step_calls(event, interface)
        } else {
            Seq::<Call>::empty()
        }
    }
}

proof fn lemma_dispatch_error_stays(profiles: Seq<Profile>, event: GattsEvent, interface: u8, m: int, n: int)
    requires
        0 <= m <= n,
        dispatch_error_upto(profiles, event, interface, m) is Some,
    ensures
        dispatch_error_upto(profiles, event, interface, n) == dispatch_error_upto(
            profiles,
            event,
            interface,
            m,
        ),
    decreases n - m,
{
    if m < n {
        lemma_dispatch_error_stays(profiles, event, interface, m, n - 1);
    }
}

proof fn lemma_first_profile_unique(profiles: Seq<Profile>, app_id: u16, k: int)
    requires
        first_profile(profiles, app_id, k),
    ensures
        profile_pos(profiles, app_id) == k,
{
    let k2 = profile_pos(profiles, app_id);
    assert(first_profile(profiles, app_id, k2));
    if k2 < k {
        assert(profiles[k2].identifier != app_id);
    } else if k < k2 {
        assert(profiles[k].identifier != app_id);
    }
}

impl GattServer {
    /// The calls that set the device name, then the advertisement payload,
    /// then the same payload as the scan response.
    pub open spec fn device_configuration(self) -> Seq<Call> {
        seq![
            Call::SetDeviceName { name: self.device_name@ },
            Call::ConfigureAdvertisingData { data: self.advertisement_data },
            Call::ConfigureAdvertisingData { data: self.advertisement_data.as_scan_response() },
        ]
    }

    /// `next` has the same device-wide state as this server, but for the flag.
    pub open spec fn same_device(self, next: GattServer) -> bool {
        &&& next.advertisement_parameters == self.advertisement_parameters
        &&& next.advertisement_data == self.advertisement_data
        &&& next.device_name == self.device_name
    }

    /// The error with which the server refuses an event reported on `interface`, if it does.
    pub open spec fn step_error(self, event: GattsEvent, interface: u8) -> Option<GattError> {
        let profiles = self.profiles@;
        match event {
            GattsEvent::Connect { .. } => None,
            GattsEvent::Disconnect { .. } => None,
            GattsEvent::MtuChanged { .. } => None,
            GattsEvent::Registered { status, app_id } => {
                if status != GATT_OK {
                    dispatch_error(profiles, event, interface)
                } else if no_profile(profiles, app_id) {
                    Some(GattError::UnknownApplication { app_id })
                } else if profiles[profile_pos(profiles, app_id)].interface is Some {
                    Some(GattError::AlreadyRegistered)
                } else {
                    dispatch_error(
                        with_interface(profiles, profile_pos(profiles, app_id), interface),
                        event,
                        interface,
                    )
                }
            },
            _ => dispatch_error(profiles, event, interface),
        }
    }

    /// Handling `event`, reported on `interface`, takes the server from
    /// `self` to `next` and makes `calls`, where `step_error` is `None`.
    pub open spec fn step(self, event: GattsEvent, interface: u8, next: GattServer, calls: Seq<Call>) -> bool {
        let profiles = self.profiles@;
        &&& self.same_device(next)
        &&& match event {
            GattsEvent::Connect { .. } => next == self && calls == Seq::<Call>::empty(),
            GattsEvent::MtuChanged { .. } => next == self && calls == Seq::<Call>::empty(),
            GattsEvent::Disconnect { .. } => {
                &&& next == self
                &&& calls == seq![
                    Call::StartAdvertising { parameters: self.advertisement_parameters },
                ]
            },
            GattsEvent::Registered { status, app_id } => {
                if status == GATT_OK {
                    let k = profile_pos(profiles, app_id);
                    let configuration = if self.name_set {
                        Seq::<Call>::empty()
                    } else {
                        self.device_configuration()
                    };
                    let n = configuration.len() as int;
                    &&& first_profile(profiles, app_id, k)
                    &&& next.name_set
                    &&& n <= calls.len()
                    &&& calls.take(n) == configuration
                    &&& dispatched(
                        with_interface(profiles, k, interface),
                        event,
                        interface,
                        next.profiles@,
                    )
                    &&& calls.skip(n) == dispatch_calls(
                        with_interface(profiles, k, interface),
                        event,
                        interface,
                    )
                } else {
                    &&& next.name_set == self.name_set
                    &&& dispatched(profiles, event, interface, next.profiles@)
                    &&& calls == dispatch_calls(profiles, event, interface)
                }
            },
            _ => {
                &&& next.name_set == self.name_set
                &&& dispatched(profiles, event, interface, next.profiles@)
                &&& calls == dispatch_calls(profiles, event, interface)
            },
        }
    }

    /// A server with no profiles, whose device name is not configured yet.
    pub fn new(
        device_name: String,
        advertisement_parameters: AdvertisingParameters,
        advertisement_data: AdvertisingData,
    ) -> (r: GattServer)
        ensures
            r.profiles@.len() == 0,
            r.device_name == device_name,
            r.advertisement_parameters == advertisement_parameters,
            r.advertisement_data == advertisement_data,
            !r.name_set,
    {
        GattServer {
            profiles: Vec::new(),
            advertisement_parameters,
            advertisement_data,
            device_name,
            name_set: false,
        }
    }

    /// Adds a [`Profile`] to the server, after those it already has.
    pub fn add_profile(&mut self, profile: Profile)
        ensures
            final(self).profiles@ == old(self).profiles@.push(profile),
            old(self).same_device(*final(self)),
            final(self).name_set == old(self).name_set,
    {
        self.profiles.push(profile);
    }

    /// The stack calls that register the application of each profile, in order.
    pub fn register_profiles(&self) -> (r: Vec<StackCall>)
        ensures
            calls_view(r@) == self.profiles@.map_values(
                |p: Profile| Call::RegisterApplication { app_id: p.identifier },
            ),
    {
        let mut calls: Vec<StackCall> = Vec::new();
        let mut i: usize = 0;
        while i < self.profiles.len()
            invariant
                i <= self.profiles@.len(),
                calls_view(calls@) == self.profiles@.map_values(
                    |p: Profile| Call::RegisterApplication { app_id: p.identifier },
                ).take(i as int),
            decreases self.profiles@.len() - i,
        {
            let call = self.profiles[i].register_self();
            proof {
                crate::stack::lemma_calls_view_push(calls@, call);
            }
            calls.push(call);
            i = i + 1;
            assert(calls_view(calls@) =~= self.profiles@.map_values(
                |p: Profile| Call::RegisterApplication { app_id: p.identifier },
            ).take(i as int));
        }
        assert(self.profiles@.map_values(
            |p: Profile| Call::RegisterApplication { app_id: p.identifier },
        ).take(i as int) =~= self.profiles@.map_values(
            |p: Profile| Call::RegisterApplication { app_id: p.identifier },
        ));
        calls
    }

    fn find_profile(&self, app_id: u16) -> (r: Option<usize>)
        ensures
            r is Some ==> first_profile(self.profiles@, app_id, r->Some_0 as int),
            r is None ==> no_profile(self.profiles@, app_id),
    {
        let mut i: usize = 0;
        while i < self.profiles.len()
            invariant
                i <= self.profiles@.len(),
                forall|i2: int| 0 <= i2 < i ==> (#[trigger] self.profiles@[i2]).identifier != app_id,
            decreases self.profiles@.len() - i,
        {
            if self.profiles[i].identifier == app_id {
                return Some(i);
            }
            i = i + 1;
        }
        None
    }

    /// Hands the event to every profile registered on `interface`, in order.
    fn dispatch_to_profiles(&mut self, event: GattsEvent, interface: u8) -> (r: Result<
        Vec<StackCall>,
        GattError,
    >)
        ensures
            old(self).same_device(*final(self)),
            final(self).name_set == old(self).name_set,
            r is Ok ==> {
                &&& dispatch_error(old(self).profiles@, event, interface) is None
                &&& dispatched(old(self).profiles@, event, interface, final(self).profiles@)
                &&& calls_view(r->Ok_0@) == dispatch_calls(old(self).profiles@, event, interface)
            },
            r is Err ==> dispatch_error(old(self).profiles@, event, interface) == Some(r->Err_0),
    {
        let ghost ps = self.profiles@;
        let mut calls: Vec<StackCall> = Vec::new();
        let mut k: usize = 0;
        assert(calls_view(calls@) =~= dispatch_calls(ps.take(0), event, interface));
        while k < self.profiles.len()
            invariant
                ps == old(self).profiles@,
                k <= ps.len(),
                self.profiles@.len() == ps.len(),
                old(self).same_device(*self),
                self.name_set == old(self).name_set,
                forall|j: int| k <= j < ps.len() ==> #[trigger] self.profiles@[j] == ps[j],
                forall|j: int|
                    0 <= j < k ==> if on_interface(#[trigger] ps[j], interface) {
                        ps[j].step(event, interface, self.profiles@[j], ps[j].step_calls(event, interface))
                    } else {
                        self.profiles@[j] == ps[j]
                    },
                calls_view(calls@) == dispatch_calls(ps.take(k as int), event, interface),
                dispatch_error_upto(ps, event, interface, k as int) is None,
            decreases ps.len() - k,
        {
            let ghost before_calls = calls_view(calls@);
            assert(ps.take(k + 1).drop_last() =~= ps.take(k as int));
            assert(ps.take(k + 1).last() == ps[k as int]);
            let on = match self.profiles[k].interface {
                Some(i) => i == interface,
                None => false,
            };
            if on {
                match self.profiles[k].gatts_event_handler(event, interface) {
                    Ok(mut more) => {
                        proof {
                            lemma_step_calls(ps[k as int], event, interface, self.profiles@[k as int], calls_view(more@));
                            lemma_calls_view_add(calls@, more@);
                        }
                        calls.append(&mut more);
                    },
                    Err(e) => {
                        proof {
                            lemma_dispatch_error_stays(ps, event, interface, k + 1, ps.len() as int);
                        }
                        return Err(e);
                    },
                }
            } else {
                assert(calls_view(calls@) =~= before_calls + Seq::<Call>::empty());
            }
            k = k + 1;
        }
        assert(ps.take(k as int) =~= ps);
        Ok(calls)
    }

    /// The entry point of every stack event, reported on `interface`.
    ///
    /// Connection and MTU events only concern the link; a disconnection
    /// restarts advertising. A confirmed profile registration records the
    /// profile's interface and, the first time only, configures the device
    /// name and advertisement payload. Every other event, and a registration
    /// after that, goes to each profile registered on `interface`.
    ///
    /// An event that does not correlate with the tree is returned as an
    /// error, with the tree left as far as it got.
    pub fn gatts_event_handler(&mut self, event: GattsEvent, interface: u8) -> (r: Result<
        Vec<StackCall>,
        GattError,
    >)
        ensures
            r is Ok ==> old(self).step_error(event, interface) is None && old(self).step(
                event,
                interface,
                *final(self),
                calls_view(r->Ok_0@),
            ),
            r is Err ==> old(self).step_error(event, interface) == Some(r->Err_0),
    {
        match event {
            GattsEvent::Connect { .. } => Ok(no_calls()),
            GattsEvent::MtuChanged { .. } => Ok(no_calls()),
            GattsEvent::Disconnect { .. } => {
                let mut calls: Vec<StackCall> = Vec::new();
                calls.push(StackCall::StartAdvertising { parameters: self.advertisement_parameters });
                assert(calls_view(calls@) =~= seq![
                    Call::StartAdvertising { parameters: self.advertisement_parameters },
                ]);
                Ok(calls)
            },
            GattsEvent::Registered { status, app_id } => {
                if status != GATT_OK {
                    return self.dispatch_to_profiles(event, interface);
                }
                let k = match self.find_profile(app_id) {
                    Some(k) => k,
                    None => return Err(GattError::UnknownApplication { app_id }),
                };
                proof {
                    lemma_first_profile_unique(self.profiles@, app_id, k as int);
                }
                if self.profiles[k].interface.is_some() {
                    return Err(GattError::AlreadyRegistered);
                }
                self.profiles[k].interface = Some(interface);
                assert(self.profiles@ =~= with_interface(old(self).profiles@, k as int, interface));
                let mut calls: Vec<StackCall> = Vec::new();
                if !self.name_set {
                    calls.push(StackCall::SetDeviceName { name: self.device_name.clone() });
                    calls.push(StackCall::ConfigureAdvertisingData { data: self.advertisement_data });
                    calls.push(
                        StackCall::ConfigureAdvertisingData {
                            data: AdvertisingData {
                                set_scan_response: true,
                                ..self.advertisement_data
                            },
                        },
                    );
                    self.name_set = true;
                    assert(calls_view(calls@) =~= old(self).device_configuration());
                } else {
                    assert(calls_view(calls@) =~= Seq::<Call>::empty());
                }
                let ghost configuration = calls_view(calls@);
                let mut rest = match self.dispatch_to_profiles(event, interface) {
                    Ok(v) => v,
                    Err(e) => return Err(e),
                };
                proof {
                    lemma_calls_view_add(calls@, rest@);
                }
                let ghost dispatched_calls = calls_view(rest@);
                calls.append(&mut rest);
                assert(calls_view(calls@).take(configuration.len() as int) =~= configuration);
                assert(calls_view(calls@).skip(configuration.len() as int) =~= dispatched_calls);
                Ok(calls)
            },
            _ => self.dispatch_to_profiles(event, interface),
        }
    }

}

} // verus!
