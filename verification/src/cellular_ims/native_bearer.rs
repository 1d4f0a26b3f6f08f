//! Native IMS bearer strategy: which family to attempt, in what order, and how a
//! result of the device becomes the bearer that the rest of the stack uses.
//!
//! The session itself is the device driver's. This module walks the plan's
//! attempts, asks again for the family that the network forces, maps failures, and
//! decides when an interface may cross into the worker's namespace and when it is
//! taken back.

use crate::access::volte::pcscf::{ImsIpSettings, Settings};
use crate::bearer::{build_marked_path, has_marker, Bearer, BearerConnection, BearerRequest};
use crate::cellular_ims::errors::{code, CellularImsError};
use crate::net::IpAddr;
use crate::plan::{numbers_of, ImsConnectionPlan, IpType, Plan};
use crate::sdp::copy_str;
use crate::{access, bearer, plan, text};
use vstd::prelude::*;

verus! {

/// Marks the path of a bearer of a device-native provider.
pub const NATIVE_BEARER_PATH_PREFIX: &'static str = "native-bearer:";

pub fn is_native_bearer(path: &str) -> (r: bool)
    ensures
        r == text::starts(path@, NATIVE_BEARER_PATH_PREFIX@),
{
    has_marker(NATIVE_BEARER_PATH_PREFIX, path)
}

pub fn native_bearer_path(device_path: &str, handle: &str) -> (r: String)
    ensures
        r@ == bearer::marked_path(NATIVE_BEARER_PATH_PREFIX@, device_path@, handle@),
{
    build_marked_path(NATIVE_BEARER_PATH_PREFIX, device_path, handle)
}

/// The families to ask the provider for, in the plan's order.
pub fn requested_families_for(plan: &ImsConnectionPlan) -> (r: Vec<u8>)
    ensures
        r@ == plan::family_numbers(plan@),
{
    numbers_of(plan)
}

/// The PDP context that the settings are read on: the profile of the request where
/// it is a context number, or else the configured one.
pub open spec fn context_cid(profile_id: Option<u32>, configured: u8) -> u8 {
    match profile_id {
        Some(profile) => if 1 <= profile <= 16 {
            profile as u8
        } else {
            configured
        },
        None => configured,
    }
}

pub fn ims_context_cid(request: &BearerRequest, configured: u8) -> (r: u8)
    ensures
        r == context_cid(request.profile_id, configured),
{
    match request.profile_id {
        Some(profile) => {
            if 1 <= profile && profile <= 16 {
                profile as u8
            } else {
                configured
            }
        },
        None => configured,
    }
}

// ------------------------------------------------------------------------ errors

#[derive(Debug, Clone, Copy, PartialEq, Eq, Structural)]
pub enum ImsBearerErrorKind {
    BasebandUnresolved,
    EndpointUnavailable,
    SessionStartFailed,
    NetdevUnresolved,
    SessionLost,
    SettingsMissing,
    PcscfUnavailable,
}

/// What the device makes of a failure.
#[derive(Debug, Clone, Copy, PartialEq, Eq, Structural)]
pub enum ImsBearerFailureHint {
    Nothing,
    BasebandWedged,
    NetworkForcedIpv4,
    NetworkForcedIpv6,
}

#[derive(Debug)]
pub struct ImsBearerError {
    pub kind: ImsBearerErrorKind,
    pub hint: ImsBearerFailureHint,
    pub detail: String,
}

/// An error as a value.
pub struct ErrorValue {
    pub code: Seq<char>,
    pub detail: Option<Seq<char>>,
}

pub open spec fn error_value(e: CellularImsError) -> ErrorValue {
    ErrorValue { code: e.code_spec(), detail: e.detail_spec() }
}

pub open spec fn bearer_error_code(kind: ImsBearerErrorKind, hint: ImsBearerFailureHint) -> Seq<char> {
    if hint == ImsBearerFailureHint::BasebandWedged {
        code::RUNTIME_IMS_BASEBAND_WEDGED@
    } else {
        match kind {
            ImsBearerErrorKind::BasebandUnresolved => code::IP_SETTINGS_MISSING@,
            ImsBearerErrorKind::EndpointUnavailable => code::RUNTIME_IMS_ENDPOINT_UNAVAILABLE@,
            ImsBearerErrorKind::SessionStartFailed => code::RUNTIME_IMS_BEARER_START_FAILED@,
            ImsBearerErrorKind::NetdevUnresolved => code::RUNTIME_IMS_BEARER_START_FAILED@,
            ImsBearerErrorKind::SessionLost => code::BEARER_SESSION_LOST@,
            ImsBearerErrorKind::SettingsMissing => code::IP_SETTINGS_MISSING@,
            ImsBearerErrorKind::PcscfUnavailable => code::RUNTIME_ALL_PCSCF_FAILED@,
        }
    }
}

pub open spec fn mapped_error(e: ImsBearerError) -> ErrorValue {
    ErrorValue { code: bearer_error_code(e.kind, e.hint), detail: Some(e.detail@) }
}

/// The error of the stack for an error of the device. The detail is kept.
pub fn cellular_ims_error_from_ims_bearer(error: ImsBearerError) -> (r: CellularImsError)
    ensures
        error_value(r) == mapped_error(error),
{
    if error.hint == ImsBearerFailureHint::BasebandWedged {
        return CellularImsError::with_detail(code::RUNTIME_IMS_BASEBAND_WEDGED, error.detail);
    }
    let error_code: &'static str = match error.kind {
        ImsBearerErrorKind::BasebandUnresolved => code::IP_SETTINGS_MISSING,
        ImsBearerErrorKind::EndpointUnavailable => code::RUNTIME_IMS_ENDPOINT_UNAVAILABLE,
        ImsBearerErrorKind::SessionStartFailed => code::RUNTIME_IMS_BEARER_START_FAILED,
        ImsBearerErrorKind::NetdevUnresolved => code::RUNTIME_IMS_BEARER_START_FAILED,
        ImsBearerErrorKind::SessionLost => code::BEARER_SESSION_LOST,
        ImsBearerErrorKind::SettingsMissing => code::IP_SETTINGS_MISSING,
        ImsBearerErrorKind::PcscfUnavailable => code::RUNTIME_ALL_PCSCF_FAILED,
    };
    CellularImsError::with_detail(error_code, error.detail)
}

pub open spec fn hint_family(hint: ImsBearerFailureHint) -> Option<u8> {
    match hint {
        ImsBearerFailureHint::NetworkForcedIpv4 => Some(4),
        ImsBearerFailureHint::NetworkForcedIpv6 => Some(6),
        _ => None,
    }
}

pub fn forced_native_family(hint: ImsBearerFailureHint) -> (r: Option<u8>)
    ensures
        r == hint_family(hint),
{
    match hint {
        ImsBearerFailureHint::NetworkForcedIpv4 => Some(4),
        ImsBearerFailureHint::NetworkForcedIpv6 => Some(6),
        _ => None,
    }
}

/// A profile that is pinned fixes its family: asking again with the same pin for
/// the family that the network forces would repeat the same attempt.
pub open spec fn pin_conflict(profile_id: Option<u32>, forced: u8) -> Option<ErrorValue> {
    match profile_id {
        Some(profile) => Some(
            ErrorValue {
                code: code::RUNTIME_IMS_FAMILY_UNSUPPORTED@,
                detail: Some(
                    "profile_pin_family_conflict:profile_id="@ + text::decimal(profile as nat)
                        + ":forced_family="@ + text::decimal(forced as nat),
                ),
            },
        ),
        None => None,
    }
}

fn pin_error(profile_id: Option<u32>, forced: u8) -> (r: Option<CellularImsError>)
    ensures
        match r {
            Some(e) => pin_conflict(profile_id, forced) == Some(error_value(e)),
            None => pin_conflict(profile_id, forced) is None,
        },
{
    match profile_id {
        Some(profile) => {
            let mut out = text::chars_of("profile_pin_family_conflict:profile_id=");
            text::push_decimal(&mut out, profile as u64);
            text::push_str(&mut out, ":forced_family=");
            text::push_decimal(&mut out, forced as u64);
            Some(
                CellularImsError::with_detail(
                    code::RUNTIME_IMS_FAMILY_UNSUPPORTED,
                    text::string_of(out.as_slice()),
                ),
            )
        },
        None => None,
    }
}

pub fn pinned_profile_forced_family_error(request: &BearerRequest, forced: u8) -> (r: Option<
    CellularImsError,
>)
    ensures
        match r {
            Some(e) => pin_conflict(request.profile_id, forced) == Some(error_value(e)),
            None => pin_conflict(request.profile_id, forced) is None,
        },
{
    pin_error(request.profile_id, forced)
}

// ------------------------------------------------------------------ establishing

/// The families of one attempt, as the provider is asked for them.
#[derive(Debug, Clone, Copy, PartialEq, Eq, Structural)]
pub enum AttemptFamilies {
    One(u8),
    Two(u8, u8),
}

/// The attempts of a plan. One for both families needs a plan that admits both.
pub open spec fn attempts_upto(p: Plan, n: int) -> Seq<AttemptFamilies>
    decreases n,
{
    if n <= 0 {
        seq![]
    } else {
        let before = attempts_upto(p, n - 1);
        let families = plan::family_numbers(p);
        match p.attempts[n - 1] {
            IpType::Ipv4v6 => if families.len() < 2 {
                before
            } else {
                before.push(AttemptFamilies::Two(families[0], families[1]))
            },
            IpType::Ipv4 => before.push(AttemptFamilies::One(4)),
            IpType::Ipv6 => before.push(AttemptFamilies::One(6)),
        }
    }
}

pub open spec fn planned_attempts(p: Plan) -> Seq<AttemptFamilies> {
    attempts_upto(p, p.attempts.len() as int)
}

/// The attempts that are left.
#[derive(Debug)]
pub struct BearerSetup {
    pub attempts: Vec<AttemptFamilies>,
    pub next: usize,
    /// Is the one attempt that is left for a family that the network forces?
    pub forced: bool,
    pub profile_id: Option<u32>,
    pub last_error: Option<CellularImsError>,
}

#[verifier::ext_equal]
pub struct Setup {
    pub attempts: Seq<AttemptFamilies>,
    pub next: int,
    pub forced: bool,
    pub profile_id: Option<u32>,
    pub last_error: Option<ErrorValue>,
}

impl View for BearerSetup {
    type V = Setup;

    open spec fn view(&self) -> Setup {
        Setup {
            attempts: self.attempts@,
            next: self.next as int,
            forced: self.forced,
            profile_id: self.profile_id,
            last_error: match self.last_error {
                Some(e) => Some(error_value(e)),
                None => None,
            },
        }
    }
}

pub open spec fn setup_wf(s: Setup) -> bool {
    0 <= s.next <= s.attempts.len()
}

pub open spec fn setup_start(p: Plan, profile_id: Option<u32>) -> Setup {
    Setup {
        attempts: planned_attempts(p),
        next: 0,
        forced: false,
        profile_id,
        last_error: None,
    }
}

pub open spec fn setup_attempt(s: Setup) -> Option<AttemptFamilies> {
    if s.next < s.attempts.len() {
        Some(s.attempts[s.next])
    } else {
        None
    }
}

/// A failure of a planned attempt: a wedged modem ends it all; a family that the
/// network forces is the only one that is tried further, unless a profile is
/// pinned; any other failure leaves the attempts behind it.
pub open spec fn setup_failed(s: Setup, e: ErrorValue, hint: ImsBearerFailureHint) -> Result<
    Setup,
    ErrorValue,
> {
    if s.forced {
        Ok(Setup { next: s.next + 1, last_error: Some(e), ..s })
    } else if hint == ImsBearerFailureHint::BasebandWedged {
        Err(e)
    } else {
        match hint_family(hint) {
            None => Ok(Setup { next: s.next + 1, last_error: Some(e), ..s }),
            Some(family) => match pin_conflict(s.profile_id, family) {
                Some(conflict) => Ok(
                    Setup { next: s.attempts.len() as int, last_error: Some(conflict), ..s },
                ),
                None => Ok(
                    Setup {
                        attempts: seq![AttemptFamilies::One(family)],
                        next: 0,
                        forced: true,
                        last_error: Some(e),
                        ..s
                    },
                ),
            },
        }
    }
}

pub open spec fn setup_error(s: Setup) -> ErrorValue {
    match s.last_error {
        Some(e) => e,
        None => ErrorValue {
            code: code::RUNTIME_MM_BEARER_CONNECT_FAILED@,
            detail: Some("native_ims_no_family_attempted"@),
        },
    }
}

impl BearerSetup {
    pub open spec fn wf(&self) -> bool {
        setup_wf(self@)
    }

    pub fn new(request: &BearerRequest, plan: &ImsConnectionPlan) -> (r: Self)
        ensures
            r.wf(),
            r@ == setup_start(plan@, request.profile_id),
    {
        let families = requested_families_for(plan);
        let planned = plan.bearer_attempts();
        let mut attempts: Vec<AttemptFamilies> = Vec::new();
        let mut i: usize = 0;
        while i < planned.len()
            invariant
                i <= planned@.len(),
                planned@ == plan@.attempts,
                families@ == plan::family_numbers(plan@),
                attempts@ == attempts_upto(plan@, i as int),
            decreases planned@.len() - i,
        {
            match planned[i] {
                IpType::Ipv4v6 => {
                    if families.len() >= 2 {
                        attempts.push(AttemptFamilies::Two(families[0], families[1]));
                    }
                },
                IpType::Ipv4 => attempts.push(AttemptFamilies::One(4)),
                IpType::Ipv6 => attempts.push(AttemptFamilies::One(6)),
            }
            i += 1;
        }
        BearerSetup {
            attempts,
            next: 0,
            forced: false,
            profile_id: request.profile_id,
            last_error: None,
        }
    }

    pub fn attempt(&self) -> (r: Option<AttemptFamilies>)
        ensures
            r == setup_attempt(self@),
    {
        if self.next < self.attempts.len() {
            Some(self.attempts[self.next])
        } else {
            None
        }
    }

    /// Notes that the attempt failed.
    pub fn failed(self, error: ImsBearerError) -> (r: Result<BearerSetup, CellularImsError>)
        requires
            self.wf(),
            setup_attempt(self@) is Some,
        ensures
            match r {
                Ok(after) => after.wf() && setup_failed(self@, mapped_error(error), error.hint)
                    == Ok::<_, ErrorValue>(after@),
                Err(e) => setup_failed(self@, mapped_error(error), error.hint) == Err::<Setup, _>(
                    error_value(e),
                ),
            },
    {
        let mut after = self;
        let hint = error.hint;
        let mapped = cellular_ims_error_from_ims_bearer(error);
        let total: usize = after.attempts.len();
        assert(after.next < total);
        if after.forced {
            after.next = after.next + 1;
            after.last_error = Some(mapped);
            return Ok(after);
        }
        if hint == ImsBearerFailureHint::BasebandWedged {
            return Err(mapped);
        }
        match forced_native_family(hint) {
            None => {
                after.next = after.next + 1;
                after.last_error = Some(mapped);
            },
            Some(family) => {
                match pin_error(after.profile_id, family) {
                    Some(conflict) => {
                        after.next = total;
                        after.last_error = Some(conflict);
                    },
                    None => {
                        after.attempts = vec![AttemptFamilies::One(family)];
                        assert(after.attempts@ =~= seq![AttemptFamilies::One(family)]);
                        after.next = 0;
                        after.forced = true;
                        after.last_error = Some(mapped);
                    },
                }
            },
        }
        Ok(after)
    }

    pub fn give_up(self) -> (r: CellularImsError)
        ensures
            error_value(r) == setup_error(self@),
    {
        match self.last_error {
            Some(e) => e,
            None => CellularImsError::with_detail(
                code::RUNTIME_MM_BEARER_CONNECT_FAILED,
                copy_str("native_ims_no_family_attempted"),
            ),
        }
    }
}

// --------------------------------------------------------------------- projection

/// Who owns the interface of a bearer.
#[derive(Debug, Clone, Copy, PartialEq, Eq, Structural)]
pub enum BearerInterfaceOwnership {
    /// The interface of the host's own connection.
    HostManagedPrimary,
    Unknown,
    /// Already inside the worker.
    WorkerNative,
    ApplicationOwnedNative,
}

/// What the device reports of a bearer that is up.
#[derive(Debug)]
pub struct ImsBearerInfo {
    pub interface: String,
    pub netdev_method: String,
    pub interface_ownership: BearerInterfaceOwnership,
    pub ip_type: String,
    pub path_device: String,
    pub path_handle: String,
    pub ipv4_address: Option<IpAddr>,
    pub ipv4_gateway: Option<IpAddr>,
    pub ipv4_dns: Vec<IpAddr>,
    pub ipv4_prefix: Option<u8>,
    pub ipv6_address: Option<IpAddr>,
    pub ipv6_gateway: Option<IpAddr>,
    pub ipv6_dns: Vec<IpAddr>,
    pub ipv6_prefix: Option<u8>,
    pub pcscf: Vec<IpAddr>,
}

impl Default for ImsBearerInfo {
    fn default() -> (r: Self)
        ensures
            info_settings(r) == access::volte::pcscf::no_settings(),
            r.interface_ownership == BearerInterfaceOwnership::Unknown,
            r.ipv4_prefix is None && r.ipv6_prefix is None,
            r.interface@.len() == 0 && r.netdev_method@.len() == 0 && r.ip_type@.len() == 0,
            r.path_device@.len() == 0 && r.path_handle@.len() == 0,
    {
        let r = ImsBearerInfo {
            interface: String::new(),
            netdev_method: String::new(),
            interface_ownership: BearerInterfaceOwnership::Unknown,
            ip_type: String::new(),
            path_device: String::new(),
            path_handle: String::new(),
            ipv4_address: None,
            ipv4_gateway: None,
            ipv4_dns: Vec::new(),
            ipv4_prefix: None,
            ipv6_address: None,
            ipv6_gateway: None,
            ipv6_dns: Vec::new(),
            ipv6_prefix: None,
            pcscf: Vec::new(),
        };
        assert(info_settings(r) =~= access::volte::pcscf::no_settings());
        r
    }
}

pub open spec fn info_settings(i: ImsBearerInfo) -> Settings {
    Settings {
        ipv6_address: i.ipv6_address,
        ipv6_gateway: i.ipv6_gateway,
        ipv6_dns: i.ipv6_dns@,
        ipv4_address: i.ipv4_address,
        ipv4_gateway: i.ipv4_gateway,
        ipv4_dns: i.ipv4_dns@,
        pcscf: i.pcscf@,
    }
}

/// The bearer of a report; none where it has no address.
pub open spec fn bearer_of(i: ImsBearerInfo) -> Option<Bearer> {
    if access::volte::pcscf::local_of(info_settings(i)) is None {
        None
    } else {
        Some(
            Bearer {
                path: bearer::marked_path(
                    NATIVE_BEARER_PATH_PREFIX@,
                    i.path_device@,
                    i.path_handle@,
                ),
                interface: i.interface@,
                ip_type: i.ip_type@,
                settings: info_settings(i),
                ipv4_prefix: i.ipv4_prefix,
                ipv6_prefix: i.ipv6_prefix,
                mtu: None,
            },
        )
    }
}

pub open spec fn no_address_error() -> ErrorValue {
    ErrorValue {
        code: code::IP_SETTINGS_MISSING@,
        detail: Some("native_ims_session_has_no_address"@),
    }
}

fn copy_addrs(list: &Vec<IpAddr>) -> (r: Vec<IpAddr>)
    ensures
        r@ == list@,
{
    let mut out: Vec<IpAddr> = Vec::new();
    let mut i: usize = 0;
    while i < list.len()
        invariant
            i <= list@.len(),
            out@ == list@.subrange(0, i as int),
        decreases list@.len() - i,
    {
        out.push(list[i]);
        i += 1;
        assert(out@ =~= list@.subrange(0, i as int));
    }
    assert(out@ =~= list@);
    out
}

pub fn to_bearer_connection(info: &ImsBearerInfo) -> (r: Result<BearerConnection, CellularImsError>)
    ensures
        match r {
            Ok(b) => bearer_of(*info) == Some(b@),
            Err(e) => bearer_of(*info) is None && error_value(e) == no_address_error(),
        },
{
    let ims = ImsIpSettings {
        ipv4_address: info.ipv4_address,
        ipv4_gateway: info.ipv4_gateway,
        ipv4_dns: copy_addrs(&info.ipv4_dns),
        ipv6_address: info.ipv6_address,
        ipv6_gateway: info.ipv6_gateway,
        ipv6_dns: copy_addrs(&info.ipv6_dns),
        pcscf: copy_addrs(&info.pcscf),
    };
    if ims.local_addr().is_none() {
        return Err(
            CellularImsError::with_detail(
                code::IP_SETTINGS_MISSING,
                copy_str("native_ims_session_has_no_address"),
            ),
        );
    }
    Ok(
        BearerConnection {
            path: native_bearer_path(info.path_device.as_str(), info.path_handle.as_str()),
            interface: copy_str(info.interface.as_str()),
            ip_type: copy_str(info.ip_type.as_str()),
            settings: ims,
            ipv4_prefix: info.ipv4_prefix,
            ipv6_prefix: info.ipv6_prefix,
            mtu: None,
        },
    )
}

// ------------------------------------------------------------------- held bearers

/// One generation of a worker. A worker that was started anew is another one.
#[derive(Debug, Clone, Copy, PartialEq, Eq, Structural)]
pub struct WorkerBinding {
    pub worker: u64,
    pub generation: u64,
}

/// A bearer that is up. The session behind it is the device's.
#[derive(Debug)]
pub struct NativeImsBearer {
    pub connection: BearerConnection,
    pub provider_endpoint: String,
    pub provider_session: String,
    pub interface: String,
    /// How the interface was found out.
    pub netdev_method: String,
    pub interface_ownership: BearerInterfaceOwnership,
    /// The generation that got the interface, the routes and the sockets.
    pub worker_binding: Option<WorkerBinding>,
    pub moved_to_worker: bool,
}

/// Where the interface of a bearer is.
#[verifier::ext_equal]
pub struct Held {
    pub interface: Seq<char>,
    pub ownership: BearerInterfaceOwnership,
    pub binding: Option<WorkerBinding>,
    pub moved: bool,
}

impl View for NativeImsBearer {
    type V = Held;

    open spec fn view(&self) -> Held {
        Held {
            interface: self.interface@,
            ownership: self.interface_ownership,
            binding: self.worker_binding,
            moved: self.moved_to_worker,
        }
    }
}

/// What the device reported stays as it is.
pub open spec fn same_report(a: NativeImsBearer, b: NativeImsBearer) -> bool {
    &&& a.connection == b.connection
    &&& a.provider_endpoint == b.provider_endpoint
    &&& a.provider_session == b.provider_session
    &&& a.netdev_method == b.netdev_method
}

/// An interface that was moved is known to be with a worker.
pub open spec fn held_wf(h: Held) -> bool {
    h.moved ==> h.binding is Some
}

/// Takes over what the device reports. On an error the session has to be released.
pub fn adopt_bearer(info: ImsBearerInfo) -> (r: Result<NativeImsBearer, CellularImsError>)
    ensures
        match r {
            Ok(b) => {
                &&& bearer_of(info) == Some(b.connection@)
                &&& b.provider_endpoint == info.path_device
                &&& b.provider_session == info.path_handle
                &&& b.netdev_method == info.netdev_method
                &&& b.interface == info.interface
                &&& b@ == (Held {
                    interface: info.interface@,
                    ownership: info.interface_ownership,
                    binding: None,
                    moved: false,
                })
            },
            Err(e) => bearer_of(info) is None && error_value(e) == no_address_error(),
        },
{
    match to_bearer_connection(&info) {
        Ok(connection) => Ok(
            NativeImsBearer {
                connection,
                provider_endpoint: info.path_device,
                provider_session: info.path_handle,
                interface: info.interface,
                netdev_method: info.netdev_method,
                interface_ownership: info.interface_ownership,
                worker_binding: None,
                moved_to_worker: false,
            },
        ),
        Err(error) => Err(error),
    }
}

/// How a move into a worker goes on.
#[derive(Debug, Clone, Copy, PartialEq, Eq, Structural)]
pub enum MoveStep {
    /// The interface is where it should be.
    Stay,
    /// The interface has to be moved.
    Move,
}

pub open spec fn plain_error(code: Seq<char>) -> ErrorValue {
    ErrorValue { code, detail: None }
}

pub open spec fn command_error(detail: Seq<char>) -> ErrorValue {
    ErrorValue { code: code::COMMAND_FAILED@, detail: Some(detail) }
}

/// A move into a worker: a bearer that is bound stays with its generation, and
/// only an interface of its own may be moved.
pub open spec fn move_step(
    h: Held,
    binding: WorkerBinding,
    generation_held: bool,
    existing_current: bool,
    worker_ready: bool,
) -> (Held, Result<MoveStep, ErrorValue>) {
    if !generation_held {
        (h, Err(plain_error(code::RUNTIME_UE_WORKER_GENERATION_CHANGED@)))
    } else if h.binding is Some {
        if existing_current && h.binding == Some(binding) {
            (h, Ok(MoveStep::Stay))
        } else {
            (h, Err(plain_error(code::RUNTIME_UE_WORKER_GENERATION_CHANGED@)))
        }
    } else if !worker_ready {
        (h, Err(plain_error(code::RUNTIME_UE_WORKER_UNAVAILABLE@)))
    } else {
        match h.ownership {
            BearerInterfaceOwnership::HostManagedPrimary => (
                h,
                Err(
                    command_error(
                        "native bearer refuses to move host-managed interface "@ + h.interface,
                    ),
                ),
            ),
            BearerInterfaceOwnership::Unknown => (
                h,
                Err(
                    command_error(
                        "native bearer ownership is unknown; refusing to move "@ + h.interface,
                    ),
                ),
            ),
            BearerInterfaceOwnership::WorkerNative => (
                Held { binding: Some(binding), ..h },
                Ok(MoveStep::Stay),
            ),
            BearerInterfaceOwnership::ApplicationOwnedNative => (h, Ok(MoveStep::Move)),
        }
    }
}

pub open spec fn text_error(r: Result<(), String>) -> Option<Seq<char>> {
    match r {
        Ok(u) => None,
        Err(e) => Some(e@),
    }
}

pub open spec fn moved_step(
    h: Held,
    binding: WorkerBinding,
    namespace: Seq<char>,
    failure: Option<Seq<char>>,
) -> (Held, Option<ErrorValue>) {
    match failure {
        Some(error) => (
            h,
            Some(
                command_error(
                    "move native bearer "@ + h.interface + " into "@ + namespace + ": "@ + error,
                ),
            ),
        ),
        None => (Held { binding: Some(binding), moved: true, ..h }, None),
    }
}

pub open spec fn opt_texts(list: Option<Vec<String>>) -> Option<Seq<Seq<char>>> {
    match list {
        Some(v) => Some(text::texts(v@)),
        None => None,
    }
}

pub open spec fn observed(h: Held, interfaces: Option<Seq<Seq<char>>>) -> bool {
    match interfaces {
        Some(names) => names.contains(h.interface),
        None => false,
    }
}

pub open spec fn opt_error(e: Result<(), CellularImsError>) -> Option<ErrorValue> {
    match e {
        Ok(u) => None,
        Err(e) => Some(error_value(e)),
    }
}

fn with_text(parts: &[&str]) -> (r: String)
    ensures
        r@ == parts_text(parts@, parts@.len() as int),
{
    let mut out: Vec<char> = Vec::new();
    let mut i: usize = 0;
    while i < parts.len()
        invariant
            i <= parts@.len(),
            out@ == parts_text(parts@, i as int),
        decreases parts@.len() - i,
    {
        text::push_str(&mut out, parts[i]);
        i += 1;
    }
    text::string_of(out.as_slice())
}

pub open spec fn parts_text(parts: Seq<&str>, n: int) -> Seq<char>
    decreases n,
{
    if n <= 0 {
        seq![]
    } else {
        parts_text(parts, n - 1) + parts[n - 1]@
    }
}

fn command_failed(detail: String) -> (r: CellularImsError)
    ensures
        error_value(r) == command_error(detail@),
{
    CellularImsError::with_detail(code::COMMAND_FAILED, detail)
}

fn has_name(list: &Vec<String>, name: &str) -> (r: bool)
    ensures
        r == text::texts(list@).contains(name@),
{
    let ghost all = text::texts(list@);
    let mut i: usize = 0;
    while i < list.len()
        invariant
            i <= list@.len(),
            all == text::texts(list@),
            forall|j: int| 0 <= j < i ==> #[trigger] all[j] != name@,
        decreases list@.len() - i,
    {
        assert(all[i as int] == list@[i as int]@);
        if text::str_same(list[i].as_str(), name) {
            return true;
        }
        i += 1;
    }
    false
}

/// Is the bearer usable: is its session alive, and its worker the one it was bound
/// to?
pub open spec fn usable(h: Held, failure: Option<ErrorValue>, binding_live: bool) -> Option<
    ErrorValue,
> {
    match failure {
        Some(e) => Some(e),
        None => if h.binding is None || binding_live {
            None
        } else {
            Some(plain_error(code::RUNTIME_UE_WORKER_GENERATION_CHANGED@))
        },
    }
}

pub open spec fn session_failure(alive: Result<(), ImsBearerError>) -> Option<ErrorValue> {
    match alive {
        Ok(u) => None,
        Err(e) => Some(mapped_error(e)),
    }
}

/// What was found of the P-CSCF, and where.
#[derive(Debug)]
pub struct ImsPcscfDiscovery {
    pub candidates: Vec<IpAddr>,
    pub context_id: Option<u8>,
    pub source: String,
}

/// How far a discovery of the P-CSCF has come.
#[derive(Debug)]
pub enum DiscoveryStage {
    Begun,
    ProviderAsked,
    FallbackAsked,
    /// The provider has decided. The session is looked at once more.
    Settled(Result<ImsPcscfDiscovery, CellularImsError>),
    Ended,
}

/// A discovery of the P-CSCF that is under way.
#[derive(Debug)]
pub struct PcscfDiscoveryRun {
    pub stage: DiscoveryStage,
}

/// What a discovery learns. The session and the worker are looked at each time.
#[derive(Debug)]
pub enum DiscoveryEvent {
    /// Nothing but the look at the session and the worker.
    Looked,
    /// The provider has answered. `Ok(None)` says that it cannot tell.
    Provider(Result<Option<ImsPcscfDiscovery>, ImsBearerError>),
    /// The settings of the exact address have been read.
    Fallback(Result<ImsPcscfDiscovery, CellularImsError>),
}

/// What a discovery does next.
#[derive(Debug)]
pub enum DiscoveryAction {
    AskProvider,
    /// The provider cannot tell: the settings of the exact address are read.
    RunFallback,
    LookAgain,
    Finish(Result<ImsPcscfDiscovery, CellularImsError>),
}

/// The stage of a discovery as a value.
pub enum RunStage {
    Begun,
    ProviderAsked,
    FallbackAsked,
    Settled(Result<ImsPcscfDiscovery, ErrorValue>),
    Ended,
}

/// What a discovery learns, as a value.
pub enum RunEvent {
    Looked,
    Provider(Result<Option<ImsPcscfDiscovery>, ErrorValue>),
    Fallback(Result<ImsPcscfDiscovery, ErrorValue>),
}

/// What a discovery does next, as a value.
pub enum RunAction {
    AskProvider,
    RunFallback,
    LookAgain,
    Finish(Result<ImsPcscfDiscovery, ErrorValue>),
}

pub open spec fn found_value(r: Result<ImsPcscfDiscovery, CellularImsError>) -> Result<
    ImsPcscfDiscovery,
    ErrorValue,
> {
    match r {
        Ok(d) => Ok(d),
        Err(e) => Err(error_value(e)),
    }
}

impl View for PcscfDiscoveryRun {
    type V = RunStage;

    open spec fn view(&self) -> RunStage {
        match self.stage {
            DiscoveryStage::Begun => RunStage::Begun,
            DiscoveryStage::ProviderAsked => RunStage::ProviderAsked,
            DiscoveryStage::FallbackAsked => RunStage::FallbackAsked,
            DiscoveryStage::Settled(r) => RunStage::Settled(found_value(r)),
            DiscoveryStage::Ended => RunStage::Ended,
        }
    }
}

impl View for DiscoveryEvent {
    type V = RunEvent;

    open spec fn view(&self) -> RunEvent {
        match self {
            DiscoveryEvent::Looked => RunEvent::Looked,
            DiscoveryEvent::Provider(Ok(d)) => RunEvent::Provider(Ok(*d)),
            DiscoveryEvent::Provider(Err(e)) => RunEvent::Provider(Err(mapped_error(*e))),
            DiscoveryEvent::Fallback(r) => RunEvent::Fallback(found_value(*r)),
        }
    }
}

impl View for DiscoveryAction {
    type V = RunAction;

    open spec fn view(&self) -> RunAction {
        match self {
            DiscoveryAction::AskProvider => RunAction::AskProvider,
            DiscoveryAction::RunFallback => RunAction::RunFallback,
            DiscoveryAction::LookAgain => RunAction::LookAgain,
            DiscoveryAction::Finish(r) => RunAction::Finish(found_value(*r)),
        }
    }
}

/// Does the event answer what the discovery waits for?
pub open spec fn awaited(stage: RunStage, event: RunEvent) -> bool {
    match stage {
        RunStage::Begun | RunStage::Settled(_) => event is Looked,
        RunStage::ProviderAsked => event is Provider,
        RunStage::FallbackAsked => event is Fallback,
        RunStage::Ended => false,
    }
}

/// One step of a discovery. What was observed of a session that was lost meanwhile,
/// or of a worker that is gone, does not count. Only a provider that says that it
/// cannot tell lets another observation be made.
pub open spec fn discovery_step(stage: RunStage, unusable: Option<ErrorValue>, event: RunEvent) -> (
    RunStage,
    RunAction,
) {
    match unusable {
        Some(e) => (RunStage::Ended, RunAction::Finish(Err(e))),
        None => match (stage, event) {
            (RunStage::Begun, _) => (RunStage::ProviderAsked, RunAction::AskProvider),
            (RunStage::Settled(r), _) => (RunStage::Ended, RunAction::Finish(r)),
            (_, RunEvent::Provider(Ok(Some(d)))) => (
                RunStage::Settled(Ok(d)),
                RunAction::LookAgain,
            ),
            (_, RunEvent::Provider(Ok(None))) => (
                RunStage::FallbackAsked,
                RunAction::RunFallback,
            ),
            (_, RunEvent::Provider(Err(e))) => (RunStage::Settled(Err(e)), RunAction::LookAgain),
            (_, RunEvent::Fallback(r)) => (RunStage::Ended, RunAction::Finish(r)),
            (_, RunEvent::Looked) => (stage, RunAction::LookAgain),
        },
    }
}

impl PcscfDiscoveryRun {
    pub fn new() -> (r: Self)
        ensures
            r@ is Begun,
    {
        PcscfDiscoveryRun { stage: DiscoveryStage::Begun }
    }
}

impl NativeImsBearer {
    pub open spec fn wf(&self) -> bool {
        held_wf(self@)
    }

    /// Begins to move the interface into a worker. The generation of the worker is
    /// held meanwhile, if it could be.
    pub fn move_into_worker(
        &mut self,
        binding: WorkerBinding,
        generation_held: bool,
        existing_current: bool,
        worker_ready: bool,
    ) -> (r: Result<MoveStep, CellularImsError>)
        requires
            old(self).wf(),
        ensures
            final(self).wf(),
            same_report(*final(self), *old(self)),
            ({
                let (after, step) = move_step(
                    old(self)@,
                    binding,
                    generation_held,
                    existing_current,
                    worker_ready,
                );
                &&& final(self)@ == after
                &&& match r {
                    Ok(m) => step == Ok::<_, ErrorValue>(m),
                    Err(e) => step == Err::<MoveStep, _>(error_value(e)),
                }
            }),
    {
        if !generation_held {
            return Err(CellularImsError::new(code::RUNTIME_UE_WORKER_GENERATION_CHANGED));
        }
        if let Some(existing) = self.worker_binding {
            if existing_current && existing == binding {
                return Ok(MoveStep::Stay);
            }
            return Err(CellularImsError::new(code::RUNTIME_UE_WORKER_GENERATION_CHANGED));
        }
        if !worker_ready {
            return Err(CellularImsError::new(code::RUNTIME_UE_WORKER_UNAVAILABLE));
        }
        proof {
            reveal_with_fuel(parts_text, 3);
        }
        match self.interface_ownership {
            BearerInterfaceOwnership::HostManagedPrimary => {
                let detail = with_text(
                    &[
                        "native bearer refuses to move host-managed interface ",
                        self.interface.as_str(),
                    ],
                );
                assert(detail@ =~= "native bearer refuses to move host-managed interface "@
                    + self.interface@);
                Err(command_failed(detail))
            },
            BearerInterfaceOwnership::Unknown => {
                let detail = with_text(
                    &[
                        "native bearer ownership is unknown; refusing to move ",
                        self.interface.as_str(),
                    ],
                );
                assert(detail@ =~= "native bearer ownership is unknown; refusing to move "@
                    + self.interface@);
                Err(command_failed(detail))
            },
            BearerInterfaceOwnership::WorkerNative => {
                self.worker_binding = Some(binding);
                Ok(MoveStep::Stay)
            },
            BearerInterfaceOwnership::ApplicationOwnedNative => Ok(MoveStep::Move),
        }
    }

    /// Notes how the move went. From here on the interface is the worker's, and
    /// any later failure is released through the binding.
    pub fn interface_moved(
        &mut self,
        binding: WorkerBinding,
        namespace: &str,
        outcome: &Result<(), String>,
    ) -> (r: Result<(), CellularImsError>)
        requires
            old(self).wf(),
        ensures
            final(self).wf(),
            same_report(*final(self), *old(self)),
            (final(self)@, opt_error(r)) == moved_step(
                old(self)@,
                binding,
                namespace@,
                text_error(*outcome),
            ),
    {
        match outcome {
            Err(error) => {
                let detail = with_text(
                    &[
                        "move native bearer ",
                        self.interface.as_str(),
                        " into ",
                        namespace,
                        ": ",
                        error.as_str(),
                    ],
                );
                proof {
                    reveal_with_fuel(parts_text, 7);
                }
                assert(detail@ =~= "move native bearer "@ + self.interface@ + " into "@ + namespace@
                    + ": "@ + error@);
                Err(command_failed(detail))
            },
            Ok(_) => {
                self.worker_binding = Some(binding);
                self.moved_to_worker = true;
                Ok(())
            },
        }
    }

    /// The worker has to see the interface that was moved.
    pub fn interface_observed(&self, interfaces: &Option<Vec<String>>) -> (r: Result<
        (),
        CellularImsError,
    >)
        ensures
            opt_error(r) == if observed(self@, opt_texts(*interfaces)) {
                None
            } else {
                Some(
                    command_error(
                        "worker cannot observe moved native interface "@ + self@.interface,
                    ),
                )
            },
    {
        let seen = match interfaces {
            Some(names) => has_name(names, self.interface.as_str()),
            None => false,
        };
        if seen {
            return Ok(());
        }
        let detail = with_text(
            &["worker cannot observe moved native interface ", self.interface.as_str()],
        );
        proof {
            reveal_with_fuel(parts_text, 3);
        }
        assert(detail@ =~= "worker cannot observe moved native interface "@ + self.interface@);
        Err(command_failed(detail))
    }

    /// The worker that has the interface.
    pub fn worker(&self) -> (r: Option<u64>)
        ensures
            r == match self@.binding {
                Some(binding) => Some(binding.worker),
                None => None,
            },
    {
        match self.worker_binding {
            Some(binding) => Some(binding.worker),
            None => None,
        }
    }

    pub fn worker_binding(&self) -> (r: Option<WorkerBinding>)
        ensures
            r == self@.binding,
    {
        self.worker_binding
    }

    /// The worker to take the interface back from: that which it was moved to, if
    /// its generation can still be held.
    pub fn restore_from_worker(&self, generation_held: bool) -> (r: Option<WorkerBinding>)
        ensures
            r == if self@.moved && generation_held {
                self@.binding
            } else {
                None
            },
    {
        if self.moved_to_worker && generation_held {
            self.worker_binding
        } else {
            None
        }
    }

    /// Notes how taking it back went. Unless the interface came out and the device
    /// confirms that, it is still the worker's.
    pub fn interface_restored(&mut self, moved_out: bool, confirmed: bool)
        requires
            old(self).wf(),
        ensures
            final(self).wf(),
            same_report(*final(self), *old(self)),
            final(self)@ == if moved_out && confirmed {
                Held { binding: None, moved: false, ..old(self)@ }
            } else {
                old(self)@
            },
    {
        if moved_out && confirmed {
            self.moved_to_worker = false;
            self.worker_binding = None;
        }
    }

    /// Is the bearer bound to no worker, or to one that still is what it was?
    pub fn worker_binding_is_current(&self, binding_live: bool) -> (r: bool)
        ensures
            r == (self@.binding is None || binding_live),
    {
        self.worker_binding.is_none() || binding_live
    }

    /// The worker whose network settings are undone on a release. One that was
    /// started anew has none of them.
    pub fn network_to_release(&self, binding_live: bool) -> (r: Option<WorkerBinding>)
        ensures
            r == if binding_live {
                self@.binding
            } else {
                None
            },
    {
        if self.worker_binding_is_current(binding_live) {
            self.worker_binding
        } else {
            None
        }
    }

    /// Is the session alive?
    pub fn check_liveness(&self, alive: Result<(), ImsBearerError>) -> (r: Result<
        (),
        CellularImsError,
    >)
        ensures
            opt_error(r) == session_failure(alive),
    {
        match alive {
            Err(error) => Err(cellular_ims_error_from_ims_bearer(error)),
            Ok(_) => Ok(()),
        }
    }

    /// Is the session alive, and the worker the one that the bearer is bound to?
    pub fn check_usable(&self, alive: Result<(), ImsBearerError>, binding_live: bool) -> (r: Result<
        (),
        CellularImsError,
    >)
        ensures
            opt_error(r) == usable(self@, session_failure(alive), binding_live),
    {
        match self.check_liveness(alive) {
            Err(error) => Err(error),
            Ok(_) => {
                if self.worker_binding_is_current(binding_live) {
                    Ok(())
                } else {
                    Err(CellularImsError::new(code::RUNTIME_UE_WORKER_GENERATION_CHANGED))
                }
            },
        }
    }

    /// Takes a discovery of the P-CSCF one step on. The bearer stays as it is.
    pub fn discover_pcscf(
        &self,
        run: &mut PcscfDiscoveryRun,
        alive: Result<(), ImsBearerError>,
        binding_live: bool,
        event: DiscoveryEvent,
    ) -> (r: DiscoveryAction)
        requires
            awaited(old(run)@, event@),
        ensures
            (final(run)@, r@) == discovery_step(
                old(run)@,
                usable(self@, session_failure(alive), binding_live),
                event@,
            ),
    {
        let mut stage = DiscoveryStage::Ended;
        std::mem::swap(&mut run.stage, &mut stage);
        if let Err(error) = self.check_usable(alive, binding_live) {
            return DiscoveryAction::Finish(Err(error));
        }
        match stage {
            DiscoveryStage::Begun => {
                run.stage = DiscoveryStage::ProviderAsked;
                DiscoveryAction::AskProvider
            },
            DiscoveryStage::Settled(result) => DiscoveryAction::Finish(result),
            _ => match event {
                DiscoveryEvent::Provider(Ok(Some(discovery))) => {
                    run.stage = DiscoveryStage::Settled(Ok(discovery));
                    DiscoveryAction::LookAgain
                },
                DiscoveryEvent::Provider(Ok(None)) => {
                    run.stage = DiscoveryStage::FallbackAsked;
                    DiscoveryAction::RunFallback
                },
                DiscoveryEvent::Provider(Err(error)) => {
                    run.stage = DiscoveryStage::Settled(
                        Err(cellular_ims_error_from_ims_bearer(error)),
                    );
                    DiscoveryAction::LookAgain
                },
                DiscoveryEvent::Fallback(result) => DiscoveryAction::Finish(result),
                DiscoveryEvent::Looked => DiscoveryAction::LookAgain,
            },
        }
    }
}

// -------------------------------------------------------------------------- laws

/// What a discovery comes to: how often the provider was asked, how often the
/// fallback was run, and the result.
pub struct Discovered {
    pub asked: nat,
    pub fallbacks: nat,
    pub result: Result<ImsPcscfDiscovery, ErrorValue>,
}

/// The whole of a discovery. The session and the worker are looked at before it
/// (`first`), behind the answer of the provider (`second`) and before the result is
/// handed out (`third`).
pub open spec fn discovered(
    stage: RunStage,
    asked: nat,
    fallbacks: nat,
    first: Option<ErrorValue>,
    second: Option<ErrorValue>,
    third: Option<ErrorValue>,
    provider: Result<Option<ImsPcscfDiscovery>, ErrorValue>,
    fallback: Result<ImsPcscfDiscovery, ErrorValue>,
    fuel: nat,
) -> Option<Discovered>
    decreases fuel,
{
    let (unusable, event) = match stage {
        RunStage::Begun => (first, RunEvent::Looked),
        RunStage::ProviderAsked => (second, RunEvent::Provider(provider)),
        RunStage::FallbackAsked => (third, RunEvent::Fallback(fallback)),
        _ => (third, RunEvent::Looked),
    };
    let (next, action) = discovery_step(stage, unusable, event);
    if fuel == 0 {
        None
    } else {
        match action {
            RunAction::Finish(result) => Some(Discovered { asked, fallbacks, result }),
            _ => discovered(
                next,
                if action is AskProvider {
                    asked + 1
                } else {
                    asked
                },
                if action is RunFallback {
                    fallbacks + 1
                } else {
                    fallbacks
                },
                first,
                second,
                third,
                provider,
                fallback,
                (fuel - 1) as nat,
            ),
        }
    }
}

/// A discovery ends within three steps. A bearer that is usable at first has its
/// provider asked exactly once; the fallback is run at most once, and only behind a
/// provider that cannot tell, on a bearer that is still usable. What was observed
/// counts only where the bearer is usable to the end; otherwise what is wrong with
/// it is the result.
pub proof fn law_discovery_asks_once(
    first: Option<ErrorValue>,
    second: Option<ErrorValue>,
    third: Option<ErrorValue>,
    provider: Result<Option<ImsPcscfDiscovery>, ErrorValue>,
    fallback: Result<ImsPcscfDiscovery, ErrorValue>,
)
    ensures
        discovered(
            RunStage::Begun,
            0,
            0,
            first,
            second,
            third,
            provider,
            fallback,
            3,
        ) == Some(
            match (first, second, third) {
                (Some(e), _, _) => Discovered { asked: 0, fallbacks: 0, result: Err(e) },
                (None, Some(e), _) => Discovered { asked: 1, fallbacks: 0, result: Err(e) },
                (None, None, lost) => Discovered {
                    asked: 1,
                    fallbacks: if provider == Ok::<Option<ImsPcscfDiscovery>, ErrorValue>(None) {
                        1
                    } else {
                        0
                    },
                    result: match lost {
                        Some(e) => Err(e),
                        None => match provider {
                            Ok(Some(d)) => Ok(d),
                            Ok(None) => fallback,
                            Err(e) => Err(e),
                        },
                    },
                },
            },
        ),
{
    reveal_with_fuel(discovered, 4);
}

/// A discovery waits for what it asked, and never asks the provider again: each
/// step of a discovery that goes on leads to a later stage.
pub proof fn law_discovery_goes_forward(
    stage: RunStage,
    unusable: Option<ErrorValue>,
    event: RunEvent,
)
    requires
        awaited(stage, event),
    ensures
        ({
            let (next, action) = discovery_step(stage, unusable, event);
            &&& !(next is Begun)
            &&& action is AskProvider ==> stage is Begun && next is ProviderAsked
            &&& action is RunFallback ==> event == RunEvent::Provider(
                Ok::<Option<ImsPcscfDiscovery>, ErrorValue>(None),
            ) && unusable is None && next is FallbackAsked
            &&& action is LookAgain ==> next is Settled
            &&& action is Finish <==> next is Ended
        }),
{
}

/// A move that is refused changes nothing, and only an interface of the
/// application's own is moved.
pub proof fn law_only_owned_interfaces_move(
    h: Held,
    binding: WorkerBinding,
    generation_held: bool,
    existing_current: bool,
    worker_ready: bool,
)
    ensures
        ({
            let (after, step) = move_step(
                h,
                binding,
                generation_held,
                existing_current,
                worker_ready,
            );
            &&& step is Err ==> after == h
            &&& step == Ok::<_, ErrorValue>(MoveStep::Move) ==> after == h && h.ownership
                == BearerInterfaceOwnership::ApplicationOwnedNative
            &&& h.ownership == BearerInterfaceOwnership::HostManagedPrimary && h.binding is None
                ==> step is Err
            &&& step == Ok::<_, ErrorValue>(MoveStep::Stay) ==> after.binding == Some(binding)
        }),
{
}

/// An interface that was moved stays with its worker until it is taken back and
/// the device confirms that; then it is as before.
pub proof fn law_restore_undoes_the_move(
    h: Held,
    binding: WorkerBinding,
    namespace: Seq<char>,
)
    requires
        !h.moved,
        h.binding is None,
    ensures
        ({
            let after = moved_step(h, binding, namespace, None).0;
            &&& held_wf(after)
            &&& after.moved && after.binding == Some(binding)
            &&& Held { binding: None, moved: false, ..after } == h
        }),
{
}

/// A wedged modem is never asked again, and a pinned profile is never asked for
/// another family.
pub proof fn law_hopeless_attempts_are_not_made(
    s: Setup,
    e: ErrorValue,
    hint: ImsBearerFailureHint,
)
    requires
        setup_wf(s),
        setup_attempt(s) is Some,
    ensures
        !s.forced && hint == ImsBearerFailureHint::BasebandWedged ==> setup_failed(s, e, hint)
            == Err::<Setup, _>(e),
        !s.forced && s.profile_id is Some && hint_family(hint) is Some ==> (setup_failed(s, e, hint)
            matches Ok(after) && setup_attempt(after) is None),
        !s.forced && s.profile_id is None && hint_family(hint) is Some ==> (setup_failed(s, e, hint)
            matches Ok(after) && after.attempts == seq![
            AttemptFamilies::One(hint_family(hint)->0),
        ]),
{
}

/// Every failed attempt leaves fewer, or one for the family that the network
/// forces: the attempts come to an end.
pub proof fn law_attempts_come_to_an_end(s: Setup, e: ErrorValue, hint: ImsBearerFailureHint)
    requires
        setup_wf(s),
        setup_attempt(s) is Some,
    ensures
        setup_failed(s, e, hint) matches Ok(after) ==> {
            &&& setup_wf(after)
            &&& after.last_error is Some
            &&& !s.forced && after.forced || s.forced == after.forced && after.attempts.len()
                - after.next < s.attempts.len() - s.next
        },
{
}

/// The path of a native bearer bears the marker, and is no bearer object of the
/// modem manager.
pub proof fn law_native_path_is_told_apart(device: Seq<char>, handle: Seq<char>)
    ensures
        text::starts(
            bearer::marked_path(NATIVE_BEARER_PATH_PREFIX@, device, handle),
            NATIVE_BEARER_PATH_PREFIX@,
        ),
        !bearer::valid_bearer_path(bearer::marked_path(NATIVE_BEARER_PATH_PREFIX@, device, handle)),
{
    let marker = NATIVE_BEARER_PATH_PREFIX@;
    let path = bearer::marked_path(marker, device, handle);
    reveal_strlit("native-bearer:");
    reveal_strlit("/org/freedesktop/ModemManager1/Bearer/");
    assert(path.subrange(0, marker.len() as int) =~= marker);
    let objects = bearer::BEARER_PATH_PREFIX@;
    if text::starts(path, objects) {
        assert(path.subrange(0, objects.len() as int)[0] == path[0]);
    }
}

} // verus!
