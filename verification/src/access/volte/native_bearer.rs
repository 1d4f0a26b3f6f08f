//! Native-QMI IMS bearer: the seam between a raw WDS session and the rest of the
//! VoLTE stack.
//!
//! A WDS session that is established directly yields the addresses, gateway, DNS
//! servers, MTU and P-CSCF of a bearer, but none of the packaging: no object path
//! and no interface name. This module decides which families to ask for and in
//! what order, which interface setup a session needs, and presents the result as a
//! `BearerConnection`.

use crate::access::volte::pcscf::{ImsIpSettings, Settings, VolteError};
use crate::bearer::{build_marked_path, has_marker, Bearer, BearerConnection};
use crate::cellular_ims::errors::{code, CellularImsError};
use crate::net::{has_addr, IpAddr};
use crate::plan::{class_in, numbers_of, FailureClass, ImsConnectionPlan, IpFamily, IpType, Plan};
use crate::sdp::{copy_str, copy_text};
use crate::{access, bearer, ip_text, plan, text};
use vstd::prelude::*;

verus! {

/// Marks the path of a bearer that was established here. There is no bearer
/// object behind such a path, and teardown goes by the marker.
pub const NATIVE_BEARER_PATH_PREFIX: &'static str = "qmi-wds:";

pub fn is_native_bearer(path: &str) -> (r: bool)
    ensures
        r == text::starts(path@, NATIVE_BEARER_PATH_PREFIX@),
{
    has_marker(NATIVE_BEARER_PATH_PREFIX, path)
}

pub fn native_bearer_path(device_path: &str, handle: &str) -> (r: String)
    ensures
        r@ == bearer::marked_path(NATIVE_BEARER_PATH_PREFIX@, device_path@, handle@),
{
    build_marked_path(NATIVE_BEARER_PATH_PREFIX, device_path, handle)
}

/// The families to ask for, in the plan's order.
pub fn qmi_families_for(plan: &ImsConnectionPlan) -> (r: Vec<u8>)
    ensures
        r@ == plan::family_numbers(plan@),
{
    numbers_of(plan)
}

pub open spec fn forced_number(class: FailureClass) -> Option<u8> {
    match plan::forced_by(class) {
        Some(f) => Some(plan::family_number(f)),
        None => None,
    }
}

pub fn forced_qmi_family(class: FailureClass) -> (r: Option<u8>)
    ensures
        r == forced_number(class),
{
    match class.forced_family() {
        Some(IpFamily::Ipv4) => Some(4),
        Some(IpFamily::Ipv6) => Some(6),
        None => None,
    }
}

// ------------------------------------------------------------- session settings

/// What a session reports of itself.
#[derive(Debug)]
pub struct CurrentSettings {
    pub ip_family: Option<String>,
    pub ipv4_address: Option<String>,
    pub ipv4_gateway: Option<String>,
    pub ipv4_dns: Vec<String>,
    pub ipv4_prefix: Option<u8>,
    pub ipv6_address: Option<String>,
    pub ipv6_gateway: Option<String>,
    pub ipv6_dns: Vec<String>,
    pub ipv6_prefix: Option<u8>,
    pub pcscf: Vec<String>,
    pub mtu: Option<u32>,
}

/// One family of the settings of a session.
#[verifier::ext_equal]
pub struct FamilySettings {
    pub address: Option<Seq<char>>,
    pub gateway: Option<Seq<char>>,
    pub dns: Seq<Seq<char>>,
    pub prefix: Option<u8>,
}

#[verifier::ext_equal]
pub struct Current {
    pub ip_family: Option<Seq<char>>,
    pub v4: FamilySettings,
    pub v6: FamilySettings,
    pub pcscf: Seq<Seq<char>>,
    pub mtu: Option<u32>,
}

impl View for CurrentSettings {
    type V = Current;

    open spec fn view(&self) -> Current {
        Current {
            ip_family: text::opt_text(self.ip_family),
            v4: FamilySettings {
                address: text::opt_text(self.ipv4_address),
                gateway: text::opt_text(self.ipv4_gateway),
                dns: text::texts(self.ipv4_dns@),
                prefix: self.ipv4_prefix,
            },
            v6: FamilySettings {
                address: text::opt_text(self.ipv6_address),
                gateway: text::opt_text(self.ipv6_gateway),
                dns: text::texts(self.ipv6_dns@),
                prefix: self.ipv6_prefix,
            },
            pcscf: text::texts(self.pcscf@),
            mtu: self.mtu,
        }
    }
}

pub open spec fn no_family() -> FamilySettings {
    FamilySettings { address: None, gateway: None, dns: seq![], prefix: None }
}

pub open spec fn nothing_current() -> Current {
    Current { ip_family: None, v4: no_family(), v6: no_family(), pcscf: seq![], mtu: None }
}

impl Default for CurrentSettings {
    fn default() -> (r: Self)
        ensures
            r@ == nothing_current(),
    {
        let r = CurrentSettings {
            ip_family: None,
            ipv4_address: None,
            ipv4_gateway: None,
            ipv4_dns: Vec::new(),
            ipv4_prefix: None,
            ipv6_address: None,
            ipv6_gateway: None,
            ipv6_dns: Vec::new(),
            ipv6_prefix: None,
            pcscf: Vec::new(),
            mtu: None,
        };
        assert(r@ =~= nothing_current());
        r
    }
}

/// A list with the items of another that were not in it.
pub open spec fn merged_items(
    target: Seq<Seq<char>>,
    source: Seq<Seq<char>>,
    n: int,
) -> Seq<Seq<char>>
    decreases n,
{
    if n <= 0 {
        target
    } else {
        let before = merged_items(target, source, n - 1);
        if before.contains(source[n - 1]) {
            before
        } else {
            before.push(source[n - 1])
        }
    }
}

/// One family after another session: the last address of the family holds.
pub open spec fn merged_family(m: FamilySettings, s: FamilySettings) -> FamilySettings {
    FamilySettings {
        dns: merged_items(m.dns, s.dns, s.dns.len() as int),
        ..if s.address is Some {
            s
        } else {
            m
        }
    }
}

pub open spec fn merged_mtu(m: Option<u32>, s: Option<u32>) -> Option<u32> {
    match (m, s) {
        (Some(a), Some(b)) => Some(
            if a <= b {
                a
            } else {
                b
            },
        ),
        (None, value) => value,
        (value, None) => value,
    }
}

pub open spec fn merged_current(m: Current, s: Current) -> Current {
    Current {
        ip_family: m.ip_family,
        v4: merged_family(m.v4, s.v4),
        v6: merged_family(m.v6, s.v6),
        pcscf: merged_items(m.pcscf, s.pcscf, s.pcscf.len() as int),
        mtu: merged_mtu(m.mtu, s.mtu),
    }
}

pub open spec fn merged_upto(all: Seq<Current>, n: int) -> Current
    decreases n,
{
    if n <= 0 {
        nothing_current()
    } else {
        merged_current(merged_upto(all, n - 1), all[n - 1])
    }
}

pub open spec fn currents(list: Seq<&CurrentSettings>) -> Seq<Current> {
    list.map_values(|s: &CurrentSettings| s@)
}

fn has_text_item(list: &Vec<String>, item: &str) -> (r: bool)
    ensures
        r == text::texts(list@).contains(item@),
{
    let ghost all = text::texts(list@);
    let mut i: usize = 0;
    while i < list.len()
        invariant
            i <= list@.len(),
            all == text::texts(list@),
            forall|j: int| 0 <= j < i ==> #[trigger] all[j] != item@,
        decreases list@.len() - i,
    {
        assert(all[i as int] == list@[i as int]@);
        if text::str_same(list[i].as_str(), item) {
            return true;
        }
        i += 1;
    }
    false
}

fn merge_strings(target: &mut Vec<String>, source: &Vec<String>)
    ensures
        text::texts(final(target)@) == merged_items(
            text::texts(old(target)@),
            text::texts(source@),
            source@.len() as int,
        ),
{
    let ghost start = text::texts(target@);
    let ghost all = text::texts(source@);
    let mut i: usize = 0;
    while i < source.len()
        invariant
            i <= source@.len(),
            all == text::texts(source@),
            text::texts(target@) == merged_items(start, all, i as int),
        decreases source@.len() - i,
    {
        assert(all[i as int] == source@[i as int]@);
        if !has_text_item(target, source[i].as_str()) {
            let ghost before = text::texts(target@);
            let item = copy_str(source[i].as_str());
            target.push(item);
            assert(text::texts(target@) =~= before.push(all[i as int]));
        }
        i += 1;
    }
}

fn merge_one(merged: &mut CurrentSettings, settings: &CurrentSettings)
    ensures
        final(merged)@ == merged_current(old(merged)@, settings@),
{
    if settings.ipv4_address.is_some() {
        merged.ipv4_address = copy_text(&settings.ipv4_address);
        merged.ipv4_gateway = copy_text(&settings.ipv4_gateway);
        merged.ipv4_prefix = settings.ipv4_prefix;
    }
    if settings.ipv6_address.is_some() {
        merged.ipv6_address = copy_text(&settings.ipv6_address);
        merged.ipv6_gateway = copy_text(&settings.ipv6_gateway);
        merged.ipv6_prefix = settings.ipv6_prefix;
    }
    merge_strings(&mut merged.ipv4_dns, &settings.ipv4_dns);
    merge_strings(&mut merged.ipv6_dns, &settings.ipv6_dns);
    merge_strings(&mut merged.pcscf, &settings.pcscf);
    merged.mtu = match (merged.mtu, settings.mtu) {
        (Some(a), Some(b)) => Some(
            if a <= b {
                a
            } else {
                b
            },
        ),
        (None, value) => value,
        (value, None) => value,
    };
    assert(merged@ =~= merged_current(old(merged)@, settings@));
}

/// The settings of several sessions as those of one bearer of both families.
pub fn merge_current_settings(settings_set: &[&CurrentSettings]) -> (r: CurrentSettings)
    ensures
        r@ == (Current {
            ip_family: Some("ipv4v6"@),
            ..merged_upto(currents(settings_set@), settings_set@.len() as int)
        }),
{
    let ghost all = currents(settings_set@);
    let mut merged = CurrentSettings::default();
    let mut i: usize = 0;
    while i < settings_set.len()
        invariant
            i <= settings_set@.len(),
            all == currents(settings_set@),
            merged@ == merged_upto(all, i as int),
        decreases settings_set@.len() - i,
    {
        assert(all[i as int] == settings_set@[i as int]@);
        merge_one(&mut merged, settings_set[i]);
        i += 1;
    }
    merged.ip_family = Some(copy_str("ipv4v6"));
    merged
}

// ------------------------------------------------------------ interface settings

/// What the interface of a session is set up with.
#[derive(Debug)]
pub struct NetdevConfig {
    pub address: IpAddr,
    pub prefix: Option<u8>,
    pub mtu: Option<u32>,
    pub dns: Vec<IpAddr>,
    pub gateway: Option<IpAddr>,
}

#[verifier::ext_equal]
pub struct Netdev {
    pub address: IpAddr,
    pub prefix: Option<u8>,
    pub mtu: Option<u32>,
    pub dns: Seq<IpAddr>,
    pub gateway: Option<IpAddr>,
}

impl View for NetdevConfig {
    type V = Netdev;

    open spec fn view(&self) -> Netdev {
        Netdev {
            address: self.address,
            prefix: self.prefix,
            mtu: self.mtu,
            dns: self.dns@,
            gateway: self.gateway,
        }
    }
}

pub open spec fn ip_in(value: Option<Seq<char>>) -> Option<IpAddr> {
    match value {
        Some(v) => ip_text::ip_text(v),
        None => None,
    }
}

/// The items that are addresses.
pub open spec fn ips_upto(items: Seq<Seq<char>>, n: int) -> Seq<IpAddr>
    decreases n,
{
    if n <= 0 {
        seq![]
    } else {
        match ip_text::ip_text(items[n - 1]) {
            Some(a) => ips_upto(items, n - 1).push(a),
            None => ips_upto(items, n - 1),
        }
    }
}

pub open spec fn family_of(s: Current, family: u8) -> FamilySettings {
    if family == 6 {
        s.v6
    } else {
        s.v4
    }
}

/// The interface setup for one family; none where the session has no address in
/// it.
pub open spec fn netdev_for(s: Current, family: u8) -> Option<Netdev> {
    let f = family_of(s, family);
    match ip_in(f.address) {
        Some(address) => Some(
            Netdev {
                address,
                prefix: f.prefix,
                mtu: s.mtu,
                dns: ips_upto(f.dns, f.dns.len() as int),
                gateway: ip_in(f.gateway),
            },
        ),
        None => None,
    }
}

fn read_ip(value: &Option<String>) -> (r: Option<IpAddr>)
    ensures
        r == ip_in(text::opt_text(*value)),
{
    match value {
        Some(v) => {
            let chars = text::chars_of(v.as_str());
            ip_text::parse_ip_chars(chars.as_slice())
        },
        None => None,
    }
}

fn read_ips(items: &Vec<String>) -> (r: Vec<IpAddr>)
    ensures
        r@ == ips_upto(text::texts(items@), items@.len() as int),
{
    let ghost all = text::texts(items@);
    let mut out: Vec<IpAddr> = Vec::new();
    let mut i: usize = 0;
    while i < items.len()
        invariant
            i <= items@.len(),
            all == text::texts(items@),
            out@ == ips_upto(all, i as int),
        decreases items@.len() - i,
    {
        assert(all[i as int] == items@[i as int]@);
        let chars = text::chars_of(items[i].as_str());
        if let Some(a) = ip_text::parse_ip_chars(chars.as_slice()) {
            out.push(a);
        }
        i += 1;
    }
    out
}

pub fn netdev_config_for(settings: &CurrentSettings, family: u8) -> (r: Option<NetdevConfig>)
    ensures
        match r {
            Some(config) => netdev_for(settings@, family) == Some(config@),
            None => netdev_for(settings@, family) is None,
        },
{
    let (address, gateway, dns, prefix) = if family == 6 {
        (
            &settings.ipv6_address,
            &settings.ipv6_gateway,
            &settings.ipv6_dns,
            settings.ipv6_prefix,
        )
    } else {
        (
            &settings.ipv4_address,
            &settings.ipv4_gateway,
            &settings.ipv4_dns,
            settings.ipv4_prefix,
        )
    };
    match read_ip(address) {
        Some(address) => Some(
            NetdevConfig {
                address,
                prefix,
                mtu: settings.mtu,
                dns: read_ips(dns),
                gateway: read_ip(gateway),
            },
        ),
        None => None,
    }
}

// --------------------------------------------------------------- the bearer view

/// An address in front of a prefix length.
pub open spec fn bare_addr(value: Option<Seq<char>>) -> Option<IpAddr> {
    match value {
        Some(v) => ip_text::ip_text(text::trim(text::before(v, '/'))),
        None => None,
    }
}

pub fn parse_addr(value: Option<&str>) -> (r: Option<IpAddr>)
    ensures
        r == bare_addr(
            match value {
                Some(v) => Some(v@),
                None => None,
            },
        ),
{
    match value {
        Some(v) => {
            let chars = text::chars_of(v);
            let head = text::part_before(chars.as_slice(), '/');
            ip_text::parse_ip_chars(text::trimmed(head))
        },
        None => None,
    }
}

fn parse_opt(value: &Option<String>) -> (r: Option<IpAddr>)
    ensures
        r == bare_addr(text::opt_text(*value)),
{
    match value {
        Some(v) => parse_addr(Some(v.as_str())),
        None => None,
    }
}

/// The addresses among the items, each once.
pub open spec fn bare_addrs(items: Seq<Seq<char>>, n: int) -> Seq<IpAddr>
    decreases n,
{
    if n <= 0 {
        seq![]
    } else {
        access::volte::pcscf::with_addr(bare_addrs(items, n - 1), bare_addr(Some(items[n - 1])))
    }
}

pub fn parse_addrs(values: &Vec<String>) -> (r: Vec<IpAddr>)
    ensures
        r@ == bare_addrs(text::texts(values@), values@.len() as int),
{
    let ghost all = text::texts(values@);
    let mut out: Vec<IpAddr> = Vec::new();
    let mut i: usize = 0;
    while i < values.len()
        invariant
            i <= values@.len(),
            all == text::texts(values@),
            out@ == bare_addrs(all, i as int),
        decreases values@.len() - i,
    {
        assert(all[i as int] == values@[i as int]@);
        if let Some(a) = parse_addr(Some(values[i].as_str())) {
            if !has_addr(&out, a) {
                out.push(a);
            }
        }
        i += 1;
    }
    out
}

pub open spec fn ims_settings(s: Current) -> Settings {
    Settings {
        ipv6_address: bare_addr(s.v6.address),
        ipv6_gateway: bare_addr(s.v6.gateway),
        ipv6_dns: bare_addrs(s.v6.dns, s.v6.dns.len() as int),
        ipv4_address: bare_addr(s.v4.address),
        ipv4_gateway: bare_addr(s.v4.gateway),
        ipv4_dns: bare_addrs(s.v4.dns, s.v4.dns.len() as int),
        pcscf: bare_addrs(s.pcscf, s.pcscf.len() as int),
    }
}

/// A session as a bearer; none where it has no address.
pub open spec fn bearer_of(
    device: Seq<char>,
    handle: Seq<char>,
    interface: Seq<char>,
    family: u8,
    s: Current,
) -> Option<Bearer> {
    if access::volte::pcscf::local_of(ims_settings(s)) is None {
        None
    } else {
        Some(
            Bearer {
                path: bearer::marked_path(NATIVE_BEARER_PATH_PREFIX@, device, handle),
                interface,
                ip_type: if family == 6 {
                    "ipv6"@
                } else {
                    "ipv4"@
                },
                settings: ims_settings(s),
                ipv4_prefix: s.v4.prefix,
                ipv6_prefix: s.v6.prefix,
                mtu: s.mtu,
            },
        )
    }
}

pub open spec fn lacks_address(e: VolteError) -> bool {
    e.code_spec() == code::IP_SETTINGS_MISSING@ && e.detail_spec() == Some(
        "native_ims_session_has_no_address"@,
    )
}

fn no_address() -> (r: VolteError)
    ensures
        lacks_address(r),
{
    CellularImsError::with_detail(
        code::IP_SETTINGS_MISSING,
        copy_str("native_ims_session_has_no_address"),
    )
}

pub fn to_bearer_connection(
    device_path: &str,
    handle: &str,
    interface: &str,
    ip_family: u8,
    settings: &CurrentSettings,
) -> (r: Result<BearerConnection, VolteError>)
    ensures
        match r {
            Ok(b) => bearer_of(device_path@, handle@, interface@, ip_family, settings@) == Some(
                b@,
            ),
            Err(e) => bearer_of(device_path@, handle@, interface@, ip_family, settings@) is None
                && lacks_address(e),
        },
{
    let ims = ImsIpSettings {
        ipv4_address: parse_opt(&settings.ipv4_address),
        ipv4_gateway: parse_opt(&settings.ipv4_gateway),
        ipv4_dns: parse_addrs(&settings.ipv4_dns),
        ipv6_address: parse_opt(&settings.ipv6_address),
        ipv6_gateway: parse_opt(&settings.ipv6_gateway),
        ipv6_dns: parse_addrs(&settings.ipv6_dns),
        pcscf: parse_addrs(&settings.pcscf),
    };
    assert(ims@ =~= ims_settings(settings@));
    if ims.local_addr().is_none() {
        return Err(no_address());
    }
    Ok(
        BearerConnection {
            path: native_bearer_path(device_path, handle),
            interface: copy_str(interface),
            ip_type: if ip_family == 6 {
                copy_str("ipv6")
            } else {
                copy_str("ipv4")
            },
            settings: ims,
            ipv4_prefix: settings.ipv4_prefix,
            ipv6_prefix: settings.ipv6_prefix,
            mtu: settings.mtu,
        },
    )
}

// -------------------------------------------------------------------- WDS errors

/// What went wrong with a session.
#[derive(Debug)]
pub enum WdsError {
    BasebandWedged(String),
    StartFailed { reason: String },
    SettingsUnavailable(String),
    Failed(String),
}

pub open spec fn wds_text(e: WdsError) -> Seq<char> {
    match e {
        WdsError::BasebandWedged(d) => plan::WEDGE_MARKER@ + d@,
        WdsError::StartFailed { reason } => "wds_start_failed:"@ + reason@,
        WdsError::SettingsUnavailable(d) => "wds_settings_unavailable:"@ + d@,
        WdsError::Failed(d) => "wds_failed:"@ + d@,
    }
}

fn prefixed(prefix: &str, rest: &str) -> (r: String)
    ensures
        r@ == prefix@ + rest@,
{
    let mut out = text::chars_of(prefix);
    text::push_str(&mut out, rest);
    text::string_of(out.as_slice())
}

impl WdsError {
    pub fn render(&self) -> (r: String)
        ensures
            r@ == wds_text(*self),
    {
        match self {
            WdsError::BasebandWedged(d) => prefixed(plan::WEDGE_MARKER, d.as_str()),
            WdsError::StartFailed { reason } => prefixed("wds_start_failed:", reason.as_str()),
            WdsError::SettingsUnavailable(d) => prefixed("wds_settings_unavailable:", d.as_str()),
            WdsError::Failed(d) => prefixed("wds_failed:", d.as_str()),
        }
    }
}

/// The error of the stack for an error of a session. Its detail keeps the words
/// that the retry decision goes by.
pub fn wds_error_to_volte(error: WdsError) -> (r: VolteError)
    ensures
        r.detail_spec() == Some(wds_text(error)),
        r.code_spec() == if error is SettingsUnavailable {
            code::IP_SETTINGS_MISSING@
        } else {
            code::RUNTIME_MM_BEARER_CONNECT_FAILED@
        },
{
    let detail = error.render();
    match error {
        WdsError::SettingsUnavailable(_) => CellularImsError::with_detail(
            code::IP_SETTINGS_MISSING,
            detail,
        ),
        _ => CellularImsError::with_detail(code::RUNTIME_MM_BEARER_CONNECT_FAILED, detail),
    }
}

// ------------------------------------------------------------------ establishing

/// An error as a value.
pub struct ErrorValue {
    pub code: Seq<char>,
    pub detail: Option<Seq<char>>,
}

pub open spec fn error_value(e: VolteError) -> ErrorValue {
    ErrorValue { code: e.code_spec(), detail: e.detail_spec() }
}

/// Before anything is started: the control port has to be reachable, and its
/// baseband known.
pub open spec fn endpoint_problem(
    device: Seq<char>,
    proxy_ready: bool,
    baseband: Result<Seq<char>, Seq<char>>,
) -> Option<ErrorValue> {
    if !proxy_ready {
        Some(
            ErrorValue {
                code: code::RUNTIME_MM_BEARER_CONNECT_FAILED@,
                detail: Some("qmi_proxy_unavailable:"@ + device),
            },
        )
    } else {
        match baseband {
            Ok(key) => None,
            Err(error) => Some(
                ErrorValue {
                    code: code::IP_SETTINGS_MISSING@,
                    detail: Some("native_ims_baseband_unresolved:"@ + error),
                },
            ),
        }
    }
}

pub open spec fn text_result(r: Result<String, String>) -> Result<Seq<char>, Seq<char>> {
    match r {
        Ok(s) => Ok(s@),
        Err(s) => Err(s@),
    }
}

pub fn check_endpoint(
    device: &str,
    proxy_ready: bool,
    baseband: &Result<String, String>,
) -> (r: Option<VolteError>)
    ensures
        match r {
            Some(e) => endpoint_problem(device@, proxy_ready, text_result(*baseband)) == Some(
                error_value(e),
            ),
            None => endpoint_problem(device@, proxy_ready, text_result(*baseband)) is None,
        },
{
    if !proxy_ready {
        return Some(
            CellularImsError::with_detail(
                code::RUNTIME_MM_BEARER_CONNECT_FAILED,
                prefixed("qmi_proxy_unavailable:", device),
            ),
        );
    }
    match baseband {
        Ok(key) => None,
        Err(error) => Some(
            CellularImsError::with_detail(
                code::IP_SETTINGS_MISSING,
                prefixed("native_ims_baseband_unresolved:", error.as_str()),
            ),
        ),
    }
}

/// What is tried next.
#[derive(Debug, Clone, Copy, PartialEq, Eq, Structural)]
pub enum Attempt {
    /// A session for each of two families.
    Dual(u8, u8),
    Single(u8),
    Exhausted,
}

/// The attempts that are left.
#[derive(Debug)]
pub struct BearerSetup {
    pub families: Vec<u8>,
    pub dual: bool,
    pub next: usize,
    pub last_error: Option<VolteError>,
}

#[verifier::ext_equal]
pub struct Setup {
    pub families: Seq<u8>,
    pub dual: bool,
    pub next: int,
    pub last_error: Option<ErrorValue>,
}

impl View for BearerSetup {
    type V = Setup;

    open spec fn view(&self) -> Setup {
        Setup {
            families: self.families@,
            dual: self.dual,
            next: self.next as int,
            last_error: match self.last_error {
                Some(e) => Some(error_value(e)),
                None => None,
            },
        }
    }
}

pub open spec fn setup_wf(s: Setup) -> bool {
    &&& 0 <= s.next <= s.families.len()
    &&& s.dual ==> s.families.len() >= 2 && s.next == 0
}

/// Both families together come first where the plan begins with that.
pub open spec fn setup_start(p: Plan) -> Setup {
    let families = plan::family_numbers(p);
    Setup {
        families,
        dual: plan::first_attempt(p) == Some(IpType::Ipv4v6) && families.len() >= 2,
        next: 0,
        last_error: None,
    }
}

pub open spec fn setup_attempt(s: Setup) -> Attempt {
    if s.dual {
        Attempt::Dual(s.families[0], s.families[1])
    } else if s.next < s.families.len() {
        Attempt::Single(s.families[s.next])
    } else {
        Attempt::Exhausted
    }
}

pub open spec fn class_of_value(e: ErrorValue) -> FailureClass {
    plan::class_of_detail(
        match e.detail {
            Some(d) => d,
            None => seq![],
        },
    )
}

/// The attempts that are left after one failed; or the error, where another
/// attempt would do harm. A network that allows one family alone, when it was
/// asked for both, is asked for that one.
pub open spec fn setup_failed(s: Setup, e: ErrorValue) -> Result<Setup, ErrorValue> {
    if class_of_value(e) == FailureClass::BasebandWedged {
        Err(e)
    } else if s.dual {
        Ok(
            Setup {
                dual: false,
                families: match forced_number(class_of_value(e)) {
                    Some(forced) => seq![forced],
                    None => s.families,
                },
                ..s
            },
        )
    } else {
        Ok(Setup { next: s.next + 1, last_error: Some(e), ..s })
    }
}

/// The error once nothing is left to try.
pub open spec fn setup_error(s: Setup) -> ErrorValue {
    match s.last_error {
        Some(e) => e,
        None => ErrorValue {
            code: code::RUNTIME_MM_BEARER_CONNECT_FAILED@,
            detail: Some("native_ims_no_family_attempted"@),
        },
    }
}

impl BearerSetup {
    pub open spec fn wf(&self) -> bool {
        setup_wf(self@)
    }

    pub fn new(plan: &ImsConnectionPlan) -> (r: Self)
        ensures
            r.wf(),
            r@ == setup_start(plan@),
    {
        let families = qmi_families_for(plan);
        let dual = match plan.initial_bearer_attempt() {
            Some(IpType::Ipv4v6) => families.len() >= 2,
            _ => false,
        };
        BearerSetup { families, dual, next: 0, last_error: None }
    }

    pub fn attempt(&self) -> (r: Attempt)
        requires
            self.wf(),
        ensures
            r == setup_attempt(self@),
    {
        if self.dual {
            Attempt::Dual(self.families[0], self.families[1])
        } else if self.next < self.families.len() {
            Attempt::Single(self.families[self.next])
        } else {
            Attempt::Exhausted
        }
    }

    /// Notes that the attempt failed.
    pub fn failed(self, error: VolteError) -> (r: Result<BearerSetup, VolteError>)
        requires
            self.wf(),
            setup_attempt(self@) != Attempt::Exhausted,
        ensures
            match r {
                Ok(after) => after.wf() && setup_failed(self@, error_value(error)) == Ok::<
                    _,
                    ErrorValue,
                >(after@),
                Err(e) => setup_failed(self@, error_value(error)) == Err::<Setup, _>(
                    error_value(e),
                ),
            },
    {
        let mut after = self;
        let class = class_in(&error);
        if class.is_unsafe_to_retry() {
            return Err(error);
        }
        if after.dual {
            after.dual = false;
            if let Some(forced) = forced_qmi_family(class) {
                after.families = vec![forced];
                assert(after.families@ =~= seq![forced]);
            }
        } else {
            let total: usize = after.families.len();
            assert(after.next < total);
            after.next = after.next + 1;
            after.last_error = Some(error);
        }
        Ok(after)
    }

    pub fn give_up(self) -> (r: VolteError)
        ensures
            error_value(r) == setup_error(self@),
    {
        match self.last_error {
            Some(e) => e,
            None => CellularImsError::with_detail(
                code::RUNTIME_MM_BEARER_CONNECT_FAILED,
                copy_str("native_ims_no_family_attempted"),
            ),
        }
    }
}

/// A session that is up.
#[derive(Debug)]
pub struct ImsSession {
    pub packet_data_handle: String,
    pub ip_family: u8,
    pub settings: CurrentSettings,
}

#[verifier::ext_equal]
pub struct Session {
    pub handle: Seq<char>,
    pub family: u8,
    pub current: Current,
}

impl View for ImsSession {
    type V = Session;

    open spec fn view(&self) -> Session {
        Session {
            handle: self.packet_data_handle@,
            family: self.ip_family,
            current: self.settings@,
        }
    }
}

pub open spec fn sessions_of(list: Seq<ImsSession>) -> Seq<Session> {
    list.map_values(|s: ImsSession| s@)
}

/// Which interface carries a session, and how that was found out.
#[derive(Debug)]
pub struct ResolvedNetdev {
    pub interface: String,
    pub method: String,
}

pub open spec fn interfaces_of(list: Seq<ResolvedNetdev>) -> Seq<Seq<char>> {
    list.map_values(|n: ResolvedNetdev| n.interface@)
}

/// What the interface of a session has to be probed with.
pub fn session_netdev(session: &ImsSession) -> (r: Result<NetdevConfig, VolteError>)
    ensures
        match r {
            Ok(config) => netdev_for(session@.current, session@.family) == Some(config@),
            Err(e) => netdev_for(session@.current, session@.family) is None && lacks_address(e),
        },
{
    match netdev_config_for(&session.settings, session.ip_family) {
        Some(config) => Ok(config),
        None => Err(no_address()),
    }
}

/// The error for an interface that was not found.
pub fn netdev_unresolved(error: &str) -> (r: VolteError)
    ensures
        error_value(r) == (ErrorValue {
            code: code::IP_SETTINGS_MISSING@,
            detail: Some("native_ims_netdev_unresolved:"@ + error@),
        }),
{
    CellularImsError::with_detail(
        code::IP_SETTINGS_MISSING,
        prefixed("native_ims_netdev_unresolved:", error),
    )
}

/// The interface settings that sessions left behind, session by session.
pub open spec fn configured_upto(
    sessions: Seq<Session>,
    interfaces: Seq<Seq<char>>,
    n: int,
) -> Seq<(Seq<char>, Netdev)>
    decreases n,
{
    if n <= 0 {
        seq![]
    } else {
        let before = configured_upto(sessions, interfaces, n - 1);
        match netdev_for(sessions[n - 1].current, sessions[n - 1].family) {
            Some(config) => before.push((interfaces[n - 1], config)),
            None => before,
        }
    }
}

pub open spec fn configured(sessions: Seq<Session>, interfaces: Seq<Seq<char>>) -> Seq<
    (Seq<char>, Netdev),
> {
    configured_upto(
        sessions,
        interfaces,
        if sessions.len() <= interfaces.len() {
            sessions.len() as int
        } else {
            interfaces.len() as int
        },
    )
}

pub open spec fn netdev_pairs(list: Seq<(String, NetdevConfig)>) -> Seq<(Seq<char>, Netdev)> {
    list.map_values(|p: (String, NetdevConfig)| (p.0@, p.1@))
}

pub fn configured_netdevs(sessions: &Vec<ImsSession>, resolutions: &Vec<ResolvedNetdev>) -> (r: Vec<
    (String, NetdevConfig),
>)
    ensures
        netdev_pairs(r@) == configured(sessions_of(sessions@), interfaces_of(resolutions@)),
{
    let ghost ss = sessions_of(sessions@);
    let ghost ns = interfaces_of(resolutions@);
    let count: usize = if sessions.len() <= resolutions.len() {
        sessions.len()
    } else {
        resolutions.len()
    };
    let mut out: Vec<(String, NetdevConfig)> = Vec::new();
    assert(netdev_pairs(out@) =~= configured_upto(ss, ns, 0));
    let mut i: usize = 0;
    while i < count
        invariant
            i <= count,
            count <= sessions@.len(),
            count <= resolutions@.len(),
            ss == sessions_of(sessions@),
            ns == interfaces_of(resolutions@),
            netdev_pairs(out@) == configured_upto(ss, ns, i as int),
        decreases count - i,
    {
        assert(ss[i as int] == sessions@[i as int]@);
        assert(ns[i as int] == resolutions@[i as int].interface@);
        if let Some(config) = netdev_config_for(&sessions[i].settings, sessions[i].ip_family) {
            let ghost before = netdev_pairs(out@);
            out.push((copy_str(resolutions[i].interface.as_str()), config));
            assert(netdev_pairs(out@) =~= before.push((ns[i as int], config@)));
        }
        i += 1;
    }
    out
}

/// A bearer that is up, with what has to be undone when it goes.
#[derive(Debug)]
pub struct NativeImsBearer {
    pub connection: BearerConnection,
    pub sessions: Vec<ImsSession>,
    pub netdev: ResolvedNetdev,
    pub configured_netdevs: Vec<(String, NetdevConfig)>,
}

/// Sessions that did not become a bearer: the interface settings to take back
/// first, then the sessions to stop.
#[derive(Debug)]
pub struct Abandoned {
    pub error: VolteError,
    pub netdevs: Vec<(String, NetdevConfig)>,
    pub sessions: Vec<ImsSession>,
}

pub open spec fn joined_handles(sessions: Seq<Session>, n: int) -> Seq<char>
    decreases n,
{
    if n <= 0 {
        seq![]
    } else if n == 1 {
        sessions[0].handle
    } else {
        joined_handles(sessions, n - 1) + "+"@ + sessions[n - 1].handle
    }
}

pub open spec fn all_same(list: Seq<Seq<char>>) -> bool {
    forall|i: int| 0 <= i < list.len() ==> #[trigger] list[i] == list[0]
}

pub open spec fn session_currents(sessions: Seq<Session>) -> Seq<Current> {
    sessions.map_values(|s: Session| s.current)
}

pub open spec fn merged_sessions(sessions: Seq<Session>) -> Current {
    Current {
        ip_family: Some("ipv4v6"@),
        ..merged_upto(session_currents(sessions), sessions.len() as int)
    }
}

/// The bearer of the sessions of both families: they have to be on one interface.
pub open spec fn dual_bearer(
    device: Seq<char>,
    sessions: Seq<Session>,
    interfaces: Seq<Seq<char>>,
) -> Result<Bearer, ErrorValue> {
    if interfaces.len() == 0 {
        Err(ErrorValue { code: code::IP_SETTINGS_MISSING@, detail: None })
    } else if !all_same(interfaces) {
        Err(
            ErrorValue {
                code: code::IP_SETTINGS_MISSING@,
                detail: Some("native_ims_dual_stack_netdev_mismatch"@),
            },
        )
    } else {
        match bearer_of(
            device,
            joined_handles(sessions, sessions.len() as int),
            interfaces[0],
            0,
            merged_sessions(sessions),
        ) {
            Some(b) => Ok(Bearer { ip_type: "ipv4v6"@, ..b }),
            None => Err(
                ErrorValue {
                    code: code::IP_SETTINGS_MISSING@,
                    detail: Some("native_ims_session_has_no_address"@),
                },
            ),
        }
    }
}

fn join_handles(sessions: &Vec<ImsSession>) -> (r: String)
    ensures
        r@ == joined_handles(sessions_of(sessions@), sessions@.len() as int),
{
    let ghost ss = sessions_of(sessions@);
    let mut out: Vec<char> = Vec::new();
    let mut i: usize = 0;
    while i < sessions.len()
        invariant
            i <= sessions@.len(),
            ss == sessions_of(sessions@),
            out@ == joined_handles(ss, i as int),
        decreases sessions@.len() - i,
    {
        assert(ss[i as int] == sessions@[i as int]@);
        if i > 0 {
            text::push_str(&mut out, "+");
            text::push_str(&mut out, sessions[i].packet_data_handle.as_str());
        } else {
            out = text::chars_of(sessions[i].packet_data_handle.as_str());
        }
        i += 1;
    }
    text::string_of(out.as_slice())
}

fn merge_session_settings(sessions: &Vec<ImsSession>) -> (r: CurrentSettings)
    ensures
        r@ == merged_sessions(sessions_of(sessions@)),
{
    let ghost ss = sessions_of(sessions@);
    let mut refs: Vec<&CurrentSettings> = Vec::new();
    let mut i: usize = 0;
    while i < sessions.len()
        invariant
            i <= sessions@.len(),
            refs@.len() == i,
            forall|j: int| 0 <= j < i ==> #[trigger] refs@[j] == sessions@[j].settings,
        decreases sessions@.len() - i,
    {
        refs.push(&sessions[i].settings);
        i += 1;
    }
    assert(currents(refs@) =~= session_currents(ss));
    merge_current_settings(refs.as_slice())
}

fn same_interfaces(list: &Vec<ResolvedNetdev>) -> (r: bool)
    requires
        list@.len() > 0,
    ensures
        r == all_same(interfaces_of(list@)),
{
    let ghost all = interfaces_of(list@);
    assert(all[0] == list@[0].interface@);
    let mut i: usize = 0;
    while i < list.len()
        invariant
            i <= list@.len(),
            list@.len() > 0,
            all == interfaces_of(list@),
            all[0] == list@[0].interface@,
            forall|j: int| 0 <= j < i ==> #[trigger] all[j] == all[0],
        decreases list@.len() - i,
    {
        assert(all[i as int] == list@[i as int].interface@);
        if !text::str_same(list[i].interface.as_str(), list[0].interface.as_str()) {
            return false;
        }
        i += 1;
    }
    true
}

/// The bearer of the sessions of both families, or what has to be undone.
pub fn finish_dual_stack(
    device: &str,
    sessions: Vec<ImsSession>,
    resolutions: Vec<ResolvedNetdev>,
) -> (r: Result<NativeImsBearer, Abandoned>)
    ensures
        match r {
            Ok(b) => {
                &&& dual_bearer(device@, sessions_of(sessions@), interfaces_of(resolutions@)) == Ok::<
                    _,
                    ErrorValue,
                >(b.connection@)
                &&& b.sessions@ == sessions@
                &&& b.netdev.interface@ == interfaces_of(resolutions@)[0]
                &&& b.netdev.method@ == resolutions@[0].method@
                &&& netdev_pairs(b.configured_netdevs@) == configured(
                    sessions_of(sessions@),
                    interfaces_of(resolutions@),
                )
            },
            Err(a) => {
                &&& dual_bearer(device@, sessions_of(sessions@), interfaces_of(resolutions@))
                    == Err::<Bearer, _>(error_value(a.error))
                &&& a.sessions@ == sessions@
                &&& netdev_pairs(a.netdevs@) == configured(
                    sessions_of(sessions@),
                    interfaces_of(resolutions@),
                )
            },
        },
{
    let netdevs = configured_netdevs(&sessions, &resolutions);
    if resolutions.len() == 0 {
        return Err(
            Abandoned {
                error: CellularImsError::new(code::IP_SETTINGS_MISSING),
                netdevs,
                sessions,
            },
        );
    }
    assert(interfaces_of(resolutions@)[0] == resolutions@[0].interface@);
    if !same_interfaces(&resolutions) {
        return Err(
            Abandoned {
                error: CellularImsError::with_detail(
                    code::IP_SETTINGS_MISSING,
                    copy_str("native_ims_dual_stack_netdev_mismatch"),
                ),
                netdevs,
                sessions,
            },
        );
    }
    let settings = merge_session_settings(&sessions);
    let handles = join_handles(&sessions);
    match to_bearer_connection(
        device,
        handles.as_str(),
        resolutions[0].interface.as_str(),
        0,
        &settings,
    ) {
        Ok(connection) => {
            let mut connection = connection;
            connection.ip_type = copy_str("ipv4v6");
            let netdev = ResolvedNetdev {
                interface: copy_str(resolutions[0].interface.as_str()),
                method: copy_str(resolutions[0].method.as_str()),
            };
            Ok(NativeImsBearer { connection, sessions, netdev, configured_netdevs: netdevs })
        },
        Err(error) => Err(Abandoned { error, netdevs, sessions }),
    }
}

/// The bearer of one session.
pub open spec fn single_bearer(device: Seq<char>, session: Session, interface: Seq<char>) -> Option<
    Bearer,
> {
    bearer_of(device, session.handle, interface, session.family, session.current)
}

/// The bearer of one session, or what has to be undone.
pub fn finish_one(device: &str, session: ImsSession, resolution: ResolvedNetdev) -> (r: Result<
    NativeImsBearer,
    Abandoned,
>)
    ensures
        match r {
            Ok(b) => {
                &&& single_bearer(device@, session@, resolution.interface@) == Some(b.connection@)
                &&& b.sessions@ == seq![session]
                &&& b.netdev == resolution
                &&& netdev_pairs(b.configured_netdevs@) == configured(
                    seq![session@],
                    seq![resolution.interface@],
                )
            },
            Err(a) => {
                &&& single_bearer(device@, session@, resolution.interface@) is None
                &&& lacks_address(a.error)
                &&& a.sessions@ == seq![session]
                &&& netdev_pairs(a.netdevs@) == configured(
                    seq![session@],
                    seq![resolution.interface@],
                )
            },
        },
{
    let connection = to_bearer_connection(
        device,
        session.packet_data_handle.as_str(),
        resolution.interface.as_str(),
        session.ip_family,
        &session.settings,
    );
    let mut netdevs: Vec<(String, NetdevConfig)> = Vec::new();
    let config = netdev_config_for(&session.settings, session.ip_family);
    let interface = copy_str(resolution.interface.as_str());
    proof {
        reveal_with_fuel(configured_upto, 2);
    }
    if let Some(config) = config {
        netdevs.push((interface, config));
    }
    assert(netdev_pairs(netdevs@) =~= configured(seq![session@], seq![resolution.interface@]));
    let sessions = vec![session];
    assert(sessions@ =~= seq![session]);
    match connection {
        Ok(connection) => Ok(
            NativeImsBearer {
                connection,
                sessions,
                netdev: resolution,
                configured_netdevs: netdevs,
            },
        ),
        Err(error) => Err(Abandoned { error, netdevs, sessions }),
    }
}

// ------------------------------------------------------------------ one attempt

/// An attempt that is under way: one session for each family is started, in order,
/// and then the interface of each is found.
#[derive(Debug)]
pub struct SessionStart {
    pub device: String,
    pub families: Vec<u8>,
    pub sessions: Vec<ImsSession>,
    pub resolutions: Vec<ResolvedNetdev>,
}

/// What became of what an attempt asked for.
#[derive(Debug)]
pub enum SessionEvent {
    Started(ImsSession),
    StartFailed(WdsError),
    Resolved(ResolvedNetdev),
    ResolveFailed(String),
}

/// What an attempt does next.
#[derive(Debug)]
pub enum SessionAction {
    /// A session of this family is started.
    Start(SessionStart, u8),
    /// The interface is found that carries this.
    Resolve(SessionStart, NetdevConfig),
    Done(NativeImsBearer),
    Undo(Abandoned),
}

/// An attempt as a value.
#[verifier::ext_equal]
pub struct Starting {
    pub device: Seq<char>,
    pub families: Seq<u8>,
    pub sessions: Seq<Session>,
    pub interfaces: Seq<Seq<char>>,
    pub methods: Seq<Seq<char>>,
}

pub open spec fn methods_of(list: Seq<ResolvedNetdev>) -> Seq<Seq<char>> {
    list.map_values(|n: ResolvedNetdev| n.method@)
}

impl View for SessionStart {
    type V = Starting;

    open spec fn view(&self) -> Starting {
        Starting {
            device: self.device@,
            families: self.families@,
            sessions: sessions_of(self.sessions@),
            interfaces: interfaces_of(self.resolutions@),
            methods: methods_of(self.resolutions@),
        }
    }
}

/// A bearer that is up, as a value.
#[verifier::ext_equal]
pub struct Established {
    pub connection: Bearer,
    pub sessions: Seq<Session>,
    pub interface: Seq<char>,
    pub method: Seq<char>,
    pub netdevs: Seq<(Seq<char>, Netdev)>,
}

pub open spec fn established(b: NativeImsBearer) -> Established {
    Established {
        connection: b.connection@,
        sessions: sessions_of(b.sessions@),
        interface: b.netdev.interface@,
        method: b.netdev.method@,
        netdevs: netdev_pairs(b.configured_netdevs@),
    }
}

/// What has to be undone, as a value.
#[verifier::ext_equal]
pub struct Undone {
    pub error: ErrorValue,
    pub netdevs: Seq<(Seq<char>, Netdev)>,
    pub sessions: Seq<Session>,
}

pub open spec fn undone(a: Abandoned) -> Undone {
    Undone {
        error: error_value(a.error),
        netdevs: netdev_pairs(a.netdevs@),
        sessions: sessions_of(a.sessions@),
    }
}

/// What an attempt does next, as a value.
#[verifier::ext_equal]
pub enum StartStep {
    Start(Starting, u8),
    Resolve(Starting, Netdev),
    Done(Established),
    Undo(Undone),
}

impl View for SessionAction {
    type V = StartStep;

    open spec fn view(&self) -> StartStep {
        match self {
            SessionAction::Start(s, family) => StartStep::Start(s@, *family),
            SessionAction::Resolve(s, config) => StartStep::Resolve(s@, config@),
            SessionAction::Done(b) => StartStep::Done(established(*b)),
            SessionAction::Undo(a) => StartStep::Undo(undone(*a)),
        }
    }
}

/// No more sessions than families and no more interfaces than sessions; no interface
/// is found before every session is up.
pub open spec fn starting_wf(s: Starting) -> bool {
    &&& s.sessions.len() <= s.families.len()
    &&& s.interfaces.len() <= s.sessions.len()
    &&& s.methods.len() == s.interfaces.len()
    &&& s.interfaces.len() > 0 ==> s.sessions.len() == s.families.len()
}

pub open spec fn abandoned_start(s: Starting, error: ErrorValue) -> StartStep {
    StartStep::Undo(
        Undone { error, netdevs: configured(s.sessions, s.interfaces), sessions: s.sessions },
    )
}

pub open spec fn address_error() -> ErrorValue {
    ErrorValue {
        code: code::IP_SETTINGS_MISSING@,
        detail: Some("native_ims_session_has_no_address"@),
    }
}

/// The bearer of the sessions of an attempt.
pub open spec fn started_bearer(s: Starting) -> Result<Bearer, ErrorValue> {
    if s.families.len() == 1 {
        match single_bearer(s.device, s.sessions[0], s.interfaces[0]) {
            Some(b) => Ok(b),
            None => Err(address_error()),
        }
    } else {
        dual_bearer(s.device, s.sessions, s.interfaces)
    }
}

/// What an attempt that came so far does next.
pub open spec fn start_step(s: Starting) -> StartStep {
    if s.sessions.len() < s.families.len() {
        StartStep::Start(s, s.families[s.sessions.len() as int])
    } else if s.interfaces.len() < s.sessions.len() {
        let session = s.sessions[s.interfaces.len() as int];
        match netdev_for(session.current, session.family) {
            Some(config) => StartStep::Resolve(s, config),
            None => abandoned_start(s, address_error()),
        }
    } else {
        match started_bearer(s) {
            Ok(connection) => StartStep::Done(
                Established {
                    connection,
                    sessions: s.sessions,
                    interface: s.interfaces[0],
                    method: s.methods[0],
                    netdevs: configured(s.sessions, s.interfaces),
                },
            ),
            Err(e) => abandoned_start(s, e),
        }
    }
}

/// Does the event answer what the attempt asked for?
pub open spec fn start_awaits(s: Starting, event: SessionEvent) -> bool {
    match event {
        SessionEvent::Started(_) | SessionEvent::StartFailed(_) => s.sessions.len()
            < s.families.len(),
        SessionEvent::Resolved(_) | SessionEvent::ResolveFailed(_) => s.sessions.len()
            == s.families.len() && s.interfaces.len() < s.sessions.len(),
    }
}

/// An attempt after an event. Whatever fails, what was started is undone.
pub open spec fn started(s: Starting, event: SessionEvent) -> StartStep {
    match event {
        SessionEvent::Started(session) => start_step(
            Starting { sessions: s.sessions.push(session@), ..s },
        ),
        SessionEvent::StartFailed(error) => abandoned_start(
            s,
            ErrorValue {
                code: if error is SettingsUnavailable {
                    code::IP_SETTINGS_MISSING@
                } else {
                    code::RUNTIME_MM_BEARER_CONNECT_FAILED@
                },
                detail: Some(wds_text(error)),
            },
        ),
        SessionEvent::Resolved(netdev) => start_step(
            Starting {
                interfaces: s.interfaces.push(netdev.interface@),
                methods: s.methods.push(netdev.method@),
                ..s
            },
        ),
        SessionEvent::ResolveFailed(error) => abandoned_start(
            s,
            ErrorValue {
                code: code::IP_SETTINGS_MISSING@,
                detail: Some("native_ims_netdev_unresolved:"@ + error@),
            },
        ),
    }
}

impl SessionStart {
    pub open spec fn wf(&self) -> bool {
        starting_wf(self@)
    }

    /// Begins an attempt for one family or for both.
    pub fn begin(device: &str, families: Vec<u8>) -> (r: SessionAction)
        ensures
            r@ == start_step(
                Starting {
                    device: device@,
                    families: families@,
                    sessions: seq![],
                    interfaces: seq![],
                    methods: seq![],
                },
            ),
            action_wf(r),
    {
        let s = SessionStart {
            device: copy_str(device),
            families,
            sessions: Vec::new(),
            resolutions: Vec::new(),
        };
        assert(s@.sessions =~= seq![]);
        assert(s@.interfaces =~= seq![]);
        assert(s@.methods =~= seq![]);
        s.go_on()
    }

    fn abandon(self, error: VolteError) -> (r: SessionAction)
        ensures
            r@ == abandoned_start(self@, error_value(error)),
    {
        let netdevs = configured_netdevs(&self.sessions, &self.resolutions);
        SessionAction::Undo(Abandoned { error, netdevs, sessions: self.sessions })
    }

    fn finish(self) -> (r: SessionAction)
        requires
            self.wf(),
            self@.sessions.len() == self@.families.len(),
            self@.interfaces.len() == self@.sessions.len(),
        ensures
            r@ == start_step(self@),
    {
        let ghost start = self@;
        assert(self.sessions@.len() == start.sessions.len());
        assert(self.resolutions@.len() == start.interfaces.len());
        let mut sessions = self.sessions;
        let mut resolutions = self.resolutions;
        let finished = if self.families.len() == 1 {
            assert(start.sessions[0] == sessions@[0]@);
            assert(start.interfaces[0] == resolutions@[0].interface@);
            assert(start.methods[0] == resolutions@[0].method@);
            let session = sessions.remove(0);
            let resolution = resolutions.remove(0);
            assert(start.sessions =~= seq![session@]);
            assert(start.interfaces =~= seq![resolution.interface@]);
            assert(sessions_of(seq![session]) =~= start.sessions);
            finish_one(self.device.as_str(), session, resolution)
        } else {
            proof {
                if resolutions@.len() > 0 {
                    assert(start.methods[0] == resolutions@[0].method@);
                }
            }
            finish_dual_stack(self.device.as_str(), sessions, resolutions)
        };
        match finished {
            Ok(bearer) => SessionAction::Done(bearer),
            Err(abandoned) => SessionAction::Undo(abandoned),
        }
    }

    fn go_on(self) -> (r: SessionAction)
        requires
            self.wf(),
        ensures
            r@ == start_step(self@),
            action_wf(r),
    {
        assert(self.sessions@.len() == self@.sessions.len());
        assert(self.resolutions@.len() == self@.interfaces.len());
        let up: usize = self.sessions.len();
        if up < self.families.len() {
            let family: u8 = self.families[up];
            return SessionAction::Start(self, family);
        }
        let found: usize = self.resolutions.len();
        if found < up {
            assert(self@.sessions[found as int] == self.sessions@[found as int]@);
            return match session_netdev(&self.sessions[found]) {
                Ok(config) => SessionAction::Resolve(self, config),
                Err(error) => self.abandon(error),
            };
        }
        self.finish()
    }

    /// Takes what became of what the attempt asked for.
    pub fn advance(self, event: SessionEvent) -> (r: SessionAction)
        requires
            self.wf(),
            start_awaits(self@, event),
        ensures
            r@ == started(self@, event),
            action_wf(r),
    {
        let ghost before = self@;
        let mut s = self;
        match event {
            SessionEvent::StartFailed(error) => s.abandon(wds_error_to_volte(error)),
            SessionEvent::ResolveFailed(error) => s.abandon(netdev_unresolved(error.as_str())),
            SessionEvent::Started(session) => {
                let ghost item = session@;
                s.sessions.push(session);
                assert(s@ =~= (Starting { sessions: before.sessions.push(item), ..before }));
                s.go_on()
            },
            SessionEvent::Resolved(netdev) => {
                let ghost item = netdev;
                s.resolutions.push(netdev);
                assert(s@ =~= (Starting {
                    interfaces: before.interfaces.push(item.interface@),
                    methods: before.methods.push(item.method@),
                    ..before
                }));
                s.go_on()
            },
        }
    }
}

/// An attempt that goes on is well formed, and waits for what it asked for.
pub open spec fn action_wf(a: SessionAction) -> bool {
    match a {
        SessionAction::Start(s, _) => s.wf() && s@.sessions.len() < s@.families.len(),
        SessionAction::Resolve(s, _) => s.wf() && s@.sessions.len() == s@.families.len()
            && s@.interfaces.len() < s@.sessions.len(),
        _ => true,
    }
}

// -------------------------------------------------------------------------- laws

/// The sessions that an attempt has started once it has learned of an event.
pub open spec fn sessions_with(s: Starting, event: SessionEvent) -> Seq<Session> {
    match event {
        SessionEvent::Started(session) => s.sessions.push(session@),
        _ => s.sessions,
    }
}

/// No session is lost: every session that an attempt has started stays with the
/// attempt while it goes on, and is then part of the bearer or among what is undone.
/// With the sessions go the settings of every interface that was found for them.
pub proof fn law_started_sessions_are_kept_or_undone(s: Starting, event: SessionEvent)
    requires
        starting_wf(s),
        start_awaits(s, event),
    ensures
        match started(s, event) {
            StartStep::Start(next, _) => next.sessions == sessions_with(s, event),
            StartStep::Resolve(next, _) => next.sessions == sessions_with(s, event),
            StartStep::Done(b) => {
                &&& b.sessions == sessions_with(s, event)
                &&& b.sessions.len() == s.families.len()
                &&& event matches SessionEvent::Resolved(netdev) && b.netdevs == configured(
                    b.sessions,
                    s.interfaces.push(netdev.interface@),
                )
            },
            StartStep::Undo(u) => {
                &&& u.sessions == sessions_with(s, event)
                &&& u.netdevs == configured(
                    u.sessions,
                    match event {
                        SessionEvent::Resolved(netdev) => s.interfaces.push(netdev.interface@),
                        _ => s.interfaces,
                    },
                )
            },
        },
{
}

proof fn lemma_text_behind_prefix(prefix: Seq<char>, s: Seq<char>, p: Seq<char>)
    requires
        text::has_text(s, p),
    ensures
        text::has_text(prefix + s, p),
{
    text::lemma_find_text(s, p, 0);
    text::lemma_find_text(prefix + s, p, 0);
    let j = text::find_text_from(s, p, 0)->0;
    let k = prefix.len() + j;
    assert((prefix + s).subrange(k, k + p.len()) =~= s.subrange(j, j + p.len()));
    assert(text::at(prefix + s, p, k));
}

/// A text that begins with a marker contains it.
proof fn lemma_text_at_start(marker: Seq<char>, s: Seq<char>)
    ensures
        text::has_text(marker + s, marker),
{
    assert((marker + s).subrange(0, marker.len() as int) =~= marker);
    assert(text::at(marker + s, marker, 0));
}

/// A wedge stays one: the error that any wedge becomes tells of it, whatever the
/// modem said, and so does one of a start that failed with the words of a wedge.
/// Nothing more is tried.
pub proof fn law_wedge_is_never_hidden(error: WdsError, s: Setup, e: ErrorValue)
    requires
        error is BasebandWedged || (error matches WdsError::StartFailed { reason }
            && plan::class_of_detail(reason@) == FailureClass::BasebandWedged),
        e.detail == Some(wds_text(error)),
    ensures
        class_of_value(e) == FailureClass::BasebandWedged,
        setup_failed(s, e) == Err::<Setup, _>(e),
{
    match error {
        WdsError::BasebandWedged(d) => {
            let marker = plan::WEDGE_MARKER@;
            reveal_strlit("wds_baseband_wedged:");
            assert(text::lower_all(marker) =~= marker);
            assert(text::lower_all(marker + d@) =~= marker + text::lower_all(d@));
            lemma_text_at_start(marker, text::lower_all(d@));
        },
        WdsError::StartFailed { reason } => {
            let prefix = text::lower_all("wds_start_failed:"@);
            let low = text::lower_all(reason@);
            assert(text::lower_all("wds_start_failed:"@ + reason@) =~= prefix + low);
            if text::has_text(low, "endpoint hangup"@) {
                lemma_text_behind_prefix(prefix, low, "endpoint hangup"@);
            } else {
                lemma_text_behind_prefix(prefix, low, plan::WEDGE_MARKER@);
            }
        },
        _ => {},
    }
}

/// The path of a native bearer bears the marker, and is no bearer object of the
/// modem manager.
pub proof fn law_native_path_is_told_apart(device: Seq<char>, handle: Seq<char>)
    ensures
        text::starts(
            bearer::marked_path(NATIVE_BEARER_PATH_PREFIX@, device, handle),
            NATIVE_BEARER_PATH_PREFIX@,
        ),
        !bearer::valid_bearer_path(bearer::marked_path(NATIVE_BEARER_PATH_PREFIX@, device, handle)),
{
    let marker = NATIVE_BEARER_PATH_PREFIX@;
    let path = bearer::marked_path(marker, device, handle);
    reveal_strlit("qmi-wds:");
    reveal_strlit("/org/freedesktop/ModemManager1/Bearer/");
    assert(path.subrange(0, marker.len() as int) =~= marker);
    let objects = bearer::BEARER_PATH_PREFIX@;
    if text::starts(path, objects) {
        assert(path.subrange(0, objects.len() as int)[0] == path[0]);
    }
}

/// Every failed attempt leaves fewer, so the attempts come to an end; and a family
/// that the network forces is the only one left.
pub proof fn law_attempts_come_to_an_end(s: Setup, e: ErrorValue)
    requires
        setup_wf(s),
        setup_attempt(s) != Attempt::Exhausted,
    ensures
        setup_failed(s, e) matches Ok(after) ==> {
            &&& setup_wf(after)
            &&& s.dual && !after.dual || !s.dual && !after.dual && after.families.len() - after.next
                < s.families.len() - s.next
            &&& s.dual && forced_number(class_of_value(e)) is Some ==> after.families == seq![
                forced_number(class_of_value(e))->0,
            ]
        },
{
}

} // verus!
