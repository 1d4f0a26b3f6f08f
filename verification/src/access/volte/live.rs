//! Live VoLTE registration: what is read from the device, which challenge is
//! answered and how, and how a connection goes through its stages.

use crate::access::volte::channel::VolteSipChannel;
use crate::access::volte::ipsec::{parse_security_server, SecAgree};
use crate::access::volte::pcscf::{pcscf_socket, VolteError};
use crate::cellular_ims::errors::{code, CellularImsError};
use crate::context::{ImsRoute, SipTransport};
use crate::ims_error::ImsError;
use crate::net::{BoundSocket, IpAddr, SocketAddr};
use crate::outbound::random_bytes;
use crate::register_response::split_sip_list;
use crate::sdp::copy_str;
use crate::sip_frame::{header_value, header_values, value_named};
use crate::{access, ip_text, register_response, sip_frame, text, utf8};
use vstd::prelude::*;
use vstd::slice::slice_subrange;
use vstd::utf8::*;

verus! {

pub const REGISTER_EXPIRES: u32 = 3600;

pub const SECURITY_CLIENT_PORT: u16 = 5062;

pub const SECURITY_SERVER_PORT: u16 = 5064;

// ---------------------------------------------------------------- device identity

/// The value of the first line of a key: `key : value`.
pub open spec fn value_from(lines: Seq<Seq<char>>, key: Seq<char>, i: int) -> Option<Seq<char>>
    decreases lines.len() - i,
{
    if i < 0 || i >= lines.len() {
        None
    } else {
        match text::cut(lines[i], ':') {
            Some((candidate, value)) => if text::trim(candidate) == key {
                Some(text::trim(value))
            } else {
                value_from(lines, key, i + 1)
            },
            None => value_from(lines, key, i + 1),
        }
    }
}

pub open spec fn value_of(output: Seq<char>, key: Seq<char>) -> Option<Seq<char>> {
    value_from(text::lines(output), key, 0)
}

pub fn key_value(output: &str, key: &str) -> (r: Option<String>)
    ensures
        text::opt_text(r) == value_of(output@, key@),
{
    let chars = text::chars_of(output);
    let lines = text::lines_of(chars.as_slice());
    let ghost all = text::lines(output@);
    let mut i: usize = 0;
    assert(lines@.len() == text::views(lines@).len());
    while i < lines.len()
        invariant
            i <= lines@.len(),
            all == text::views(lines@),
            all == text::lines(output@),
            value_of(output@, key@) == value_from(all, key@, i as int),
        decreases lines@.len() - i,
    {
        assert(all[i as int] == lines@[i as int]@);
        if let Some((candidate, value)) = text::split_once(lines[i], ':') {
            if text::is_text(text::trimmed(candidate), key) {
                return Some(text::string_of(text::trimmed(value)));
            }
        }
        i += 1;
    }
    None
}

/// The operator code that a modem reports: five or six octets.
pub open spec fn operator_of(modem: Seq<char>) -> Option<Seq<char>> {
    match value_of(modem, "modem.3gpp.operator-code"@) {
        Some(v) => if encode_utf8(v).len() == 5 || encode_utf8(v).len() == 6 {
            Some(v)
        } else {
            None
        },
        None => None,
    }
}

/// Country and network of a modem, and where its SIM is.
pub struct ModemValue {
    pub mcc: Seq<char>,
    pub mnc: Seq<char>,
    pub sim_path: Seq<char>,
}

pub open spec fn modem_of(output: Seq<char>) -> Option<ModemValue> {
    match (operator_of(output), value_of(output, "modem.generic.sim"@)) {
        (Some(operator), Some(sim_path)) => {
            let bytes = encode_utf8(operator);
            Some(
                ModemValue {
                    mcc: decode_utf8(bytes.subrange(0, 3)),
                    mnc: decode_utf8(bytes.subrange(3, bytes.len() as int)),
                    sim_path,
                },
            )
        },
        _ => None,
    }
}

/// Can an operator code be cut behind the country?
pub open spec fn operator_splits(output: Seq<char>) -> bool {
    operator_of(output) matches Some(operator) ==> {
        let bytes = encode_utf8(operator);
        &&& valid_utf8(bytes.subrange(0, 3))
        &&& valid_utf8(bytes.subrange(3, bytes.len() as int))
    }
}

#[derive(Debug)]
pub struct ModemIdentity {
    pub mcc: String,
    pub mnc: String,
    pub sim_path: String,
}

/// Reads what the modem reports of itself.
pub fn modem_identity(output: &str) -> (r: Result<ModemIdentity, VolteError>)
    requires
        operator_splits(output@),
    ensures
        match r {
            Ok(m) => modem_of(output@) == Some(
                ModemValue { mcc: m.mcc@, mnc: m.mnc@, sim_path: m.sim_path@ },
            ),
            Err(e) => modem_of(output@) is None && e.code_spec() == code::MM_IMSI_MISSING@
                && e.detail_spec() is None,
        },
{
    let operator = match key_value(output, "modem.3gpp.operator-code") {
        Some(v) => v,
        None => {
            return Err(CellularImsError::new(code::MM_IMSI_MISSING));
        },
    };
    let bytes = operator.as_str().as_bytes();
    let total: usize = bytes.len();
    if total != 5 && total != 6 {
        return Err(CellularImsError::new(code::MM_IMSI_MISSING));
    }
    let sim_path = match key_value(output, "modem.generic.sim") {
        Some(v) => v,
        None => {
            return Err(CellularImsError::new(code::MM_IMSI_MISSING));
        },
    };
    let mcc = utf8::decode_strict(slice_subrange(bytes, 0, 3));
    let mnc = utf8::decode_strict(slice_subrange(bytes, 3, total));
    match (mcc, mnc) {
        (Some(mcc), Some(mnc)) => Ok(ModemIdentity { mcc, mnc, sim_path }),
        _ => Err(CellularImsError::new(code::MM_IMSI_MISSING)),
    }
}

pub open spec fn imsi_of(output: Seq<char>) -> Option<Seq<char>> {
    match value_of(output, "sim.properties.imsi"@) {
        Some(v) => if text::all_digits(v) {
            Some(v)
        } else {
            None
        },
        None => None,
    }
}

/// Reads the identity that the SIM reports.
pub fn sim_identity(output: &str) -> (r: Result<String, VolteError>)
    ensures
        match r {
            Ok(imsi) => imsi_of(output@) == Some(imsi@),
            Err(e) => imsi_of(output@) is None && e.code_spec() == code::IMSI_MISSING@
                && e.detail_spec() is None,
        },
{
    if let Some(v) = key_value(output, "sim.properties.imsi") {
        let chars = text::chars_of(v.as_str());
        let mut i: usize = 0;
        let mut good: bool = true;
        while i < chars.len()
            invariant
                i <= chars@.len(),
                good == forall|j: int| 0 <= j < i ==> text::digit(#[trigger] chars@[j]),
            decreases chars@.len() - i,
        {
            if !text::is_digit(chars[i]) {
                good = false;
            }
            i += 1;
        }
        if good {
            return Ok(v);
        }
    }
    Err(CellularImsError::new(code::IMSI_MISSING))
}

// ---------------------------------------------------------------------- challenge

/// A digest challenge.
#[derive(Debug)]
pub struct DigestChallenge {
    pub realm: String,
    pub nonce: String,
    pub algorithm: String,
    pub qop: Option<String>,
    pub proxy: bool,
}

#[verifier::ext_equal]
pub struct Challenge {
    pub realm: Seq<char>,
    pub nonce: Seq<char>,
    pub algorithm: Seq<char>,
    pub qop: Option<Seq<char>>,
    pub proxy: bool,
}

impl View for DigestChallenge {
    type V = Challenge;

    open spec fn view(&self) -> Challenge {
        Challenge {
            realm: self.realm@,
            nonce: self.nonce@,
            algorithm: self.algorithm@,
            qop: text::opt_text(self.qop),
            proxy: self.proxy,
        }
    }
}

/// The value of the first part of a name.
pub open spec fn part_from(parts: Seq<Seq<char>>, name: Seq<char>, i: int) -> Option<Seq<char>>
    decreases parts.len() - i,
{
    if i < 0 || i >= parts.len() {
        None
    } else {
        match sip_frame::named_value(parts[i], name) {
            Some(v) => Some(v),
            None => part_from(parts, name, i + 1),
        }
    }
}

/// What is behind the scheme word, where the scheme is digest.
pub open spec fn digest_parameters(value: Seq<char>) -> Option<Seq<char>> {
    match text::cut(text::trim(value), ' ') {
        Some((scheme, rest)) => if text::alike(scheme, "Digest"@) {
            Some(rest)
        } else {
            None
        },
        None => None,
    }
}

/// A challenge as its header value gives it.
pub open spec fn challenge_in(value: Seq<char>, proxy: bool) -> Result<Challenge, Seq<char>> {
    match digest_parameters(value) {
        None => Err(code::DIGEST_CHALLENGE_MISSING@),
        Some(rest) => {
            let parts = register_response::free_split(rest, ',');
            match (part_from(parts, "realm"@, 0), part_from(parts, "nonce"@, 0)) {
                (None, _) => Err(code::DIGEST_REALM_MISSING@),
                (_, None) => Err(code::DIGEST_NONCE_MISSING@),
                (Some(realm), Some(nonce)) => Ok(
                    Challenge {
                        realm,
                        nonce,
                        algorithm: match part_from(parts, "algorithm"@, 0) {
                            Some(a) => a,
                            None => "AKAv1-MD5"@,
                        },
                        qop: part_from(parts, "qop"@, 0),
                        proxy,
                    },
                ),
            }
        },
    }
}

/// The challenge of a response: of the registrar first, then of a proxy.
pub open spec fn challenge_of(frame: Seq<u8>) -> Result<Challenge, Seq<char>> {
    match sip_frame::header_of(frame, "WWW-Authenticate"@) {
        Some(value) => challenge_in(value, false),
        None => match sip_frame::header_of(frame, "Proxy-Authenticate"@) {
            Some(value) => challenge_in(value, true),
            None => Err(code::DIGEST_CHALLENGE_MISSING@),
        },
    }
}

pub open spec fn challenge_result(r: Result<DigestChallenge, VolteError>) -> Result<
    Challenge,
    Seq<char>,
> {
    match r {
        Ok(c) => Ok(c@),
        Err(e) => Err(e.code_spec()),
    }
}

fn part_value(parts: &Vec<&[char]>, name: &str) -> (r: Option<String>)
    ensures
        text::opt_text(r) == part_from(text::views(parts@), name@, 0),
{
    let ghost all = text::views(parts@);
    let mut i: usize = 0;
    while i < parts.len()
        invariant
            i <= parts@.len(),
            all == text::views(parts@),
            part_from(all, name@, 0) == part_from(all, name@, i as int),
        decreases parts@.len() - i,
    {
        assert(all[i as int] == parts@[i as int]@);
        if let Some(v) = value_named(parts[i], name) {
            return Some(text::string_of(v));
        }
        i += 1;
    }
    None
}

fn read_challenge(value: &str, proxy: bool) -> (r: Result<DigestChallenge, VolteError>)
    ensures
        challenge_result(r) == challenge_in(value@, proxy),
        r matches Err(e) ==> e.detail_spec() is None,
{
    let chars = text::chars_of(value);
    let rest = match text::split_once(text::trimmed(chars.as_slice()), ' ') {
        Some((scheme, rest)) => {
            if !text::is_alike_text(scheme, "Digest") {
                return Err(CellularImsError::new(code::DIGEST_CHALLENGE_MISSING));
            }
            rest
        },
        None => {
            return Err(CellularImsError::new(code::DIGEST_CHALLENGE_MISSING));
        },
    };
    let parts = split_sip_list(rest);
    let realm = match part_value(&parts, "realm") {
        Some(v) => v,
        None => {
            return Err(CellularImsError::new(code::DIGEST_REALM_MISSING));
        },
    };
    let nonce = match part_value(&parts, "nonce") {
        Some(v) => v,
        None => {
            return Err(CellularImsError::new(code::DIGEST_NONCE_MISSING));
        },
    };
    let algorithm = match part_value(&parts, "algorithm") {
        Some(v) => v,
        None => copy_str("AKAv1-MD5"),
    };
    let qop = part_value(&parts, "qop");
    Ok(DigestChallenge { realm, nonce, algorithm, qop, proxy })
}

pub fn parse_digest_challenge(frame: &[u8]) -> (r: Result<DigestChallenge, VolteError>)
    ensures
        challenge_result(r) == challenge_of(frame@),
        r matches Err(e) ==> e.detail_spec() is None,
{
    if let Some(value) = header_value(frame, "WWW-Authenticate") {
        return read_challenge(value.as_str(), false);
    }
    if let Some(value) = header_value(frame, "Proxy-Authenticate") {
        return read_challenge(value.as_str(), true);
    }
    Err(CellularImsError::new(code::DIGEST_CHALLENGE_MISSING))
}

// -------------------------------------------------------------------- own values

/// An association number: never zero.
pub open spec fn usable_spi(n: u32) -> u32 {
    if n == 0 {
        1
    } else {
        n
    }
}

pub open spec fn offer(spi_c: u32, spi_s: u32) -> SecAgree {
    SecAgree {
        spi_c: usable_spi(spi_c),
        spi_s: usable_spi(spi_s),
        port_c: SECURITY_CLIENT_PORT,
        port_s: SECURITY_SERVER_PORT,
    }
}

/// The offer with two association numbers.
pub fn offered_security_with(spi_c: u32, spi_s: u32) -> (r: String)
    ensures
        r@ == access::volte::ipsec::agree_text(offer(spi_c, spi_s)),
{
    let c: u32 = if spi_c == 0 {
        1
    } else {
        spi_c
    };
    let s: u32 = if spi_s == 0 {
        1
    } else {
        spi_s
    };
    SecAgree {
        spi_c: c,
        spi_s: s,
        port_c: SECURITY_CLIENT_PORT,
        port_s: SECURITY_SERVER_PORT,
    }.security_client_value()
}

fn random_spi() -> (r: u32) {
    match random_bytes(4) {
        Some(b) => b[0] as u32 * 0x100_0000 + b[1] as u32 * 0x1_0000 + b[2] as u32 * 0x100
            + b[3] as u32,
        None => 1,
    }
}

/// An offer with association numbers of chance.
pub fn offered_security() -> (r: String)
    ensures
        exists|c: u32, s: u32| r@ == #[trigger] access::volte::ipsec::agree_text(offer(c, s)),
{
    let c: u32 = random_spi();
    let s: u32 = random_spi();
    offered_security_with(c, s)
}

pub open spec fn hex_upto(bytes: Seq<u8>, from: int, n: int) -> Seq<char>
    decreases n,
{
    if n <= 0 {
        seq![]
    } else {
        hex_upto(bytes, from, n - 1).push(
            ip_text::hex_char((bytes[from + n - 1] / 16) as nat),
        ).push(ip_text::hex_char((bytes[from + n - 1] % 16) as nat))
    }
}

/// The instance name of a device.
pub open spec fn instance_text(token: Seq<u8>) -> Seq<char> {
    "urn:uuid:"@ + hex_upto(token, 0, 4) + "-"@ + hex_upto(token, 4, 2) + "-"@ + hex_upto(
        token,
        6,
        2,
    ) + "-"@ + hex_upto(token, 8, 2) + "-"@ + hex_upto(token, 10, 6)
}

fn push_hex_digit(out: &mut Vec<char>, d: u8)
    requires
        d < 16,
    ensures
        final(out)@ == old(out)@.push(ip_text::hex_char(d as nat)),
{
    if d < 10 {
        out.push((d + 48) as char);
    } else {
        out.push((d - 10 + 97) as char);
    }
}

fn push_hex_bytes(out: &mut Vec<char>, bytes: &[u8], from: usize, n: usize)
    requires
        from + n <= bytes@.len(),
    ensures
        final(out)@ == old(out)@ + hex_upto(bytes@, from as int, n as int),
{
    let ghost start = out@;
    let total: usize = bytes.len();
    let mut i: usize = 0;
    assert(out@ =~= start + hex_upto(bytes@, from as int, 0));
    while i < n
        invariant
            i <= n,
            total == bytes@.len(),
            from + n <= total,
            out@ == start + hex_upto(bytes@, from as int, i as int),
        decreases n - i,
    {
        let b: u8 = bytes[from + i];
        push_hex_digit(out, b / 16);
        push_hex_digit(out, b % 16);
        i += 1;
        assert(out@ =~= start + hex_upto(bytes@, from as int, i as int));
    }
}

/// The instance name of sixteen octets.
pub fn sip_instance_of(token: &[u8]) -> (r: String)
    requires
        token@.len() == 16,
    ensures
        r@ == instance_text(token@),
{
    let mut out = text::chars_of("urn:uuid:");
    push_hex_bytes(&mut out, token, 0, 4);
    text::push_str(&mut out, "-");
    push_hex_bytes(&mut out, token, 4, 2);
    text::push_str(&mut out, "-");
    push_hex_bytes(&mut out, token, 6, 2);
    text::push_str(&mut out, "-");
    push_hex_bytes(&mut out, token, 8, 2);
    text::push_str(&mut out, "-");
    push_hex_bytes(&mut out, token, 10, 6);
    text::string_of(out.as_slice())
}

/// An instance name of chance; none where the generator fails.
pub fn new_sip_instance() -> (r: Option<String>)
    ensures
        r matches Some(s) ==> exists|token: Seq<u8>|
            token.len() == 16 && s@ == #[trigger] instance_text(token),
{
    match random_bytes(16) {
        Some(token) => Some(sip_instance_of(token.as_slice())),
        None => None,
    }
}

// ------------------------------------------------------------------------- errors

pub fn to_ims_error(error: &VolteError) -> (r: ImsError)
    ensures
        r.code_spec() == error.code_spec(),
{
    ImsError::new(error.code())
}

pub fn map_channel_error(error: &ImsError) -> (r: VolteError)
    ensures
        r.code_spec() == code::IPSEC_UDP_BIND_FAILED@,
        r.detail_spec() == Some(error.code_spec()),
{
    CellularImsError::with_detail(code::IPSEC_UDP_BIND_FAILED, copy_str(error.code()))
}

pub fn map_register_error(error: &ImsError) -> (r: VolteError)
    ensures
        r.code_spec() == code::REGISTER_AUTH_UNEXPECTED_STATUS@,
        r.detail_spec() == Some(error.code_spec()),
{
    CellularImsError::with_detail(code::REGISTER_AUTH_UNEXPECTED_STATUS, copy_str(error.code()))
}

pub fn ensure_generation(current: u64, expected: u64) -> (r: Result<(), VolteError>)
    ensures
        match r {
            Ok(_) => current == expected,
            Err(e) => current != expected && e.code_spec() == code::RUNTIME_NOT_RUNNING@
                && e.detail_spec() is None,
        },
{
    if current == expected {
        Ok(())
    } else {
        Err(CellularImsError::new(code::RUNTIME_NOT_RUNNING))
    }
}

// ------------------------------------------------------------------ authentication

/// How a registration is protected.
#[derive(Debug, Clone, Copy, PartialEq, Eq, Structural)]
pub enum RegistrationMode {
    Unregistered,
    Ipsec,
    Udp,
}

/// What the next request answers the challenge with.
#[derive(Debug)]
pub struct PreparedAuth {
    pub authorization: String,
    pub security_client: Option<String>,
    pub security_verify: Option<String>,
    pub require_sec_agree: bool,
}

#[verifier::ext_equal]
pub struct Prepared {
    pub authorization: Seq<char>,
    pub security_client: Option<Seq<char>>,
    pub security_verify: Option<Seq<char>>,
    pub require_sec_agree: bool,
}

impl View for PreparedAuth {
    type V = Prepared;

    open spec fn view(&self) -> Prepared {
        Prepared {
            authorization: self.authorization@,
            security_client: text::opt_text(self.security_client),
            security_verify: text::opt_text(self.security_verify),
            require_sec_agree: self.require_sec_agree,
        }
    }
}

pub open spec fn opt_prepared(p: Option<PreparedAuth>) -> Option<Prepared> {
    match p {
        Some(p) => Some(p@),
        None => None,
    }
}

/// Answers the challenges of one registration.
#[derive(Debug)]
pub struct VolteRegisterAuthenticator {
    pub offered_security: String,
    pub route: ImsRoute,
    pub pending: Option<PreparedAuth>,
    pub mode: RegistrationMode,
    /// The number of the associations that were installed.
    pub xfrm_plan: Option<u64>,
}

#[verifier::ext_equal]
pub struct Authenticator {
    pub offered: Seq<char>,
    pub route: ImsRoute,
    pub pending: Option<Prepared>,
    pub mode: RegistrationMode,
    pub plan: Option<u64>,
}

impl View for VolteRegisterAuthenticator {
    type V = Authenticator;

    open spec fn view(&self) -> Authenticator {
        Authenticator {
            offered: self.offered_security@,
            route: self.route,
            pending: opt_prepared(self.pending),
            mode: self.mode,
            plan: self.xfrm_plan,
        }
    }
}

/// What the card made of a challenge: it wants to be synchronised again, or it
/// answered. Either way the header that says so.
#[derive(Debug)]
pub enum AkaAnswer {
    Resync { authorization: String },
    Proof { authorization: String },
}

/// The first `Security-Server` value that selects something.
pub open spec fn selected_from(values: Seq<Seq<char>>, i: int) -> Option<(SecAgree, Seq<char>)>
    decreases values.len() - i,
{
    if i < 0 || i >= values.len() {
        None
    } else {
        match access::volte::ipsec::agree_of(values[i]) {
            Some(a) => Some((a, values[i])),
            None => selected_from(values, i + 1),
        }
    }
}

pub open spec fn selected_in(frame: Seq<u8>) -> Option<(SecAgree, Seq<char>)> {
    selected_from(sip_frame::header_values_of(frame, "Security-Server"@), 0)
}

/// The protection that a challenge selects.
pub fn selected_security(challenge_response: &[u8]) -> (r: Option<(SecAgree, String)>)
    ensures
        match r {
            Some((a, v)) => selected_in(challenge_response@) == Some((a, v@)),
            None => selected_in(challenge_response@) is None,
        },
{
    let values = header_values(challenge_response, "Security-Server");
    let ghost all = text::texts(values@);
    let mut i: usize = 0;
    assert(values@.len() == all.len());
    while i < values.len()
        invariant
            i <= values@.len(),
            all == text::texts(values@),
            all == sip_frame::header_values_of(challenge_response@, "Security-Server"@),
            selected_in(challenge_response@) == selected_from(all, i as int),
        decreases values@.len() - i,
    {
        assert(all[i as int] == values@[i as int]@);
        if let Ok(a) = parse_security_server(values[i].as_str()) {
            return Some((a, copy_str(values[i].as_str())));
        }
        i += 1;
    }
    None
}

/// The route between the ports that were selected.
pub open spec fn protected(route: ImsRoute, a: SecAgree) -> ImsRoute {
    ImsRoute {
        local_addr: SocketAddr { ip: route.local_addr.ip, port: a.port_c },
        pcscf_addr: SocketAddr { ip: route.pcscf_addr.ip, port: a.port_s },
        transport: SipTransport::Udp,
    }
}

pub fn protected_route(route: ImsRoute, selected: &SecAgree) -> (r: ImsRoute)
    ensures
        r == protected(route, *selected),
{
    ImsRoute {
        local_addr: SocketAddr::new(route.local_addr.ip, selected.port_c),
        pcscf_addr: SocketAddr::new(route.pcscf_addr.ip, selected.port_s),
        transport: SipTransport::Udp,
    }
}

pub open spec fn sends(authorization: Seq<char>, offered: Seq<char>, verify: Option<Seq<char>>) -> Prepared {
    Prepared {
        authorization,
        security_client: Some(offered),
        security_verify: verify,
        require_sec_agree: true,
    }
}

/// Why a challenge could not be answered, and which associations are to be taken
/// down again.
#[derive(Debug)]
pub struct PrepareFailure {
    pub error: ImsError,
    pub uninstall: Option<u64>,
}

pub struct FailureValue {
    pub code: Seq<char>,
    pub uninstall: Option<u64>,
}

pub open spec fn prepare_failure(r: Result<(), PrepareFailure>) -> Option<FailureValue> {
    match r {
        Ok(_) => None,
        Err(f) => Some(FailureValue { code: f.error.code_spec(), uninstall: f.uninstall }),
    }
}

pub open spec fn plan_value(p: Result<u64, ImsError>) -> Result<u64, Seq<char>> {
    match p {
        Ok(n) => Ok(n),
        Err(e) => Err(e.code_spec()),
    }
}

/// An answer to a challenge: what the authenticator holds after it, the channel,
/// and what went wrong.
///
/// A card that wants to be synchronised again changes no association. Where the
/// network selects a protection, the associations are installed and the channel is
/// bound to its ports; where that fails, they are taken down again. Where it
/// selects none, the request goes out unprotected.
pub open spec fn prepared(
    a: Authenticator,
    channel: access::volte::channel::Channel,
    frame: Seq<u8>,
    answer: AkaAnswer,
    plan: Result<u64, Seq<char>>,
    socket: Option<BoundSocket>,
) -> (Authenticator, access::volte::channel::Channel, Option<FailureValue>) {
    match answer {
        AkaAnswer::Resync { authorization } => (
            Authenticator {
                pending: Some(sends(authorization@, a.offered, None)),
                route: channel.route,
                ..a
            },
            channel,
            None,
        ),
        AkaAnswer::Proof { authorization } => match selected_in(frame) {
            None => (
                Authenticator {
                    pending: Some(
                        Prepared {
                            authorization: authorization@,
                            security_client: None,
                            security_verify: None,
                            require_sec_agree: false,
                        },
                    ),
                    mode: RegistrationMode::Udp,
                    route: channel.route,
                    ..a
                },
                channel,
                None,
            ),
            Some((selected, verify)) => match plan {
                Err(code) => (a, channel, Some(FailureValue { code, uninstall: None })),
                Ok(number) => {
                    let route = protected(channel.route, selected);
                    if access::volte::channel::joinable(route) && socket is Some {
                        (
                            Authenticator {
                                pending: Some(sends(authorization@, a.offered, Some(verify))),
                                mode: RegistrationMode::Ipsec,
                                plan: Some(number),
                                route,
                                ..a
                            },
                            access::volte::channel::Channel {
                                socket: socket->0,
                                route,
                                verify: Some(verify),
                                ..channel
                            },
                            None,
                        )
                    } else {
                        (
                            a,
                            channel,
                            Some(
                                FailureValue {
                                    code: "volte_channel_bind_failed"@,
                                    uninstall: Some(number),
                                },
                            ),
                        )
                    }
                },
            },
        },
    }
}

impl VolteRegisterAuthenticator {
    pub fn new(offered_security: String, route: ImsRoute) -> (r: Self)
        ensures
            r@ == (Authenticator {
                offered: offered_security@,
                route,
                pending: None,
                mode: RegistrationMode::Unregistered,
                plan: None,
            }),
    {
        VolteRegisterAuthenticator {
            offered_security,
            route,
            pending: None,
            mode: RegistrationMode::Unregistered,
            xfrm_plan: None,
        }
    }

    /// Answers a challenge. Where it selects a protection, `plan` is the number of
    /// the associations that were installed for it, or why they were not, and
    /// `socket` the socket that was bound to its ports.
    pub fn prepare_authenticated_channel(
        &mut self,
        challenge_response: &[u8],
        answer: AkaAnswer,
        plan: Result<u64, ImsError>,
        socket: Option<BoundSocket>,
        channel: &mut VolteSipChannel,
    ) -> (r: Result<(), PrepareFailure>)
        ensures
            (final(self)@, final(channel)@, prepare_failure(r)) == prepared(
                old(self)@,
                old(channel)@,
                challenge_response@,
                answer,
                plan_value(plan),
                socket,
            ),
    {
        match answer {
            AkaAnswer::Resync { authorization } => {
                self.pending = Some(
                    PreparedAuth {
                        authorization,
                        security_client: Some(copy_str(self.offered_security.as_str())),
                        security_verify: None,
                        require_sec_agree: true,
                    },
                );
                self.route = channel.route();
                Ok(())
            },
            AkaAnswer::Proof { authorization } => match selected_security(challenge_response) {
                None => {
                    self.mode = RegistrationMode::Udp;
                    self.pending = Some(
                        PreparedAuth {
                            authorization,
                            security_client: None,
                            security_verify: None,
                            require_sec_agree: false,
                        },
                    );
                    self.route = channel.route();
                    Ok(())
                },
                Some((selected, verify)) => {
                    let number: u64 = match plan {
                        Ok(number) => number,
                        Err(error) => {
                            return Err(PrepareFailure { error, uninstall: None });
                        },
                    };
                    let route = protected_route(channel.route(), &selected);
                    match channel.rebind(route, Some(copy_str(verify.as_str())), socket) {
                        Err(error) => Err(PrepareFailure { error, uninstall: Some(number) }),
                        Ok(_) => {
                            self.xfrm_plan = Some(number);
                            self.mode = RegistrationMode::Ipsec;
                            self.pending = Some(
                                PreparedAuth {
                                    authorization,
                                    security_client: Some(copy_str(self.offered_security.as_str())),
                                    security_verify: Some(verify),
                                    require_sec_agree: true,
                                },
                            );
                            self.route = channel.route();
                            Ok(())
                        },
                    }
                },
            },
        }
    }

    /// What the next request answers with: once, and only after a challenge was
    /// answered.
    pub fn authenticated_request(&mut self) -> (r: Result<PreparedAuth, ImsError>)
        ensures
            final(self)@ == (Authenticator { pending: None, ..old(self)@ }),
            match r {
                Ok(p) => old(self)@.pending == Some(p@),
                Err(e) => old(self)@.pending is None && e.code_spec()
                    == "volte_register_auth_not_prepared"@,
            },
    {
        match self.pending.take() {
            Some(p) => Ok(p),
            None => Err(ImsError::new("volte_register_auth_not_prepared")),
        }
    }
}

/// The address that a registration is for.
pub fn request_uri(home_domain: &str) -> (r: String)
    ensures
        r@ == "sip:"@ + home_domain@,
{
    let mut out = text::chars_of("sip:");
    text::push_str(&mut out, home_domain);
    text::string_of(out.as_slice())
}

// --------------------------------------------------------------------- connecting

#[derive(Debug, Clone, Copy, PartialEq, Eq, Structural)]
pub enum VoltePhase {
    Disabled,
    Starting,
    Registered,
    Degraded,
}

#[derive(Debug, Clone, Copy, PartialEq, Eq, Structural)]
pub enum VolteStage {
    Idle,
    Starting,
    Identity,
    Bearer,
    Pcscf,
    RegisterIpsec,
    RegisterUdp,
    Registered,
}

/// How far a connection is.
#[derive(Debug)]
pub struct VolteStatus {
    pub phase: VoltePhase,
    pub stage: VolteStage,
    pub registration_mode: RegistrationMode,
    pub pcscf: Option<String>,
    pub last_error: Option<String>,
    pub session_started_at: Option<String>,
    pub registered_at: Option<String>,
    pub last_failure_at: Option<String>,
    pub data_path_mode: Option<String>,
}

#[verifier::ext_equal]
pub struct Status {
    pub phase: VoltePhase,
    pub stage: VolteStage,
    pub mode: RegistrationMode,
    pub pcscf: Option<Seq<char>>,
    pub last_error: Option<Seq<char>>,
    pub session_started_at: Option<Seq<char>>,
    pub registered_at: Option<Seq<char>>,
    pub last_failure_at: Option<Seq<char>>,
    pub data_path_mode: Option<Seq<char>>,
}

impl View for VolteStatus {
    type V = Status;

    open spec fn view(&self) -> Status {
        Status {
            phase: self.phase,
            stage: self.stage,
            mode: self.registration_mode,
            pcscf: text::opt_text(self.pcscf),
            last_error: text::opt_text(self.last_error),
            session_started_at: text::opt_text(self.session_started_at),
            registered_at: text::opt_text(self.registered_at),
            last_failure_at: text::opt_text(self.last_failure_at),
            data_path_mode: text::opt_text(self.data_path_mode),
        }
    }
}

pub open spec fn idle() -> Status {
    Status {
        phase: VoltePhase::Disabled,
        stage: VolteStage::Idle,
        mode: RegistrationMode::Unregistered,
        pcscf: None,
        last_error: None,
        session_started_at: None,
        registered_at: None,
        last_failure_at: None,
        data_path_mode: None,
    }
}

impl Default for VolteStatus {
    fn default() -> (r: Self)
        ensures
            r@ == idle(),
    {
        VolteStatus {
            phase: VoltePhase::Disabled,
            stage: VolteStage::Idle,
            registration_mode: RegistrationMode::Unregistered,
            pcscf: None,
            last_error: None,
            session_started_at: None,
            registered_at: None,
            last_failure_at: None,
            data_path_mode: None,
        }
    }
}

/// What a connection waits for.
#[derive(Debug, Clone, Copy, PartialEq, Eq, Structural)]
pub enum ConnectStep {
    Starting,
    Identity,
    Bearer,
    Network,
    Pcscf,
    PcscfRoute,
    Channel,
    Register,
    /// The registration stands; the session is not kept yet.
    Keep,
    Finished,
}

/// A connection on its way.
#[derive(Debug)]
pub struct LiveConnect {
    pub status: VolteStatus,
    pub generation: u64,
    pub step: ConnectStep,
    /// The bearer that was brought up.
    pub bearer: Option<String>,
    pub pcscf: Option<IpAddr>,
    /// Is the registration protected?
    pub ipsec: bool,
}

#[verifier::ext_equal]
pub struct Connect {
    pub status: Status,
    pub generation: u64,
    pub step: ConnectStep,
    pub bearer: Option<Seq<char>>,
    pub pcscf: Option<IpAddr>,
    pub ipsec: bool,
}

impl View for LiveConnect {
    type V = Connect;

    open spec fn view(&self) -> Connect {
        Connect {
            status: self.status@,
            generation: self.generation,
            step: self.step,
            bearer: text::opt_text(self.bearer),
            pcscf: self.pcscf,
            ipsec: self.ipsec,
        }
    }
}

/// What happened to a connection.
#[derive(Debug)]
pub enum ConnectEvent {
    /// The status was shown, and the identity is being loaded.
    Started,
    IdentityLoaded,
    BearerUp(String),
    NetworkConfigured,
    PcscfFound(IpAddr),
    PcscfRouted,
    ChannelBound,
    /// The REGISTER was accepted, in this mode, with or without associations.
    Accepted { mode: RegistrationMode, ipsec: bool },
    /// The status was shown, and the session is kept.
    Kept,
    /// Something failed. `plan` are associations that were installed meanwhile.
    Failed { error: VolteError, plan: Option<u64> },
}

/// What a connection waits for is what may happen to it.
pub open spec fn fits(step: ConnectStep, event: ConnectEvent) -> bool {
    match event {
        ConnectEvent::Started => step == ConnectStep::Starting,
        ConnectEvent::IdentityLoaded => step == ConnectStep::Identity,
        ConnectEvent::BearerUp(_) => step == ConnectStep::Bearer,
        ConnectEvent::NetworkConfigured => step == ConnectStep::Network,
        ConnectEvent::PcscfFound(_) => step == ConnectStep::Pcscf,
        ConnectEvent::PcscfRouted => step == ConnectStep::PcscfRoute,
        ConnectEvent::ChannelBound => step == ConnectStep::Channel,
        ConnectEvent::Accepted { mode, ipsec } => step == ConnectStep::Register,
        ConnectEvent::Kept => step == ConnectStep::Keep,
        ConnectEvent::Failed { error, plan } => step != ConnectStep::Starting && step
            != ConnectStep::Keep && step != ConnectStep::Finished,
    }
}

/// What is done next.
#[derive(Debug)]
pub enum ConnectOutcome {
    Continue,
    Registered,
    /// The connection failed: the associations and the bearer to take down.
    Failed { error: VolteError, uninstall: Option<u64>, disconnect: Option<String> },
}

pub enum Outcome {
    Continue,
    Registered,
    Failed {
        code: Seq<char>,
        detail: Option<Seq<char>>,
        uninstall: Option<u64>,
        disconnect: Option<Seq<char>>,
    },
}

pub open spec fn outcome_value(o: ConnectOutcome) -> Outcome {
    match o {
        ConnectOutcome::Continue => Outcome::Continue,
        ConnectOutcome::Registered => Outcome::Registered,
        ConnectOutcome::Failed { error, uninstall, disconnect } => Outcome::Failed {
            code: error.code_spec(),
            detail: error.detail_spec(),
            uninstall,
            disconnect: text::opt_text(disconnect),
        },
    }
}

pub open spec fn rendered(code: Seq<char>, detail: Option<Seq<char>>) -> Seq<char> {
    match detail {
        Some(d) => code + seq![':'] + d,
        None => code,
    }
}

/// A connection that failed: everything that it brought up goes.
pub open spec fn connect_failed(
    c: Connect,
    code: Seq<char>,
    detail: Option<Seq<char>>,
    plan: Option<u64>,
    now: Seq<char>,
) -> (Connect, Outcome) {
    (
        Connect {
            status: Status {
                phase: VoltePhase::Degraded,
                last_error: Some(rendered(code, detail)),
                last_failure_at: Some(now),
                ..c.status
            },
            step: ConnectStep::Finished,
            bearer: None,
            ..c
        },
        Outcome::Failed { code, detail, uninstall: plan, disconnect: c.bearer },
    )
}

pub open spec fn at_stage(c: Connect, stage: VolteStage, step: ConnectStep) -> Connect {
    Connect { status: Status { stage, ..c.status }, step, ..c }
}

/// A connection after an event. One that was called off meanwhile, by a new
/// generation, is given up when the identity is there and when the network is.
pub open spec fn connect_step(
    c: Connect,
    event: ConnectEvent,
    generation: u64,
    now: Seq<char>,
) -> (Connect, Outcome) {
    match event {
        ConnectEvent::Failed { error, plan } => connect_failed(
            c,
            error.code_spec(),
            error.detail_spec(),
            plan,
            now,
        ),
        ConnectEvent::Started => (
            at_stage(c, VolteStage::Identity, ConnectStep::Identity),
            Outcome::Continue,
        ),
        ConnectEvent::IdentityLoaded => if generation != c.generation {
            connect_failed(c, code::RUNTIME_NOT_RUNNING@, None, None, now)
        } else {
            (at_stage(c, VolteStage::Bearer, ConnectStep::Bearer), Outcome::Continue)
        },
        ConnectEvent::BearerUp(path) => (
            Connect { bearer: Some(path@), step: ConnectStep::Network, ..c },
            Outcome::Continue,
        ),
        ConnectEvent::NetworkConfigured => if generation != c.generation {
            connect_failed(c, code::RUNTIME_NOT_RUNNING@, None, None, now)
        } else {
            (at_stage(c, VolteStage::Pcscf, ConnectStep::Pcscf), Outcome::Continue)
        },
        ConnectEvent::PcscfFound(pcscf) => (
            Connect { pcscf: Some(pcscf), step: ConnectStep::PcscfRoute, ..c },
            Outcome::Continue,
        ),
        ConnectEvent::PcscfRouted => (
            Connect {
                status: Status {
                    stage: VolteStage::RegisterIpsec,
                    pcscf: match c.pcscf {
                        Some(ip) => Some(ip_text::ip_form(ip)),
                        None => c.status.pcscf,
                    },
                    ..c.status
                },
                step: ConnectStep::Channel,
                ..c
            },
            Outcome::Continue,
        ),
        ConnectEvent::ChannelBound => (
            Connect { step: ConnectStep::Register, ..c },
            Outcome::Continue,
        ),
        ConnectEvent::Accepted { mode, ipsec } => (
            Connect {
                status: Status {
                    stage: if mode == RegistrationMode::Udp {
                        VolteStage::RegisterUdp
                    } else {
                        c.status.stage
                    },
                    ..c.status
                },
                step: ConnectStep::Keep,
                ipsec,
                ..c
            },
            Outcome::Continue,
        ),
        ConnectEvent::Kept => (
            Connect {
                status: Status {
                    phase: VoltePhase::Registered,
                    stage: VolteStage::Registered,
                    mode: if c.ipsec {
                        RegistrationMode::Ipsec
                    } else {
                        RegistrationMode::Udp
                    },
                    pcscf: match c.pcscf {
                        Some(ip) => Some(
                            ip_text::socket_form(
                                SocketAddr { ip, port: access::volte::pcscf::SIP_PORT },
                            ),
                        ),
                        None => c.status.pcscf,
                    },
                    registered_at: Some(now),
                    data_path_mode: Some("dedicated_ims_bearer"@),
                    ..c.status
                },
                step: ConnectStep::Finished,
                ..c
            },
            Outcome::Registered,
        ),
    }
}

/// How a connection begins.
#[derive(Debug)]
pub enum ConnectStart {
    /// There is one.
    AlreadyLive,
    Begin(LiveConnect),
}

pub open spec fn begun(s: Status, generation: u64, now: Seq<char>) -> Connect {
    Connect {
        status: Status {
            phase: VoltePhase::Starting,
            stage: VolteStage::Starting,
            session_started_at: Some(now),
            last_error: None,
            ..s
        },
        generation,
        step: ConnectStep::Starting,
        bearer: None,
        pcscf: None,
        ipsec: false,
    }
}

/// Begins a connection, where it is wanted and there is none.
pub fn connect_live(
    feature_enabled: bool,
    connection_enabled: bool,
    live: bool,
    status: VolteStatus,
    generation: u64,
    now: &str,
) -> (r: Result<ConnectStart, VolteError>)
    ensures
        match r {
            Err(e) => !(feature_enabled && connection_enabled) && e.code_spec()
                == code::RUNTIME_NOT_RUNNING@ && e.detail_spec() is None,
            Ok(ConnectStart::AlreadyLive) => feature_enabled && connection_enabled && live,
            Ok(ConnectStart::Begin(c)) => feature_enabled && connection_enabled && !live && c@
                == begun(status@, generation, now@),
        },
{
    if !feature_enabled || !connection_enabled {
        return Err(CellularImsError::new(code::RUNTIME_NOT_RUNNING));
    }
    if live {
        return Ok(ConnectStart::AlreadyLive);
    }
    let mut status = status;
    status.phase = VoltePhase::Starting;
    status.stage = VolteStage::Starting;
    status.session_started_at = Some(copy_str(now));
    status.last_error = None;
    Ok(
        ConnectStart::Begin(
            LiveConnect {
                status,
                generation,
                step: ConnectStep::Starting,
                bearer: None,
                pcscf: None,
                ipsec: false,
            },
        ),
    )
}

impl LiveConnect {
    fn fail(&mut self, error: VolteError, plan: Option<u64>, now: &str) -> (r: ConnectOutcome)
        ensures
            (final(self)@, outcome_value(r)) == connect_failed(
                old(self)@,
                error.code_spec(),
                error.detail_spec(),
                plan,
                now@,
            ),
    {
        let disconnect = self.bearer.take();
        self.status.phase = VoltePhase::Degraded;
        self.status.last_error = Some(error.render());
        self.status.last_failure_at = Some(copy_str(now));
        self.step = ConnectStep::Finished;
        ConnectOutcome::Failed { error, uninstall: plan, disconnect }
    }

    /// Takes what happened; `generation` is the current one.
    pub fn advance(&mut self, event: ConnectEvent, generation: u64, now: &str) -> (r: ConnectOutcome)
        requires
            fits(old(self)@.step, event),
        ensures
            (final(self)@, outcome_value(r)) == connect_step(
                old(self)@,
                event,
                generation,
                now@,
            ),
    {
        match event {
            ConnectEvent::Failed { error, plan } => self.fail(error, plan, now),
            ConnectEvent::Started => {
                self.status.stage = VolteStage::Identity;
                self.step = ConnectStep::Identity;
                ConnectOutcome::Continue
            },
            ConnectEvent::IdentityLoaded => match ensure_generation(generation, self.generation) {
                Err(error) => self.fail(error, None, now),
                Ok(_) => {
                    self.status.stage = VolteStage::Bearer;
                    self.step = ConnectStep::Bearer;
                    ConnectOutcome::Continue
                },
            },
            ConnectEvent::BearerUp(path) => {
                self.bearer = Some(path);
                self.step = ConnectStep::Network;
                ConnectOutcome::Continue
            },
            ConnectEvent::NetworkConfigured => match ensure_generation(
                generation,
                self.generation,
            ) {
                Err(error) => self.fail(error, None, now),
                Ok(_) => {
                    self.status.stage = VolteStage::Pcscf;
                    self.step = ConnectStep::Pcscf;
                    ConnectOutcome::Continue
                },
            },
            ConnectEvent::PcscfFound(pcscf) => {
                self.pcscf = Some(pcscf);
                self.step = ConnectStep::PcscfRoute;
                ConnectOutcome::Continue
            },
            ConnectEvent::PcscfRouted => {
                self.status.stage = VolteStage::RegisterIpsec;
                if let Some(ip) = self.pcscf {
                    self.status.pcscf = Some(ip_text::ip_string(ip));
                }
                self.step = ConnectStep::Channel;
                ConnectOutcome::Continue
            },
            ConnectEvent::ChannelBound => {
                self.step = ConnectStep::Register;
                ConnectOutcome::Continue
            },
            ConnectEvent::Accepted { mode, ipsec } => {
                if mode == RegistrationMode::Udp {
                    self.status.stage = VolteStage::RegisterUdp;
                }
                self.ipsec = ipsec;
                self.step = ConnectStep::Keep;
                ConnectOutcome::Continue
            },
            ConnectEvent::Kept => {
                self.status.phase = VoltePhase::Registered;
                self.status.stage = VolteStage::Registered;
                self.status.registration_mode = if self.ipsec {
                    RegistrationMode::Ipsec
                } else {
                    RegistrationMode::Udp
                };
                if let Some(ip) = self.pcscf {
                    self.status.pcscf = Some(ip_text::socket_string(pcscf_socket(ip)));
                }
                self.status.registered_at = Some(copy_str(now));
                self.status.data_path_mode = Some(copy_str("dedicated_ims_bearer"));
                self.step = ConnectStep::Finished;
                ConnectOutcome::Registered
            },
        }
    }
}

// -------------------------------------------------------------------------- laws

/// A connection that fails leaves no bearer behind: whatever was brought up is
/// handed back to be taken down, and none is kept.
pub proof fn law_failed_connection_keeps_nothing(
    c: Connect,
    event: ConnectEvent,
    generation: u64,
    now: Seq<char>,
)
    ensures
        connect_step(c, event, generation, now).1 matches Outcome::Failed {
            disconnect,
            uninstall,
            ..
        } ==> {
            &&& disconnect == c.bearer
            &&& connect_step(c, event, generation, now).0.bearer is None
            &&& connect_step(c, event, generation, now).0.status.phase == VoltePhase::Degraded
            &&& event matches ConnectEvent::Failed { error, plan } ==> uninstall == plan
        },
{
}

/// A registration is only ever reported by a connection that went through every
/// stage: each event leads to the next step, or ends it.
pub proof fn law_stages_come_in_order(
    c: Connect,
    event: ConnectEvent,
    generation: u64,
    now: Seq<char>,
)
    requires
        fits(c.step, event),
    ensures
        ({
            let (after, outcome) = connect_step(c, event, generation, now);
            &&& outcome is Continue ==> after.step == match c.step {
                ConnectStep::Starting => ConnectStep::Identity,
                ConnectStep::Identity => ConnectStep::Bearer,
                ConnectStep::Bearer => ConnectStep::Network,
                ConnectStep::Network => ConnectStep::Pcscf,
                ConnectStep::Pcscf => ConnectStep::PcscfRoute,
                ConnectStep::PcscfRoute => ConnectStep::Channel,
                ConnectStep::Channel => ConnectStep::Register,
                ConnectStep::Register => ConnectStep::Keep,
                _ => ConnectStep::Finished,
            }
            &&& outcome is Registered ==> c.step == ConnectStep::Keep
            &&& !(outcome is Continue) ==> after.step == ConnectStep::Finished
        }),
{
}

/// The stage that a status shows at each step of a connection that goes on.
pub open spec fn shown_stage(step: ConnectStep, udp: bool) -> VolteStage {
    match step {
        ConnectStep::Starting => VolteStage::Starting,
        ConnectStep::Identity => VolteStage::Identity,
        ConnectStep::Bearer | ConnectStep::Network => VolteStage::Bearer,
        ConnectStep::Pcscf | ConnectStep::PcscfRoute => VolteStage::Pcscf,
        ConnectStep::Channel | ConnectStep::Register => VolteStage::RegisterIpsec,
        ConnectStep::Keep => if udp {
            VolteStage::RegisterUdp
        } else {
            VolteStage::RegisterIpsec
        },
        ConnectStep::Finished => VolteStage::Registered,
    }
}

/// The status of a connection shows how far it is: every step has its stage, from
/// the start to the registration.
pub proof fn law_status_shows_every_stage(
    c: Connect,
    event: ConnectEvent,
    generation: u64,
    now: Seq<char>,
    s: Status,
    udp: bool,
)
    requires
        fits(c.step, event),
        c.status.stage == shown_stage(c.step, udp),
    ensures
        begun(s, generation, now).status.stage == shown_stage(ConnectStep::Starting, udp),
        ({
            let (after, outcome) = connect_step(c, event, generation, now);
            let plain = event matches ConnectEvent::Accepted { mode, .. } && mode
                == RegistrationMode::Udp;
            &&& !(outcome is Failed) ==> after.status.stage == shown_stage(after.step, plain)
            &&& outcome is Failed ==> after.status.stage == c.status.stage
        }),
{
}

/// Associations that were installed are never lost: a challenge that fails hands
/// them back, and one that succeeds keeps them.
pub proof fn law_installed_associations_are_kept_or_handed_back(
    a: Authenticator,
    channel: access::volte::channel::Channel,
    frame: Seq<u8>,
    authorization: String,
    number: u64,
    socket: Option<BoundSocket>,
)
    requires
        selected_in(frame) is Some,
    ensures
        ({
            let (after, channel_after, failure) = prepared(
                a,
                channel,
                frame,
                AkaAnswer::Proof { authorization },
                Ok(number),
                socket,
            );
            &&& failure matches Some(f) ==> f.uninstall == Some(number) && after == a
                && channel_after == channel
            &&& failure is None ==> after.plan == Some(number) && after.mode
                == RegistrationMode::Ipsec && after.route == channel_after.route
        }),
{
}

} // verus!
