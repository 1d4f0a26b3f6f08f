//! The IMS bearer as the rest of the stack sees it, whoever established it.

use crate::access::volte::pcscf::{ImsIpSettings, Settings};
use crate::cellular_ims::errors::{code, CellularImsError};
use crate::net::IpAddr;
use crate::text;
use vstd::prelude::*;

verus! {

/// What a bearer is asked for.
#[derive(Debug)]
pub struct BearerRequest {
    pub apn: String,
    pub profile_id: Option<u32>,
    pub allow_roaming: bool,
}

impl BearerRequest {
    /// The request for the IMS access point of the network.
    pub fn ims(allow_roaming: bool) -> (r: Self)
        ensures
            r.apn@ == "ims"@,
            r.profile_id is None,
            r.allow_roaming == allow_roaming,
    {
        BearerRequest {
            apn: text::string_of(text::chars_of("ims").as_slice()),
            profile_id: None,
            allow_roaming,
        }
    }
}

/// A bearer that is up.
#[derive(Debug)]
pub struct BearerConnection {
    pub path: String,
    pub interface: String,
    pub ip_type: String,
    pub settings: ImsIpSettings,
    pub ipv4_prefix: Option<u8>,
    pub ipv6_prefix: Option<u8>,
    pub mtu: Option<u32>,
}

#[verifier::ext_equal]
pub struct Bearer {
    pub path: Seq<char>,
    pub interface: Seq<char>,
    pub ip_type: Seq<char>,
    pub settings: Settings,
    pub ipv4_prefix: Option<u8>,
    pub ipv6_prefix: Option<u8>,
    pub mtu: Option<u32>,
}

impl View for BearerConnection {
    type V = Bearer;

    open spec fn view(&self) -> Bearer {
        Bearer {
            path: self.path@,
            interface: self.interface@,
            ip_type: self.ip_type@,
            settings: self.settings@,
            ipv4_prefix: self.ipv4_prefix,
            ipv6_prefix: self.ipv6_prefix,
            mtu: self.mtu,
        }
    }
}

impl BearerConnection {
    pub fn local_addr(&self) -> (r: Result<IpAddr, CellularImsError>)
        ensures
            match r {
                Ok(a) => crate::access::volte::pcscf::local_of(self@.settings) == Some(a),
                Err(e) => crate::access::volte::pcscf::local_of(self@.settings) is None
                    && e.code_spec() == code::IP_SETTINGS_MISSING@ && e.detail_spec() is None,
            },
    {
        match self.settings.local_addr() {
            Some(a) => Ok(a),
            None => Err(CellularImsError::new(code::IP_SETTINGS_MISSING)),
        }
    }
}

/// Where the bearer objects of the modem manager are.
pub const BEARER_PATH_PREFIX: &'static str = "/org/freedesktop/ModemManager1/Bearer/";

/// A bearer object: a number below the prefix.
pub open spec fn valid_bearer_path(path: Seq<char>) -> bool {
    match text::without_prefix(path, BEARER_PATH_PREFIX@) {
        Some(rest) => rest.len() > 0 && text::all_digits(rest),
        None => false,
    }
}

fn only_digits(s: &[char]) -> (r: bool)
    ensures
        r == text::all_digits(s@),
{
    let mut i: usize = 0;
    while i < s.len()
        invariant
            i <= s@.len(),
            forall|j: int| 0 <= j < i ==> text::digit(#[trigger] s@[j]),
        decreases s@.len() - i,
    {
        if !text::is_digit(s[i]) {
            return false;
        }
        i += 1;
    }
    true
}

pub fn is_valid_bearer_path(path: &str) -> (r: bool)
    ensures
        r == valid_bearer_path(path@),
{
    let chars = text::chars_of(path);
    match text::strip_prefix(chars.as_slice(), BEARER_PATH_PREFIX) {
        Some(rest) => rest.len() > 0 && only_digits(rest),
        None => false,
    }
}

/// The path of a bearer that has no object: a marker, the device and the session.
pub open spec fn marked_path(marker: Seq<char>, device: Seq<char>, handle: Seq<char>) -> Seq<char> {
    marker + device + "#"@ + handle
}

pub fn build_marked_path(marker: &str, device: &str, handle: &str) -> (r: String)
    ensures
        r@ == marked_path(marker@, device@, handle@),
{
    let mut out = text::chars_of(marker);
    text::push_str(&mut out, device);
    text::push_str(&mut out, "#");
    text::push_str(&mut out, handle);
    text::string_of(out.as_slice())
}

pub fn has_marker(marker: &str, path: &str) -> (r: bool)
    ensures
        r == text::starts(path@, marker@),
{
    let chars = text::chars_of(path);
    text::has_prefix(chars.as_slice(), marker)
}

} // verus!
