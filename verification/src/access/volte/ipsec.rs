//! Security agreement: the parameters of the protected associations as SIP
//! headers write them.

use crate::access::volte::pcscf::VolteError;
use crate::cellular_ims::errors::{code, CellularImsError};
use crate::sip_frame::header_parameter;
use crate::{sip_frame, text};
use vstd::prelude::*;

verus! {

/// The parameters that two ends agree on.
#[derive(Debug, Clone, Copy, PartialEq, Eq, Structural)]
pub struct SecAgree {
    pub spi_c: u32,
    pub spi_s: u32,
    pub port_c: u16,
    pub port_s: u16,
}

/// An offer or a selection as a header value.
pub open spec fn agree_text(a: SecAgree) -> Seq<char> {
    "ipsec-3gpp;alg=hmac-sha-1-96;ealg=null;prot=esp;mod=trans;spi-c="@ + text::decimal(
        a.spi_c as nat,
    ) + ";spi-s="@ + text::decimal(a.spi_s as nat) + ";port-c="@ + text::decimal(a.port_c as nat)
        + ";port-s="@ + text::decimal(a.port_s as nat)
}

/// A numeric parameter of a header value.
pub open spec fn number_of(value: Seq<char>, name: Seq<char>, max: nat) -> Option<nat> {
    match sip_frame::parameter_of(value, name) {
        Some(v) => text::unsigned(v, max),
        None => None,
    }
}

/// What a `Security-Server` value selects: the mechanism has to be known, and all
/// parameters there.
pub open spec fn agree_of(value: Seq<char>) -> Option<SecAgree> {
    let spi_c = number_of(value, "spi-c"@, u32::MAX as nat);
    let spi_s = number_of(value, "spi-s"@, u32::MAX as nat);
    let port_c = number_of(value, "port-c"@, u16::MAX as nat);
    let port_s = number_of(value, "port-s"@, u16::MAX as nat);
    if text::alike(text::trim(text::before(value, ';')), "ipsec-3gpp"@) && spi_c is Some
        && spi_s is Some && port_c is Some && port_s is Some {
        Some(
            SecAgree {
                spi_c: spi_c->0 as u32,
                spi_s: spi_s->0 as u32,
                port_c: port_c->0 as u16,
                port_s: port_s->0 as u16,
            },
        )
    } else {
        None
    }
}

impl SecAgree {
    pub fn security_client_value(&self) -> (r: String)
        ensures
            r@ == agree_text(*self),
    {
        let mut out = text::chars_of(
            "ipsec-3gpp;alg=hmac-sha-1-96;ealg=null;prot=esp;mod=trans;spi-c=",
        );
        text::push_decimal(&mut out, self.spi_c as u64);
        text::push_str(&mut out, ";spi-s=");
        text::push_decimal(&mut out, self.spi_s as u64);
        text::push_str(&mut out, ";port-c=");
        text::push_decimal(&mut out, self.port_c as u64);
        text::push_str(&mut out, ";port-s=");
        text::push_decimal(&mut out, self.port_s as u64);
        text::string_of(out.as_slice())
    }
}

fn read_u32(value: &str, name: &str) -> (r: Option<u32>)
    ensures
        match r {
            Some(n) => number_of(value@, name@, u32::MAX as nat) == Some(n as nat),
            None => number_of(value@, name@, u32::MAX as nat) is None,
        },
{
    match header_parameter(value, name) {
        Some(v) => {
            let chars = text::chars_of(v.as_str());
            text::parse_u32(chars.as_slice())
        },
        None => None,
    }
}

fn read_u16(value: &str, name: &str) -> (r: Option<u16>)
    ensures
        match r {
            Some(n) => number_of(value@, name@, u16::MAX as nat) == Some(n as nat),
            None => number_of(value@, name@, u16::MAX as nat) is None,
        },
{
    match header_parameter(value, name) {
        Some(v) => {
            let chars = text::chars_of(v.as_str());
            text::parse_u16(chars.as_slice())
        },
        None => None,
    }
}

pub fn parse_security_server(value: &str) -> (r: Result<SecAgree, VolteError>)
    ensures
        match r {
            Ok(a) => agree_of(value@) == Some(a),
            Err(e) => agree_of(value@) is None && e.code_spec() == code::SECURITY_SERVER_INVALID@
                && e.detail_spec() is None,
        },
{
    let chars = text::chars_of(value);
    let mechanism = text::trimmed(text::part_before(chars.as_slice(), ';'));
    if text::is_alike_text(mechanism, "ipsec-3gpp") {
        let spi_c = read_u32(value, "spi-c");
        let spi_s = read_u32(value, "spi-s");
        let port_c = read_u16(value, "port-c");
        let port_s = read_u16(value, "port-s");
        if let (Some(spi_c), Some(spi_s), Some(port_c), Some(port_s)) = (
            spi_c,
            spi_s,
            port_c,
            port_s,
        ) {
            return Ok(SecAgree { spi_c, spi_s, port_c, port_s });
        }
    }
    Err(CellularImsError::new(code::SECURITY_SERVER_INVALID))
}

} // verus!
