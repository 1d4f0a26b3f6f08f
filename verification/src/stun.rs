//! STUN Binding requests and responses, as flow keepalives use them.

use crate::net;
use crate::net::{be16, bytes_same, push_bytes, v4_from, v6_from, SocketAddr};
use vstd::prelude::*;
use vstd::slice::slice_subrange;

verus! {

pub const FINGERPRINT_XOR: u32 = 0x5354_554e;

pub const CRC_POLYNOMIAL: u32 = 0xedb8_8320;

pub open spec fn cookie() -> Seq<u8> {
    seq![0x21u8, 0x12, 0xa4, 0x42]
}

// ------------------------------------------------------------------------ CRC

/// One bit of a CRC-32.
pub open spec fn crc_bit(crc: u32) -> u32 {
    if crc & 1 == 1 {
        (crc >> 1) ^ CRC_POLYNOMIAL
    } else {
        crc >> 1
    }
}

pub open spec fn crc_bits(crc: u32, n: nat) -> u32
    decreases n,
{
    if n == 0 {
        crc
    } else {
        crc_bit(crc_bits(crc, (n - 1) as nat))
    }
}

/// The CRC-32 register behind some octets.
pub open spec fn crc_register(data: Seq<u8>) -> u32
    decreases data.len(),
{
    if data.len() == 0 {
        0xffff_ffff
    } else {
        crc_bits(crc_register(data.drop_last()) ^ (data.last() as u32), 8)
    }
}

/// The CRC-32 of some octets.
pub open spec fn crc(data: Seq<u8>) -> u32 {
    crc_register(data) ^ 0xffff_ffff
}

pub fn crc32(data: &[u8]) -> (r: u32)
    ensures
        r == crc(data@),
{
    let mut state: u32 = 0xffff_ffff;
    let mut i: usize = 0;
    assert(data@.take(0) =~= Seq::empty());
    while i < data.len()
        invariant
            i <= data@.len(),
            state == crc_register(data@.take(i as int)),
        decreases data@.len() - i,
    {
        let start: u32 = state ^ (data[i] as u32);
        let mut value: u32 = start;
        let mut k: u32 = 0;
        while k < 8
            invariant
                k <= 8,
                value == crc_bits(start, k as nat),
            decreases 8 - k,
        {
            if value & 1 == 1 {
                value = (value >> 1) ^ CRC_POLYNOMIAL;
            } else {
                value = value >> 1;
            }
            k += 1;
        }
        state = value;
        assert(data@.take(i + 1).drop_last() =~= data@.take(i as int));
        i += 1;
    }
    assert(data@.take(data@.len() as int) =~= data@);
    state ^ 0xffff_ffff
}

/// The four octets of a number, most significant first.
pub open spec fn long_bytes(n: u32) -> Seq<u8> {
    seq![
        (n / 0x1000000) as u8,
        (n / 0x10000 % 256) as u8,
        (n / 256 % 256) as u8,
        (n % 256) as u8,
    ]
}

fn push_long(out: &mut Vec<u8>, n: u32)
    ensures
        final(out)@ == old(out)@ + long_bytes(n),
{
    out.push((n / 0x1000000) as u8);
    out.push((n / 0x10000 % 256) as u8);
    out.push((n / 256 % 256) as u8);
    out.push((n % 256) as u8);
    assert(out@ =~= old(out)@ + long_bytes(n));
}

/// The fingerprint of what precedes it.
pub open spec fn fingerprint(data: Seq<u8>) -> Seq<u8> {
    long_bytes(crc(data) ^ FINGERPRINT_XOR)
}

// -------------------------------------------------------------------- request

/// The header of a Binding request that announces one fingerprint.
pub open spec fn request_header(id: Seq<u8>) -> Seq<u8> {
    seq![0u8, 1, 0, 8] + cookie() + id
}

/// A Binding request for this transaction.
pub open spec fn request_bytes(id: Seq<u8>) -> Seq<u8> {
    request_header(id) + seq![0x80u8, 0x28, 0, 4] + fingerprint(request_header(id))
}

pub fn binding_request(id: &[u8; 12]) -> (r: Vec<u8>)
    ensures
        r@ == request_bytes(id@),
{
    let mut packet: Vec<u8> = Vec::new();
    packet.push(0);
    packet.push(1);
    packet.push(0);
    packet.push(8);
    packet.push(0x21);
    packet.push(0x12);
    packet.push(0xa4);
    packet.push(0x42);
    push_bytes(&mut packet, id.as_slice());
    assert(packet@ =~= request_header(id@));
    let mark: u32 = crc32(packet.as_slice()) ^ FINGERPRINT_XOR;
    packet.push(0x80);
    packet.push(0x28);
    packet.push(0);
    packet.push(4);
    push_long(&mut packet, mark);
    assert(packet@ =~= request_bytes(id@));
    packet
}

// ------------------------------------------------------------------- response

#[derive(Debug, Clone, Copy, PartialEq, Eq, Structural)]
pub enum StunResponse {
    Ignore,
    Error,
    Mapped(SocketAddr),
}

/// What an address is masked with: the cookie, then the transaction id.
pub open spec fn mask(id: Seq<u8>) -> Seq<u8> {
    cookie() + id
}

/// `n` octets behind the first four, without their mask.
pub open spec fn unmasked(data: Seq<u8>, id: Seq<u8>, n: nat) -> Seq<u8> {
    Seq::new(n, |i: int| data[4 + i] ^ mask(id)[i])
}

/// The address that an XOR-MAPPED-ADDRESS attribute holds.
pub open spec fn mapped_address(data: Seq<u8>, id: Seq<u8>) -> Option<SocketAddr> {
    if data.len() < 4 {
        None
    } else {
        let port = (net::word_at(data, 2) as u16) ^ 0x2112;
        if data[1] == 1 && data.len() == 8 {
            Some(SocketAddr { ip: net::v4_of(unmasked(data, id, 4)), port })
        } else if data[1] == 2 && data.len() == 20 {
            Some(SocketAddr { ip: net::v6_of(unmasked(data, id, 16)), port })
        } else {
            None
        }
    }
}

/// Is this the data of a well-formed ERROR-CODE attribute?
pub open spec fn error_code_data(data: Seq<u8>) -> bool {
    data.len() >= 4 && 3 <= data[2] <= 6 && data[3] <= 99
}

/// What attributes have said so far.
pub struct Found {
    pub mapped: Option<SocketAddr>,
    pub error: bool,
}

/// What the attributes from `offset` on add, or `None` where one of them makes
/// the response unusable.
pub open spec fn attributes_from(p: Seq<u8>, id: Seq<u8>, offset: int, found: Found) -> Option<
    Found,
>
    decreases p.len() - offset,
{
    if offset >= p.len() {
        Some(found)
    } else if offset < 0 || offset + 4 > p.len() {
        None
    } else {
        let kind = net::word_at(p, offset);
        let len = net::word_at(p, offset + 2);
        let end = offset + 4 + len;
        let padded = offset + 4 + (len + 3) / 4 * 4;
        let data = p.subrange(offset + 4, end);
        if padded > p.len() {
            None
        } else if kind == 0x0020 {
            if found.mapped is Some || mapped_address(data, id) is None {
                None
            } else {
                attributes_from(p, id, padded, Found { mapped: mapped_address(data, id), ..found })
            }
        } else if kind == 0x8028 {
            if len != 4 || padded != p.len() || data != fingerprint(p.subrange(0, offset)) {
                None
            } else {
                attributes_from(p, id, padded, found)
            }
        } else if kind == 0x0009 {
            if found.error || !error_code_data(data) {
                None
            } else {
                attributes_from(p, id, padded, Found { error: true, ..found })
            }
        } else if kind == 0x0001 || kind == 0x000a || kind >= 0x8000 {
            attributes_from(p, id, padded, found)
        } else {
            None
        }
    }
}

/// Is this a Binding response of this transaction, by its header?
pub open spec fn response_header(p: Seq<u8>, id: Seq<u8>) -> bool {
    &&& p.len() >= 20
    &&& p.subrange(4, 8) == cookie()
    &&& p.subrange(8, 20) == id
    &&& net::word_at(p, 2) % 4 == 0
    &&& net::word_at(p, 2) + 20 == p.len()
    &&& (net::word_at(p, 0) == 0x0101 || net::word_at(p, 0) == 0x0111)
}

/// What a packet says to this transaction.
pub open spec fn response_of(p: Seq<u8>, id: Seq<u8>) -> StunResponse {
    if !response_header(p, id) {
        StunResponse::Ignore
    } else {
        match attributes_from(p, id, 20, Found { mapped: None, error: false }) {
            None => StunResponse::Ignore,
            Some(found) => if net::word_at(p, 0) == 0x0111 {
                if found.error {
                    StunResponse::Error
                } else {
                    StunResponse::Ignore
                }
            } else {
                match found.mapped {
                    Some(address) => StunResponse::Mapped(address),
                    None => StunResponse::Ignore,
                }
            },
        }
    }
}

fn unmask(data: &[u8], id: &[u8; 12], n: usize) -> (r: Vec<u8>)
    requires
        n <= 16,
        data@.len() >= 4 + n,
    ensures
        r@ == unmasked(data@, id@, n as nat),
{
    let mut key: Vec<u8> = Vec::new();
    key.push(0x21);
    key.push(0x12);
    key.push(0xa4);
    key.push(0x42);
    push_bytes(&mut key, id.as_slice());
    assert(key@ =~= mask(id@));
    let mut r: Vec<u8> = Vec::new();
    let mut i: usize = 0;
    while i < n
        invariant
            i <= n <= 16,
            data@.len() >= 4 + n,
            key@ == mask(id@),
            key@.len() == 16,
            r@.len() == i,
            forall|k: int| 0 <= k < i ==> r@[k] == data@[4 + k] ^ mask(id@)[k],
        decreases n - i,
    {
        r.push(data[4 + i] ^ key[i]);
        i += 1;
    }
    assert(r@ =~= unmasked(data@, id@, n as nat));
    r
}

fn read_mapped(data: &[u8], id: &[u8; 12]) -> (r: Option<SocketAddr>)
    ensures
        r == mapped_address(data@, id@),
{
    if data.len() < 4 {
        return None;
    }
    let port: u16 = be16(data, 2) ^ 0x2112;
    if data[1] == 1 && data.len() == 8 {
        let octets = unmask(data, id, 4);
        Some(SocketAddr { ip: v4_from(octets.as_slice()), port })
    } else if data[1] == 2 && data.len() == 20 {
        let octets = unmask(data, id, 16);
        Some(SocketAddr { ip: v6_from(octets.as_slice()), port })
    } else {
        None
    }
}

pub fn binding_response(packet: &[u8], id: &[u8; 12]) -> (r: StunResponse)
    ensures
        r == response_of(packet@, id@),
{
    if packet.len() < 20 {
        return StunResponse::Ignore;
    }
    let mut magic: Vec<u8> = Vec::new();
    magic.push(0x21);
    magic.push(0x12);
    magic.push(0xa4);
    magic.push(0x42);
    assert(magic@ =~= cookie());
    if !bytes_same(slice_subrange(packet, 4, 8), magic.as_slice()) || !bytes_same(
        slice_subrange(packet, 8, 20),
        id.as_slice(),
    ) {
        return StunResponse::Ignore;
    }
    let size: usize = be16(packet, 2) as usize;
    if size % 4 != 0 || size + 20 != packet.len() {
        return StunResponse::Ignore;
    }
    let kind: u16 = be16(packet, 0);
    if kind != 0x0101 && kind != 0x0111 {
        return StunResponse::Ignore;
    }
    let mut mapped: Option<SocketAddr> = None;
    let mut error: bool = false;
    let mut offset: usize = 20;
    let ghost whole = attributes_from(packet@, id@, 20, Found { mapped: None, error: false });
    while offset < packet.len()
        invariant
            20 <= offset <= packet@.len() <= 0x10020,
            response_header(packet@, id@),
            kind == net::word_at(packet@, 0),
            whole == attributes_from(packet@, id@, 20, Found { mapped: None, error: false }),
            whole == attributes_from(packet@, id@, offset as int, Found { mapped, error }),
        decreases packet@.len() - offset,
    {
        if offset + 4 > packet.len() {
            return StunResponse::Ignore;
        }
        let attr: u16 = be16(packet, offset);
        let len: usize = be16(packet, offset + 2) as usize;
        let end: usize = offset + 4 + len;
        let padded_end: usize = offset + 4 + (len + 3) / 4 * 4;
        if padded_end > packet.len() {
            return StunResponse::Ignore;
        }
        let data = slice_subrange(packet, offset + 4, end);
        if attr == 0x0020 {
            if mapped.is_some() {
                return StunResponse::Ignore;
            }
            mapped = read_mapped(data, id);
            if mapped.is_none() {
                return StunResponse::Ignore;
            }
        } else if attr == 0x8028 {
            let mut mark: Vec<u8> = Vec::new();
            push_long(&mut mark, crc32(slice_subrange(packet, 0, offset)) ^ FINGERPRINT_XOR);
            assert(mark@ =~= fingerprint(packet@.subrange(0, offset as int)));
            if len != 4 || padded_end != packet.len() || !bytes_same(data, mark.as_slice()) {
                return StunResponse::Ignore;
            }
        } else if attr == 0x0009 {
            if error || len < 4 || data[2] < 3 || data[2] > 6 || data[3] > 99 {
                return StunResponse::Ignore;
            }
            error = true;
        } else if attr != 0x0001 && attr != 0x000a && attr < 0x8000 {
            return StunResponse::Ignore;
        }
        offset = padded_end;
    }
    if kind == 0x0111 {
        if error {
            StunResponse::Error
        } else {
            StunResponse::Ignore
        }
    } else {
        match mapped {
            Some(address) => StunResponse::Mapped(address),
            None => StunResponse::Ignore,
        }
    }
}

// ----------------------------------------------------------------------- laws

/// A packet of another transaction is never taken for this one's.
pub proof fn law_other_transactions_ignored(p: Seq<u8>, id: Seq<u8>, other: Seq<u8>)
    requires
        response_of(p, other) != StunResponse::Ignore,
        id != other,
    ensures
        response_of(p, id) == StunResponse::Ignore,
{
}

/// A request is never taken for a response.
pub proof fn law_request_is_no_response(id: Seq<u8>, other: Seq<u8>)
    requires
        id.len() == 12,
    ensures
        response_of(request_bytes(id), other) == StunResponse::Ignore,
{
    let p = request_bytes(id);
    assert(p[0] == 0 && p[1] == 1);
}

/// An XOR-MAPPED-ADDRESS attribute for an address of four or sixteen octets.
pub open spec fn mapped_attribute(octets: Seq<u8>, port: u16, id: Seq<u8>) -> Seq<u8> {
    seq![0u8, 0x20, 0, (octets.len() + 4) as u8, 0, if octets.len() == 4 {
        1u8
    } else {
        2u8
    }] + net::word_bytes(port ^ 0x2112) + Seq::new(
        octets.len(),
        |i: int| octets[i] ^ mask(id)[i],
    )
}

/// A Binding success that tells an address, up to its fingerprint.
pub open spec fn success_head(octets: Seq<u8>, port: u16, id: Seq<u8>) -> Seq<u8> {
    seq![1u8, 1, 0, (octets.len() + 16) as u8] + cookie() + id + mapped_attribute(
        octets,
        port,
        id,
    )
}

/// A Binding success that tells an address.
pub open spec fn success_bytes(octets: Seq<u8>, port: u16, id: Seq<u8>) -> Seq<u8> {
    success_head(octets, port, id) + seq![0x80u8, 0x28, 0, 4] + fingerprint(
        success_head(octets, port, id),
    )
}

proof fn lemma_mapped(octets: Seq<u8>, port: u16, id: Seq<u8>, data: Seq<u8>)
    requires
        id.len() == 12,
        octets.len() == 4 || octets.len() == 16,
        data == mapped_attribute(octets, port, id).subrange(4, octets.len() as int + 8),
    ensures
        mapped_address(data, id) == Some(
            SocketAddr {
                ip: if octets.len() == 4 {
                    net::v4_of(octets)
                } else {
                    net::v6_of(octets)
                },
                port,
            },
        ),
{
    let masked = port ^ 0x2112;
    let words = net::word_bytes(masked);
    assert(data[2] == words[0] && data[3] == words[1]);
    assert(net::word_at(data, 2) == masked);
    assert((port ^ 0x2112) ^ 0x2112 == port) by (bit_vector);
    let n = octets.len();
    assert forall|i: int| 0 <= i < n implies unmasked(data, id, n)[i] == octets[i] by {
        let a = octets[i];
        let b = mask(id)[i];
        assert(data[4 + i] == a ^ b);
        assert((a ^ b) ^ b == a) by (bit_vector);
    }
    assert(unmasked(data, id, n) =~= octets);
}

/// A success of this transaction is read: the address that it tells comes out.
pub proof fn law_success_tells_its_address(octets: Seq<u8>, port: u16, id: Seq<u8>)
    requires
        id.len() == 12,
        octets.len() == 4 || octets.len() == 16,
    ensures
        response_of(success_bytes(octets, port, id), id) == StunResponse::Mapped(
            SocketAddr {
                ip: if octets.len() == 4 {
                    net::v4_of(octets)
                } else {
                    net::v6_of(octets)
                },
                port,
            },
        ),
{
    let n = octets.len() as int;
    let head = success_head(octets, port, id);
    let attribute = mapped_attribute(octets, port, id);
    let p = success_bytes(octets, port, id);
    let at = 28 + n;
    assert(head.len() == at);
    assert(p.len() == n + 36);
    assert(p.subrange(4, 8) =~= cookie());
    assert(p.subrange(8, 20) =~= id);
    assert(p[0] == 1 && p[1] == 1 && p[2] == 0 && p[3] == n + 16);
    assert(response_header(p, id));
    assert(p[20] == 0 && p[21] == 0x20 && p[22] == 0 && p[23] == n + 4);
    let data = p.subrange(24, 28 + n);
    assert(data =~= attribute.subrange(4, n + 8));
    lemma_mapped(octets, port, id, data);
    let found = Found { mapped: mapped_address(data, id), error: false };
    assert(p[at] == 0x80 && p[at + 1] == 0x28 && p[at + 2] == 0 && p[at + 3] == 4);
    assert(p.subrange(0, at) =~= head);
    assert(p.subrange(at + 4, at + 8) =~= fingerprint(head));
    assert(attributes_from(p, id, p.len() as int, found) == Some(found));
    assert(attributes_from(p, id, at, found) == Some(found));
    assert(attributes_from(p, id, 20, Found { mapped: None, error: false }) == Some(found));
}

} // verus!
