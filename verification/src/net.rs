//! Network addresses and big-endian words as plain values.

use vstd::prelude::*;

verus! {

/// An address as the number that its octets write, most significant first.
#[derive(Debug, Clone, Copy, PartialEq, Eq, Structural)]
pub enum IpAddr {
    V4(u32),
    V6(u128),
}

impl IpAddr {
    pub fn is_ipv4(&self) -> (r: bool)
        ensures
            r == (*self is V4),
    {
        match self {
            IpAddr::V4(_) => true,
            IpAddr::V6(_) => false,
        }
    }

    pub fn is_ipv6(&self) -> (r: bool)
        ensures
            r == (*self is V6),
    {
        match self {
            IpAddr::V4(_) => false,
            IpAddr::V6(_) => true,
        }
    }
}

#[derive(Debug, Clone, Copy, PartialEq, Eq, Structural)]
pub struct SocketAddr {
    pub ip: IpAddr,
    pub port: u16,
}

/// A socket by number, with its local address.
#[derive(Debug, Clone, Copy, PartialEq, Eq, Structural)]
pub struct BoundSocket {
    pub id: u64,
    pub local: SocketAddr,
}

impl SocketAddr {
    pub fn new(ip: IpAddr, port: u16) -> (r: Self)
        ensures
            r == (SocketAddr { ip, port }),
    {
        SocketAddr { ip, port }
    }
}

/// The number that some octets write, most significant first.
pub open spec fn be_value(s: Seq<u8>) -> nat
    decreases s.len(),
{
    if s.len() == 0 {
        0
    } else {
        256 * be_value(s.drop_last()) + s.last() as nat
    }
}

pub open spec fn pow256(n: nat) -> nat
    decreases n,
{
    if n == 0 {
        1
    } else {
        256 * pow256((n - 1) as nat)
    }
}

pub proof fn lemma_be_bound(s: Seq<u8>)
    ensures
        be_value(s) < pow256(s.len()),
    decreases s.len(),
{
    if s.len() > 0 {
        lemma_be_bound(s.drop_last());
    }
}

/// The address that four octets write.
pub open spec fn v4_of(s: Seq<u8>) -> IpAddr {
    IpAddr::V4(be_value(s) as u32)
}

/// The address that sixteen octets write.
pub open spec fn v6_of(s: Seq<u8>) -> IpAddr {
    IpAddr::V6(be_value(s) as u128)
}

fn be_number(s: &[u8]) -> (r: u128)
    requires
        s@.len() <= 16,
    ensures
        r == be_value(s@),
        r < pow256(s@.len()),
{
    let mut n: u128 = 0;
    let mut i: usize = 0;
    proof {
        reveal_with_fuel(be_value, 2);
        assert(s@.take(0) =~= Seq::empty());
    }
    while i < s.len()
        invariant
            i <= s@.len() <= 16,
            n == be_value(s@.take(i as int)),
        decreases s@.len() - i,
    {
        proof {
            reveal_with_fuel(pow256, 17);
            assert(s@.take(i + 1).drop_last() =~= s@.take(i as int));
            lemma_be_bound(s@.take(i + 1));
            assert(pow256(16) == 0x1_0000_0000_0000_0000_0000_0000_0000_0000int);
        }
        n = 256 * n + s[i] as u128;
        i += 1;
    }
    proof {
        assert(s@.take(s@.len() as int) =~= s@);
        lemma_be_bound(s@);
    }
    n
}

pub fn v4_from(s: &[u8]) -> (r: IpAddr)
    requires
        s@.len() == 4,
    ensures
        r == v4_of(s@),
        r == IpAddr::V4(be_value(s@) as u32),
        be_value(s@) <= u32::MAX,
{
    let n: u128 = be_number(s);
    proof {
        reveal_with_fuel(pow256, 5);
    }
    IpAddr::V4(n as u32)
}

pub fn v6_from(s: &[u8]) -> (r: IpAddr)
    requires
        s@.len() == 16,
    ensures
        r == v6_of(s@),
{
    IpAddr::V6(be_number(s))
}

/// The big-endian word at `i`.
pub open spec fn word_at(s: Seq<u8>, i: int) -> int {
    s[i] as int * 256 + s[i + 1] as int
}

pub fn be16(s: &[u8], i: usize) -> (r: u16)
    requires
        i + 2 <= s@.len(),
    ensures
        r == word_at(s@, i as int),
{
    s[i] as u16 * 256 + s[i + 1] as u16
}

/// The two octets of a word.
pub open spec fn word_bytes(n: u16) -> Seq<u8> {
    seq![(n / 256) as u8, (n % 256) as u8]
}

pub fn push_word(out: &mut Vec<u8>, n: u16)
    ensures
        final(out)@ == old(out)@ + word_bytes(n),
{
    out.push((n / 256) as u8);
    out.push((n % 256) as u8);
    assert(out@ =~= old(out)@ + word_bytes(n));
}

pub fn push_bytes(out: &mut Vec<u8>, s: &[u8])
    ensures
        final(out)@ == old(out)@ + s@,
{
    let mut i: usize = 0;
    assert(out@ =~= old(out)@ + s@.take(0));
    while i < s.len()
        invariant
            i <= s@.len(),
            out@ == old(out)@ + s@.take(i as int),
        decreases s@.len() - i,
    {
        out.push(s[i]);
        assert(out@ =~= old(out)@ + s@.take(i + 1));
        i += 1;
    }
    assert(s@.take(s@.len() as int) =~= s@);
}

pub fn bytes_same(a: &[u8], b: &[u8]) -> (r: bool)
    ensures
        r == (a@ == b@),
{
    if a.len() != b.len() {
        return false;
    }
    let mut i: usize = 0;
    while i < a.len()
        invariant
            a@.len() == b@.len(),
            i <= a@.len(),
            forall|k: int| 0 <= k < i ==> a@[k] == b@[k],
        decreases a@.len() - i,
    {
        if a[i] != b[i] {
            return false;
        }
        i += 1;
    }
    assert(a@ =~= b@);
    true
}

pub fn to_bytes(s: &[u8]) -> (r: Vec<u8>)
    ensures
        r@ == s@,
{
    let mut r: Vec<u8> = Vec::new();
    push_bytes(&mut r, s);
    assert(r@ =~= s@);
    r
}

/// Is this address in the list?
pub fn has_addr(list: &Vec<IpAddr>, addr: IpAddr) -> (r: bool)
    ensures
        r == list@.contains(addr),
{
    let mut i: usize = 0;
    while i < list.len()
        invariant
            i <= list@.len(),
            forall|k: int| 0 <= k < i ==> list@[k] != addr,
        decreases list@.len() - i,
    {
        if list[i] == addr {
            assert(list@[i as int] == addr);
            return true;
        }
        i += 1;
    }
    false
}

} // verus!
