//! Client flow maintenance, shared by the two IMS access legs.
//!
//! A REGISTER lease and a transport flow are different lifetimes. Only a
//! successful outbound negotiation and a live flow permit another registration.
//! Unknown paths require acknowledged keepalives; paths observed without NAT
//! may omit them unless a Flow-Timer asks for them.
//!
//! Times are nanoseconds of a monotonic clock. What the line's coordinator has
//! to learn is left in the flow's notices; what it decides comes in as values.

use crate::ims_access::ImsAccess;
use crate::ims_error::ImsError;
use crate::ip_text;
use crate::ip_text::{parse_ip_chars, parse_socket_chars};
use crate::net::{bytes_same, to_bytes, SocketAddr};
use crate::register_response;
use crate::register_response::{has_option, RegisterArtifacts, RegisterTransactionKey};
use crate::register_rewrite;
use crate::register_rewrite::{legacy_register, offer_register};
use crate::sip_frame;
use crate::sip_frame::{header_value, header_values, is_request, parse_status};
use crate::stun;
use crate::stun::{binding_request, binding_response, StunResponse};
use crate::text;
use crate::text::{chars_of, is_alike_text, parse_u16, part_before, parts, split_once, string_of};
use crate::text::{trimmed, words_of};
use ring::rand::{SecureRandom, SystemRandom};
use vstd::prelude::*;
use vstd::slice::slice_subrange;

verus! {

pub const SECOND: u64 = 1_000_000_000;

pub const PONG_TIMEOUT: u64 = 10_000_000_000;

pub const STUN_RTO: u64 = 500_000_000;

/// Flow failure is detected within sixteen retransmission timeouts.
pub const STUN_TIMEOUT: u64 = 8_000_000_000;

pub const MAX_RETRANSMITS: u8 = 7;

/// Clock readings stay below this, so that deadlines cannot overflow.
pub const MAX_TIME: u64 = 0x3fff_ffff_ffff_ffff;

// --------------------------------------------------------------------- leases

/// A registration's lease on a flow.
#[derive(Debug, Clone)]
pub struct FlowLease {
    pub instance: String,
    pub expires: u64,
    pub negotiated: bool,
    pub healthy: bool,
    pub healthy_until: u64,
    pub failed: bool,
}

/// A lease as a value.
pub struct LeaseValue {
    pub instance: Seq<char>,
    pub expires: u64,
    pub negotiated: bool,
    pub healthy: bool,
    pub healthy_until: u64,
    pub failed: bool,
}

impl LeaseValue {
    /// Does the lease prove a negotiated flow that works?
    pub open spec fn proves(self, now: u64) -> bool {
        self.negotiated && self.healthy && !self.failed && now < self.expires && now
            < self.healthy_until
    }

    pub open spec fn lives(self, now: u64) -> bool {
        !self.failed && now < self.expires
    }

    pub open spec fn invalidated(self) -> LeaseValue {
        LeaseValue { failed: true, healthy: false, ..self }
    }

    pub open spec fn acknowledged(self, until: u64) -> LeaseValue {
        LeaseValue { healthy: true, healthy_until: until, ..self }
    }
}

impl View for FlowLease {
    type V = LeaseValue;

    open spec fn view(&self) -> LeaseValue {
        LeaseValue {
            instance: self.instance@,
            expires: self.expires,
            negotiated: self.negotiated,
            healthy: self.healthy,
            healthy_until: self.healthy_until,
            failed: self.failed,
        }
    }
}

impl FlowLease {
    pub fn proven(&self, now: u64) -> (r: bool)
        ensures
            r == self@.proves(now),
    {
        self.negotiated && self.healthy && !self.failed && now < self.expires && now
            < self.healthy_until
    }

    pub fn invalidate(&mut self)
        ensures
            final(self)@ == old(self)@.invalidated(),
    {
        self.failed = true;
        self.healthy = false;
    }

    pub fn live(&self, now: u64) -> (r: bool)
        ensures
            r == self@.lives(now),
    {
        !self.failed && now < self.expires
    }

    fn acknowledge(&mut self, healthy_until: u64)
        ensures
            final(self)@ == old(self)@.acknowledged(healthy_until),
    {
        self.healthy = true;
        self.healthy_until = healthy_until;
    }
}

// ----------------------------------------------------------------------- flow

/// What the line's coordinator decides about a flow that registers.
#[derive(Debug, Clone, Copy, PartialEq, Eq, Structural)]
pub struct LineOutbound {
    /// Another flow is bound, so that this one has to require outbound.
    pub additional_flow_requires_outbound: bool,
    pub may_offer_outbound: bool,
    /// The flow's instance is the one that the line is bound with.
    pub instance_matches: bool,
}

/// What a flow tells the line's coordinator.
#[derive(Debug, Clone, Copy, PartialEq, Eq, Structural)]
pub enum LineNotice {
    RejectOutbound(ImsAccess),
    InvalidateFlows,
    Observed(ImsAccess, RegisterArtifacts),
    FlowAttached(ImsAccess),
    FlowHealthy(ImsAccess),
    FlowFailed(ImsAccess),
    /// The lease of the flow that was attached is no longer valid: its binding is
    /// gone.
    FlowRemoved(ImsAccess),
}

#[derive(Debug, Clone)]
pub struct FlowOffer {
    pub access: ImsAccess,
    pub instance: String,
    pub enabled: bool,
}

#[derive(Debug, Clone)]
pub struct PendingProbe {
    pub id: [u8; 12],
    pub packet: Vec<u8>,
    pub deadline: u64,
    pub retransmits: u8,
    pub timeout_at: u64,
}

#[derive(Debug, Clone)]
pub struct OutboundFlow {
    pub offer: Option<FlowOffer>,
    pub last_request: Option<Vec<u8>>,
    pub last_source: Option<Vec<u8>>,
    pub lease: Option<FlowLease>,
    pub tcp: bool,
    pub timer: Option<u32>,
    pub next_probe: Option<u64>,
    pub pending: Option<PendingProbe>,
    pub mapped: Option<SocketAddr>,
    pub failure_reported: bool,
    pub no_nat: bool,
    pub notices: Vec<LineNotice>,
}

pub struct OfferState {
    pub access: ImsAccess,
    pub instance: Seq<char>,
    pub enabled: bool,
}

pub struct ProbeState {
    pub id: Seq<u8>,
    pub packet: Seq<u8>,
    pub deadline: u64,
    pub retransmits: u8,
    pub timeout_at: u64,
}

/// A flow as a value.
pub struct FlowState {
    pub offer: Option<OfferState>,
    pub last_request: Option<Seq<u8>>,
    pub last_source: Option<Seq<u8>>,
    pub lease: Option<LeaseValue>,
    pub tcp: bool,
    pub timer: Option<u32>,
    pub next_probe: Option<u64>,
    pub pending: Option<ProbeState>,
    pub mapped: Option<SocketAddr>,
    pub failure_reported: bool,
    pub no_nat: bool,
    pub notices: Seq<LineNotice>,
}

impl View for PendingProbe {
    type V = ProbeState;

    open spec fn view(&self) -> ProbeState {
        ProbeState {
            id: self.id@,
            packet: self.packet@,
            deadline: self.deadline,
            retransmits: self.retransmits,
            timeout_at: self.timeout_at,
        }
    }
}

impl View for FlowOffer {
    type V = OfferState;

    open spec fn view(&self) -> OfferState {
        OfferState { access: self.access, instance: self.instance@, enabled: self.enabled }
    }
}

pub open spec fn opt_bytes(o: Option<Vec<u8>>) -> Option<Seq<u8>> {
    match o {
        Some(v) => Some(v@),
        None => None,
    }
}

impl View for OutboundFlow {
    type V = FlowState;

    open spec fn view(&self) -> FlowState {
        FlowState {
            offer: match self.offer {
                Some(offer) => Some(offer@),
                None => None,
            },
            last_request: opt_bytes(self.last_request),
            last_source: opt_bytes(self.last_source),
            lease: match self.lease {
                Some(lease) => Some(lease@),
                None => None,
            },
            tcp: self.tcp,
            timer: self.timer,
            next_probe: self.next_probe,
            pending: match self.pending {
                Some(probe) => Some(probe@),
                None => None,
            },
            mapped: self.mapped,
            failure_reported: self.failure_reported,
            no_nat: self.no_nat,
            notices: self.notices@,
        }
    }
}

/// A flow that has done nothing yet.
pub open spec fn fresh_flow() -> FlowState {
    FlowState {
        offer: None,
        last_request: None,
        last_source: None,
        lease: None,
        tcp: false,
        timer: None,
        next_probe: None,
        pending: None,
        mapped: None,
        failure_reported: false,
        no_nat: false,
        notices: Seq::empty(),
    }
}

impl FlowState {
    pub open spec fn noticing(self, notice: LineNotice) -> FlowState {
        FlowState { notices: self.notices.push(notice), ..self }
    }

    /// Deadlines that cannot overflow when they are extended.
    pub open spec fn timely(self) -> bool {
        self.pending matches Some(probe) ==> probe.timeout_at <= MAX_TIME + PONG_TIMEOUT
    }
}

impl Default for OutboundFlow {
    fn default() -> (r: Self)
        ensures
            r@ == fresh_flow(),
    {
        let r = OutboundFlow {
            offer: None,
            last_request: None,
            last_source: None,
            lease: None,
            tcp: false,
            timer: None,
            next_probe: None,
            pending: None,
            mapped: None,
            failure_reported: false,
            no_nat: false,
            notices: Vec::new(),
        };
        assert(r@.notices =~= Seq::empty());
        r
    }
}

impl OutboundFlow {
    /// Hands over what the coordinator has to learn. It is told once.
    pub fn take_notices(&mut self) -> (r: Vec<LineNotice>)
        ensures
            r@ == old(self)@.notices,
            final(self)@ == (FlowState { notices: Seq::empty(), ..old(self)@ }),
    {
        let mut taken: Vec<LineNotice> = Vec::new();
        std::mem::swap(&mut self.notices, &mut taken);
        assert(self@.notices =~= Seq::empty());
        taken
    }
}

// ------------------------------------------------------------- NAT observation

/// The topmost Via of a frame.
pub open spec fn via_of(frame: Seq<u8>) -> Option<Seq<char>> {
    match sip_frame::header_of(frame, "Via"@) {
        Some(via) => Some(via),
        None => sip_frame::header_of(frame, "v"@),
    }
}

/// The sent-by address of a Via.
pub open spec fn sent_by(via: Seq<char>) -> Option<SocketAddr> {
    let words = text::words(text::before(via, ';'));
    if words.len() < 2 {
        None
    } else {
        ip_text::socket_text(words[1])
    }
}

/// The values of a Via parameter among the parts before `n`.
pub open spec fn via_values_upto(pieces: Seq<Seq<char>>, name: Seq<char>, n: int) -> Seq<Seq<char>>
    decreases n,
{
    if n <= 1 {
        Seq::empty()
    } else {
        let known = via_values_upto(pieces, name, n - 1);
        match text::cut(text::trim(pieces[n - 1]), '=') {
            Some((key, value)) => if text::alike(text::trim(key), name) {
                known.push(text::trim(value))
            } else {
                known
            },
            None => known,
        }
    }
}

/// The value of a Via parameter that is there exactly once.
pub open spec fn via_parameter(via: Seq<char>, name: Seq<char>) -> Option<Seq<char>> {
    let pieces = text::split(via, ';');
    let values = via_values_upto(pieces, name, pieces.len() as int);
    if values.len() == 1 {
        Some(values[0])
    } else {
        None
    }
}

pub open spec fn bracket(c: char) -> bool {
    c == '[' || c == ']'
}

pub open spec fn skip_brackets(s: Seq<char>, i: int) -> int
    decreases s.len() - i,
{
    if i < s.len() && bracket(s[i]) {
        skip_brackets(s, i + 1)
    } else {
        i
    }
}

pub open spec fn back_brackets(s: Seq<char>, lo: int, hi: int) -> int
    decreases hi - lo,
{
    if lo < hi && bracket(s[hi - 1]) {
        back_brackets(s, lo, hi - 1)
    } else {
        hi
    }
}

/// A text without the brackets at its ends.
pub open spec fn unbracketed(s: Seq<char>) -> Seq<char> {
    let lo = skip_brackets(s, 0);
    s.subrange(lo, back_brackets(s, lo, s.len() as int))
}

/// Does the response state, once and explicitly, that the request arrived from
/// the very address and port that it was sent from?
pub open spec fn confirms_no_nat(request: Seq<u8>, response: Seq<u8>) -> bool {
    match (via_of(request), via_of(response)) {
        (Some(sent), Some(received)) => match (
            sent_by(sent),
            via_parameter(received, "received"@),
            via_parameter(received, "rport"@),
        ) {
            (Some(local), Some(address), Some(port)) => {
                &&& ip_text::ip_text(unbracketed(address)) == Some(local.ip)
                &&& text::unsigned(port, u16::MAX as nat) == Some(local.port as nat)
            },
            _ => false,
        },
        _ => false,
    }
}

fn read_via(frame: &[u8]) -> (r: Option<String>)
    ensures
        text::opt_text(r) == via_of(frame@),
{
    match header_value(frame, "Via") {
        Some(via) => Some(via),
        None => header_value(frame, "v"),
    }
}

fn read_via_parameter(via: &[char], name: &str) -> (r: Option<Vec<char>>)
    ensures
        match r {
            Some(v) => via_parameter(via@, name@) == Some(v@),
            None => via_parameter(via@, name@) is None,
        },
{
    let pieces = parts(via, ';');
    let ghost all = text::split(via@, ';');
    let mut values: Vec<&[char]> = Vec::new();
    assert(text::views(values@) =~= Seq::empty());
    let mut i: usize = 1;
    while i < pieces.len()
        invariant
            1 <= i,
            i <= pieces@.len() || (i == 1 && pieces@.len() == 0),
            all == text::split(via@, ';'),
            text::views(pieces@) == all,
            text::views(values@) == via_values_upto(all, name@, i as int),
        decreases pieces@.len() - i,
    {
        assert(all[i as int] == pieces@[i as int]@);
        if let Some((key, value)) = split_once(trimmed(pieces[i]), '=') {
            if is_alike_text(trimmed(key), name) {
                let ghost before = values@;
                values.push(trimmed(value));
                assert(text::views(values@) =~= text::views(before).push(text::trim(value@)));
            }
        }
        i += 1;
    }
    assert(pieces@.len() == text::views(pieces@).len());
    assert(values@.len() == text::views(values@).len());
    if values.len() == 1 {
        assert(text::views(values@)[0] == values@[0]@);
        let mut out: Vec<char> = Vec::new();
        text::push_slice(&mut out, values[0]);
        assert(out@ =~= values@[0]@);
        Some(out)
    } else {
        None
    }
}

proof fn lemma_brackets(s: Seq<char>, i: int)
    requires
        0 <= i <= s.len(),
    ensures
        i <= skip_brackets(s, i) <= s.len(),
    decreases s.len() - i,
{
    if i < s.len() && bracket(s[i]) {
        lemma_brackets(s, i + 1);
    }
}

fn strip_brackets<'a>(s: &'a [char]) -> (r: &'a [char])
    ensures
        r@ == unbracketed(s@),
{
    proof {
        lemma_brackets(s@, 0);
    }
    let mut lo: usize = 0;
    while lo < s.len() && (s[lo] == '[' || s[lo] == ']')
        invariant
            lo <= s@.len(),
            skip_brackets(s@, 0) == skip_brackets(s@, lo as int),
        decreases s@.len() - lo,
    {
        lo += 1;
    }
    let mut hi: usize = s.len();
    while lo < hi && (s[hi - 1] == '[' || s[hi - 1] == ']')
        invariant
            lo <= hi <= s@.len(),
            back_brackets(s@, lo as int, s@.len() as int) == back_brackets(
                s@,
                lo as int,
                hi as int,
            ),
        decreases hi,
    {
        hi -= 1;
    }
    slice_subrange(s, lo, hi)
}

pub fn initial_response_confirms_no_nat(request: &[u8], response: &[u8]) -> (r: bool)
    ensures
        r == confirms_no_nat(request@, response@),
{
    let sent = match read_via(request) {
        Some(via) => chars_of(via.as_str()),
        None => return false,
    };
    let received = match read_via(response) {
        Some(via) => chars_of(via.as_str()),
        None => return false,
    };
    let words = words_of(part_before(sent.as_slice(), ';'));
    assert(words@.len() == text::views(words@).len());
    if words.len() < 2 {
        return false;
    }
    assert(text::views(words@)[1] == words@[1]@);
    let local = match parse_socket_chars(words[1]) {
        Some(local) => local,
        None => return false,
    };
    let address = match read_via_parameter(received.as_slice(), "received") {
        Some(value) => value,
        None => return false,
    };
    let port = match read_via_parameter(received.as_slice(), "rport") {
        Some(value) => value,
        None => return false,
    };
    let same_address: bool = match parse_ip_chars(strip_brackets(address.as_slice())) {
        Some(ip) => ip == local.ip,
        None => false,
    };
    let same_port: bool = match parse_u16(port.as_slice()) {
        Some(n) => n == local.port,
        None => false,
    };
    same_address && same_port
}

// ------------------------------------------------------------------ randomness

/// `ring::rand::SystemRandom::fill` through `SecureRandom`: octets from the
/// system's generator, as many as were asked for. Nothing is stated of their
/// values, nor of when the generator fails.
#[verifier::external_body]
pub(crate) fn random_bytes(n: usize) -> (r: Option<Vec<u8>>)
    ensures
        r matches Some(v) ==> v@.len() == n,
{
    let mut bytes = vec![0u8; n];
    match SystemRandom::new().fill(&mut bytes) {
        Ok(()) => Some(bytes),
        Err(_) => None,
    }
}

/// A whole, in the units that a random share is counted in.
pub const WHOLE_SHARE: u64 = 0x1_ffff_fffe;

/// A random share of a whole: one half where the generator fails.
fn random_share() -> (r: u64)
    ensures
        r <= WHOLE_SHARE,
{
    match random_bytes(4) {
        Some(b) => {
            let n: u64 = ((b[0] as u64 * 256 + b[1] as u64) * 256 + b[2] as u64) * 256
                + b[3] as u64;
            2 * n
        },
        None => 0xffff_ffff,
    }
}

/// Four fifths to the whole of a number of seconds, by `share`, in nanoseconds.
pub open spec fn timer_interval(seconds: u32, share: u64) -> int {
    seconds as int * 1_000_000_000 * (4 * WHOLE_SHARE as int + share as int) / (5
        * WHOLE_SHARE as int)
}

/// The time between two keepalives: the network's timer less up to a fifth, or
/// a default range; never below a millisecond.
pub open spec fn interval_of(timer: Option<u32>, tcp: bool, share: u64) -> int {
    let value = match timer {
        Some(seconds) => timer_interval(seconds, share),
        None => if tcp {
            95_000_000_000 + 25_000_000_000 * share as int / WHOLE_SHARE as int
        } else {
            24_000_000_000 + 5_000_000_000 * share as int / WHOLE_SHARE as int
        },
    };
    if value < 1_000_000 {
        1_000_000
    } else {
        value
    }
}

/// A keepalive interval lies between four fifths of the network's timer and the
/// timer itself, so that it never exceeds the network's deadline.
pub proof fn law_interval_range(timer: Option<u32>, tcp: bool, share: u64)
    requires
        share <= WHOLE_SHARE,
    ensures
        timer matches Some(seconds) ==> {
            &&& interval_of(timer, tcp, share) >= seconds as int * 800_000_000
            &&& seconds > 0 ==> interval_of(timer, tcp, share) <= seconds as int * 1_000_000_000
        },
        timer is None && tcp ==> 95_000_000_000 <= interval_of(timer, tcp, share)
            <= 120_000_000_000,
        timer is None && !tcp ==> 24_000_000_000 <= interval_of(timer, tcp, share)
            <= 29_000_000_000,
        1_000_000 <= interval_of(timer, tcp, share) <= 0xffff_ffff * 1_000_000_000,
{
    let whole = WHOLE_SHARE as int;
    let part = share as int;
    match timer {
        Some(seconds) => {
            let n = seconds as int * 1_000_000_000;
            assert(n * (4 * whole + part) <= n * (5 * whole)) by (nonlinear_arith)
                requires
                    0 <= n,
                    part <= whole,
            ;
            assert(n * (4 * whole) <= n * (4 * whole + part)) by (nonlinear_arith)
                requires
                    0 <= n,
                    0 <= part,
            ;
            assert(n * (5 * whole) / (5 * whole) == n) by (nonlinear_arith)
                requires
                    whole > 0,
            ;
            assert(n * (4 * whole) == (seconds as int * 800_000_000) * (5 * whole))
                by (nonlinear_arith)
                requires
                    n == seconds as int * 1_000_000_000,
            ;
            assert((seconds as int * 800_000_000) * (5 * whole) / (5 * whole) == seconds as int
                * 800_000_000) by (nonlinear_arith)
                requires
                    whole > 0,
            ;
            vstd::arithmetic::div_mod::lemma_div_is_ordered(
                n * (4 * whole),
                n * (4 * whole + part),
                5 * whole,
            );
            vstd::arithmetic::div_mod::lemma_div_is_ordered(
                n * (4 * whole + part),
                n * (5 * whole),
                5 * whole,
            );
        },
        None => {},
    }
}

/// The keepalive interval for a random share.
pub fn probe_interval_at(timer: Option<u32>, tcp: bool, share: u64) -> (r: u64)
    requires
        share <= WHOLE_SHARE,
    ensures
        r == interval_of(timer, tcp, share),
{
    proof {
        law_interval_range(timer, tcp, share);
    }
    let value: u64 = match timer {
        Some(seconds) => {
            let n: u128 = seconds as u128 * 1_000_000_000;
            let parts: u128 = 4 * WHOLE_SHARE as u128 + share as u128;
            assert(n * parts <= 0xffff_ffff * 1_000_000_000 * (5 * WHOLE_SHARE as int))
                by (nonlinear_arith)
                requires
                    n <= 0xffff_ffff * 1_000_000_000,
                    parts <= 5 * WHOLE_SHARE,
            ;
            let q: u128 = n * parts / (5 * WHOLE_SHARE as u128);
            assert(q == timer_interval(seconds, share));
            q as u64
        },
        None => if tcp {
            95_000_000_000 + (25_000_000_000u128 * share as u128 / WHOLE_SHARE as u128) as u64
        } else {
            24_000_000_000 + (5_000_000_000u128 * share as u128 / WHOLE_SHARE as u128) as u64
        },
    };
    if value < 1_000_000 {
        1_000_000
    } else {
        value
    }
}

/// The time until the next keepalive.
pub fn probe_interval(timer: Option<u32>, tcp: bool) -> (r: u64)
    ensures
        exists|share: u64| share <= WHOLE_SHARE && r == #[trigger] interval_of(timer, tcp, share),
{
    let share: u64 = random_share();
    probe_interval_at(timer, tcp, share)
}

// ------------------------------------------------------------------ operations

pub open spec fn bytes_outcome(r: Result<Vec<u8>, ImsError>, want: Result<Seq<u8>, Seq<char>>) -> bool {
    match r {
        Ok(v) => want == Ok::<_, Seq<char>>(v@),
        Err(e) => want == Err::<Seq<u8>, _>(e.code_spec()),
    }
}

pub open spec fn unit_outcome(r: Result<(), ImsError>, want: Result<(), Seq<char>>) -> bool {
    match r {
        Ok(_) => want is Ok,
        Err(e) => want == Err::<(), _>(e.code_spec()),
    }
}

/// Is the flow bound by a lease that negotiated outbound?
pub open spec fn bound(f: FlowState) -> bool {
    f.lease matches Some(lease) && lease.negotiated
}

/// Must this REGISTER require outbound?
pub open spec fn requires_outbound(f: FlowState, line: LineOutbound) -> bool {
    bound(f) || line.additional_flow_requires_outbound
}

/// May this REGISTER offer outbound?
pub open spec fn offers_outbound(f: FlowState, line: LineOutbound) -> bool {
    bound(f) || (f.offer matches Some(offer) && offer.enabled && line.may_offer_outbound)
}

/// The frame that goes out for a REGISTER, where one may go out.
pub open spec fn outgoing(f: FlowState, frame: Seq<u8>, line: LineOutbound) -> Result<
    Seq<u8>,
    register_rewrite::RewriteError,
> {
    match f.offer {
        Some(offer) => if offers_outbound(f, line) {
            register_rewrite::offered(
                frame,
                register_rewrite::OfferValue {
                    instance: offer.instance,
                    reg_id: offer.access.reg_id_spec(),
                    required: requires_outbound(f, line),
                },
            )
        } else {
            register_rewrite::rewritten(frame, None)
        },
        None => Ok(frame),
    }
}

/// A frame prepared for sending. Anything but a REGISTER passes unchanged, a
/// retransmission repeats the very bytes of its transaction, and a second flow
/// that cannot offer outbound is refused.
pub open spec fn prepared(f: FlowState, frame: Seq<u8>, line: LineOutbound) -> (
    FlowState,
    Result<Seq<u8>, Seq<char>>,
) {
    match f.offer {
        None => (f, Ok(frame)),
        Some(offer) => if !sip_frame::request_is(frame, "REGISTER"@) {
            (f, Ok(frame))
        } else if f.last_source == Some(frame) && f.last_request is Some {
            (f, Ok(f.last_request->0))
        } else if requires_outbound(f, line) && (!offers_outbound(f, line)
            || !line.instance_matches) {
            (
                f.noticing(LineNotice::RejectOutbound(offer.access)),
                Err("ims_outbound_additional_flow_not_supported"@),
            )
        } else {
            match outgoing(f, frame, line) {
                Err(e) => (f, Err(e.code())),
                Ok(out) => (
                    FlowState { last_source: Some(frame), last_request: Some(out), ..f },
                    Ok(out),
                ),
            }
        },
    }
}

/// Does the response refuse outbound?
pub open spec fn refuses_outbound(frame: Seq<u8>) -> bool {
    let status = sip_frame::status_of(frame);
    status == Some(439nat) || (status == Some(420nat) && register_response::option_listed(
        frame,
        "Unsupported"@,
        "outbound"@,
    ))
}

/// Can this exchange show whether the path has a NAT? Only the initial,
/// unprotected tuple can: a protected one advertises another port than it
/// sends from.
pub open spec fn shows_path(request: Seq<u8>, response: Seq<u8>) -> bool {
    let status = sip_frame::status_of(response);
    &&& (status == Some(200nat) || status == Some(401nat) || status == Some(407nat))
    &&& sip_frame::header_values_of(request, "Security-Verify"@).len() == 0
}

/// A received frame taken into account.
pub open spec fn received(f: FlowState, frame: Seq<u8>) -> (FlowState, Result<(), Seq<char>>) {
    match (f.offer, f.last_request) {
        (Some(offer), Some(request)) => if !register_response::answers(request, frame) {
            (f, Ok(()))
        } else {
            let seen = if shows_path(request, frame) {
                FlowState { no_nat: confirms_no_nat(request, frame), ..f }
            } else {
                f
            };
            if refuses_outbound(frame) {
                (
                    seen.noticing(LineNotice::RejectOutbound(offer.access)),
                    Err("ims_outbound_rejected"@),
                )
            } else {
                (seen, Ok(()))
            }
        },
        _ => (f, Ok(())),
    }
}

/// A flow without lease and probes. Where it had a lease, the coordinator learns that
/// it is no longer valid.
pub open spec fn disabled(f: FlowState) -> FlowState {
    let idle = FlowState { lease: None, pending: None, next_probe: None, mapped: None, ..f };
    match (f.lease, f.offer) {
        (Some(_), Some(offer)) => idle.noticing(LineNotice::FlowRemoved(offer.access)),
        _ => idle,
    }
}

/// A failed flow: its lease is invalid, and the coordinator learns of it once.
pub open spec fn failed(f: FlowState) -> FlowState {
    let invalid = FlowState {
        lease: match f.lease {
            Some(lease) => Some(lease.invalidated()),
            None => None,
        },
        failure_reported: true,
        ..f
    };
    if f.failure_reported {
        invalid
    } else {
        match f.offer {
            Some(offer) => invalid.noticing(LineNotice::FlowFailed(offer.access)),
            None => invalid,
        }
    }
}

/// A flow that replaces this one's transport: the offer and what is known of
/// the path, and nothing of the lease and its probes.
pub open spec fn replaced(f: FlowState) -> FlowState {
    FlowState { offer: f.offer, no_nat: f.no_nat, ..fresh_flow() }
}

/// What a response says of this flow's binding.
pub open spec fn flow_artifacts(f: FlowState, response: Seq<u8>) -> RegisterArtifacts {
    let offer = f.offer->0;
    let request = f.last_request->0;
    let general = register_response::artifacts_of(response);
    let own = register_response::binding_artifacts_of(
        response,
        offer.instance,
        offer.access.reg_id_spec(),
    );
    if !register_response::option_listed(request, "Supported"@, "outbound"@) {
        general
    } else if register_response::option_listed(request, "Require"@, "outbound"@)
        || register_response::option_listed(response, "Require"@, "outbound"@) {
        own
    } else {
        RegisterArtifacts { own_binding_found: own.own_binding_found, ..general }
    }
}

/// Was outbound negotiated by this exchange?
pub open spec fn negotiates(request: Seq<u8>, artifacts: RegisterArtifacts) -> bool {
    &&& register_response::option_listed(request, "Supported"@, "outbound"@)
    &&& artifacts.outbound_required
    &&& artifacts.first_hop_outbound
    &&& artifacts.own_binding_found
}

/// Was outbound demanded, by either side, and yet not negotiated?
pub open spec fn negotiation_lost(request: Seq<u8>, artifacts: RegisterArtifacts) -> bool {
    &&& register_response::option_listed(request, "Require"@, "outbound"@)
        || artifacts.outbound_required
    &&& !negotiates(request, artifacts)
}

/// The lease behind an accepted response.
pub open spec fn renewed_lease(
    f: FlowState,
    expires: u32,
    negotiated: bool,
    now: u64,
) -> LeaseValue {
    let base = match f.lease {
        Some(lease) => lease,
        None => LeaseValue {
            instance: f.offer->0.instance,
            expires: now,
            negotiated: false,
            healthy: false,
            healthy_until: now,
            failed: false,
        },
    };
    LeaseValue { expires: (now + expires * SECOND) as u64, negotiated, ..base }
}

/// An accepted response with a lifetime: the lease is renewed and attached.
/// Without a NAT and without a Flow-Timer no keepalive is needed; otherwise a
/// negotiated flow is probed, a probe under way not being postponed.
pub open spec fn leased(
    f: FlowState,
    artifacts: RegisterArtifacts,
    negotiated: bool,
    expires: u32,
    tcp: bool,
    now: u64,
) -> FlowState {
    let access = f.offer->0.access;
    let lease = renewed_lease(f, expires, negotiated, now);
    let base = FlowState { lease: Some(lease), tcp, timer: artifacts.flow_timer_seconds, ..f }.noticing(
        LineNotice::FlowAttached(access),
    );
    if negotiated && !tcp && f.no_nat && artifacts.flow_timer_seconds is None {
        FlowState {
            next_probe: None,
            pending: None,
            lease: Some(lease.acknowledged((now + expires * SECOND) as u64)),
            ..base
        }.noticing(LineNotice::FlowHealthy(access))
    } else if negotiated {
        if f.next_probe is None && f.pending is None {
            FlowState { next_probe: Some(now), ..base }
        } else {
            base
        }
    } else {
        FlowState { next_probe: None, pending: None, ..base }
    }
}

/// The outcome of an accepted REGISTER.
pub open spec fn registered_outcome(
    f: FlowState,
    response: Seq<u8>,
    tcp: bool,
    default_expires: u32,
    now: u64,
) -> (FlowState, Result<RegisterArtifacts, Seq<char>>) {
    match (f.offer, f.last_request) {
        (Some(offer), Some(request)) => if !register_response::answers(request, response)
            || sip_frame::status_of(response) != Some(200nat) {
            (f, Err("ims_outbound_register_response_mismatch"@))
        } else {
            let artifacts = flow_artifacts(f, response);
            let observed = f.noticing(LineNotice::Observed(offer.access, artifacts));
            let expires = match artifacts.expires_seconds {
                Some(n) => n,
                None => default_expires,
            };
            if negotiation_lost(request, artifacts) {
                (
                    observed.noticing(LineNotice::RejectOutbound(offer.access)).noticing(
                        LineNotice::InvalidateFlows,
                    ),
                    Err("ims_outbound_negotiation_lost"@),
                )
            } else if expires == 0 {
                (disabled(observed), Ok(artifacts))
            } else if f.lease matches Some(lease) && lease.failed {
                (observed, Err("ims_outbound_flow_failed"@))
            } else {
                (
                    leased(
                        observed,
                        artifacts,
                        negotiates(request, artifacts),
                        expires,
                        tcp,
                        now,
                    ),
                    Ok(artifacts),
                )
            }
        },
        _ => (f, Ok(register_response::artifacts_of(response))),
    }
}

/// How long a probe may stay unanswered.
pub open spec fn probe_timeout(tcp: bool) -> u64 {
    if tcp {
        PONG_TIMEOUT
    } else {
        STUN_TIMEOUT
    }
}

pub open spec fn ping() -> Seq<u8> {
    seq![13u8, 10, 13, 10]
}

/// A probe sent now.
pub open spec fn new_probe(tcp: bool, id: Seq<u8>, now: u64) -> ProbeState {
    ProbeState {
        id,
        packet: if tcp {
            ping()
        } else {
            stun::request_bytes(id)
        },
        retransmits: 0,
        deadline: (now + if tcp {
            PONG_TIMEOUT
        } else {
            STUN_RTO
        }) as u64,
        timeout_at: (now + probe_timeout(tcp)) as u64,
    }
}

/// The deadline of a probe behind its `n`-th retransmission.
pub open spec fn retry_deadline(probe: ProbeState, n: int, now: u64) -> u64 {
    if n == MAX_RETRANSMITS || now + 2 * STUN_RTO > probe.timeout_at {
        probe.timeout_at
    } else {
        (now + 2 * STUN_RTO) as u64
    }
}

/// When a flow has to be polled next.
pub open spec fn deadline_of(f: FlowState) -> Option<u64> {
    match f.pending {
        Some(probe) => Some(probe.deadline),
        None => f.next_probe,
    }
}

/// Is it time for a new probe?
pub open spec fn probe_due(f: FlowState, now: u64) -> bool {
    &&& !(f.lease matches Some(lease) && lease.failed)
    &&& f.pending is None
    &&& f.next_probe matches Some(at) && now >= at
}

/// What a flow does at `now`: `id` is the transaction id of a new probe, or none
/// where the generator failed.
pub open spec fn polled(f: FlowState, now: u64, id: Option<Seq<u8>>) -> (
    FlowState,
    Result<Option<Seq<u8>>, Seq<char>>,
) {
    if f.lease matches Some(lease) && lease.failed {
        (f, Err("ims_outbound_flow_failed"@))
    } else {
        match f.pending {
            Some(probe) => if now < probe.deadline {
                (f, Ok(None))
            } else if f.tcp || now >= probe.timeout_at {
                (failed(f), Err("ims_outbound_keepalive_timeout"@))
            } else if probe.retransmits >= MAX_RETRANSMITS {
                (
                    FlowState {
                        pending: Some(ProbeState { deadline: probe.timeout_at, ..probe }),
                        ..f
                    },
                    Ok(None),
                )
            } else {
                (
                    FlowState {
                        pending: Some(
                            ProbeState {
                                retransmits: (probe.retransmits + 1) as u8,
                                deadline: retry_deadline(probe, probe.retransmits + 1, now),
                                ..probe
                            },
                        ),
                        ..f
                    },
                    Ok(Some(probe.packet)),
                )
            },
            None => if !probe_due(f, now) {
                (f, Ok(None))
            } else {
                match id {
                    None => (f, Err("ims_outbound_random_failed"@)),
                    Some(id) => {
                        let probe = new_probe(f.tcp, id, now);
                        (
                            FlowState { pending: Some(probe), next_probe: None, ..f },
                            Ok(Some(probe.packet)),
                        )
                    },
                }
            },
        }
    }
}

/// When the next probe goes out: an interval is measured between sends, not
/// from the answer.
pub open spec fn next_probe_at(f: FlowState, now: u64, interval: u64) -> int {
    match f.pending {
        Some(probe) => {
            let sent = if probe.timeout_at >= probe_timeout(f.tcp) {
                probe.timeout_at - probe_timeout(f.tcp)
            } else {
                0
            };
            if sent + interval > now {
                sent + interval
            } else {
                now as int
            }
        },
        None => now + interval,
    }
}

/// An answered probe: the lease is healthy until the next one must be answered.
pub open spec fn acknowledged_at(f: FlowState, now: u64, interval: u64) -> FlowState {
    let next = next_probe_at(f, now, interval) as u64;
    let answered = FlowState {
        pending: None,
        lease: match f.lease {
            Some(lease) => Some(lease.acknowledged((next + probe_timeout(f.tcp)) as u64)),
            None => None,
        },
        next_probe: Some(next),
        ..f
    };
    match f.offer {
        Some(offer) => answered.noticing(LineNotice::FlowHealthy(offer.access)),
        None => answered,
    }
}

/// Do only line-end octets stand in the packet?
pub open spec fn only_line_ends(packet: Seq<u8>) -> bool {
    forall|i: int| 0 <= i < packet.len() ==> #[trigger] packet[i] == 13 || packet[i] == 10
}

/// Is the packet binary traffic, which must never enter SIP framing?
pub open spec fn is_stun(packet: Seq<u8>) -> bool {
    packet.len() > 0 && packet[0] < 64 && !only_line_ends(packet)
}

/// A received datagram: true where it is STUN, malformed or unmatched as it may
/// be. `interval` is the time to the next probe where this one is answered.
pub open spec fn stun_received(f: FlowState, packet: Seq<u8>, now: u64, interval: u64) -> (
    FlowState,
    Result<bool, Seq<char>>,
) {
    if !is_stun(packet) {
        (f, Ok(false))
    } else {
        match f.pending {
            None => (f, Ok(true)),
            Some(probe) => if f.tcp {
                (f, Ok(true))
            } else {
                match stun::response_of(packet, probe.id) {
                    StunResponse::Ignore => (f, Ok(true)),
                    StunResponse::Error => (failed(f), Err("ims_outbound_stun_error"@)),
                    StunResponse::Mapped(address) => if f.mapped is Some && f.mapped != Some(
                        address,
                    ) {
                        (failed(f), Err("ims_outbound_mapping_changed"@))
                    } else {
                        (
                            acknowledged_at(
                                FlowState { mapped: Some(address), ..f },
                                now,
                                interval,
                            ),
                            Ok(true),
                        )
                    },
                }
            },
        }
    }
}

fn copy_opt(o: &Option<FlowOffer>) -> (r: Option<FlowOffer>)
    ensures
        (match r {
            Some(offer) => Some(offer@),
            None => None,
        }) == (match *o {
            Some(offer) => Some(offer@),
            None => None,
        }),
{
    match o {
        Some(offer) => Some(
            FlowOffer {
                access: offer.access,
                instance: offer.instance.clone(),
                enabled: offer.enabled,
            },
        ),
        None => None,
    }
}

fn has_only_line_ends(packet: &[u8]) -> (r: bool)
    ensures
        r == only_line_ends(packet@),
{
    let mut i: usize = 0;
    while i < packet.len()
        invariant
            i <= packet@.len(),
            forall|k: int| 0 <= k < i ==> #[trigger] packet@[k] == 13 || packet@[k] == 10,
        decreases packet@.len() - i,
    {
        if packet[i] != 13 && packet[i] != 10 {
            assert(!(packet@[i as int] == 13 || packet@[i as int] == 10));
            return false;
        }
        i += 1;
    }
    true
}

fn timeout_of(tcp: bool) -> (r: u64)
    ensures
        r == probe_timeout(tcp),
{
    if tcp {
        PONG_TIMEOUT
    } else {
        STUN_TIMEOUT
    }
}

impl OutboundFlow {
    pub fn configure(&mut self, access: ImsAccess, instance: &str, enabled: bool)
        ensures
            final(self)@ == (FlowState {
                offer: Some(OfferState { access, instance: instance@, enabled }),
                ..old(self)@
            }),
    {
        let name = chars_of(instance);
        self.offer =
        Some(FlowOffer { access, instance: string_of(name.as_slice()), enabled });
    }

    /// Prepares a frame for sending; only a REGISTER is rewritten, authenticated
    /// retries and unregistering included.
    pub fn prepare(&mut self, frame: &[u8], line: LineOutbound) -> (r: Result<Vec<u8>, ImsError>)
        ensures
            final(self)@ == prepared(old(self)@, frame@, line).0,
            bytes_outcome(r, prepared(old(self)@, frame@, line).1),
    {
        let offer = match copy_opt(&self.offer) {
            Some(offer) => offer,
            None => return Ok(to_bytes(frame)),
        };
        if !is_request(frame, "REGISTER") {
            return Ok(to_bytes(frame));
        }
        // A retransmission repeats the exact bytes of its transaction: a policy
        // change must not alter the capability offer under way.
        if let Some(source) = &self.last_source {
            if bytes_same(source.as_slice(), frame) {
                if let Some(request) = &self.last_request {
                    return Ok(to_bytes(request.as_slice()));
                }
            }
        }
        let bound_outbound: bool = match &self.lease {
            Some(lease) => lease.negotiated,
            None => false,
        };
        // Once bound, this binding is refreshed and removed with its original
        // outbound identity, whatever became of the other access.
        let required: bool = bound_outbound || line.additional_flow_requires_outbound;
        let enabled: bool = bound_outbound || (offer.enabled && line.may_offer_outbound);
        if required && (!enabled || !line.instance_matches) {
            self.notices.push(LineNotice::RejectOutbound(offer.access));
            return Err(ImsError::new("ims_outbound_additional_flow_not_supported"));
        }
        let result = if enabled {
            offer_register(frame, offer.instance.as_str(), offer.access.reg_id(), required)
        } else {
            legacy_register(frame)
        };
        match result {
            Err(e) => Err(e),
            Ok(out) => {
                self.last_source = Some(to_bytes(frame));
                self.last_request = Some(to_bytes(out.as_slice()));
                Ok(out)
            },
        }
    }

    /// Inspects a final response to the current REGISTER.
    pub fn received_sip(&mut self, frame: &[u8]) -> (r: Result<(), ImsError>)
        ensures
            final(self)@ == received(old(self)@, frame@).0,
            unit_outcome(r, received(old(self)@, frame@).1),
    {
        let access = match &self.offer {
            Some(offer) => offer.access,
            None => return Ok(()),
        };
        let request = match &self.last_request {
            Some(request) => to_bytes(request.as_slice()),
            None => return Ok(()),
        };
        match RegisterTransactionKey::from_register_request(request.as_slice()) {
            Some(key) => {
                if !key.matches_response(frame) {
                    return Ok(());
                }
            },
            None => return Ok(()),
        }
        let status: u16 = match parse_status(frame) {
            Ok(status) => status,
            Err(_) => return Ok(()),
        };
        if status == 200 || status == 401 || status == 407 {
            let verify = header_values(request.as_slice(), "Security-Verify");
            assert(verify@.len() == text::texts(verify@).len());
            if verify.len() == 0 {
                self.no_nat = initial_response_confirms_no_nat(request.as_slice(), frame);
            }
        }
        if status == 439 || (status == 420 && has_option(frame, "Unsupported", "outbound")) {
            self.notices.push(LineNotice::RejectOutbound(access));
            return Err(ImsError::new("ims_outbound_rejected"));
        }
        Ok(())
    }

    /// A flow for a tentative transport: the old flow's probes never go out on
    /// it.
    pub fn replacement(&self) -> (r: Self)
        ensures
            r@ == replaced(self@),
    {
        let mut r = OutboundFlow::default();
        r.offer = copy_opt(&self.offer);
        r.no_nat = self.no_nat;
        r
    }

    /// Security negotiation replaces sockets, not the path: only what is known
    /// of the path carries over.
    pub fn inherit_path_observation(&mut self, previous: &Self)
        ensures
            final(self)@ == (FlowState { no_nat: previous@.no_nat, ..old(self)@ }),
    {
        self.no_nat = previous.no_nat;
    }

    pub fn active(&self) -> (r: bool)
        ensures
            r == (self@.next_probe is Some || self@.pending is Some),
    {
        self.next_probe.is_some() || self.pending.is_some()
    }

    pub fn deadline(&self) -> (r: Option<u64>)
        ensures
            r == deadline_of(self@),
    {
        match &self.pending {
            Some(probe) => Some(probe.deadline),
            None => self.next_probe,
        }
    }

    pub fn disable(&mut self)
        ensures
            final(self)@ == disabled(old(self)@),
    {
        if self.lease.is_some() {
            if let Some(offer) = &self.offer {
                self.notices.push(LineNotice::FlowRemoved(offer.access));
            }
        }
        self.lease = None;
        self.pending = None;
        self.next_probe = None;
        self.mapped = None;
    }

    pub fn fail(&mut self, code: &'static str) -> (r: ImsError)
        ensures
            final(self)@ == failed(old(self)@),
            r.code_spec() == code@,
    {
        let lease = self.lease.take();
        self.lease =
        match lease {
            Some(mut lease) => {
                lease.invalidate();
                Some(lease)
            },
            None => None,
        };
        if !self.failure_reported {
            if let Some(offer) = &self.offer {
                self.notices.push(LineNotice::FlowFailed(offer.access));
            }
            self.failure_reported = true;
        }
        ImsError::new(code)
    }

    fn binding_facts(&self, response: &[u8]) -> (r: RegisterArtifacts)
        requires
            self@.offer is Some,
            self@.last_request is Some,
        ensures
            r == flow_artifacts(self@, response@),
    {
        let offer = self.offer.as_ref().unwrap();
        let request = self.last_request.as_ref().unwrap();
        let general = RegisterArtifacts::parse(response);
        if !has_option(request.as_slice(), "Supported", "outbound") {
            return general;
        }
        let own = RegisterArtifacts::parse_for_binding(
            response,
            offer.instance.as_str(),
            offer.access.reg_id(),
        );
        if has_option(request.as_slice(), "Require", "outbound") || has_option(
            response,
            "Require",
            "outbound",
        ) {
            return own;
        }
        RegisterArtifacts {
            expires_seconds: general.expires_seconds,
            own_binding_found: own.own_binding_found,
            outbound_required: general.outbound_required,
            first_hop_outbound: general.first_hop_outbound,
            flow_timer_seconds: general.flow_timer_seconds,
        }
    }

    /// Takes the matching success response of a REGISTER that its driver has
    /// accepted.
    pub fn registered(
        &mut self,
        response: &[u8],
        tcp: bool,
        default_expires: u32,
        now: u64,
    ) -> (r: Result<RegisterArtifacts, ImsError>)
        requires
            now <= MAX_TIME,
        ensures
            final(self)@ == registered_outcome(old(self)@, response@, tcp, default_expires, now).0,
            match r {
                Ok(artifacts) => registered_outcome(
                    old(self)@,
                    response@,
                    tcp,
                    default_expires,
                    now,
                ).1 == Ok::<_, Seq<char>>(artifacts),
                Err(e) => registered_outcome(old(self)@, response@, tcp, default_expires, now).1
                    == Err::<RegisterArtifacts, _>(e.code_spec()),
            },
    {
        if self.offer.is_none() || self.last_request.is_none() {
            return Ok(RegisterArtifacts::parse(response));
        }
        let access = self.offer.as_ref().unwrap().access;
        let request = to_bytes(self.last_request.as_ref().unwrap().as_slice());
        let matching: bool = match RegisterTransactionKey::from_register_request(
            request.as_slice(),
        ) {
            Some(key) => key.matches_response(response),
            None => false,
        };
        let accepted: bool = match parse_status(response) {
            Ok(status) => status == 200,
            Err(_) => false,
        };
        if !matching || !accepted {
            return Err(ImsError::new("ims_outbound_register_response_mismatch"));
        }
        let artifacts = self.binding_facts(response);
        self.notices.push(LineNotice::Observed(access, artifacts));
        let negotiated: bool = has_option(request.as_slice(), "Supported", "outbound")
            && artifacts.outbound_required && artifacts.first_hop_outbound
            && artifacts.own_binding_found;
        if (has_option(request.as_slice(), "Require", "outbound") || artifacts.outbound_required)
            && !negotiated {
            // The registrar ignored what was required and may have replaced the
            // primary binding: neither flow remains valid.
            self.notices.push(LineNotice::RejectOutbound(access));
            self.notices.push(LineNotice::InvalidateFlows);
            return Err(ImsError::new("ims_outbound_negotiation_lost"));
        }
        let expires: u32 = match artifacts.expires_seconds {
            Some(n) => n,
            None => default_expires,
        };
        if expires == 0 {
            self.disable();
            return Ok(artifacts);
        }
        if let Some(lease) = &self.lease {
            if lease.failed {
                // A refresh does not turn a failed flow into a healthy one.
                return Err(ImsError::new("ims_outbound_flow_failed"));
            }
        }
        let until: u64 = now + expires as u64 * SECOND;
        let previous = self.lease.take();
        let mut lease = match previous {
            Some(lease) => lease,
            None => FlowLease {
                instance: self.offer.as_ref().unwrap().instance.clone(),
                expires: now,
                negotiated: false,
                healthy: false,
                healthy_until: now,
                failed: false,
            },
        };
        lease.expires = until;
        lease.negotiated = negotiated;
        self.notices.push(LineNotice::FlowAttached(access));
        self.tcp = tcp;
        self.timer = artifacts.flow_timer_seconds;
        if negotiated && !tcp && self.no_nat && self.timer.is_none() {
            self.next_probe = None;
            self.pending = None;
            lease.acknowledge(until);
            self.lease = Some(lease);
            self.notices.push(LineNotice::FlowHealthy(access));
        } else {
            self.lease = Some(lease);
            if negotiated {
                // The next hop is validated before a second access registers.
                if self.next_probe.is_none() && self.pending.is_none() {
                    self.next_probe = Some(now);
                }
            } else {
                self.next_probe = None;
                self.pending = None;
            }
        }
        Ok(artifacts)
    }

    /// What the flow has to send at `now`, given the transaction id of a new
    /// probe.
    pub fn poll_with(&mut self, now: u64, id: Option<[u8; 12]>) -> (r: Result<
        Option<Vec<u8>>,
        ImsError,
    >)
        requires
            now <= MAX_TIME,
            old(self)@.timely(),
        ensures
            ({
                let want = polled(
                    old(self)@,
                    now,
                    match id {
                        Some(id) => Some(id@),
                        None => None,
                    },
                );
                &&& final(self)@ == want.0
                &&& final(self)@.timely()
                &&& match r {
                    Ok(out) => want.1 == Ok::<_, Seq<char>>(opt_bytes(out)),
                    Err(e) => want.1 == Err::<Option<Seq<u8>>, _>(e.code_spec()),
                }
            }),
    {
        if let Some(lease) = &self.lease {
            if lease.failed {
                return Err(ImsError::new("ims_outbound_flow_failed"));
            }
        }
        let pending = self.pending.take();
        match pending {
            Some(mut probe) => {
                if now < probe.deadline {
                    self.pending = Some(probe);
                    return Ok(None);
                }
                if self.tcp || now >= probe.timeout_at {
                    self.pending = Some(probe);
                    return Err(self.fail("ims_outbound_keepalive_timeout"));
                }
                if probe.retransmits >= MAX_RETRANSMITS {
                    probe.deadline = probe.timeout_at;
                    self.pending = Some(probe);
                    return Ok(None);
                }
                probe.retransmits = probe.retransmits + 1;
                let later: u64 = now + 2 * STUN_RTO;
                probe.deadline =
                if probe.retransmits == MAX_RETRANSMITS || later > probe.timeout_at {
                    probe.timeout_at
                } else {
                    later
                };
                let packet = to_bytes(probe.packet.as_slice());
                self.pending = Some(probe);
                Ok(Some(packet))
            },
            None => {
                let due: bool = match self.next_probe {
                    Some(at) => now >= at,
                    None => false,
                };
                if !due {
                    return Ok(None);
                }
                let id = match id {
                    Some(id) => id,
                    None => return Err(ImsError::new("ims_outbound_random_failed")),
                };
                let packet = if self.tcp {
                    let mut v: Vec<u8> = Vec::new();
                    v.push(13);
                    v.push(10);
                    v.push(13);
                    v.push(10);
                    assert(v@ =~= ping());
                    v
                } else {
                    binding_request(&id)
                };
                self.pending =
                Some(
                    PendingProbe {
                        id,
                        packet: to_bytes(packet.as_slice()),
                        retransmits: 0,
                        deadline: now + if self.tcp {
                            PONG_TIMEOUT
                        } else {
                            STUN_RTO
                        },
                        timeout_at: now + timeout_of(self.tcp),
                    },
                );
                self.next_probe = None;
                Ok(Some(packet))
            },
        }
    }

    /// What the flow has to send at `now`. A new probe gets an unpredictable
    /// transaction id.
    pub fn poll(&mut self, now: u64) -> (r: Result<Option<Vec<u8>>, ImsError>)
        requires
            now <= MAX_TIME,
            old(self)@.timely(),
        ensures
            exists|id: Option<Seq<u8>>|
                {
                    let want = #[trigger] polled(old(self)@, now, id);
                    &&& final(self)@ == want.0
                    &&& match r {
                        Ok(out) => want.1 == Ok::<_, Seq<char>>(opt_bytes(out)),
                        Err(e) => want.1 == Err::<Option<Seq<u8>>, _>(e.code_spec()),
                    }
                },
            final(self)@.timely(),
    {
        let id: Option<[u8; 12]> = match random_bytes(12) {
            Some(b) => Some(
                [b[0], b[1], b[2], b[3], b[4], b[5], b[6], b[7], b[8], b[9], b[10], b[11]],
            ),
            None => None,
        };
        self.poll_with(now, id)
    }

    /// Takes an answer to the probe under way.
    pub fn acknowledged_after(&mut self, now: u64, interval: u64)
        requires
            now <= MAX_TIME,
            interval <= 0xffff_ffff * 1_000_000_000,
            old(self)@.timely(),
        ensures
            final(self)@ == acknowledged_at(old(self)@, now, interval),
            final(self)@.timely(),
    {
        let timeout: u64 = timeout_of(self.tcp);
        let next: u64 = match &self.pending {
            Some(probe) => {
                let sent: u64 = if probe.timeout_at >= timeout {
                    probe.timeout_at - timeout
                } else {
                    0
                };
                if sent + interval > now {
                    sent + interval
                } else {
                    now
                }
            },
            None => now + interval,
        };
        self.pending = None;
        let lease = self.lease.take();
        self.lease =
        match lease {
            Some(mut lease) => {
                lease.acknowledge(next + timeout);
                Some(lease)
            },
            None => None,
        };
        self.next_probe = Some(next);
        if let Some(offer) = &self.offer {
            self.notices.push(LineNotice::FlowHealthy(offer.access));
        }
    }

    /// Takes a keepalive answer on a stream, given the time to the next probe.
    pub fn pong_with(&mut self, now: u64, interval: u64)
        requires
            now <= MAX_TIME,
            interval <= 0xffff_ffff * 1_000_000_000,
            old(self)@.timely(),
        ensures
            final(self)@ == if old(self)@.tcp && old(self)@.pending is Some {
                acknowledged_at(old(self)@, now, interval)
            } else {
                old(self)@
            },
            final(self)@.timely(),
    {
        if self.tcp && self.pending.is_some() {
            self.acknowledged_after(now, interval);
        }
    }

    /// Takes a keepalive answer on a stream.
    pub fn pong(&mut self, now: u64)
        requires
            now <= MAX_TIME,
            old(self)@.timely(),
        ensures
            final(self)@.timely(),
            !(old(self)@.tcp && old(self)@.pending is Some) ==> final(self)@ == old(self)@,
            old(self)@.tcp && old(self)@.pending is Some ==> exists|share: u64|
                share <= WHOLE_SHARE && final(self)@ == acknowledged_at(
                    old(self)@,
                    now,
                    #[trigger] interval_of(old(self)@.timer, old(self)@.tcp, share) as u64,
                ),
    {
        let share: u64 = random_share();
        proof {
            law_interval_range(self.timer, self.tcp, share);
        }
        let interval: u64 = probe_interval_at(self.timer, self.tcp, share);
        self.pong_with(now, interval);
    }

    /// Takes a datagram, given the time to the next probe.
    pub fn receive_stun_with(&mut self, packet: &[u8], now: u64, interval: u64) -> (r: Result<
        bool,
        ImsError,
    >)
        requires
            now <= MAX_TIME,
            interval <= 0xffff_ffff * 1_000_000_000,
            old(self)@.timely(),
        ensures
            ({
                let want = stun_received(old(self)@, packet@, now, interval);
                &&& final(self)@ == want.0
                &&& final(self)@.timely()
                &&& match r {
                    Ok(taken) => want.1 == Ok::<_, Seq<char>>(taken),
                    Err(e) => want.1 == Err::<bool, _>(e.code_spec()),
                }
            }),
    {
        if packet.len() == 0 || packet[0] >= 64 {
            return Ok(false);
        }
        // Line ends are SIP keepalives: a stray newline is no answered probe.
        if has_only_line_ends(packet) {
            return Ok(false);
        }
        let id = match &self.pending {
            Some(probe) => probe.id,
            None => return Ok(true),
        };
        if self.tcp {
            return Ok(true);
        }
        match binding_response(packet, &id) {
            StunResponse::Ignore => {},
            StunResponse::Error => {
                return Err(self.fail("ims_outbound_stun_error"));
            },
            StunResponse::Mapped(address) => {
                if let Some(known) = self.mapped {
                    if known != address {
                        return Err(self.fail("ims_outbound_mapping_changed"));
                    }
                }
                self.mapped = Some(address);
                self.acknowledged_after(now, interval);
            },
        }
        Ok(true)
    }

    /// Takes a datagram: true where it is STUN, which never enters SIP framing.
    pub fn receive_stun(&mut self, packet: &[u8], now: u64) -> (r: Result<bool, ImsError>)
        requires
            now <= MAX_TIME,
            old(self)@.timely(),
        ensures
            final(self)@.timely(),
            exists|share: u64|
                {
                    &&& share <= WHOLE_SHARE
                    &&& {
                        let want = stun_received(
                            old(self)@,
                            packet@,
                            now,
                            #[trigger] interval_of(old(self)@.timer, old(self)@.tcp, share) as u64,
                        );
                        &&& final(self)@ == want.0
                        &&& match r {
                            Ok(taken) => want.1 == Ok::<_, Seq<char>>(taken),
                            Err(e) => want.1 == Err::<bool, _>(e.code_spec()),
                        }
                    }
                },
    {
        let share: u64 = random_share();
        proof {
            law_interval_range(self.timer, self.tcp, share);
        }
        let interval: u64 = probe_interval_at(self.timer, self.tcp, share);
        self.receive_stun_with(packet, now, interval)
    }
}

// ----------------------------------------------------------------------- laws

/// No lease, or one that has failed.
pub open spec fn without_proof(f: FlowState) -> bool {
    f.lease is None || f.lease->0.failed
}

/// A failed flow is never proof of a registration again: neither a refresh nor
/// an answer nor another poll revives its lease.
pub proof fn law_failed_flow_never_proves(
    f: FlowState,
    frame: Seq<u8>,
    line: LineOutbound,
    tcp: bool,
    expires: u32,
    now: u64,
    interval: u64,
    id: Option<Seq<u8>>,
)
    requires
        f.lease is Some,
        f.lease->0.failed,
    ensures
        !f.lease->0.proves(now),
        without_proof(prepared(f, frame, line).0),
        without_proof(received(f, frame).0),
        without_proof(registered_outcome(f, frame, tcp, expires, now).0),
        without_proof(polled(f, now, id).0),
        polled(f, now, id).1 is Err,
        without_proof(stun_received(f, frame, now, interval).0),
        without_proof(acknowledged_at(f, now, interval)),
{
}

/// A failure invalidates the flow's lease at once.
pub proof fn law_failure_invalidates(f: FlowState, now: u64)
    ensures
        without_proof(failed(f)),
        failed(f).lease matches Some(lease) ==> !lease.proves(now) && !lease.lives(now),
{
}

/// The coordinator learns of a failure once, however often it is seen.
pub proof fn law_failure_reported_once(f: FlowState)
    ensures
        failed(failed(f)) == failed(f),
{
}

/// Without a negotiated flow no probe is sent.
pub proof fn law_no_blind_probe(f: FlowState, now: u64, id: Option<Seq<u8>>)
    requires
        f.next_probe is None,
        f.pending is None,
        !(f.lease matches Some(lease) && lease.failed),
    ensures
        polled(f, now, id) == (f, Ok::<Option<Seq<u8>>, Seq<char>>(None)),
{
}

/// A response that does not negotiate outbound leaves nothing to probe.
pub proof fn law_unnegotiated_flow_is_idle(
    f: FlowState,
    response: Seq<u8>,
    tcp: bool,
    expires: u32,
    now: u64,
)
    requires
        f.offer is Some,
        f.last_request is Some,
        registered_outcome(f, response, tcp, expires, now).1 is Ok,
        !negotiates(f.last_request->0, flow_artifacts(f, response)),
    ensures
        registered_outcome(f, response, tcp, expires, now).0.next_probe is None,
        registered_outcome(f, response, tcp, expires, now).0.pending is None,
        registered_outcome(f, response, tcp, expires, now).0.lease matches Some(lease)
            ==> !lease.proves(now),
{
}

/// Retransmitting a prepared request gives the same bytes, whatever the policy
/// has become.
pub proof fn law_retransmission_repeats(
    f: FlowState,
    frame: Seq<u8>,
    line: LineOutbound,
    later: LineOutbound,
)
    requires
        prepared(f, frame, line).1 is Ok,
    ensures
        prepared(prepared(f, frame, line).0, frame, later) == prepared(f, frame, line),
{
}

/// A flow that is bound by outbound keeps offering and requiring it, so that a
/// refresh or removal speaks of the same binding.
pub proof fn law_bound_flow_keeps_its_binding(f: FlowState, line: LineOutbound)
    requires
        bound(f),
    ensures
        offers_outbound(f, line),
        requires_outbound(f, line),
{
}

/// A second flow never registers without requiring outbound.
pub proof fn law_second_flow_requires_outbound(
    f: FlowState,
    frame: Seq<u8>,
    line: LineOutbound,
)
    requires
        f.offer is Some,
        line.additional_flow_requires_outbound,
        sip_frame::request_is(frame, "REGISTER"@),
        f.last_source != Some(frame),
        prepared(f, frame, line).1 is Ok,
    ensures
        line.instance_matches,
        prepared(f, frame, line).1 == Ok::<_, Seq<char>>(
            register_rewrite::offered(
                frame,
                register_rewrite::OfferValue {
                    instance: f.offer->0.instance,
                    reg_id: f.offer->0.access.reg_id_spec(),
                    required: true,
                },
            )->Ok_0,
        ),
{
}

/// A response that was required to negotiate outbound and did not is never
/// taken for a success, and neither flow stays valid.
pub proof fn law_lost_negotiation_is_no_success(
    f: FlowState,
    response: Seq<u8>,
    tcp: bool,
    expires: u32,
    now: u64,
)
    requires
        f.offer is Some,
        f.last_request is Some,
        negotiation_lost(f.last_request->0, flow_artifacts(f, response)),
    ensures
        registered_outcome(f, response, tcp, expires, now).1 is Err,
        register_response::answers(f.last_request->0, response) && sip_frame::status_of(response)
            == Some(200nat) ==> registered_outcome(
            f,
            response,
            tcp,
            expires,
            now,
        ).0.notices.last() == LineNotice::InvalidateFlows,
{
}

/// A refresh that negotiates outbound again never postpones a probe that is due or
/// under way, and keeps the lease with a new lifetime. The coordinator learns of this
/// access alone.
pub proof fn law_refresh_keeps_probe(
    f: FlowState,
    response: Seq<u8>,
    tcp: bool,
    default_expires: u32,
    now: u64,
    artifacts: RegisterArtifacts,
    expires: u32,
)
    requires
        f.offer is Some,
        f.last_request is Some,
        f.lease matches Some(lease) && lease.negotiated && !lease.failed,
        f.pending is Some || f.next_probe is Some,
        artifacts == flow_artifacts(f, response),
        register_response::answers(f.last_request->0, response),
        sip_frame::status_of(response) == Some(200nat),
        negotiates(f.last_request->0, artifacts),
        expires == match artifacts.expires_seconds {
            Some(n) => n,
            None => default_expires,
        },
        expires > 0,
        !(!tcp && f.no_nat && artifacts.flow_timer_seconds is None),
        now <= MAX_TIME,
    ensures
        ({
            let (after, r) = registered_outcome(f, response, tcp, default_expires, now);
            let access = f.offer->0.access;
            &&& r == Ok::<_, Seq<char>>(artifacts)
            &&& deadline_of(after) == deadline_of(f)
            &&& after.pending == f.pending
            &&& after.next_probe == f.next_probe
            &&& after.lease == Some(LeaseValue { expires: after.lease->0.expires, ..f.lease->0 })
            &&& after.lease->0.expires == now + expires * SECOND
            &&& after.notices == f.notices.push(LineNotice::Observed(access, artifacts)).push(
                LineNotice::FlowAttached(access),
            )
        }),
{
}

/// A removed binding leaves neither a lease nor anything to probe, and the
/// coordinator learns that the lease it was given is no longer valid.
pub proof fn law_removal_disables(
    f: FlowState,
    response: Seq<u8>,
    tcp: bool,
    default_expires: u32,
    now: u64,
)
    requires
        f.offer is Some,
        f.last_request is Some,
        register_response::answers(f.last_request->0, response),
        sip_frame::status_of(response) == Some(200nat),
        !negotiation_lost(f.last_request->0, flow_artifacts(f, response)),
        flow_artifacts(f, response).expires_seconds == Some(0u32) || (flow_artifacts(
            f,
            response,
        ).expires_seconds is None && default_expires == 0),
    ensures
        ({
            let (after, r) = registered_outcome(f, response, tcp, default_expires, now);
            &&& r is Ok
            &&& after.lease is None
            &&& deadline_of(after) is None
            &&& f.lease is Some ==> after.notices.last() == LineNotice::FlowRemoved(
                f.offer->0.access,
            )
        }),
{
}

/// The old flow's probes never go out on a tentative transport.
pub proof fn law_replacement_is_silent(f: FlowState, now: u64, id: Option<Seq<u8>>)
    ensures
        polled(replaced(f), now, id) == (replaced(f), Ok::<Option<Seq<u8>>, Seq<char>>(None)),
        replaced(f).no_nat == f.no_nat,
        replaced(f).lease is None,
{
}

/// A probe whose deadline lies within its timeout.
pub open spec fn bounded(f: FlowState) -> bool {
    f.pending matches Some(probe) ==> probe.deadline <= probe.timeout_at && probe.retransmits
        <= MAX_RETRANSMITS
}

/// Probes stay bounded: a deadline never passes the timeout, at most seven
/// retransmissions go out, and at the timeout the flow has failed.
pub proof fn law_probe_is_bounded(f: FlowState, now: u64, id: Option<Seq<u8>>)
    requires
        bounded(f),
        now <= MAX_TIME,
    ensures
        bounded(polled(f, now, id).0),
        f.pending matches Some(probe) && now >= probe.timeout_at ==> polled(f, now, id).1 is Err,
        f.pending matches Some(probe) && probe.retransmits >= MAX_RETRANSMITS ==> !(polled(
            f,
            now,
            id,
        ).1 matches Ok(Some(_))),
{
}

/// Every probe of a retransmission is the packet that was sent first.
pub proof fn law_retries_repeat_the_probe(f: FlowState, now: u64, id: Option<Seq<u8>>)
    requires
        f.pending is Some,
        polled(f, now, id).1 matches Ok(Some(_)),
    ensures
        polled(f, now, id).1 == Ok::<_, Seq<char>>(Some(f.pending->0.packet)),
        polled(f, now, id).0.pending->0.packet == f.pending->0.packet,
        polled(f, now, id).0.pending->0.id == f.pending->0.id,
{
}

/// A flow that was polled `n` times, each time at its deadline. `ids` are what was
/// drawn meanwhile.
pub open spec fn polled_on(f: FlowState, ids: spec_fn(int) -> Option<Seq<u8>>, n: int) -> FlowState
    decreases n,
{
    if n <= 0 {
        f
    } else {
        let before = polled_on(f, ids, n - 1);
        polled(before, deadline_of(before)->0, ids(n)).0
    }
}

/// When a datagram probe that was sent at `start` goes out again for the `n`-th time,
/// or times out.
pub open spec fn retry_time(start: u64, n: int) -> int {
    if n > MAX_RETRANSMITS {
        start + STUN_TIMEOUT
    } else {
        start + STUN_RTO + (n - 1) * 2 * STUN_RTO
    }
}

proof fn lemma_polled_on(
    f: FlowState,
    start: u64,
    id: Seq<u8>,
    ids: spec_fn(int) -> Option<Seq<u8>>,
    n: int,
)
    requires
        start <= MAX_TIME,
        !f.tcp,
        probe_due(f, start),
        0 <= n <= MAX_RETRANSMITS,
    ensures
        polled_on(polled(f, start, Some(id)).0, ids, n) == (FlowState {
            pending: Some(
                ProbeState {
                    retransmits: n as u8,
                    deadline: retry_time(start, n + 1) as u64,
                    ..new_probe(false, id, start)
                },
            ),
            next_probe: None,
            ..f
        }),
    decreases n,
{
    if n > 0 {
        lemma_polled_on(f, start, id, ids, n - 1);
    }
}

/// A datagram probe that nobody answers, on a flow that is polled at each deadline,
/// goes out seven more times with the same bytes, after half a second and then each
/// second. Eight seconds after its start it times out. Between the deadlines nothing
/// is done.
pub proof fn law_unanswered_probe_goes_out_seven_more_times(
    f: FlowState,
    start: u64,
    id: Seq<u8>,
    ids: spec_fn(int) -> Option<Seq<u8>>,
)
    requires
        start <= MAX_TIME,
        !f.tcp,
        probe_due(f, start),
    ensures
        polled(f, start, Some(id)).1 == Ok::<_, Seq<char>>(Some(stun::request_bytes(id))),
        forall|n: int|
            0 <= n < 7 ==> {
                let g = #[trigger] polled_on(polled(f, start, Some(id)).0, ids, n);
                &&& deadline_of(g) == Some((start + 500_000_000 + n * 1_000_000_000) as u64)
                &&& polled(g, deadline_of(g)->0, ids(n + 1)).1 == Ok::<_, Seq<char>>(
                    Some(stun::request_bytes(id)),
                )
            },
        ({
            let g = polled_on(polled(f, start, Some(id)).0, ids, 7);
            &&& deadline_of(g) == Some((start + 8_000_000_000) as u64)
            &&& polled(g, deadline_of(g)->0, ids(8)) == (
                failed(g),
                Err::<Option<Seq<u8>>, _>("ims_outbound_keepalive_timeout"@),
            )
        }),
        forall|n: int, now: u64, drawn: Option<Seq<u8>>|
            #![trigger polled(polled_on(polled(f, start, Some(id)).0, ids, n), now, drawn)]
            0 <= n <= 7 && now < deadline_of(polled_on(polled(f, start, Some(id)).0, ids, n))->0
                ==> polled(polled_on(polled(f, start, Some(id)).0, ids, n), now, drawn) == (
                polled_on(polled(f, start, Some(id)).0, ids, n),
                Ok::<Option<Seq<u8>>, Seq<char>>(None),
            ),
{
    let first = polled(f, start, Some(id)).0;
    assert forall|n: int| 0 <= n < 7 implies {
        let g = #[trigger] polled_on(first, ids, n);
        &&& deadline_of(g) == Some((start + 500_000_000 + n * 1_000_000_000) as u64)
        &&& polled(g, deadline_of(g)->0, ids(n + 1)).1 == Ok::<_, Seq<char>>(
            Some(stun::request_bytes(id)),
        )
    } by {
        lemma_polled_on(f, start, id, ids, n);
    }
    lemma_polled_on(f, start, id, ids, 7);
    assert forall|n: int, now: u64, drawn: Option<Seq<u8>>|
        #![trigger polled(polled_on(first, ids, n), now, drawn)]
        0 <= n <= 7 && now < deadline_of(polled_on(first, ids, n))->0 implies polled(
        polled_on(first, ids, n),
        now,
        drawn,
    ) == (polled_on(first, ids, n), Ok::<Option<Seq<u8>>, Seq<char>>(None)) by {
        lemma_polled_on(f, start, id, ids, n);
    }
}

/// A mapping that changes is a failed flow, never a healthy one.
pub proof fn law_mapping_change_fails(
    f: FlowState,
    packet: Seq<u8>,
    now: u64,
    interval: u64,
    address: SocketAddr,
)
    requires
        is_stun(packet),
        !f.tcp,
        f.pending is Some,
        f.mapped is Some,
        f.mapped != Some(address),
        stun::response_of(packet, f.pending->0.id) == StunResponse::Mapped(address),
    ensures
        stun_received(f, packet, now, interval).1 is Err,
        without_proof(stun_received(f, packet, now, interval).0),
{
}

} // verus!
