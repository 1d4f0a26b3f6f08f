//! Which media relays run: they follow the calls of a session.

use crate::operator::media::{ActiveRelay, CallMedia, PayloadTypeMapping};
use crate::operator::session::VoiceSession;
use crate::operator::{media, session};
use vstd::prelude::*;

verus! {

/// A relay that a call holds: bound only, or in operation.
pub struct Use {
    pub relay: u64,
    pub active: Option<media::Active>,
}

pub open spec fn bound_use(relay: Option<u64>) -> Seq<Use> {
    match relay {
        Some(relay) => seq![Use { relay, active: None }],
        None => seq![],
    }
}

pub open spec fn active_use(active: Option<media::Active>) -> Seq<Use> {
    match active {
        Some(a) => seq![Use { relay: a.relay, active: Some(a) }],
        None => seq![],
    }
}

/// The relays of a call.
pub open spec fn media_uses(m: media::Media) -> Seq<Use> {
    bound_use(m.pending) + active_use(m.active) + bound_use(m.pending_video) + active_use(
        m.active_video,
    )
}

/// The relays of the first `n` calls.
pub open spec fn uses_upto(calls: Seq<session::Entry>, n: int) -> Seq<Use>
    decreases n,
{
    if n <= 0 {
        seq![]
    } else {
        uses_upto(calls, n - 1) + media_uses(calls[n - 1].call.media)
    }
}

/// The relays of a session.
pub open spec fn session_uses(s: session::Session) -> Seq<Use> {
    uses_upto(s.calls, s.calls.len() as int)
}

/// A relay that is there, and whether it runs.
#[derive(Debug, Clone, Copy, PartialEq, Eq, Structural)]
pub struct HeldRelay {
    pub relay: u64,
    pub running: bool,
}

pub open spec fn runs(held: Seq<HeldRelay>, relay: u64) -> bool {
    exists|i: int| 0 <= i < held.len() && #[trigger] held[i] == (HeldRelay { relay, running: true })
}

pub open spec fn used(uses: Seq<Use>, relay: u64) -> bool {
    exists|i: int| 0 <= i < uses.len() && (#[trigger] uses[i]).relay == relay
}

/// What is to be done with relays.
#[derive(Debug, PartialEq, Eq)]
pub enum RelayWork {
    /// The relay is put into operation between its far ends.
    Start(ActiveRelay),
    /// The relay is closed.
    Close(u64),
}

pub enum Work {
    Start(media::Active),
    Close(u64),
}

impl View for RelayWork {
    type V = Work;

    open spec fn view(&self) -> Work {
        match self {
            RelayWork::Start(a) => Work::Start(a@),
            RelayWork::Close(relay) => Work::Close(*relay),
        }
    }
}

pub open spec fn work_of(list: Seq<RelayWork>) -> Seq<Work> {
    list.map_values(|w: RelayWork| w@)
}

/// The relays among the first `n` uses that are to be started: those in operation
/// that do not run yet.
pub open spec fn starts_upto(held: Seq<HeldRelay>, uses: Seq<Use>, n: int) -> Seq<Work>
    decreases n,
{
    if n <= 0 {
        seq![]
    } else {
        let before = starts_upto(held, uses, n - 1);
        match uses[n - 1].active {
            Some(a) => if runs(held, uses[n - 1].relay) {
                before
            } else {
                before.push(Work::Start(a))
            },
            None => before,
        }
    }
}

/// The relays among the first `n` that are there that are to be closed: no call holds
/// them any more.
pub open spec fn closes_upto(held: Seq<HeldRelay>, uses: Seq<Use>, n: int) -> Seq<Work>
    decreases n,
{
    if n <= 0 {
        seq![]
    } else {
        let before = closes_upto(held, uses, n - 1);
        if used(uses, held[n - 1].relay) {
            before
        } else {
            before.push(Work::Close(held[n - 1].relay))
        }
    }
}

pub open spec fn work_for(held: Seq<HeldRelay>, uses: Seq<Use>) -> Seq<Work> {
    starts_upto(held, uses, uses.len() as int) + closes_upto(held, uses, held.len() as int)
}

pub open spec fn held_for(uses: Seq<Use>) -> Seq<HeldRelay> {
    uses.map_values(|u: Use| HeldRelay { relay: u.relay, running: u.active is Some })
}

fn copy_mappings(list: &Vec<PayloadTypeMapping>) -> (r: Vec<PayloadTypeMapping>)
    ensures
        r@ == list@,
{
    let mut out: Vec<PayloadTypeMapping> = Vec::new();
    let mut i: usize = 0;
    while i < list.len()
        invariant
            i <= list@.len(),
            out@ == list@.subrange(0, i as int),
        decreases list@.len() - i,
    {
        out.push(list[i]);
        i += 1;
        assert(out@ =~= list@.subrange(0, i as int));
    }
    assert(out@ =~= list@);
    out
}

/// A relay of a call.
struct RelayUse<'a> {
    relay: u64,
    active: Option<&'a ActiveRelay>,
}

spec fn use_value(u: RelayUse) -> Use {
    Use {
        relay: u.relay,
        active: match u.active {
            Some(a) => Some(a@),
            None => None,
        },
    }
}

spec fn use_values(list: Seq<RelayUse>) -> Seq<Use> {
    Seq::new(list.len(), |i: int| use_value(list[i]))
}

fn push_bound<'a>(out: &mut Vec<RelayUse<'a>>, relay: Option<u64>)
    ensures
        use_values(final(out)@) == use_values(old(out)@) + bound_use(relay),
{
    let ghost before = use_values(out@);
    if let Some(relay) = relay {
        out.push(RelayUse { relay, active: None });
    }
    assert(use_values(out@) =~= before + bound_use(relay));
}

fn push_active<'a>(out: &mut Vec<RelayUse<'a>>, active: &'a Option<ActiveRelay>)
    ensures
        use_values(final(out)@) == use_values(old(out)@) + active_use(media::opt_active(*active)),
{
    let ghost before = use_values(out@);
    if let Some(a) = active {
        out.push(RelayUse { relay: a.relay, active: Some(a) });
    }
    assert(use_values(out@) =~= before + active_use(media::opt_active(*active)));
}

fn push_media<'a>(out: &mut Vec<RelayUse<'a>>, m: &'a CallMedia)
    ensures
        use_values(final(out)@) == use_values(old(out)@) + media_uses(m@),
{
    let ghost before = use_values(out@);
    push_bound(out, m.pending_relay);
    push_active(out, &m.active_relay);
    push_bound(out, m.pending_video_relay);
    push_active(out, &m.active_video_relay);
    assert(use_values(out@) =~= before + media_uses(m@));
}

fn read_uses<'a>(s: &'a VoiceSession) -> (r: Vec<RelayUse<'a>>)
    ensures
        use_values(r@) == session_uses(s@),
{
    let ghost all = s@.calls;
    let mut out: Vec<RelayUse<'a>> = Vec::new();
    assert(use_values(out@) =~= uses_upto(all, 0));
    let mut i: usize = 0;
    while i < s.calls.len()
        invariant
            i <= s.calls@.len(),
            all == session::entries_of(s.calls@),
            use_values(out@) == uses_upto(all, i as int),
        decreases s.calls@.len() - i,
    {
        assert(all[i as int] == s.calls@[i as int]@);
        push_media(&mut out, &s.calls[i].call.media);
        i += 1;
    }
    out
}

fn is_running(held: &Vec<HeldRelay>, relay: u64) -> (r: bool)
    ensures
        r == runs(held@, relay),
{
    let mut i: usize = 0;
    while i < held.len()
        invariant
            i <= held@.len(),
            forall|j: int|
                0 <= j < i ==> #[trigger] held@[j] != (HeldRelay { relay, running: true }),
        decreases held@.len() - i,
    {
        if held[i].relay == relay && held[i].running {
            assert(held@[i as int] == (HeldRelay { relay, running: true }));
            return true;
        }
        i += 1;
    }
    false
}

fn is_used(uses: &Vec<RelayUse>, relay: u64) -> (r: bool)
    ensures
        r == used(use_values(uses@), relay),
{
    let ghost all = use_values(uses@);
    let mut i: usize = 0;
    while i < uses.len()
        invariant
            i <= uses@.len(),
            all == use_values(uses@),
            forall|j: int| 0 <= j < i ==> (#[trigger] all[j]).relay != relay,
        decreases uses@.len() - i,
    {
        assert(all[i as int] == use_value(uses@[i as int]));
        if uses[i].relay == relay {
            return true;
        }
        i += 1;
    }
    false
}

/// The relays that are there.
#[derive(Debug, PartialEq, Eq)]
pub struct RelayLedger {
    pub held: Vec<HeldRelay>,
}

impl RelayLedger {
    pub fn new() -> (r: Self)
        ensures
            r.held@ == Seq::<HeldRelay>::empty(),
    {
        RelayLedger { held: Vec::new() }
    }

    /// A relay was bound.
    pub fn bound(&mut self, relay: u64)
        ensures
            final(self).held@ == old(self).held@.push(HeldRelay { relay, running: false }),
    {
        self.held.push(HeldRelay { relay, running: false });
    }

    /// Brings the relays in line with the calls of a session: what is to be started,
    /// and then what is to be closed.
    pub fn settle(&mut self, s: &VoiceSession) -> (r: Vec<RelayWork>)
        ensures
            work_of(r@) == work_for(old(self).held@, session_uses(s@)),
            final(self).held@ == held_for(session_uses(s@)),
    {
        let uses = read_uses(s);
        let ghost all = use_values(uses@);
        let ghost start = self.held@;
        let mut work: Vec<RelayWork> = Vec::new();
        let mut next: Vec<HeldRelay> = Vec::new();
        assert(work_of(work@) =~= starts_upto(start, all, 0));
        let mut i: usize = 0;
        while i < uses.len()
            invariant
                i <= uses@.len(),
                all == use_values(uses@),
                start == self.held@,
                work_of(work@) == starts_upto(start, all, i as int),
                next@ == held_for(all).subrange(0, i as int),
            decreases uses@.len() - i,
        {
            assert(all[i as int] == use_value(uses@[i as int]));
            let relay: u64 = uses[i].relay;
            let mut running: bool = false;
            if let Some(a) = uses[i].active {
                running = true;
                if !is_running(&self.held, relay) {
                    let started = ActiveRelay {
                        relay: a.relay,
                        operator: a.operator,
                        internal: a.internal,
                        mappings: copy_mappings(&a.mappings),
                    };
                    let ghost before = work_of(work@);
                    let ghost item = started@;
                    work.push(RelayWork::Start(started));
                    assert(work_of(work@) =~= before.push(Work::Start(item)));
                }
            }
            next.push(HeldRelay { relay, running });
            i += 1;
            assert(next@ =~= held_for(all).subrange(0, i as int));
        }
        assert(next@ =~= held_for(all));
        let ghost starts = work_of(work@);
        assert(work_of(work@) =~= starts + closes_upto(start, all, 0));
        let mut k: usize = 0;
        while k < self.held.len()
            invariant
                k <= self.held@.len(),
                all == use_values(uses@),
                start == self.held@,
                work_of(work@) == starts + closes_upto(start, all, k as int),
            decreases self.held@.len() - k,
        {
            let relay: u64 = self.held[k].relay;
            if !is_used(&uses, relay) {
                let ghost before = work_of(work@);
                work.push(RelayWork::Close(relay));
                assert(work_of(work@) =~= before.push(Work::Close(relay)));
                assert(work_of(work@) =~= starts + closes_upto(start, all, k + 1));
            }
            k += 1;
        }
        self.held = next;
        work
    }
}

// ------------------------------------------------------------------------- laws

proof fn lemma_closed(held: Seq<HeldRelay>, uses: Seq<Use>, n: int, i: int)
    requires
        0 <= i < n <= held.len(),
        !used(uses, held[i].relay),
    ensures
        closes_upto(held, uses, n).contains(Work::Close(held[i].relay)),
    decreases n,
{
    let before = closes_upto(held, uses, n - 1);
    let all = closes_upto(held, uses, n);
    if i < n - 1 {
        lemma_closed(held, uses, n - 1, i);
        let j = choose|j: int| 0 <= j < before.len() && before[j] == Work::Close(held[i].relay);
        assert(all[j] == before[j]);
    } else {
        assert(all.last() == Work::Close(held[i].relay));
    }
}

proof fn lemma_started(held: Seq<HeldRelay>, uses: Seq<Use>, n: int, i: int)
    requires
        0 <= i < n <= uses.len(),
        uses[i].active is Some,
        !runs(held, uses[i].relay),
    ensures
        starts_upto(held, uses, n).contains(Work::Start(uses[i].active->0)),
    decreases n,
{
    let before = starts_upto(held, uses, n - 1);
    let all = starts_upto(held, uses, n);
    if i < n - 1 {
        lemma_started(held, uses, n - 1, i);
        let j = choose|j: int| 0 <= j < before.len() && before[j] == Work::Start(uses[i].active->0);
        assert(all[j] == before[j]);
    } else {
        assert(all.last() == Work::Start(uses[i].active->0));
    }
}

/// No relay is lost and none is forgotten: one that is there is closed or still held
/// by a call, and one that a call has put into operation runs or is started.
pub proof fn law_relays_follow_the_calls(held: Seq<HeldRelay>, uses: Seq<Use>)
    ensures
        forall|i: int|
            0 <= i < held.len() ==> used(uses, (#[trigger] held[i]).relay) || work_for(
                held,
                uses,
            ).contains(Work::Close(held[i].relay)),
        forall|i: int|
            0 <= i < uses.len() && (#[trigger] uses[i]).active is Some ==> runs(
                held,
                uses[i].relay,
            ) || work_for(held, uses).contains(Work::Start(uses[i].active->0)),
{
    let starts = starts_upto(held, uses, uses.len() as int);
    let closes = closes_upto(held, uses, held.len() as int);
    assert forall|i: int| 0 <= i < held.len() implies used(uses, (#[trigger] held[i]).relay)
        || work_for(held, uses).contains(Work::Close(held[i].relay)) by {
        if !used(uses, held[i].relay) {
            lemma_closed(held, uses, held.len() as int, i);
            let j = choose|j: int|
                0 <= j < closes.len() && closes[j] == Work::Close(held[i].relay);
            assert((starts + closes)[starts.len() + j] == closes[j]);
        }
    }
    assert forall|i: int| 0 <= i < uses.len() && (#[trigger] uses[i]).active is Some implies runs(
        held,
        uses[i].relay,
    ) || work_for(held, uses).contains(Work::Start(uses[i].active->0)) by {
        if !runs(held, uses[i].relay) {
            lemma_started(held, uses, uses.len() as int, i);
            let j = choose|j: int|
                0 <= j < starts.len() && starts[j] == Work::Start(uses[i].active->0);
            assert((starts + closes)[j] == starts[j]);
        }
    }
}

} // verus!
