//! Which IP families the IMS bearer is asked for, and what a failure says of the
//! next attempt.

use crate::cellular_ims::errors::{code, CellularImsError};
use crate::text;
use vstd::prelude::*;

verus! {

#[derive(Debug, Clone, Copy, PartialEq, Eq, Structural)]
pub enum IpFamily {
    Ipv4,
    Ipv6,
}

/// The families of one bearer.
#[derive(Debug, Clone, Copy, PartialEq, Eq, Structural)]
pub enum IpType {
    Ipv4,
    Ipv6,
    Ipv4v6,
}

#[derive(Debug, Clone, Copy, PartialEq, Eq, Structural)]
pub enum IpFamilyPreference {
    Ipv4First,
    Ipv6First,
    Ipv4Only,
    Ipv6Only,
}

pub type VolteIpFamilyPreference = IpFamilyPreference;

pub type CellularImsIpFamilyPreference = IpFamilyPreference;

pub open spec fn mm_str(t: IpType) -> Seq<char> {
    match t {
        IpType::Ipv4 => "ipv4"@,
        IpType::Ipv6 => "ipv6"@,
        IpType::Ipv4v6 => "ipv4v6"@,
    }
}

impl IpType {
    pub fn as_mm_str(&self) -> (r: &'static str)
        ensures
            r@ == mm_str(*self),
    {
        match self {
            IpType::Ipv4 => "ipv4",
            IpType::Ipv6 => "ipv6",
            IpType::Ipv4v6 => "ipv4v6",
        }
    }
}

/// The families to look for a P-CSCF in, and the bearers to try, in order.
#[derive(Debug)]
pub struct ImsConnectionPlan {
    pub families: Vec<IpFamily>,
    pub attempts: Vec<IpType>,
}

#[verifier::ext_equal]
pub struct Plan {
    pub families: Seq<IpFamily>,
    pub attempts: Seq<IpType>,
}

impl View for ImsConnectionPlan {
    type V = Plan;

    open spec fn view(&self) -> Plan {
        Plan { families: self.families@, attempts: self.attempts@ }
    }
}

/// A preference for one family tries both together first; an exclusive one tries
/// nothing else.
pub open spec fn plan_of(preference: IpFamilyPreference) -> Plan {
    match preference {
        IpFamilyPreference::Ipv4First => Plan {
            families: seq![IpFamily::Ipv4, IpFamily::Ipv6],
            attempts: seq![IpType::Ipv4v6, IpType::Ipv4, IpType::Ipv6],
        },
        IpFamilyPreference::Ipv6First => Plan {
            families: seq![IpFamily::Ipv6, IpFamily::Ipv4],
            attempts: seq![IpType::Ipv4v6, IpType::Ipv6, IpType::Ipv4],
        },
        IpFamilyPreference::Ipv4Only => Plan {
            families: seq![IpFamily::Ipv4],
            attempts: seq![IpType::Ipv4],
        },
        IpFamilyPreference::Ipv6Only => Plan {
            families: seq![IpFamily::Ipv6],
            attempts: seq![IpType::Ipv6],
        },
    }
}

impl ImsConnectionPlan {
    pub fn from_preference(preference: IpFamilyPreference) -> (r: Self)
        ensures
            r@ == plan_of(preference),
    {
        let (families, attempts) = match preference {
            IpFamilyPreference::Ipv4First => (
                vec![IpFamily::Ipv4, IpFamily::Ipv6],
                vec![IpType::Ipv4v6, IpType::Ipv4, IpType::Ipv6],
            ),
            IpFamilyPreference::Ipv6First => (
                vec![IpFamily::Ipv6, IpFamily::Ipv4],
                vec![IpType::Ipv4v6, IpType::Ipv6, IpType::Ipv4],
            ),
            IpFamilyPreference::Ipv4Only => (vec![IpFamily::Ipv4], vec![IpType::Ipv4]),
            IpFamilyPreference::Ipv6Only => (vec![IpFamily::Ipv6], vec![IpType::Ipv6]),
        };
        let r = ImsConnectionPlan { families, attempts };
        assert(r@ =~= plan_of(preference));
        r
    }

    pub fn pcscf_order(&self) -> (r: &Vec<IpFamily>)
        ensures
            r@ == self@.families,
    {
        &self.families
    }

    pub fn bearer_attempts(&self) -> (r: &Vec<IpType>)
        ensures
            r@ == self@.attempts,
    {
        &self.attempts
    }

    /// The first bearer to try, if the plan tries one.
    pub fn initial_bearer_attempt(&self) -> (r: Option<IpType>)
        ensures
            r == first_attempt(self@),
    {
        if self.attempts.len() > 0 {
            Some(self.attempts[0])
        } else {
            None
        }
    }
}

pub open spec fn first_attempt(p: Plan) -> Option<IpType> {
    if p.attempts.len() > 0 {
        Some(p.attempts[0])
    } else {
        None
    }
}

/// What a failed attempt says.
#[derive(Debug, Clone, Copy, PartialEq, Eq, Structural)]
pub enum FailureClass {
    /// The modem stopped answering; another attempt makes it worse.
    BasebandWedged,
    NetworkForcedIpv4,
    NetworkForcedIpv6,
    PrefixUnavailable,
    /// The session that the attempt ran on is gone.
    SessionLost,
    Other,
}

/// What the detail of an error bears where the session layer found a wedge.
pub const WEDGE_MARKER: &'static str = "wds_baseband_wedged:";

/// Does a detail, in lower case, tell of a wedge? The modem says so in its own words,
/// the session layer by its marker.
pub open spec fn tells_of_wedge(low: Seq<char>) -> bool {
    text::has_text(low, "endpoint hangup"@) || text::has_text(low, WEDGE_MARKER@)
}

pub open spec fn class_of_detail(detail: Seq<char>) -> FailureClass {
    let d = text::lower_all(detail);
    if tells_of_wedge(d) {
        FailureClass::BasebandWedged
    } else if text::has_text(d, "ipv4-only-allowed"@) {
        FailureClass::NetworkForcedIpv4
    } else if text::has_text(d, "ipv6-only-allowed"@) {
        FailureClass::NetworkForcedIpv6
    } else if text::has_text(d, "prefix-unavailable"@) {
        FailureClass::PrefixUnavailable
    } else {
        FailureClass::Other
    }
}

pub open spec fn detail_or_empty(e: CellularImsError) -> Seq<char> {
    match e.detail_spec() {
        Some(d) => d,
        None => seq![],
    }
}

pub open spec fn class_of_error(e: CellularImsError) -> FailureClass {
    if e.code_spec() == code::RUNTIME_IMS_BASEBAND_WEDGED@ {
        FailureClass::BasebandWedged
    } else if e.code_spec() == code::BEARER_SESSION_LOST@ {
        FailureClass::SessionLost
    } else {
        class_of_detail(detail_or_empty(e))
    }
}

pub open spec fn forced_by(class: FailureClass) -> Option<IpFamily> {
    match class {
        FailureClass::NetworkForcedIpv4 => Some(IpFamily::Ipv4),
        FailureClass::NetworkForcedIpv6 => Some(IpFamily::Ipv6),
        _ => None,
    }
}

impl FailureClass {
    pub fn from_details(detail: &str) -> (r: Self)
        ensures
            r == class_of_detail(detail@),
    {
        let chars = text::chars_of(detail);
        let low = text::lowered(chars.as_slice());
        if text::contains_text(low.as_slice(), "endpoint hangup") || text::contains_text(
            low.as_slice(),
            WEDGE_MARKER,
        ) {
            FailureClass::BasebandWedged
        } else if text::contains_text(low.as_slice(), "ipv4-only-allowed") {
            FailureClass::NetworkForcedIpv4
        } else if text::contains_text(low.as_slice(), "ipv6-only-allowed") {
            FailureClass::NetworkForcedIpv6
        } else if text::contains_text(low.as_slice(), "prefix-unavailable") {
            FailureClass::PrefixUnavailable
        } else {
            FailureClass::Other
        }
    }

    pub fn from_error(error: &CellularImsError) -> (r: Self)
        ensures
            r == class_of_error(*error),
    {
        if text::str_same(error.code(), code::RUNTIME_IMS_BASEBAND_WEDGED) {
            return FailureClass::BasebandWedged;
        }
        if text::str_same(error.code(), code::BEARER_SESSION_LOST) {
            return FailureClass::SessionLost;
        }
        class_in(error)
    }

    pub fn is_unsafe_to_retry(&self) -> (r: bool)
        ensures
            r == (*self == FailureClass::BasebandWedged),
    {
        matches!(self, FailureClass::BasebandWedged)
    }

    pub fn forced_family(&self) -> (r: Option<IpFamily>)
        ensures
            r == forced_by(*self),
    {
        match self {
            FailureClass::NetworkForcedIpv4 => Some(IpFamily::Ipv4),
            FailureClass::NetworkForcedIpv6 => Some(IpFamily::Ipv6),
            _ => None,
        }
    }

    /// May another family succeed where this one failed?
    pub fn is_retryable_family(&self) -> (r: bool)
        ensures
            r == (forced_by(*self) is Some || *self == FailureClass::PrefixUnavailable),
    {
        matches!(
            self,
            FailureClass::NetworkForcedIpv4 | FailureClass::NetworkForcedIpv6
                | FailureClass::PrefixUnavailable
        )
    }
}

/// What the detail of an error says.
pub fn class_in(error: &CellularImsError) -> (r: FailureClass)
    ensures
        r == class_of_detail(detail_or_empty(*error)),
{
    match error.detail() {
        Some(detail) => FailureClass::from_details(detail),
        None => {
            proof {
                reveal_strlit("");
            }
            assert(""@ =~= seq![]);
            FailureClass::from_details("")
        },
    }
}

pub open spec fn family_number(f: IpFamily) -> u8 {
    match f {
        IpFamily::Ipv4 => 4,
        IpFamily::Ipv6 => 6,
    }
}

/// The families of a plan as numbers, each once, in the plan's order.
pub open spec fn numbers_upto(families: Seq<IpFamily>, n: int) -> Seq<u8>
    decreases n,
{
    if n <= 0 {
        seq![]
    } else {
        let before = numbers_upto(families, n - 1);
        let number = family_number(families[n - 1]);
        if before.contains(number) {
            before
        } else {
            before.push(number)
        }
    }
}

pub open spec fn family_numbers(p: Plan) -> Seq<u8> {
    numbers_upto(p.families, p.families.len() as int)
}

fn has_number(list: &Vec<u8>, n: u8) -> (r: bool)
    ensures
        r == list@.contains(n),
{
    let mut i: usize = 0;
    while i < list.len()
        invariant
            i <= list@.len(),
            forall|j: int| 0 <= j < i ==> list@[j] != n,
        decreases list@.len() - i,
    {
        if list[i] == n {
            return true;
        }
        i += 1;
    }
    false
}

pub fn numbers_of(plan: &ImsConnectionPlan) -> (r: Vec<u8>)
    ensures
        r@ == family_numbers(plan@),
{
    let families = plan.pcscf_order();
    let mut out: Vec<u8> = Vec::new();
    let mut i: usize = 0;
    while i < families.len()
        invariant
            i <= families@.len(),
            out@ == numbers_upto(families@, i as int),
        decreases families@.len() - i,
    {
        let number: u8 = match families[i] {
            IpFamily::Ipv4 => 4,
            IpFamily::Ipv6 => 6,
        };
        if !has_number(&out, number) {
            out.push(number);
        }
        i += 1;
    }
    out
}

// -------------------------------------------------------------------------- laws

/// A plan for one family alone never tries the other.
pub proof fn law_exclusive_preference_is_kept(preference: IpFamilyPreference)
    ensures
        preference == IpFamilyPreference::Ipv4Only ==> family_numbers(plan_of(preference)) == seq![
            4u8,
        ] && plan_of(preference).attempts == seq![IpType::Ipv4],
        preference == IpFamilyPreference::Ipv6Only ==> family_numbers(plan_of(preference)) == seq![
            6u8,
        ] && plan_of(preference).attempts == seq![IpType::Ipv6],
{
    reveal_with_fuel(numbers_upto, 3);
    let numbers = family_numbers(plan_of(preference));
    if preference == IpFamilyPreference::Ipv4Only {
        assert(numbers =~= seq![4u8]);
    }
    if preference == IpFamilyPreference::Ipv6Only {
        assert(numbers =~= seq![6u8]);
    }
}

/// A failure that forbids another attempt never asks for another family.
pub proof fn law_wedged_is_not_retried(class: FailureClass)
    ensures
        class == FailureClass::BasebandWedged ==> forced_by(class) is None,
{
}

} // verus!
