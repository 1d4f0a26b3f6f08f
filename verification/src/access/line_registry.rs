//! One independent runtime per stable line of hardware and SIM.
//!
//! A line that is gone stays addressable as an offline entry, so that it can be
//! torn down and the same SIM can safely come back. The first line takes over the
//! seed runtime.

use crate::order::is_less;
use crate::{order, text};
use vstd::prelude::*;

verus! {

#[derive(Debug, PartialEq, Eq)]
pub struct ModemBinding {
    pub line_id: String,
    pub modem_id: String,
    pub modem_path: String,
    pub manufacturer: String,
    pub model: String,
    pub primary_port: String,
    pub qmi_device: Option<String>,
    pub uim_slot: u8,
    pub sim_path: Option<String>,
    pub sim_iccid: String,
    pub operator_id: String,
    pub state: String,
    pub present: bool,
    pub hardware_key: String,
}

/// A line: its binding, and whether its runtime is the seed.
#[derive(Debug, PartialEq, Eq)]
pub struct LineRuntime {
    pub binding: ModemBinding,
    pub seed: bool,
}

pub open spec fn absent(b: ModemBinding) -> ModemBinding {
    ModemBinding { present: false, ..b }
}

impl LineRuntime {
    pub fn new(binding: ModemBinding, seed: bool) -> (r: Self)
        ensures
            r == (LineRuntime { binding, seed }),
    {
        LineRuntime { binding, seed }
    }

    pub fn binding(&self) -> (r: &ModemBinding)
        ensures
            *r == self.binding,
    {
        &self.binding
    }

    pub fn replace_binding(&mut self, binding: ModemBinding)
        ensures
            *final(self) == (LineRuntime { binding, ..*old(self) }),
    {
        self.binding = binding;
    }

    /// The line is gone; its identity stays.
    pub fn mark_absent(&mut self)
        ensures
            *final(self) == (LineRuntime { binding: absent(old(self).binding), ..*old(self) }),
    {
        self.binding.present = false;
    }
}

// ---------------------------------------------------------------------- registry

#[derive(Debug)]
pub struct LineRuntimeRegistry {
    /// The lines, in the order of their ids.
    pub lines: Vec<LineRuntime>,
    pub seed_claimed: bool,
}

#[verifier::ext_equal]
pub struct Registry {
    pub lines: Seq<LineRuntime>,
    pub seed_claimed: bool,
}

impl View for LineRuntimeRegistry {
    type V = Registry;

    open spec fn view(&self) -> Registry {
        Registry { lines: self.lines@, seed_claimed: self.seed_claimed }
    }
}

pub open spec fn id_of(l: LineRuntime) -> Seq<char> {
    l.binding.line_id@
}

/// Every id once, in order.
pub open spec fn sorted(lines: Seq<LineRuntime>) -> bool {
    forall|i: int, j: int|
        0 <= i < j < lines.len() ==> order::less(#[trigger] id_of(lines[i]), #[trigger] id_of(lines[j]))
}

/// The first line with an id.
pub open spec fn index_from(lines: Seq<LineRuntime>, id: Seq<char>, i: int) -> Option<int>
    decreases lines.len() - i,
{
    if i < 0 || i >= lines.len() {
        None
    } else if id_of(lines[i]) == id {
        Some(i)
    } else {
        index_from(lines, id, i + 1)
    }
}

/// Where a line with an id belongs.
pub open spec fn place_from(lines: Seq<LineRuntime>, id: Seq<char>, i: int) -> int
    decreases lines.len() - i,
{
    if i < 0 || i >= lines.len() {
        lines.len() as int
    } else if order::less(id_of(lines[i]), id) {
        place_from(lines, id, i + 1)
    } else {
        i
    }
}

pub open spec fn all_absent(lines: Seq<LineRuntime>) -> Seq<LineRuntime> {
    lines.map_values(|l: LineRuntime| LineRuntime { binding: absent(l.binding), ..l })
}

/// A registry with one binding that was discovered: a line that is known keeps its
/// runtime; the first new one gets the seed.
pub open spec fn with_binding(r: Registry, binding: ModemBinding) -> Registry {
    match index_from(r.lines, binding.line_id@, 0) {
        Some(i) => Registry {
            lines: r.lines.update(i, LineRuntime { binding, ..r.lines[i] }),
            ..r
        },
        None => Registry {
            lines: r.lines.insert(
                place_from(r.lines, binding.line_id@, 0),
                LineRuntime { binding, seed: !r.seed_claimed },
            ),
            seed_claimed: true,
        },
    }
}

pub open spec fn with_bindings(r: Registry, discovered: Seq<ModemBinding>, n: int) -> Registry
    decreases n,
{
    if n <= 0 {
        r
    } else {
        with_binding(with_bindings(r, discovered, n - 1), discovered[n - 1])
    }
}

pub open spec fn refreshed(r: Registry, discovered: Seq<ModemBinding>) -> Registry {
    with_bindings(
        Registry { lines: all_absent(r.lines), ..r },
        discovered,
        discovered.len() as int,
    )
}

pub open spec fn present_upto(lines: Seq<LineRuntime>, n: int) -> int
    decreases n,
{
    if n <= 0 {
        0
    } else if lines[n - 1].binding.present {
        present_upto(lines, n - 1) + 1
    } else {
        present_upto(lines, n - 1)
    }
}

pub open spec fn present_lines(lines: Seq<LineRuntime>) -> int {
    present_upto(lines, lines.len() as int)
}

/// The first line that is present.
pub open spec fn primary_from(lines: Seq<LineRuntime>, i: int) -> Option<int>
    decreases lines.len() - i,
{
    if i < 0 || i >= lines.len() {
        None
    } else if lines[i].binding.present {
        Some(i)
    } else {
        primary_from(lines, i + 1)
    }
}

/// The first line that is present on a modem.
pub open spec fn on_modem_from(lines: Seq<LineRuntime>, path: Seq<char>, i: int) -> Option<int>
    decreases lines.len() - i,
{
    if i < 0 || i >= lines.len() {
        None
    } else if lines[i].binding.present && lines[i].binding.modem_path@ == path {
        Some(i)
    } else {
        on_modem_from(lines, path, i + 1)
    }
}

pub open spec fn line_at(lines: Seq<LineRuntime>, i: Option<int>) -> Option<LineRuntime> {
    match i {
        Some(i) => Some(lines[i]),
        None => None,
    }
}

pub open spec fn opt_line(l: Option<&LineRuntime>) -> Option<LineRuntime> {
    match l {
        Some(l) => Some(*l),
        None => None,
    }
}

proof fn lemma_index(lines: Seq<LineRuntime>, id: Seq<char>, i: int)
    requires
        0 <= i,
    ensures
        match index_from(lines, id, i) {
            Some(k) => i <= k < lines.len() && id_of(lines[k]) == id,
            None => forall|k: int| i <= k < lines.len() ==> #[trigger] id_of(lines[k]) != id,
        },
    decreases lines.len() - i,
{
    if i < lines.len() && id_of(lines[i]) != id {
        lemma_index(lines, id, i + 1);
    }
}

proof fn lemma_place(lines: Seq<LineRuntime>, id: Seq<char>, i: int)
    requires
        0 <= i <= lines.len(),
    ensures
        i <= place_from(lines, id, i) <= lines.len(),
        forall|k: int|
            i <= k < place_from(lines, id, i) ==> order::less(#[trigger] id_of(lines[k]), id),
        place_from(lines, id, i) < lines.len() ==> !order::less(
            id_of(lines[place_from(lines, id, i)]),
            id,
        ),
    decreases lines.len() - i,
{
    if i < lines.len() && order::less(id_of(lines[i]), id) {
        lemma_place(lines, id, i + 1);
    }
}

/// A line that was discovered keeps the ids in order and every earlier id known.
pub proof fn law_discovery_keeps_lines(r: Registry, binding: ModemBinding)
    requires
        sorted(r.lines),
    ensures
        ({
            let after = with_binding(r, binding);
            &&& sorted(after.lines)
            &&& forall|i: int|
                0 <= i < r.lines.len() ==> index_from(after.lines, #[trigger] id_of(r.lines[i]), 0)
                    is Some
            &&& index_from(after.lines, binding.line_id@, 0) matches Some(k)
                && after.lines[k].binding == binding
        }),
{
    let id = binding.line_id@;
    let after = with_binding(r, binding);
    lemma_index(r.lines, id, 0);
    match index_from(r.lines, id, 0) {
        Some(k) => {
            assert forall|i: int, j: int| 0 <= i < j < after.lines.len() implies order::less(
                #[trigger] id_of(after.lines[i]),
                #[trigger] id_of(after.lines[j]),
            ) by {
                assert(id_of(after.lines[i]) == id_of(r.lines[i]));
                assert(id_of(after.lines[j]) == id_of(r.lines[j]));
            }
            assert forall|i: int| 0 <= i < r.lines.len() implies index_from(
                after.lines,
                #[trigger] id_of(r.lines[i]),
                0,
            ) is Some by {
                lemma_index(after.lines, id_of(r.lines[i]), 0);
                assert(id_of(after.lines[i]) == id_of(r.lines[i]));
            }
            lemma_index(after.lines, id, 0);
            assert(id_of(after.lines[k]) == id);
            let m = index_from(after.lines, id, 0)->0;
            if m != k {
                assert(id_of(after.lines[m]) == id_of(r.lines[m]));
                order::lemma_less_irreflexive(id, 0);
            }
        },
        None => {
            let p = place_from(r.lines, id, 0);
            lemma_place(r.lines, id, 0);
            if p < r.lines.len() {
                order::lemma_less_total(id_of(r.lines[p]), id, 0);
            }
            assert forall|i: int, j: int| 0 <= i < j < after.lines.len() implies order::less(
                #[trigger] id_of(after.lines[i]),
                #[trigger] id_of(after.lines[j]),
            ) by {
                if i < p && j < p {
                    assert(order::less(id_of(r.lines[i]), id_of(r.lines[j])));
                } else if i < p && j == p {
                    assert(order::less(id_of(r.lines[i]), id));
                } else if i < p {
                    assert(order::less(id_of(r.lines[i]), id_of(r.lines[j - 1])));
                } else if i == p {
                    if j - 1 > p {
                        assert(order::less(id_of(r.lines[p]), id_of(r.lines[j - 1])));
                        order::lemma_less_transitive(id, id_of(r.lines[p]), id_of(r.lines[j - 1]), 0);
                    }
                } else {
                    assert(order::less(id_of(r.lines[i - 1]), id_of(r.lines[j - 1])));
                }
            }
            assert forall|i: int| 0 <= i < r.lines.len() implies index_from(
                after.lines,
                #[trigger] id_of(r.lines[i]),
                0,
            ) is Some by {
                lemma_index(after.lines, id_of(r.lines[i]), 0);
                let k = if i < p {
                    i
                } else {
                    i + 1
                };
                assert(id_of(after.lines[k]) == id_of(r.lines[i]));
            }
            lemma_index(after.lines, id, 0);
            assert(id_of(after.lines[p]) == id);
            let m = index_from(after.lines, id, 0)->0;
            if m < p {
                assert(id_of(after.lines[m]) == id_of(r.lines[m]));
            } else if m > p {
                assert(id_of(after.lines[m]) == id_of(r.lines[m - 1]));
            }
        },
    }
}

proof fn lemma_absent_sorted(lines: Seq<LineRuntime>)
    requires
        sorted(lines),
    ensures
        sorted(all_absent(lines)),
        forall|i: int|
            0 <= i < lines.len() ==> #[trigger] id_of(all_absent(lines)[i]) == id_of(lines[i]),
{
    assert forall|i: int| 0 <= i < lines.len() implies #[trigger] id_of(all_absent(lines)[i])
        == id_of(lines[i]) by {}
    assert forall|i: int, j: int| 0 <= i < j < lines.len() implies order::less(
        #[trigger] id_of(all_absent(lines)[i]),
        #[trigger] id_of(all_absent(lines)[j]),
    ) by {
        assert(order::less(id_of(lines[i]), id_of(lines[j])));
    }
}

proof fn lemma_bindings_kept(r: Registry, discovered: Seq<ModemBinding>, n: int, id: Seq<char>)
    requires
        sorted(r.lines),
        0 <= n <= discovered.len(),
    ensures
        sorted(with_bindings(r, discovered, n).lines),
        index_from(r.lines, id, 0) is Some ==> index_from(
            with_bindings(r, discovered, n).lines,
            id,
            0,
        ) is Some,
    decreases n,
{
    if n > 0 {
        lemma_bindings_kept(r, discovered, n - 1, id);
        let before = with_bindings(r, discovered, n - 1);
        law_discovery_keeps_lines(before, discovered[n - 1]);
        if index_from(before.lines, id, 0) is Some {
            lemma_index(before.lines, id, 0);
            let k = index_from(before.lines, id, 0)->0;
            assert(index_from(with_bindings(r, discovered, n).lines, id_of(before.lines[k]), 0)
                is Some);
        }
    }
}

/// A refresh discards no line: whatever was known stays addressable, and the ids
/// stay in order.
pub proof fn law_refresh_discards_nothing(r: Registry, discovered: Seq<ModemBinding>, id: Seq<char>)
    requires
        sorted(r.lines),
    ensures
        sorted(refreshed(r, discovered).lines),
        index_from(r.lines, id, 0) is Some ==> index_from(refreshed(r, discovered).lines, id, 0)
            is Some,
{
    lemma_absent_sorted(r.lines);
    let start = Registry { lines: all_absent(r.lines), ..r };
    lemma_index(r.lines, id, 0);
    lemma_index(start.lines, id, 0);
    if index_from(r.lines, id, 0) is Some {
        let k = index_from(r.lines, id, 0)->0;
        assert(id_of(start.lines[k]) == id_of(r.lines[k]));
    }
    lemma_bindings_kept(start, discovered, discovered.len() as int, id);
}

/// The seed goes to one line: once it is claimed, no new line gets it, and no line
/// loses it.
pub proof fn law_seed_is_claimed_once(r: Registry, binding: ModemBinding, k: int)
    requires
        r.seed_claimed,
        0 <= k < with_binding(r, binding).lines.len(),
        with_binding(r, binding).lines[k].seed,
    ensures
        with_binding(r, binding).seed_claimed,
        exists|i: int| 0 <= i < r.lines.len() && (#[trigger] r.lines[i]).seed,
{
    lemma_index(r.lines, binding.line_id@, 0);
    lemma_place(r.lines, binding.line_id@, 0);
    match index_from(r.lines, binding.line_id@, 0) {
        Some(i) => {
            assert(r.lines[k].seed);
        },
        None => {
            let p = place_from(r.lines, binding.line_id@, 0);
            if k < p {
                assert(r.lines[k].seed);
            } else {
                assert(r.lines[k - 1].seed);
            }
        },
    }
}

impl LineRuntimeRegistry {
    pub open spec fn wf(&self) -> bool {
        sorted(self@.lines)
    }

    pub fn new() -> (r: Self)
        ensures
            r.wf(),
            r@ == (Registry { lines: seq![], seed_claimed: false }),
    {
        LineRuntimeRegistry { lines: Vec::new(), seed_claimed: false }
    }

    fn find(&self, id: &str) -> (r: Option<usize>)
        ensures
            match r {
                Some(i) => index_from(self@.lines, id@, 0) == Some(i as int) && i
                    < self.lines@.len(),
                None => index_from(self@.lines, id@, 0) is None,
            },
    {
        let mut i: usize = 0;
        while i < self.lines.len()
            invariant
                i <= self.lines@.len(),
                index_from(self@.lines, id@, 0) == index_from(self@.lines, id@, i as int),
            decreases self.lines@.len() - i,
        {
            if text::str_same(self.lines[i].binding.line_id.as_str(), id) {
                return Some(i);
            }
            i += 1;
        }
        None
    }

    fn place(&self, id: &str) -> (r: usize)
        ensures
            r == place_from(self@.lines, id@, 0),
            r <= self.lines@.len(),
    {
        let id_chars = text::chars_of(id);
        let mut i: usize = 0;
        while i < self.lines.len()
            invariant
                i <= self.lines@.len(),
                id_chars@ == id@,
                place_from(self@.lines, id@, 0) == place_from(self@.lines, id@, i as int),
            decreases self.lines@.len() - i,
        {
            let own = text::chars_of(self.lines[i].binding.line_id.as_str());
            if !is_less(own.as_slice(), id_chars.as_slice()) {
                return i;
            }
            i += 1;
        }
        i
    }

    fn take_binding(&mut self, binding: ModemBinding)
        requires
            old(self).wf(),
        ensures
            final(self).wf(),
            final(self)@ == with_binding(old(self)@, binding),
    {
        proof {
            law_discovery_keeps_lines(self@, binding);
        }
        match self.find(binding.line_id.as_str()) {
            Some(i) => {
                let seed = self.lines[i].seed;
                self.lines.set(i, LineRuntime { binding, seed });
            },
            None => {
                let seed = !self.seed_claimed;
                self.seed_claimed = true;
                let p: usize = self.place(binding.line_id.as_str());
                self.lines.insert(p, LineRuntime { binding, seed });
            },
        }
    }

    fn leave_all(&mut self)
        ensures
            final(self)@ == (Registry { lines: all_absent(old(self)@.lines), ..old(self)@ }),
    {
        let ghost start = self@;
        let mut i: usize = 0;
        while i < self.lines.len()
            invariant
                i <= self.lines@.len(),
                self.lines@.len() == start.lines.len(),
                self.seed_claimed == start.seed_claimed,
                forall|j: int|
                    0 <= j < i ==> #[trigger] self.lines@[j] == all_absent(start.lines)[j],
                forall|j: int|
                    i <= j < self.lines@.len() ==> #[trigger] self.lines@[j] == start.lines[j],
            decreases self.lines@.len() - i,
        {
            self.lines[i].mark_absent();
            i += 1;
        }
        assert(self.lines@ =~= all_absent(start.lines));
    }

    /// Takes over what was discovered; gives how many lines are present.
    pub fn refresh(&mut self, discovered: Vec<ModemBinding>) -> (r: usize)
        requires
            old(self).wf(),
        ensures
            final(self).wf(),
            final(self)@ == refreshed(old(self)@, discovered@),
            r == present_lines(final(self)@.lines),
    {
        let ghost all = discovered@;
        let ghost start = Registry { lines: all_absent(self@.lines), ..self@ };
        proof {
            lemma_absent_sorted(self@.lines);
        }
        self.leave_all();
        let mut rest = discovered;
        let mut i: usize = 0;
        let total: usize = rest.len();
        proof {
            assert(rest@ =~= all.subrange(0, all.len() as int));
        }
        while i < total
            invariant
                i <= total,
                total == all.len(),
                rest@ == all.subrange(i as int, all.len() as int),
                self.wf(),
                self@ == with_bindings(start, all, i as int),
            decreases total - i,
        {
            let binding = rest.remove(0);
            self.take_binding(binding);
            i += 1;
            proof {
                assert(binding == all[i - 1]);
                assert(rest@ =~= all.subrange(i as int, all.len() as int));
            }
        }
        self.present_count()
    }

    pub fn get(&self, line_id: &str) -> (r: Option<&LineRuntime>)
        ensures
            opt_line(r) == line_at(self@.lines, index_from(self@.lines, line_id@, 0)),
    {
        match self.find(line_id) {
            Some(i) => Some(&self.lines[i]),
            None => None,
        }
    }

    pub fn all(&self) -> (r: &Vec<LineRuntime>)
        ensures
            r@ == self@.lines,
    {
        &self.lines
    }

    pub fn primary(&self) -> (r: Option<&LineRuntime>)
        ensures
            opt_line(r) == line_at(self@.lines, primary_from(self@.lines, 0)),
    {
        let mut i: usize = 0;
        while i < self.lines.len()
            invariant
                i <= self.lines@.len(),
                primary_from(self@.lines, 0) == primary_from(self@.lines, i as int),
            decreases self.lines@.len() - i,
        {
            if self.lines[i].binding.present {
                return Some(&self.lines[i]);
            }
            i += 1;
        }
        None
    }

    pub fn for_modem_path(&self, modem_path: &str) -> (r: Option<&LineRuntime>)
        ensures
            opt_line(r) == line_at(self@.lines, on_modem_from(self@.lines, modem_path@, 0)),
    {
        let mut i: usize = 0;
        while i < self.lines.len()
            invariant
                i <= self.lines@.len(),
                on_modem_from(self@.lines, modem_path@, 0) == on_modem_from(
                    self@.lines,
                    modem_path@,
                    i as int,
                ),
            decreases self.lines@.len() - i,
        {
            if self.lines[i].binding.present && text::str_same(
                self.lines[i].binding.modem_path.as_str(),
                modem_path,
            ) {
                return Some(&self.lines[i]);
            }
            i += 1;
        }
        None
    }

    pub fn present_count(&self) -> (r: usize)
        ensures
            r == present_lines(self@.lines),
            r <= self.lines@.len(),
    {
        let mut count: usize = 0;
        let mut i: usize = 0;
        while i < self.lines.len()
            invariant
                i <= self.lines@.len(),
                count <= i,
                count == present_upto(self@.lines, i as int),
            decreases self.lines@.len() - i,
        {
            if self.lines[i].binding.present {
                count += 1;
            }
            i += 1;
        }
        count
    }
}

impl Default for LineRuntimeRegistry {
    fn default() -> (r: Self)
        ensures
            r.wf(),
            r@ == (Registry { lines: seq![], seed_claimed: false }),
    {
        LineRuntimeRegistry::new()
    }
}

} // verus!
