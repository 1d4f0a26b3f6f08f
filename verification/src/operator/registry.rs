//! Which line has which voice session.

use crate::sdp::copy_str;
use crate::text;
use vstd::prelude::*;

verus! {

/// A session that runs for a profile, by number.
#[derive(Debug, PartialEq, Eq)]
pub struct InstalledTask {
    pub profile_id: String,
    pub task: u64,
}

pub struct Installed {
    pub profile_id: Seq<char>,
    pub task: u64,
}

/// The operator side of a line.
#[derive(Debug, PartialEq, Eq)]
pub struct OperatorHandle {
    pub line_id: String,
    pub ready: bool,
    pub generation: u64,
    pub installed: Option<InstalledTask>,
    /// The supplementary-service runtime of the line, by number.
    pub supplementary: Option<u64>,
}

pub struct Handle {
    pub line_id: Seq<char>,
    pub ready: bool,
    pub generation: u64,
    pub installed: Option<Installed>,
    pub supplementary: Option<u64>,
}

impl View for OperatorHandle {
    type V = Handle;

    open spec fn view(&self) -> Handle {
        Handle {
            line_id: self.line_id@,
            ready: self.ready,
            generation: self.generation,
            installed: match self.installed {
                Some(i) => Some(Installed { profile_id: i.profile_id@, task: i.task }),
                None => None,
            },
            supplementary: self.supplementary,
        }
    }
}

pub open spec fn handles_of(v: Seq<OperatorHandle>) -> Seq<Handle> {
    Seq::new(v.len(), |i: int| v[i]@)
}

pub open spec fn new_handle(line_id: Seq<char>) -> Handle {
    Handle { line_id, ready: false, generation: 0, installed: None, supplementary: None }
}

pub open spec fn line_from(handles: Seq<Handle>, line_id: Seq<char>, i: int) -> int
    decreases handles.len() - i,
{
    if i < 0 || i >= handles.len() {
        handles.len() as int
    } else if handles[i].line_id == line_id {
        i
    } else {
        line_from(handles, line_id, i + 1)
    }
}

pub open spec fn line_at(handles: Seq<Handle>, line_id: Seq<char>) -> int {
    line_from(handles, line_id, 0)
}

proof fn lemma_line(handles: Seq<Handle>, line_id: Seq<char>, i: int)
    requires
        0 <= i <= handles.len(),
    ensures
        i <= line_from(handles, line_id, i) <= handles.len(),
        line_from(handles, line_id, i) < handles.len() ==> handles[line_from(
            handles,
            line_id,
            i,
        )].line_id == line_id,
        forall|j: int|
            i <= j < line_from(handles, line_id, i) ==> (#[trigger] handles[j]).line_id != line_id,
    decreases handles.len() - i,
{
    if i < handles.len() && handles[i].line_id != line_id {
        lemma_line(handles, line_id, i + 1);
    }
}

/// The handles with one for the line, made where there was none.
pub open spec fn with_line(handles: Seq<Handle>, line_id: Seq<char>) -> Seq<Handle> {
    if line_at(handles, line_id) < handles.len() {
        handles
    } else {
        handles.push(new_handle(line_id))
    }
}

/// What installing a registration comes to.
#[derive(Debug, Clone, Copy, PartialEq, Eq, Structural)]
pub enum Installation {
    /// The session of the profile goes on with the new registration.
    HandedOver,
    /// A session begins; an earlier one is stopped.
    Started { stopped: Option<u64>, generation: u64 },
}

/// Can a running session take over a registration of this profile?
pub open spec fn same_profile(h: Handle, profile_id: Seq<char>) -> bool {
    h.installed matches Some(i) && i.profile_id == profile_id
}

pub open spec fn next_generation(g: u64) -> u64 {
    if g < u64::MAX {
        (g + 1) as u64
    } else {
        0
    }
}

pub open spec fn stopped_task(h: Handle) -> Option<u64> {
    match h.installed {
        Some(i) => Some(i.task),
        None => None,
    }
}

pub open spec fn installed_handle(h: Handle, profile_id: Seq<char>, task: u64) -> Handle {
    Handle {
        ready: true,
        generation: next_generation(h.generation),
        installed: Some(Installed { profile_id, task }),
        ..h
    }
}

pub open spec fn disconnected_handle(h: Handle) -> Handle {
    Handle { ready: false, generation: next_generation(h.generation), installed: None, ..h }
}

/// What a disconnected line leaves to be done: a session to stop, and a runtime
/// whose registration is to be cleared.
#[derive(Debug, Clone, Copy, PartialEq, Eq, Structural)]
pub struct Disconnected {
    pub stopped: Option<u64>,
    pub runtime: Option<u64>,
}

#[derive(Debug, PartialEq, Eq)]
pub struct OperatorRegistry {
    pub handles: Vec<OperatorHandle>,
}

impl OperatorRegistry {
    pub open spec fn lines(&self) -> Seq<Handle> {
        handles_of(self.handles@)
    }

    pub fn new() -> (r: Self)
        ensures
            r.lines() == Seq::<Handle>::empty(),
    {
        let r = OperatorRegistry { handles: Vec::new() };
        assert(r.lines() =~= Seq::<Handle>::empty());
        r
    }

    fn find_line(&self, line_id: &str) -> (r: usize)
        ensures
            r as int == line_at(self.lines(), line_id@),
            r <= self.handles@.len(),
            self.lines().len() == self.handles@.len(),
            r < self.handles@.len() ==> self.handles@[r as int]@ == self.lines()[r as int],
    {
        let ghost all = self.lines();
        proof {
            lemma_line(all, line_id@, 0);
        }
        let mut i: usize = 0;
        while i < self.handles.len()
            invariant
                i <= self.handles@.len(),
                all == handles_of(self.handles@),
                line_at(all, line_id@) == line_from(all, line_id@, i as int),
            decreases self.handles@.len() - i,
        {
            assert(all[i as int] == self.handles@[i as int]@);
            if text::str_same(self.handles[i].line_id.as_str(), line_id) {
                return i;
            }
            i += 1;
        }
        i
    }

    /// The number of the line's link, which is made where there was none.
    pub fn operator_link_for_line(&mut self, line_id: &str) -> (r: usize)
        ensures
            final(self).lines() == with_line(old(self).lines(), line_id@),
            r as int == line_at(old(self).lines(), line_id@),
            r < final(self).handles@.len(),
            final(self).lines()[r as int].line_id == line_id@,
    {
        let i: usize = self.find_line(line_id);
        proof {
            lemma_line(self.lines(), line_id@, 0);
        }
        let count: usize = self.handles.len();
        if i == count {
            let ghost before = self.lines();
            self.handles.push(
                OperatorHandle {
                    line_id: copy_str(line_id),
                    ready: false,
                    generation: 0,
                    installed: None,
                    supplementary: None,
                },
            );
            assert(self.lines() =~= before.push(new_handle(line_id@)));
        }
        i
    }

    pub fn bind_supplementary_for_line(&mut self, line_id: &str, runtime: u64)
        ensures
            ({
                let lines = with_line(old(self).lines(), line_id@);
                let i = line_at(old(self).lines(), line_id@);
                final(self).lines() == lines.update(
                    i,
                    Handle { supplementary: Some(runtime), ..lines[i] },
                )
            }),
    {
        let i: usize = self.operator_link_for_line(line_id);
        let ghost before = self.lines();
        assert(before[i as int] == self.handles@[i as int]@);
        self.handles[i].supplementary = Some(runtime);
        assert(self.lines() =~= before.update(
            i as int,
            Handle { supplementary: Some(runtime), ..before[i as int] },
        ));
    }

    /// Installs a registration. `handed_over` says whether a session of the same
    /// profile that still ran took it.
    pub fn install_registered_channel(
        &mut self,
        line_id: &str,
        profile_id: String,
        handed_over: bool,
        task: u64,
    ) -> (r: Installation)
        ensures
            ({
                let lines = with_line(old(self).lines(), line_id@);
                let i = line_at(old(self).lines(), line_id@);
                if handed_over && same_profile(lines[i], profile_id@) {
                    r == Installation::HandedOver && final(self).lines() == lines
                } else {
                    &&& r == Installation::Started {
                        stopped: stopped_task(lines[i]),
                        generation: next_generation(lines[i].generation),
                    }
                    &&& final(self).lines() == lines.update(
                        i,
                        installed_handle(lines[i], profile_id@, task),
                    )
                }
            }),
    {
        let i: usize = self.operator_link_for_line(line_id);
        let ghost before = self.lines();
        assert(before[i as int] == self.handles@[i as int]@);
        let (stopped, same) = match &self.handles[i].installed {
            Some(current) => (
                Some(current.task),
                text::str_same(current.profile_id.as_str(), profile_id.as_str()),
            ),
            None => (None, false),
        };
        if handed_over && same {
            return Installation::HandedOver;
        }
        let generation: u64 = if self.handles[i].generation < u64::MAX {
            self.handles[i].generation + 1
        } else {
            0
        };
        let ghost name = profile_id@;
        self.handles[i].generation = generation;
        self.handles[i].installed = Some(InstalledTask { profile_id, task });
        self.handles[i].ready = true;
        assert(self.lines() =~= before.update(
            i as int,
            installed_handle(before[i as int], name, task),
        ));
        Installation::Started { stopped, generation }
    }

    /// A session has ended: the line takes no more calls, unless another session
    /// has begun since.
    pub fn task_ended(&mut self, line_id: &str, generation: u64)
        ensures
            ({
                let lines = old(self).lines();
                let i = line_at(lines, line_id@);
                final(self).lines() == (if i < lines.len() && lines[i].generation == generation {
                    lines.update(i, Handle { ready: false, ..lines[i] })
                } else {
                    lines
                })
            }),
    {
        let i: usize = self.find_line(line_id);
        let count: usize = self.handles.len();
        if i < count && self.handles[i].generation == generation {
            let ghost before = self.lines();
            self.handles[i].ready = false;
            assert(self.lines() =~= before.update(
                i as int,
                Handle { ready: false, ..before[i as int] },
            ));
        }
    }

    pub fn disconnect_line(&mut self, line_id: &str) -> (r: Option<Disconnected>)
        ensures
            ({
                let lines = old(self).lines();
                let i = line_at(lines, line_id@);
                if i < lines.len() {
                    &&& r == Some(
                        Disconnected {
                            stopped: stopped_task(lines[i]),
                            runtime: lines[i].supplementary,
                        },
                    )
                    &&& final(self).lines() == lines.update(i, disconnected_handle(lines[i]))
                } else {
                    r is None && final(self).lines() == lines
                }
            }),
    {
        let i: usize = self.find_line(line_id);
        let count: usize = self.handles.len();
        if i == count {
            return None;
        }
        let ghost before = self.lines();
        let stopped = match &self.handles[i].installed {
            Some(current) => Some(current.task),
            None => None,
        };
        let runtime = self.handles[i].supplementary;
        let generation: u64 = if self.handles[i].generation < u64::MAX {
            self.handles[i].generation + 1
        } else {
            0
        };
        self.handles[i].generation = generation;
        self.handles[i].ready = false;
        self.handles[i].installed = None;
        assert(self.lines() =~= before.update(i as int, disconnected_handle(before[i as int])));
        Some(Disconnected { stopped, runtime })
    }

    /// Disconnects the line only if its session is one of this profile.
    pub fn disconnect_profile(&mut self, line_id: &str, profile_id: &str) -> (r: Option<
        Disconnected,
    >)
        ensures
            ({
                let lines = old(self).lines();
                let i = line_at(lines, line_id@);
                if i < lines.len() && same_profile(lines[i], profile_id@) {
                    &&& r == Some(
                        Disconnected {
                            stopped: stopped_task(lines[i]),
                            runtime: lines[i].supplementary,
                        },
                    )
                    &&& final(self).lines() == lines.update(i, disconnected_handle(lines[i]))
                } else {
                    r is None && final(self).lines() == lines
                }
            }),
    {
        let i: usize = self.find_line(line_id);
        let count: usize = self.handles.len();
        if i == count {
            return None;
        }
        let same: bool = match &self.handles[i].installed {
            Some(current) => text::str_same(current.profile_id.as_str(), profile_id),
            None => false,
        };
        if same {
            self.disconnect_line(line_id)
        } else {
            None
        }
    }
}

// ------------------------------------------------------------------------- laws

/// A session that was replaced or disconnected cannot take the line's readiness
/// away when it ends: its generation is over.
pub proof fn law_stale_sessions_change_nothing(h: Handle, profile_id: Seq<char>, task: u64)
    ensures
        installed_handle(h, profile_id, task).generation != h.generation,
        disconnected_handle(h).generation != h.generation,
        !disconnected_handle(h).ready,
        disconnected_handle(h).installed is None,
{
}

} // verus!
