//! The process supervisor: the table of names that currently own a child
//! process.
//!
//! The table holds one opaque handle per tracked name. The operating
//! system's part — launching a child, polling it, killing it — belongs to
//! the embedding application, which reports each outcome back; the
//! supervisor decides everything else: whether a name may spawn, what a
//! liveness report means, and what leaves the table when. A tracked entry
//! is never evicted by a liveness check that finds its process dead: only
//! an explicit, successful `stop` removes it, so `spawn` rejects a present
//! name even if that process has since exited.

use vstd::prelude::*;

verus! {

use vstd::string::StringExecFns;
use crate::config::Service;
use crate::text::str_eq;
use crate::text::dec_str;
use crate::text::u32_to_dec;

/// Why a supervisor operation failed.
#[derive(Debug)]
pub enum Error {
    ProcessNotFound,
    ProcessAlreadyRunning,
    ProcessExited(u32),
    IoError(String),
}

impl Error {
    /// The diagnostic rendering used in responses.
    pub open spec fn spec_text(self) -> Seq<char> {
        match self {
            Error::ProcessNotFound => "ProcessNotFound"@,
            Error::ProcessAlreadyRunning => "ProcessAlreadyRunning"@,
            Error::ProcessExited(code) => "ProcessExited("@ + dec_str(code as nat) + ")"@,
            Error::IoError(m) => "IoError("@ + m@ + ")"@,
        }
    }

    /// Renders the error for a response.
    pub fn text(&self) -> (r: String)
        ensures
            r@ == self.spec_text(),
    {
        match self {
            Error::ProcessNotFound => "ProcessNotFound".to_owned(),
            Error::ProcessAlreadyRunning => "ProcessAlreadyRunning".to_owned(),
            Error::ProcessExited(code) => {
                let mut s = "ProcessExited(".to_owned();
                let d = u32_to_dec(*code);
                s.append(d.as_str());
                s.append(")");
                s
            },
            Error::IoError(m) => {
                let mut s = "IoError(".to_owned();
                s.append(m.as_str());
                s.append(")");
                s
            },
        }
    }
}

/// Where a stream of a spawned child goes.
#[derive(Debug)]
pub enum LogTarget {
    /// The unit names the file itself.
    Configured(String),
    /// The unit names none: this file, under the `log` directory beside
    /// the server's executable.
    DefaultLog(String),
}

/// Where the child's standard output goes: the unit's configured path,
/// or the per-name default log file `<name>-stdout.log`.
pub fn stdout_target(service: &Service, name: &str) -> (r: LogTarget)
    ensures
        (match service.stdout_path {
            Some(p) => (r matches LogTarget::Configured(q) && q == p),
            None => (r matches LogTarget::DefaultLog(f) && f@ == name@ + "-stdout.log"@),
        }),
{
    match &service.stdout_path {
        Some(p) => LogTarget::Configured(p.clone()),
        None => {
            let mut f = name.to_owned();
            f.append("-stdout.log");
            LogTarget::DefaultLog(f)
        },
    }
}

/// Where the child's standard error goes: the unit's configured path, or
/// the per-name default log file `<name>-stderr.log`.
pub fn stderr_target(service: &Service, name: &str) -> (r: LogTarget)
    ensures
        (match service.stderr_path {
            Some(p) => (r matches LogTarget::Configured(q) && q == p),
            None => (r matches LogTarget::DefaultLog(f) && f@ == name@ + "-stderr.log"@),
        }),
{
    match &service.stderr_path {
        Some(p) => LogTarget::Configured(p.clone()),
        None => {
            let mut f = name.to_owned();
            f.append("-stderr.log");
            LogTarget::DefaultLog(f)
        },
    }
}

/// What the application's attempt to launch a child came to.
#[derive(Debug)]
pub enum LaunchOutcome {
    /// The child started; the handle names it in the application's table.
    Launched(u64),
    /// Creating a log file or the process itself failed; the message is
    /// the reported reason.
    LaunchFailed(String),
}

/// What the application's kill-and-wait of a stopped child came to.
#[derive(Debug)]
pub enum KillOutcome {
    /// The child was terminated and its exit confirmed.
    Killed,
    /// The kill or the wait on it failed; the message is the reported
    /// reason.
    KillFailed(String),
}

/// What a non-blocking liveness poll of a tracked child reported.
#[derive(Debug)]
pub enum PollOutcome {
    StillRunning,
    Exited(u32),
    PollFailed(String),
}

/// One tracked name and the handle of the child it owns.
#[derive(Debug)]
pub struct ProcEntry {
    pub name: String,
    pub handle: u64,
}

impl ProcEntry {
    pub open spec fn spec_name(self) -> Seq<char> {
        self.name@
    }
}

/// The name-to-handle mapping read off the tracked entries.
pub open spec fn proc_map_of(entries: Seq<ProcEntry>) -> Map<Seq<char>, u64>
    decreases entries.len(),
{
    if entries.len() == 0 {
        Map::empty()
    } else {
        proc_map_of(entries.drop_last()).insert(
            entries.last().spec_name(),
            entries.last().handle,
        )
    }
}

/// Tracked names are pairwise distinct.
pub open spec fn distinct_names(entries: Seq<ProcEntry>) -> bool {
    forall|i: int, j: int|
        0 <= i < j < entries.len() ==> entries[i].spec_name() != entries[j].spec_name()
}

/// What `spawn` does to the mapping, and what it returns: a present name
/// is rejected outright; otherwise a successful launch is recorded and a
/// failed one reported.
pub open spec fn spec_spawn(m: Map<Seq<char>, u64>, name: Seq<char>, launch: LaunchOutcome) -> (
    Map<Seq<char>, u64>,
    Result<(), Error>,
) {
    if m.contains_key(name) {
        (m, Err(Error::ProcessAlreadyRunning))
    } else {
        match launch {
            LaunchOutcome::Launched(h) => (m.insert(name, h), Ok(())),
            LaunchOutcome::LaunchFailed(msg) => (m, Err(Error::IoError(msg))),
        }
    }
}

/// What `check` answers: an untracked name fails, and for a tracked one
/// the poll's report is passed on as success or the matching error. The
/// mapping never changes.
pub open spec fn spec_check(m: Map<Seq<char>, u64>, name: Seq<char>, poll: PollOutcome) -> Result<
    (),
    Error,
> {
    if !m.contains_key(name) {
        Err(Error::ProcessNotFound)
    } else {
        match poll {
            PollOutcome::StillRunning => Ok(()),
            PollOutcome::Exited(code) => Err(Error::ProcessExited(code)),
            PollOutcome::PollFailed(msg) => Err(Error::IoError(msg)),
        }
    }
}

/// What `stop` does: an untracked name fails; a tracked one leaves the
/// table and its handle goes back to the caller for the kill-and-wait.
pub open spec fn spec_stop(m: Map<Seq<char>, u64>, name: Seq<char>) -> (
    Map<Seq<char>, u64>,
    Result<u64, Error>,
) {
    if m.contains_key(name) {
        (m.remove(name), Ok(m[name]))
    } else {
        (m, Err(Error::ProcessNotFound))
    }
}

/// The supervisor's table of owned children.
pub struct Supervisor {
    entries: Vec<ProcEntry>,
}

impl Supervisor {
    /// The tracked entries, oldest first.
    pub closed spec fn entries_seq(self) -> Seq<ProcEntry> {
        self.entries@
    }

    /// Tracked names are unique: at most one entry per name, always.
    pub open spec fn wf(self) -> bool {
        distinct_names(self.entries_seq())
    }

    /// The mapping the supervisor answers from.
    pub open spec fn map_view(self) -> Map<Seq<char>, u64> {
        proc_map_of(self.entries_seq())
    }

    /// An empty table: nothing is supervised yet.
    pub fn new() -> (s: Supervisor)
        ensures
            s.wf(),
            s.map_view() == Map::<Seq<char>, u64>::empty(),
    {
        Supervisor { entries: Vec::new() }
    }

    /// The position of `name` in the table, if it is tracked.
    fn find(&self, name: &str) -> (r: Option<usize>)
        requires
            self.wf(),
        ensures
            match r {
                Some(i) => i < self.entries_seq().len() && self.entries_seq()[
                    i as int
                ].spec_name() == name@ && self.map_view().contains_key(name@) && self.map_view()[
                    name@
                ] == self.entries_seq()[i as int].handle,
                None => !self.map_view().contains_key(name@) && (forall|j: int|
                    0 <= j < self.entries_seq().len() ==> self.entries_seq()[j].spec_name()
                        != name@),
            },
    {
        let n = self.entries.len();
        let mut i: usize = 0;
        while i < n
            invariant
                self.wf(),
                n == self.entries_seq().len(),
                i <= n,
                forall|j: int| 0 <= j < i ==> self.entries_seq()[j].spec_name() != name@,
            decreases n - i,
        {
            if str_eq(self.entries[i].name.as_str(), name) {
                proof {
                    lemma_proc_map_index(self.entries_seq(), name@, i as int);
                }
                return Some(i);
            }
            i = i + 1;
        }
        proof {
            lemma_proc_map_absent(self.entries_seq(), name@);
        }
        None
    }

    /// Whether `name` currently owns a tracked child.
    pub fn contains(&self, name: &str) -> (r: bool)
        requires
            self.wf(),
        ensures
            r == self.map_view().contains_key(name@),
    {
        self.find(name).is_some()
    }

    /// The tracked handle of `name`, or `ProcessNotFound`.
    pub fn get(&self, name: &str) -> (r: Result<u64, Error>)
        requires
            self.wf(),
        ensures
            match r {
                Ok(h) => self.map_view().contains_key(name@) && h == self.map_view()[name@],
                Err(e) => !self.map_view().contains_key(name@) && e is ProcessNotFound,
            },
    {
        match self.find(name) {
            Some(i) => Ok(self.entries[i].handle),
            None => Err(Error::ProcessNotFound),
        }
    }

    /// Records the application's launch attempt for `name` — or rejects
    /// it, launched or not, when the name is already tracked. The caller
    /// is expected to consult `contains` (the dispatcher does) before
    /// launching, so a rejected handle is a discarded child, not a leak.
    pub fn spawn(&mut self, name: &str, launch: LaunchOutcome) -> (r: Result<(), Error>)
        requires
            old(self).wf(),
        ensures
            final(self).wf(),
            final(self).map_view() == spec_spawn(old(self).map_view(), name@, launch).0,
            r == spec_spawn(old(self).map_view(), name@, launch).1,
    {
        match self.find(name) {
            Some(_) => Err(Error::ProcessAlreadyRunning),
            None => match launch {
                LaunchOutcome::Launched(h) => {
                    let entry = ProcEntry { name: name.to_owned(), handle: h };
                    self.entries.push(entry);
                    proof {
                        assert(self.entries_seq().drop_last() =~= old(self).entries_seq());
                        assert forall|p: int, q: int|
                            0 <= p < q < self.entries_seq().len() implies self.entries_seq()[
                            p
                        ].spec_name() != self.entries_seq()[q].spec_name() by {
                            if q == self.entries_seq().len() - 1 {
                                assert(self.entries_seq()[p] == old(self).entries_seq()[p]);
                            }
                        }
                    }
                    Ok(())
                },
                LaunchOutcome::LaunchFailed(msg) => Err(Error::IoError(msg)),
            },
        }
    }

    /// Interprets the application's liveness poll for `name`. The entry
    /// stays tracked whatever the poll found — discovering an exit does
    /// not evict.
    pub fn check(&self, name: &str, poll: PollOutcome) -> (r: Result<(), Error>)
        requires
            self.wf(),
        ensures
            r == spec_check(self.map_view(), name@, poll),
    {
        match self.find(name) {
            None => Err(Error::ProcessNotFound),
            Some(_) => match poll {
                PollOutcome::StillRunning => Ok(()),
                PollOutcome::Exited(code) => Err(Error::ProcessExited(code)),
                PollOutcome::PollFailed(msg) => Err(Error::IoError(msg)),
            },
        }
    }

    /// Unconditionally removes `name` from the table and hands its child's
    /// handle back for the kill-and-wait; an untracked name fails. The
    /// entry is gone even if the caller's kill then fails, as a removed
    /// name must be free to spawn again.
    pub fn stop(&mut self, name: &str) -> (r: Result<u64, Error>)
        requires
            old(self).wf(),
        ensures
            final(self).wf(),
            final(self).map_view() == spec_stop(old(self).map_view(), name@).0,
            r == spec_stop(old(self).map_view(), name@).1,
    {
        match self.find(name) {
            Some(i) => {
                proof {
                    lemma_proc_map_remove(self.entries_seq(), i as int);
                }
                let entry = self.entries.remove(i);
                Ok(entry.handle)
            },
            None => Err(Error::ProcessNotFound),
        }
    }
}

/// Spawning a name twice with no stop between succeeds once: the second
/// call finds the name tracked and rejects it with `ProcessAlreadyRunning`,
/// leaving the table as the first call left it.
pub proof fn lemma_spawn_twice(
    m: Map<Seq<char>, u64>,
    name: Seq<char>,
    h: u64,
    second: LaunchOutcome,
)
    requires
        !m.contains_key(name),
    ensures
        spec_spawn(m, name, LaunchOutcome::Launched(h)).1 is Ok,
        spec_spawn(spec_spawn(m, name, LaunchOutcome::Launched(h)).0, name, second).1 == Err::<
            (),
            Error,
        >(Error::ProcessAlreadyRunning),
        spec_spawn(spec_spawn(m, name, LaunchOutcome::Launched(h)).0, name, second).0 == spec_spawn(
            m,
            name,
            LaunchOutcome::Launched(h),
        ).0,
{
}

/// After a successful spawn of `name`, a still-running poll checks out.
pub proof fn lemma_spawn_then_check(m: Map<Seq<char>, u64>, name: Seq<char>, h: u64)
    requires
        !m.contains_key(name),
    ensures
        spec_check(
            spec_spawn(m, name, LaunchOutcome::Launched(h)).0,
            name,
            PollOutcome::StillRunning,
        ) is Ok,
{
}

/// After a successful stop of `name`, any check of it fails with
/// `ProcessNotFound`, whatever the application's poll would say.
pub proof fn lemma_stop_then_check(m: Map<Seq<char>, u64>, name: Seq<char>, poll: PollOutcome)
    requires
        m.contains_key(name),
    ensures
        spec_stop(m, name).1 is Ok,
        spec_check(spec_stop(m, name).0, name, poll) == Err::<(), Error>(Error::ProcessNotFound),
{
}

/// A tracked process whose poll reports an exit is reported as
/// `ProcessExited` with that code — and stays tracked.
pub proof fn lemma_check_reports_exit(m: Map<Seq<char>, u64>, name: Seq<char>, code: u32)
    requires
        m.contains_key(name),
    ensures
        spec_check(m, name, PollOutcome::Exited(code)) == Err::<(), Error>(
            Error::ProcessExited(code),
        ),
{
}

/// An entry with no later namesake is what the mapping holds for its name.
proof fn lemma_proc_map_index(entries: Seq<ProcEntry>, name: Seq<char>, i: int)
    requires
        distinct_names(entries),
        0 <= i < entries.len(),
        entries[i].spec_name() == name,
    ensures
        proc_map_of(entries).contains_key(name),
        proc_map_of(entries)[name] == entries[i].handle,
    decreases entries.len(),
{
    if i < entries.len() - 1 {
        lemma_proc_map_index(entries.drop_last(), name, i);
    }
}

/// A name no entry bears is not in the mapping.
proof fn lemma_proc_map_absent(entries: Seq<ProcEntry>, name: Seq<char>)
    requires
        forall|j: int| 0 <= j < entries.len() ==> entries[j].spec_name() != name,
    ensures
        !proc_map_of(entries).contains_key(name),
    decreases entries.len(),
{
    if entries.len() > 0 {
        lemma_proc_map_absent(entries.drop_last(), name);
    }
}

/// Removing entry `i` removes exactly its name from the mapping, and
/// keeps the names distinct.
proof fn lemma_proc_map_remove(entries: Seq<ProcEntry>, i: int)
    requires
        distinct_names(entries),
        0 <= i < entries.len(),
    ensures
        distinct_names(entries.remove(i)),
        proc_map_of(entries.remove(i)) == proc_map_of(entries).remove(entries[i].spec_name()),
    decreases entries.len(),
{
    let name = entries[i].spec_name();
    assert(distinct_names(entries.remove(i))) by {
        assert forall|p: int, q: int|
            0 <= p < q < entries.remove(i).len() implies entries.remove(i)[p].spec_name()
            != entries.remove(i)[q].spec_name() by {
            if p < i {
                assert(entries.remove(i)[p] == entries[p]);
            } else {
                assert(entries.remove(i)[p] == entries[p + 1]);
            }
            if q < i {
                assert(entries.remove(i)[q] == entries[q]);
            } else {
                assert(entries.remove(i)[q] == entries[q + 1]);
            }
        }
    }
    if i == entries.len() - 1 {
        assert(entries.remove(i) =~= entries.drop_last());
        assert forall|j: int| 0 <= j < entries.drop_last().len() implies entries.drop_last()[
            j
        ].spec_name() != name by {
            assert(entries.drop_last()[j] == entries[j]);
        }
        lemma_proc_map_absent(entries.drop_last(), name);
        assert(proc_map_of(entries.drop_last()) =~= proc_map_of(entries).remove(name));
    } else {
        lemma_proc_map_remove(entries.drop_last(), i);
        assert(entries.remove(i).drop_last() =~= entries.drop_last().remove(i));
        assert(entries.remove(i).last() == entries.last());
        assert(proc_map_of(entries.remove(i)) =~= proc_map_of(entries).remove(name));
    }
}

} // verus!
