//! Process bookkeeping: typed process identifiers, the process control
//! block, and a table that hands out identifiers and schedules round-robin.

use vstd::prelude::*;

verus! {

/// Process identifier.
#[derive(Debug, Clone, Copy, PartialEq, Eq, Structural)]
pub struct Pid(pub usize);

impl Pid {
    /// Wrap a raw identifier.
    pub fn new(id: usize) -> (r: Self)
        ensures
            r.0 == id,
    {
        Pid(id)
    }

    /// Get the raw identifier.
    pub fn as_usize(&self) -> (r: usize)
        ensures
            r == self.0,
    {
        self.0
    }
}

/// Scheduling state of a process.
#[derive(Debug, Clone, Copy, PartialEq, Eq, Structural)]
pub enum ProcessState {
    /// Runnable, waiting for the CPU.
    Ready,
    /// Currently executing.
    Running,
    /// Waiting on an event.
    Blocked,
    /// Finished; the slot can be reclaimed.
    Terminated,
}

/// Privilege level a process runs at.
#[derive(Debug, Clone, Copy, PartialEq, Eq, Structural)]
pub enum PrivilegeLevel {
    /// Ring 0.
    Kernel,
    /// Ring 3.
    User,
}

/// Process control block.
pub struct Process {
    pid: Pid,
    state: ProcessState,
    privilege: PrivilegeLevel,
    rsp: usize,
    rip: usize,
    rflags: u64,
    page_table: usize,
    priority: u8,
    time_slice: usize,
}

impl Process {
    /// The process's identifier.
    pub closed spec fn spec_pid(self) -> Pid {
        self.pid
    }

    /// The process's scheduling state.
    pub closed spec fn spec_state(self) -> ProcessState {
        self.state
    }

    /// The process's privilege level.
    pub closed spec fn spec_privilege(self) -> PrivilegeLevel {
        self.privilege
    }

    /// Create a ready kernel-mode process with interrupts enabled.
    pub fn new_kernel(pid: Pid, entry: usize, stack: usize) -> (r: Self)
        ensures
            r.spec_pid() == pid,
            r.spec_state() == ProcessState::Ready,
            r.spec_privilege() == PrivilegeLevel::Kernel,
    {
        Process {
            pid,
            state: ProcessState::Ready,
            privilege: PrivilegeLevel::Kernel,
            rsp: stack,
            rip: entry,
            rflags: 0x200,
            page_table: 0,
            priority: 0,
            time_slice: 100,
        }
    }

    /// Create a ready user-mode process with its own page table.
    pub fn new_user(pid: Pid, entry: usize, stack: usize, page_table: usize) -> (r: Self)
        ensures
            r.spec_pid() == pid,
            r.spec_state() == ProcessState::Ready,
            r.spec_privilege() == PrivilegeLevel::User,
    {
        Process {
            pid,
            state: ProcessState::Ready,
            privilege: PrivilegeLevel::User,
            rsp: stack,
            rip: entry,
            rflags: 0x200,
            page_table,
            priority: 10,
            time_slice: 50,
        }
    }

    /// Get the process identifier.
    pub fn pid(&self) -> (r: Pid)
        ensures
            r == self.spec_pid(),
    {
        self.pid
    }

    /// Get the scheduling state.
    pub fn state(&self) -> (r: ProcessState)
        ensures
            r == self.spec_state(),
    {
        self.state
    }

    /// Set the scheduling state, leaving everything else alone.
    pub fn set_state(&mut self, state: ProcessState)
        ensures
            final(self).spec_state() == state,
            final(self).spec_pid() == old(self).spec_pid(),
            final(self).spec_privilege() == old(self).spec_privilege(),
    {
        self.state = state;
    }
}

/// Number of slots in the process table.
pub const PROCESS_SLOTS: usize = 256;

/// The process table: one slot per identifier residue, plus the next
/// identifier to hand out.
pub struct ProcessTable {
    slots: Vec<Option<Process>>,
    next_pid: usize,
}

impl ProcessTable {
    /// The slots as a sequence.
    pub closed spec fn view(self) -> Seq<Option<Process>> {
        self.slots@
    }

    /// The next identifier to hand out.
    pub closed spec fn spec_next_pid(self) -> usize {
        self.next_pid
    }

    /// The table always holds exactly `PROCESS_SLOTS` slots.
    pub open spec fn wf(self) -> bool {
        self.view().len() == PROCESS_SLOTS
    }

    /// Create an empty table; identifiers start at 1.
    pub fn new() -> (r: Self)
        ensures
            r.wf(),
            r.spec_next_pid() == 1,
            forall|k: int| 0 <= k < PROCESS_SLOTS ==> (#[trigger] r.view()[k]) is None,
    {
        let mut slots: Vec<Option<Process>> = Vec::new();
        let mut i: usize = 0;
        while i < PROCESS_SLOTS
            invariant
                i <= PROCESS_SLOTS,
                slots@.len() == i,
                forall|k: int| 0 <= k < i ==> (#[trigger] slots@[k]) is None,
            decreases PROCESS_SLOTS - i,
        {
            slots.push(Option::None);
            i = i + 1;
        }
        ProcessTable { slots, next_pid: 1 }
    }

    /// Hand out a fresh process identifier.
    pub fn allocate_pid(&mut self) -> (r: Pid)
        requires
            old(self).spec_next_pid() < usize::MAX,
        ensures
            r.0 == old(self).spec_next_pid(),
            final(self).spec_next_pid() == old(self).spec_next_pid() + 1,
            final(self).view() == old(self).view(),
    {
        let id = self.next_pid;
        self.next_pid = self.next_pid + 1;
        Pid::new(id)
    }

    /// Create a new ready process in the slot its identifier maps to, or
    /// report the slot as occupied.
    pub fn create_process(&mut self, entry: usize, stack: usize, is_user: bool) -> (r: Result<
        Pid,
        &'static str,
    >)
        requires
            old(self).wf(),
            old(self).spec_next_pid() < usize::MAX,
        ensures
            final(self).wf(),
            final(self).spec_next_pid() == old(self).spec_next_pid() + 1,
            match r {
                Result::Ok(pid) => {
                    &&& pid.0 == old(self).spec_next_pid()
                    &&& old(self).view()[pid.0 as int % (PROCESS_SLOTS as int)] is None
                    &&& final(self).view()[pid.0 as int % (PROCESS_SLOTS as int)] is Some
                    &&& final(self).view()[pid.0 as int % (PROCESS_SLOTS as int)]->0.spec_state()
                        == ProcessState::Ready
                    &&& final(self).view()[pid.0 as int % (PROCESS_SLOTS as int)]->0.spec_pid()
                        == pid
                    &&& forall|k: int|
                        0 <= k < PROCESS_SLOTS && k != pid.0 as int % (PROCESS_SLOTS as int)
                            ==> final(self).view()[k] == old(self).view()[k]
                },
                Result::Err(m) => {
                    &&& old(self).view()[old(self).spec_next_pid() as int % (
                    PROCESS_SLOTS as int)] is Some
                    &&& final(self).view() == old(self).view()
                },
            },
    {
        let pid = self.allocate_pid();
        let process = if is_user {
            Process::new_user(pid, entry, stack, 0)
        } else {
            Process::new_kernel(pid, entry, stack)
        };
        let index = pid.as_usize() % PROCESS_SLOTS;
        if self.slots[index].is_some() {
            return Result::Err("Process slot occupied");
        }
        self.slots[index] = Option::Some(process);
        Result::Ok(pid)
    }

    /// Round-robin pick: the identifier of the first ready process, or
    /// `None` when no slot holds one.
    pub fn schedule(&self) -> (r: Option<Pid>)
        requires
            self.wf(),
        ensures
            match r {
                Option::Some(pid) => exists|k: int|
                    0 <= k < PROCESS_SLOTS && (#[trigger] self.view()[k]) is Some
                        && self.view()[k]->0.spec_state() == ProcessState::Ready
                        && self.view()[k]->0.spec_pid() == pid && forall|j: int|
                        0 <= j < k && (#[trigger] self.view()[j]) is Some ==> self.view()[j]->0.spec_state() != ProcessState::Ready,
                Option::None => forall|k: int|
                    0 <= k < PROCESS_SLOTS && (#[trigger] self.view()[k]) is Some
                        ==> self.view()[k]->0.spec_state() != ProcessState::Ready,
            },
    {
        let mut k: usize = 0;
        while k < PROCESS_SLOTS
            invariant
                self.wf(),
                k <= PROCESS_SLOTS,
                forall|j: int|
                    0 <= j < k && (#[trigger] self.view()[j]) is Some ==> self.view()[
                        j]->0.spec_state() != ProcessState::Ready,
            decreases PROCESS_SLOTS - k,
        {
            match &self.slots[k] {
                Option::Some(p) => {
                    if p.state() == ProcessState::Ready {
                        return Option::Some(p.pid());
                    }
                },
                Option::None => {},
            }
            k = k + 1;
        }
        Option::None
    }
}

/// Set up process management.
pub fn init() {
}

} // verus!
