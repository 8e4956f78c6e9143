//! The per-vCPU exit-handling loop.
//!
//! One thread owns one vCPU.  Executing the vCPU until it yields back to
//! the host is a blocking device operation that lives with the caller; the
//! caller hands the resulting exit event to `Thread::enter`, performs the
//! actions `Thread` asks for (decoding a mailbox block, executing a proxied
//! syscall, installing a mapping into the VM), and feeds the results back.
//! Every decision — dispatch, mailbox ownership, item order, the exit
//! short-circuit, balloon validation — is made and verified here.

use vstd::prelude::*;

use crate::ghcb::{handle_vmgexit, vmgexit_post};
use crate::host_mem::{pages_bytes, HostPages};
use crate::keep::{keep_wf, spec_can_map, spec_free_memslots, Keep};
use crate::vm::VmDevice;
use crate::{Fatal, EINVAL_ERRNO, ENOMEM_ERRNO};

verus! {

/// The well-known I/O port whose 2-byte write carries a mailbox index:
/// the syscall trigger of the mailbox protocol.
pub const KVM_SYSCALL_TRIGGER_PORT: u16 = 0xff;

/// The Linux x86-64 `exit` syscall number.
pub const SYS_EXIT: usize = 60;

/// The Linux x86-64 `exit_group` syscall number.
pub const SYS_EXIT_GROUP: usize = 231;

/// The mailbox block is carved into 64-bit words.
pub const MAILBOX_WORD_LEN: usize = 8;

/// What the caller of the run loop is told to do next.
#[derive(Clone, Copy, Debug, PartialEq, Eq, Structural)]
pub enum Command {
    /// Resume the vCPU.
    Continue,
    /// The guest requested termination with this status code.
    Exit(i32),
}

/// A host-visible vCPU exit, as classified by the virtualization platform.
pub enum VmExit {
    /// The guest wrote `data` to I/O port `port`.
    IoOut { port: u16, data: Vec<u8> },
    /// The guest wrote the GHCB MSR, requesting host protocol service.
    Vmgexit { ghcb_msr: u64, error: u8 },
    /// Any other exit reason: fatal, no recovery is attempted.
    Other,
}

/// An item found in a mailbox block.
#[derive(Clone, Copy, Debug)]
pub enum Item {
    /// A system call to pass through to the host.
    Syscall { num: usize, argv: [usize; 6], ret: [usize; 2] },
    /// A host-implemented call.
    Enarxcall { num: EnarxCall, argv: [usize; 4], ret: usize },
    /// A debug-protocol call.
    Gdbcall,
}

/// The host-implemented calls this core intercepts, and the rest.
#[derive(Clone, Copy, Debug, PartialEq, Eq, Structural)]
pub enum EnarxCall {
    /// Report the free memory-slot count.
    MemInfo,
    /// Allocate host memory and map it into the guest.
    BalloonMemory,
    /// Anything else: forwarded to the guest personality.
    Other,
}

/// What `enter` asks the caller to do.
#[derive(Clone, Copy, Debug, PartialEq, Eq, Structural)]
pub enum Step {
    /// The exit was handled; resume the vCPU.
    Continue,
    /// A mailbox was claimed: decode the block of `len_words` words at
    /// host address `block_virt` and hand the items to `begin_items`.
    NeedItems { block_virt: usize, len_words: usize },
}

/// What `proxy_step` asks the caller to do for the current item.
#[derive(Clone, Copy, Debug, PartialEq, Eq, Structural)]
pub enum ProxyAction {
    /// Execute the syscall item at `idx` through the host executor.
    ExecuteSyscall { idx: usize },
    /// Forward the debug call at `idx` to the debug bridge.
    ExecuteGdb { idx: usize },
    /// A debug call with no active bridge: ignored.
    SkippedGdb { idx: usize },
    /// Forward the host call at `idx` to the guest personality.
    Personality { idx: usize },
    /// Write `value` into the return field of the item at `idx`.
    WriteRet { idx: usize, value: usize },
    /// Install the pending balloon mapping into the VM at `guest_addr`,
    /// then report the outcome to `balloon_done`.
    MapIntoVm { guest_addr: u64, length: usize, private: bool, userspace_addr: usize },
    /// The pass is over; the mailbox was restored unless the guest exited.
    Finished(Command),
}

/// An allocated balloon mapping waiting to be installed into the VM.
pub struct PendingBalloon {
    /// The allocated host memory.
    pub backing: HostPages,
    /// Guest-physical address it is to appear at.
    pub guest_addr: u64,
    /// Length in bytes.
    pub length: usize,
    /// Requested confidentiality attribute.
    pub private: bool,
    /// Host address of the allocation.
    pub userspace_addr: usize,
}

/// Where a thread stands in its exit-handling pass.
pub enum ThreadState {
    /// Ready to run the vCPU.
    Idle,
    /// A mailbox was claimed; its items are being decoded by the caller.
    AwaitingItems { block_nr: usize, block_virt: usize },
    /// Walking the items of mailbox `block_nr`, next at `idx`.
    Proxying { block_nr: usize, block_virt: usize, items: Vec<Item>, idx: usize },
    /// A balloon allocation awaits its VM mapping before `idx` completes.
    AwaitingVmMap {
        block_nr: usize,
        block_virt: usize,
        items: Vec<Item>,
        idx: usize,
        pending: PendingBalloon,
    },
    /// The guest exited; the thread is done.
    Finished,
}

/// One executing vCPU: it owns exactly one vCPU handle for its lifetime and
/// returns it to the pool through `retire`.
pub struct Thread {
    /// The owned vCPU handle.
    pub vcpu_fd: u64,
    /// Whether a debug bridge is attached.
    pub gdb_available: bool,
    /// Progress through the current exit-handling pass.
    pub state: ThreadState,
}

/// The arguments of a balloon request are acceptable: the requested page
/// size is the host's own, and the guest address is aligned to it.
pub open spec fn balloon_args_valid(k: Keep, log2: usize, addr: usize) -> bool {
    &&& (log2 as u64) < 64
    &&& (1u64 << (log2 as u64)) == k.host_page_size as u64
    &&& (addr as u64) % (1u64 << (log2 as u64)) == 0
}

/// The two's-complement encoding `-e` of a positive error code, as placed
/// in a mailbox item's return field.
pub open spec fn neg_errno(e: i32) -> usize
    recommends
        e > 0,
{
    (usize::MAX - e + 1) as usize
}

/// The whole-pass mailbox law, as one statement: a pass over mailbox `nr`
/// holding block `v` is in progress — the thread carries `(nr, v)` and the
/// slot stands empty, claimed by this thread alone.  `enter` establishes
/// it when it takes the mailbox; `begin_items`, every non-finishing
/// `proxy_step` and `balloon_done` preserve it; and the pass ends in
/// exactly three ways: `proxy_step` exhausting the items restores
/// `Some(v)`, an exit syscall leaves the slot empty deliberately (the
/// thread terminates), and `fail_pass` restores `Some(v)` before an
/// execution error propagates.
pub open spec fn pass_claims(t: Thread, k: Keep, nr: int, v: usize) -> bool {
    &&& (t.state is AwaitingItems || t.state is Proxying || t.state is AwaitingVmMap)
    &&& t.block_nr() == nr
    &&& t.block_virt() == v
    &&& 0 <= nr < k.sallyports@.len()
    &&& k.sallyports@[nr] is None
}

impl Thread {
    /// The mailbox index of the pass in progress.
    pub open spec fn block_nr(&self) -> int {
        match self.state {
            ThreadState::AwaitingItems { block_nr, .. } => block_nr as int,
            ThreadState::Proxying { block_nr, .. } => block_nr as int,
            ThreadState::AwaitingVmMap { block_nr, .. } => block_nr as int,
            _ => 0,
        }
    }

    /// The mailbox block address of the pass in progress.
    pub open spec fn block_virt(&self) -> usize {
        match self.state {
            ThreadState::AwaitingItems { block_virt, .. } => block_virt,
            ThreadState::Proxying { block_virt, .. } => block_virt,
            ThreadState::AwaitingVmMap { block_virt, .. } => block_virt,
            _ => 0,
        }
    }

    /// The items of the pass in progress.
    pub open spec fn items(&self) -> Seq<Item> {
        match self.state {
            ThreadState::Proxying { items, .. } => items@,
            ThreadState::AwaitingVmMap { items, .. } => items@,
            _ => Seq::empty(),
        }
    }

    /// The index of the next item to process.
    pub open spec fn idx(&self) -> int {
        match self.state {
            ThreadState::Proxying { idx, .. } => idx as int,
            ThreadState::AwaitingVmMap { idx, .. } => idx as int,
            _ => 0,
        }
    }

    /// Takes one idle vCPU from the pool, or reports that none is left
    /// (a signal to the spawner, not an error).
    pub fn spawn(keep: &mut Keep, gdb_available: bool) -> (r: Option<Thread>)
        ensures
            final(keep).max_memslots == old(keep).max_memslots,
            final(keep).host_page_size == old(keep).host_page_size,
            final(keep).regions == old(keep).regions,
            final(keep).sallyports == old(keep).sallyports,
            final(keep).sallyport_block_size == old(keep).sallyport_block_size,
            match r {
                Some(t) => {
                    &&& old(keep).vcpu_pool@.len() > 0
                    &&& t.vcpu_fd == old(keep).vcpu_pool@.last()
                    &&& final(keep).vcpu_pool@ == old(keep).vcpu_pool@.subrange(
                        0,
                        old(keep).vcpu_pool@.len() - 1,
                    )
                    &&& t.state is Idle
                    &&& t.gdb_available == gdb_available
                },
                None => {
                    &&& old(keep).vcpu_pool@.len() == 0
                    &&& final(keep).vcpu_pool@ == old(keep).vcpu_pool@
                },
            },
    {
        match keep.checkout_vcpu() {
            Some(fd) => Some(Thread { vcpu_fd: fd, gdb_available, state: ThreadState::Idle }),
            None => None,
        }
    }

    /// Returns this thread's vCPU handle to the pool: the sole path by
    /// which handles re-enter it, taken exactly once, at teardown.
    pub fn retire(self, keep: &mut Keep)
        ensures
            final(keep).max_memslots == old(keep).max_memslots,
            final(keep).host_page_size == old(keep).host_page_size,
            final(keep).regions == old(keep).regions,
            final(keep).sallyports == old(keep).sallyports,
            final(keep).sallyport_block_size == old(keep).sallyport_block_size,
            final(keep).vcpu_pool@ == old(keep).vcpu_pool@.push(self.vcpu_fd),
    {
        keep.checkin_vcpu(self.vcpu_fd);
    }

    /// Free memory slots, as reported to the guest by a meminfo call.
    pub fn meminfo(&self, keep: &Keep) -> (r: Result<usize, i32>)
        requires
            keep_wf(*keep),
        ensures
            r == Ok::<usize, i32>((keep.max_memslots - keep.regions@.len()) as usize),
    {
        Ok(keep.count_free_memslots())
    }

    /// Validates a balloon request and, when it is acceptable, allocates
    /// the host memory for it.  A wrong page size or a misaligned address
    /// is answered with `EINVAL` before anything is allocated; a request
    /// whose total byte count cannot be represented is answered with
    /// `ENOMEM`.
    pub fn balloon(&self, keep: &Keep, log2: usize, npgs: usize, addr: usize) -> (r: Result<
        HostPages,
        i32,
    >)
        ensures
            !balloon_args_valid(*keep, log2, addr) ==> r === Err(EINVAL_ERRNO),
            balloon_args_valid(*keep, log2, addr) && keep.host_page_size * npgs > usize::MAX
                ==> r === Err(ENOMEM_ERRNO),
            balloon_args_valid(*keep, log2, addr) && keep.host_page_size * npgs <= usize::MAX
                ==> match r {
                Ok(m) => pages_bytes(m).len() == keep.host_page_size * npgs,
                Err(e) => e > 0,
            },
    {
        let sh = log2 as u64;
        if sh >= 64 {
            return Err(EINVAL_ERRNO);
        }
        let size = 1u64 << sh;
        if size != keep.host_page_size as u64 {
            return Err(EINVAL_ERRNO);
        }
        proof {
            assert(1u64 << sh != 0u64) by (bit_vector)
                requires
                    sh < 64u64,
            ;
        }
        if (addr as u64) % size != 0 {
            return Err(EINVAL_ERRNO);
        }
        let total: usize = if npgs == 0 {
            0
        } else {
            if keep.host_page_size > usize::MAX / npgs {
                proof {
                    assert(keep.host_page_size * npgs > usize::MAX) by (nonlinear_arith)
                        requires
                            npgs > 0,
                            keep.host_page_size > usize::MAX / npgs,
                    ;
                }
                return Err(ENOMEM_ERRNO);
            }
            proof {
                assert(keep.host_page_size * npgs <= usize::MAX) by (nonlinear_arith)
                    requires
                        npgs > 0,
                        keep.host_page_size <= usize::MAX / npgs,
                ;
            }
            keep.host_page_size * npgs
        };
        HostPages::anonymous(total)
    }

    /// Handles one vCPU exit.  A write of a two-byte mailbox index to the
    /// syscall-trigger port claims that mailbox and asks the caller for its
    /// items; a GHCB MSR write is handled in place; anything else is fatal.
    pub fn enter(&mut self, keep: &mut Keep, vm: &mut VmDevice, exit: VmExit) -> (r: Result<
        Step,
        Fatal,
    >)
        requires
            old(self).state is Idle,
            keep_wf(*old(keep)),
        ensures
            keep_wf(*final(keep)),
            final(self).vcpu_fd == old(self).vcpu_fd,
            final(self).gdb_available == old(self).gdb_available,
            final(vm).backed() == old(vm).backed(),
            final(keep).max_memslots == old(keep).max_memslots,
            final(keep).host_page_size == old(keep).host_page_size,
            final(keep).sallyport_block_size == old(keep).sallyport_block_size,
            final(keep).vcpu_pool == old(keep).vcpu_pool,
            match exit {
                VmExit::IoOut { port, data } => {
                    &&& final(vm).requests() == old(vm).requests()
                    &&& final(keep).regions == old(keep).regions
                    &&& if port != KVM_SYSCALL_TRIGGER_PORT {
                        r === Err(Fatal::UnimplementedExit) && *final(self) == *old(self) && *final(keep) == *old(keep)
                    } else if data@.len() != 2 {
                        r === Err(Fatal::MalformedTrigger) && *final(self) == *old(self) && *final(keep) == *old(keep)
                    } else {
                        let nr = data@[0] as int + data@[1] as int * 256;
                        if nr < old(keep).sallyports@.len() && old(keep).sallyports@[nr] is Some {
                            &&& r === Ok(
                                Step::NeedItems {
                                    block_virt: old(keep).sallyports@[nr]->0,
                                    len_words: (old(keep).sallyport_block_size
                                        / MAILBOX_WORD_LEN as usize),
                                },
                            )
                            &&& final(keep).sallyports@ == old(keep).sallyports@.update(
                                nr,
                                None::<usize>,
                            )
                            &&& final(self).state == (ThreadState::AwaitingItems {
                                block_nr: nr as usize,
                                block_virt: old(keep).sallyports@[nr]->0,
                            })
                            &&& pass_claims(
                                *final(self),
                                *final(keep),
                                nr,
                                old(keep).sallyports@[nr]->0,
                            )
                        } else {
                            r === Err(Fatal::MailboxUnavailable) && *final(self) == *old(self)
                                && *final(keep) == *old(keep)
                        }
                    }
                },
                VmExit::Vmgexit { ghcb_msr, error } => {
                    &&& final(keep).sallyports == old(keep).sallyports
                    &&& final(self).state is Idle
                    &&& match r {
                        Ok(s) => s == Step::Continue && vmgexit_post(
                            *old(keep),
                            *final(keep),
                            *old(vm),
                            *final(vm),
                            ghcb_msr,
                            Ok(()),
                        ),
                        Err(f) => vmgexit_post(
                            *old(keep),
                            *final(keep),
                            *old(vm),
                            *final(vm),
                            ghcb_msr,
                            Err(f),
                        ),
                    }
                },
                VmExit::Other => r === Err(Fatal::UnimplementedExit) && *final(self) == *old(self)
                    && *final(keep) == *old(keep) && final(vm).requests() == old(vm).requests(),
            },
    {
        match exit {
            VmExit::IoOut { port, data } => {
                if port != KVM_SYSCALL_TRIGGER_PORT {
                    return Err(Fatal::UnimplementedExit);
                }
                if data.len() != 2 {
                    return Err(Fatal::MalformedTrigger);
                }
                let nr = data[0] as usize + (data[1] as usize) * 256;
                let virt = match keep.take_mailbox(nr) {
                    Ok(v) => v,
                    Err(f) => {
                        return Err(f);
                    },
                };
                self.state = ThreadState::AwaitingItems { block_nr: nr, block_virt: virt };
                Ok(Step::NeedItems {
                    block_virt: virt,
                    len_words: keep.sallyport_block_size / MAILBOX_WORD_LEN,
                })
            },
            VmExit::Vmgexit { ghcb_msr, error } => {
                match handle_vmgexit(keep, vm, ghcb_msr, error) {
                    Ok(_) => Ok(Step::Continue),
                    Err(f) => Err(f),
                }
            },
            VmExit::Other => Err(Fatal::UnimplementedExit),
        }
    }

    /// Hands the decoded mailbox items to the thread; processing starts at
    /// the first item.
    pub fn begin_items(&mut self, items: Vec<Item>)
        requires
            old(self).state is AwaitingItems,
        ensures
            final(self).vcpu_fd == old(self).vcpu_fd,
            final(self).gdb_available == old(self).gdb_available,
            final(self).state == (ThreadState::Proxying {
                block_nr: old(self).block_nr() as usize,
                block_virt: old(self).block_virt(),
                items,
                idx: 0,
            }),
            forall|k: Keep, nr: int, v: usize|
                #[trigger] pass_claims(*old(self), k, nr, v) ==> pass_claims(*final(self), k, nr, v),
    {
        match &self.state {
            ThreadState::AwaitingItems { block_nr, block_virt } => {
                let nr = *block_nr;
                let virt = *block_virt;
                self.state = ThreadState::Proxying { block_nr: nr, block_virt: virt, items, idx: 0 };
            },
            _ => {},
        }
    }

    /// Processes the next mailbox item, strictly in stored order.  An
    /// `exit`/`exit_group` syscall ends the pass at once with the guest's
    /// status, leaving the mailbox unrestored (the thread terminates);
    /// meminfo and balloon are answered locally; everything else is handed
    /// to the caller to perform.  When the items are exhausted the mailbox
    /// is restored with the very block it held before the pass.
    pub fn proxy_step(&mut self, keep: &mut Keep) -> (act: ProxyAction)
        requires
            old(self).state is Proxying,
            old(self).block_nr() < old(keep).sallyports@.len(),
            keep_wf(*old(keep)),
        ensures
            keep_wf(*final(keep)),
            final(self).vcpu_fd == old(self).vcpu_fd,
            final(self).gdb_available == old(self).gdb_available,
            final(keep).max_memslots == old(keep).max_memslots,
            final(keep).host_page_size == old(keep).host_page_size,
            final(keep).regions == old(keep).regions,
            final(keep).sallyport_block_size == old(keep).sallyport_block_size,
            final(keep).vcpu_pool == old(keep).vcpu_pool,
            !(act matches ProxyAction::Finished(_)) ==> forall|nr: int, v: usize|
                #[trigger] pass_claims(*old(self), *old(keep), nr, v) ==> pass_claims(
                    *final(self),
                    *final(keep),
                    nr,
                    v,
                ),
            ({
                let items = old(self).items();
                let i = old(self).idx();
                let nr = old(self).block_nr();
                let virt = old(self).block_virt();
                if i >= items.len() {
                    &&& act == ProxyAction::Finished(Command::Continue)
                    &&& final(self).state is Idle
                    &&& final(keep).sallyports@ == old(keep).sallyports@.update(nr, Some(virt))
                } else {
                    match items[i] {
                        Item::Syscall { num, argv, .. } => {
                            if num == SYS_EXIT || num == SYS_EXIT_GROUP {
                                &&& act == ProxyAction::Finished(Command::Exit(argv[0] as i32))
                                &&& final(self).state is Finished
                                &&& *final(keep) == *old(keep)
                            } else {
                                &&& act == (ProxyAction::ExecuteSyscall { idx: i as usize })
                                &&& self_advanced_to(*old(self), *final(self), i + 1)
                                &&& *final(keep) == *old(keep)
                            }
                        },
                        Item::Gdbcall => {
                            &&& (old(self).gdb_available ==> act == (ProxyAction::ExecuteGdb {
                                idx: i as usize,
                            }))
                            &&& (!old(self).gdb_available ==> act == (ProxyAction::SkippedGdb {
                                idx: i as usize,
                            }))
                            &&& self_advanced_to(*old(self), *final(self), i + 1)
                            &&& *final(keep) == *old(keep)
                        },
                        Item::Enarxcall { num, argv, .. } => {
                            if num == EnarxCall::MemInfo {
                                &&& act == (ProxyAction::WriteRet {
                                    idx: i as usize,
                                    value: spec_free_memslots(*old(keep)) as usize,
                                })
                                &&& self_advanced_to(*old(self), *final(self), i + 1)
                                &&& *final(keep) == *old(keep)
                            } else if num == EnarxCall::BalloonMemory {
                                &&& *final(keep) == *old(keep)
                                &&& if !balloon_args_valid(*old(keep), argv[0], argv[2]) {
                                    act == (ProxyAction::WriteRet {
                                        idx: i as usize,
                                        value: neg_errno(EINVAL_ERRNO),
                                    }) && self_advanced_to(*old(self), *final(self), i + 1)
                                } else if old(keep).host_page_size * argv[1] > usize::MAX {
                                    act == (ProxyAction::WriteRet {
                                        idx: i as usize,
                                        value: neg_errno(ENOMEM_ERRNO),
                                    }) && self_advanced_to(*old(self), *final(self), i + 1)
                                } else {
                                    match act {
                                        ProxyAction::WriteRet { idx, value } => idx == i
                                            && self_advanced_to(*old(self), *final(self), i + 1)
                                            && (exists|e: i32| e > 0 && value == #[trigger] neg_errno(e)),
                                        ProxyAction::MapIntoVm {
                                            guest_addr,
                                            length,
                                            private,
                                            userspace_addr,
                                        } => {
                                            &&& guest_addr == argv[2] as u64
                                            &&& length == old(keep).host_page_size * argv[1]
                                            &&& private == (argv[3] != 0)
                                            &&& final(self).state matches ThreadState::AwaitingVmMap {
                                                block_nr: nr2,
                                                block_virt: virt2,
                                                items: items2,
                                                idx: idx2,
                                                pending,
                                            } && nr2 == nr && virt2 == virt && items2@ == items
                                                && idx2 == i && pending.guest_addr == guest_addr
                                                && pending.length == length && pending.private
                                                == private && pages_bytes(pending.backing).len()
                                                == length
                                        },
                                        _ => false,
                                    }
                                }
                            } else {
                                &&& act == (ProxyAction::Personality { idx: i as usize })
                                &&& self_advanced_to(*old(self), *final(self), i + 1)
                                &&& *final(keep) == *old(keep)
                            }
                        },
                    }
                }
            }),
    {
        let (nr, virt, items, idx) = match &self.state {
            ThreadState::Proxying { block_nr, block_virt, items, idx } => (
                *block_nr,
                *block_virt,
                items,
                *idx,
            ),
            _ => {
                return ProxyAction::Finished(Command::Continue);
            },
        };
        if idx >= items.len() {
            keep.replace_mailbox(nr, virt);
            self.state = ThreadState::Idle;
            return ProxyAction::Finished(Command::Continue);
        }
        let item = items[idx];
        match item {
            Item::Syscall { num, argv, .. } => {
                if num == SYS_EXIT || num == SYS_EXIT_GROUP {
                    self.state = ThreadState::Finished;
                    #[verifier::truncate]
                    let status = argv[0] as i32;
                    ProxyAction::Finished(Command::Exit(status))
                } else {
                    self.advance();
                    ProxyAction::ExecuteSyscall { idx }
                }
            },
            Item::Gdbcall => {
                let avail = self.gdb_available;
                self.advance();
                if avail {
                    ProxyAction::ExecuteGdb { idx }
                } else {
                    ProxyAction::SkippedGdb { idx }
                }
            },
            Item::Enarxcall { num, argv, .. } => {
                match num {
                    EnarxCall::MemInfo => {
                        let value = keep.count_free_memslots();
                        self.advance();
                        ProxyAction::WriteRet { idx, value }
                    },
                    EnarxCall::BalloonMemory => {
                        match self.balloon(keep, argv[0], argv[1], argv[2]) {
                            Ok(backing) => {
                                let userspace_addr = backing.host_addr();
                                let length = backing.len();
                                let guest_addr = argv[2] as u64;
                                let private = argv[3] != 0;
                                let mut taken = ThreadState::Idle;
                                core::mem::swap(&mut self.state, &mut taken);
                                let my_items = match taken {
                                    ThreadState::Proxying { items, .. } => items,
                                    _ => Vec::new(),
                                };
                                self.state = ThreadState::AwaitingVmMap {
                                    block_nr: nr,
                                    block_virt: virt,
                                    items: my_items,
                                    idx,
                                    pending: PendingBalloon {
                                        backing,
                                        guest_addr,
                                        length,
                                        private,
                                        userspace_addr,
                                    },
                                };
                                ProxyAction::MapIntoVm {
                                    guest_addr,
                                    length,
                                    private,
                                    userspace_addr,
                                }
                            },
                            Err(e) => {
                                self.advance();
                                let value = usize::MAX - (e as usize) + 1;
                                proof {
                                    assert(value == neg_errno(e));
                                }
                                ProxyAction::WriteRet { idx, value }
                            },
                        }
                    },
                    EnarxCall::Other => {
                        self.advance();
                        ProxyAction::Personality { idx }
                    },
                }
            },
        }
    }

    /// Moves past the item just handled.
    fn advance(&mut self)
        requires
            old(self).state is Proxying,
            old(self).idx() + 1 <= usize::MAX,
        ensures
            final(self).vcpu_fd == old(self).vcpu_fd,
            final(self).gdb_available == old(self).gdb_available,
            self_advanced_to(*old(self), *final(self), old(self).idx() + 1),
    {
        let mut taken = ThreadState::Idle;
        core::mem::swap(&mut self.state, &mut taken);
        match taken {
            ThreadState::Proxying { block_nr, block_virt, items, idx } => {
                self.state = ThreadState::Proxying {
                    block_nr,
                    block_virt,
                    items,
                    idx: idx + 1,
                };
            },
            _ => {},
        }
    }

    /// Completes a balloon item once the caller attempted the VM mapping.
    /// On success the region is registered in the keep and the guest gets
    /// the host address of the allocation; on any failure it gets the
    /// negated error code, and the allocation is released.
    pub fn balloon_done(&mut self, keep: &mut Keep, map_result: Result<(), i32>) -> (act:
        ProxyAction)
        requires
            old(self).state is AwaitingVmMap,
            old(self).idx() + 1 <= usize::MAX,
            keep_wf(*old(keep)),
            map_result matches Err(e) ==> e > 0,
        ensures
            keep_wf(*final(keep)),
            final(self).vcpu_fd == old(self).vcpu_fd,
            final(self).gdb_available == old(self).gdb_available,
            final(keep).max_memslots == old(keep).max_memslots,
            final(keep).host_page_size == old(keep).host_page_size,
            final(keep).sallyports == old(keep).sallyports,
            final(keep).sallyport_block_size == old(keep).sallyport_block_size,
            final(keep).vcpu_pool == old(keep).vcpu_pool,
            self_advanced_to(*old(self), *final(self), old(self).idx() + 1),
            forall|nr: int, v: usize|
                #[trigger] pass_claims(*old(self), *old(keep), nr, v) ==> pass_claims(
                    *final(self),
                    *final(keep),
                    nr,
                    v,
                ),
            ({
                let pending_addr = old(self).pending_guest_addr();
                let i = old(self).idx();
                match map_result {
                    Err(e) => act == (ProxyAction::WriteRet {
                        idx: i as usize,
                        value: neg_errno(e),
                    }) && final(keep).regions == old(keep).regions,
                    Ok(_) => {
                        let backing = old(self).pending_backing();
                        if spec_can_map(*old(keep), backing, pending_addr) {
                            &&& final(keep).regions@.len() == old(keep).regions@.len() + 1
                            &&& final(keep).regions@.last().guest_phys_addr == pending_addr
                            &&& final(keep).regions@.last().memory_size == pages_bytes(
                                backing,
                            ).len()
                            &&& final(keep).regions@.last().backing == backing
                            &&& act == (ProxyAction::WriteRet {
                                idx: i as usize,
                                value: final(keep).regions@.last().userspace_addr,
                            })
                        } else {
                            &&& final(keep).regions == old(keep).regions
                            &&& (act == (ProxyAction::WriteRet {
                                idx: i as usize,
                                value: neg_errno(EINVAL_ERRNO),
                            }) || act == (ProxyAction::WriteRet {
                                idx: i as usize,
                                value: neg_errno(ENOMEM_ERRNO),
                            }))
                        }
                    },
                }
            }),
    {
        let mut taken = ThreadState::Idle;
        core::mem::swap(&mut self.state, &mut taken);
        let (nr, virt, my_items, idx, pending) = match taken {
            ThreadState::AwaitingVmMap { block_nr, block_virt, items, idx, pending } => (
                block_nr,
                block_virt,
                items,
                idx,
                pending,
            ),
            _ => {
                return ProxyAction::Finished(Command::Continue);
            },
        };
        self.state = ThreadState::Proxying { block_nr: nr, block_virt: virt, items: my_items, idx: idx + 1 };
        match map_result {
            Err(e) => {
                let value = usize::MAX - (e as usize) + 1;
                ProxyAction::WriteRet { idx, value }
            },
            Ok(_) => {
                match keep.map_region(pending.backing, pending.guest_addr, pending.private) {
                    Ok(addr) => ProxyAction::WriteRet { idx, value: addr },
                    Err(e) => {
                        let value = usize::MAX - (e as usize) + 1;
                        ProxyAction::WriteRet { idx, value }
                    },
                }
            },
        }
    }

    /// Ends the pass after the execution of an item failed fatally in the
    /// caller's hands (the syscall executor, the debug bridge or the
    /// personality handler).  The mailbox slot is restored with the very
    /// block it held, before the error propagates: the slot must not stay
    /// empty merely because a pass was cut short.
    pub fn fail_pass(&mut self, keep: &mut Keep)
        requires
            old(self).state is AwaitingItems || old(self).state is Proxying || old(
                self,
            ).state is AwaitingVmMap,
            old(self).block_nr() < old(keep).sallyports@.len(),
        ensures
            final(self).vcpu_fd == old(self).vcpu_fd,
            final(self).gdb_available == old(self).gdb_available,
            final(self).state is Idle,
            final(keep).max_memslots == old(keep).max_memslots,
            final(keep).host_page_size == old(keep).host_page_size,
            final(keep).regions == old(keep).regions,
            final(keep).sallyport_block_size == old(keep).sallyport_block_size,
            final(keep).vcpu_pool == old(keep).vcpu_pool,
            final(keep).sallyports@ == old(keep).sallyports@.update(
                old(self).block_nr(),
                Some(old(self).block_virt()),
            ),
    {
        let (nr, virt) = match &self.state {
            ThreadState::AwaitingItems { block_nr, block_virt } => (*block_nr, *block_virt),
            ThreadState::Proxying { block_nr, block_virt, .. } => (*block_nr, *block_virt),
            ThreadState::AwaitingVmMap { block_nr, block_virt, .. } => (*block_nr, *block_virt),
            _ => {
                return;
            },
        };
        keep.replace_mailbox(nr, virt);
        self.state = ThreadState::Idle;
    }

    /// Guest address of the balloon mapping awaiting installation.
    pub open spec fn pending_guest_addr(&self) -> u64 {
        match self.state {
            ThreadState::AwaitingVmMap { pending, .. } => pending.guest_addr,
            _ => 0,
        }
    }

    /// The allocated memory of the balloon mapping awaiting installation.
    pub open spec fn pending_backing(&self) -> HostPages {
        match self.state {
            ThreadState::AwaitingVmMap { pending, .. } => pending.backing,
            _ => arbitrary(),
        }
    }
}

/// `post` is `pre` with the item cursor moved to `n` and everything else
/// of the pass unchanged.
pub open spec fn self_advanced_to(pre: Thread, post: Thread, n: int) -> bool {
    &&& post.state matches ThreadState::Proxying { block_nr, block_virt, items, idx }
        && block_nr as int == pre.block_nr() && block_virt == pre.block_virt() && items@
        == pre.items() && idx as int == n
}

} // verus!

