//! Per-vCPU execution core of a confidential-computing keep.
//!
//! The library owns the decisions of the hypervisor-side run loop: dispatch
//! of virtual-machine exits, the syscall-proxy mailbox protocol, and the
//! SEV-SNP GHCB page-state-change protocol.  Host resources that only the
//! operating system or the virtualization device can provide (anonymous
//! memory mappings, the KVM attribute ioctl) are reached through a small set
//! of trusted wrappers; everything that decides, validates or transforms is
//! verified.

use vstd::prelude::*;

pub mod ghcb;
pub mod host_mem;
pub mod keep;
pub mod run_loop;
pub mod sev_cli;
pub mod vm;

verus! {

/// `EINVAL`: invalid argument, as returned to the guest in a mailbox item.
pub const EINVAL_ERRNO: i32 = 22;

/// `ENOMEM`: out of memory.
pub const ENOMEM_ERRNO: i32 = 12;

/// `ENOTSUP`: operation not supported; stands in for an allocation failure
/// whose OS error code is unavailable.
pub const ENOTSUP_ERRNO: i32 = 95;

/// A fatal protocol error: the guest broke a contract it is required to
/// uphold, or requested something this core does not implement.  Any of
/// these aborts the current pass over the vCPU; the caller is expected to
/// tear the keep down.
#[derive(Clone, Copy, Debug, PartialEq, Eq, Structural)]
pub enum Fatal {
    /// A vCPU exit reason this core does not handle.
    UnimplementedExit,
    /// A syscall-trigger write whose payload is not the two-byte mailbox index.
    MalformedTrigger,
    /// The mailbox slot was empty (already claimed) or the index is out of
    /// range: two threads referenced the same mailbox, a protocol violation.
    MailboxUnavailable,
    /// The low twelve bits of the GHCB MSR select no known protocol function.
    UnimplementedGhcbProtocol,
    /// No mapped region contains the nominated GHCB page, or the page is not
    /// wholly inside the region that contains its first byte.
    GhcbNotMapped,
    /// The GHCB `ghcb_usage` field is nonzero.
    GhcbUsage,
    /// The GHCB `protocol_version` field is above 2.
    GhcbProtocolVersion,
    /// A `sw_exit_code` this core does not implement.
    UnimplementedExitCode,
    /// The page-state-change descriptor is not at its fixed place in the
    /// GHCB's shared buffer.
    PscDescMisplaced,
    /// A page-state-change entry asks for a 2 MiB page; only 4 KiB pages are
    /// ever mapped into the guest.
    PscLargePage,
    /// A page-state-change entry carries nonzero page-offset bits.
    PscUnaligned,
    /// The descriptor cursor points past the entry table.
    PscEntryOutOfRange,
    /// The fast-path MSR request carries an operation this core does not
    /// implement.
    UnimplementedPageOperation,
    /// A fast-path page-state change was rejected by the device.
    MsrPageStateChangeFailed,
}

} // verus!
