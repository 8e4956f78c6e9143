//! The virtual-machine device: the handle through which the confidentiality
//! attribute of guest-physical pages is changed.
//!
//! The device call itself is a KVM ioctl whose outcome depends on the
//! machine, so its wrapper promises nothing of its result; what the core
//! guarantees is recorded in a ghost log of the attribute changes it
//! requested, in order.

use vstd::prelude::*;

verus! {

/// One requested page-attribute transition.
pub struct PageAttrChange {
    /// First guest-physical address of the range.
    pub gpa: u64,
    /// Length of the range in bytes.
    pub size: u64,
    /// `true` asks for private (encrypted, guest-exclusive) pages, `false`
    /// for shared ones.
    pub private: bool,
}

#[verifier::external_type_specification]
#[verifier::external_body]
pub struct ExVmFd(kvm_ioctls::VmFd);

/// Relies on kvm-ioctls's `VmFd::set_memory_attributes`: issues the
/// `KVM_SET_MEMORY_ATTRIBUTES` ioctl marking the range private or shared.
/// Whether the kernel accepts it depends on the machine, so nothing is
/// assumed of the outcome.
#[verifier::external_body]
fn kvm_set_memory_attributes(fd: &kvm_ioctls::VmFd, gpa: u64, size: u64, private: bool) -> (r:
    Result<(), ()>) {
    let attributes = if private {
        kvm_bindings::KVM_MEMORY_ATTRIBUTE_PRIVATE as u64
    } else {
        0
    };
    let attr = kvm_bindings::kvm_memory_attributes { address: gpa, size, attributes, flags: 0 };
    fd.set_memory_attributes(attr).map_err(|_| ())
}

/// The device handle of the whole virtual machine, together with the ghost
/// log of every attribute change requested through it.
pub struct VmDevice {
    fd: Option<kvm_ioctls::VmFd>,
    requested: Ghost<Seq<PageAttrChange>>,
}

impl VmDevice {
    /// Every attribute change requested through this device so far, oldest
    /// first.
    pub closed spec fn requests(&self) -> Seq<PageAttrChange> {
        self.requested@
    }

    /// Whether a virtual machine actually backs this device.
    pub closed spec fn backed(&self) -> bool {
        self.fd is Some
    }

    /// A device driving the given virtual machine.
    pub fn new(fd: kvm_ioctls::VmFd) -> (r: VmDevice)
        ensures
            r.requests() == Seq::<PageAttrChange>::empty(),
            r.backed(),
    {
        VmDevice { fd: Some(fd), requested: Ghost(Seq::empty()) }
    }

    /// A device with no virtual machine behind it: every attribute change is
    /// accepted and only logged.  It stands in wherever no VM is present.
    pub fn unbacked() -> (r: VmDevice)
        ensures
            r.requests() == Seq::<PageAttrChange>::empty(),
            !r.backed(),
    {
        VmDevice { fd: None, requested: Ghost(Seq::empty()) }
    }

    /// The underlying virtual-machine handle, for the device operations
    /// that live with the caller (installing memory regions).
    pub fn device(&self) -> (r: Option<&kvm_ioctls::VmFd>)
        ensures
            r is Some <==> self.backed(),
    {
        self.fd.as_ref()
    }

    /// Requests that the guest-physical range become private or shared.
    /// The request is always logged; whether it succeeds is the device's
    /// decision, except that an unbacked device accepts everything.
    pub fn set_memory_attributes(&mut self, gpa: u64, size: u64, private: bool) -> (r: Result<
        (),
        (),
    >)
        ensures
            final(self).requests() == old(self).requests().push(
                PageAttrChange { gpa, size, private },
            ),
            final(self).backed() == old(self).backed(),
            !old(self).backed() ==> r is Ok,
    {
        let r = match &self.fd {
            Some(fd) => kvm_set_memory_attributes(fd, gpa, size, private),
            None => Ok(()),
        };
        self.requested = Ghost(self.requested@.push(PageAttrChange { gpa, size, private }));
        r
    }
}

} // verus!
