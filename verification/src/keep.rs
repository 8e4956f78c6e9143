//! The shared state of a keep: the idle-vCPU pool, the table of mapped
//! guest-physical memory regions, the mailbox slots and the device limits.
//!
//! In the running system this state sits behind a reader/writer lock and the
//! functions here are its critical sections; the lock itself, the device
//! file descriptors and the threads live with the caller.

use vstd::prelude::*;

use crate::host_mem::{pages_bytes, HostPages};
use crate::{Fatal, EINVAL_ERRNO, ENOMEM_ERRNO};

verus! {

/// Host memory registered at a guest-physical address.
pub struct Region {
    /// First guest-physical address the region covers.
    pub guest_phys_addr: u64,
    /// Length of the region in bytes.
    pub memory_size: usize,
    /// Address of the backing memory in the host address space.
    pub userspace_addr: usize,
    /// The backing host mapping.
    pub backing: HostPages,
}

/// A region is well formed when its recorded size is the size of its backing
/// memory, it is not empty, and it does not wrap the guest address space.
pub open spec fn region_wf(r: Region) -> bool {
    &&& r.memory_size == pages_bytes(r.backing).len()
    &&& r.memory_size > 0
    &&& r.guest_phys_addr + r.memory_size <= u64::MAX
}

/// `gpa` lies inside the region.
pub open spec fn region_contains(r: Region, gpa: u64) -> bool {
    r.guest_phys_addr <= gpa < r.guest_phys_addr + r.memory_size
}

/// Two regions cover disjoint guest-physical ranges.
pub open spec fn regions_disjoint(a: Region, b: Region) -> bool {
    ||| a.guest_phys_addr + a.memory_size <= b.guest_phys_addr
    ||| b.guest_phys_addr + b.memory_size <= a.guest_phys_addr
}

/// The shared state container of one keep.
pub struct Keep {
    /// Maximum number of memory slots the device supports.
    pub max_memslots: usize,
    /// The host's page size in bytes.
    pub host_page_size: usize,
    /// Mapped guest memory regions; grows by `map_region`, never shrinks.
    pub regions: Vec<Region>,
    /// Mailbox slots: `Some(addr)` is an idle mailbox block at host address
    /// `addr`; an empty slot is claimed by exactly one running thread.
    pub sallyports: Vec<Option<usize>>,
    /// Size of one mailbox block in bytes.
    pub sallyport_block_size: usize,
    /// Idle vCPU handles; one is taken per spawned thread.
    pub vcpu_pool: Vec<u64>,
}

/// The keep invariant: regions are well formed, pairwise disjoint in
/// guest-physical space, and never outnumber the device's memory slots.
pub open spec fn keep_wf(k: Keep) -> bool {
    &&& forall|i: int| 0 <= i < k.regions@.len() ==> region_wf(#[trigger] k.regions@[i])
    &&& forall|i: int, j: int|
        0 <= i < j < k.regions@.len() ==> regions_disjoint(
            #[trigger] k.regions@[i],
            #[trigger] k.regions@[j],
        )
    &&& k.regions@.len() <= k.max_memslots
}

/// Memory slots still free on the device: the reported maximum minus the
/// slots already holding a region.
pub open spec fn spec_free_memslots(k: Keep) -> int {
    k.max_memslots - k.regions@.len()
}

/// Index of the first region at or after `j` that contains `gpa`.
pub open spec fn spec_find_region_from(rs: Seq<Region>, gpa: u64, j: int) -> Option<int>
    decreases rs.len() - j,
{
    if j < 0 || j >= rs.len() {
        None
    } else if region_contains(rs[j], gpa) {
        Some(j)
    } else {
        spec_find_region_from(rs, gpa, j + 1)
    }
}

/// Index of the first region that contains `gpa`.
pub open spec fn spec_find_region(rs: Seq<Region>, gpa: u64) -> Option<int> {
    spec_find_region_from(rs, gpa, 0)
}

/// When `map_region` succeeds: the backing is not empty, the guest range
/// does not wrap, a memory slot is free, and no mapped region overlaps the
/// new range.
pub open spec fn spec_can_map(k: Keep, backing: HostPages, guest_addr: u64) -> bool {
    &&& pages_bytes(backing).len() > 0
    &&& guest_addr + pages_bytes(backing).len() <= u64::MAX
    &&& k.regions@.len() < k.max_memslots
    &&& forall|j: int|
        0 <= j < k.regions@.len() ==> (#[trigger] k.regions@[j]).guest_phys_addr
            + k.regions@[j].memory_size <= guest_addr || guest_addr + pages_bytes(backing).len()
            <= k.regions@[j].guest_phys_addr
}

impl Keep {
    /// A fresh keep with no mapped regions.
    pub fn new(
        max_memslots: usize,
        host_page_size: usize,
        sallyport_block_size: usize,
        sallyports: Vec<Option<usize>>,
        vcpu_pool: Vec<u64>,
    ) -> (r: Keep)
        ensures
            keep_wf(r),
            r.max_memslots == max_memslots,
            r.host_page_size == host_page_size,
            r.sallyport_block_size == sallyport_block_size,
            r.sallyports == sallyports,
            r.vcpu_pool == vcpu_pool,
            r.regions@.len() == 0,
    {
        Keep {
            max_memslots,
            host_page_size,
            regions: Vec::new(),
            sallyports,
            sallyport_block_size,
            vcpu_pool,
        }
    }

    /// Linear scan for the first region holding `gpa`; `None` means the
    /// guest referenced an unmapped physical address.
    pub fn find_region_containing(&self, gpa: u64) -> (r: Option<usize>)
        requires
            keep_wf(*self),
        ensures
            match r {
                Some(i) => {
                    &&& i < self.regions@.len()
                    &&& region_contains(self.regions@[i as int], gpa)
                    &&& spec_find_region(self.regions@, gpa) == Some(i as int)
                },
                None => {
                    &&& forall|j: int|
                        0 <= j < self.regions@.len() ==> !region_contains(
                            #[trigger] self.regions@[j],
                            gpa,
                        )
                    &&& spec_find_region(self.regions@, gpa) is None
                },
            },
    {
        let n = self.regions.len();
        let mut i: usize = 0;
        while i < n
            invariant
                n == self.regions@.len(),
                i <= n,
                forall|j: int| 0 <= j < i ==> !region_contains(#[trigger] self.regions@[j], gpa),
                spec_find_region(self.regions@, gpa) == spec_find_region_from(
                    self.regions@,
                    gpa,
                    i as int,
                ),
            decreases n - i,
        {
            let reg = &self.regions[i];
            if reg.guest_phys_addr <= gpa && gpa - reg.guest_phys_addr < reg.memory_size as u64 {
                return Some(i);
            }
            i = i + 1;
        }
        None
    }

    /// Copies `len` bytes out of region `i` at `offset`.
    pub fn region_read(&self, i: usize, offset: usize, len: usize) -> (r: Vec<u8>)
        requires
            keep_wf(*self),
            i < self.regions@.len(),
            offset + len <= pages_bytes(self.regions@[i as int].backing).len(),
        ensures
            r@ == pages_bytes(self.regions@[i as int].backing).subrange(
                offset as int,
                offset + len,
            ),
    {
        self.regions[i].backing.read(offset, len)
    }

    /// Overwrites the bytes of region `i` at `offset` with `data`.  Only
    /// that region's backing bytes change; its geometry and every other
    /// part of the keep stay as they were.
    pub fn region_write(&mut self, i: usize, offset: usize, data: &[u8])
        requires
            keep_wf(*old(self)),
            i < old(self).regions@.len(),
            offset + data@.len() <= pages_bytes(old(self).regions@[i as int].backing).len(),
        ensures
            keep_wf(*final(self)),
            final(self).max_memslots == old(self).max_memslots,
            final(self).host_page_size == old(self).host_page_size,
            final(self).sallyports == old(self).sallyports,
            final(self).sallyport_block_size == old(self).sallyport_block_size,
            final(self).vcpu_pool == old(self).vcpu_pool,
            final(self).regions@.len() == old(self).regions@.len(),
            forall|j: int|
                0 <= j < old(self).regions@.len() && j != i ==> final(self).regions@[j] == old(
                    self,
                ).regions@[j],
            final(self).regions@[i as int].guest_phys_addr == old(
                self,
            ).regions@[i as int].guest_phys_addr,
            final(self).regions@[i as int].memory_size == old(
                self,
            ).regions@[i as int].memory_size,
            final(self).regions@[i as int].userspace_addr == old(
                self,
            ).regions@[i as int].userspace_addr,
            pages_bytes(final(self).regions@[i as int].backing) == pages_bytes(
                old(self).regions@[i as int].backing,
            ).subrange(0, offset as int) + data@ + pages_bytes(
                old(self).regions@[i as int].backing,
            ).subrange(offset + data@.len(), pages_bytes(old(self).regions@[i as int].backing).len() as int),
    {
        let ghost rs0 = self.regions@;
        let mut region = self.regions.remove(i);
        region.backing.write(offset, data);
        self.regions.insert(i, region);
        proof {
            assert(self.regions@ =~= rs0.update(i as int, self.regions@[i as int]));
            crate::host_mem::lemma_splice_points(
                pages_bytes(rs0[i as int].backing),
                pages_bytes(self.regions@[i as int].backing),
                offset as int,
                data@,
            );
            assert forall|a: int, b: int|
                0 <= a < b < self.regions@.len() implies regions_disjoint(
                #[trigger] self.regions@[a],
                #[trigger] self.regions@[b],
            ) by {
                assert(regions_disjoint(rs0[a], rs0[b]));
            }
            assert forall|a: int| 0 <= a < self.regions@.len() implies region_wf(
                #[trigger] self.regions@[a],
            ) by {
                assert(region_wf(rs0[a]));
            }
        }
    }

    /// Registers host memory at a guest-physical address.  This is the sole
    /// way regions are added; there is no removal path.  Fails with a
    /// positive error code when the geometry is rejected (overlap, empty or
    /// wrapping range) or no memory slot is free; the caller reports the
    /// code to the guest.  On success, returns the host address of the
    /// backing memory.
    pub fn map_region(&mut self, backing: HostPages, guest_addr: u64, _private: bool) -> (r:
        Result<usize, i32>)
        requires
            keep_wf(*old(self)),
        ensures
            keep_wf(*final(self)),
            final(self).max_memslots == old(self).max_memslots,
            final(self).host_page_size == old(self).host_page_size,
            final(self).sallyports == old(self).sallyports,
            final(self).sallyport_block_size == old(self).sallyport_block_size,
            final(self).vcpu_pool == old(self).vcpu_pool,
            match r {
                Ok(addr) => {
                    &&& final(self).regions@.len() == old(self).regions@.len() + 1
                    &&& final(self).regions@.subrange(0, old(self).regions@.len() as int) == old(
                        self,
                    ).regions@
                    &&& final(self).regions@.last().guest_phys_addr == guest_addr
                    &&& final(self).regions@.last().memory_size == pages_bytes(backing).len()
                    &&& final(self).regions@.last().userspace_addr == addr
                    &&& final(self).regions@.last().backing == backing
                },
                Err(code) => {
                    &&& *final(self) == *old(self)
                    &&& (code == EINVAL_ERRNO || code == ENOMEM_ERRNO)
                },
            },
            r is Ok <==> spec_can_map(*old(self), backing, guest_addr),
    {
        let size_usize = backing.len();
        let size = size_usize as u64;
        if size_usize == 0 {
            return Err(EINVAL_ERRNO);
        }
        if guest_addr > u64::MAX - size {
            return Err(EINVAL_ERRNO);
        }
        if self.regions.len() >= self.max_memslots {
            return Err(ENOMEM_ERRNO);
        }
        let n = self.regions.len();
        let mut i: usize = 0;
        while i < n
            invariant
                n == self.regions@.len(),
                i <= n,
                size == pages_bytes(backing).len(),
                size > 0,
                guest_addr + size <= u64::MAX,
                *self == *old(self),
                keep_wf(*self),
                self.regions@.len() < self.max_memslots,
                forall|j: int| 0 <= j < n ==> region_wf(#[trigger] self.regions@[j]),
                forall|j: int|
                    0 <= j < i ==> (#[trigger] self.regions@[j]).guest_phys_addr
                        + self.regions@[j].memory_size <= guest_addr || guest_addr + size
                        <= self.regions@[j].guest_phys_addr,
            decreases n - i,
        {
            let reg = &self.regions[i];
            let reg_end = reg.guest_phys_addr + reg.memory_size as u64;
            let new_end = guest_addr + size;
            if !(reg_end <= guest_addr || new_end <= reg.guest_phys_addr) {
                return Err(EINVAL_ERRNO);
            }
            i = i + 1;
        }
        let addr = backing.host_addr();
        let region = Region { guest_phys_addr: guest_addr, memory_size: size_usize, userspace_addr: addr, backing };
        self.regions.push(region);
        Ok(addr)
    }

    /// Device-reported maximum memory slots minus the regions already
    /// mapped.
    pub fn count_free_memslots(&self) -> (r: usize)
        requires
            keep_wf(*self),
        ensures
            r == spec_free_memslots(*self),
    {
        self.max_memslots - self.regions.len()
    }

    /// Exclusively claims mailbox `nr`, leaving its slot empty.  An empty
    /// slot or an out-of-range index means another thread already references
    /// the same mailbox: a protocol violation, reported as a distinct fatal
    /// error rather than a crash.
    pub fn take_mailbox(&mut self, nr: usize) -> (r: Result<usize, Fatal>)
        ensures
            final(self).max_memslots == old(self).max_memslots,
            final(self).host_page_size == old(self).host_page_size,
            final(self).regions == old(self).regions,
            final(self).sallyport_block_size == old(self).sallyport_block_size,
            final(self).vcpu_pool == old(self).vcpu_pool,
            match r {
                Ok(addr) => {
                    &&& nr < old(self).sallyports@.len()
                    &&& old(self).sallyports@[nr as int] == Some(addr)
                    &&& final(self).sallyports@ == old(self).sallyports@.update(
                        nr as int,
                        None::<usize>,
                    )
                },
                Err(e) => {
                    &&& e == Fatal::MailboxUnavailable
                    &&& *final(self) == *old(self)
                    &&& (nr >= old(self).sallyports@.len() || old(self).sallyports@[nr as int] is None)
                },
            },
    {
        if nr >= self.sallyports.len() {
            return Err(Fatal::MailboxUnavailable);
        }
        let slot = self.sallyports[nr];
        match slot {
            Some(addr) => {
                self.sallyports.set(nr, None);
                Ok(addr)
            },
            None => Err(Fatal::MailboxUnavailable),
        }
    }

    /// Restores mailbox `nr`, making it available again.
    pub fn replace_mailbox(&mut self, nr: usize, addr: usize)
        requires
            nr < old(self).sallyports@.len(),
        ensures
            final(self).max_memslots == old(self).max_memslots,
            final(self).host_page_size == old(self).host_page_size,
            final(self).regions == old(self).regions,
            final(self).sallyport_block_size == old(self).sallyport_block_size,
            final(self).vcpu_pool == old(self).vcpu_pool,
            final(self).sallyports@ == old(self).sallyports@.update(nr as int, Some(addr)),
    {
        self.sallyports.set(nr, Some(addr));
    }

    /// Removes and returns one idle vCPU handle, or `None` when every vCPU
    /// is running: a signal to the spawner, not an error.
    pub fn checkout_vcpu(&mut self) -> (r: Option<u64>)
        ensures
            final(self).max_memslots == old(self).max_memslots,
            final(self).host_page_size == old(self).host_page_size,
            final(self).regions == old(self).regions,
            final(self).sallyports == old(self).sallyports,
            final(self).sallyport_block_size == old(self).sallyport_block_size,
            match r {
                Some(fd) => {
                    &&& old(self).vcpu_pool@.len() > 0
                    &&& fd == old(self).vcpu_pool@.last()
                    &&& final(self).vcpu_pool@ == old(self).vcpu_pool@.subrange(
                        0,
                        old(self).vcpu_pool@.len() - 1,
                    )
                },
                None => {
                    &&& old(self).vcpu_pool@.len() == 0
                    &&& final(self).vcpu_pool@ == old(self).vcpu_pool@
                },
            },
    {
        self.vcpu_pool.pop()
    }

    /// Returns a vCPU handle to the pool; called exactly once, from thread
    /// teardown.
    pub fn checkin_vcpu(&mut self, fd: u64)
        ensures
            final(self).max_memslots == old(self).max_memslots,
            final(self).host_page_size == old(self).host_page_size,
            final(self).regions == old(self).regions,
            final(self).sallyports == old(self).sallyports,
            final(self).sallyport_block_size == old(self).sallyport_block_size,
            final(self).vcpu_pool@ == old(self).vcpu_pool@.push(fd),
    {
        self.vcpu_pool.push(fd);
    }
}

/// After any successful `map_region` the free-slot count drops by exactly
/// one, so a meminfo query after the mapping returns one less than before.
pub proof fn lemma_free_memslots_after_map(k0: Keep, k1: Keep)
    requires
        k1.max_memslots == k0.max_memslots,
        k1.regions@.len() == k0.regions@.len() + 1,
    ensures
        spec_free_memslots(k1) == spec_free_memslots(k0) - 1,
{
}

} // verus!
