//! Host memory that backs guest-physical regions.
//!
//! The mapping itself comes from the mmarinus crate.  Its `Map` type cannot
//! be declared to the verifier (the traits bounding its type parameters are
//! not nameable outside that crate), so the mapping is held in a private
//! field of an opaque struct, its byte contents are given a name, and every
//! access the logic needs goes through a trusted wrapper whose contract is
//! stated over that name.
//!
//! A limit of the model: the contracts treat a mapping's bytes as state
//! that this library alone mutates.  A guest writing the same region from
//! another vCPU mid-pass is outside the verified model; the protocol
//! requires the guest to serialise its own accesses to a GHCB page, and
//! the host-side discipline here only has to keep host memory sound.

use vstd::prelude::*;

use crate::ENOTSUP_ERRNO;

verus! {

/// An anonymous read-write host memory mapping.  Dropping it unmaps it.
#[verifier::external_body]
pub struct HostPages {
    map: mmarinus::Map<mmarinus::perms::ReadWrite>,
}

/// The bytes a host mapping holds.
pub uninterp spec fn pages_bytes(m: HostPages) -> Seq<u8>;

impl HostPages {
    /// Relies on mmarinus's builder
    /// (`Map::bytes(len).anywhere().anonymously().with(ReadWrite)`): on
    /// success the new anonymous mapping is exactly `len` bytes long.  A
    /// failure carries the raw OS error code — a positive errno value —
    /// or `ENOTSUP` when none is known.
    #[verifier::external_body]
    pub fn anonymous(len: usize) -> (r: Result<HostPages, i32>)
        ensures
            r matches Ok(m) ==> pages_bytes(m).len() == len,
            r matches Err(e) ==> e > 0,
    {
        match mmarinus::Map::bytes(len).anywhere().anonymously().with(mmarinus::perms::ReadWrite) {
            Ok(map) => Ok(HostPages { map }),
            Err(e) => {
                let code = e.err.raw_os_error().unwrap_or(ENOTSUP_ERRNO);
                Err(if code > 0 { code } else { ENOTSUP_ERRNO })
            },
        }
    }

    /// Relies on mmarinus's `Map::size`: the length of the mapping in bytes.
    #[verifier::external_body]
    pub fn len(&self) -> (r: usize)
        ensures
            r == pages_bytes(*self).len(),
    {
        self.map.size()
    }

    /// Relies on mmarinus's `Map::addr`: the address of the mapping in the
    /// host address space.  Nothing is assumed of the address itself.
    #[verifier::external_body]
    pub fn host_addr(&self) -> usize {
        self.map.addr()
    }

    /// Relies on `Map`'s `Deref` to `[u8]`: copies out the `len` bytes at
    /// `offset`.
    #[verifier::external_body]
    pub fn read(&self, offset: usize, len: usize) -> (r: Vec<u8>)
        requires
            offset + len <= pages_bytes(*self).len(),
        ensures
            r@ == pages_bytes(*self).subrange(offset as int, offset + len),
    {
        self.map[offset..offset + len].to_vec()
    }

    /// Relies on `Map`'s `DerefMut` to `[u8]`: overwrites the bytes at
    /// `offset` with `data`.
    #[verifier::external_body]
    pub fn write(&mut self, offset: usize, data: &[u8])
        requires
            offset + data@.len() <= pages_bytes(*old(self)).len(),
        ensures
            pages_bytes(*final(self)) == pages_bytes(*old(self)).subrange(0, offset as int)
                + data@
                + pages_bytes(*old(self)).subrange(
                    offset + data@.len(),
                    pages_bytes(*old(self)).len() as int,
                ),
    {
        self.map[offset..offset + data.len()].copy_from_slice(data);
    }
}

/// Bytes outside `[lo, hi)` are untouched when a write spliced `data` in at
/// `lo`: the pointwise reading of `HostPages::write`'s contract.
pub proof fn lemma_splice_points(b0: Seq<u8>, b1: Seq<u8>, lo: int, data: Seq<u8>)
    requires
        0 <= lo,
        lo + data.len() <= b0.len(),
        b1 == b0.subrange(0, lo) + data + b0.subrange(lo + data.len(), b0.len() as int),
    ensures
        b1.len() == b0.len(),
        forall|k: int| 0 <= k < lo ==> b1[k] == b0[k],
        forall|k: int| lo + data.len() <= k < b0.len() ==> b1[k] == b0[k],
        forall|k: int| lo <= k < lo + data.len() ==> b1[k] == data[k - lo],
{
}

} // verus!
