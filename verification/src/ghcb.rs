//! The SEV-SNP guest/host communication protocol: the MSR fast path and the
//! full GHCB page-state-change path.
//!
//! The GHCB is a fixed 4096-byte structure at a guest-nominated
//! guest-physical page; its fields sit at the offsets the AMD specification
//! documents and are read and written in place in the mapped region that
//! backs the page.  Errors come in two tiers: guest-visible ones are
//! written into `sw_exit_info2` and processing returns normally; protocol
//! violations are fatal and abort the pass.

use vstd::bytes::{
    lemma_auto_spec_u16_to_from_le_bytes, lemma_auto_spec_u64_to_from_le_bytes,
    spec_u16_from_le_bytes, spec_u16_to_le_bytes, spec_u32_from_le_bytes, spec_u64_from_le_bytes,
    spec_u64_to_le_bytes, u16_from_le_bytes, u16_to_le_bytes, u32_from_le_bytes, u64_from_le_bytes,
    u64_to_le_bytes,
};
use vstd::prelude::*;

use crate::host_mem::{lemma_splice_points, pages_bytes};
use crate::keep::{keep_wf, spec_find_region, Keep};
use crate::vm::{PageAttrChange, VmDevice};
use crate::Fatal;

verus! {

/// The MSR protocol function announcing the GHCB guest-physical address.
pub const MSR_FUNC_GHCB_GPA: u64 = 0x000;

/// The MSR protocol function of the fast-path page-state-change request.
pub const MSR_FUNC_PAGE_STATE: u64 = 0x014;

/// `sw_exit_code` of a page-state-change request.
pub const GHCB_EXIT_PSC: u64 = 0x8000_0010;

/// Guest-visible code for an attribute change the device rejected.
pub const PSC_ERROR_ATTR: u64 = 0x0000_0100_0000_0000;

/// Guest-visible code for an invalid page-state-change entry.
pub const PSC_ERROR_INVALID_ENTRY: u64 = 0x0000_0001_0000_0002;

/// Bits 12-50 of an MSR value or descriptor entry: the guest-physical page
/// address.
pub const GPA_MASK: u64 = 0x7_ffff_ffff_f000;

/// Length of a 4 KiB page, the only page size ever mapped into the guest.
pub const PAGE_LEN_4K: u64 = 0x1000;

/// Number of entries in a page-state-change descriptor.
pub const PSC_ENTRY_COUNT: usize = 253;

/// Byte offset of `sw_exit_code` inside the GHCB.
pub const SW_EXIT_CODE_OFFSET: usize = 0x390;

/// Byte offset of `sw_exit_info2` inside the GHCB.
pub const SW_EXIT_INFO2_OFFSET: usize = 0x3a0;

/// Byte offset of `sw_scratch` inside the GHCB.
pub const SW_SCRATCH_OFFSET: usize = 0x3a8;

/// Byte offset of the shared buffer inside the GHCB.
pub const SHARED_BUFFER_OFFSET: usize = 0x800;

/// Byte offset of `protocol_version` inside the GHCB.
pub const PROTOCOL_VERSION_OFFSET: usize = 0xffa;

/// Byte offset of `ghcb_usage` inside the GHCB.
pub const GHCB_USAGE_OFFSET: usize = 0xffc;

/// Low twelve bits of the GHCB MSR value: the protocol function code.
pub open spec fn msr_function(msr: u64) -> u64 {
    msr & 0xfff
}

/// The u16 at byte offset `off` of `b`, little endian.
pub open spec fn bytes_u16(b: Seq<u8>, off: int) -> u16 {
    spec_u16_from_le_bytes(b.subrange(off, off + 2))
}

/// The u32 at byte offset `off` of `b`, little endian.
pub open spec fn bytes_u32(b: Seq<u8>, off: int) -> u32 {
    spec_u32_from_le_bytes(b.subrange(off, off + 4))
}

/// The u64 at byte offset `off` of `b`, little endian.
pub open spec fn bytes_u64(b: Seq<u8>, off: int) -> u64 {
    spec_u64_from_le_bytes(b.subrange(off, off + 8))
}

/// `ghcb_usage` of the GHCB whose first byte is at `base` of `b`.
pub open spec fn ghcb_usage_of(b: Seq<u8>, base: int) -> u32 {
    bytes_u32(b, base + GHCB_USAGE_OFFSET)
}

/// `protocol_version` of the GHCB at `base`.
pub open spec fn ghcb_version_of(b: Seq<u8>, base: int) -> u16 {
    bytes_u16(b, base + PROTOCOL_VERSION_OFFSET)
}

/// `sw_exit_code` of the GHCB at `base`.
pub open spec fn ghcb_exit_code_of(b: Seq<u8>, base: int) -> u64 {
    bytes_u64(b, base + SW_EXIT_CODE_OFFSET)
}

/// `sw_exit_info2` of the GHCB at `base`.
pub open spec fn ghcb_exit_info2_of(b: Seq<u8>, base: int) -> u64 {
    bytes_u64(b, base + SW_EXIT_INFO2_OFFSET)
}

/// `sw_scratch` of the GHCB at `base`.
pub open spec fn ghcb_scratch_of(b: Seq<u8>, base: int) -> u64 {
    bytes_u64(b, base + SW_SCRATCH_OFFSET)
}

/// `cur_entry` of the page-state-change descriptor in the shared buffer of
/// the GHCB at `base`.
pub open spec fn ghcb_psc_cur_of(b: Seq<u8>, base: int) -> u16 {
    bytes_u16(b, base + SHARED_BUFFER_OFFSET)
}

/// `end_entry` of the descriptor in the shared buffer of the GHCB at `base`.
pub open spec fn ghcb_psc_end_of(b: Seq<u8>, base: int) -> u16 {
    bytes_u16(b, base + SHARED_BUFFER_OFFSET + 2)
}

/// Entry `j` of the descriptor in the shared buffer of the GHCB at `base`.
pub open spec fn ghcb_psc_entry_of(b: Seq<u8>, base: int, j: int) -> u64 {
    bytes_u64(b, base + SHARED_BUFFER_OFFSET + 8 + 8 * j)
}

/// All 253 entries of the descriptor in the shared buffer at `base`.
pub open spec fn ghcb_psc_entries_of(b: Seq<u8>, base: int) -> Seq<u64> {
    Seq::new(PSC_ENTRY_COUNT as nat, |j: int| ghcb_psc_entry_of(b, base, j))
}

/// Page-offset bits 0-11 of a descriptor entry; they must be zero.
pub open spec fn entry_offset_bits(e: u64) -> u64 {
    e & 0xfff
}

/// Guest-physical page address of a descriptor entry.
pub open spec fn entry_gpa(e: u64) -> u64 {
    e & GPA_MASK
}

/// Operation code, bits 52-55, of a descriptor entry.
pub open spec fn entry_operation(e: u64) -> u64 {
    (e >> 52) & 0xf
}

/// Page-size flag, bit 56, of a descriptor entry; it must be zero (4 KiB).
pub open spec fn entry_page_size(e: u64) -> u64 {
    (e >> 56) & 1
}

/// What one descriptor entry asks for.
#[derive(Clone, Copy, Debug, PartialEq, Eq, Structural)]
pub enum EntryClass {
    /// Mark the page private (encrypted, guest-exclusive).
    Private { gpa: u64 },
    /// Mark the page shared with the host.
    Shared { gpa: u64 },
    /// A PSMASH or UNSMASH hint the host is permitted to ignore.
    Hint,
    /// An operation code this core does not implement: reported to the
    /// guest as an invalid entry.
    Invalid,
    /// A 2 MiB page request: fatal, only 4 KiB pages are ever mapped.
    LargePage,
    /// Nonzero page-offset bits: fatal.
    Unaligned,
}

/// Classification of one raw descriptor entry, in the order the checks are
/// made: page size first, then alignment, then the operation code.
pub open spec fn classify(e: u64) -> EntryClass {
    if entry_page_size(e) != 0 {
        EntryClass::LargePage
    } else if entry_offset_bits(e) != 0 {
        EntryClass::Unaligned
    } else if entry_operation(e) == 1 {
        EntryClass::Private { gpa: entry_gpa(e) }
    } else if entry_operation(e) == 2 {
        EntryClass::Shared { gpa: entry_gpa(e) }
    } else if entry_operation(e) == 3 || entry_operation(e) == 4 {
        EntryClass::Hint
    } else {
        EntryClass::Invalid
    }
}

/// Executable counterpart of `classify`.
pub fn classify_entry(e: u64) -> (c: EntryClass)
    ensures
        c == classify(e),
{
    if (e >> 56) & 1 != 0 {
        EntryClass::LargePage
    } else if e & 0xfff != 0 {
        EntryClass::Unaligned
    } else {
        let op = (e >> 52) & 0xf;
        if op == 1 {
            EntryClass::Private { gpa: e & GPA_MASK }
        } else if op == 2 {
            EntryClass::Shared { gpa: e & GPA_MASK }
        } else if op == 3 || op == 4 {
            EntryClass::Hint
        } else {
            EntryClass::Invalid
        }
    }
}

/// The device request one entry gives rise to: one attribute change for a
/// transition, none for a hint (or an entry that stops processing).
pub open spec fn entry_requests(e: u64) -> Seq<PageAttrChange> {
    match classify(e) {
        EntryClass::Private { gpa } => seq![PageAttrChange { gpa, size: PAGE_LEN_4K, private: true }],
        EntryClass::Shared { gpa } => seq![PageAttrChange { gpa, size: PAGE_LEN_4K, private: false }],
        _ => Seq::empty(),
    }
}

/// The attribute changes requested when entries `from..to` are processed in
/// order and each succeeds.
pub open spec fn psc_requests(entries: Seq<u64>, from: int, to: int) -> Seq<PageAttrChange>
    decreases to - from,
{
    if from >= to {
        Seq::empty()
    } else {
        psc_requests(entries, from, to - 1) + entry_requests(entries[to - 1])
    }
}

/// A range of hint entries requests no attribute change.
pub proof fn lemma_psc_requests_hints(entries: Seq<u64>, from: int, to: int)
    requires
        forall|i: int| from <= i < to ==> (#[trigger] classify(entries[i])) is Hint,
    ensures
        psc_requests(entries, from, to) == Seq::<PageAttrChange>::empty(),
    decreases to - from,
{
    if from < to {
        lemma_psc_requests_hints(entries, from, to - 1);
        assert(entry_requests(entries[to - 1]) == Seq::<PageAttrChange>::empty());
        assert(psc_requests(entries, from, to) =~= Seq::<PageAttrChange>::empty());
    }
}

/// Processing one entry requests exactly that entry's transition:
/// re-running an already-processed entry with the cursor rewound asks the
/// device for the identical change, since processing never alters the
/// entry list.
pub proof fn lemma_psc_requests_single(entries: Seq<u64>, k: int)
    requires
        0 <= k < entries.len(),
    ensures
        psc_requests(entries, k, k + 1) == entry_requests(entries[k]),
{
    assert(psc_requests(entries, k, k) == Seq::<PageAttrChange>::empty());
    assert(psc_requests(entries, k, k + 1) =~= entry_requests(entries[k]));
}

/// The page-state-change descriptor, as decoded from the GHCB's shared
/// buffer: the cursor is the guest-visible partial-progress checkpoint,
/// `end_entry` the inclusive bound, and 253 packed 64-bit entries.
pub struct PscDesc {
    /// Next entry to process; advanced by one after each processed entry.
    pub cur_entry: u16,
    /// Last entry to process, inclusive.
    pub end_entry: u16,
    /// The raw entry list.
    pub entries: Vec<u64>,
}

/// The descriptor holds exactly its fixed number of entries.
pub open spec fn desc_wf(d: PscDesc) -> bool {
    d.entries@.len() == PSC_ENTRY_COUNT
}

/// How descriptor processing ended, short of a fatal error.
#[derive(Clone, Copy, Debug, PartialEq, Eq, Structural)]
pub enum GhcbOutcome {
    /// Every entry up to `end_entry` was processed.
    Completed,
    /// Processing stopped at the current entry; the code is written into
    /// `sw_exit_info2` for the guest to inspect.
    GuestError(u64),
}

/// Walks the descriptor from `cur_entry` to `end_entry` inclusive, strictly
/// in order.  Each transition entry is requested from the device; on
/// success the cursor advances by one, on rejection processing stops with a
/// guest-visible error and the cursor left at the failed entry.  Hints
/// advance the cursor without any device involvement.  An invalid
/// operation stops with `PSC_ERROR_INVALID_ENTRY` and the cursor
/// unchanged at that entry.  A 2 MiB request, nonzero offset bits, or a
/// cursor pointing past the entry table is fatal.
pub fn psc_run(desc: &mut PscDesc, vm: &mut VmDevice) -> (r: Result<GhcbOutcome, Fatal>)
    requires
        desc_wf(*old(desc)),
    ensures
        desc_wf(*final(desc)),
        final(desc).entries == old(desc).entries,
        final(desc).end_entry == old(desc).end_entry,
        old(desc).cur_entry <= final(desc).cur_entry,
        final(vm).backed() == old(vm).backed(),
        forall|j: int|
            old(desc).cur_entry <= j < final(desc).cur_entry ==> j < PSC_ENTRY_COUNT as int && ((
            #[trigger] classify(old(desc).entries@[j])) is Hint || classify(
                old(desc).entries@[j],
            ) is Private || classify(old(desc).entries@[j]) is Shared),
        old(desc).cur_entry > old(desc).end_entry ==> r == Ok::<GhcbOutcome, Fatal>(
            GhcbOutcome::Completed,
        ) && final(desc).cur_entry == old(desc).cur_entry && final(vm).requests() == old(vm).requests(),
        r == Ok::<GhcbOutcome, Fatal>(GhcbOutcome::Completed) ==> {
            &&& final(vm).requests() == old(vm).requests() + psc_requests(
                old(desc).entries@,
                old(desc).cur_entry as int,
                final(desc).cur_entry as int,
            )
            &&& (old(desc).cur_entry <= old(desc).end_entry ==> final(desc).cur_entry == old(desc).end_entry + 1)
        },
        r matches Ok(GhcbOutcome::GuestError(code)) ==> {
            let c = final(desc).cur_entry as int;
            &&& old(desc).cur_entry <= c <= old(desc).end_entry
            &&& c < PSC_ENTRY_COUNT as int
            &&& (code == PSC_ERROR_INVALID_ENTRY || code == PSC_ERROR_ATTR)
            &&& (code == PSC_ERROR_INVALID_ENTRY ==> classify(old(desc).entries@[c]) is Invalid
                && final(vm).requests() == old(vm).requests() + psc_requests(
                old(desc).entries@,
                old(desc).cur_entry as int,
                c,
            ))
            &&& (code == PSC_ERROR_ATTR ==> (classify(old(desc).entries@[c]) is Private || classify(
                old(desc).entries@[c],
            ) is Shared) && old(vm).backed() && final(vm).requests() == old(vm).requests()
                + psc_requests(
                old(desc).entries@,
                old(desc).cur_entry as int,
                c,
            ) + entry_requests(old(desc).entries@[c]))
        },
        r matches Err(f) ==> {
            let c = final(desc).cur_entry as int;
            &&& old(desc).cur_entry <= c <= old(desc).end_entry
            &&& final(vm).requests() == old(vm).requests() + psc_requests(
                old(desc).entries@,
                old(desc).cur_entry as int,
                c,
            )
            &&& ((f == Fatal::PscEntryOutOfRange && c >= PSC_ENTRY_COUNT as int) || (c
                < PSC_ENTRY_COUNT as int && ((f == Fatal::PscLargePage && classify(
                old(desc).entries@[c],
            ) is LargePage) || (f == Fatal::PscUnaligned && classify(
                old(desc).entries@[c],
            ) is Unaligned))))
        },
        old(desc).cur_entry <= old(desc).end_entry && (old(desc).cur_entry as int)
            < PSC_ENTRY_COUNT as int && classify(
            old(desc).entries@[old(desc).cur_entry as int],
        ) is Invalid ==> r == Ok::<GhcbOutcome, Fatal>(
            GhcbOutcome::GuestError(PSC_ERROR_INVALID_ENTRY),
        ) && final(desc).cur_entry == old(desc).cur_entry && final(vm).requests() == old(vm).requests(),
        (forall|i: int|
            old(desc).cur_entry <= i <= old(desc).end_entry ==> i < PSC_ENTRY_COUNT as int && (
            #[trigger] classify(old(desc).entries@[i])) is Hint) ==> r == Ok::<
            GhcbOutcome,
            Fatal,
        >(GhcbOutcome::Completed) && final(vm).requests() == old(vm).requests(),
        !old(vm).backed() && (forall|i: int|
            old(desc).cur_entry <= i <= old(desc).end_entry ==> i < PSC_ENTRY_COUNT as int && ((
            #[trigger] classify(old(desc).entries@[i])) is Hint || classify(
                old(desc).entries@[i],
            ) is Private || classify(old(desc).entries@[i]) is Shared)) ==> r == Ok::<
            GhcbOutcome,
            Fatal,
        >(GhcbOutcome::Completed),
{
    let ghost entries0 = old(desc).entries@;
    let ghost cur0 = old(desc).cur_entry as int;
    let ghost end0 = old(desc).end_entry as int;
    if desc.cur_entry > desc.end_entry {
        proof {
            assert(vm.requests() =~= old(vm).requests() + psc_requests(entries0, cur0, cur0));
        }
        return Ok(GhcbOutcome::Completed);
    }
    while desc.cur_entry <= desc.end_entry
        invariant
            desc_wf(*desc),
            desc.entries == old(desc).entries,
            desc.end_entry == old(desc).end_entry,
            cur0 <= desc.cur_entry as int <= end0 + 1,
            cur0 <= end0,
            entries0 == old(desc).entries@,
            cur0 == old(desc).cur_entry as int,
            end0 == old(desc).end_entry as int,
            vm.backed() == old(vm).backed(),
            vm.requests() == old(vm).requests() + psc_requests(
                entries0,
                cur0,
                desc.cur_entry as int,
            ),
            forall|i: int|
                cur0 <= i < desc.cur_entry as int ==> i < PSC_ENTRY_COUNT as int && ((
                #[trigger] classify(entries0[i])) is Hint || classify(entries0[i]) is Private
                    || classify(entries0[i]) is Shared),
        decreases end0 + 1 - desc.cur_entry as int,
    {
        let cur = desc.cur_entry;
        if cur as usize >= PSC_ENTRY_COUNT {
            proof {
                assert(classify(entries0[cur as int]) == classify(entries0[cur as int]));
            }
            return Err(Fatal::PscEntryOutOfRange);
        }
        let e = desc.entries[cur as usize];
        let class = classify_entry(e);
        match class {
            EntryClass::LargePage => {
                return Err(Fatal::PscLargePage);
            },
            EntryClass::Unaligned => {
                return Err(Fatal::PscUnaligned);
            },
            EntryClass::Invalid => {
                proof {
                    if cur as int == cur0 {
                        assert(psc_requests(entries0, cur0, cur0) == Seq::<
                            PageAttrChange,
                        >::empty());
                        assert(vm.requests() =~= old(vm).requests());
                    }
                }
                return Ok(GhcbOutcome::GuestError(PSC_ERROR_INVALID_ENTRY));
            },
            EntryClass::Hint => {
                proof {
                    assert(entry_requests(entries0[cur as int]) == Seq::<PageAttrChange>::empty());
                    assert(vm.requests() =~= old(vm).requests() + psc_requests(
                        entries0,
                        cur0,
                        cur as int + 1,
                    ));
                }
                desc.cur_entry = cur + 1;
            },
            EntryClass::Private { gpa } => {
                let res = vm.set_memory_attributes(gpa, PAGE_LEN_4K, true);
                proof {
                    assert(entry_requests(entries0[cur as int]) == seq![
                        PageAttrChange { gpa, size: PAGE_LEN_4K, private: true },
                    ]);
                }
                match res {
                    Ok(_) => {
                        proof {
                            assert(vm.requests() =~= old(vm).requests() + psc_requests(
                                entries0,
                                cur0,
                                cur as int + 1,
                            ));
                        }
                        desc.cur_entry = cur + 1;
                    },
                    Err(_) => {
                        proof {
                            assert(vm.requests() =~= old(vm).requests() + psc_requests(
                                entries0,
                                cur0,
                                cur as int,
                            ) + entry_requests(entries0[cur as int]));
                        }
                        return Ok(GhcbOutcome::GuestError(PSC_ERROR_ATTR));
                    },
                }
            },
            EntryClass::Shared { gpa } => {
                let res = vm.set_memory_attributes(gpa, PAGE_LEN_4K, false);
                proof {
                    assert(entry_requests(entries0[cur as int]) == seq![
                        PageAttrChange { gpa, size: PAGE_LEN_4K, private: false },
                    ]);
                }
                match res {
                    Ok(_) => {
                        proof {
                            assert(vm.requests() =~= old(vm).requests() + psc_requests(
                                entries0,
                                cur0,
                                cur as int + 1,
                            ));
                        }
                        desc.cur_entry = cur + 1;
                    },
                    Err(_) => {
                        proof {
                            assert(vm.requests() =~= old(vm).requests() + psc_requests(
                                entries0,
                                cur0,
                                cur as int,
                            ) + entry_requests(entries0[cur as int]));
                        }
                        return Ok(GhcbOutcome::GuestError(PSC_ERROR_ATTR));
                    },
                }
            },
        }
    }
    proof {
        if forall|i: int|
            cur0 <= i <= end0 ==> i < PSC_ENTRY_COUNT as int && (#[trigger] classify(
                entries0[i],
            )) is Hint {
            lemma_psc_requests_hints(entries0, cur0, end0 + 1);
            assert(vm.requests() =~= old(vm).requests());
        }
    }
    Ok(GhcbOutcome::Completed)
}

/// The whole outcome of the fast-path page-state-change request: for
/// operations 1 and 2 exactly one attribute change is requested of the
/// device and the result is success or the device's rejection, with
/// success owed whenever the device accepts everything; any other
/// operation is fatal and requests nothing.
pub open spec fn msr_psc_post(vm0: VmDevice, vm1: VmDevice, ghcb_msr: u64, r: Result<
    (),
    Fatal,
>) -> bool {
    let op = (ghcb_msr >> 52) & 0xf;
    let gpa = ghcb_msr & GPA_MASK;
    &&& vm1.backed() == vm0.backed()
    &&& ((op == 1 || op == 2) ==> {
        &&& vm1.requests() == vm0.requests().push(
            PageAttrChange { gpa, size: PAGE_LEN_4K, private: op == 1 },
        )
        &&& (r is Ok || r == Err::<(), Fatal>(Fatal::MsrPageStateChangeFailed))
        &&& (!vm0.backed() ==> r is Ok)
    })
    &&& (!(op == 1 || op == 2) ==> r == Err::<(), Fatal>(Fatal::UnimplementedPageOperation)
        && vm1.requests() == vm0.requests())
}

/// The fast-path page-state-change request encoded directly in the MSR:
/// a single 4 KiB transition with no descriptor round trip.  Operation 1
/// marks the page private, 2 shared; anything else is fatal, as is a
/// rejection by the device.
///
/// `msr_psc_post` states the whole outcome; the dispatcher and the run
/// loop restate it unchanged.
pub fn handle_msr_page_state_request(vm: &mut VmDevice, ghcb_msr: u64) -> (r: Result<(), Fatal>)
    ensures
        msr_psc_post(*old(vm), *final(vm), ghcb_msr, r),
{
    let gpa = ghcb_msr & GPA_MASK;
    let op = (ghcb_msr >> 52) & 0xf;
    if op == 1 {
        match vm.set_memory_attributes(gpa, PAGE_LEN_4K, true) {
            Ok(_) => Ok(()),
            Err(_) => Err(Fatal::MsrPageStateChangeFailed),
        }
    } else if op == 2 {
        match vm.set_memory_attributes(gpa, PAGE_LEN_4K, false) {
            Ok(_) => Ok(()),
            Err(_) => Err(Fatal::MsrPageStateChangeFailed),
        }
    } else {
        Err(Fatal::UnimplementedPageOperation)
    }
}

/// Equal bytes over a u64 field's window give equal field values.
proof fn lemma_u64_field_eq(b0: Seq<u8>, b1: Seq<u8>, off: int)
    requires
        b1.len() == b0.len(),
        0 <= off,
        off + 8 <= b0.len(),
        forall|k: int| off <= k < off + 8 ==> b1[k] == b0[k],
    ensures
        bytes_u64(b1, off) == bytes_u64(b0, off),
{
    assert(b1.subrange(off, off + 8) =~= b0.subrange(off, off + 8));
}

/// Equal bytes over a u16 field's window give equal field values.
proof fn lemma_u16_field_eq(b0: Seq<u8>, b1: Seq<u8>, off: int)
    requires
        b1.len() == b0.len(),
        0 <= off,
        off + 2 <= b0.len(),
        forall|k: int| off <= k < off + 2 ==> b1[k] == b0[k],
    ensures
        bytes_u16(b1, off) == bytes_u16(b0, off),
{
    assert(b1.subrange(off, off + 2) =~= b0.subrange(off, off + 2));
}

/// The whole outcome of a GHCB request between keep/device states `k0`,
/// `vm0` before and `k1`, `vm1` after: the exact fatal framing errors over
/// the initial bytes, the byte-level effects (only the descriptor cursor
/// and `sw_exit_info2` ever change), the attribute changes requested of
/// the device, and the stop-at-first-failure discipline of the walk.
pub open spec fn ghcb_request_post(
    k0: Keep,
    k1: Keep,
    vm0: VmDevice,
    vm1: VmDevice,
    ghcb_msr: u64,
    r: Result<GhcbOutcome, Fatal>,
) -> bool {
    &&& vm1.backed() == vm0.backed()
    &&& k1.max_memslots == k0.max_memslots
    &&& k1.host_page_size == k0.host_page_size
    &&& k1.sallyports == k0.sallyports
    &&& k1.sallyport_block_size == k0.sallyport_block_size
    &&& k1.vcpu_pool == k0.vcpu_pool
    &&& k1.regions@.len() == k0.regions@.len()
    &&& forall|j: int|
        0 <= j < k0.regions@.len() ==> {
            &&& (#[trigger] k1.regions@[j]).guest_phys_addr == k0.regions@[j].guest_phys_addr
            &&& k1.regions@[j].memory_size == k0.regions@[j].memory_size
            &&& k1.regions@[j].userspace_addr == k0.regions@[j].userspace_addr
        }
    &&& ({
            let gfn = ghcb_msr & !0xfffu64;
            match spec_find_region(k0.regions@, gfn) {
                None => r == Err::<GhcbOutcome, Fatal>(Fatal::GhcbNotMapped) && k1
                    == k0 && vm1.requests() == vm0.requests(),
                Some(i) => ({
                    let reg = k0.regions@[i];
                    let base = gfn - reg.guest_phys_addr;
                    let b0 = pages_bytes(reg.backing);
                    if reg.memory_size - base < 0x1000 {
                        r == Err::<GhcbOutcome, Fatal>(Fatal::GhcbNotMapped) && k1
                            == k0 && vm1.requests() == vm0.requests()
                    } else if ghcb_usage_of(b0, base as int) != 0 {
                        r == Err::<GhcbOutcome, Fatal>(Fatal::GhcbUsage) && k1 == k0 && vm1.requests() == vm0.requests()
                    } else if ghcb_version_of(b0, base as int) > 2 {
                        r == Err::<GhcbOutcome, Fatal>(Fatal::GhcbProtocolVersion) && k1
                            == k0 && vm1.requests() == vm0.requests()
                    } else if ghcb_exit_code_of(b0, base as int) != GHCB_EXIT_PSC {
                        r == Err::<GhcbOutcome, Fatal>(Fatal::UnimplementedExitCode) && k1 == k0 && vm1.requests() == vm0.requests()
                    } else if ghcb_scratch_of(b0, base as int) != gfn + 2048 {
                        r == Err::<GhcbOutcome, Fatal>(Fatal::PscDescMisplaced) && k1
                            == k0 && vm1.requests() == vm0.requests()
                    } else {
                        let entries = ghcb_psc_entries_of(b0, base as int);
                        let cur0 = ghcb_psc_cur_of(b0, base as int);
                        let end0 = ghcb_psc_end_of(b0, base as int);
                        let b1 = pages_bytes(k1.regions@[i].backing);
                        let cur1 = ghcb_psc_cur_of(b1, base as int);
                        &&& forall|j: int|
                            0 <= j < k0.regions@.len() && j != i ==> k1.regions@[j] == k0.regions@[j]
                        &&& b1.len() == b0.len()
                        &&& forall|k: int|
                            0 <= k < b0.len() && !(base + SHARED_BUFFER_OFFSET <= k < base
                                + SHARED_BUFFER_OFFSET + 2) && !(base + SW_EXIT_INFO2_OFFSET <= k
                                < base + SW_EXIT_INFO2_OFFSET + 8) ==> b1[k] == #[trigger] b0[k]
                        &&& ghcb_psc_entries_of(b1, base as int) == entries
                        &&& ghcb_psc_end_of(b1, base as int) == end0
                        &&& cur0 <= cur1
                        &&& forall|j: int|
                            cur0 <= j < cur1 ==> j < PSC_ENTRY_COUNT as int && ((
                            #[trigger] classify(entries[j])) is Hint || classify(
                                entries[j],
                            ) is Private || classify(entries[j]) is Shared)
                        &&& match r {
                            Ok(GhcbOutcome::Completed) => {
                                &&& (cur0 <= end0 ==> cur1 == end0 + 1)
                                &&& (cur0 > end0 ==> cur1 == cur0)
                                &&& vm1.requests() == vm0.requests() + psc_requests(
                                    entries,
                                    cur0 as int,
                                    cur1 as int,
                                )
                                &&& ghcb_exit_info2_of(b1, base as int) == ghcb_exit_info2_of(
                                    b0,
                                    base as int,
                                )
                            },
                            Ok(GhcbOutcome::GuestError(code)) => {
                                &&& ghcb_exit_info2_of(b1, base as int) == code
                                &&& cur0 <= cur1 <= end0
                                &&& cur1 < PSC_ENTRY_COUNT as int
                                &&& (code == PSC_ERROR_INVALID_ENTRY ==> classify(
                                    entries[cur1 as int],
                                ) is Invalid && vm1.requests() == vm0.requests()
                                    + psc_requests(entries, cur0 as int, cur1 as int))
                                &&& (code == PSC_ERROR_ATTR ==> (classify(
                                    entries[cur1 as int],
                                ) is Private || classify(entries[cur1 as int]) is Shared) && vm1.requests() == vm0.requests() + psc_requests(
                                    entries,
                                    cur0 as int,
                                    cur1 as int,
                                ) + entry_requests(entries[cur1 as int]))
                                &&& (code == PSC_ERROR_INVALID_ENTRY || code == PSC_ERROR_ATTR)
                                &&& (code == PSC_ERROR_ATTR ==> vm0.backed())
                            },
                            Err(f) => {
                                &&& cur0 <= cur1 <= end0
                                &&& vm1.requests() == vm0.requests() + psc_requests(
                                    entries,
                                    cur0 as int,
                                    cur1 as int,
                                )
                                &&& ghcb_exit_info2_of(b1, base as int) == ghcb_exit_info2_of(
                                    b0,
                                    base as int,
                                )
                                &&& ((f == Fatal::PscEntryOutOfRange && cur1 >= PSC_ENTRY_COUNT
                                    as int) || (cur1 < PSC_ENTRY_COUNT as int && ((f
                                    == Fatal::PscLargePage && classify(
                                    entries[cur1 as int],
                                ) is LargePage) || (f == Fatal::PscUnaligned && classify(
                                    entries[cur1 as int],
                                ) is Unaligned))))
                            },
                        }
                        &&& (cur0 <= end0 && cur0 < PSC_ENTRY_COUNT as int && classify(
                            entries[cur0 as int],
                        ) is Invalid ==> r == Ok::<GhcbOutcome, Fatal>(
                            GhcbOutcome::GuestError(PSC_ERROR_INVALID_ENTRY),
                        ) && cur1 == cur0 && vm1.requests() == vm0.requests())
                    }
                }),
            }
        })
}

/// The GHCB request named by the MSR value: locate the region backing the
/// nominated guest page, validate the GHCB framing in place, and run the
/// page-state-change descriptor found in the shared buffer.  Only the
/// descriptor's `cur_entry` field and `sw_exit_info2` are ever written;
/// framing violations are fatal and write nothing.  The contract is
/// `ghcb_request_post`, shared with the dispatcher above it.
pub fn handle_ghcb_request(keep: &mut Keep, vm: &mut VmDevice, ghcb_msr: u64) -> (r: Result<
    GhcbOutcome,
    Fatal,
>)
    requires
        keep_wf(*old(keep)),
    ensures
        keep_wf(*final(keep)),
        ghcb_request_post(*old(keep), *final(keep), *old(vm), *final(vm), ghcb_msr, r),
{
    let gfn = ghcb_msr & !0xfffu64;
    let ridx = match keep.find_region_containing(gfn) {
        Some(i) => i,
        None => {
            return Err(Fatal::GhcbNotMapped);
        },
    };
    let ghost reg0 = keep.regions@[ridx as int];
    let ghost b0 = pages_bytes(reg0.backing);
    let gpa0 = keep.regions[ridx].guest_phys_addr;
    let msize = keep.regions[ridx].memory_size;
    let base = (gfn - gpa0) as usize;
    if msize - base < 0x1000 {
        return Err(Fatal::GhcbNotMapped);
    }
    let usage_b = keep.region_read(ridx, base + GHCB_USAGE_OFFSET, 4);
    let usage = u32_from_le_bytes(usage_b.as_slice());
    if usage != 0 {
        return Err(Fatal::GhcbUsage);
    }
    let version_b = keep.region_read(ridx, base + PROTOCOL_VERSION_OFFSET, 2);
    let version = u16_from_le_bytes(version_b.as_slice());
    if version > 2 {
        return Err(Fatal::GhcbProtocolVersion);
    }
    let exit_code_b = keep.region_read(ridx, base + SW_EXIT_CODE_OFFSET, 8);
    let exit_code = u64_from_le_bytes(exit_code_b.as_slice());
    if exit_code != GHCB_EXIT_PSC {
        return Err(Fatal::UnimplementedExitCode);
    }
    let scratch_b = keep.region_read(ridx, base + SW_SCRATCH_OFFSET, 8);
    let scratch = u64_from_le_bytes(scratch_b.as_slice());
    proof {
        assert(gfn <= 0xffff_ffff_ffff_f000u64) by (bit_vector)
            requires
                gfn == ghcb_msr & !0xfffu64,
        ;
    }
    if scratch != gfn + 2048 {
        return Err(Fatal::PscDescMisplaced);
    }
    let cur_b = keep.region_read(ridx, base + SHARED_BUFFER_OFFSET, 2);
    let cur = u16_from_le_bytes(cur_b.as_slice());
    let end_b = keep.region_read(ridx, base + SHARED_BUFFER_OFFSET + 2, 2);
    let endv = u16_from_le_bytes(end_b.as_slice());
    let mut entries: Vec<u64> = Vec::new();
    let mut j: usize = 0;
    while j < PSC_ENTRY_COUNT
        invariant
            j <= PSC_ENTRY_COUNT,
            entries@.len() == j,
            *keep == *old(keep),
            keep_wf(*keep),
            ridx < keep.regions@.len(),
            reg0 == keep.regions@[ridx as int],
            b0 == pages_bytes(reg0.backing),
            base + 0x1000 <= b0.len(),
            forall|t: int|
                0 <= t < j ==> entries@[t] == ghcb_psc_entry_of(b0, base as int, t),
        decreases PSC_ENTRY_COUNT - j,
    {
        let eb = keep.region_read(ridx, base + SHARED_BUFFER_OFFSET + 8 + 8 * j, 8);
        let e = u64_from_le_bytes(eb.as_slice());
        entries.push(e);
        j = j + 1;
    }
    let ghost entries_spec = ghcb_psc_entries_of(b0, base as int);
    proof {
        assert(entries@ =~= entries_spec);
    }
    let mut desc = PscDesc { cur_entry: cur, end_entry: endv, entries };
    let run_result = psc_run(&mut desc, vm);
    let cur_wb = u16_to_le_bytes(desc.cur_entry);
    keep.region_write(ridx, base + SHARED_BUFFER_OFFSET, cur_wb.as_slice());
    let ghost b1 = pages_bytes(keep.regions@[ridx as int].backing);
    proof {
        lemma_splice_points(
            b0,
            b1,
            (base + SHARED_BUFFER_OFFSET) as int,
            spec_u16_to_le_bytes(desc.cur_entry),
        );
        lemma_auto_spec_u16_to_from_le_bytes();
        assert(b1.subrange(
            base + SHARED_BUFFER_OFFSET,
            base + SHARED_BUFFER_OFFSET + 2,
        ) =~= spec_u16_to_le_bytes(desc.cur_entry));
        assert(ghcb_psc_cur_of(b1, base as int) == desc.cur_entry);
        lemma_u16_field_eq(b0, b1, base + SHARED_BUFFER_OFFSET + 2);
        lemma_u64_field_eq(b0, b1, base + SW_EXIT_INFO2_OFFSET);
        assert forall|t: int| 0 <= t < PSC_ENTRY_COUNT as int implies ghcb_psc_entry_of(
            b1,
            base as int,
            t,
        ) == ghcb_psc_entry_of(b0, base as int, t) by {
            lemma_u64_field_eq(b0, b1, base + SHARED_BUFFER_OFFSET + 8 + 8 * t);
        }
        assert(ghcb_psc_entries_of(b1, base as int) =~= ghcb_psc_entries_of(b0, base as int));
    }
    match run_result {
        Ok(GhcbOutcome::Completed) => Ok(GhcbOutcome::Completed),
        Ok(GhcbOutcome::GuestError(code)) => {
            let code_wb = u64_to_le_bytes(code);
            keep.region_write(ridx, base + SW_EXIT_INFO2_OFFSET, code_wb.as_slice());
            let ghost b2 = pages_bytes(keep.regions@[ridx as int].backing);
            proof {
                lemma_splice_points(
                    b1,
                    b2,
                    (base + SW_EXIT_INFO2_OFFSET) as int,
                    spec_u64_to_le_bytes(code),
                );
                lemma_auto_spec_u64_to_from_le_bytes();
                assert(b2.subrange(
                    base + SW_EXIT_INFO2_OFFSET,
                    base + SW_EXIT_INFO2_OFFSET + 8,
                ) =~= spec_u64_to_le_bytes(code));
                assert(ghcb_exit_info2_of(b2, base as int) == code);
                lemma_u16_field_eq(b1, b2, base + SHARED_BUFFER_OFFSET);
                lemma_u16_field_eq(b1, b2, base + SHARED_BUFFER_OFFSET + 2);
                assert forall|t: int| 0 <= t < PSC_ENTRY_COUNT as int implies ghcb_psc_entry_of(
                    b2,
                    base as int,
                    t,
                ) == ghcb_psc_entry_of(b1, base as int, t) by {
                    lemma_u64_field_eq(b1, b2, base + SHARED_BUFFER_OFFSET + 8 + 8 * t);
                }
                assert(ghcb_psc_entries_of(b2, base as int) =~= ghcb_psc_entries_of(
                    b1,
                    base as int,
                ));
            }
            Ok(GhcbOutcome::GuestError(code))
        },
        Err(f) => Err(f),
    }
}

/// The whole outcome of one guest/host communication exit, by protocol
/// function: an unknown function code is fatal and changes nothing; the
/// fast path behaves as `msr_psc_post` says and leaves the keep alone; the
/// GHCB-GPA path behaves as `ghcb_request_post` says of some request
/// outcome whose success is the dispatcher's success.
pub open spec fn vmgexit_post(
    k0: Keep,
    k1: Keep,
    vm0: VmDevice,
    vm1: VmDevice,
    ghcb_msr: u64,
    r: Result<(), Fatal>,
) -> bool {
    &&& (msr_function(ghcb_msr) != MSR_FUNC_GHCB_GPA && msr_function(ghcb_msr)
        != MSR_FUNC_PAGE_STATE ==> r == Err::<(), Fatal>(Fatal::UnimplementedGhcbProtocol) && k1
        == k0 && vm1.requests() == vm0.requests() && vm1.backed() == vm0.backed())
    &&& (msr_function(ghcb_msr) == MSR_FUNC_PAGE_STATE ==> k1 == k0 && msr_psc_post(
        vm0,
        vm1,
        ghcb_msr,
        r,
    ))
    &&& (msr_function(ghcb_msr) == MSR_FUNC_GHCB_GPA ==> exists|inner: Result<GhcbOutcome, Fatal>|
        {
            &&& #[trigger] ghcb_request_post(k0, k1, vm0, vm1, ghcb_msr, inner)
            &&& (r is Ok <==> inner is Ok)
            &&& (inner matches Err(f) ==> r == Err::<(), Fatal>(f))
        })
}

/// Dispatch of a guest/host communication exit: the low twelve bits of the
/// MSR value select the protocol function, everything else is fatal.
/// `vmgexit_post` carries the full outcome of every leg.
pub fn handle_vmgexit(keep: &mut Keep, vm: &mut VmDevice, ghcb_msr: u64, _error: u8) -> (r: Result<
    (),
    Fatal,
>)
    requires
        keep_wf(*old(keep)),
    ensures
        keep_wf(*final(keep)),
        vmgexit_post(*old(keep), *final(keep), *old(vm), *final(vm), ghcb_msr, r),
{
    let func = ghcb_msr & 0xfff;
    if func == MSR_FUNC_GHCB_GPA {
        let inner = handle_ghcb_request(keep, vm, ghcb_msr);
        let r: Result<(), Fatal> = match inner {
            Ok(_) => Ok(()),
            Err(f) => Err(f),
        };
        proof {
            assert(ghcb_request_post(*old(keep), *keep, *old(vm), *vm, ghcb_msr, inner));
        }
        r
    } else if func == MSR_FUNC_PAGE_STATE {
        handle_msr_page_state_request(vm, ghcb_msr)
    } else {
        Err(Fatal::UnimplementedGhcbProtocol)
    }
}

} // verus!

