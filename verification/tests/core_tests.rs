use keep_core::ghcb::{
    classify_entry, handle_ghcb_request, handle_msr_page_state_request, handle_vmgexit, psc_run,
    EntryClass, GhcbOutcome, PscDesc, GHCB_USAGE_OFFSET, PROTOCOL_VERSION_OFFSET,
    PSC_ERROR_INVALID_ENTRY, SHARED_BUFFER_OFFSET, SW_EXIT_CODE_OFFSET, SW_EXIT_INFO2_OFFSET,
    SW_SCRATCH_OFFSET,
};
use keep_core::host_mem::HostPages;
use keep_core::keep::Keep;
use keep_core::run_loop::{
    Command, EnarxCall, Item, ProxyAction, Step, Thread, ThreadState, VmExit,
    KVM_SYSCALL_TRIGGER_PORT, SYS_EXIT,
};
use keep_core::vm::VmDevice;
use keep_core::Fatal;

fn fresh_keep(max_memslots: usize, sallyports: Vec<Option<usize>>) -> Keep {
    Keep::new(max_memslots, 4096, 512, sallyports, vec![1])
}

fn fresh_thread() -> Thread {
    Thread { vcpu_fd: 1, gdb_available: false, state: ThreadState::Idle }
}

/// Builds a keep with one 8 KiB region at guest address 0x100000 holding a
/// valid GHCB framing for a page-state-change request with the given
/// descriptor header and first entry.
fn ghcb_keep(cur: u16, end: u16, entry0: u64) -> Keep {
    let mut keep = fresh_keep(32, vec![]);
    let backing = HostPages::anonymous(8192).expect("mmap failed");
    keep.map_region(backing, 0x100000, false).expect("map_region failed");
    let gfn: u64 = 0x100000;
    keep.region_write(0, GHCB_USAGE_OFFSET, &0u32.to_le_bytes());
    keep.region_write(0, PROTOCOL_VERSION_OFFSET, &2u16.to_le_bytes());
    keep.region_write(0, SW_EXIT_CODE_OFFSET, &0x8000_0010u64.to_le_bytes());
    keep.region_write(0, SW_SCRATCH_OFFSET, &(gfn + 2048).to_le_bytes());
    keep.region_write(0, SHARED_BUFFER_OFFSET, &cur.to_le_bytes());
    keep.region_write(0, SHARED_BUFFER_OFFSET + 2, &end.to_le_bytes());
    keep.region_write(0, SHARED_BUFFER_OFFSET + 8, &entry0.to_le_bytes());
    keep
}

fn read_u16(keep: &Keep, offset: usize) -> u16 {
    let b = keep.region_read(0, offset, 2);
    u16::from_le_bytes([b[0], b[1]])
}

fn read_u64(keep: &Keep, offset: usize) -> u64 {
    let b = keep.region_read(0, offset, 8);
    let mut a = [0u8; 8];
    a.copy_from_slice(&b);
    u64::from_le_bytes(a)
}

#[test]
fn balloon_rejects_wrong_page_size() {
    let keep = fresh_keep(32, vec![]);
    let t = fresh_thread();
    // 1 << 13 != 4096
    assert_eq!(t.balloon(&keep, 13, 1, 0x200000).err(), Some(22));
    // shift far out of range can never match the page size
    assert_eq!(t.balloon(&keep, 200, 1, 0x200000).err(), Some(22));
}

#[test]
fn balloon_rejects_misaligned_address() {
    let keep = fresh_keep(32, vec![]);
    let t = fresh_thread();
    assert_eq!(t.balloon(&keep, 12, 1, 0x200001).err(), Some(22));
}

#[test]
fn balloon_allocates_requested_pages() {
    let keep = fresh_keep(32, vec![]);
    let t = fresh_thread();
    let pages = t.balloon(&keep, 12, 3, 0x200000).expect("balloon failed");
    assert_eq!(pages.len(), 3 * 4096);
}

#[test]
fn meminfo_counts_free_memslots() {
    let mut keep = fresh_keep(32, vec![]);
    let t = fresh_thread();
    assert_eq!(t.meminfo(&keep), Ok(32));
    let backing = HostPages::anonymous(4096).unwrap();
    keep.map_region(backing, 0x100000, false).unwrap();
    assert_eq!(t.meminfo(&keep), Ok(31));
}

#[test]
fn map_region_rejects_overlap() {
    let mut keep = fresh_keep(32, vec![]);
    let b1 = HostPages::anonymous(8192).unwrap();
    keep.map_region(b1, 0x100000, false).unwrap();
    let b2 = HostPages::anonymous(4096).unwrap();
    assert_eq!(keep.map_region(b2, 0x101000, false).err(), Some(22));
    let b3 = HostPages::anonymous(4096).unwrap();
    assert!(keep.map_region(b3, 0x102000, false).is_ok());
}

#[test]
fn map_region_rejects_when_no_slot_is_free() {
    let mut keep = fresh_keep(1, vec![]);
    let b1 = HostPages::anonymous(4096).unwrap();
    keep.map_region(b1, 0x100000, false).unwrap();
    let b2 = HostPages::anonymous(4096).unwrap();
    assert_eq!(keep.map_region(b2, 0x200000, false).err(), Some(12));
}

#[test]
fn find_region_locates_address() {
    let mut keep = fresh_keep(32, vec![]);
    let b1 = HostPages::anonymous(4096).unwrap();
    keep.map_region(b1, 0x100000, false).unwrap();
    let b2 = HostPages::anonymous(4096).unwrap();
    keep.map_region(b2, 0x300000, false).unwrap();
    assert_eq!(keep.find_region_containing(0x300fff), Some(1));
    assert_eq!(keep.find_region_containing(0x100000), Some(0));
    assert_eq!(keep.find_region_containing(0x200000), None);
}

#[test]
fn mailbox_restored_after_pass_without_exit() {
    let mut keep = fresh_keep(32, vec![Some(0xAA00)]);
    let mut vm = VmDevice::unbacked();
    let mut t = fresh_thread();
    let step = t
        .enter(
            &mut keep,
            &mut vm,
            VmExit::IoOut { port: KVM_SYSCALL_TRIGGER_PORT, data: vec![0, 0] },
        )
        .expect("enter failed");
    assert_eq!(step, Step::NeedItems { block_virt: 0xAA00, len_words: 64 });
    assert_eq!(keep.sallyports[0], None);
    t.begin_items(vec![Item::Syscall { num: 1, argv: [1, 0, 0, 0, 0, 0], ret: [0, 0] }]);
    assert_eq!(t.proxy_step(&mut keep), ProxyAction::ExecuteSyscall { idx: 0 });
    assert_eq!(t.proxy_step(&mut keep), ProxyAction::Finished(Command::Continue));
    // idempotent availability: the very block identity is back
    assert_eq!(keep.sallyports[0], Some(0xAA00));
}

#[test]
fn exit_syscall_short_circuits_and_leaves_mailbox_empty() {
    let mut keep = fresh_keep(32, vec![None, None, None, Some(0xBEE0)]);
    let mut vm = VmDevice::unbacked();
    let mut t = fresh_thread();
    let step = t
        .enter(
            &mut keep,
            &mut vm,
            VmExit::IoOut { port: KVM_SYSCALL_TRIGGER_PORT, data: vec![3, 0] },
        )
        .expect("enter failed");
    assert!(matches!(step, Step::NeedItems { block_virt: 0xBEE0, .. }));
    t.begin_items(vec![Item::Syscall { num: SYS_EXIT, argv: [7, 0, 0, 0, 0, 0], ret: [0, 0] }]);
    assert_eq!(t.proxy_step(&mut keep), ProxyAction::Finished(Command::Exit(7)));
    assert_eq!(keep.sallyports[3], None);
}

#[test]
fn claiming_an_empty_mailbox_is_a_protocol_violation() {
    let mut keep = fresh_keep(32, vec![None]);
    let mut vm = VmDevice::unbacked();
    let mut t = fresh_thread();
    let r = t.enter(
        &mut keep,
        &mut vm,
        VmExit::IoOut { port: KVM_SYSCALL_TRIGGER_PORT, data: vec![0, 0] },
    );
    assert_eq!(r, Err(Fatal::MailboxUnavailable));
}

#[test]
fn unknown_exit_reason_is_fatal() {
    let mut keep = fresh_keep(32, vec![]);
    let mut vm = VmDevice::unbacked();
    let mut t = fresh_thread();
    assert_eq!(t.enter(&mut keep, &mut vm, VmExit::Other), Err(Fatal::UnimplementedExit));
    let mut t2 = fresh_thread();
    let r = t2.enter(&mut keep, &mut vm, VmExit::IoOut { port: 0x20, data: vec![0, 0] });
    assert_eq!(r, Err(Fatal::UnimplementedExit));
}

#[test]
fn meminfo_item_is_answered_locally() {
    let mut keep = fresh_keep(32, vec![Some(0x1000)]);
    let mut t = fresh_thread();
    t.state = ThreadState::Proxying {
        block_nr: 0,
        block_virt: 0x1000,
        items: vec![Item::Enarxcall { num: EnarxCall::MemInfo, argv: [0; 4], ret: 0 }],
        idx: 0,
    };
    assert_eq!(t.proxy_step(&mut keep), ProxyAction::WriteRet { idx: 0, value: 32 });
    assert_eq!(t.proxy_step(&mut keep), ProxyAction::Finished(Command::Continue));
}

#[test]
fn balloon_item_invalid_args_gets_negated_einval() {
    let mut keep = fresh_keep(32, vec![Some(0x1000)]);
    let mut t = fresh_thread();
    t.state = ThreadState::Proxying {
        block_nr: 0,
        block_virt: 0x1000,
        items: vec![Item::Enarxcall {
            num: EnarxCall::BalloonMemory,
            argv: [13, 1, 0x200000, 0],
            ret: 0,
        }],
        idx: 0,
    };
    let act = t.proxy_step(&mut keep);
    assert_eq!(act, ProxyAction::WriteRet { idx: 0, value: (-22i64) as usize });
}

#[test]
fn balloon_item_maps_memory_into_guest() {
    let mut keep = fresh_keep(32, vec![Some(0x1000)]);
    let mut t = fresh_thread();
    t.state = ThreadState::Proxying {
        block_nr: 0,
        block_virt: 0x1000,
        items: vec![Item::Enarxcall {
            num: EnarxCall::BalloonMemory,
            argv: [12, 2, 0x200000, 1],
            ret: 0,
        }],
        idx: 0,
    };
    let act = t.proxy_step(&mut keep);
    let userspace_addr = match act {
        ProxyAction::MapIntoVm { guest_addr, length, private, userspace_addr } => {
            assert_eq!(guest_addr, 0x200000);
            assert_eq!(length, 2 * 4096);
            assert!(private);
            userspace_addr
        },
        other => panic!("unexpected action {:?}", other),
    };
    let act2 = t.balloon_done(&mut keep, Ok(()));
    assert_eq!(act2, ProxyAction::WriteRet { idx: 0, value: userspace_addr });
    assert_eq!(keep.regions.len(), 1);
    assert_eq!(keep.regions[0].guest_phys_addr, 0x200000);
    assert_eq!(keep.regions[0].memory_size, 2 * 4096);
    assert_eq!(keep.find_region_containing(0x201fff), Some(0));
    // the device rejected the next one: the error is encoded for the guest
    t.state = ThreadState::Proxying {
        block_nr: 0,
        block_virt: 0x1000,
        items: vec![Item::Enarxcall {
            num: EnarxCall::BalloonMemory,
            argv: [12, 1, 0x400000, 0],
            ret: 0,
        }],
        idx: 0,
    };
    assert!(matches!(t.proxy_step(&mut keep), ProxyAction::MapIntoVm { .. }));
    let act3 = t.balloon_done(&mut keep, Err(5));
    assert_eq!(act3, ProxyAction::WriteRet { idx: 0, value: (-5i64) as usize });
    assert_eq!(keep.regions.len(), 1);
}

#[test]
fn gdb_item_skipped_without_bridge() {
    let mut keep = fresh_keep(32, vec![Some(0x1000)]);
    let mut t = fresh_thread();
    t.state = ThreadState::Proxying {
        block_nr: 0,
        block_virt: 0x1000,
        items: vec![Item::Gdbcall],
        idx: 0,
    };
    assert_eq!(t.proxy_step(&mut keep), ProxyAction::SkippedGdb { idx: 0 });
    let mut t2 = fresh_thread();
    t2.gdb_available = true;
    t2.state = ThreadState::Proxying {
        block_nr: 0,
        block_virt: 0x1000,
        items: vec![Item::Gdbcall],
        idx: 0,
    };
    assert_eq!(t2.proxy_step(&mut keep), ProxyAction::ExecuteGdb { idx: 0 });
}

#[test]
fn spawn_takes_vcpu_and_retire_returns_it() {
    let mut keep = fresh_keep(32, vec![]);
    let t = Thread::spawn(&mut keep, false).expect("a vCPU should be idle");
    assert_eq!(t.vcpu_fd, 1);
    assert_eq!(keep.vcpu_pool.len(), 0);
    assert!(Thread::spawn(&mut keep, false).is_none());
    t.retire(&mut keep);
    assert_eq!(keep.vcpu_pool, vec![1]);
}

#[test]
fn classify_entry_decodes_packed_bits() {
    assert_eq!(classify_entry(0), EntryClass::Invalid);
    assert_eq!(classify_entry((1 << 52) | 0x5000), EntryClass::Private { gpa: 0x5000 });
    assert_eq!(classify_entry((2 << 52) | 0x7000), EntryClass::Shared { gpa: 0x7000 });
    assert_eq!(classify_entry(3 << 52), EntryClass::Hint);
    assert_eq!(classify_entry(4 << 52), EntryClass::Hint);
    assert_eq!(classify_entry(5 << 52), EntryClass::Invalid);
    assert_eq!(classify_entry((1 << 52) | (1 << 56)), EntryClass::LargePage);
    assert_eq!(classify_entry((1 << 52) | 0x123), EntryClass::Unaligned);
}

#[test]
fn hint_advances_cursor_without_attribute_change() {
    let mut entries = vec![0u64; 253];
    entries[5] = 3 << 52;
    let mut desc = PscDesc { cur_entry: 5, end_entry: 5, entries };
    let mut vm = VmDevice::unbacked();
    assert_eq!(psc_run(&mut desc, &mut vm), Ok(GhcbOutcome::Completed));
    assert_eq!(desc.cur_entry, 6);
}

#[test]
fn psc_rerun_of_processed_entry_gives_same_outcome() {
    let mut entries = vec![0u64; 253];
    entries[2] = 4 << 52;
    entries[3] = (1 << 52) | 0x9000;
    let mut desc = PscDesc { cur_entry: 2, end_entry: 3, entries };
    let mut vm = VmDevice::unbacked();
    assert_eq!(psc_run(&mut desc, &mut vm), Ok(GhcbOutcome::Completed));
    assert_eq!(desc.cur_entry, 4);
    // rewind the cursor: the entries are untouched, so the rerun takes the
    // same branches and ends in the same state
    desc.cur_entry = 2;
    assert_eq!(psc_run(&mut desc, &mut vm), Ok(GhcbOutcome::Completed));
    assert_eq!(desc.cur_entry, 4);
}

#[test]
fn psc_invalid_entry_reports_guest_error() {
    let mut entries = vec![0u64; 253];
    entries[0] = 5 << 52;
    let mut desc = PscDesc { cur_entry: 0, end_entry: 0, entries };
    let mut vm = VmDevice::unbacked();
    assert_eq!(psc_run(&mut desc, &mut vm), Ok(GhcbOutcome::GuestError(PSC_ERROR_INVALID_ENTRY)));
    assert_eq!(desc.cur_entry, 0);
}

#[test]
fn psc_large_page_is_fatal() {
    let mut entries = vec![0u64; 253];
    entries[0] = (1 << 56) | (1 << 52);
    let mut desc = PscDesc { cur_entry: 0, end_entry: 0, entries };
    let mut vm = VmDevice::unbacked();
    assert_eq!(psc_run(&mut desc, &mut vm), Err(Fatal::PscLargePage));
}

#[test]
fn psc_unaligned_entry_is_fatal() {
    let mut entries = vec![0u64; 253];
    entries[0] = (1 << 52) | 0x10;
    let mut desc = PscDesc { cur_entry: 0, end_entry: 0, entries };
    let mut vm = VmDevice::unbacked();
    assert_eq!(psc_run(&mut desc, &mut vm), Err(Fatal::PscUnaligned));
}

#[test]
fn psc_cursor_past_table_is_fatal() {
    let entries = vec![0u64; 253];
    let mut desc = PscDesc { cur_entry: 300, end_entry: 400, entries };
    let mut vm = VmDevice::unbacked();
    assert_eq!(psc_run(&mut desc, &mut vm), Err(Fatal::PscEntryOutOfRange));
}

#[test]
fn ghcb_invalid_entry_writes_exit_info2_and_keeps_cursor() {
    let mut keep = ghcb_keep(0, 0, 5 << 52);
    let mut vm = VmDevice::unbacked();
    let r = handle_ghcb_request(&mut keep, &mut vm, 0x100000);
    assert_eq!(r, Ok(GhcbOutcome::GuestError(PSC_ERROR_INVALID_ENTRY)));
    assert_eq!(read_u16(&keep, SHARED_BUFFER_OFFSET), 0);
    assert_eq!(read_u64(&keep, SW_EXIT_INFO2_OFFSET), PSC_ERROR_INVALID_ENTRY);
}

#[test]
fn ghcb_hint_descriptor_completes_in_place() {
    let mut keep = ghcb_keep(0, 0, 3 << 52);
    let mut vm = VmDevice::unbacked();
    let r = handle_ghcb_request(&mut keep, &mut vm, 0x100000);
    assert_eq!(r, Ok(GhcbOutcome::Completed));
    assert_eq!(read_u16(&keep, SHARED_BUFFER_OFFSET), 1);
}

#[test]
fn ghcb_nonzero_usage_is_fatal_before_anything_else() {
    let mut keep = ghcb_keep(0, 0, 3 << 52);
    keep.region_write(0, GHCB_USAGE_OFFSET, &1u32.to_le_bytes());
    // even with garbage where sw_exit_code lives, the usage check decides
    keep.region_write(0, SW_EXIT_CODE_OFFSET, &0xdead_beefu64.to_le_bytes());
    let mut vm = VmDevice::unbacked();
    assert_eq!(handle_ghcb_request(&mut keep, &mut vm, 0x100000), Err(Fatal::GhcbUsage));
    // nothing was written back
    assert_eq!(read_u16(&keep, SHARED_BUFFER_OFFSET), 0);
}

#[test]
fn ghcb_unsupported_protocol_version_is_fatal() {
    let mut keep = ghcb_keep(0, 0, 3 << 52);
    keep.region_write(0, PROTOCOL_VERSION_OFFSET, &3u16.to_le_bytes());
    let mut vm = VmDevice::unbacked();
    assert_eq!(handle_ghcb_request(&mut keep, &mut vm, 0x100000), Err(Fatal::GhcbProtocolVersion));
}

#[test]
fn ghcb_unknown_exit_code_is_fatal() {
    let mut keep = ghcb_keep(0, 0, 3 << 52);
    keep.region_write(0, SW_EXIT_CODE_OFFSET, &0x8000_0011u64.to_le_bytes());
    let mut vm = VmDevice::unbacked();
    assert_eq!(handle_ghcb_request(&mut keep, &mut vm, 0x100000), Err(Fatal::UnimplementedExitCode));
}

#[test]
fn ghcb_descriptor_outside_shared_buffer_is_fatal() {
    let mut keep = ghcb_keep(0, 0, 3 << 52);
    keep.region_write(0, SW_SCRATCH_OFFSET, &0x101000u64.to_le_bytes());
    let mut vm = VmDevice::unbacked();
    let r = handle_ghcb_request(&mut keep, &mut vm, 0x100000);
    assert_eq!(r, Err(Fatal::PscDescMisplaced));
}

#[test]
fn ghcb_unmapped_page_is_fatal() {
    let mut keep = fresh_keep(32, vec![]);
    let mut vm = VmDevice::unbacked();
    assert_eq!(handle_ghcb_request(&mut keep, &mut vm, 0x100000), Err(Fatal::GhcbNotMapped));
}

#[test]
fn msr_fast_path_accepts_private_and_shared() {
    let mut keep = fresh_keep(32, vec![]);
    let mut vm = VmDevice::unbacked();
    let msr_private = 0x12345000u64 | (1 << 52) | 0x014;
    assert_eq!(handle_vmgexit(&mut keep, &mut vm, msr_private, 0), Ok(()));
    let msr_shared = 0x12345000u64 | (2 << 52) | 0x014;
    assert_eq!(handle_vmgexit(&mut keep, &mut vm, msr_shared, 0), Ok(()));
}

#[test]
fn msr_fast_path_rejects_unknown_operation() {
    let mut vm = VmDevice::unbacked();
    let msr = 0x12345000u64 | (7 << 52) | 0x014;
    assert_eq!(handle_msr_page_state_request(&mut vm, msr), Err(Fatal::UnimplementedPageOperation));
}

#[test]
fn unknown_ghcb_protocol_function_is_fatal() {
    let mut keep = fresh_keep(32, vec![]);
    let mut vm = VmDevice::unbacked();
    assert_eq!(
        handle_vmgexit(&mut keep, &mut vm, 0x12345000u64 | 0x020, 0),
        Err(Fatal::UnimplementedGhcbProtocol)
    );
}

#[test]
fn vmgexit_through_enter_resumes_vcpu() {
    let mut keep = fresh_keep(32, vec![]);
    let mut vm = VmDevice::unbacked();
    let mut t = fresh_thread();
    let msr = 0x200000u64 | (1 << 52) | 0x014;
    let step = t.enter(&mut keep, &mut vm, VmExit::Vmgexit { ghcb_msr: msr, error: 0 });
    assert_eq!(step, Ok(Step::Continue));
}

#[test]
fn malformed_trigger_write_is_fatal() {
    let mut keep = fresh_keep(32, vec![Some(1)]);
    let mut vm = VmDevice::unbacked();
    let mut t = fresh_thread();
    let r = t.enter(
        &mut keep,
        &mut vm,
        VmExit::IoOut { port: KVM_SYSCALL_TRIGGER_PORT, data: vec![0] },
    );
    assert_eq!(r, Err(Fatal::MalformedTrigger));
}

#[test]
fn psc_processes_mixed_entries_in_order() {
    let mut entries = vec![0u64; 253];
    entries[0] = (1 << 52) | 0x10000; // private
    entries[1] = 3 << 52; // hint
    entries[2] = (2 << 52) | 0x11000; // shared
    // garbage past end_entry is never looked at
    entries[3] = 0xffff_ffff_ffff_ffff;
    let mut desc = PscDesc { cur_entry: 0, end_entry: 2, entries };
    let mut vm = VmDevice::unbacked();
    assert_eq!(psc_run(&mut desc, &mut vm), Ok(GhcbOutcome::Completed));
    assert_eq!(desc.cur_entry, 3);
}

#[test]
fn psc_stops_at_first_invalid_entry_mid_walk() {
    let mut entries = vec![0u64; 253];
    entries[0] = 4 << 52; // hint, processed
    entries[1] = 9 << 52; // invalid, stops here
    entries[2] = 3 << 52;
    let mut desc = PscDesc { cur_entry: 0, end_entry: 2, entries };
    let mut vm = VmDevice::unbacked();
    assert_eq!(psc_run(&mut desc, &mut vm), Ok(GhcbOutcome::GuestError(PSC_ERROR_INVALID_ENTRY)));
    // the cursor checkpoints exactly how far processing got
    assert_eq!(desc.cur_entry, 1);
}

#[test]
fn proxy_walks_items_in_stored_order() {
    let mut keep = fresh_keep(16, vec![Some(0x2000)]);
    let mut t = fresh_thread();
    t.state = ThreadState::Proxying {
        block_nr: 0,
        block_virt: 0x2000,
        items: vec![
            Item::Syscall { num: 1, argv: [0; 6], ret: [0, 0] },
            Item::Enarxcall { num: EnarxCall::MemInfo, argv: [0; 4], ret: 0 },
            Item::Enarxcall { num: EnarxCall::Other, argv: [0; 4], ret: 0 },
        ],
        idx: 0,
    };
    assert_eq!(t.proxy_step(&mut keep), ProxyAction::ExecuteSyscall { idx: 0 });
    assert_eq!(t.proxy_step(&mut keep), ProxyAction::WriteRet { idx: 1, value: 16 });
    assert_eq!(t.proxy_step(&mut keep), ProxyAction::Personality { idx: 2 });
    assert_eq!(t.proxy_step(&mut keep), ProxyAction::Finished(Command::Continue));
    assert_eq!(keep.sallyports[0], Some(0x2000));
}

#[test]
fn ghcb_stops_at_first_invalid_entry_mid_walk() {
    // a hint at entry 0, an invalid operation at entry 1
    let mut keep = ghcb_keep(0, 1, 3 << 52);
    keep.region_write(0, SHARED_BUFFER_OFFSET + 16, &(9u64 << 52).to_le_bytes());
    let mut vm = VmDevice::unbacked();
    let r = handle_ghcb_request(&mut keep, &mut vm, 0x100000);
    assert_eq!(r, Ok(GhcbOutcome::GuestError(PSC_ERROR_INVALID_ENTRY)));
    // the cursor checkpoints the failed entry; the hint before it passed
    assert_eq!(read_u16(&keep, SHARED_BUFFER_OFFSET), 1);
    assert_eq!(read_u64(&keep, SW_EXIT_INFO2_OFFSET), PSC_ERROR_INVALID_ENTRY);
}

#[test]
fn failed_item_execution_restores_mailbox() {
    let mut keep = fresh_keep(32, vec![Some(0xCC00)]);
    let mut vm = VmDevice::unbacked();
    let mut t = fresh_thread();
    let step = t
        .enter(
            &mut keep,
            &mut vm,
            VmExit::IoOut { port: KVM_SYSCALL_TRIGGER_PORT, data: vec![0, 0] },
        )
        .expect("enter failed");
    assert!(matches!(step, Step::NeedItems { block_virt: 0xCC00, .. }));
    t.begin_items(vec![
        Item::Syscall { num: 1, argv: [0; 6], ret: [0, 0] },
        Item::Syscall { num: 2, argv: [0; 6], ret: [0, 0] },
    ]);
    assert_eq!(t.proxy_step(&mut keep), ProxyAction::ExecuteSyscall { idx: 0 });
    // the executor failed fatally: the pass ends, but the slot comes back
    t.fail_pass(&mut keep);
    assert_eq!(keep.sallyports[0], Some(0xCC00));
}
