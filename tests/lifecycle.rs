use mayastor::child::{Child, ChildError, ChildOp, Reason, State};
use mayastor::device::{Bdev, BdevHandle, BdevTable, CoreError, Descriptor, IoChannel, Mthread};
use mayastor::registry::Inventory;
use mayastor::nexus::{Admission, Nexus, NexusError, NexusState};
use mayastor::qpair::{QPair, QPairOpts, QPairOptsBuilder, QPairState, Retry};
use mayastor::rebuild::{RebuildError, RebuildState, RebuildStep, RebuildTask, Segment};

fn table_with(names: &[&str], blocks: u64) -> BdevTable {
    let mut t = BdevTable::new();
    for n in names {
        t.create(n.to_string(), 512, blocks).unwrap();
    }
    t
}

#[test]
fn destroy_open_child_is_refused() {
    let mut table = table_with(&["d0"], 16);
    let mut c = Child::new("d0".to_string(), "malloc:///d0".to_string());
    assert_eq!(c.open(&mut table), Ok(State::Open));
    assert_eq!(
        c.destroy(&mut table),
        Err(ChildError::InvalidStateForOperation { state: State::Open, op: ChildOp::Destroy })
    );
    assert_eq!(c.state(), State::Open);
    assert!(table.lookup(&"d0".to_string()).is_some());
}

#[test]
fn open_destroyed_child_is_not_found() {
    let mut table = table_with(&["d0"], 16);
    let mut c = Child::new("d0".to_string(), "malloc:///d0".to_string());
    c.open(&mut table).unwrap();
    assert_eq!(c.close(&mut table), Ok(State::Closed));
    assert_eq!(c.destroy(&mut table), Ok(()));
    assert_eq!(c.state(), State::Destroyed);
    assert!(table.lookup(&"d0".to_string()).is_none());
    // even once a device of that name exists again, a destroyed child stays gone
    table.create("d0".to_string(), 512, 16).unwrap();
    assert_eq!(c.open(&mut table), Err(ChildError::NotFound { name: "d0".to_string() }));
    assert_eq!(c.state(), State::Destroyed);
}

#[test]
fn open_is_idempotent_and_exclusive() {
    let mut table = table_with(&["d0"], 16);
    let mut a = Child::new("d0".to_string(), "u".to_string());
    let mut b = Child::new("d0".to_string(), "u".to_string());
    assert_eq!(a.open(&mut table), Ok(State::Open));
    assert_eq!(a.open(&mut table), Ok(State::Open));
    assert!(a.is_open());
    // the device is claimed by the first child
    assert_eq!(b.open(&mut table), Err(ChildError::NotFound { name: "d0".to_string() }));
    assert_eq!(b.state(), State::Faulted(Reason::Missing));
    a.close(&mut table).unwrap();
    assert_eq!(b.open(&mut table), Ok(State::Open));
}

#[test]
fn open_missing_device_faults() {
    let mut table = BdevTable::new();
    let mut c = Child::new("gone".to_string(), "u".to_string());
    assert_eq!(c.open(&mut table), Err(ChildError::NotFound { name: "gone".to_string() }));
    assert_eq!(c.state(), State::Faulted(Reason::Missing));
    table.create("gone".to_string(), 512, 4).unwrap();
    assert_eq!(c.open(&mut table), Ok(State::Open));
}

#[test]
fn fault_twice_keeps_first_reason() {
    let mut table = table_with(&["d0", "d1"], 16);
    let mut inv = Inventory::new();
    let mut n = Nexus::new("n".to_string());
    n.add_child(&mut inv, "d0".to_string(), "u0".to_string()).unwrap();
    n.add_child(&mut inv, "d1".to_string(), "u1".to_string()).unwrap();
    n.open_child(&"d0".to_string(), &mut table).unwrap();
    n.open_child(&"d1".to_string(), &mut table).unwrap();
    let d1 = "d1".to_string();
    assert_eq!(n.fault_child(&d1, Reason::IOErrors, &mut table), Ok(true));
    assert_eq!(n.fault_child(&d1, Reason::Missing, &mut table), Ok(false));
    assert_eq!(n.fault_child(&d1, Reason::IOErrors, &mut table), Ok(false));
    assert_eq!(n.child_state(1), State::Faulted(Reason::IOErrors));
    let mut c = Child::new("x".to_string(), "u".to_string());
    assert_eq!(c.fault(Reason::Missing, &mut table), Ok(State::Faulted(Reason::Missing)));
    assert_eq!(c.fault(Reason::IOErrors, &mut table), Ok(State::Faulted(Reason::Missing)));
    assert_eq!(c.fault(Reason::IOErrors, &mut table), Ok(State::Faulted(Reason::Missing)));
}

#[test]
fn transitions_from_every_state() {
    let mut table = table_with(&["d0"], 16);
    let mut c = Child::new("d0".to_string(), "u".to_string());
    assert_eq!(c.close(&mut table), Err(ChildError::InvalidStateForOperation { state: State::Init, op: ChildOp::Close }));
    assert_eq!(c.destroy(&mut table), Err(ChildError::InvalidStateForOperation { state: State::Init, op: ChildOp::Destroy }));
    c.fault(Reason::IOErrors, &mut table).unwrap();
    // a faulted child may be closed, and then destroyed
    assert_eq!(c.close(&mut table), Ok(State::Closed));
    assert_eq!(c.destroy(&mut table), Ok(()));
    assert_eq!(
        c.fault(Reason::IOErrors, &mut table),
        Err(ChildError::InvalidStateForOperation { state: State::Destroyed, op: ChildOp::Fault })
    );
    // destroy fails when the device is already gone
    let mut c = Child::new("d0".to_string(), "u".to_string());
    c.fault(Reason::IOErrors, &mut table).unwrap();
    c.close(&mut table).unwrap();
    assert_eq!(c.destroy(&mut table), Err(ChildError::DestroyFailed { name: "d0".to_string() }));
    assert_eq!(c.state(), State::Faulted(Reason::Missing));
    assert_eq!(c.name(), "d0".to_string());
    assert_eq!(c.uri(), "u".to_string());
}

#[test]
fn retire_destroys_child_and_tolerates_absence() {
    let mut table = table_with(&["d0", "d1"], 16);
    let mut inv = Inventory::new();
    let mut n = Nexus::new("n".to_string());
    n.add_child(&mut inv, "d0".to_string(), "u0".to_string()).unwrap();
    n.add_child(&mut inv, "d1".to_string(), "u1".to_string()).unwrap();
    n.open_child(&"d0".to_string(), &mut table).unwrap();
    n.open_child(&"d1".to_string(), &mut table).unwrap();
    assert_eq!(n.retire_child(&"d1".to_string(), &mut table), NexusState::Degraded);
    assert_eq!(n.child_state(1), State::Destroyed);
    assert!(table.lookup(&"d1".to_string()).is_none());
    assert!(!n.is_paused());
    assert!(!n.is_fail_fast());
    assert_eq!(n.retire_child(&"nope".to_string(), &mut table), NexusState::Degraded);
    assert_eq!(n.retire_child(&"d0".to_string(), &mut table), NexusState::Faulted);
}

fn drive(n: &mut Nexus, table: &mut BdevTable, first: RebuildStep, block_len: usize) -> u64 {
    let src = n.child(n.child_lookup(&n.rebuild_task().unwrap().source().clone()).unwrap()).handle().unwrap();
    let tgt = table.open(&n.rebuild_task().unwrap().target().clone(), false).unwrap();
    let mut step = first;
    let mut rounds = 0u64;
    let mut last_offset = 0u64;
    loop {
        match step {
            RebuildStep::Read(seg) => {
                assert_eq!(seg.offset, last_offset);
                let data = table.read_blocks(&src.desc, seg.offset, seg.num_blocks as usize * block_len);
                let ok = data.is_ok();
                step = n.rebuild_read_complete(ok).unwrap();
                if let RebuildStep::Write(w) = step {
                    let buf = data.unwrap();
                    let ok = table.write_blocks(&tgt, w.offset, &buf).is_ok();
                    step = n.rebuild_write_complete(ok).unwrap();
                    rounds += 1;
                    let now = n.rebuild_task().unwrap().current_offset();
                    assert!(now > last_offset);
                    last_offset = now;
                }
            },
            RebuildStep::Completed | RebuildStep::Failed => break,
            RebuildStep::Write(_) => panic!("write before read"),
        }
    }
    assert_eq!(n.rebuild_task().unwrap().state(), RebuildState::Completed);
    rounds
}

#[test]
fn rebuild_sixteen_segments() {
    let blocks = 16 * 1024 * 1024 / 512;
    let mut table = table_with(&["a", "b"], blocks);
    let mut inv = Inventory::new();
    let mut n = Nexus::new("n".to_string());
    n.add_child(&mut inv, "a".to_string(), "ua".to_string()).unwrap();
    n.add_child(&mut inv, "b".to_string(), "ub".to_string()).unwrap();
    n.open_child(&"a".to_string(), &mut table).unwrap();
    n.open_child(&"b".to_string(), &mut table).unwrap();
    let a = n.child(0).handle().unwrap();
    let pattern: Vec<u8> = (0..8192usize).map(|i| (i * 7 % 256) as u8).collect();
    table.write_blocks(&a.desc, 100, &pattern).unwrap();
    table.write_blocks(&a.desc, blocks - 16, &pattern).unwrap();
    assert_eq!(n.fault_child(&"b".to_string(), Reason::IOErrors, &mut table), Ok(true));
    assert_eq!(n.start_rebuild(), Err(NexusError::Rebuild(RebuildError::NotConfigured)));
    n.init_rebuild(&table, 1024 * 1024 / 512).unwrap();
    assert_eq!(n.init_rebuild(&table, 2048), Err(NexusError::Rebuild(RebuildError::AlreadyInProgress)));
    let first = n.start_rebuild().unwrap();
    assert_eq!(first, RebuildStep::Read(Segment { offset: 0, num_blocks: 2048 }));
    assert_eq!(n.start_rebuild(), Err(NexusError::Rebuild(RebuildError::AlreadyInProgress)));
    let rounds = drive(&mut n, &mut table, first, 512);
    assert_eq!(rounds, 16);
    assert_eq!(n.rebuild_task().unwrap().segments_done(), 16);
    assert_eq!(n.rebuild_completion(&mut table), Ok(true));
    assert_eq!(n.child_state(1), State::Open);
    assert_eq!(n.status(), NexusState::Online);
    let b = n.child(1).handle().unwrap();
    let len = blocks as usize * 512;
    assert_eq!(table.read_blocks(&a.desc, 0, len).unwrap(), table.read_blocks(&b.desc, 0, len).unwrap());
    assert_eq!(n.rebuild_completion(&mut table), Err(NexusError::Rebuild(RebuildError::NotConfigured)));
}

#[test]
fn rebuild_rounds_up_partial_segment() {
    let mut t = RebuildTask::new("s".to_string(), "t".to_string(), 10, 10, 3).unwrap();
    assert_eq!(t.start(), RebuildStep::Read(Segment { offset: 0, num_blocks: 3 }));
    let mut segs = vec![];
    loop {
        match t.read_complete(true) {
            RebuildStep::Write(s) => segs.push(s),
            other => panic!("unexpected {:?}", other),
        }
        match t.write_complete(true) {
            RebuildStep::Read(_) => {},
            RebuildStep::Completed => break,
            other => panic!("unexpected {:?}", other),
        }
    }
    assert_eq!(
        segs,
        vec![
            Segment { offset: 0, num_blocks: 3 },
            Segment { offset: 3, num_blocks: 3 },
            Segment { offset: 6, num_blocks: 3 },
            Segment { offset: 9, num_blocks: 1 }
        ]
    );
    assert_eq!(t.state(), RebuildState::Completed);
    assert_eq!(t.current_offset(), 10);
    assert_eq!(t.total_blocks(), 10);
}

#[test]
fn rebuild_read_failure_fails_task() {
    let mut t = RebuildTask::new("s".to_string(), "t".to_string(), 8, 8, 4).unwrap();
    t.start();
    assert_eq!(t.read_complete(false), RebuildStep::Failed);
    assert_eq!(t.state(), RebuildState::Failed);
    let mut t = RebuildTask::new("s".to_string(), "t".to_string(), 8, 8, 4).unwrap();
    t.start();
    t.read_complete(true);
    assert_eq!(t.write_complete(false), RebuildStep::Failed);
    let mut t = RebuildTask::new("s".to_string(), "t".to_string(), 0, 0, 4).unwrap();
    assert_eq!(t.start(), RebuildStep::Completed);
}

#[test]
fn rebuild_errors() {
    assert_eq!(RebuildTask::new("s".to_string(), "t".to_string(), 9, 8, 4).err(), Some(RebuildError::TargetTooSmall));
    assert_eq!(RebuildTask::new("s".to_string(), "t".to_string(), 8, 8, 0).err(), Some(RebuildError::InvalidSegmentSize));
    let mut table = table_with(&["a"], 8);
    let mut inv = Inventory::new();
    let mut n = Nexus::new("n".to_string());
    n.add_child(&mut inv, "a".to_string(), "ua".to_string()).unwrap();
    n.open_child(&"a".to_string(), &mut table).unwrap();
    assert_eq!(n.init_rebuild(&table, 4), Err(NexusError::Rebuild(RebuildError::NoRebuildSolution)));
    // a single child has nothing to rebuild from
    assert_eq!(n.find_rebuild_source(), None);
    assert_eq!(n.find_rebuild_target(), None);
    // a target smaller than its source is refused
    table.create("small".to_string(), 512, 4).unwrap();
    n.add_child(&mut inv, "small".to_string(), "us".to_string()).unwrap();
    n.fault_child(&"small".to_string(), Reason::Missing, &mut table).unwrap();
    assert_eq!(n.find_rebuild_target(), Some(1));
    assert_eq!(n.find_rebuild_source(), Some(0));
    assert_eq!(n.init_rebuild(&table, 4), Err(NexusError::Rebuild(RebuildError::TargetTooSmall)));
    assert_eq!(n.rebuild_read_complete(true), Err(NexusError::Rebuild(RebuildError::NotConfigured)));
}

#[test]
fn failed_rebuild_completes_false() {
    let mut table = table_with(&["a", "b"], 8);
    let mut inv = Inventory::new();
    let mut n = Nexus::new("n".to_string());
    n.add_child(&mut inv, "a".to_string(), "ua".to_string()).unwrap();
    n.add_child(&mut inv, "b".to_string(), "ub".to_string()).unwrap();
    n.open_child(&"a".to_string(), &mut table).unwrap();
    n.fault_child(&"b".to_string(), Reason::IOErrors, &mut table).unwrap();
    n.init_rebuild(&table, 4).unwrap();
    assert_eq!(n.rebuild_completion(&mut table), Err(NexusError::Rebuild(RebuildError::AlreadyInProgress)));
    n.start_rebuild().unwrap();
    assert_eq!(n.rebuild_write_complete(true), Err(NexusError::Rebuild(RebuildError::DispatchFailed)));
    assert_eq!(n.rebuild_read_complete(false), Ok(RebuildStep::Failed));
    assert_eq!(n.rebuild_completion(&mut table), Ok(false));
    assert_eq!(n.child_state(1), State::Faulted(Reason::IOErrors));
}

#[test]
fn devices_and_handles() {
    let mut table = BdevTable::new();
    let b = table.create("m".to_string(), 512, 2048).unwrap();
    assert_eq!(b.size_in_bytes(), 1024 * 1024);
    assert_eq!(b.block_len(), 512);
    assert_eq!(b.num_blocks(), 2048);
    assert!(b.as_ptr() != 0);
    assert_eq!(table.lookup(&"m".to_string()), Some(b));
    assert_eq!(table.create("z".to_string(), 0, 8).err(), Some(CoreError::NoHandles));
    let h = BdevHandle::open(&mut table, &"m".to_string(), true).unwrap();
    assert_eq!(h.get_bdev(), b);
    assert_eq!(h.io_tuple(), (h.desc.as_ptr(), h.channel.as_ptr()));
    assert_eq!(
        BdevHandle::open(&mut table, &"m".to_string(), true).err(),
        Some(CoreError::BdevOpen { name: "m".to_string() })
    );
    assert!(BdevHandle::open(&mut table, &"m".to_string(), false).is_ok());
    assert_eq!(table.destroy(&"m".to_string()), Err(CoreError::DeviceBusy { name: "m".to_string() }));
    let buf = h.dma_malloc(4096).unwrap();
    assert_eq!(buf.buf, vec![0u8; 4096]);
    assert_eq!(
        table.write_blocks(&h.desc, 2047, &vec![1u8; 1024]),
        Err(CoreError::InvalidRange { offset: 2047, len: 1024 })
    );
    assert_eq!(table.write_blocks(&h.desc, 2046, &vec![1u8; 1024]), Ok(()));
    assert_eq!(table.read_blocks(&h.desc, 2047, 512).unwrap(), vec![1u8; 512]);
    assert_eq!(table.read_blocks(&h.desc, 2045, 512).unwrap(), vec![0u8; 512]);
    assert!(table.read_blocks(&h.desc, 2049, 0).is_err());
    h.close(&mut table);
    assert_eq!(table.destroy(&"m".to_string()), Ok(()));
    assert_eq!(table.destroy(&"m".to_string()), Err(CoreError::BdevNotFound { name: "m".to_string() }));
    let bdev = Bdev { handle: 3, block_len: 4096, num_blocks: 3, alignment: 0 };
    assert_eq!(bdev.size_in_bytes(), 12288);
}

#[test]
fn null_checked_handles() {
    let b = Bdev { handle: 1, block_len: 512, num_blocks: 1, alignment: 0 };
    assert!(Descriptor::from_null_checked(0, b).is_none());
    assert_eq!(Descriptor::from_null_checked(5, b).unwrap().as_ptr(), 5);
    assert_eq!(Descriptor::from_null_checked(5, b).unwrap().get_bdev(), b);
    assert!(IoChannel::from_null_checked(0).is_none());
    assert_eq!(IoChannel::from_null_checked(9).unwrap().as_ptr(), 9);
    assert!(Mthread::from_null_checked(0).is_none());
    let t = Mthread::from_null_checked(4).unwrap();
    assert_eq!(t.inner(), 4);
    assert_eq!(t.inner_mut(), 4);
}

#[test]
fn queue_pairs() {
    let mut q = QPair { handle: 1, state: QPairState::Enabled };
    assert!(q.enabled());
    assert_eq!(q.abort(Retry::Do), 0);
    assert_eq!(q.abort(Retry::Dont), 1);
    assert_eq!(u32::from(Retry::Dont), 1);
    q.disconnect();
    assert_eq!(q.state, QPairState::Disconnected);
    assert!(!q.enabled());
    assert_eq!(q.free(), 0);
    let defaults = QPairOpts { create_only: false, io_queue_requests: 512, io_queue_size: 128, delay_cmd: false };
    let o = QPairOptsBuilder::new().create_only(true).with_io_queue_size(64).build(defaults);
    assert_eq!(o, QPairOpts { create_only: true, io_queue_requests: 512, io_queue_size: 64, delay_cmd: false });
    assert_eq!(QPairOptsBuilder::new().with_io_queue_requests(9).build(defaults).io_queue_requests, 9);
}

#[test]
fn registry_keeps_names_unique() {
    let mut table = table_with(&["a", "b"], 8);
    let mut inv = Inventory::new();
    let mut n = Nexus::new("n".to_string());
    let mut m = Nexus::new("m".to_string());
    n.add_child(&mut inv, "a".to_string(), "malloc:///a".to_string()).unwrap();
    assert_eq!(inv.lookup(&"a".to_string()), Some("malloc:///a".to_string()));
    // a second nexus cannot take a registered name
    assert_eq!(
        m.add_child(&mut inv, "a".to_string(), "x".to_string()),
        Err(ChildError::AlreadyExists { name: "a".to_string() })
    );
    assert_eq!(m.child_count(), 0);
    n.open_child(&"a".to_string(), &mut table).unwrap();
    let c = n.remove_child(&"a".to_string(), &mut inv, &mut table).unwrap();
    assert_eq!(c.state(), State::Closed);
    assert_eq!(n.child_count(), 0);
    assert_eq!(inv.lookup(&"a".to_string()), None);
    assert_eq!(
        n.remove_child(&"a".to_string(), &mut inv, &mut table).err(),
        Some(NexusError::ChildNotFound { name: "a".to_string() })
    );
    // the device was released: it can be destroyed now
    assert_eq!(table.destroy(&"a".to_string()), Ok(()));
    m.add_child(&mut inv, "a".to_string(), "y".to_string()).unwrap();
    assert_eq!(inv.take(&"a".to_string()), Some("y".to_string()));
    assert_eq!(inv.take(&"a".to_string()), None);
    inv.insert("b".to_string(), "z".to_string()).unwrap();
    inv.drop_all();
    assert_eq!(inv.lookup(&"b".to_string()), None);
}

#[test]
fn admission_follows_pause_and_fail_fast() {
    let mut n = Nexus::new("n".to_string());
    assert_eq!(n.admit_io(), Admission::Dispatch);
    n.pause();
    assert_eq!(n.admit_io(), Admission::Hold);
    n.set_failfast();
    assert_eq!(n.admit_io(), Admission::Reject);
    assert!(n.channel_view().fail_fast());
    n.clear_failfast();
    n.resume();
    assert_eq!(n.admit_io(), Admission::Dispatch);
    assert!(!n.channel_view().fail_fast());
}

#[test]
fn rebuild_progress_in_mib() {
    let mut t = RebuildTask::new("s".to_string(), "t".to_string(), 4096, 4096, 2048).unwrap();
    assert_eq!(t.copied_mib(512), 0);
    t.start();
    t.read_complete(true);
    t.write_complete(true);
    assert_eq!(t.current_offset(), 2048);
    assert_eq!(t.copied_mib(512), 1);
    assert_eq!(t.copied_mib(4096), 8);
}

#[test]
fn byte_offsets_must_start_a_block() {
    let mut table = table_with(&["m"], 8);
    let h = BdevHandle::open(&mut table, &"m".to_string(), true).unwrap();
    assert_eq!(h.write_at(&mut table, 100, &vec![7u8; 512]), Err(CoreError::InvalidOffset { offset: 100 }));
    assert_eq!(h.write_at(&mut table, 1024, &vec![7u8; 512]), Ok(512));
    assert_eq!(h.read_at(&table, 1024, 512).unwrap(), vec![7u8; 512]);
    assert_eq!(h.read_at(&table, 512, 512).unwrap(), vec![0u8; 512]);
    assert_eq!(h.read_at(&table, 3, 1).err(), Some(CoreError::InvalidOffset { offset: 3 }));
    assert!(h.write_at(&mut table, 4096, &vec![1u8; 1]).is_err());
}

#[test]
fn retire_faults_child_whose_device_stays_claimed() {
    let mut table = table_with(&["d0", "d1"], 16);
    let mut inv = Inventory::new();
    let mut n = Nexus::new("n".to_string());
    n.add_child(&mut inv, "d0".to_string(), "u0".to_string()).unwrap();
    n.add_child(&mut inv, "d1".to_string(), "u1".to_string()).unwrap();
    n.open_child(&"d0".to_string(), &mut table).unwrap();
    n.fault_child(&"d1".to_string(), Reason::IOErrors, &mut table).unwrap();
    // another holder claims d1's device, so it cannot be destroyed
    let other = BdevHandle::open(&mut table, &"d1".to_string(), true).unwrap();
    assert_eq!(n.retire_child(&"d1".to_string(), &mut table), NexusState::Degraded);
    assert_eq!(n.child_state(1), State::Faulted(Reason::Missing));
    assert!(table.lookup(&"d1".to_string()).is_some());
    other.close(&mut table);
    // an Init child is left as it is
    table.create("d2".to_string(), 512, 16).unwrap();
    n.add_child(&mut inv, "d2".to_string(), "u2".to_string()).unwrap();
    n.retire_child(&"d2".to_string(), &mut table);
    assert_eq!(n.child_state(2), State::Init);
    assert!(table.lookup(&"d2".to_string()).is_some());
}

#[test]
fn missing_device_handle_open_error() {
    let mut table = BdevTable::new();
    assert_eq!(
        BdevHandle::open(&mut table, &"none".to_string(), false).err(),
        Some(CoreError::BdevOpen { name: "none".to_string() })
    );
}

#[test]
fn rebuild_covers_whole_target() {
    let mut t = RebuildTask::new("s".to_string(), "t".to_string(), 8, 12, 4).unwrap();
    assert_eq!(t.total_blocks(), 12);
    assert_eq!(t.start(), RebuildStep::Read(Segment { offset: 0, num_blocks: 4 }));
    let mut rounds = 1;
    loop {
        t.read_complete(true);
        match t.write_complete(true) {
            RebuildStep::Read(s) => {
                assert_eq!(s, Segment { offset: 4 * rounds, num_blocks: 4 });
                rounds += 1;
            },
            RebuildStep::Completed => break,
            other => panic!("unexpected {:?}", other),
        }
    }
    assert_eq!(rounds, 3);
    assert_eq!(t.current_offset(), 12);
}

#[test]
fn dispatch_reads_sixteen_segments() {
    let mut t = RebuildTask::new("a".to_string(), "b".to_string(), 32768, 32768, 2048).unwrap();
    let mut offsets = vec![];
    let mut step = t.dispatch_next_segment();
    loop {
        match step {
            RebuildStep::Read(seg) => {
                assert_eq!(seg.num_blocks, 2048);
                offsets.push(seg.offset);
                t.read_complete(true);
                step = t.write_complete(true);
            },
            RebuildStep::Completed => break,
            other => panic!("unexpected {:?}", other),
        }
    }
    assert_eq!(offsets, (0..16u64).map(|k| k * 2048).collect::<Vec<_>>());
    assert_eq!(t.segments_done(), 16);
    assert_eq!(t.state(), RebuildState::Completed);
}
