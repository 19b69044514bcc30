use mayastor::child::{ChildError, ChildOp, Reason, State};
use mayastor::device::{BdevTable, CoreError};
use mayastor::io::{
    ChannelView, Completion, DispatchError, IoCompletionStatus, IoStatus, IoType, NexusBio, Outcome, Submission,
};
use mayastor::device::IoChannel;
use mayastor::registry::Inventory;
use mayastor::nexus::{Nexus, NexusState};

const BLOCK: u32 = 512;

fn mib_blocks(mib: u64) -> u64 {
    mib * 1024 * 1024 / BLOCK as u64
}

fn two_child_nexus(table: &mut BdevTable, mib: u64) -> Nexus {
    table.create("malloc0".to_string(), BLOCK, mib_blocks(mib)).unwrap();
    table.create("malloc1".to_string(), BLOCK, mib_blocks(mib)).unwrap();
    let mut inv = Inventory::new();
    let mut n = Nexus::new("nexus0".to_string());
    n.add_child(&mut inv, "malloc0".to_string(), "malloc:///malloc0".to_string()).unwrap();
    n.add_child(&mut inv, "malloc1".to_string(), "malloc:///malloc1".to_string()).unwrap();
    n.open_child(&"malloc0".to_string(), table).unwrap();
    n.open_child(&"malloc1".to_string(), table).unwrap();
    n
}

fn channel() -> IoChannel {
    IoChannel::from_null_checked(7).unwrap()
}

/// Writes `buf` at block `offset` through the nexus, every sub-I/O
/// succeeding; returns the final status.
fn nexus_write(n: &Nexus, table: &mut BdevTable, view: &mut ChannelView, offset: u64, buf: &Vec<u8>) -> IoStatus {
    let mut io = NexusBio::new(IoType::Write, offset, buf.len() as u64 / BLOCK as u64, false, 0, channel());
    let count = match io.submit(view).unwrap() {
        Submission::All(k) => k,
        other => panic!("unexpected {:?}", other),
    };
    let writers = view.writers().clone();
    assert_eq!(writers.len(), count);
    let mut accepted = Vec::new();
    for w in &writers {
        let i = n.child_lookup(w).unwrap();
        let h = n.child(i).handle().unwrap();
        accepted.push(table.write_blocks(&h.desc, offset, buf).is_ok());
    }
    assert_eq!(io.writes_submitted(&accepted), None);
    let mut last = Completion { outcome: Outcome::InFlight, retire: false };
    for w in &writers {
        last = io.complete(0, w, IoCompletionStatus::Success, view);
    }
    assert_eq!(last.outcome, Outcome::Finished(io.status()));
    io.status()
}

/// Reads `len` bytes at block `offset` through the nexus.
fn nexus_read(n: &Nexus, table: &BdevTable, view: &mut ChannelView, offset: u64, len: usize) -> Vec<u8> {
    let mut io = NexusBio::new(IoType::Read, offset, len as u64 / BLOCK as u64, false, 0, channel());
    let r = match io.submit(view).unwrap() {
        Submission::Read(r) => r,
        other => panic!("unexpected {:?}", other),
    };
    let name = view.readers()[r].clone();
    let h = n.child(n.child_lookup(&name).unwrap()).handle().unwrap();
    let data = table.read_blocks(&h.desc, offset, len).unwrap();
    assert!(!io.read_submitted(true));
    let c = io.complete(0, &name, IoCompletionStatus::Success, view);
    assert_eq!(c.outcome, Outcome::Finished(IoStatus::Success));
    data
}

fn pattern(len: usize) -> Vec<u8> {
    (0..len).map(|i| (i % 251) as u8).collect()
}

#[test]
fn write_then_read_back_matches() {
    let mut table = BdevTable::new();
    let n = two_child_nexus(&mut table, 64);
    assert_eq!(n.status(), NexusState::Online);
    let mut view = n.channel_view();
    let buf = pattern(4096);
    assert_eq!(nexus_write(&n, &mut table, &mut view, 0, &buf), IoStatus::Success);
    // both mirrors hold the data, whichever one the reads are routed to
    for _ in 0..2 {
        assert_eq!(nexus_read(&n, &table, &mut view, 0, 4096), buf);
    }
}

#[test]
fn submission_failure_fails_write_and_faults_child() {
    let mut table = BdevTable::new();
    let mut n = two_child_nexus(&mut table, 1);
    let mut view = n.channel_view();
    let buf = pattern(4096);
    let mut io = NexusBio::new(IoType::Write, 0, 8, false, 0, channel());
    assert_eq!(io.submit(&mut view), Ok(Submission::All(2)));
    // child A takes the write, child B refuses to enqueue it
    let a = n.child(0).handle().unwrap();
    assert!(table.write_blocks(&a.desc, 0, &buf).is_ok());
    assert_eq!(io.writes_submitted(&vec![true, false]), Some(1));
    assert!(io.ctx().submission_failure);
    assert_eq!(io.status(), IoStatus::Pending);
    let c = io.complete(0, &"malloc0".to_string(), IoCompletionStatus::Success, &mut view);
    assert_eq!(c.outcome, Outcome::Finished(IoStatus::Failed));
    assert_eq!(io.status(), IoStatus::Failed);
    // child B goes toward faulted
    assert_eq!(n.fault_child(&"malloc1".to_string(), Reason::IOErrors, &mut table), Ok(true));
    assert_eq!(n.child_state(1), State::Faulted(Reason::IOErrors));
    assert_eq!(n.status(), NexusState::Degraded);
    // child A's data is intact
    assert_eq!(table.read_blocks(&a.desc, 0, 4096).unwrap(), buf);
}

#[test]
fn write_fails_if_any_child_fails() {
    let mut table = BdevTable::new();
    let n = two_child_nexus(&mut table, 1);
    let mut view = n.channel_view();
    let mut io = NexusBio::new(IoType::Write, 0, 1, false, 0, channel());
    assert_eq!(io.submit(&mut view), Ok(Submission::All(2)));
    assert_eq!(io.writes_submitted(&vec![true, true]), None);
    let c = io.complete(0, &"malloc1".to_string(), IoCompletionStatus::Failed, &mut view);
    assert_eq!(c, Completion { outcome: Outcome::InFlight, retire: true });
    let c = io.complete(0, &"malloc0".to_string(), IoCompletionStatus::Success, &mut view);
    assert_eq!(c, Completion { outcome: Outcome::Finished(IoStatus::Failed), retire: false });
    assert_eq!(io.ctx().num_ok, 1);
    assert_eq!(io.ctx().targets, 2);
    // the failed child left this core's view
    assert_eq!(view.writers(), &vec!["malloc0".to_string()]);
    assert_eq!(view.readers(), &vec!["malloc0".to_string()]);
}

#[test]
fn invalid_opcode_does_not_retire() {
    let mut table = BdevTable::new();
    let n = two_child_nexus(&mut table, 1);
    let mut view = n.channel_view();
    let mut io = NexusBio::new(IoType::Unmap, 0, 1, false, 0, channel());
    assert_eq!(io.submit(&mut view), Ok(Submission::All(2)));
    io.writes_submitted(&vec![true, true]);
    let c = io.complete(0, &"malloc0".to_string(), IoCompletionStatus::InvalidOpcode, &mut view);
    assert_eq!(c, Completion { outcome: Outcome::InFlight, retire: false });
    let c = io.complete(0, &"malloc1".to_string(), IoCompletionStatus::Success, &mut view);
    assert_eq!(c.outcome, Outcome::Finished(IoStatus::Failed));
    assert_eq!(view.writers().len(), 2);
}

#[test]
fn in_flight_reaches_zero_once() {
    let mut view = ChannelView::new(vec!["a".to_string(), "b".to_string(), "c".to_string()]);
    let mut io = NexusBio::new(IoType::WriteZeros, 0, 1, false, 3, channel());
    assert_eq!(io.submit(&mut view), Ok(Submission::All(3)));
    io.writes_submitted(&vec![true, true, true]);
    assert_eq!(io.ctx().in_flight, 3);
    for (k, name) in ["a", "b", "c"].iter().enumerate() {
        let c = io.complete(3, &name.to_string(), IoCompletionStatus::Success, &mut view);
        assert_eq!(io.ctx().in_flight, 2 - k);
        if k < 2 {
            assert_eq!(c.outcome, Outcome::InFlight);
            assert_eq!(io.status(), IoStatus::Pending);
        } else {
            assert_eq!(c.outcome, Outcome::Finished(IoStatus::Success));
        }
    }
    assert_eq!(io.ctx().core, 3);
    assert_eq!(io.status(), IoStatus::Success);
}

#[test]
fn flush_and_unsupported_complete_at_once() {
    let mut view = ChannelView::new(vec!["a".to_string()]);
    let mut io = NexusBio::new(IoType::Flush, 0, 0, false, 0, channel());
    assert_eq!(io.submit(&mut view), Ok(Submission::Nothing));
    assert_eq!(io.status(), IoStatus::Success);
    let mut io = NexusBio::new(IoType::NvmeAdmin, 0, 0, false, 0, channel());
    assert_eq!(io.submit(&mut view), Err(DispatchError::UnsupportedOperation));
    assert_eq!(io.status(), IoStatus::Failed);
    let mut io = NexusBio::new(IoType::Compare, 0, 0, false, 0, channel());
    assert_eq!(io.submit(&mut view), Err(DispatchError::UnsupportedOperation));
}

#[test]
fn fail_fast_rejects_new_io() {
    let mut view = ChannelView::new(vec!["a".to_string()]);
    view.set_fail_fast(true);
    let mut io = NexusBio::new(IoType::Write, 0, 1, false, 0, channel());
    assert_eq!(io.submit(&mut view), Err(DispatchError::FailFast));
    assert_eq!(io.status(), IoStatus::Failed);
    view.set_fail_fast(false);
    let mut io = NexusBio::new(IoType::Write, 0, 1, false, 0, channel());
    assert_eq!(io.submit(&mut view), Ok(Submission::All(1)));
}

#[test]
fn read_without_children_fails() {
    let mut view = ChannelView::new(vec![]);
    let mut io = NexusBio::new(IoType::Read, 0, 1, false, 0, channel());
    assert_eq!(io.submit(&mut view), Err(DispatchError::NoDevicesAvailable));
    assert_eq!(io.status(), IoStatus::Failed);
    let mut io = NexusBio::new(IoType::Write, 0, 1, false, 0, channel());
    assert_eq!(io.submit(&mut view), Err(DispatchError::NoDevicesAvailable));
}

#[test]
fn failed_read_is_retried_on_another_child() {
    let mut view = ChannelView::new(vec!["a".to_string(), "b".to_string()]);
    let mut io = NexusBio::new(IoType::Read, 0, 1, false, 0, channel());
    let first = match io.submit(&mut view) {
        Ok(Submission::Read(i)) => view.readers()[i].clone(),
        other => panic!("unexpected {:?}", other),
    };
    assert!(!io.read_submitted(true));
    let c = io.complete(0, &first, IoCompletionStatus::Failed, &mut view);
    assert_eq!(c, Completion { outcome: Outcome::Retry, retire: true });
    assert_eq!(io.status(), IoStatus::Pending);
    let second = match io.submit(&mut view) {
        Ok(Submission::Read(i)) => view.readers()[i].clone(),
        other => panic!("unexpected {:?}", other),
    };
    assert_ne!(first, second);
    assert!(!io.read_submitted(true));
    let c = io.complete(0, &second, IoCompletionStatus::Failed, &mut view);
    assert_eq!(c.outcome, Outcome::Retry);
    // no child left: the retry fails at once
    assert_eq!(io.submit(&mut view), Err(DispatchError::NoDevicesAvailable));
    assert_eq!(io.status(), IoStatus::Failed);
}

#[test]
fn read_submission_failure_retires_child() {
    let mut view = ChannelView::new(vec!["a".to_string()]);
    let mut io = NexusBio::new(IoType::Read, 0, 1, false, 0, channel());
    assert_eq!(io.submit(&mut view), Ok(Submission::Read(0)));
    assert!(io.read_submitted(false));
    assert_eq!(io.status(), IoStatus::Failed);
}

#[test]
fn read_waits_for_buffer() {
    let mut view = ChannelView::new(vec!["a".to_string()]);
    let mut io = NexusBio::new(IoType::Read, 0, 1, true, 0, channel());
    assert_eq!(io.submit(&mut view), Ok(Submission::NeedBuffer));
    assert_eq!(io.buffer_ready(true, &mut view), Ok(Submission::Read(0)));
    let mut io = NexusBio::new(IoType::Read, 0, 1, true, 0, channel());
    assert_eq!(io.submit(&mut view), Ok(Submission::NeedBuffer));
    assert_eq!(io.buffer_ready(false, &mut view), Err(DispatchError::NoMemory));
    assert_eq!(io.status(), IoStatus::NoMemory);
}

#[test]
fn reads_round_robin() {
    let mut view = ChannelView::new(vec!["a".to_string(), "b".to_string(), "c".to_string()]);
    assert_eq!(view.child_select(), Some(1));
    assert_eq!(view.child_select(), Some(2));
    assert_eq!(view.child_select(), Some(0));
    assert!(view.remove_child(&"b".to_string()));
    assert!(!view.remove_child(&"b".to_string()));
    assert_eq!(view.readers().len(), 2);
}

#[test]
fn fail_checked_waits_for_in_flight() {
    let mut view = ChannelView::new(vec!["a".to_string(), "b".to_string()]);
    let mut io = NexusBio::new(IoType::Write, 0, 1, false, 0, channel());
    io.submit(&mut view).unwrap();
    io.writes_submitted(&vec![false, false]);
    assert_eq!(io.status(), IoStatus::Failed);
    let mut io = NexusBio::new(IoType::Reset, 0, 1, false, 0, channel());
    io.fail_checked();
    assert_eq!(io.status(), IoStatus::Failed);
    io.fail_checked();
    assert_eq!(io.status(), IoStatus::Failed);
}

#[test]
fn nexus_state_follows_children() {
    let mut table = BdevTable::new();
    let mut n = two_child_nexus(&mut table, 1);
    assert_eq!(n.status(), NexusState::Online);
    n.fault_child(&"malloc0".to_string(), Reason::IOErrors, &mut table).unwrap();
    assert_eq!(n.status(), NexusState::Degraded);
    n.close_child(&"malloc1".to_string(), &mut table).unwrap();
    assert_eq!(n.status(), NexusState::Faulted);
    assert_eq!(Nexus::new("empty".to_string()).status(), NexusState::Faulted);
    let mut inv = Inventory::new();
    assert_eq!(
        n.add_child(&mut inv, "malloc0".to_string(), "x".to_string()),
        Err(ChildError::AlreadyExists { name: "malloc0".to_string() })
    );
    assert_eq!(n.child_count(), 2);
    assert_eq!(table.create("malloc0".to_string(), BLOCK, 8), Err(CoreError::Exists { name: "malloc0".to_string() }));
    assert_eq!(n.child(0).state(), State::Faulted(Reason::IOErrors));
    assert_eq!(
        n.close_child(&"malloc1".to_string(), &mut table),
        Err(mayastor::nexus::NexusError::Child(ChildError::InvalidStateForOperation {
            state: State::Closed,
            op: ChildOp::Close
        }))
    );
}
