//! Dispatch of nexus I/O: a read goes to one child, a write, unmap, reset or
//! write-zeroes fans out to every open child, and the completions of the
//! sub-I/Os fan in to one outcome for the whole I/O.
use vstd::prelude::*;

use crate::device::IoChannel;

verus! {

/// The kinds of block I/O.
#[derive(Debug, Clone, Copy, PartialEq, Eq, Structural)]
pub enum IoType {
    Invalid,
    Read,
    Write,
    Unmap,
    Flush,
    Reset,
    NvmeAdmin,
    NvmeIo,
    NvmeIoMd,
    WriteZeros,
    ZeroCopy,
    ZoneInfo,
    ZoneManagement,
    ZoneAppend,
    Compare,
    CompareAndWrite,
    Abort,
    IoNumTypes,
}

/// The status of an I/O.
#[derive(Debug, Clone, Copy, PartialEq, Eq, Structural)]
pub enum IoStatus {
    Aborted,
    FirstFusedFailed,
    MisCompared,
    NoMemory,
    ScsiError,
    NvmeError,
    Failed,
    Pending,
    Success,
}

/// How a sub-I/O completed on a child.
#[derive(Debug, Clone, Copy, PartialEq, Eq, Structural)]
pub enum IoCompletionStatus {
    Success,
    /// The child does not support the command: benign, the child stays.
    InvalidOpcode,
    /// Any other failure: the child is retired.
    Failed,
}

/// Errors of I/O dispatch.
#[derive(Debug, Clone, Copy, PartialEq, Eq, Structural)]
pub enum DispatchError {
    /// No open child to read from.
    NoDevicesAvailable,
    /// A sub-I/O could not even be enqueued.
    SubmissionFailed,
    /// The I/O kind is not supported.
    UnsupportedOperation,
    /// The nexus rejects new I/O while it is being reconfigured.
    FailFast,
    /// No buffer could be obtained for a read.
    NoMemory,
}

/// Whether an I/O of this kind goes to all open children.
pub open spec fn is_fan_out(t: IoType) -> bool {
    t == IoType::Write || t == IoType::Unmap || t == IoType::Reset || t == IoType::WriteZeros
}

/// The I/O still belongs to the same issuing core and channel.
pub open spec fn same_origin(a: NioCtx, b: NioCtx) -> bool {
    a.core == b.core && a.channel == b.channel
}

/// One core's view of the children of a nexus: the names of those to read
/// from and to write to, the last reader used, and the fail-fast flag.
#[derive(Debug)]
pub struct ChannelView {
    readers: Vec<String>,
    writers: Vec<String>,
    previous: usize,
    fail_fast: u32,
}

impl ChannelView {
    pub closed spec fn readers_spec(&self) -> Seq<Seq<char>> {
        self.readers@.map_values(|s: String| s@)
    }

    pub closed spec fn writers_spec(&self) -> Seq<Seq<char>> {
        self.writers@.map_values(|s: String| s@)
    }

    pub closed spec fn fail_fast_spec(&self) -> bool {
        self.fail_fast > 0
    }

    /// The position of the reader picked last.
    pub closed spec fn previous_spec(&self) -> int {
        self.previous as int
    }

    /// The names in the view are distinct.
    pub open spec fn wf(&self) -> bool {
        self.readers_spec().no_duplicates() && self.writers_spec().no_duplicates()
    }

    /// A view that reads from and writes to the given children, whose names
    /// are distinct.
    pub fn new(children: Vec<String>) -> (r: ChannelView)
        requires
            children@.map_values(|s: String| s@).no_duplicates(),
        ensures
            r.wf(),
            r.readers_spec() == children@.map_values(|s: String| s@),
            r.writers_spec() == children@.map_values(|s: String| s@),
            !r.fail_fast_spec(),
    {
        let writers = children.clone();
        proof {
            assert(writers@.map_values(|s: String| s@) =~= children@.map_values(|s: String| s@)) by {
                assert forall|i: int| 0 <= i < writers@.len() implies writers@[i]@ == children@[i]@ by {
                    assert(cloned::<String>(children@[i], writers@[i]));
                }
            }
        }
        ChannelView { readers: children, writers, previous: 0, fail_fast: 0 }
    }

    pub fn readers(&self) -> (r: &Vec<String>)
        ensures
            r@.map_values(|s: String| s@) == self.readers_spec(),
    {
        &self.readers
    }

    pub fn writers(&self) -> (r: &Vec<String>)
        ensures
            r@.map_values(|s: String| s@) == self.writers_spec(),
    {
        &self.writers
    }

    /// Raises or lowers the fail-fast flag.
    pub fn set_fail_fast(&mut self, on: bool)
        ensures
            final(self).fail_fast_spec() == on,
            final(self).readers_spec() == old(self).readers_spec(),
            final(self).writers_spec() == old(self).writers_spec(),
    {
        self.fail_fast = if on { 1 } else { 0 };
    }

    pub fn fail_fast(&self) -> (r: bool)
        ensures
            r == self.fail_fast_spec(),
    {
        self.fail_fast > 0
    }

    /// Picks the reader after the one picked last, round robin.
    pub fn child_select(&mut self) -> (r: Option<usize>)
        ensures
            r.is_none() <==> old(self).readers_spec().len() == 0,
            r matches Some(i) ==> i < old(self).readers_spec().len(),
            r matches Some(i) ==> i == (if old(self).previous_spec() + 1 >= old(self).readers_spec().len() {
                0
            } else {
                old(self).previous_spec() + 1
            }) && final(self).previous_spec() == i,
            final(self).readers_spec() == old(self).readers_spec(),
            final(self).writers_spec() == old(self).writers_spec(),
            final(self).fail_fast_spec() == old(self).fail_fast_spec(),
    {
        let n = self.readers.len();
        if n == 0 {
            return None;
        }
        let next = if self.previous >= n - 1 { 0 } else { self.previous + 1 };
        self.previous = next;
        Some(next)
    }

    fn remove_from(v: &mut Vec<String>, name: &String) -> (r: bool)
        requires
            old(v)@.map_values(|s: String| s@).no_duplicates(),
        ensures
            final(v)@.map_values(|s: String| s@).no_duplicates(),
            !final(v)@.map_values(|s: String| s@).contains(name@),
            r == old(v)@.map_values(|s: String| s@).contains(name@),
            !r ==> final(v)@ == old(v)@,
            r ==> exists|i: int|
                0 <= i < old(v)@.len() && old(v)@[i]@ == name@ && final(v)@.map_values(|s: String| s@) == old(
                    v,
                )@.map_values(|s: String| s@).remove(i),
    {
        let ghost names = v@.map_values(|s: String| s@);
        let mut i: usize = 0;
        while i < v.len()
            invariant
                i <= v@.len(),
                v@ == old(v)@,
                names == old(v)@.map_values(|s: String| s@),
                names.no_duplicates(),
                forall|k: int| 0 <= k < i ==> v@[k]@ != name@,
            decreases v@.len() - i,
        {
            if v[i] == *name {
                assert(names[i as int] == name@);
                let _ = v.remove(i);
                assert(v@.map_values(|s: String| s@) =~= names.remove(i as int));
                proof {
                    let after = names.remove(i as int);
                    assert forall|a: int, b: int| 0 <= a < after.len() && 0 <= b < after.len() && a != b
                        implies after[a] != after[b] by {
                        let a0 = if a < i { a } else { a + 1 };
                        let b0 = if b < i { b } else { b + 1 };
                        assert(after[a] == names[a0] && after[b] == names[b0]);
                        assert(names[a0] != names[b0]);
                    }
                    if after.contains(name@) {
                        let k = choose|k: int| 0 <= k < after.len() && after[k] == name@;
                        let k0 = if k < i { k } else { k + 1 };
                        assert(names[k0] == name@);
                        assert(names[k0] != names[i as int]);
                    }
                }
                return true;
            }
            i = i + 1;
        }
        assert(!names.contains(name@)) by {
            if names.contains(name@) {
                let k = choose|k: int| 0 <= k < names.len() && names[k] == name@;
                assert(v@[k]@ == name@);
            }
        }
        assert(v@ == old(v)@);
        false
    }

    /// Takes the named child out of this view, for reading and writing;
    /// tells whether it was in the view.
    pub fn remove_child(&mut self, name: &String) -> (r: bool)
        requires
            old(self).wf(),
        ensures
            final(self).wf(),
            !final(self).readers_spec().contains(name@),
            !final(self).writers_spec().contains(name@),
            r == (old(self).readers_spec().contains(name@) || old(self).writers_spec().contains(name@)),
            !old(self).readers_spec().contains(name@) ==> final(self).readers_spec() == old(self).readers_spec(),
            !old(self).writers_spec().contains(name@) ==> final(self).writers_spec() == old(self).writers_spec(),
            old(self).readers_spec().contains(name@) ==> exists|i: int|
                0 <= i < old(self).readers_spec().len() && old(self).readers_spec()[i] == name@
                    && final(self).readers_spec() == old(self).readers_spec().remove(i),
            old(self).writers_spec().contains(name@) ==> exists|i: int|
                0 <= i < old(self).writers_spec().len() && old(self).writers_spec()[i] == name@
                    && final(self).writers_spec() == old(self).writers_spec().remove(i),
            final(self).fail_fast_spec() == old(self).fail_fast_spec(),
    {
        let a = Self::remove_from(&mut self.readers, name);
        let b = Self::remove_from(&mut self.writers, name);
        a || b
    }
}

/// The dispatch state of one nexus I/O.
#[derive(Debug, Clone, Copy, PartialEq, Eq)]
pub struct NioCtx {
    /// Sub-I/Os submitted and not yet completed.
    pub in_flight: usize,
    /// Sub-I/Os that completed successfully.
    pub num_ok: usize,
    /// `Failed` once a sub-I/O failed, else `Pending`.
    pub status: IoStatus,
    /// The channel through which the I/O arrived.
    pub channel: IoChannel,
    /// The core that issued the I/O; its completions run there.
    pub core: u32,
    /// Whether a sub-I/O failed.
    pub must_fail: bool,
    /// Whether a sub-I/O could not be enqueued.
    pub submission_failure: bool,
    /// The children the I/O was dispatched to.
    pub targets: usize,
    /// The sub-I/Os actually enqueued.
    pub submitted: usize,
}

/// What the caller is to submit after dispatch.
#[derive(Debug, Clone, Copy, PartialEq, Eq, Structural)]
pub enum Submission {
    /// Read from the reader at this index of the view.
    Read(usize),
    /// Submit to every writer of the view, in order.
    All(usize),
    /// Obtain a buffer, then report it with `buffer_ready`.
    NeedBuffer,
    /// Nothing to submit: the I/O is complete.
    Nothing,
}

/// Where an I/O stands after a completion.
#[derive(Debug, Clone, Copy, PartialEq, Eq, Structural)]
pub enum Outcome {
    /// Sub-I/Os are still in flight.
    InFlight,
    /// The I/O completed with this status.
    Finished(IoStatus),
    /// The read failed; dispatch it again to another child.
    Retry,
}

/// The result of one sub-I/O completion: the outcome, and whether the
/// child must be retired.
#[derive(Debug, Clone, Copy, PartialEq, Eq, Structural)]
pub struct Completion {
    pub outcome: Outcome,
    pub retire: bool,
}

/// A block I/O as it arrives from above: its kind, its range, whether it
/// still needs a data buffer, and the status it completed with.
#[derive(Debug, Clone, Copy, PartialEq, Eq)]
pub struct Bio {
    pub io_type: IoType,
    pub offset: u64,
    pub num_blocks: u64,
    pub need_buf: bool,
    pub status: IoStatus,
}

impl Bio {
    pub fn io_type(&self) -> (r: IoType)
        ensures
            r == self.io_type,
    {
        self.io_type
    }

    pub fn offset(&self) -> (r: u64)
        ensures
            r == self.offset,
    {
        self.offset
    }

    pub fn num_blocks(&self) -> (r: u64)
        ensures
            r == self.num_blocks,
    {
        self.num_blocks
    }

    pub fn status(&self) -> (r: IoStatus)
        ensures
            r == self.status,
    {
        self.status
    }
}

/// One I/O submitted to the nexus, with its dispatch state and the status
/// with which it completes upstream.
pub struct NexusBio {
    bio: Bio,
    ctx: NioCtx,
    recorded: bool,
    completions: Ghost<nat>,
}

impl NexusBio {
    pub closed spec fn io_type_spec(&self) -> IoType {
        self.bio.io_type
    }

    pub closed spec fn offset_spec(&self) -> u64 {
        self.bio.offset
    }

    pub closed spec fn num_blocks_spec(&self) -> u64 {
        self.bio.num_blocks
    }

    /// The status with which the I/O completed upstream; `Pending` until then.
    pub closed spec fn status_spec(&self) -> IoStatus {
        self.bio.status
    }

    pub closed spec fn ctx_spec(&self) -> NioCtx {
        self.ctx
    }

    /// How many times the I/O was completed upstream.
    pub closed spec fn completions(&self) -> nat {
        self.completions@
    }

    /// Nothing has been dispatched yet: the I/O is new, or its dispatch state
    /// was reset for a retry.
    pub closed spec fn fresh(&self) -> bool {
        &&& self.bio.status == IoStatus::Pending
        &&& !self.recorded
        &&& self.ctx.targets == 0
        &&& self.ctx.in_flight == 0
        &&& self.ctx.num_ok == 0
        &&& !self.ctx.must_fail
    }

    /// Targets were chosen and the outcome of their submission is awaited.
    pub closed spec fn awaiting_submission(&self) -> bool {
        &&& self.bio.status == IoStatus::Pending
        &&& !self.recorded
        &&& self.ctx.targets > 0
        &&& self.ctx.in_flight == 0
        &&& self.ctx.num_ok == 0
        &&& !self.ctx.must_fail
    }

    pub closed spec fn wf(&self) -> bool {
        let c = self.ctx;
        &&& c.submitted <= c.targets
        &&& c.num_ok + c.in_flight <= c.submitted
        &&& c.must_fail <==> c.num_ok + c.in_flight < c.submitted
        &&& self.recorded ==> (c.submission_failure <==> c.submitted < c.targets)
        &&& !self.recorded ==> c.submitted == 0 && !c.submission_failure
        &&& (c.status == IoStatus::Pending || c.status == IoStatus::Failed)
        &&& (c.status == IoStatus::Failed) == c.must_fail
        &&& self.bio.status != IoStatus::Pending ==> c.in_flight == 0
        &&& self.completions@ == if self.bio.status == IoStatus::Pending { 0nat } else { 1nat }
        &&& (self.bio.status == IoStatus::Success || self.bio.status == IoStatus::Failed || self.bio.status == IoStatus::Pending
            || self.bio.status == IoStatus::NoMemory)
        &&& (self.bio.status == IoStatus::Success && c.targets > 0) ==> c.num_ok == c.targets
        &&& (self.bio.status == IoStatus::Failed && c.targets > 0) ==> c.num_ok < c.targets
        &&& (self.bio.status == IoStatus::Pending && c.in_flight == 0) ==> c.num_ok == 0
    }

    /// A new I/O on `channel`, issued by `core`, with nothing dispatched.
    pub fn new(
        io_type: IoType,
        offset: u64,
        num_blocks: u64,
        need_buf: bool,
        core: u32,
        channel: IoChannel,
    ) -> (r: NexusBio)
        ensures
            r.wf(),
            r.fresh(),
            r.io_type_spec() == io_type,
            r.offset_spec() == offset,
            r.num_blocks_spec() == num_blocks,
            r.needs_buffer() == need_buf,
            r.status_spec() == IoStatus::Pending,
            r.completions() == 0,
            r.ctx_spec() == (NioCtx {
                in_flight: 0,
                num_ok: 0,
                status: IoStatus::Pending,
                channel,
                core,
                must_fail: false,
                submission_failure: false,
                targets: 0,
                submitted: 0,
            }),
    {
        NexusBio {
            bio: Bio { io_type, offset, num_blocks, need_buf, status: IoStatus::Pending },
            ctx: NioCtx {
                in_flight: 0,
                num_ok: 0,
                status: IoStatus::Pending,
                channel,
                core,
                must_fail: false,
                submission_failure: false,
                targets: 0,
                submitted: 0,
            },
            recorded: false,
            completions: Ghost(0),
        }
    }

    /// The I/O as it arrived, with the status it completed with.
    pub fn bio(&self) -> (r: &Bio)
        ensures
            r.io_type == self.io_type_spec(),
            r.offset == self.offset_spec(),
            r.num_blocks == self.num_blocks_spec(),
            r.status == self.status_spec(),
    {
        &self.bio
    }

    /// The dispatch state.
    pub fn ctx(&self) -> (r: &NioCtx)
        ensures
            *r == self.ctx_spec(),
    {
        &self.ctx
    }

    /// The dispatch state, for change.
    pub fn ctx_as_mut(&mut self) -> (r: &mut NioCtx)
        ensures
            *r == old(self).ctx_spec(),
            final(self).ctx_spec() == *final(r),
            final(self).status_spec() == old(self).status_spec(),
            final(self).io_type_spec() == old(self).io_type_spec(),
            final(self).offset_spec() == old(self).offset_spec(),
            final(self).num_blocks_spec() == old(self).num_blocks_spec(),
            final(self).needs_buffer() == old(self).needs_buffer(),
            final(self).completions() == old(self).completions(),
    {
        &mut self.ctx
    }

    /// The kind of I/O.
    pub fn cmd(&self) -> (r: IoType)
        ensures
            r == self.io_type_spec(),
    {
        self.bio.io_type
    }

    pub fn offset(&self) -> (r: u64)
        ensures
            r == self.offset_spec(),
    {
        self.bio.offset
    }

    pub fn num_blocks(&self) -> (r: u64)
        ensures
            r == self.num_blocks_spec(),
    {
        self.bio.num_blocks
    }

    /// The status with which the I/O completed upstream.
    pub fn status(&self) -> (r: IoStatus)
        ensures
            r == self.status_spec(),
    {
        self.bio.status
    }

    /// Completes the I/O upstream with `st`.
    fn finish(&mut self, st: IoStatus)
        requires
            old(self).bio.status == IoStatus::Pending,
            old(self).ctx.in_flight == 0,
            st == IoStatus::Success || st == IoStatus::Failed || st == IoStatus::NoMemory,
        ensures
            final(self).bio.status == st,
            final(self).completions@ == old(self).completions@ + 1,
            final(self).ctx == old(self).ctx,
            final(self).bio.io_type == old(self).bio.io_type,
            final(self).bio.offset == old(self).bio.offset,
            final(self).bio.num_blocks == old(self).bio.num_blocks,
            final(self).bio.need_buf == old(self).bio.need_buf,
            final(self).recorded == old(self).recorded,
    {
        self.bio.status = st;
        self.completions = Ghost(self.completions@ + 1);
    }

    /// Completes the I/O as failed once nothing is in flight any more.
    pub fn fail_checked(&mut self)
        requires
            old(self).wf(),
        ensures
            final(self).wf(),
            final(self).ctx_spec() == old(self).ctx_spec(),
            final(self).io_type_spec() == old(self).io_type_spec(),
            final(self).status_spec() == if old(self).ctx_spec().in_flight == 0 && old(self).status_spec()
                == IoStatus::Pending {
                IoStatus::Failed
            } else {
                old(self).status_spec()
            },
    {
        if self.ctx.in_flight == 0 && self.bio.status == IoStatus::Pending {
            self.finish(IoStatus::Failed);
        }
    }

    /// Whether a read must obtain a buffer before it can be dispatched.
    pub closed spec fn needs_buffer(&self) -> bool {
        self.bio.need_buf
    }

    /// Whether the I/O went to its targets and their outcome is awaited.
    pub closed spec fn recorded_spec(&self) -> bool {
        self.recorded
    }

    /// Reads go to one reader of the view, chosen round robin.
    fn do_readv(&mut self, view: &mut ChannelView) -> (r: Result<Submission, DispatchError>)
        requires
            old(self).wf(),
            old(self).fresh(),
            old(self).bio.io_type == IoType::Read,
        ensures
            final(self).wf(),
            same_origin(final(self).ctx_spec(), old(self).ctx_spec()),
            final(self).bio.io_type == old(self).bio.io_type,
            final(self).bio.offset == old(self).bio.offset,
            final(self).bio.num_blocks == old(self).bio.num_blocks,
            final(view).readers_spec() == old(view).readers_spec(),
            final(view).writers_spec() == old(view).writers_spec(),
            final(view).fail_fast_spec() == old(view).fail_fast_spec(),
            old(view).readers_spec().len() == 0 ==> r == Err::<Submission, DispatchError>(
                DispatchError::NoDevicesAvailable) && final(self).bio.status == IoStatus::Failed,
            old(view).readers_spec().len() > 0 ==> (r matches Ok(Submission::Read(i)) && i < old(view).readers_spec().len()) && final(self).awaiting_submission() && final(self).ctx.targets == 1,
    {
        match view.child_select() {
            Some(i) => {
                self.ctx.targets = 1;
                Ok(Submission::Read(i))
            },
            None => {
                self.finish(IoStatus::Failed);
                Err(DispatchError::NoDevicesAvailable)
            },
        }
    }

    /// Dispatches the I/O by its kind: a read to one reader of the view, a
    /// write, unmap, reset or write-zeroes to every writer; a flush completes
    /// at once, any other kind fails at once. While the view fails fast, the
    /// I/O fails at once.
    pub fn submit(&mut self, view: &mut ChannelView) -> (r: Result<Submission, DispatchError>)
        requires
            old(self).wf(),
            old(self).fresh(),
        ensures
            final(self).wf(),
            same_origin(final(self).ctx_spec(), old(self).ctx_spec()),
            final(self).io_type_spec() == old(self).io_type_spec(),
            final(self).offset_spec() == old(self).offset_spec(),
            final(self).num_blocks_spec() == old(self).num_blocks_spec(),
            final(view).readers_spec() == old(view).readers_spec(),
            final(view).writers_spec() == old(view).writers_spec(),
            final(view).fail_fast_spec() == old(view).fail_fast_spec(),
            old(view).fail_fast_spec() ==> r == Err::<Submission, DispatchError>(DispatchError::FailFast)
                && final(self).status_spec() == IoStatus::Failed,
            !old(view).fail_fast_spec() && old(self).io_type_spec() == IoType::Read ==> if old(self).needs_buffer() {
                r == Ok::<Submission, DispatchError>(Submission::NeedBuffer) && final(self).fresh()
            } else if old(view).readers_spec().len() == 0 {
                r == Err::<Submission, DispatchError>(DispatchError::NoDevicesAvailable)
                    && final(self).status_spec() == IoStatus::Failed
            } else {
                (r matches Ok(Submission::Read(i)) && i < old(view).readers_spec().len())
                    && final(self).awaiting_submission() && final(self).ctx_spec().targets == 1
            },
            !old(view).fail_fast_spec() && is_fan_out(old(self).io_type_spec()) ==> if old(view).writers_spec().len() == 0 {
                r == Err::<Submission, DispatchError>(DispatchError::NoDevicesAvailable)
                    && final(self).status_spec() == IoStatus::Failed
            } else {
                r == Ok::<Submission, DispatchError>(Submission::All(old(view).writers_spec().len() as usize))
                    && final(self).awaiting_submission() && final(self).ctx_spec().targets == old(view).writers_spec().len()
            },
            !old(view).fail_fast_spec() && old(self).io_type_spec() == IoType::Flush ==> r == Ok::<
                Submission,
                DispatchError,
            >(Submission::Nothing) && final(self).status_spec() == IoStatus::Success,
            !old(view).fail_fast_spec() && old(self).io_type_spec() != IoType::Read && old(self).io_type_spec()
                != IoType::Flush && !is_fan_out(old(self).io_type_spec()) ==> r == Err::<Submission, DispatchError>(
                DispatchError::UnsupportedOperation,
            ) && final(self).status_spec() == IoStatus::Failed,
    {
        if view.fail_fast() {
            self.finish(IoStatus::Failed);
            return Err(DispatchError::FailFast);
        }
        match self.bio.io_type {
            IoType::Read => {
                if self.bio.need_buf {
                    Ok(Submission::NeedBuffer)
                } else {
                    self.do_readv(view)
                }
            },
            IoType::Write | IoType::WriteZeros | IoType::Reset | IoType::Unmap => {
                let n = view.writers().len();
                proof {
                    assert(view.writers_spec().len() == n);
                }
                if n == 0 {
                    self.finish(IoStatus::Failed);
                    Err(DispatchError::NoDevicesAvailable)
                } else {
                    self.ctx.targets = n;
                    Ok(Submission::All(n))
                }
            },
            IoType::Flush => {
                self.finish(IoStatus::Success);
                Ok(Submission::Nothing)
            },
            _ => {
                self.finish(IoStatus::Failed);
                Err(DispatchError::UnsupportedOperation)
            },
        }
    }

    /// Continues a read once its buffer was obtained, or fails it for want of
    /// memory.
    pub fn buffer_ready(&mut self, success: bool, view: &mut ChannelView) -> (r: Result<Submission, DispatchError>)
        requires
            old(self).wf(),
            old(self).fresh(),
            old(self).io_type_spec() == IoType::Read,
        ensures
            final(self).wf(),
            same_origin(final(self).ctx_spec(), old(self).ctx_spec()),
            final(self).io_type_spec() == old(self).io_type_spec(),
            final(view).readers_spec() == old(view).readers_spec(),
            final(view).writers_spec() == old(view).writers_spec(),
            final(view).fail_fast_spec() == old(view).fail_fast_spec(),
            !success ==> r == Err::<Submission, DispatchError>(DispatchError::NoMemory)
                && final(self).status_spec() == IoStatus::NoMemory,
            success && old(view).fail_fast_spec() ==> r == Err::<Submission, DispatchError>(DispatchError::FailFast)
                && final(self).status_spec() == IoStatus::Failed,
            success && !old(view).fail_fast_spec() && old(view).readers_spec().len() == 0 ==> r == Err::<
                Submission,
                DispatchError,
            >(DispatchError::NoDevicesAvailable) && final(self).status_spec() == IoStatus::Failed,
            success && !old(view).fail_fast_spec() && old(view).readers_spec().len() > 0 ==> (r matches Ok(
                Submission::Read(i),
            ) && i < old(view).readers_spec().len()) && final(self).awaiting_submission()
                && final(self).ctx_spec().targets == 1,
    {
        if !success {
            self.finish(IoStatus::NoMemory);
            return Err(DispatchError::NoMemory);
        }
        if view.fail_fast() {
            self.finish(IoStatus::Failed);
            return Err(DispatchError::FailFast);
        }
        self.do_readv(view)
    }

    /// Records whether the read could be enqueued on its child. A read that
    /// could not fails, and its child is to be retired: the result.
    pub fn read_submitted(&mut self, accepted: bool) -> (retire: bool)
        requires
            old(self).wf(),
            old(self).awaiting_submission(),
            old(self).ctx_spec().targets == 1,
        ensures
            final(self).wf(),
            same_origin(final(self).ctx_spec(), old(self).ctx_spec()),
            final(self).io_type_spec() == old(self).io_type_spec(),
            retire == !accepted,
            accepted ==> final(self).status_spec() == IoStatus::Pending && final(self).ctx_spec().in_flight == 1
                && final(self).recorded_spec(),
            !accepted ==> final(self).status_spec() == IoStatus::Failed && final(self).ctx_spec().submission_failure,
    {
        self.recorded = true;
        if accepted {
            self.ctx.submitted = 1;
            self.ctx.in_flight = 1;
            false
        } else {
            self.ctx.submission_failure = true;
            self.finish(IoStatus::Failed);
            true
        }
    }

    /// Records which writers accepted their sub-I/O, in the order of the
    /// view. When some did not, the I/O is marked to fail, and the index of
    /// the first that did not is returned so that it can be retired; when
    /// none did, the I/O fails at once.
    pub fn writes_submitted(&mut self, accepted: &Vec<bool>) -> (first_failed: Option<usize>)
        requires
            old(self).wf(),
            old(self).awaiting_submission(),
            accepted@.len() == old(self).ctx_spec().targets,
        ensures
            final(self).wf(),
            same_origin(final(self).ctx_spec(), old(self).ctx_spec()),
            final(self).recorded_spec(),
            final(self).io_type_spec() == old(self).io_type_spec(),
            final(self).ctx_spec().targets == old(self).ctx_spec().targets,
            final(self).ctx_spec().submitted == accepted@.filter(|b: bool| b).len(),
            final(self).ctx_spec().in_flight == final(self).ctx_spec().submitted,
            final(self).ctx_spec().submission_failure == accepted@.contains(false),
            final(self).status_spec() == if final(self).ctx_spec().submitted == 0 {
                IoStatus::Failed
            } else {
                IoStatus::Pending
            },
            first_failed.is_none() <==> !accepted@.contains(false),
            first_failed matches Some(i) ==> i < accepted@.len() && !accepted@[i as int] && forall|k: int|
                0 <= k < i ==> accepted@[k],
    {
        let mut n: usize = 0;
        let mut first: Option<usize> = None;
        let mut i: usize = 0;
        while i < accepted.len()
            invariant
                i <= accepted@.len(),
                n == accepted@.subrange(0, i as int).filter(|b: bool| b).len(),
                n <= i,
                first.is_none() <==> n == i,
                first.is_none() <==> !accepted@.subrange(0, i as int).contains(false),
                first matches Some(f) ==> f < i && !accepted@[f as int] && forall|k: int| 0 <= k < f ==> accepted@[k],
            decreases accepted@.len() - i,
        {
            proof {
                let a = accepted@.subrange(0, i as int);
                assert(accepted@.subrange(0, i + 1) =~= a.push(accepted@[i as int]));
                a.lemma_filter_len_push(|b: bool| b, accepted@[i as int]);
                if first.is_none() {
                    assert forall|k: int| 0 <= k < i implies accepted@[k] by {
                        if !accepted@[k] { assert(a[k] == false); }
                    }
                }
                if a.push(accepted@[i as int]).contains(false) && !a.contains(false) {
                    assert(!accepted@[i as int]);
                }
                if a.contains(false) {
                    let k = choose|k: int| 0 <= k < a.len() && a[k] == false;
                    assert(a.push(accepted@[i as int])[k] == false);
                }
                if !accepted@[i as int] {
                    assert(a.push(accepted@[i as int])[i as int] == false);
                }
            }
            if accepted[i] {
                n = n + 1;
            } else if first.is_none() {
                first = Some(i);
            }
            i = i + 1;
        }
        assert(accepted@.subrange(0, accepted@.len() as int) =~= accepted@);
        proof {
            accepted@.lemma_filter_len(|b: bool| b);
        }
        self.recorded = true;
        self.ctx.submitted = n;
        self.ctx.in_flight = n;
        self.ctx.submission_failure = first.is_some();
        if n == 0 {
            self.finish(IoStatus::Failed);
        }
        first
    }

    /// Handles the completion of one sub-I/O on `child`; it runs on `core`,
    /// which must be the core that issued the I/O. Once nothing is in flight any more, the I/O completes: with
    /// success only if every sub-I/O was enqueued and succeeded. A failed
    /// child, unless it merely did not support the command, leaves this
    /// core's view and is to be retired; a read that failed that way is
    /// retried on another child instead of completing.
    pub fn complete(&mut self, core: u32, child: &String, st: IoCompletionStatus, view: &mut ChannelView) -> (r: Completion)
        requires
            old(view).wf(),
            core == old(self).ctx_spec().core,
            old(self).wf(),
            old(self).ctx_spec().in_flight > 0,
        ensures
            final(view).wf(),
            st == IoCompletionStatus::Failed ==> !final(view).readers_spec().contains(child@)
                && !final(view).writers_spec().contains(child@),
            final(self).wf(),
            same_origin(final(self).ctx_spec(), old(self).ctx_spec()),
            final(self).io_type_spec() == old(self).io_type_spec(),
            final(self).offset_spec() == old(self).offset_spec(),
            final(self).num_blocks_spec() == old(self).num_blocks_spec(),
            final(self).completions() == old(self).completions() + if r.outcome is Finished {
                1nat
            } else {
                0nat
            },
            r.outcome matches Outcome::Finished(x) ==> final(self).status_spec() == x,
            !(r.outcome is Finished) ==> final(self).status_spec() == IoStatus::Pending,
            r.outcome is Retry ==> final(self).fresh() && final(self).ctx_spec().in_flight == 0
                && final(self).ctx_spec().num_ok == 0 && final(self).ctx_spec().targets == 0
                && final(self).ctx_spec().submitted == 0 && !final(self).ctx_spec().submission_failure,
            !(r.outcome is Retry) ==> final(self).ctx_spec().in_flight == old(self).ctx_spec().in_flight - 1
                && final(self).ctx_spec().targets == old(self).ctx_spec().targets
                && final(self).ctx_spec().submitted == old(self).ctx_spec().submitted
                && final(self).ctx_spec().submission_failure == old(self).ctx_spec().submission_failure,
            final(view).fail_fast_spec() == old(view).fail_fast_spec(),
            ({
                let left = old(self).ctx_spec().in_flight - 1;
                let failed_before = old(self).ctx_spec().must_fail || old(self).ctx_spec().submission_failure;
                if st == IoCompletionStatus::Success {
                    &&& !r.retire
                    &&& final(self).ctx_spec().num_ok == old(self).ctx_spec().num_ok + 1
                    &&& final(view).readers_spec() == old(view).readers_spec()
                    &&& final(view).writers_spec() == old(view).writers_spec()
                    &&& r.outcome == if left > 0 {
                        Outcome::InFlight
                    } else if failed_before {
                        Outcome::Finished(IoStatus::Failed)
                    } else {
                        Outcome::Finished(IoStatus::Success)
                    }
                } else {
                    &&& r.retire == (st == IoCompletionStatus::Failed && (old(view).readers_spec().contains(child@)
                        || old(view).writers_spec().contains(child@)))
                    &&& st == IoCompletionStatus::InvalidOpcode ==> final(view).readers_spec() == old(view).readers_spec() && final(view).writers_spec() == old(view).writers_spec()
                    &&& !(r.outcome is Retry) ==> final(self).ctx_spec().num_ok == old(self).ctx_spec().num_ok
                    &&& !(r.outcome is Retry) ==> final(self).ctx_spec().status == IoStatus::Failed
                        && final(self).ctx_spec().must_fail
                    &&& st == IoCompletionStatus::Failed ==> {
                        &&& !old(view).readers_spec().contains(child@) ==> final(view).readers_spec() == old(
                            view).readers_spec()
                        &&& !old(view).writers_spec().contains(child@) ==> final(view).writers_spec() == old(
                            view).writers_spec()
                        &&& old(view).readers_spec().contains(child@) ==> exists|i: int|
                            0 <= i < old(view).readers_spec().len() && old(view).readers_spec()[i] == child@
                                && final(view).readers_spec() == old(view).readers_spec().remove(i)
                        &&& old(view).writers_spec().contains(child@) ==> exists|i: int|
                            0 <= i < old(view).writers_spec().len() && old(view).writers_spec()[i] == child@
                                && final(view).writers_spec() == old(view).writers_spec().remove(i)
                    }
                    &&& r.outcome == if left > 0 {
                        Outcome::InFlight
                    } else if old(self).io_type_spec() == IoType::Read && st == IoCompletionStatus::Failed {
                        Outcome::Retry
                    } else {
                        Outcome::Finished(IoStatus::Failed)
                    }
                }
            }),
    {
        self.ctx.in_flight = self.ctx.in_flight - 1;
        match st {
            IoCompletionStatus::Success => {
                self.ctx.num_ok = self.ctx.num_ok + 1;
                if self.ctx.in_flight > 0 {
                    Completion { outcome: Outcome::InFlight, retire: false }
                } else if self.ctx.must_fail || self.ctx.submission_failure {
                    self.finish(IoStatus::Failed);
                    Completion { outcome: Outcome::Finished(IoStatus::Failed), retire: false }
                } else {
                    self.finish(IoStatus::Success);
                    Completion { outcome: Outcome::Finished(IoStatus::Success), retire: false }
                }
            },
            _ => {
                self.ctx.status = IoStatus::Failed;
                self.ctx.must_fail = true;
                let retire = if st == IoCompletionStatus::Failed {
                    view.remove_child(child)
                } else {
                    false
                };
                if self.ctx.in_flight > 0 {
                    Completion { outcome: Outcome::InFlight, retire }
                } else if self.bio.io_type == IoType::Read && st == IoCompletionStatus::Failed {
                    self.ctx = NioCtx {
                        in_flight: 0,
                        num_ok: 0,
                        status: IoStatus::Pending,
                        channel: self.ctx.channel,
                        core: self.ctx.core,
                        must_fail: false,
                        submission_failure: false,
                        targets: 0,
                        submitted: 0,
                    };
                    self.recorded = false;
                    Completion { outcome: Outcome::Retry, retire }
                } else {
                    self.finish(IoStatus::Failed);
                    Completion { outcome: Outcome::Finished(IoStatus::Failed), retire }
                }
            },
        }
    }
}

/// An I/O completes upstream at most once, and only when none of its
/// sub-I/Os is in flight any more.
pub proof fn lemma_completed_once(io: &NexusBio)
    requires
        io.wf(),
    ensures
        io.completions() <= 1,
        io.status_spec() != IoStatus::Pending ==> io.completions() == 1 && io.ctx_spec().in_flight == 0,
        io.status_spec() == IoStatus::Pending ==> io.completions() == 0,
{
}

/// An I/O that was dispatched to children and has completed succeeded
/// exactly when every one of those children acknowledged success.
pub proof fn lemma_fan_out_atomicity(io: &NexusBio)
    requires
        io.wf(),
        io.ctx_spec().targets > 0,
        io.status_spec() == IoStatus::Success || io.status_spec() == IoStatus::Failed,
    ensures
        io.status_spec() == IoStatus::Success <==> io.ctx_spec().num_ok == io.ctx_spec().targets,
{
}

} // verus!
