//! Rebuild: a sequential, segment-by-segment copy of a healthy source child
//! onto a target child, one read-then-write pair in flight at a time.
use vstd::prelude::*;

verus! {

/// The states of a rebuild.
#[derive(Debug, Clone, Copy, PartialEq, Eq, Structural)]
pub enum RebuildState {
    Init,
    Running,
    Completed,
    Failed,
}

/// Errors of rebuild.
#[derive(Debug, Clone, Copy, PartialEq, Eq, Structural)]
pub enum RebuildError {
    /// The target has fewer blocks than the source.
    TargetTooSmall,
    /// A segment copy could not be dispatched.
    DispatchFailed,
    /// A rebuild is already configured.
    AlreadyInProgress,
    /// Segments must hold at least one block.
    InvalidSegmentSize,
    /// No faulted target and open source pair exists.
    NoRebuildSolution,
    /// No rebuild is configured.
    NotConfigured,
}

/// A range of blocks copied in one round.
#[derive(Debug, Clone, Copy, PartialEq, Eq, Structural)]
pub struct Segment {
    pub offset: u64,
    pub num_blocks: u64,
}

/// What the caller is to do next.
#[derive(Debug, Clone, Copy, PartialEq, Eq, Structural)]
pub enum RebuildStep {
    /// Read this segment from the source.
    Read(Segment),
    /// Write the segment just read to the target.
    Write(Segment),
    /// The copy is complete.
    Completed,
    /// The copy failed.
    Failed,
}

pub open spec fn min(a: int, b: int) -> int {
    if a <= b {
        a
    } else {
        b
    }
}

/// Round `k` of copying `n` blocks in segments of `s` blocks.
pub open spec fn round(k: int, s: int, n: int) -> (int, int) {
    (k * s, min(s, n - k * s))
}

/// The first `k` rounds of copying `n` blocks in segments of `s` blocks.
pub open spec fn rounds(k: nat, s: int, n: int) -> Seq<(int, int)> {
    Seq::new(k, |i: int| round(i, s, n))
}

/// The number of rounds that copy `n` blocks in segments of `s` blocks.
pub open spec fn num_rounds(n: int, s: int) -> int {
    (n + s - 1) / s
}

/// What `start` does to a task `t`, leaving `u` and returning `r`.
pub open spec fn started(t: RebuildTask, u: RebuildTask, r: RebuildStep) -> bool {
    &&& (u.total_blocks_spec() == t.total_blocks_spec())
    &&& (u.segment_size_spec() == t.segment_size_spec())
    &&& (u.source_spec() == t.source_spec())
    &&& (u.target_spec() == t.target_spec())
    &&& (u.current_offset_spec() == 0)
    &&& (t.total_blocks_spec() == 0 ==> r == RebuildStep::Completed && u.state_spec() == RebuildState::Completed)
    &&& (t.total_blocks_spec() > 0 ==> {
            let seg = Segment {
                offset: 0,
                num_blocks: min(t.segment_size_spec() as int, t.total_blocks_spec() as int) as u64,
            };
            &&& r == RebuildStep::Read(seg)
            &&& u.state_spec() == RebuildState::Running
            &&& u.in_flight_spec() == Some(seg)
            &&& !u.writing_spec()
        })
}

/// What `read_complete` does to a task `t`, leaving `u` and returning `r`.
pub open spec fn read_done(t: RebuildTask, u: RebuildTask, success: bool, r: RebuildStep) -> bool {
    &&& (u.current_offset_spec() == t.current_offset_spec())
    &&& (u.total_blocks_spec() == t.total_blocks_spec())
    &&& (u.segment_size_spec() == t.segment_size_spec())
    &&& (u.source_spec() == t.source_spec())
    &&& (u.target_spec() == t.target_spec())
    &&& (success ==> r == RebuildStep::Write(t.in_flight_spec()->Some_0) && u.state_spec()
            == RebuildState::Running && u.writing_spec())
    &&& (success ==> u.in_flight_spec() == t.in_flight_spec()
            && u.segments_done_spec() == t.segments_done_spec())
    &&& (!success ==> r == RebuildStep::Failed && u.state_spec() == RebuildState::Failed)
}

/// What `write_complete` does to a task `t`, leaving `u` and returning `r`.
pub open spec fn written(t: RebuildTask, u: RebuildTask, success: bool, r: RebuildStep) -> bool {
    &&& (u.total_blocks_spec() == t.total_blocks_spec())
    &&& (u.segment_size_spec() == t.segment_size_spec())
    &&& (u.source_spec() == t.source_spec())
    &&& (u.target_spec() == t.target_spec())
    &&& (success ==> u.current_offset_spec() > t.current_offset_spec()
        && u.current_offset_spec() == t.current_offset_spec() + t.in_flight_spec()->Some_0.num_blocks
        && u.segments_done_spec() == t.segments_done_spec() + 1
        && u.copied() == t.copied().push(
            (t.in_flight_spec()->Some_0.offset as int, t.in_flight_spec()->Some_0.num_blocks as int),
        ))
    &&& (success && u.current_offset_spec() < u.total_blocks_spec() ==> {
            let seg = Segment {
                offset: u.current_offset_spec(),
                num_blocks: min(
                    u.segment_size_spec() as int,
                    u.total_blocks_spec() - u.current_offset_spec(),
                ) as u64,
            };
            &&& r == RebuildStep::Read(seg)
            &&& u.in_flight_spec() == Some(seg)
            &&& u.state_spec() == RebuildState::Running
            &&& !u.writing_spec()
        })
    &&& (success && u.current_offset_spec() == u.total_blocks_spec() ==> r
            == RebuildStep::Completed && u.state_spec() == RebuildState::Completed)
    &&& (success ==> u.current_offset_spec() <= u.total_blocks_spec() && r
            != RebuildStep::Failed)
    &&& (!success ==> r == RebuildStep::Failed && u.state_spec() == RebuildState::Failed)
}

/// A copy task from `source` to `target`.
pub struct RebuildTask {
    source: String,
    target: String,
    total_blocks: u64,
    segment_size: u64,
    current_offset: u64,
    segments_done: u64,
    state: RebuildState,
    in_flight: Option<Segment>,
    writing: bool,
    copied: Ghost<Seq<(int, int)>>,
}

impl RebuildTask {
    pub closed spec fn source_spec(&self) -> Seq<char> {
        self.source@
    }

    pub closed spec fn target_spec(&self) -> Seq<char> {
        self.target@
    }

    pub closed spec fn total_blocks_spec(&self) -> u64 {
        self.total_blocks
    }

    pub closed spec fn segment_size_spec(&self) -> u64 {
        self.segment_size
    }

    pub closed spec fn current_offset_spec(&self) -> u64 {
        self.current_offset
    }

    pub closed spec fn segments_done_spec(&self) -> u64 {
        self.segments_done
    }

    pub closed spec fn state_spec(&self) -> RebuildState {
        self.state
    }

    /// The segments copied so far, in order.
    pub closed spec fn copied(&self) -> Seq<(int, int)> {
        self.copied@
    }

    /// The segment in flight, if any, and whether it is being written.
    pub closed spec fn in_flight_spec(&self) -> Option<Segment> {
        self.in_flight
    }

    pub closed spec fn writing_spec(&self) -> bool {
        self.writing
    }

    /// How many more steps the task can take before it ends.
    pub closed spec fn steps_left(&self) -> nat {
        if self.state == RebuildState::Completed || self.state == RebuildState::Failed {
            0
        } else {
            (3 * (self.total_blocks - self.current_offset) + 2 + (if self.state == RebuildState::Init {
                1int
            } else {
                0
            }) - (if self.in_flight.is_some() {
                1int
            } else {
                0
            }) - (if self.writing {
                1int
            } else {
                0
            })) as nat
        }
    }

    pub closed spec fn wf(&self) -> bool {
        let s = self.segment_size as int;
        let n = self.total_blocks as int;
        let k = self.segments_done as int;
        &&& s > 0
        &&& self.current_offset <= self.total_blocks
        &&& self.current_offset == min(k * s, n)
        &&& k == 0 || (k - 1) * s < n
        &&& self.copied@ == rounds(k as nat, s, n)
        &&& self.in_flight matches Some(seg) ==> self.state == RebuildState::Running && seg.offset
            == self.current_offset && seg.num_blocks == min(s, n - self.current_offset)
            && self.current_offset < self.total_blocks
        &&& self.writing ==> self.in_flight.is_some()
        &&& self.state == RebuildState::Init ==> k == 0 && self.in_flight.is_none()
        &&& self.state == RebuildState::Completed ==> self.current_offset == self.total_blocks
            && self.in_flight.is_none()
    }

    /// A task that copies the whole block range of `target`, its
    /// `target_blocks` blocks, from `source` in segments of `segment_size`
    /// blocks. The target must be at least as large as the source.
    pub fn new(
        source: String,
        target: String,
        source_blocks: u64,
        target_blocks: u64,
        segment_size: u64,
    ) -> (r: Result<RebuildTask, RebuildError>)
        ensures
            target_blocks < source_blocks ==> r == Err::<RebuildTask, RebuildError>(RebuildError::TargetTooSmall),
            target_blocks >= source_blocks && segment_size == 0 ==> r == Err::<RebuildTask, RebuildError>(
                RebuildError::InvalidSegmentSize),
            r.is_ok() <==> target_blocks >= source_blocks && segment_size > 0,
            r matches Ok(t) ==> {
                &&& t.wf()
                &&& t.state_spec() == RebuildState::Init
                &&& t.source_spec() == source@
                &&& t.target_spec() == target@
                &&& t.total_blocks_spec() == target_blocks
                &&& t.segment_size_spec() == segment_size
                &&& t.current_offset_spec() == 0
                &&& t.segments_done_spec() == 0
            },
    {
        if target_blocks < source_blocks {
            return Err(RebuildError::TargetTooSmall);
        }
        if segment_size == 0 {
            return Err(RebuildError::InvalidSegmentSize);
        }
        let t = RebuildTask {
            source,
            target,
            total_blocks: target_blocks,
            segment_size,
            current_offset: 0,
            segments_done: 0,
            state: RebuildState::Init,
            in_flight: None,
            writing: false,
            copied: Ghost(Seq::empty()),
        };
        assert(t.copied@ =~= rounds(0, segment_size as int, target_blocks as int));
        assert(0 * (segment_size as int) == 0);
        Ok(t)
    }

    pub fn state(&self) -> (r: RebuildState)
        ensures
            r == self.state_spec(),
    {
        self.state
    }

    pub fn current_offset(&self) -> (r: u64)
        ensures
            r == self.current_offset_spec(),
    {
        self.current_offset
    }

    pub fn total_blocks(&self) -> (r: u64)
        ensures
            r == self.total_blocks_spec(),
    {
        self.total_blocks
    }

    pub fn segments_done(&self) -> (r: u64)
        ensures
            r == self.segments_done_spec(),
    {
        self.segments_done
    }

    /// The MiB copied so far, for blocks of `block_len` bytes.
    pub fn copied_mib(&self, block_len: u32) -> (r: u128)
        ensures
            r == (self.current_offset_spec() as int * block_len as int) / (1024 * 1024) as int,
    {
        proof {
            vstd::arithmetic::mul::lemma_mul_upper_bound(
                self.current_offset as int, u64::MAX as int, block_len as int, u32::MAX as int);
        }
        let bytes: u128 = (self.current_offset as u128) * (block_len as u128);
        bytes / (1024 * 1024)
    }

    /// Whether the read of a segment is awaited.
    pub fn awaiting_read(&self) -> (r: bool)
        ensures
            r == (self.state_spec() == RebuildState::Running && self.in_flight_spec().is_some() && !self.writing_spec()),
    {
        self.state == RebuildState::Running && self.in_flight.is_some() && !self.writing
    }

    /// Whether the write of a segment is awaited.
    pub fn awaiting_write(&self) -> (r: bool)
        ensures
            r == (self.state_spec() == RebuildState::Running && self.writing_spec()),
    {
        self.state == RebuildState::Running && self.writing
    }

    pub fn source(&self) -> (r: &String)
        ensures
            r@ == self.source_spec(),
    {
        &self.source
    }

    pub fn target(&self) -> (r: &String)
        ensures
            r@ == self.target_spec(),
    {
        &self.target
    }

    /// Issues the read of the next segment, at the current offset and of
    /// at most one segment's blocks, or completes the task when every block
    /// has been copied.
    pub fn dispatch_next_segment(&mut self) -> (r: RebuildStep)
        requires
            old(self).wf(),
            old(self).in_flight_spec().is_none(),
            old(self).state_spec() == RebuildState::Running || old(self).state_spec() == RebuildState::Init,
        ensures
            final(self).wf(),
            final(self).source_spec() == old(self).source_spec(),
            final(self).target_spec() == old(self).target_spec(),
            final(self).total_blocks_spec() == old(self).total_blocks_spec(),
            final(self).segment_size_spec() == old(self).segment_size_spec(),
            final(self).current_offset_spec() == old(self).current_offset_spec(),
            final(self).segments_done_spec() == old(self).segments_done_spec(),
            final(self).copied() == old(self).copied(),
            !final(self).writing_spec(),
            old(self).current_offset_spec() == old(self).total_blocks_spec() ==> r == RebuildStep::Completed
                && final(self).state_spec() == RebuildState::Completed,
            old(self).current_offset_spec() < old(self).total_blocks_spec() ==> ({
                let seg = Segment {
                    offset: old(self).current_offset_spec(),
                    num_blocks: min(
                        old(self).segment_size_spec() as int,
                        old(self).total_blocks_spec() - old(self).current_offset_spec(),
                    ) as u64,
                };
                &&& final(self).state_spec() == RebuildState::Running
                &&& final(self).in_flight_spec() == Some(seg)
                &&& r == RebuildStep::Read(seg)
                &&& 0 < seg.num_blocks <= old(self).segment_size_spec()
            }),
    {
        if self.current_offset == self.total_blocks {
            self.state = RebuildState::Completed;
            return RebuildStep::Completed;
        }
        let left = self.total_blocks - self.current_offset;
        let len = if self.segment_size <= left { self.segment_size } else { left };
        let seg = Segment { offset: self.current_offset, num_blocks: len };
        self.state = RebuildState::Running;
        self.in_flight = Some(seg);
        RebuildStep::Read(seg)
    }

    /// Starts the copy: the first segment is read, or the task completes at
    /// once when there is nothing to copy.
    pub fn start(&mut self) -> (r: RebuildStep)
        requires
            old(self).wf(),
            old(self).state_spec() == RebuildState::Init,
        ensures
            final(self).wf(),
            final(self).steps_left() < old(self).steps_left(),
            started(*old(self), *final(self), r),
    {
        self.dispatch_next_segment()
    }

    /// Handles the completion of the read of the segment in flight: on
    /// success the segment is written to the target, else the task fails.
    pub fn read_complete(&mut self, success: bool) -> (r: RebuildStep)
        requires
            old(self).wf(),
            old(self).state_spec() == RebuildState::Running,
            old(self).in_flight_spec().is_some(),
            !old(self).writing_spec(),
        ensures
            final(self).wf(),
            final(self).steps_left() < old(self).steps_left(),
            read_done(*old(self), *final(self), success, r),
    {
        match self.in_flight {
            Some(seg) => {
                if success {
                    self.writing = true;
                    RebuildStep::Write(seg)
                } else {
                    self.in_flight = None;
                    self.state = RebuildState::Failed;
                    RebuildStep::Failed
                }
            },
            None => {
                self.state = RebuildState::Failed;
                RebuildStep::Failed
            },
        }
    }

    /// Handles the completion of the write of the segment in flight: on
    /// success the offset advances past the segment and the next segment is
    /// read, or the task completes; else the task fails.
    pub fn write_complete(&mut self, success: bool) -> (r: RebuildStep)
        requires
            old(self).wf(),
            old(self).state_spec() == RebuildState::Running,
            old(self).writing_spec(),
        ensures
            final(self).wf(),
            final(self).steps_left() < old(self).steps_left(),
            written(*old(self), *final(self), success, r),
    {
        let seg = match self.in_flight {
            Some(seg) => seg,
            None => {
                self.state = RebuildState::Failed;
                return RebuildStep::Failed;
            },
        };
        if !success {
            self.in_flight = None;
            self.writing = false;
            self.state = RebuildState::Failed;
            return RebuildStep::Failed;
        }
        let ghost s = self.segment_size as int;
        let ghost n = self.total_blocks as int;
        let ghost k = self.segments_done as int;
        proof {
            assert(k * s < n) by {
                if k * s >= n {
                    assert(self.current_offset == n);
                }
            }
            assert((k + 1) * s == k * s + s) by (nonlinear_arith);
            assert(k + 1 <= n) by (nonlinear_arith)
                requires k * s < n, s > 0, k >= 0;
        }
        assert(self.current_offset == k * s);
        assert(self.current_offset + seg.num_blocks == min((k + 1) * s, n));
        self.current_offset = self.current_offset + seg.num_blocks;
        self.segments_done = self.segments_done + 1;
        self.copied = Ghost(self.copied@.push((seg.offset as int, seg.num_blocks as int)));
        self.in_flight = None;
        self.writing = false;
        assert(self.copied@ =~= rounds((k + 1) as nat, s, n)) by {
            assert(round(k, s, n) == (seg.offset as int, seg.num_blocks as int));
        }
        self.dispatch_next_segment()
    }

    /// Fails the task, whatever its state; a completed task stays completed.
    pub fn fail(&mut self)
        requires
            old(self).wf(),
        ensures
            final(self).wf(),
            final(self).state_spec() == if old(self).state_spec() == RebuildState::Completed {
                RebuildState::Completed
            } else {
                RebuildState::Failed
            },
            final(self).current_offset_spec() == old(self).current_offset_spec(),
            final(self).source_spec() == old(self).source_spec(),
            final(self).target_spec() == old(self).target_spec(),
    {
        if self.state != RebuildState::Completed {
            self.state = RebuildState::Failed;
            self.in_flight = None;
            self.writing = false;
        }
    }
}

/// `tgt` with the blocks of `seg` (first block, block count) copied from
/// `src`.
pub open spec fn copy_segment(src: Seq<Seq<u8>>, tgt: Seq<Seq<u8>>, seg: (int, int)) -> Seq<Seq<u8>> {
    Seq::new(tgt.len(), |j: int| if seg.0 <= j < seg.0 + seg.1 { src[j] } else { tgt[j] })
}

/// `tgt` after the segments `segs` were copied from `src`, in order.
pub open spec fn apply_copies(src: Seq<Seq<u8>>, tgt: Seq<Seq<u8>>, segs: Seq<(int, int)>) -> Seq<Seq<u8>>
    decreases segs.len(),
{
    if segs.len() == 0 {
        tgt
    } else {
        copy_segment(src, apply_copies(src, tgt, segs.drop_last()), segs.last())
    }
}

/// A completed rebuild copied exactly `ceil(N/S)` segments of the `N` blocks
/// in segments of `S` blocks: each holds at least one block and starts where
/// the one before ended, the first at block 0 and the last ending at `N`, so
/// that no block is skipped or copied twice.
pub proof fn lemma_rebuild_rounds(t: &RebuildTask)
    requires
        t.wf(),
        t.state_spec() == RebuildState::Completed,
    ensures
        t.segments_done_spec() == num_rounds(t.total_blocks_spec() as int, t.segment_size_spec() as int),
        t.copied() == rounds(t.segments_done_spec() as nat, t.segment_size_spec() as int, t.total_blocks_spec() as int),
        t.copied().len() > 0 ==> t.copied()[0].0 == 0,
        forall|i: int| 0 <= i < t.copied().len() ==> (#[trigger] t.copied()[i]).1 > 0,
        forall|i: int| 0 <= i < t.copied().len() - 1 ==> #[trigger] t.copied()[i].0 + t.copied()[i].1 == t.copied()[i + 1].0,
        t.copied().len() > 0 ==> t.copied().last().0 + t.copied().last().1 == t.total_blocks_spec(),
{
    let s = t.segment_size_spec() as int;
    let n = t.total_blocks_spec() as int;
    let k = t.segments_done_spec() as int;
    assert(k * s >= n) by {
        assert(min(k * s, n) == n);
    }
    if k == 0 {
        assert(n == 0) by (nonlinear_arith)
            requires k == 0, k * s >= n, n >= 0;
        vstd::arithmetic::div_mod::lemma_fundamental_div_mod_converse(n + s - 1, s, 0, s - 1);
    } else {
        assert((k - 1) * s == k * s - s) by (nonlinear_arith);
        vstd::arithmetic::div_mod::lemma_fundamental_div_mod_converse(n + s - 1, s, k, n + s - 1 - k * s);
    }
    assert forall|i: int| 0 <= i < t.copied().len() implies (#[trigger] t.copied()[i]).1 > 0 by {
        assert(i * s <= (k - 1) * s) by (nonlinear_arith)
            requires 0 <= i <= k - 1, s > 0;
    }
    assert forall|i: int| 0 <= i < t.copied().len() - 1 implies #[trigger] t.copied()[i].0 + t.copied()[i].1
        == t.copied()[i + 1].0 by {
        assert((i + 1) * s <= (k - 1) * s) by (nonlinear_arith)
            requires 0 <= i + 1 <= k - 1, s > 0;
        assert((i + 1) * s == i * s + s) by (nonlinear_arith);
    }
    if k > 0 {
        assert((k - 1) * s + s == k * s) by (nonlinear_arith);
        assert(0 * s == 0);
    }
}

proof fn lemma_rounds_agree(src: Seq<Seq<u8>>, tgt: Seq<Seq<u8>>, k: nat, s: int, n: int)
    requires
        s > 0,
        k == 0 || (k - 1) * s < n,
        src.len() >= n,
        tgt.len() >= n,
    ensures
        apply_copies(src, tgt, rounds(k, s, n)).len() == tgt.len(),
        forall|j: int| 0 <= j < min(k * s, n) ==> #[trigger] apply_copies(src, tgt, rounds(k, s, n))[j] == src[j],
    decreases k,
{
    if k == 0 {
        assert(0 * s == 0);
    } else {
        let k1 = (k - 1) as nat;
        assert(k1 == 0 || (k1 - 1) * s < n) by (nonlinear_arith)
            requires k1 == k - 1, (k - 1) * s < n, s > 0;
        lemma_rounds_agree(src, tgt, k1, s, n);
        assert(rounds(k, s, n).drop_last() =~= rounds(k1, s, n));
        assert(k1 * s + s == k * s) by (nonlinear_arith)
            requires k1 == k - 1;
    }
}

/// Once a rebuild completed, the target holds the source's data on every
/// block the rebuild covered: reading that range from either child gives
/// the same blocks.
pub proof fn lemma_mirror_consistency(t: &RebuildTask, src: Seq<Seq<u8>>, tgt: Seq<Seq<u8>>)
    requires
        t.wf(),
        t.state_spec() == RebuildState::Completed,
        src.len() >= t.total_blocks_spec(),
        tgt.len() >= t.total_blocks_spec(),
    ensures
        apply_copies(src, tgt, t.copied()).subrange(0, t.total_blocks_spec() as int) == src.subrange(
            0,
            t.total_blocks_spec() as int,
        ),
{
    let s = t.segment_size_spec() as int;
    let n = t.total_blocks_spec() as int;
    let k = t.segments_done_spec() as int;
    assert(k * s >= n) by {
        assert(min(k * s, n) == n);
    }
    lemma_rounds_agree(src, tgt, k as nat, s, n);
    assert(apply_copies(src, tgt, t.copied()).subrange(0, n) =~= src.subrange(0, n));
}

} // verus!
