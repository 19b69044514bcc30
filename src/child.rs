//! A child is one mirror member of a nexus: a named backing device and the
//! state machine that governs when it takes part in I/O.
use vstd::prelude::*;

use crate::device::{can_open, device_index, has_device, released, BdevHandle, BdevTable, DeviceModel};

verus! {

/// Why a child was faulted.
#[derive(Debug, Clone, Copy, PartialEq, Eq, Structural)]
pub enum Reason {
    IOErrors,
    Missing,
}

/// The states of a child.
#[derive(Debug, Clone, Copy, PartialEq, Eq, Structural)]
pub enum State {
    /// Registered; the backing device has not been opened.
    Init,
    /// Open, and part of the I/O path.
    Open,
    /// Being closed.
    Closing,
    /// Closed; the backing device still exists.
    Closed,
    /// Out of the I/O path for the given reason.
    Faulted(Reason),
    /// Its backing device is being destroyed.
    Destroying,
    /// Its backing device is gone.
    Destroyed,
}

/// The operations of the child state machine.
#[derive(Debug, Clone, Copy, PartialEq, Eq, Structural)]
pub enum ChildOp {
    Open,
    Close,
    Fault,
    Destroy,
}

/// Errors of the child lifecycle.
#[derive(Debug, Clone, PartialEq, Eq)]
pub enum ChildError {
    /// A child of that name exists already.
    AlreadyExists { name: String },
    /// The backing device is missing, or the child is (being) destroyed.
    NotFound { name: String },
    /// The operation is not valid in the child's current state.
    InvalidStateForOperation { state: State, op: ChildOp },
    /// Destroying the backing device failed.
    DestroyFailed { name: String },
}

/// The state after an open, where `found` tells whether the backing device
/// could be looked up and opened.
pub open spec fn open_next(s: State, found: bool) -> State {
    match s {
        State::Init | State::Closed | State::Faulted(_) => if found {
            State::Open
        } else {
            State::Faulted(Reason::Missing)
        },
        _ => s,
    }
}

/// Whether an open succeeds.
pub open spec fn open_succeeds(s: State, found: bool) -> bool {
    match s {
        State::Open => true,
        State::Init | State::Closed | State::Faulted(_) => found,
        _ => false,
    }
}

/// Whether a close is permitted.
pub open spec fn close_permitted(s: State) -> bool {
    s == State::Open || s is Faulted
}

/// The state after a close.
pub open spec fn close_next(s: State) -> State {
    if close_permitted(s) {
        State::Closed
    } else {
        s
    }
}

/// Whether a fault is permitted.
pub open spec fn fault_permitted(s: State) -> bool {
    s != State::Destroying && s != State::Destroyed
}

/// The state after faulting for `r`: a faulted child keeps its first reason.
pub open spec fn fault_next(s: State, r: Reason) -> State {
    if s is Faulted || !fault_permitted(s) {
        s
    } else {
        State::Faulted(r)
    }
}

/// The state after a destroy, where `destroyed` tells whether the backing
/// device was destroyed.
pub open spec fn destroy_next(s: State, destroyed: bool) -> State {
    if s == State::Closed {
        if destroyed {
            State::Destroyed
        } else {
            State::Faulted(Reason::Missing)
        }
    } else {
        s
    }
}

/// Faulting an already faulted child, once or twice and for any reasons,
/// leaves its state and reason as they were and reports that state each time.
pub proof fn lemma_fault_idempotent(s: State, r1: Reason, r2: Reason)
    requires
        s is Faulted,
    ensures
        fault_permitted(s),
        fault_next(s, r1) == s,
        fault_next(fault_next(s, r1), r2) == s,
{
}

/// One mirror member: a name, the locator of its backing device, its state,
/// and the handle it holds while open.
#[derive(Debug)]
pub struct Child {
    name: String,
    uri: String,
    handle: Option<BdevHandle>,
    state: State,
}

impl Child {
    pub closed spec fn name_spec(&self) -> Seq<char> {
        self.name@
    }

    pub closed spec fn uri_spec(&self) -> Seq<char> {
        self.uri@
    }

    pub closed spec fn state_spec(&self) -> State {
        self.state
    }

    pub closed spec fn handle_spec(&self) -> Option<BdevHandle> {
        self.handle
    }

    /// A child holds a handle exactly while it is open, and that handle holds
    /// its device exclusively.
    pub closed spec fn wf(&self) -> bool {
        &&& (self.handle.is_some() <==> self.state == State::Open)
        &&& (self.handle matches Some(h) ==> h.claimed)
    }

    /// A well-formed child holds a handle exactly while it is open, and that
    /// handle holds its device exclusively.
    pub proof fn lemma_handle_iff_open(&self)
        requires
            self.wf(),
        ensures
            self.handle_spec().is_some() <==> self.state_spec() == State::Open,
            self.handle_spec() matches Some(h) ==> h.claimed,
    {
    }

    /// A new child in state `Init`.
    pub fn new(name: String, uri: String) -> (r: Child)
        ensures
            r.wf(),
            r.name_spec() == name@,
            r.uri_spec() == uri@,
            r.state_spec() == State::Init,
    {
        Child { name, uri, handle: None, state: State::Init }
    }

    /// The current state.
    pub fn state(&self) -> (r: State)
        ensures
            r == self.state_spec(),
    {
        self.state
    }

    pub fn name(&self) -> (r: String)
        ensures
            r@ == self.name_spec(),
    {
        self.name.clone()
    }

    pub fn uri(&self) -> (r: String)
        ensures
            r@ == self.uri_spec(),
    {
        self.uri.clone()
    }

    pub fn name_ref(&self) -> (r: &String)
        ensures
            r@ == self.name_spec(),
    {
        &self.name
    }

    /// The handle held while the child is open.
    pub fn handle(&self) -> (r: Option<BdevHandle>)
        ensures
            r == self.handle_spec(),
    {
        self.handle
    }

    /// Opens the child: an open child stays open; a child in `Init`,
    /// `Closed` or `Faulted` acquires its backing device exclusively, or
    /// becomes `Faulted(Missing)` when it cannot; a (being) destroyed child
    /// fails at once with `NotFound`.
    pub fn open(&mut self, table: &mut BdevTable) -> (r: Result<State, ChildError>)
        requires
            old(self).wf(),
            old(table).wf(),
        ensures
            final(self).wf(),
            final(table).wf(),
            final(self).name_spec() == old(self).name_spec(),
            final(self).uri_spec() == old(self).uri_spec(),
            ({
                let found = can_open(old(table).devices(), old(self).name_spec(), true) && old(table).handles_left();
                &&& final(self).state_spec() == open_next(old(self).state_spec(), found)
                &&& r.is_ok() == open_succeeds(old(self).state_spec(), found)
            }),
            r matches Ok(s) ==> s == State::Open,
            r is Err && old(self).state_spec() != State::Closing ==> (r matches Err(ChildError::NotFound { name })
                && name@ == old(self).name_spec()),
            old(self).state_spec() == State::Closing ==> r == Err::<State, ChildError>(
                ChildError::InvalidStateForOperation { state: State::Closing, op: ChildOp::Open }),
            old(self).state_spec() != State::Open && final(self).state_spec() == State::Open ==> {
                let i = device_index(old(table).devices(), old(self).name_spec());
                &&& final(self).handle_spec() matches Some(h) && h.desc.bdev == old(table).devices()[i].bdev
                &&& final(table).devices() == old(table).devices().update(
                    i,
                    DeviceModel { claimed: true, ..old(table).devices()[i] },
                )
            },
            !(old(self).state_spec() != State::Open && final(self).state_spec() == State::Open)
                ==> final(table).devices() == old(table).devices(),
            old(self).state_spec() == State::Open ==> final(self).handle_spec() == old(self).handle_spec(),
    {
        match self.state {
            State::Open => Ok(State::Open),
            State::Init | State::Closed | State::Faulted(_) => {
                match BdevHandle::open(table, &self.name, true) {
                    Ok(h) => {
                        self.handle = Some(h);
                        self.state = State::Open;
                        Ok(State::Open)
                    },
                    Err(_) => {
                        self.state = State::Faulted(Reason::Missing);
                        Err(ChildError::NotFound { name: self.name.clone() })
                    },
                }
            },
            State::Destroying | State::Destroyed => Err(ChildError::NotFound { name: self.name.clone() }),
            State::Closing => Err(ChildError::InvalidStateForOperation { state: State::Closing, op: ChildOp::Open }),
        }
    }

    /// Closes the child, releasing its device but not destroying it; a
    /// faulted child, which holds nothing, closes too.
    pub fn close(&mut self, table: &mut BdevTable) -> (r: Result<State, ChildError>)
        requires
            old(self).wf(),
            old(table).wf(),
        ensures
            final(self).wf(),
            final(table).wf(),
            final(self).name_spec() == old(self).name_spec(),
            final(self).uri_spec() == old(self).uri_spec(),
            final(self).state_spec() == close_next(old(self).state_spec()),
            r.is_ok() == close_permitted(old(self).state_spec()),
            r matches Ok(s) ==> s == State::Closed,
            r is Err ==> r == Err::<State, ChildError>(
                ChildError::InvalidStateForOperation { state: old(self).state_spec(), op: ChildOp::Close }),
            old(self).state_spec() == State::Open ==> (old(self).handle_spec() matches Some(h)
                && released(old(table).devices(), final(table).devices(), h.desc.bdev.handle)),
            old(self).state_spec() != State::Open ==> final(table).devices() == old(table).devices(),
    {
        match self.state {
            State::Open => {
                match self.handle.take() {
                    Some(h) => h.close(table),
                    None => {},
                }
                self.state = State::Closed;
                Ok(State::Closed)
            },
            State::Faulted(_) => {
                self.state = State::Closed;
                Ok(State::Closed)
            },
            _ => Err(ChildError::InvalidStateForOperation { state: self.state, op: ChildOp::Close }),
        }
    }

    /// Faults the child for `r`, releasing its device if it was open. A
    /// faulted child keeps its state and reason and reports that state; a
    /// (being) destroyed child cannot be faulted.
    pub fn fault(&mut self, r: Reason, table: &mut BdevTable) -> (res: Result<State, ChildError>)
        requires
            old(self).wf(),
            old(table).wf(),
        ensures
            final(self).wf(),
            final(table).wf(),
            final(self).name_spec() == old(self).name_spec(),
            final(self).uri_spec() == old(self).uri_spec(),
            final(self).state_spec() == fault_next(old(self).state_spec(), r),
            res.is_ok() == fault_permitted(old(self).state_spec()),
            res matches Ok(s) ==> s == final(self).state_spec(),
            res is Err ==> res == Err::<State, ChildError>(
                ChildError::InvalidStateForOperation { state: old(self).state_spec(), op: ChildOp::Fault }),
            old(self).state_spec() == State::Open ==> (old(self).handle_spec() matches Some(h)
                && released(old(table).devices(), final(table).devices(), h.desc.bdev.handle)),
            old(self).state_spec() != State::Open ==> final(table).devices() == old(table).devices(),
    {
        match self.state {
            State::Faulted(_) => Ok(self.state),
            State::Destroying | State::Destroyed => Err(
                ChildError::InvalidStateForOperation { state: self.state, op: ChildOp::Fault },
            ),
            _ => {
                match self.handle.take() {
                    Some(h) => h.close(table),
                    None => {},
                }
                self.state = State::Faulted(r);
                Ok(State::Faulted(r))
            },
        }
    }

    /// Destroys the backing device of a closed child: the child passes
    /// through `Destroying` to `Destroyed`, or to `Faulted(Missing)` when the
    /// device cannot be destroyed. Any other state is refused and kept.
    pub fn destroy(&mut self, table: &mut BdevTable) -> (r: Result<(), ChildError>)
        requires
            old(self).wf(),
            old(table).wf(),
        ensures
            final(self).wf(),
            final(table).wf(),
            final(self).name_spec() == old(self).name_spec(),
            final(self).uri_spec() == old(self).uri_spec(),
            ({
                let destroyed = has_device(old(table).devices(), old(self).name_spec())
                    && !old(table).devices()[device_index(old(table).devices(), old(self).name_spec())].claimed;
                &&& final(self).state_spec() == destroy_next(old(self).state_spec(), destroyed)
                &&& r.is_ok() == (old(self).state_spec() == State::Closed && destroyed)
                &&& (old(self).state_spec() == State::Closed && destroyed) ==> final(table).devices()
                    == old(table).devices().remove(device_index(old(table).devices(), old(self).name_spec()))
                &&& !(old(self).state_spec() == State::Closed && destroyed) ==> final(table).devices()
                    == old(table).devices()
            }),
            old(self).state_spec() != State::Closed ==> final(self).handle_spec() == old(self).handle_spec(),
            old(self).state_spec() != State::Closed ==> r == Err::<(), ChildError>(
                ChildError::InvalidStateForOperation { state: old(self).state_spec(), op: ChildOp::Destroy }),
            old(self).state_spec() == State::Closed && r is Err ==> (r matches Err(ChildError::DestroyFailed { name })
                && name@ == old(self).name_spec()),
    {
        if self.state != State::Closed {
            return Err(ChildError::InvalidStateForOperation { state: self.state, op: ChildOp::Destroy });
        }
        self.state = State::Destroying;
        match table.destroy(&self.name) {
            Ok(()) => {
                self.state = State::Destroyed;
                Ok(())
            },
            Err(_) => {
                self.state = State::Faulted(Reason::Missing);
                Err(ChildError::DestroyFailed { name: self.name.clone() })
            },
        }
    }

    pub fn is_open(&self) -> (r: bool)
        requires
            self.wf(),
        ensures
            r == (self.state_spec() == State::Open),
    {
        self.handle.is_some()
    }
}

} // verus!
