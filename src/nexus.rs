//! The nexus: the ordered children of one mirrored device, its aggregate
//! state, the retirement of failed children and the rebuild of a faulted
//! child from an open one.
use vstd::prelude::*;

use crate::child::{
    close_next, close_permitted, fault_next, fault_permitted, open_next, open_succeeds, Child, ChildError, Reason, State,
};
use crate::device::{
    can_open, destroyable, device_index, has_device, release_claim, released, BdevHandle, BdevTable, DeviceModel,
};
use crate::io::ChannelView;
use crate::rebuild::{min, read_done, started, written, RebuildError, RebuildState, RebuildStep, RebuildTask, Segment};
use crate::registry::{registered, Inventory};

verus! {

/// The aggregate state of a nexus.
#[derive(Debug, Clone, Copy, PartialEq, Eq, Structural)]
pub enum NexusState {
    /// Every child is open.
    Online,
    /// Some, but not all, children are open.
    Degraded,
    /// No child is open.
    Faulted,
}

/// What becomes of an I/O that arrives at the nexus.
#[derive(Debug, Clone, Copy, PartialEq, Eq, Structural)]
pub enum Admission {
    /// Dispatch it now.
    Dispatch,
    /// Hold it until the nexus resumes.
    Hold,
    /// Fail it at once.
    Reject,
}

/// Errors of nexus configuration.
#[derive(Debug, Clone, PartialEq, Eq)]
pub enum NexusError {
    /// No child of that name belongs to the nexus.
    ChildNotFound { name: String },
    /// The child refused the operation.
    Child(ChildError),
    /// The rebuild could not be set up or driven.
    Rebuild(RebuildError),
}

/// The aggregate state of children in the given states.
pub open spec fn aggregate(states: Seq<State>) -> NexusState {
    if forall|i: int| 0 <= i < states.len() ==> states[i] != State::Open {
        NexusState::Faulted
    } else if forall|i: int| 0 <= i < states.len() ==> states[i] == State::Open {
        NexusState::Online
    } else {
        NexusState::Degraded
    }
}

/// Whether `name` is among `names`.
pub open spec fn named(names: Seq<Seq<char>>, name: Seq<char>) -> bool {
    exists|i: int| 0 <= i < names.len() && names[i] == name
}

/// Whether `i` is the first position of a faulted state.
pub open spec fn first_faulted(states: Seq<State>, i: int) -> bool {
    &&& 0 <= i < states.len()
    &&& states[i] is Faulted
    &&& forall|k: int| 0 <= k < i ==> !(states[k] is Faulted)
}

/// Whether `i` is the first position of an open state.
pub open spec fn first_open(states: Seq<State>, i: int) -> bool {
    &&& 0 <= i < states.len()
    &&& states[i] == State::Open
    &&& forall|k: int| 0 <= k < i ==> states[k] != State::Open
}

/// The names of the children in an open state, in order.
pub open spec fn open_names_in(states: Seq<State>, names: Seq<Seq<char>>) -> Seq<Seq<char>>
    decreases states.len(),
{
    if states.len() == 0 || names.len() == 0 {
        Seq::empty()
    } else if states.last() == State::Open {
        open_names_in(states.drop_last(), names.drop_last()).push(names.last())
    } else {
        open_names_in(states.drop_last(), names.drop_last())
    }
}

/// The open names are among `names`, and distinct when `names` are.
pub proof fn lemma_open_names(states: Seq<State>, names: Seq<Seq<char>>)
    requires
        names.no_duplicates(),
        states.len() == names.len(),
    ensures
        open_names_in(states, names).no_duplicates(),
        forall|x: Seq<char>| open_names_in(states, names).contains(x) ==> names.contains(x),
    decreases states.len(),
{
    if states.len() > 0 {
        let pre = names.drop_last();
        assert forall|a: int, b: int| 0 <= a < pre.len() && 0 <= b < pre.len() && a != b implies pre[a] != pre[b] by {
            assert(pre[a] == names[a] && pre[b] == names[b]);
        }
        lemma_open_names(states.drop_last(), pre);
        let rest = open_names_in(states.drop_last(), pre);
        assert forall|x: Seq<char>| rest.contains(x) implies names.contains(x) by {
            assert(pre.contains(x));
            let k = choose|k: int| 0 <= k < pre.len() && pre[k] == x;
            assert(names[k] == x);
        }
        if states.last() == State::Open {
            let all = rest.push(names.last());
            assert(!rest.contains(names.last())) by {
                if rest.contains(names.last()) {
                    assert(pre.contains(names.last()));
                    let k = choose|k: int| 0 <= k < pre.len() && pre[k] == names.last();
                    assert(names[k] == names[names.len() - 1]);
                }
            }
            assert forall|a: int, b: int| 0 <= a < all.len() && 0 <= b < all.len() && a != b implies all[a] != all[b] by {
                if a == rest.len() {
                    assert(rest[b] == all[b]);
                } else if b == rest.len() {
                    assert(rest[a] == all[a]);
                } else {
                    assert(rest[a] == all[a] && rest[b] == all[b]);
                }
            }
            assert forall|x: Seq<char>| all.contains(x) implies names.contains(x) by {
                let k = choose|k: int| 0 <= k < all.len() && all[k] == x;
                if k < rest.len() {
                    assert(rest[k] == x);
                } else {
                    assert(names[names.len() - 1] == x);
                }
            }
        }
    }
}

/// The devices once a child in state `st` holding `h` was closed for
/// retirement: an open child releases its claim.
pub open spec fn after_close(devs: Seq<DeviceModel>, st: State, h: Option<BdevHandle>) -> Seq<DeviceModel> {
    if st == State::Open {
        release_claim(devs, h->Some_0.desc.bdev.handle)
    } else {
        devs
    }
}

/// Whether a child in this state is destroyed when retired.
pub open spec fn retirable(st: State) -> bool {
    st == State::Open || st == State::Closed || st is Faulted
}

/// A mirrored device over an ordered list of children.
pub struct Nexus {
    name: String,
    children: Vec<Child>,
    rebuild: Option<RebuildTask>,
    paused: bool,
    fail_fast: bool,
}

impl Nexus {
    pub closed spec fn name_spec(&self) -> Seq<char> {
        self.name@
    }

    /// The states of the children, in order.
    pub closed spec fn states(&self) -> Seq<State> {
        self.children@.map_values(|c: Child| c.state_spec())
    }

    /// The names of the children, in order.
    pub closed spec fn names(&self) -> Seq<Seq<char>> {
        self.children@.map_values(|c: Child| c.name_spec())
    }

    /// The handles the children hold, in order.
    pub closed spec fn handles(&self) -> Seq<Option<BdevHandle>> {
        self.children@.map_values(|c: Child| c.handle_spec())
    }

    pub closed spec fn rebuild_spec(&self) -> Option<RebuildTask> {
        self.rebuild
    }

    pub closed spec fn paused_spec(&self) -> bool {
        self.paused
    }

    pub closed spec fn fail_fast_spec(&self) -> bool {
        self.fail_fast
    }

    /// Every child is well formed, child names are unique, and a configured
    /// rebuild is well formed.
    pub closed spec fn wf(&self) -> bool {
        &&& forall|i: int| 0 <= i < self.children@.len() ==> (#[trigger] self.children@[i]).wf()
        &&& forall|i: int, j: int|
            0 <= i < self.children@.len() && 0 <= j < self.children@.len() && i != j
                ==> self.children@[i].name_spec() != self.children@[j].name_spec()
        &&& self.rebuild matches Some(t) ==> t.wf()
    }

    /// A nexus without children.
    pub fn new(name: String) -> (r: Nexus)
        ensures
            r.wf(),
            r.name_spec() == name@,
            r.states() == Seq::<State>::empty(),
            r.names() == Seq::<Seq<char>>::empty(),
            r.rebuild_spec().is_none(),
            !r.paused_spec(),
            !r.fail_fast_spec(),
    {
        let r = Nexus { name, children: Vec::new(), rebuild: None, paused: false, fail_fast: false };
        assert(r.states() =~= Seq::<State>::empty());
        assert(r.names() =~= Seq::<Seq<char>>::empty());
        r
    }

    pub fn name(&self) -> (r: &String)
        ensures
            r@ == self.name_spec(),
    {
        &self.name
    }

    pub fn child_count(&self) -> (r: usize)
        ensures
            r == self.states().len(),
            r == self.names().len(),
    {
        self.children.len()
    }

    /// The state of the child at position `i`.
    pub fn child_state(&self, i: usize) -> (r: State)
        requires
            i < self.states().len(),
        ensures
            r == self.states()[i as int],
    {
        self.children[i].state()
    }

    /// The child at position `i`.
    pub fn child(&self, i: usize) -> (r: &Child)
        requires
            i < self.states().len(),
        ensures
            r.state_spec() == self.states()[i as int],
            r.name_spec() == self.names()[i as int],
    {
        &self.children[i]
    }

    /// The aggregate state: `Faulted` when no child is open, `Online` when
    /// all are, `Degraded` otherwise.
    pub fn status(&self) -> (r: NexusState)
        ensures
            r == aggregate(self.states()),
    {
        let mut any_open = false;
        let mut all_open = true;
        let mut i: usize = 0;
        while i < self.children.len()
            invariant
                i <= self.children@.len(),
                any_open <==> exists|k: int| 0 <= k < i && self.states()[k] == State::Open,
                all_open <==> forall|k: int| 0 <= k < i ==> self.states()[k] == State::Open,
            decreases self.children@.len() - i,
        {
            let st = self.children[i].state();
            assert(self.states()[i as int] == st);
            if st == State::Open {
                any_open = true;
            } else {
                all_open = false;
            }
            i = i + 1;
        }
        if !any_open {
            NexusState::Faulted
        } else if all_open {
            NexusState::Online
        } else {
            NexusState::Degraded
        }
    }

    /// The position of the child of the given name.
    pub fn child_lookup(&self, name: &String) -> (r: Option<usize>)
        ensures
            r.is_none() <==> !named(self.names(), name@),
            r matches Some(i) ==> i < self.names().len() && self.names()[i as int] == name@,
    {
        let mut i: usize = 0;
        while i < self.children.len()
            invariant
                i <= self.children@.len(),
                forall|k: int| 0 <= k < i ==> self.names()[k] != name@,
            decreases self.children@.len() - i,
        {
            if *self.children[i].name_ref() == *name {
                assert(self.names()[i as int] == name@);
                return Some(i);
            }
            i = i + 1;
        }
        None
    }

    /// Adds a child in state `Init` at the end of the list and registers
    /// it; child names are unique in the nexus and in the registry.
    pub fn add_child(&mut self, inv: &mut Inventory, name: String, uri: String) -> (r: Result<(), ChildError>)
        requires
            old(self).wf(),
            old(inv).wf(),
        ensures
            final(self).wf(),
            final(inv).wf(),
            final(self).name_spec() == old(self).name_spec(),
            final(self).rebuild_spec() == old(self).rebuild_spec(),
            named(old(self).names(), name@) || registered(old(inv).entries(), name@) ==> (r matches Err(
                ChildError::AlreadyExists { name: n },
            ) && n@ == name@) && final(self).states() == old(self).states() && final(self).names() == old(
                self).names() && final(inv).entries() == old(inv).entries(),
            !named(old(self).names(), name@) && !registered(old(inv).entries(), name@) ==> r.is_ok()
                && final(self).states() == old(self).states().push(State::Init) && final(self).names() == old(
                self).names().push(name@) && final(inv).entries() == old(inv).entries().push((name@, uri@)),
    {
        if self.child_lookup(&name).is_some() {
            return Err(ChildError::AlreadyExists { name });
        }
        match inv.insert(name.clone(), uri.clone()) {
            Ok(()) => {},
            Err(e) => { return Err(e); },
        }
        let ghost old_children = self.children@;
        let ghost old_names = self.names();
        let ghost nm = name@;
        let c = Child::new(name, uri);
        self.children.push(c);
        assert(self.states() =~= old_children.map_values(|c: Child| c.state_spec()).push(State::Init));
        assert(self.names() =~= old_names.push(nm));
        assert forall|i: int, j: int|
            0 <= i < self.children@.len() && 0 <= j < self.children@.len() && i != j
                implies self.children@[i].name_spec() != self.children@[j].name_spec() by {
            let n = old_children.len() as int;
            if i == n {
                assert(old_names[j] == self.children@[j].name_spec());
            } else if j == n {
                assert(old_names[i] == self.children@[i].name_spec());
            }
        }
        Ok(())
    }

    /// Removes the named child from the nexus and the registry, closing it
    /// first if it is open; the removed child is returned.
    pub fn remove_child(&mut self, name: &String, inv: &mut Inventory, table: &mut BdevTable) -> (r: Result<Child, NexusError>)
        requires
            old(self).wf(),
            old(inv).wf(),
            old(table).wf(),
        ensures
            final(self).wf(),
            final(inv).wf(),
            final(table).wf(),
            final(self).rebuild_spec() == old(self).rebuild_spec(),
            !named(old(self).names(), name@) ==> (r matches Err(NexusError::ChildNotFound { name: n }) && n@
                == name@) && final(self).states() == old(self).states() && final(self).names() == old(
                self).names() && final(inv).entries() == old(inv).entries() && final(table).devices() == old(
                table).devices(),
            named(old(self).names(), name@) ==> r is Ok && !registered(final(inv).entries(), name@) && exists|i: int|
                0 <= i < old(self).names().len() && old(self).names()[i] == name@ && final(self).states() == old(
                    self).states().remove(i) && final(self).names() == old(self).names().remove(i) && (
                r matches Ok(c) && c.name_spec() == name@ && c.state_spec() == if old(self).states()[i]
                    == State::Open {
                    State::Closed
                } else {
                    old(self).states()[i]
                }),
    {
        let i = match self.child_lookup(name) {
            Some(i) => i,
            None => { return Err(NexusError::ChildNotFound { name: name.clone() }); },
        };
        let ghost before = self.children@;
        let mut c = self.take_child(i);
        if c.state() == State::Open {
            let _ = c.close(table);
        }
        let _ = inv.take(name);
        assert(self.states() =~= old(self).states().remove(i as int));
        assert(self.names() =~= old(self).names().remove(i as int));
        assert forall|a: int, b: int|
            0 <= a < self.children@.len() && 0 <= b < self.children@.len() && a != b
                implies self.children@[a].name_spec() != self.children@[b].name_spec() by {
            let a0 = if a < i { a } else { a + 1 };
            let b0 = if b < i { b } else { b + 1 };
            assert(self.children@[a] == before[a0]);
            assert(self.children@[b] == before[b0]);
        }
        assert forall|k: int| 0 <= k < self.children@.len() implies (#[trigger] self.children@[k]).wf() by {
            let k0 = if k < i { k } else { k + 1 };
            assert(self.children@[k] == before[k0]);
        }
        Ok(c)
    }

    /// The view through which I/O reaches the children: every open child,
    /// in order, for reading and for writing, failing fast while the nexus
    /// does.
    pub fn channel_view(&self) -> (r: ChannelView)
        requires
            self.wf(),
        ensures
            r.wf(),
            r.readers_spec() == open_names_in(self.states(), self.names()),
            r.writers_spec() == open_names_in(self.states(), self.names()),
            r.fail_fast_spec() == self.fail_fast_spec(),
    {
        let mut names: Vec<String> = Vec::new();
        let mut i: usize = 0;
        while i < self.children.len()
            invariant
                i <= self.children@.len(),
                names@.map_values(|s: String| s@) == open_names_in(
                    self.states().subrange(0, i as int),
                    self.names().subrange(0, i as int),
                ),
            decreases self.children@.len() - i,
        {
            let ghost st = self.states();
            let ghost nm = self.names();
            assert(st.subrange(0, i + 1).drop_last() =~= st.subrange(0, i as int));
            assert(nm.subrange(0, i + 1).drop_last() =~= nm.subrange(0, i as int));
            assert(st.subrange(0, i + 1).last() == st[i as int]);
            assert(nm.subrange(0, i + 1).last() == nm[i as int]);
            if self.children[i].state() == State::Open {
                let n = self.children[i].name();
                names.push(n);
                assert(names@.map_values(|s: String| s@) =~= open_names_in(
                    st.subrange(0, i as int),
                    nm.subrange(0, i as int),
                ).push(n@));
            }
            i = i + 1;
        }
        assert(self.states().subrange(0, self.children@.len() as int) =~= self.states());
        assert(self.names().subrange(0, self.children@.len() as int) =~= self.names());
        proof {
            assert forall|a: int, b: int|
                0 <= a < self.names().len() && 0 <= b < self.names().len() && a != b implies self.names()[a]
                != self.names()[b] by {
                assert(self.names()[a] == self.children@[a].name_spec());
                assert(self.names()[b] == self.children@[b].name_spec());
            }
            lemma_open_names(self.states(), self.names());
        }
        let mut view = ChannelView::new(names);
        view.set_fail_fast(self.fail_fast);
        view
    }

    /// Takes the child at `i` out of the list, for an operation on it.
    fn take_child(&mut self, i: usize) -> (c: Child)
        requires
            old(self).wf(),
            i < old(self).children@.len(),
        ensures
            c == old(self).children@[i as int],
            c.wf(),
            final(self).children@ == old(self).children@.remove(i as int),
            final(self).name == old(self).name,
            final(self).rebuild == old(self).rebuild,
            final(self).paused == old(self).paused,
            final(self).fail_fast == old(self).fail_fast,
    {
        self.children.remove(i)
    }

    /// Puts a child back where `take_child` took it from.
    fn put_child(&mut self, i: usize, c: Child, Ghost(before): Ghost<Seq<Child>>)
        requires
            i < before.len(),
            old(self).children@ == before.remove(i as int),
            c.wf(),
            c.name_spec() == before[i as int].name_spec(),
            forall|k: int| 0 <= k < before.len() ==> (#[trigger] before[k]).wf(),
            forall|a: int, b: int|
                0 <= a < before.len() && 0 <= b < before.len() && a != b ==> before[a].name_spec()
                    != before[b].name_spec(),
            old(self).rebuild matches Some(t) ==> t.wf(),
        ensures
            final(self).wf(),
            final(self).children@ == before.update(i as int, c),
            final(self).states() == before.map_values(|x: Child| x.state_spec()).update(i as int, c.state_spec()),
            final(self).names() == before.map_values(|x: Child| x.name_spec()),
            final(self).name == old(self).name,
            final(self).rebuild == old(self).rebuild,
            final(self).paused == old(self).paused,
            final(self).fail_fast == old(self).fail_fast,
    {
        self.children.insert(i, c);
        assert(self.children@ =~= before.update(i as int, c));
        assert(self.states() =~= before.map_values(|x: Child| x.state_spec()).update(i as int, c.state_spec()));
        assert(self.names() =~= before.map_values(|x: Child| x.name_spec()));
    }

    /// Opens the named child.
    pub fn open_child(&mut self, name: &String, table: &mut BdevTable) -> (r: Result<State, NexusError>)
        requires
            old(self).wf(),
            old(table).wf(),
        ensures
            final(self).wf(),
            final(table).wf(),
            final(self).names() == old(self).names(),
            final(self).rebuild_spec() == old(self).rebuild_spec(),
            !named(old(self).names(), name@) ==> (r matches Err(NexusError::ChildNotFound { name: n }) && n@
                == name@) && final(self).states() == old(self).states() && final(table).devices() == old(
                table).devices(),
            named(old(self).names(), name@) ==> exists|i: int|
                0 <= i < old(self).names().len() && old(self).names()[i] == name@ && {
                    let found = can_open(old(table).devices(), name@, true) && old(table).handles_left();
                    &&& final(self).states() == old(self).states().update(i, open_next(old(self).states()[i], found))
                    &&& r.is_ok() == open_succeeds(old(self).states()[i], found)
                },
    {
        let i = match self.child_lookup(name) {
            Some(i) => i,
            None => { return Err(NexusError::ChildNotFound { name: name.clone() }); },
        };
        let ghost before = self.children@;
        let mut c = self.take_child(i);
        let r = c.open(table);
        self.put_child(i, c, Ghost(before));
        assert(old(self).states() == before.map_values(|x: Child| x.state_spec()));
        match r {
            Ok(st) => Ok(st),
            Err(e) => Err(NexusError::Child(e)),
        }
    }

    /// Closes the named child.
    pub fn close_child(&mut self, name: &String, table: &mut BdevTable) -> (r: Result<State, NexusError>)
        requires
            old(self).wf(),
            old(table).wf(),
        ensures
            final(self).wf(),
            final(table).wf(),
            final(self).names() == old(self).names(),
            final(self).rebuild_spec() == old(self).rebuild_spec(),
            !named(old(self).names(), name@) ==> (r matches Err(NexusError::ChildNotFound { name: n }) && n@
                == name@) && final(self).states() == old(self).states() && final(table).devices() == old(
                table).devices(),
            named(old(self).names(), name@) ==> exists|i: int|
                0 <= i < old(self).names().len() && old(self).names()[i] == name@ && final(self).states() == old(
                    self).states().update(i, close_next(old(self).states()[i])) && r.is_ok() == close_permitted(
                    old(self).states()[i]),
    {
        let i = match self.child_lookup(name) {
            Some(i) => i,
            None => { return Err(NexusError::ChildNotFound { name: name.clone() }); },
        };
        let ghost before = self.children@;
        let mut c = self.take_child(i);
        let r = c.close(table);
        self.put_child(i, c, Ghost(before));
        assert(old(self).states() == before.map_values(|x: Child| x.state_spec()));
        match r {
            Ok(st) => Ok(st),
            Err(e) => Err(NexusError::Child(e)),
        }
    }

    /// Faults the named child for `reason`. The result tells whether the
    /// child became faulted by this call, and so is to be retired: faulting a
    /// faulted child again changes nothing and asks for no retirement.
    pub fn fault_child(&mut self, name: &String, reason: Reason, table: &mut BdevTable) -> (r: Result<bool, NexusError>)
        requires
            old(self).wf(),
            old(table).wf(),
        ensures
            final(self).wf(),
            final(table).wf(),
            final(self).names() == old(self).names(),
            final(self).rebuild_spec() == old(self).rebuild_spec(),
            !named(old(self).names(), name@) ==> (r matches Err(NexusError::ChildNotFound { name: n }) && n@
                == name@) && final(self).states() == old(self).states() && final(table).devices() == old(
                table).devices(),
            named(old(self).names(), name@) ==> exists|i: int|
                0 <= i < old(self).names().len() && old(self).names()[i] == name@ && {
                    let st = old(self).states()[i];
                    &&& final(self).states() == old(self).states().update(i, fault_next(st, reason))
                    &&& r.is_ok() == fault_permitted(st)
                    &&& r matches Ok(retire) ==> retire == !(st is Faulted)
                    &&& st is Faulted ==> final(table).devices() == old(table).devices()
                },
    {
        let i = match self.child_lookup(name) {
            Some(i) => i,
            None => { return Err(NexusError::ChildNotFound { name: name.clone() }); },
        };
        let ghost before = self.children@;
        let mut c = self.take_child(i);
        let was_faulted = match c.state() {
            State::Faulted(_) => true,
            _ => false,
        };
        let r = c.fault(reason, table);
        self.put_child(i, c, Ghost(before));
        assert(old(self).states() == before.map_values(|x: Child| x.state_spec()));
        match r {
            Ok(_) => Ok(!was_faulted),
            Err(e) => Err(NexusError::Child(e)),
        }
    }

    /// Holds new I/O until `resume`, for a change of configuration.
    pub fn pause(&mut self)
        ensures
            final(self).paused_spec(),
            final(self).fail_fast_spec() == old(self).fail_fast_spec(),
            final(self).states() == old(self).states(),
            final(self).names() == old(self).names(),
            final(self).rebuild_spec() == old(self).rebuild_spec(),
            old(self).wf() ==> final(self).wf(),
    {
        self.paused = true;
    }

    /// Lets held I/O proceed again.
    pub fn resume(&mut self)
        ensures
            !final(self).paused_spec(),
            final(self).fail_fast_spec() == old(self).fail_fast_spec(),
            final(self).states() == old(self).states(),
            final(self).names() == old(self).names(),
            final(self).rebuild_spec() == old(self).rebuild_spec(),
            old(self).wf() ==> final(self).wf(),
    {
        self.paused = false;
    }

    /// Makes newly arriving I/O fail at once.
    pub fn set_failfast(&mut self)
        ensures
            final(self).fail_fast_spec(),
            final(self).paused_spec() == old(self).paused_spec(),
            final(self).states() == old(self).states(),
            final(self).names() == old(self).names(),
            final(self).rebuild_spec() == old(self).rebuild_spec(),
            old(self).wf() ==> final(self).wf(),
    {
        self.fail_fast = true;
    }

    /// Lets newly arriving I/O be dispatched again.
    pub fn clear_failfast(&mut self)
        ensures
            !final(self).fail_fast_spec(),
            final(self).paused_spec() == old(self).paused_spec(),
            final(self).states() == old(self).states(),
            final(self).names() == old(self).names(),
            final(self).rebuild_spec() == old(self).rebuild_spec(),
            old(self).wf() ==> final(self).wf(),
    {
        self.fail_fast = false;
    }

    /// Decides what becomes of a newly arriving I/O: it fails at once while
    /// the nexus fails fast, waits while it is paused, and is dispatched
    /// otherwise.
    pub fn admit_io(&self) -> (r: Admission)
        ensures
            r == if self.fail_fast_spec() {
                Admission::Reject
            } else if self.paused_spec() {
                Admission::Hold
            } else {
                Admission::Dispatch
            },
    {
        if self.fail_fast {
            Admission::Reject
        } else if self.paused {
            Admission::Hold
        } else {
            Admission::Dispatch
        }
    }

    pub fn is_paused(&self) -> (r: bool)
        ensures
            r == self.paused_spec(),
    {
        self.paused
    }

    pub fn is_fail_fast(&self) -> (r: bool)
        ensures
            r == self.fail_fast_spec(),
    {
        self.fail_fast
    }

    /// Retires the named child: within a pause, with new I/O failing fast,
    /// an open, faulted or closed child is closed and its backing device
    /// destroyed. It ends `Destroyed`, and its device is removed, when that
    /// device exists and is unclaimed once the child is closed; otherwise it
    /// ends `Faulted(Missing)`. A child that is gone already, or in another
    /// state, is left as it is. Returns the aggregate state after.
    pub fn retire_child(&mut self, name: &String, table: &mut BdevTable) -> (r: NexusState)
        requires
            old(self).wf(),
            old(table).wf(),
        ensures
            final(self).wf(),
            final(table).wf(),
            !final(self).paused_spec(),
            !final(self).fail_fast_spec(),
            final(self).names() == old(self).names(),
            final(self).rebuild_spec() == old(self).rebuild_spec(),
            r == aggregate(final(self).states()),
            !named(old(self).names(), name@) ==> final(self).states() == old(self).states() && final(table).devices()
                == old(table).devices(),
            named(old(self).names(), name@) ==> exists|i: int|
                0 <= i < old(self).names().len() && old(self).names()[i] == name@ && {
                    let st = old(self).states()[i];
                    let mid = after_close(old(table).devices(), st, old(self).handles()[i]);
                    if retirable(st) {
                        &&& final(self).states() == old(self).states().update(
                            i,
                            if destroyable(mid, name@) {
                                State::Destroyed
                            } else {
                                State::Faulted(Reason::Missing)
                            },
                        )
                        &&& final(table).devices() == if destroyable(mid, name@) {
                            mid.remove(device_index(mid, name@))
                        } else {
                            mid
                        }
                    } else {
                        &&& final(self).states() == old(self).states()
                        &&& final(table).devices() == old(table).devices()
                    }
                },
    {
        self.paused = true;
        self.fail_fast = true;
        match self.child_lookup(name) {
            Some(i) => {
                let ghost before = self.children@;
                let ghost devs0 = table.devices();
                let mut c = self.take_child(i);
                let ghost st = c.state_spec();
                let ghost h = c.handle_spec();
                match c.state() {
                    State::Open | State::Faulted(_) => {
                        let _ = c.close(table);
                    },
                    _ => {},
                }
                proof {
                    if st == State::Open {
                        assert(table.devices() =~= release_claim(devs0, h->Some_0.desc.bdev.handle));
                    }
                }
                let ghost mid = table.devices();
                if c.state() == State::Closed {
                    let _ = c.destroy(table);
                }
                self.put_child(i, c, Ghost(before));
                self.fail_fast = false;
                self.paused = false;
                let r = self.status();
                proof {
                    assert(old(self).states() == before.map_values(|x: Child| x.state_spec()));
                    assert(old(self).handles()[i as int] == h);
                    assert(mid == after_close(old(table).devices(), st, old(self).handles()[i as int]));
                    if !retirable(st) {
                        assert(self.states() =~= old(self).states());
                    }
                }
                r
            },
            None => {
                self.fail_fast = false;
                self.paused = false;
                self.status()
            },
        }
    }

    /// The first faulted child: the one a rebuild restores.
    pub fn find_rebuild_target(&self) -> (r: Option<usize>)
        ensures
            r.is_none() <==> forall|k: int| 0 <= k < self.states().len() ==> !(self.states()[k] is Faulted),
            r matches Some(i) ==> first_faulted(self.states(), i as int),
    {
        let mut i: usize = 0;
        while i < self.children.len()
            invariant
                i <= self.children@.len(),
                forall|k: int| 0 <= k < i ==> !(self.states()[k] is Faulted),
            decreases self.children@.len() - i,
        {
            let st = self.children[i].state();
            assert(self.states()[i as int] == st);
            if let State::Faulted(_) = st {
                return Some(i);
            }
            i = i + 1;
        }
        None
    }

    /// The first open child: the one a rebuild copies from. A nexus of one
    /// child has nothing to rebuild from.
    pub fn find_rebuild_source(&self) -> (r: Option<usize>)
        ensures
            self.states().len() <= 1 ==> r.is_none(),
            self.states().len() > 1 ==> (r.is_none() <==> forall|k: int|
                0 <= k < self.states().len() ==> self.states()[k] != State::Open),
            r matches Some(i) ==> first_open(self.states(), i as int),
    {
        if self.children.len() <= 1 {
            return None;
        }
        let mut i: usize = 0;
        while i < self.children.len()
            invariant
                i <= self.children@.len(),
                self.children@.len() > 1,
                self.states().len() == self.children@.len(),
                forall|k: int| 0 <= k < i ==> self.states()[k] != State::Open,
            decreases self.children@.len() - i,
        {
            let st = self.children[i].state();
            assert(self.states()[i as int] == st);
            if st == State::Open {
                return Some(i);
            }
            i = i + 1;
        }
        None
    }

    /// Sets up a rebuild of the first faulted child from the first open one,
    /// in segments of `segment_size` blocks, over the whole block range of
    /// the target's device. At most one rebuild is configured at a time.
    pub fn init_rebuild(&mut self, table: &BdevTable, segment_size: u64) -> (r: Result<(), NexusError>)
        requires
            old(self).wf(),
            table.wf(),
        ensures
            final(self).wf(),
            final(self).states() == old(self).states(),
            final(self).names() == old(self).names(),
            r.is_err() ==> final(self).rebuild_spec() == old(self).rebuild_spec(),
            old(self).rebuild_spec().is_some() ==> r == Err::<(), NexusError>(
                NexusError::Rebuild(RebuildError::AlreadyInProgress)),
            old(self).rebuild_spec().is_none() && (forall|k: int| 0 <= k < old(self).states().len()
                ==> !(old(self).states()[k] is Faulted) || forall|k: int| 0 <= k < old(self).states().len()
                ==> old(self).states()[k] != State::Open) ==> r == Err::<(), NexusError>(
                NexusError::Rebuild(RebuildError::NoRebuildSolution)),
            forall|i: int, j: int|
                #![trigger first_faulted(old(self).states(), i), first_open(old(self).states(), j)]
                old(self).rebuild_spec().is_none() && first_faulted(old(self).states(), i) && first_open(
                    old(self).states(),
                    j,
                ) ==> {
                    let devs = table.devices();
                    let tname = old(self).names()[i];
                    let sname = old(self).names()[j];
                    let tgt = devs[device_index(devs, tname)].bdev;
                    let src = devs[device_index(devs, sname)].bdev;
                    if !has_device(devs, tname) || !has_device(devs, sname) {
                        r == Err::<(), NexusError>(NexusError::Rebuild(RebuildError::NoRebuildSolution))
                    } else if tgt.num_blocks < src.num_blocks {
                        r == Err::<(), NexusError>(NexusError::Rebuild(RebuildError::TargetTooSmall))
                    } else if segment_size == 0 {
                        r == Err::<(), NexusError>(NexusError::Rebuild(RebuildError::InvalidSegmentSize))
                    } else {
                        let t = final(self).rebuild_spec()->Some_0;
                        &&& r.is_ok()
                        &&& final(self).rebuild_spec() is Some
                        &&& t.state_spec() == RebuildState::Init
                        &&& t.target_spec() == tname
                        &&& t.source_spec() == sname
                        &&& t.total_blocks_spec() == tgt.num_blocks
                        &&& t.segment_size_spec() == segment_size
                        &&& t.current_offset_spec() == 0
                    }
                },
    {
        if self.rebuild.is_some() {
            return Err(NexusError::Rebuild(RebuildError::AlreadyInProgress));
        }
        let (ti, si) = match (self.find_rebuild_target(), self.find_rebuild_source()) {
            (Some(ti), Some(si)) => (ti, si),
            _ => {
                proof {
                    assert(self.states().len() > 1 || forall|k: int| 0 <= k < self.states().len()
                        ==> !(self.states()[k] is Faulted) || forall|k: int| 0 <= k < self.states().len()
                        ==> self.states()[k] != State::Open);
                }
                return Err(NexusError::Rebuild(RebuildError::NoRebuildSolution));
            },
        };
        let target = self.children[ti].name();
        let source = self.children[si].name();
        assert(self.names()[ti as int] == target@);
        assert(self.names()[si as int] == source@);
        let (tb, sb) = match (table.lookup(&target), table.lookup(&source)) {
            (Some(tb), Some(sb)) => (tb, sb),
            _ => { return Err(NexusError::Rebuild(RebuildError::NoRebuildSolution)); },
        };
        match RebuildTask::new(source, target, sb.num_blocks, tb.num_blocks, segment_size) {
            Ok(t) => {
                self.rebuild = Some(t);
                Ok(())
            },
            Err(e) => Err(NexusError::Rebuild(e)),
        }
    }

    /// Starts the configured rebuild: the first step to perform.
    pub fn start_rebuild(&mut self) -> (r: Result<RebuildStep, NexusError>)
        requires
            old(self).wf(),
        ensures
            final(self).wf(),
            final(self).states() == old(self).states(),
            final(self).names() == old(self).names(),
            old(self).rebuild_spec().is_none() ==> r == Err::<RebuildStep, NexusError>(
                NexusError::Rebuild(RebuildError::NotConfigured)) && final(self).rebuild_spec().is_none(),
            old(self).rebuild_spec() matches Some(t) && t.state_spec() != RebuildState::Init ==> r == Err::<
                RebuildStep,
                NexusError,
            >(NexusError::Rebuild(RebuildError::AlreadyInProgress)) && final(self).rebuild_spec() == old(
                self).rebuild_spec(),
            old(self).rebuild_spec() matches Some(t) && t.state_spec() == RebuildState::Init ==> (r is Ok
                && final(self).rebuild_spec() is Some && started(
                old(self).rebuild_spec()->Some_0,
                final(self).rebuild_spec()->Some_0,
                r->Ok_0,
            )),
    {
        match self.rebuild.take() {
            None => Err(NexusError::Rebuild(RebuildError::NotConfigured)),
            Some(mut t) => {
                if t.state() != RebuildState::Init {
                    self.rebuild = Some(t);
                    return Err(NexusError::Rebuild(RebuildError::AlreadyInProgress));
                }
                let step = t.start();
                self.rebuild = Some(t);
                Ok(step)
            },
        }
    }

    /// Reports the outcome of the rebuild's read of its current segment.
    pub fn rebuild_read_complete(&mut self, success: bool) -> (r: Result<RebuildStep, NexusError>)
        requires
            old(self).wf(),
        ensures
            final(self).wf(),
            final(self).states() == old(self).states(),
            final(self).names() == old(self).names(),
            r.is_ok() <==> (old(self).rebuild_spec() matches Some(t) && t.state_spec() == RebuildState::Running
                && t.in_flight_spec().is_some() && !t.writing_spec()),
            r.is_err() ==> final(self).rebuild_spec() == old(self).rebuild_spec(),
            old(self).rebuild_spec().is_none() ==> r == Err::<RebuildStep, NexusError>(
                NexusError::Rebuild(RebuildError::NotConfigured)),
            old(self).rebuild_spec().is_some() && r.is_err() ==> r == Err::<RebuildStep, NexusError>(
                NexusError::Rebuild(RebuildError::DispatchFailed)),
            r is Ok ==> final(self).rebuild_spec() is Some && read_done(
                old(self).rebuild_spec()->Some_0,
                final(self).rebuild_spec()->Some_0,
                success,
                r->Ok_0,
            ),
    {
        match self.rebuild.take() {
            None => Err(NexusError::Rebuild(RebuildError::NotConfigured)),
            Some(mut t) => {
                if !t.awaiting_read() {
                    self.rebuild = Some(t);
                    return Err(NexusError::Rebuild(RebuildError::DispatchFailed));
                }
                let step = t.read_complete(success);
                self.rebuild = Some(t);
                Ok(step)
            },
        }
    }

    /// Reports the outcome of the rebuild's write of its current segment.
    pub fn rebuild_write_complete(&mut self, success: bool) -> (r: Result<RebuildStep, NexusError>)
        requires
            old(self).wf(),
        ensures
            final(self).wf(),
            final(self).states() == old(self).states(),
            final(self).names() == old(self).names(),
            r.is_ok() <==> (old(self).rebuild_spec() matches Some(t) && t.state_spec() == RebuildState::Running
                && t.writing_spec()),
            r.is_err() ==> final(self).rebuild_spec() == old(self).rebuild_spec(),
            old(self).rebuild_spec().is_none() ==> r == Err::<RebuildStep, NexusError>(
                NexusError::Rebuild(RebuildError::NotConfigured)),
            old(self).rebuild_spec().is_some() && r.is_err() ==> r == Err::<RebuildStep, NexusError>(
                NexusError::Rebuild(RebuildError::DispatchFailed)),
            r is Ok ==> final(self).rebuild_spec() is Some && written(
                old(self).rebuild_spec()->Some_0,
                final(self).rebuild_spec()->Some_0,
                success,
                r->Ok_0,
            ),
    {
        match self.rebuild.take() {
            None => Err(NexusError::Rebuild(RebuildError::NotConfigured)),
            Some(mut t) => {
                if !t.awaiting_write() {
                    self.rebuild = Some(t);
                    return Err(NexusError::Rebuild(RebuildError::DispatchFailed));
                }
                let step = t.write_complete(success);
                self.rebuild = Some(t);
                Ok(step)
            },
        }
    }

    /// Consumes a finished rebuild. After a completed copy the target child
    /// is opened again, and the result tells whether it is open; after a
    /// failed copy the result is `false`.
    pub fn rebuild_completion(&mut self, table: &mut BdevTable) -> (r: Result<bool, NexusError>)
        requires
            old(self).wf(),
            old(table).wf(),
        ensures
            final(self).wf(),
            final(table).wf(),
            final(self).names() == old(self).names(),
            old(self).rebuild_spec().is_none() ==> r == Err::<bool, NexusError>(
                NexusError::Rebuild(RebuildError::NotConfigured)),
            old(self).rebuild_spec() matches Some(t) && (t.state_spec() == RebuildState::Init || t.state_spec()
                == RebuildState::Running) ==> r == Err::<bool, NexusError>(
                NexusError::Rebuild(RebuildError::AlreadyInProgress)) && final(self).rebuild_spec() == old(
                self).rebuild_spec(),
            old(self).rebuild_spec() matches Some(t) && t.state_spec() == RebuildState::Failed ==> r == Ok::<
                bool,
                NexusError,
            >(false) && final(self).rebuild_spec().is_none(),
            r.is_err() || (old(self).rebuild_spec() is Some && old(self).rebuild_spec()->Some_0.state_spec()
                == RebuildState::Failed) ==> final(self).states() == old(self).states() && final(table).devices() == old(table).devices(),
            old(self).rebuild_spec() matches Some(t) && t.state_spec() == RebuildState::Completed ==> ({
                let tname = old(self).rebuild_spec()->Some_0.target_spec();
                &&& final(self).rebuild_spec().is_none()
                &&& !named(old(self).names(), tname) ==> r == Ok::<bool, NexusError>(false) && final(self).states()
                    == old(self).states() && final(table).devices() == old(table).devices()
                &&& named(old(self).names(), tname) ==> exists|i: int|
                    0 <= i < old(self).names().len() && old(self).names()[i] == tname && {
                        let found = can_open(old(table).devices(), tname, true) && old(table).handles_left();
                        &&& final(self).states() == old(self).states().update(i, open_next(old(self).states()[i], found))
                        &&& r == Ok::<bool, NexusError>(open_succeeds(old(self).states()[i], found))
                    }
            }),
    {
        match self.rebuild.take() {
            None => Err(NexusError::Rebuild(RebuildError::NotConfigured)),
            Some(t) => {
                match t.state() {
                    RebuildState::Completed => {
                        let res = self.open_child(t.target(), table);
                        proof {
                            if res.is_ok() || named(old(self).names(), t.target_spec()) {
                                let i = choose|i: int|
                                    0 <= i < old(self).names().len() && old(self).names()[i] == t.target_spec() && {
                                        let found = can_open(old(table).devices(), t.target_spec(), true)
                                            && old(table).handles_left();
                                        &&& self.states() == old(self).states().update(i, open_next(old(self).states()[i], found))
                                        &&& res.is_ok() == open_succeeds(old(self).states()[i], found)
                                    };
                                assert(old(self).names()[i] == t.target_spec());
                            }
                        }
                        let opened = match res {
                            Ok(_) => true,
                            Err(_) => false,
                        };
                        Ok(opened)
                    },
                    RebuildState::Failed => Ok(false),
                    _ => {
                        self.rebuild = Some(t);
                        Err(NexusError::Rebuild(RebuildError::AlreadyInProgress))
                    },
                }
            },
        }
    }

    /// The configured rebuild, if any.
    pub fn rebuild_task(&self) -> (r: Option<&RebuildTask>)
        ensures
            r matches Some(t) ==> self.rebuild_spec() == Some(*t),
            r.is_none() ==> self.rebuild_spec().is_none(),
    {
        match &self.rebuild {
            Some(t) => Some(t),
            None => None,
        }
    }
}

} // verus!
