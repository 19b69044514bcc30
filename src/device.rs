//! Block devices, descriptors, channels and the device table through which
//! children acquire exclusive access to their backing devices.
use vstd::prelude::*;

verus! {

/// Errors raised by the block-device layer.
#[derive(Debug, Clone, PartialEq, Eq)]
pub enum CoreError {
    /// No device with the given name exists.
    BdevNotFound { name: String },
    /// A device with the given name exists already.
    Exists { name: String },
    /// The device exists but could not be opened or claimed.
    BdevOpen { name: String },
    /// The descriptor does not refer to an open device.
    InvalidDescriptor,
    /// The device is still claimed and cannot be destroyed.
    DeviceBusy { name: String },
    /// The requested range lies outside the device.
    InvalidRange { offset: u64, len: u64 },
    /// The table ran out of handles.
    NoHandles,
    /// A byte offset that does not start a block.
    InvalidOffset { offset: u64 },
}

/// A block device: its handle, block size, block count and required buffer
/// alignment.
#[derive(Debug, Clone, Copy, PartialEq, Eq)]
pub struct Bdev {
    pub handle: u64,
    pub block_len: u32,
    pub num_blocks: u64,
    pub alignment: u8,
}

impl Bdev {
    /// A device has a non-null handle, a positive block size, and a byte size
    /// that can be addressed in memory.
    pub open spec fn wf(&self) -> bool {
        &&& self.handle != 0
        &&& self.block_len > 0
        &&& self.num_blocks * self.block_len <= usize::MAX
    }

    pub open spec fn size_spec(&self) -> int {
        self.num_blocks * self.block_len
    }

    /// The size of the device in bytes.
    pub fn size_in_bytes(&self) -> (r: u64)
        requires
            self.size_spec() <= u64::MAX,
        ensures
            r == self.size_spec(),
    {
        self.num_blocks * (self.block_len as u64)
    }

    /// The device's handle.
    pub fn as_ptr(&self) -> (r: u64)
        ensures
            r == self.handle,
    {
        self.handle
    }

    pub fn block_len(&self) -> (r: u32)
        ensures
            r == self.block_len,
    {
        self.block_len
    }

    pub fn num_blocks(&self) -> (r: u64)
        ensures
            r == self.num_blocks,
    {
        self.num_blocks
    }
}


/// A descriptor of an open device; as long as it is held the device cannot
/// be destroyed.
#[derive(Debug, Clone, Copy, PartialEq, Eq)]
pub struct Descriptor {
    pub handle: u64,
    pub bdev: Bdev,
}

impl Descriptor {
    /// The descriptor's handle.
    pub fn as_ptr(&self) -> (r: u64)
        ensures
            r == self.handle,
    {
        self.handle
    }

    /// Wraps a raw descriptor handle for `bdev`; a null handle gives `None`.
    pub fn from_null_checked(desc: u64, bdev: Bdev) -> (r: Option<Descriptor>)
        ensures
            desc == 0 ==> r.is_none(),
            desc != 0 ==> r == Some(Descriptor { handle: desc, bdev }),
    {
        if desc == 0 {
            None
        } else {
            Some(Descriptor { handle: desc, bdev })
        }
    }

    /// The device this descriptor refers to.
    pub fn get_bdev(&self) -> (r: Bdev)
        ensures
            r == self.bdev,
    {
        self.bdev
    }
}

/// A per-core channel through which I/O is submitted to one device.
#[derive(Debug, Clone, Copy, PartialEq, Eq)]
pub struct IoChannel {
    pub handle: u64,
}

impl IoChannel {
    /// Wraps a raw channel handle; a null handle gives `None`.
    pub fn from_null_checked(ch: u64) -> (r: Option<IoChannel>)
        ensures
            ch == 0 ==> r.is_none(),
            ch != 0 ==> r == Some(IoChannel { handle: ch }),
    {
        if ch == 0 {
            None
        } else {
            Some(IoChannel { handle: ch })
        }
    }

    /// The channel's handle.
    pub fn as_ptr(&self) -> (r: u64)
        ensures
            r == self.handle,
    {
        self.handle
    }
}

/// A lightweight thread of the runtime, identified by its handle.
#[derive(Debug, Clone, Copy, PartialEq, Eq)]
pub struct Mthread {
    pub handle: u64,
}

impl Mthread {
    /// The thread's handle, for reading.
    pub fn inner(self) -> (r: u64)
        ensures
            r == self.handle,
    {
        self.handle
    }

    /// The thread's handle, for handing to calls that drive the thread.
    pub fn inner_mut(self) -> (r: u64)
        ensures
            r == self.handle,
    {
        self.handle
    }

    /// Wraps a raw thread handle; a null handle gives `None`.
    pub fn from_null_checked(t: u64) -> (r: Option<Mthread>)
        ensures
            t == 0 ==> r.is_none(),
            t != 0 ==> r == Some(Mthread { handle: t }),
    {
        if t == 0 {
            None
        } else {
            Some(Mthread { handle: t })
        }
    }
}

/// A zeroed I/O buffer with the alignment its device asks for.
#[derive(Debug, Clone)]
pub struct DmaBuf {
    pub buf: Vec<u8>,
    pub alignment: u8,
}

/// Errors of buffer allocation.
#[derive(Debug, Clone, Copy, PartialEq, Eq)]
pub enum DmaError {
    /// The buffer could not be allocated.
    Alloc,
}

/// Returns `len` zero bytes.
pub fn zeroed(len: usize) -> (r: Vec<u8>)
    ensures
        r@ == Seq::new(len as nat, |_i: int| 0u8),
{
    let mut v: Vec<u8> = Vec::new();
    let mut k: usize = 0;
    while k < len
        invariant
            k <= len,
            v@ == Seq::new(k as nat, |_i: int| 0u8),
        decreases len - k,
    {
        v.push(0u8);
        k = k + 1;
        assert(v@ =~= Seq::new(k as nat, |_i: int| 0u8));
    }
    v
}


/// What the device table records of one device.
pub ghost struct DeviceModel {
    pub name: Seq<char>,
    pub bdev: Bdev,
    pub claimed: bool,
    pub data: Seq<u8>,
}

/// Whether a device of the given name is in `devs`.
pub open spec fn has_device(devs: Seq<DeviceModel>, name: Seq<char>) -> bool {
    exists|i: int| 0 <= i < devs.len() && devs[i].name == name
}

/// The position of the device of the given name in `devs`.
pub open spec fn device_index(devs: Seq<DeviceModel>, name: Seq<char>) -> int {
    choose|i: int| 0 <= i < devs.len() && devs[i].name == name
}

/// Whether the device of the given name can be opened, exclusively or not.
pub open spec fn can_open(devs: Seq<DeviceModel>, name: Seq<char>, exclusive: bool) -> bool {
    has_device(devs, name) && !(exclusive && devs[device_index(devs, name)].claimed)
}

/// `data` with the bytes from `start` on replaced by `buf`.
pub open spec fn splice(data: Seq<u8>, start: int, buf: Seq<u8>) -> Seq<u8> {
    data.subrange(0, start) + buf + data.subrange(start + buf.len(), data.len() as int)
}

/// Whether `len` bytes from block `offset_blocks` lie inside the device.
pub open spec fn in_range(bdev: Bdev, offset_blocks: int, len: int) -> bool {
    offset_blocks * bdev.block_len + len <= bdev.size_spec()
}

/// `after` is `before` with the claim on the device of `handle` released.
pub open spec fn released(before: Seq<DeviceModel>, after: Seq<DeviceModel>, handle: u64) -> bool {
    &&& after.len() == before.len()
    &&& forall|k: int|
        0 <= k < before.len() ==> #[trigger] after[k] == if before[k].bdev.handle == handle {
            DeviceModel { claimed: false, ..before[k] }
        } else {
            before[k]
        }
}

/// `before` with the claim on the device of `handle` released.
pub open spec fn release_claim(before: Seq<DeviceModel>, handle: u64) -> Seq<DeviceModel> {
    Seq::new(
        before.len(),
        |k: int|
            if before[k].bdev.handle == handle {
                DeviceModel { claimed: false, ..before[k] }
            } else {
                before[k]
            },
    )
}

/// Whether the device of the given name exists and is not claimed.
pub open spec fn destroyable(devs: Seq<DeviceModel>, name: Seq<char>) -> bool {
    has_device(devs, name) && !devs[device_index(devs, name)].claimed
}

struct BdevEntry {
    name: String,
    bdev: Bdev,
    claimed: bool,
    data: Vec<u8>,
}

/// The devices of the process, keyed by unique name, each with its contents.
pub struct BdevTable {
    entries: Vec<BdevEntry>,
    next_handle: u64,
}

impl BdevTable {
    pub closed spec fn devices(&self) -> Seq<DeviceModel> {
        self.entries@.map_values(
            |e: BdevEntry| DeviceModel { name: e.name@, bdev: e.bdev, claimed: e.claimed, data: e.data@ },
        )
    }

    pub closed spec fn wf(&self) -> bool {
        &&& self.next_handle >= 1
        &&& forall|i: int|
            0 <= i < self.entries@.len() ==> {
                let e = #[trigger] self.entries@[i];
                &&& e.bdev.wf()
                &&& e.bdev.handle < self.next_handle
                &&& e.data@.len() == e.bdev.size_spec()
            }
        &&& forall|i: int, j: int|
            0 <= i < self.entries@.len() && 0 <= j < self.entries@.len() && i != j
                ==> self.entries@[i].name@ != self.entries@[j].name@
                && self.entries@[i].bdev.handle != self.entries@[j].bdev.handle
    }

    /// Whether the table can still hand out a new handle.
    pub closed spec fn handles_left(&self) -> bool {
        self.next_handle < u64::MAX
    }

    /// An empty table.
    pub fn new() -> (r: BdevTable)
        ensures
            r.wf(),
            r.devices() == Seq::<DeviceModel>::empty(),
    {
        let r = BdevTable { entries: Vec::new(), next_handle: 1 };
        assert(r.devices() =~= Seq::<DeviceModel>::empty());
        r
    }

    fn find(&self, name: &String) -> (r: Option<usize>)
        requires
            self.wf(),
        ensures
            r.is_none() <==> !has_device(self.devices(), name@),
            r matches Some(i) ==> i < self.devices().len() && self.devices()[i as int].name == name@
                && device_index(self.devices(), name@) == i,
    {
        let mut i: usize = 0;
        while i < self.entries.len()
            invariant
                self.wf(),
                i <= self.entries@.len(),
                forall|k: int| 0 <= k < i ==> self.devices()[k].name != name@,
            decreases self.entries@.len() - i,
        {
            if self.entries[i].name == *name {
                assert(self.devices()[i as int].name == name@);
                proof {
                    let j = device_index(self.devices(), name@);
                    assert(0 <= j < self.devices().len() && self.devices()[j].name == name@);
                    assert(self.entries@[j].name@ == self.entries@[i as int].name@);
                }
                return Some(i);
            }
            i = i + 1;
        }
        proof {
            if has_device(self.devices(), name@) {
                let j = choose|j: int| 0 <= j < self.devices().len() && self.devices()[j].name == name@;
                assert(self.devices()[j].name == name@);
            }
        }
        None
    }

    /// Looks a device up by name.
    pub fn lookup(&self, name: &String) -> (r: Option<Bdev>)
        requires
            self.wf(),
        ensures
            r.is_some() <==> has_device(self.devices(), name@),
            r matches Some(b) ==> b == self.devices()[device_index(self.devices(), name@)].bdev,
    {
        match self.find(name) {
            Some(i) => Some(self.entries[i].bdev),
            None => None,
        }
    }

    /// Creates a zero-filled device of `num_blocks` blocks of `block_len`
    /// bytes under a new name.
    pub fn create(&mut self, name: String, block_len: u32, num_blocks: u64) -> (r: Result<Bdev, CoreError>)
        requires
            old(self).wf(),
        ensures
            final(self).wf(),
            has_device(old(self).devices(), name@) ==> r == Err::<Bdev, CoreError>(CoreError::Exists { name })
                && final(self).devices() == old(self).devices(),
            !has_device(old(self).devices(), name@) && block_len > 0 && num_blocks * block_len <= usize::MAX
                && old(self).handles_left() ==> r.is_ok(),
            r.is_err() ==> final(self).devices() == old(self).devices(),
            r matches Ok(b) ==> b.wf() && b.block_len == block_len && b.num_blocks == num_blocks
                && final(self).devices() == old(self).devices().push(DeviceModel {
                    name: name@,
                    bdev: b,
                    claimed: false,
                    data: Seq::new(b.size_spec() as nat, |_i: int| 0u8),
                }),
    {
        if self.find(&name).is_some() {
            return Err(CoreError::Exists { name });
        }
        if block_len == 0 || self.next_handle == u64::MAX {
            return Err(CoreError::NoHandles);
        }
        if num_blocks > (usize::MAX as u64) / (block_len as u64) {
            proof {
                let q = (usize::MAX as int) / (block_len as int);
                vstd::arithmetic::div_mod::lemma_fundamental_div_mod(usize::MAX as int, block_len as int);
                vstd::arithmetic::mul::lemma_mul_inequality(q + 1, num_blocks as int, block_len as int);
                vstd::arithmetic::mul::lemma_mul_is_distributive_add_other_way(block_len as int, q, 1);
                vstd::arithmetic::mul::lemma_mul_is_commutative(q, block_len as int);
            }
            return Err(CoreError::InvalidRange { offset: 0, len: num_blocks });
        }
        proof {
            vstd::arithmetic::div_mod::lemma_fundamental_div_mod(usize::MAX as int, block_len as int);
            vstd::arithmetic::mul::lemma_mul_inequality(
                num_blocks as int, (usize::MAX as int) / (block_len as int), block_len as int);
            vstd::arithmetic::mul::lemma_mul_is_commutative(
                (usize::MAX as int) / (block_len as int), block_len as int);
        }
        let size: usize = (num_blocks as usize) * (block_len as usize);
        let bdev = Bdev { handle: self.next_handle, block_len, num_blocks, alignment: 0 };
        let data = zeroed(size);
        let ghost old_devs = self.devices();
        self.entries.push(BdevEntry { name, bdev, claimed: false, data });
        self.next_handle = self.next_handle + 1;
        assert(self.devices() =~= old_devs.push(DeviceModel {
            name: name@, bdev, claimed: false, data: Seq::new(bdev.size_spec() as nat, |_i: int| 0u8),
        }));
        assert forall|i: int, j: int|
            0 <= i < self.entries@.len() && 0 <= j < self.entries@.len() && i != j
                implies self.entries@[i].name@ != self.entries@[j].name@
                && self.entries@[i].bdev.handle != self.entries@[j].bdev.handle by {
            let n = self.entries@.len() - 1;
            if i == n {
                assert(old_devs[j].name == self.entries@[j].name@);
            } else if j == n {
                assert(old_devs[i].name == self.entries@[i].name@);
            }
        }
        Ok(bdev)
    }

    /// Opens the device of the given name; an exclusive open also claims it,
    /// and fails while another holder has it claimed.
    pub fn open(&mut self, name: &String, exclusive: bool) -> (r: Result<Descriptor, CoreError>)
        requires
            old(self).wf(),
        ensures
            final(self).wf(),
            r.is_ok() <==> can_open(old(self).devices(), name@, exclusive) && old(self).handles_left(),
            !has_device(old(self).devices(), name@) ==> r == Err::<Descriptor, CoreError>(
                CoreError::BdevNotFound { name: *name }),
            r.is_err() ==> final(self).devices() == old(self).devices(),
            r matches Ok(d) ==> {
                let i = device_index(old(self).devices(), name@);
                &&& d.bdev == old(self).devices()[i].bdev
                &&& d.handle != 0
                &&& final(self).devices() == if exclusive {
                    old(self).devices().update(i, DeviceModel { claimed: true, ..old(self).devices()[i] })
                } else {
                    old(self).devices()
                }
            },
    {
        let i = match self.find(name) {
            Some(i) => i,
            None => { return Err(CoreError::BdevNotFound { name: name.clone() }); },
        };
        if exclusive && self.entries[i].claimed {
            return Err(CoreError::BdevOpen { name: name.clone() });
        }
        if self.next_handle == u64::MAX {
            return Err(CoreError::NoHandles);
        }
        let handle = self.next_handle;
        let bdev = self.entries[i].bdev;
        let ghost old_devs = self.devices();
        if exclusive {
            let mut e = self.entries.remove(i);
            e.claimed = true;
            self.entries.insert(i, e);
        }
        self.next_handle = self.next_handle + 1;
        proof {
            if exclusive {
                assert(self.devices() =~= old_devs.update(i as int, DeviceModel { claimed: true, ..old_devs[i as int] }));
            } else {
                assert(self.devices() =~= old_devs);
            }
        }
        Ok(Descriptor { handle, bdev })
    }

    fn find_handle(&self, handle: u64) -> (r: Option<usize>)
        requires
            self.wf(),
        ensures
            r.is_none() <==> forall|k: int| 0 <= k < self.devices().len() ==> self.devices()[k].bdev.handle != handle,
            r matches Some(i) ==> i < self.devices().len() && self.devices()[i as int].bdev.handle == handle,
    {
        let mut i: usize = 0;
        while i < self.entries.len()
            invariant
                self.wf(),
                i <= self.entries@.len(),
                forall|k: int| 0 <= k < i ==> self.devices()[k].bdev.handle != handle,
            decreases self.entries@.len() - i,
        {
            if self.entries[i].bdev.handle == handle {
                assert(self.devices()[i as int].bdev.handle == handle);
                return Some(i);
            }
            i = i + 1;
        }
        None
    }

    /// Releases the claim that an exclusive open of the descriptor's device
    /// took.
    pub fn release(&mut self, desc: &Descriptor)
        requires
            old(self).wf(),
        ensures
            final(self).wf(),
            final(self).devices().len() == old(self).devices().len(),
            forall|k: int|
                0 <= k < old(self).devices().len() ==> #[trigger] final(self).devices()[k] == if old(self).devices()[k].bdev.handle
                    == desc.bdev.handle {
                    DeviceModel { claimed: false, ..old(self).devices()[k] }
                } else {
                    old(self).devices()[k]
                },
    {
        let ghost old_devs = self.devices();
        match self.find_handle(desc.bdev.handle) {
            Some(i) => {
                let mut e = self.entries.remove(i);
                e.claimed = false;
                self.entries.insert(i, e);
                assert(self.devices() =~= old_devs.update(i as int, DeviceModel { claimed: false, ..old_devs[i as int] }));
            },
            None => {},
        }
    }

    /// Destroys the device of the given name; a claimed device cannot be
    /// destroyed.
    pub fn destroy(&mut self, name: &String) -> (r: Result<(), CoreError>)
        requires
            old(self).wf(),
        ensures
            final(self).wf(),
            r.is_ok() <==> has_device(old(self).devices(), name@)
                && !old(self).devices()[device_index(old(self).devices(), name@)].claimed,
            r.is_err() ==> final(self).devices() == old(self).devices(),
            r.is_ok() ==> final(self).devices() == old(self).devices().remove(device_index(old(self).devices(), name@)),
            r.is_ok() ==> !has_device(final(self).devices(), name@),
    {
        let i = match self.find(name) {
            Some(i) => i,
            None => { return Err(CoreError::BdevNotFound { name: name.clone() }); },
        };
        if self.entries[i].claimed {
            return Err(CoreError::DeviceBusy { name: name.clone() });
        }
        let ghost old_devs = self.devices();
        let ghost old_entries = self.entries@;
        let _ = self.entries.remove(i);
        assert(self.devices() =~= old_devs.remove(i as int));
        assert forall|i2: int, j: int|
            0 <= i2 < self.entries@.len() && 0 <= j < self.entries@.len() && i2 != j
                implies self.entries@[i2].name@ != self.entries@[j].name@
                && self.entries@[i2].bdev.handle != self.entries@[j].bdev.handle by {
            let a = if i2 < i { i2 } else { i2 + 1 };
            let b = if j < i { j } else { j + 1 };
            assert(self.entries@[i2] == old_entries[a]);
            assert(self.entries@[j] == old_entries[b]);
        }
        proof {
            if has_device(self.devices(), name@) {
                let j = choose|j: int| 0 <= j < self.devices().len() && self.devices()[j].name == name@;
                let b = if j < i { j } else { j + 1 };
                assert(self.entries@[j] == old_entries[b]);
                assert(old_devs[b].name == name@);
                assert(old_devs[i as int].name == name@);
            }
        }
        Ok(())
    }

    fn range_start(bdev: Bdev, offset_blocks: u64, len: usize) -> (r: Option<usize>)
        requires
            bdev.wf(),
        ensures
            r.is_some() <==> in_range(bdev, offset_blocks as int, len as int),
            r matches Some(st) ==> st == offset_blocks * bdev.block_len,
    {
        if offset_blocks > bdev.num_blocks {
            proof {
                vstd::arithmetic::mul::lemma_mul_inequality(
                    bdev.num_blocks as int + 1, offset_blocks as int, bdev.block_len as int);
                vstd::arithmetic::mul::lemma_mul_is_distributive_add_other_way(
                    bdev.block_len as int, bdev.num_blocks as int, 1);
            }
            return None;
        }
        proof {
            vstd::arithmetic::mul::lemma_mul_inequality(
                offset_blocks as int, bdev.num_blocks as int, bdev.block_len as int);
        }
        let start64: u64 = offset_blocks * (bdev.block_len as u64);
        let size64: u64 = bdev.num_blocks * (bdev.block_len as u64);
        let start = start64 as usize;
        let size = size64 as usize;
        if len > size - start {
            None
        } else {
            Some(start)
        }
    }

    /// Writes `buf` to the device of the descriptor, from block
    /// `offset_blocks` on.
    pub fn write_blocks(&mut self, desc: &Descriptor, offset_blocks: u64, buf: &Vec<u8>) -> (r: Result<(), CoreError>)
        requires
            old(self).wf(),
        ensures
            final(self).wf(),
            final(self).devices().len() == old(self).devices().len(),
            r.is_err() ==> final(self).devices() == old(self).devices(),
            r.is_ok() <==> exists|i: int|
                0 <= i < old(self).devices().len() && old(self).devices()[i].bdev.handle == desc.bdev.handle
                    && in_range(old(self).devices()[i].bdev, offset_blocks as int, buf@.len() as int),
            forall|i: int|
                0 <= i < old(self).devices().len() ==> #[trigger] final(self).devices()[i] == if r.is_ok()
                    && old(self).devices()[i].bdev.handle == desc.bdev.handle {
                    DeviceModel {
                        data: splice(
                            old(self).devices()[i].data,
                            offset_blocks * old(self).devices()[i].bdev.block_len,
                            buf@,
                        ),
                        ..old(self).devices()[i]
                    }
                } else {
                    old(self).devices()[i]
                },
    {
        let ghost old_devs = self.devices();
        let i = match self.find_handle(desc.bdev.handle) {
            Some(i) => i,
            None => { return Err(CoreError::InvalidDescriptor); },
        };
        let start = match Self::range_start(self.entries[i].bdev, offset_blocks, buf.len()) {
            Some(st) => st,
            None => {
                proof {
                    assert forall|j: int| 0 <= j < old_devs.len() && old_devs[j].bdev.handle == desc.bdev.handle
                        implies !in_range(old_devs[j].bdev, offset_blocks as int, buf@.len() as int) by {
                        if j != i { assert(self.entries@[j].bdev.handle != self.entries@[i as int].bdev.handle); }
                    }
                }
                return Err(CoreError::InvalidRange { offset: offset_blocks, len: buf.len() as u64 });
            },
        };
        let ghost old_entries = self.entries@;
        assert(old_entries[i as int].bdev.wf());
        let mut e = self.entries.remove(i);
        let ghost d0 = e.data@;
        let mut k: usize = 0;
        while k < buf.len()
            invariant
                start + buf@.len() <= e.data@.len(),
                d0.len() <= usize::MAX,
                e.data@.len() == d0.len(),
                e.bdev == old_entries[i as int].bdev,
                e.name == old_entries[i as int].name,
                e.claimed == old_entries[i as int].claimed,
                k <= buf@.len(),
                forall|m: int| 0 <= m < start ==> e.data@[m] == d0[m],
                forall|m: int| start <= m < start + k ==> e.data@[m] == buf@[m - start],
                forall|m: int| start + k <= m < d0.len() ==> e.data@[m] == d0[m],
            decreases buf@.len() - k,
        {
            e.data.set(start + k, buf[k]);
            k = k + 1;
        }
        assert(e.data@ =~= splice(d0, start as int, buf@));
        self.entries.insert(i, e);
        assert(self.entries@ =~= old_entries.update(i as int, e));
        assert forall|j: int| 0 <= j < old_devs.len() implies #[trigger] self.devices()[j] == if old_devs[j].bdev.handle
            == desc.bdev.handle {
            DeviceModel { data: splice(old_devs[j].data, offset_blocks * old_devs[j].bdev.block_len, buf@), ..old_devs[j] }
        } else {
            old_devs[j]
        } by {
            if j != i {
                assert(old_entries[j].bdev.handle != old_entries[i as int].bdev.handle);
            } else {
                assert(old_devs[j].data == d0);
                assert(self.devices()[j].data == e.data@);
            }
        }
        assert forall|m: int| 0 <= m < self.entries@.len() implies {
            let x = #[trigger] self.entries@[m];
            &&& x.bdev.wf()
            &&& x.bdev.handle < self.next_handle
            &&& x.data@.len() == x.bdev.size_spec()
        } by {
            assert(old_entries[m].bdev.wf());
        }
        Ok(())
    }

    /// Reads `len` bytes from the device of the descriptor, from block
    /// `offset_blocks` on.
    pub fn read_blocks(&self, desc: &Descriptor, offset_blocks: u64, len: usize) -> (r: Result<Vec<u8>, CoreError>)
        requires
            self.wf(),
        ensures
            r.is_ok() <==> exists|i: int|
                0 <= i < self.devices().len() && self.devices()[i].bdev.handle == desc.bdev.handle
                    && in_range(self.devices()[i].bdev, offset_blocks as int, len as int),
            r matches Ok(v) ==> exists|i: int|
                0 <= i < self.devices().len() && self.devices()[i].bdev.handle == desc.bdev.handle
                    && #[trigger] self.devices()[i].data.subrange(
                        offset_blocks * self.devices()[i].bdev.block_len,
                        offset_blocks * self.devices()[i].bdev.block_len + len,
                    ) == v@,
    {
        let i = match self.find_handle(desc.bdev.handle) {
            Some(i) => i,
            None => { return Err(CoreError::InvalidDescriptor); },
        };
        let start = match Self::range_start(self.entries[i].bdev, offset_blocks, len) {
            Some(st) => st,
            None => {
                proof {
                    assert forall|j: int| 0 <= j < self.devices().len() && self.devices()[j].bdev.handle == desc.bdev.handle
                        implies !in_range(self.devices()[j].bdev, offset_blocks as int, len as int) by {
                        if j != i { assert(self.entries@[j].bdev.handle != self.entries@[i as int].bdev.handle); }
                    }
                }
                return Err(CoreError::InvalidRange { offset: offset_blocks, len: len as u64 });
            },
        };
        let data = &self.entries[i].data;
        assert(self.entries@[i as int].bdev.wf());
        let mut out: Vec<u8> = Vec::new();
        let mut k: usize = 0;
        while k < len
            invariant
                start + len <= data@.len(),
                data@.len() <= usize::MAX,
                k <= len,
                out@ == data@.subrange(start as int, start + k),
            decreases len - k,
        {
            out.push(data[start + k]);
            k = k + 1;
            assert(out@ =~= data@.subrange(start as int, start + k));
        }
        assert(self.devices()[i as int].data.subrange(start as int, start + len) == out@);
        Ok(out)
    }
} // impl BdevTable

} // verus!

verus! {

/// A handle through which I/O is submitted to one open device.
#[derive(Debug, Clone, Copy, PartialEq, Eq)]
pub struct BdevHandle {
    pub desc: Descriptor,
    pub channel: IoChannel,
    pub claimed: bool,
}

impl BdevHandle {
    /// Opens the device of the given name; with `claim`, exclusively.
    pub fn open(table: &mut BdevTable, name: &String, claim: bool) -> (r: Result<BdevHandle, CoreError>)
        requires
            old(table).wf(),
        ensures
            final(table).wf(),
            r.is_ok() <==> can_open(old(table).devices(), name@, claim) && old(table).handles_left(),
            r.is_err() ==> (r matches Err(CoreError::BdevOpen { name: n }) && n@ == name@),
            r.is_err() ==> final(table).devices() == old(table).devices(),
            r matches Ok(h) ==> {
                let i = device_index(old(table).devices(), name@);
                &&& h.desc.bdev == old(table).devices()[i].bdev
                &&& h.claimed == claim
                &&& h.channel.handle == h.desc.handle
                &&& final(table).devices() == if claim {
                    old(table).devices().update(i, DeviceModel { claimed: true, ..old(table).devices()[i] })
                } else {
                    old(table).devices()
                }
            },
    {
        match table.open(name, claim) {
            Ok(desc) => Ok(BdevHandle { desc, channel: IoChannel { handle: desc.handle }, claimed: claim }),
            Err(_) => Err(CoreError::BdevOpen { name: name.clone() }),
        }
    }

    /// Closes the handle, releasing the claim it holds.
    pub fn close(self, table: &mut BdevTable)
        requires
            old(table).wf(),
        ensures
            final(table).wf(),
            !self.claimed ==> final(table).devices() == old(table).devices(),
            self.claimed ==> final(table).devices().len() == old(table).devices().len() && forall|k: int|
                0 <= k < old(table).devices().len() ==> #[trigger] final(table).devices()[k] == if old(table).devices()[k].bdev.handle == self.desc.bdev.handle {
                    DeviceModel { claimed: false, ..old(table).devices()[k] }
                } else {
                    old(table).devices()[k]
                },
    {
        if self.claimed {
            table.release(&self.desc);
        }
    }

    /// The device this handle refers to.
    pub fn get_bdev(&self) -> (r: Bdev)
        ensures
            r == self.desc.bdev,
    {
        self.desc.bdev
    }

    /// The descriptor and channel handles.
    pub fn io_tuple(&self) -> (r: (u64, u64))
        ensures
            r == (self.desc.handle, self.channel.handle),
    {
        (self.desc.handle, self.channel.handle)
    }

    /// Writes `buffer` at byte `offset`, which must start a block; returns
    /// the number of bytes written.
    pub fn write_at(&self, table: &mut BdevTable, offset: u64, buffer: &Vec<u8>) -> (r: Result<usize, CoreError>)
        requires
            old(table).wf(),
            self.desc.bdev.block_len > 0,
        ensures
            final(table).wf(),
            (offset as int) % (self.desc.bdev.block_len as int) != 0 ==> r == Err::<usize, CoreError>(
                CoreError::InvalidOffset { offset }) && final(table).devices() == old(table).devices(),
            r matches Ok(n) ==> n == buffer@.len(),
            (offset as int) % (self.desc.bdev.block_len as int) == 0 ==> {
                let blk = ((offset as int) / (self.desc.bdev.block_len as int)) as u64;
                &&& final(table).devices().len() == old(table).devices().len()
                &&& r.is_ok() <==> exists|i: int|
                    0 <= i < old(table).devices().len() && old(table).devices()[i].bdev.handle == self.desc.bdev.handle
                        && in_range(old(table).devices()[i].bdev, blk as int, buffer@.len() as int)
                &&& forall|i: int|
                    0 <= i < old(table).devices().len() ==> #[trigger] final(table).devices()[i] == if r.is_ok()
                        && old(table).devices()[i].bdev.handle == self.desc.bdev.handle {
                        DeviceModel {
                            data: splice(
                                old(table).devices()[i].data,
                                blk * old(table).devices()[i].bdev.block_len,
                                buffer@,
                            ),
                            ..old(table).devices()[i]
                        }
                    } else {
                        old(table).devices()[i]
                    }
            },
    {
        let bl = self.desc.bdev.block_len as u64;
        if offset % bl != 0 {
            return Err(CoreError::InvalidOffset { offset });
        }
        match table.write_blocks(&self.desc, offset / bl, buffer) {
            Ok(()) => Ok(buffer.len()),
            Err(e) => Err(e),
        }
    }

    /// Reads `len` bytes at byte `offset`, which must start a block.
    pub fn read_at(&self, table: &BdevTable, offset: u64, len: usize) -> (r: Result<Vec<u8>, CoreError>)
        requires
            table.wf(),
            self.desc.bdev.block_len > 0,
        ensures
            (offset as int) % (self.desc.bdev.block_len as int) != 0 ==> r == Err::<Vec<u8>, CoreError>(
                CoreError::InvalidOffset { offset }),
            (offset as int) % (self.desc.bdev.block_len as int) == 0 ==> {
                let blk = ((offset as int) / (self.desc.bdev.block_len as int)) as u64;
                &&& r.is_ok() <==> exists|i: int|
                    0 <= i < table.devices().len() && table.devices()[i].bdev.handle == self.desc.bdev.handle
                        && in_range(table.devices()[i].bdev, blk as int, len as int)
                &&& r matches Ok(v) ==> exists|i: int|
                    0 <= i < table.devices().len() && table.devices()[i].bdev.handle == self.desc.bdev.handle
                        && #[trigger] table.devices()[i].data.subrange(
                            blk * table.devices()[i].bdev.block_len,
                            blk * table.devices()[i].bdev.block_len + len,
                        ) == v@
            },
    {
        let bl = self.desc.bdev.block_len as u64;
        if offset % bl != 0 {
            return Err(CoreError::InvalidOffset { offset });
        }
        table.read_blocks(&self.desc, offset / bl, len)
    }

    /// Allocates a zeroed buffer of `size` bytes with the device's alignment.
    pub fn dma_malloc(&self, size: usize) -> (r: Result<DmaBuf, DmaError>)
        ensures
            r matches Ok(b) && b.buf@ == Seq::new(size as nat, |_i: int| 0u8) && b.alignment
                == self.desc.bdev.alignment,
    {
        Ok(DmaBuf { buf: zeroed(size), alignment: self.desc.bdev.alignment })
    }
}

} // verus!
