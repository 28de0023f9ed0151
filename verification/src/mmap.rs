//! `sys/mman.h`. A mapping is a zeroed heap allocation; a file mapping is
//! filled from the file once, so nothing is shared with it afterwards.

use crate::env::Environment;
use crate::mem::{alloc_size, valid_range, write_spec, PAGE_SIZE, PAGE_SIZE_ALIGN_MASK};
use std::collections::HashMap;
use vstd::prelude::*;

verus! {

broadcast use vstd::std_specs::hash::group_hash_axioms;

#[allow(dead_code)]
pub const MAP_FILE: i32 = 0x0000;

pub const MAP_ANON: i32 = 0x1000;

/// What `mmap` returns when it fails. Not NULL: a caller that correctly
/// checks for `MAP_FAILED` and is handed NULL goes on to read from address
/// zero.
pub const MAP_FAILED: u32 = 0xFFFF_FFFF;

pub const EIO: i32 = 5;

pub const ENOMEM: i32 = 12;

pub const EINVAL: i32 = 22;

/// The live `mmap` mappings.
pub struct State {
    allocations: HashMap<u32, u32>,
}

impl State {
    /// Start address to length of each live mapping.
    pub closed spec fn allocations(&self) -> Map<u32, u32> {
        self.allocations@
    }

    pub fn new() -> (r: State)
        ensures
            r.allocations() == Map::<u32, u32>::empty(),
    {
        State { allocations: HashMap::new() }
    }

    pub fn contains(&self, addr: u32) -> (r: bool)
        ensures
            r == self.allocations().contains_key(addr),
    {
        self.allocations.contains_key(&addr)
    }

    fn insert(&mut self, addr: u32, len: u32)
        ensures
            final(self).allocations() == old(self).allocations().insert(addr, len),
    {
        self.allocations.insert(addr, len);
    }

    fn remove(&mut self, addr: u32)
        ensures
            final(self).allocations() == old(self).allocations().remove(addr),
    {
        self.allocations.remove(&addr);
    }
}

impl Default for State {
    fn default() -> (r: State)
        ensures
            r.allocations() == Map::<u32, u32>::empty(),
    {
        State::new()
    }
}

/// Where `mmap` has got to.
#[derive(Clone, Copy, Debug, PartialEq, Eq, Structural)]
pub enum MmapStep {
    /// Finished: the mapping's address, or `MAP_FAILED`.
    Done(u32),
    /// A file mapping has been allocated at `ptr` and is waiting for the
    /// file's contents. Reading a file is I/O, which is the caller's part:
    /// hand what came of it to [mmap_file_read].
    ReadFile { ptr: u32 },
}

/// What came of reading a mapping's file through its descriptor.
pub enum FileRead {
    /// Seeking to the mapping's offset did not land there.
    SeekFailed,
    /// The read itself failed.
    ReadFailed,
    /// These bytes were read, at most the mapping's length; a short read
    /// leaves the rest of the mapping zero.
    Read(Vec<u8>),
}

/// Only guest memory, `errno` and the mapping table have changed.
pub open spec fn only_mem_errno_mmap_changed(a: Environment, b: Environment) -> bool {
    b == (Environment { mem: b.mem, errno: b.errno, mmap: b.mmap, ..a })
}

/// `mmap(addr, len, prot, flags, fd, offset)`. The address is only a hint,
/// and is not honoured. The mapping is zeroed heap memory; when the heap
/// has no room, `MAP_FAILED` with `ENOMEM`. An anonymous mapping is done
/// there and then (its descriptor and offset are ignored, as the OS ignores
/// them); a file mapping waits for the file's contents.
pub fn mmap(
    env: &mut Environment,
    _addr: u32,
    len: u32,
    _prot: i32,
    flags: i32,
    _fd: i32,
    _offset: i64,
) -> (r: MmapStep)
    requires
        old(env).wf(),
    ensures
        final(env).wf(),
        only_mem_errno_mmap_changed(*old(env), *final(env)),
        final(env).mem.heap_end() == old(env).mem.heap_end(),
        !old(env).mem.can_alloc(len) ==> {
            &&& r == MmapStep::Done(MAP_FAILED)
            &&& final(env).errno == ENOMEM
            &&& final(env).mem@ == old(env).mem@
            &&& final(env).mem.blocks() == old(env).mem.blocks()
            &&& final(env).mem.heap_next() == old(env).mem.heap_next()
            &&& final(env).mmap.allocations() == old(env).mmap.allocations()
        },
        old(env).mem.can_alloc(len) ==> {
            let p = old(env).mem.heap_next();
            &&& final(env).errno == 0
            &&& p % PAGE_SIZE == 0
            &&& valid_range(p as int, len as int)
            &&& !old(env).mmap.allocations().contains_key(p)
            &&& !old(env).mem.blocks().contains_key(p)
            &&& final(env).mem@ == write_spec(old(env).mem@, p as int, Seq::new(len as nat, |i: int| 0u8))
            &&& final(env).mem.blocks() == old(env).mem.blocks().insert(p, alloc_size(len) as u32)
            &&& final(env).mem.heap_next() == p + alloc_size(len)
            &&& flags & MAP_ANON != 0 ==> r == MmapStep::Done(p) && final(env).mmap.allocations()
                == old(env).mmap.allocations().insert(p, len)
            &&& flags & MAP_ANON == 0 ==> r == (MmapStep::ReadFile { ptr: p })
                && final(env).mmap.allocations() == old(env).mmap.allocations()
        },
{
    env.set_errno(0);
    let ptr = env.mem.calloc(len);
    if ptr == 0 {
        env.set_errno(ENOMEM);
        return MmapStep::Done(MAP_FAILED);
    }
    if (flags & MAP_ANON) != 0 {
        assert(ptr & PAGE_SIZE_ALIGN_MASK == 0) by (bit_vector)
            requires
                ptr % 4096 == 0,
        ;
        assert(!env.mmap.allocations().contains_key(ptr));
        env.mmap.insert(ptr, len);
        return MmapStep::Done(ptr);
    }
    MmapStep::ReadFile { ptr }
}

/// Finish a file mapping allocated at `ptr` with what came of reading the
/// file. A failed seek or read frees the mapping and fails with `EIO`;
/// otherwise what was read is copied in, and the mapping is recorded.
pub fn mmap_file_read(env: &mut Environment, ptr: u32, len: u32, read: FileRead) -> (r: u32)
    requires
        old(env).wf(),
        old(env).mem.blocks().contains_key(ptr),
        !old(env).mmap.allocations().contains_key(ptr),
        valid_range(ptr as int, len as int),
        read matches FileRead::Read(data) ==> data@.len() <= len,
    ensures
        final(env).wf(),
        only_mem_errno_mmap_changed(*old(env), *final(env)),
        final(env).mem.heap_next() == old(env).mem.heap_next(),
        final(env).mem.heap_end() == old(env).mem.heap_end(),
        match read {
            FileRead::Read(data) => {
                &&& r == ptr
                &&& final(env).errno == old(env).errno
                &&& final(env).mem@ == write_spec(old(env).mem@, ptr as int, data@)
                &&& final(env).mem.blocks() == old(env).mem.blocks()
                &&& final(env).mmap.allocations() == old(env).mmap.allocations().insert(ptr, len)
            },
            _ => {
                &&& r == MAP_FAILED
                &&& final(env).errno == EIO
                &&& final(env).mem@ == old(env).mem@
                &&& final(env).mem.blocks() == old(env).mem.blocks().remove(ptr)
                &&& final(env).mmap.allocations() == old(env).mmap.allocations()
            },
        },
{
    match read {
        FileRead::Read(data) => {
            env.mem.write_bytes(ptr, data.as_slice());
            env.mmap.insert(ptr, len);
            ptr
        },
        _ => {
            env.mem.free(ptr);
            env.set_errno(EIO);
            MAP_FAILED
        },
    }
}

/// `munmap(addr, len)`: frees the mapping at `addr`, whatever `len` says,
/// as long as it is not zero. An unknown address or a zero length fails
/// with `EINVAL`.
pub fn munmap(env: &mut Environment, addr: u32, len: u32) -> (r: i32)
    requires
        old(env).wf(),
    ensures
        final(env).wf(),
        only_mem_errno_mmap_changed(*old(env), *final(env)),
        final(env).mem@ == old(env).mem@,
        final(env).mem.heap_next() == old(env).mem.heap_next(),
        final(env).mem.heap_end() == old(env).mem.heap_end(),
        (len == 0 || !old(env).mmap.allocations().contains_key(addr)) ==> {
            &&& r == -1
            &&& final(env).errno == EINVAL
            &&& final(env).mem.blocks() == old(env).mem.blocks()
            &&& final(env).mmap.allocations() == old(env).mmap.allocations()
        },
        (len != 0 && old(env).mmap.allocations().contains_key(addr)) ==> {
            &&& r == 0
            &&& final(env).errno == 0
            &&& final(env).mem.blocks() == old(env).mem.blocks().remove(addr)
            &&& final(env).mmap.allocations() == old(env).mmap.allocations().remove(addr)
        },
{
    env.set_errno(0);
    if len == 0 {
        env.set_errno(EINVAL);
        return -1;
    }
    if env.mmap.contains(addr) {
        env.mem.free(addr);
        env.mmap.remove(addr);
        0
    } else {
        env.set_errno(EINVAL);
        -1
    }
}

/// `madvise`: advice, which Darwin is free to ignore, and does.
pub fn madvise(env: &mut Environment, _addr: u32, _len: u32, _advice: i32) -> (r: i32)
    ensures
        r == 0,
        *final(env) == (Environment { errno: 0, ..*old(env) }),
{
    env.set_errno(0);
    0
}

/// `mprotect`: guest memory has no per-page protection, so every change
/// succeeds as a no-op, as it does on a device for mapped ranges.
pub fn mprotect(env: &mut Environment, _addr: u32, _len: u32, _prot: i32) -> (r: i32)
    ensures
        r == 0,
        *final(env) == (Environment { errno: 0, ..*old(env) }),
{
    env.set_errno(0);
    0
}

/// `mlock`: guest memory is always resident, so there is nothing to pin.
pub fn mlock(env: &mut Environment, _addr: u32, _len: u32) -> (r: i32)
    ensures
        r == 0,
        *final(env) == (Environment { errno: 0, ..*old(env) }),
{
    env.set_errno(0);
    0
}

/// `munlock`: the pair of [mlock], and as much of a no-op.
pub fn munlock(env: &mut Environment, _addr: u32, _len: u32) -> (r: i32)
    ensures
        r == 0,
        *final(env) == (Environment { errno: 0, ..*old(env) }),
{
    env.set_errno(0);
    0
}

/// Unmapping what was just mapped, with any nonzero length, leaves the
/// mapping table and the heap's blocks as they were, and the address is
/// then unknown, so unmapping it again fails. The same holds of the blocks
/// when a file mapping fails and its block is freed.
pub proof fn lemma_map_then_unmap(
    allocations: Map<u32, u32>,
    blocks: Map<u32, u32>,
    p: u32,
    len: u32,
    size: u32,
)
    requires
        !allocations.contains_key(p),
        !blocks.contains_key(p),
    ensures
        allocations.insert(p, len).contains_key(p),
        allocations.insert(p, len).remove(p) == allocations,
        blocks.insert(p, size).remove(p) == blocks,
        !allocations.insert(p, len).remove(p).contains_key(p),
{
    assert(allocations.insert(p, len).remove(p) =~= allocations);
    assert(blocks.insert(p, size).remove(p) =~= blocks);
}

} // verus!
