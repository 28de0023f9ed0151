//! `CFReadStream` and `CFWriteStream`: streams over memory, and stand-ins
//! for network connections that can never be made, which fail once opened.
#![allow(non_snake_case)]
#![allow(non_upper_case_globals)]

use crate::env::{release, retain, Environment};
use crate::mem::{bytes_at, valid_range, write_spec, le_bytes_u32};
use crate::objc::{
    entry, is_live, with_host, GuestCall, GuestFunction, HostObject, Id, ObjectEntry, ObjectStore,
    NIL,
};
use vstd::prelude::*;

verus! {

// CFStreamStatus
pub const kCFStreamStatusNotOpen: i32 = 0;
pub const kCFStreamStatusOpening: i32 = 1;
pub const kCFStreamStatusOpen: i32 = 2;
pub const kCFStreamStatusReading: i32 = 3;
pub const kCFStreamStatusWriting: i32 = 4;
pub const kCFStreamStatusAtEnd: i32 = 5;
pub const kCFStreamStatusClosed: i32 = 6;
pub const kCFStreamStatusError: i32 = 7;

// CFStreamEventType flags
pub const kCFStreamEventNone: u32 = 0;
pub const kCFStreamEventOpenCompleted: u32 = 1;
pub const kCFStreamEventHasBytesAvailable: u32 = 2;
pub const kCFStreamEventCanAcceptBytes: u32 = 4;
pub const kCFStreamEventErrorOccurred: u32 = 8;
pub const kCFStreamEventEndEncountered: u32 = 16;

// CFStreamErrorDomain
pub const kCFStreamErrorDomainCustom: i32 = -1;
pub const kCFStreamErrorDomainPOSIX: i32 = 1;
pub const kCFStreamErrorDomainMacOSStatus: i32 = 2;

/// What a stream standing in for a connection that could not be made
/// reports as the reason: the network is down.
pub const ENETDOWN: i32 = 50;

/// A callback registered with `CFReadStreamSetClient` or
/// `CFWriteStreamSetClient`, with the `info` pointer of its context.
#[derive(Clone, Copy, Debug, PartialEq, Eq, Structural)]
pub struct StreamClient {
    pub callback: GuestFunction,
    pub info: u32,
    /// The events the client asked to hear about.
    pub events: u32,
}

pub struct ReadStreamHost {
    pub status: i32,
    pub offset: usize,
    pub data: Vec<u8>,
    pub client: Option<StreamClient>,
    pub scheduled: bool,
    /// Whether the stream stands in for a network connection, which can
    /// never carry any bytes.
    pub network: bool,
    /// The one-shot events already delivered.
    pub delivered: u32,
}

pub struct WriteStreamHost {
    pub status: i32,
    pub data: Vec<u8>,
    pub client: Option<StreamClient>,
    pub scheduled: bool,
    pub network: bool,
    pub delivered: u32,
}

/// The read stream `id` names, if it names one. Anything else behaves as a
/// stream that was never opened and has no client, and a change made to it
/// goes nowhere.
pub open spec fn read_host(s: Seq<Option<ObjectEntry>>, id: Id) -> Option<ReadStreamHost> {
    if is_live(s, id) {
        match entry(s, id).host {
            HostObject::ReadStream(h) => Some(h),
            _ => None,
        }
    } else {
        None
    }
}

/// The write stream `id` names, if it names one.
pub open spec fn write_host(s: Seq<Option<ObjectEntry>>, id: Id) -> Option<WriteStreamHost> {
    if is_live(s, id) {
        match entry(s, id).host {
            HostObject::WriteStream(h) => Some(h),
            _ => None,
        }
    } else {
        None
    }
}

/// A stream just created: not open, empty, without a client.
pub open spec fn is_new_read_host(h: ReadStreamHost, network: bool) -> bool {
    &&& h.status == kCFStreamStatusNotOpen
    &&& h.offset == 0
    &&& h.data@ == Seq::<u8>::empty()
    &&& h.client is None
    &&& !h.scheduled
    &&& h.network == network
    &&& h.delivered == kCFStreamEventNone
}

pub open spec fn is_new_write_host(h: WriteStreamHost, network: bool) -> bool {
    &&& h.status == kCFStreamStatusNotOpen
    &&& h.data@ == Seq::<u8>::empty()
    &&& h.client is None
    &&& !h.scheduled
    &&& h.network == network
    &&& h.delivered == kCFStreamEventNone
}

/// The store after allocating one new object: everything before is kept.
pub open spec fn allocated_one(old: Seq<Option<ObjectEntry>>, new: Seq<Option<ObjectEntry>>, id: Id) -> bool {
    &&& id == old.len() + 1
    &&& new.len() == old.len() + 1
    &&& new.take(old.len() as int) == old
    &&& is_live(new, id)
    &&& entry(new, id).refcount == 1
}

/// `id` is a newly allocated read stream.
pub open spec fn new_read_stream(old: Seq<Option<ObjectEntry>>, new: Seq<Option<ObjectEntry>>, id: Id, network: bool) -> bool {
    &&& allocated_one(old, new, id)
    &&& read_host(new, id) is Some
    &&& is_new_read_host(read_host(new, id)->0, network)
}

pub open spec fn new_write_stream(old: Seq<Option<ObjectEntry>>, new: Seq<Option<ObjectEntry>>, id: Id, network: bool) -> bool {
    &&& allocated_one(old, new, id)
    &&& write_host(new, id) is Some
    &&& is_new_write_host(write_host(new, id)->0, network)
}

/// Only the object table has changed.
pub open spec fn only_objc_changed(a: Environment, b: Environment) -> bool {
    b == (Environment { objc: b.objc, ..a })
}

/// Only the object table and guest memory have changed.
pub open spec fn only_objc_mem_changed(a: Environment, b: Environment) -> bool {
    b == (Environment { objc: b.objc, mem: b.mem, ..a })
}

/// Only the object table and the scheduled-stream list have changed.
pub open spec fn only_objc_sched_changed(a: Environment, b: Environment) -> bool {
    b == (Environment { objc: b.objc, scheduled_streams: b.scheduled_streams, ..a })
}

/// The store with the read stream `id` replaced by `h`, if `id` names one.
pub open spec fn with_read(s: Seq<Option<ObjectEntry>>, id: Id, h: ReadStreamHost) -> Seq<Option<ObjectEntry>> {
    if read_host(s, id) is Some {
        with_host(s, id, HostObject::ReadStream(h))
    } else {
        s
    }
}

pub open spec fn with_write(s: Seq<Option<ObjectEntry>>, id: Id, h: WriteStreamHost) -> Seq<Option<ObjectEntry>> {
    if write_host(s, id) is Some {
        with_host(s, id, HostObject::WriteStream(h))
    } else {
        s
    }
}

proof fn lemma_with_host_twice(s: Seq<Option<ObjectEntry>>, id: Id, a: HostObject, b: HostObject)
    requires
        is_live(s, id),
    ensures
        with_host(with_host(s, id, a), id, b) == with_host(s, id, b),
        is_live(with_host(s, id, a), id),
{
    assert(with_host(with_host(s, id, a), id, b) =~= with_host(s, id, b));
}

/// Take the read stream `id` out of the store to change it.
fn take_read(objc: &mut ObjectStore, id: Id) -> (r: Option<ReadStreamHost>)
    ensures
        r == read_host(old(objc)@, id),
        r is Some ==> final(objc)@ == with_host(old(objc)@, id, HostObject::Plain),
        r is None ==> final(objc)@ == old(objc)@,
{
    let is_read = match objc.get(id) {
        Some(e) => match &e.host {
            HostObject::ReadStream(_) => true,
            _ => false,
        },
        None => false,
    };
    if !is_read {
        return None;
    }
    match objc.replace_host(id, HostObject::Plain) {
        HostObject::ReadStream(h) => Some(h),
        _ => {
            assert(false);
            None
        },
    }
}

/// Put a read stream taken out with [take_read] back.
fn put_read(objc: &mut ObjectStore, id: Id, h: ReadStreamHost, Ghost(orig): Ghost<Seq<Option<ObjectEntry>>>)
    requires
        read_host(orig, id) is Some,
        old(objc)@ == with_host(orig, id, HostObject::Plain),
    ensures
        final(objc)@ == with_read(orig, id, h),
{
    proof {
        lemma_with_host_twice(orig, id, HostObject::Plain, HostObject::ReadStream(h));
    }
    let _ = objc.replace_host(id, HostObject::ReadStream(h));
}

fn take_write(objc: &mut ObjectStore, id: Id) -> (r: Option<WriteStreamHost>)
    ensures
        r == write_host(old(objc)@, id),
        r is Some ==> final(objc)@ == with_host(old(objc)@, id, HostObject::Plain),
        r is None ==> final(objc)@ == old(objc)@,
{
    let is_write = match objc.get(id) {
        Some(e) => match &e.host {
            HostObject::WriteStream(_) => true,
            _ => false,
        },
        None => false,
    };
    if !is_write {
        return None;
    }
    match objc.replace_host(id, HostObject::Plain) {
        HostObject::WriteStream(h) => Some(h),
        _ => {
            assert(false);
            None
        },
    }
}

fn put_write(objc: &mut ObjectStore, id: Id, h: WriteStreamHost, Ghost(orig): Ghost<Seq<Option<ObjectEntry>>>)
    requires
        write_host(orig, id) is Some,
        old(objc)@ == with_host(orig, id, HostObject::Plain),
    ensures
        final(objc)@ == with_write(orig, id, h),
{
    proof {
        lemma_with_host_twice(orig, id, HostObject::Plain, HostObject::WriteStream(h));
    }
    let _ = objc.replace_host(id, HostObject::WriteStream(h));
}

/// The read stream `id` names, if it names one.
fn borrow_read(objc: &ObjectStore, id: Id) -> (r: Option<&ReadStreamHost>)
    ensures
        r is Some <==> read_host(objc@, id) is Some,
        r is Some ==> *r->0 == read_host(objc@, id)->0,
{
    match objc.get(id) {
        Some(e) => match &e.host {
            HostObject::ReadStream(h) => Some(h),
            _ => None,
        },
        None => None,
    }
}

fn borrow_write(objc: &ObjectStore, id: Id) -> (r: Option<&WriteStreamHost>)
    ensures
        r is Some <==> write_host(objc@, id) is Some,
        r is Some ==> *r->0 == write_host(objc@, id)->0,
{
    match objc.get(id) {
        Some(e) => match &e.host {
            HostObject::WriteStream(h) => Some(h),
            _ => None,
        },
        None => None,
    }
}

// MARK: - Allocation

pub fn alloc_read_stream(env: &mut Environment) -> (r: Id)
    requires
        old(env).objc@.len() < 0xFFFF_FFFF,
    ensures
        new_read_stream(old(env).objc@, final(env).objc@, r, false),
        only_objc_changed(*old(env), *final(env)),
{
    alloc_read_stream_inner(env, false)
}

/// A read stream standing in for a network connection that cannot be made.
/// Once opened it reports `kCFStreamEventErrorOccurred` to its client and
/// gives `ENETDOWN` as the reason.
pub fn alloc_network_read_stream(env: &mut Environment) -> (r: Id)
    requires
        old(env).objc@.len() < 0xFFFF_FFFF,
    ensures
        new_read_stream(old(env).objc@, final(env).objc@, r, true),
        only_objc_changed(*old(env), *final(env)),
{
    alloc_read_stream_inner(env, true)
}

pub fn alloc_read_stream_inner(env: &mut Environment, network: bool) -> (r: Id)
    requires
        old(env).objc@.len() < 0xFFFF_FFFF,
    ensures
        new_read_stream(old(env).objc@, final(env).objc@, r, network),
        only_objc_changed(*old(env), *final(env)),
{
    let host = ReadStreamHost {
        status: kCFStreamStatusNotOpen,
        offset: 0,
        data: Vec::new(),
        client: None,
        scheduled: false,
        network,
        delivered: kCFStreamEventNone,
    };
    let id = env.objc.alloc_object(HostObject::ReadStream(host));
    assert(env.objc@.take(old(env).objc@.len() as int) =~= old(env).objc@);
    id
}

pub fn alloc_write_stream(env: &mut Environment) -> (r: Id)
    requires
        old(env).objc@.len() < 0xFFFF_FFFF,
    ensures
        new_write_stream(old(env).objc@, final(env).objc@, r, false),
        only_objc_changed(*old(env), *final(env)),
{
    alloc_write_stream_inner(env, false)
}

/// A write stream standing in for a network connection that cannot be made.
pub fn alloc_network_write_stream(env: &mut Environment) -> (r: Id)
    requires
        old(env).objc@.len() < 0xFFFF_FFFF,
    ensures
        new_write_stream(old(env).objc@, final(env).objc@, r, true),
        only_objc_changed(*old(env), *final(env)),
{
    alloc_write_stream_inner(env, true)
}

pub fn alloc_write_stream_inner(env: &mut Environment, network: bool) -> (r: Id)
    requires
        old(env).objc@.len() < 0xFFFF_FFFF,
    ensures
        new_write_stream(old(env).objc@, final(env).objc@, r, network),
        only_objc_changed(*old(env), *final(env)),
{
    let host = WriteStreamHost {
        status: kCFStreamStatusNotOpen,
        data: Vec::new(),
        client: None,
        scheduled: false,
        network,
        delivered: kCFStreamEventNone,
    };
    let id = env.objc.alloc_object(HostObject::WriteStream(host));
    assert(env.objc@.take(old(env).objc@.len() as int) =~= old(env).objc@);
    id
}

// MARK: - Streams owed events

/// Whether `id` is on the list of streams owed events.
pub open spec fn has_stream(s: Seq<(Id, bool)>, id: Id) -> bool {
    exists|i: int| 0 <= i < s.len() && #[trigger] s[i].0 == id
}

/// The list with every entry for `id` taken off.
pub open spec fn without_stream(s: Seq<(Id, bool)>, id: Id) -> Seq<(Id, bool)> {
    s.filter(entry_is_not(id))
}

/// Whether a list entry is for a stream other than `id`.
pub open spec fn entry_is_not(id: Id) -> spec_fn((Id, bool)) -> bool {
    |e: (Id, bool)| e.0 != id
}

/// Put `stream` on the list of streams owed events, unless it is there
/// already.
pub fn remember_stream(env: &mut Environment, stream: Id, is_read: bool)
    ensures
        final(env).scheduled_streams@ == if has_stream(old(env).scheduled_streams@, stream) {
            old(env).scheduled_streams@
        } else {
            old(env).scheduled_streams@.push((stream, is_read))
        },
        *final(env) == (Environment { scheduled_streams: final(env).scheduled_streams, ..*old(env) }),
{
    let n = env.scheduled_streams.len();
    let mut i: usize = 0;
    while i < n
        invariant
            n == env.scheduled_streams@.len(),
            i <= n,
            forall|j: int| 0 <= j < i ==> #[trigger] env.scheduled_streams@[j].0 != stream,
        decreases n - i,
    {
        if env.scheduled_streams[i].0 == stream {
            return ;
        }
        i = i + 1;
    }
    env.scheduled_streams.push((stream, is_read));
}

/// Take `stream` off the list of streams owed events.
pub fn forget_stream(env: &mut Environment, stream: Id)
    ensures
        final(env).scheduled_streams@ == without_stream(old(env).scheduled_streams@, stream),
        *final(env) == (Environment { scheduled_streams: final(env).scheduled_streams, ..*old(env) }),
{
    let n = env.scheduled_streams.len();
    let mut kept: Vec<(Id, bool)> = Vec::new();
    let mut i: usize = 0;
    assert(without_stream(old(env).scheduled_streams@.take(0), stream) =~= Seq::<(Id, bool)>::empty()) by {
        reveal(Seq::filter);
    }
    while i < n
        invariant
            env.scheduled_streams@ == old(env).scheduled_streams@,
            n == env.scheduled_streams@.len(),
            i <= n,
            kept@ == without_stream(old(env).scheduled_streams@.take(i as int), stream),
        decreases n - i,
    {
        let e = env.scheduled_streams[i];
        proof {
            let s = old(env).scheduled_streams@;
            let t = s.take(i + 1);
            assert(t.drop_last() =~= s.take(i as int));
            assert(t.last() == e);
            assert(without_stream(t, stream) == if e.0 != stream {
                without_stream(s.take(i as int), stream).push(e)
            } else {
                without_stream(s.take(i as int), stream)
            }) by {
                reveal(Seq::filter);
            }
        }
        if e.0 != stream {
            kept.push(e);
        }
        i = i + 1;
    }
    assert(old(env).scheduled_streams@.take(n as int) =~= old(env).scheduled_streams@);
    env.scheduled_streams = kept;
}

// MARK: - Retain / Release

pub fn CFReadStreamRetain(env: &mut Environment, stream: Id) -> (r: Id)
    requires
        stream == NIL || (is_live(old(env).objc@, stream) && entry(old(env).objc@, stream).refcount
            < 0xFFFF_FFFF),
    ensures
        r == stream,
        stream == NIL ==> *final(env) == *old(env),
        stream != NIL ==> only_objc_changed(*old(env), *final(env)) && final(env).objc@
            == crate::objc::with_refcount(
            old(env).objc@,
            stream,
            (entry(old(env).objc@, stream).refcount + 1) as u32,
        ),
{
    if stream != NIL {
        retain(env, stream)
    } else {
        stream
    }
}

pub fn CFReadStreamRelease(env: &mut Environment, stream: Id)
    requires
        stream == NIL || is_live(old(env).objc@, stream),
    ensures
        stream == NIL ==> *final(env) == *old(env),
        stream != NIL ==> {
            &&& final(env).objc@ == crate::objc::released(old(env).objc@, stream)
            &&& final(env).scheduled_streams@ == if entry(old(env).objc@, stream).refcount <= 1
                && crate::env::is_stream_host(entry(old(env).objc@, stream).host) {
                without_stream(old(env).scheduled_streams@, stream)
            } else {
                old(env).scheduled_streams@
            }
            &&& only_objc_sched_changed(*old(env), *final(env))
        },
{
    if stream != NIL {
        release(env, stream);
    }
}

pub fn CFWriteStreamRetain(env: &mut Environment, stream: Id) -> (r: Id)
    requires
        stream == NIL || (is_live(old(env).objc@, stream) && entry(old(env).objc@, stream).refcount
            < 0xFFFF_FFFF),
    ensures
        r == stream,
        stream == NIL ==> *final(env) == *old(env),
        stream != NIL ==> only_objc_changed(*old(env), *final(env)) && final(env).objc@
            == crate::objc::with_refcount(
            old(env).objc@,
            stream,
            (entry(old(env).objc@, stream).refcount + 1) as u32,
        ),
{
    if stream != NIL {
        retain(env, stream)
    } else {
        stream
    }
}

pub fn CFWriteStreamRelease(env: &mut Environment, stream: Id)
    requires
        stream == NIL || is_live(old(env).objc@, stream),
    ensures
        stream == NIL ==> *final(env) == *old(env),
        stream != NIL ==> {
            &&& final(env).objc@ == crate::objc::released(old(env).objc@, stream)
            &&& final(env).scheduled_streams@ == if entry(old(env).objc@, stream).refcount <= 1
                && crate::env::is_stream_host(entry(old(env).objc@, stream).host) {
                without_stream(old(env).scheduled_streams@, stream)
            } else {
                old(env).scheduled_streams@
            }
            &&& only_objc_sched_changed(*old(env), *final(env))
        },
{
    if stream != NIL {
        release(env, stream);
    }
}

// MARK: - Constructors

/// Stubbed: a memory read stream with no bytes in it.
pub fn CFReadStreamCreateWithBytesNoCopy(
    env: &mut Environment,
    _allocator: Id,
    _bytes: u32,
    _length: i32,
    _bytes_deallocator: Id,
) -> (r: Id)
    requires
        old(env).objc@.len() < 0xFFFF_FFFF,
    ensures
        new_read_stream(old(env).objc@, final(env).objc@, r, false),
        only_objc_changed(*old(env), *final(env)),
{
    alloc_read_stream(env)
}

/// Stubbed: an empty read stream that reads no file.
pub fn CFReadStreamCreateWithFile(env: &mut Environment, _allocator: Id, _file_url: Id) -> (r: Id)
    requires
        old(env).objc@.len() < 0xFFFF_FFFF,
    ensures
        new_read_stream(old(env).objc@, final(env).objc@, r, false),
        only_objc_changed(*old(env), *final(env)),
{
    alloc_read_stream(env)
}

/// Stubbed: a write stream into memory that writes no file.
pub fn CFWriteStreamCreateWithFile(env: &mut Environment, _allocator: Id, _file_url: Id) -> (r: Id)
    requires
        old(env).objc@.len() < 0xFFFF_FFFF,
    ensures
        new_write_stream(old(env).objc@, final(env).objc@, r, false),
        only_objc_changed(*old(env), *final(env)),
{
    alloc_write_stream(env)
}

pub fn CFWriteStreamCreateWithAllocatedBuffers(
    env: &mut Environment,
    _allocator: Id,
    _buffer_allocator: Id,
) -> (r: Id)
    requires
        old(env).objc@.len() < 0xFFFF_FFFF,
    ensures
        new_write_stream(old(env).objc@, final(env).objc@, r, false),
        only_objc_changed(*old(env), *final(env)),
{
    alloc_write_stream(env)
}

/// Stubbed: both streams come back `nil`.
pub fn CFStreamCreatePairWithSocket(
    env: &mut Environment,
    _allocator: Id,
    _sock: i32,
    read_stream: u32,
    write_stream: u32,
)
    requires
        read_stream != 0 ==> valid_range(read_stream as int, 4),
        write_stream != 0 ==> valid_range(write_stream as int, 4),
    ensures
        final(env).mem@ == out_ptr_write(
            out_ptr_write(old(env).mem@, read_stream, NIL),
            write_stream,
            NIL,
        ),
        *final(env) == (Environment { mem: final(env).mem, ..*old(env) }),
        crate::mem::same_heap(old(env).mem, final(env).mem),
{
    write_nil_pair(env, read_stream, write_stream);
}

/// Stubbed: both streams come back `nil`.
pub fn CFStreamCreatePairWithPeerSocketSignature(
    env: &mut Environment,
    _allocator: Id,
    _signature: u32,
    read_stream: u32,
    write_stream: u32,
)
    requires
        read_stream != 0 ==> valid_range(read_stream as int, 4),
        write_stream != 0 ==> valid_range(write_stream as int, 4),
    ensures
        final(env).mem@ == out_ptr_write(
            out_ptr_write(old(env).mem@, read_stream, NIL),
            write_stream,
            NIL,
        ),
        *final(env) == (Environment { mem: final(env).mem, ..*old(env) }),
        crate::mem::same_heap(old(env).mem, final(env).mem),
{
    write_nil_pair(env, read_stream, write_stream);
}

/// Memory after storing `v` through the out-pointer `p`, which is skipped
/// when null.
pub open spec fn out_ptr_write(m: Map<u32, u8>, p: u32, v: u32) -> Map<u32, u8> {
    if p != 0 {
        write_spec(m, p as int, le_bytes_u32(v))
    } else {
        m
    }
}

fn write_nil_pair(env: &mut Environment, read_stream: u32, write_stream: u32)
    requires
        read_stream != 0 ==> valid_range(read_stream as int, 4),
        write_stream != 0 ==> valid_range(write_stream as int, 4),
    ensures
        final(env).mem@ == out_ptr_write(
            out_ptr_write(old(env).mem@, read_stream, NIL),
            write_stream,
            NIL,
        ),
        *final(env) == (Environment { mem: final(env).mem, ..*old(env) }),
        crate::mem::same_heap(old(env).mem, final(env).mem),
{
    if read_stream != 0 {
        env.mem.write_u32(read_stream, NIL);
    }
    if write_stream != 0 {
        env.mem.write_u32(write_stream, NIL);
    }
}

/// Stubbed: a pair of streams standing in for a connection that cannot be
/// made, each stored through its out-pointer unless that is null.
pub fn CFStreamCreatePairWithSocketToHost(
    env: &mut Environment,
    _allocator: Id,
    _host: Id,
    _port: u32,
    read_stream: u32,
    write_stream: u32,
) -> (r: (Id, Id))
    requires
        old(env).objc@.len() < 0xFFFF_FFFE,
        read_stream != 0 ==> valid_range(read_stream as int, 4),
        write_stream != 0 ==> valid_range(write_stream as int, 4),
    ensures
        network_pair_created(*old(env), *final(env), read_stream, write_stream, r),
{
    create_network_pair(env, read_stream, write_stream)
}

/// Stubbed like [CFStreamCreatePairWithSocketToHost].
pub fn CFStreamCreatePairWithSocketToCFHost(
    env: &mut Environment,
    _allocator: Id,
    _host: Id,
    _port: i32,
    read_stream: u32,
    write_stream: u32,
) -> (r: (Id, Id))
    requires
        old(env).objc@.len() < 0xFFFF_FFFE,
        read_stream != 0 ==> valid_range(read_stream as int, 4),
        write_stream != 0 ==> valid_range(write_stream as int, 4),
    ensures
        network_pair_created(*old(env), *final(env), read_stream, write_stream, r),
{
    create_network_pair(env, read_stream, write_stream)
}

/// A network read stream was made and stored for a non-null `read_stream`,
/// then a network write stream for a non-null `write_stream`; `r` holds the
/// two ids, `NIL` where none was made.
pub open spec fn network_pair_created(
    a: Environment,
    b: Environment,
    read_stream: u32,
    write_stream: u32,
    r: (Id, Id),
) -> bool {
    let n = a.objc@.len();
    let rid: Id = if read_stream != 0 { (n + 1) as Id } else { NIL };
    let wid: Id = if write_stream != 0 {
        (if read_stream != 0 { n + 2 } else { n + 1 }) as Id
    } else {
        NIL
    };
    &&& r == (rid, wid)
    &&& b.objc@.len() == n + (if read_stream != 0 { 1int } else { 0 }) + (if write_stream != 0 { 1int } else { 0 })
    &&& b.objc@.take(n as int) == a.objc@
    &&& read_stream != 0 ==> entry(b.objc@, rid).refcount == 1 && read_host(b.objc@, rid) is Some
        && is_new_read_host(read_host(b.objc@, rid)->0, true)
    &&& write_stream != 0 ==> entry(b.objc@, wid).refcount == 1 && write_host(b.objc@, wid) is Some
        && is_new_write_host(write_host(b.objc@, wid)->0, true)
    &&& b.mem@ == out_ptr_write(out_ptr_write(a.mem@, read_stream, rid), write_stream, wid)
    &&& crate::mem::same_heap(a.mem, b.mem)
    &&& b == (Environment { objc: b.objc, mem: b.mem, ..a })
}

fn create_network_pair(env: &mut Environment, read_stream: u32, write_stream: u32) -> (r: (Id, Id))
    requires
        old(env).objc@.len() < 0xFFFF_FFFE,
        read_stream != 0 ==> valid_range(read_stream as int, 4),
        write_stream != 0 ==> valid_range(write_stream as int, 4),
    ensures
        network_pair_created(*old(env), *final(env), read_stream, write_stream, r),
{
    let ghost n = old(env).objc@.len();
    let mut rid: Id = NIL;
    let mut wid: Id = NIL;
    if read_stream != 0 {
        rid = alloc_network_read_stream(env);
        env.mem.write_u32(read_stream, rid);
    }
    let ghost mid = env.objc@;
    if write_stream != 0 {
        wid = alloc_network_write_stream(env);
        env.mem.write_u32(write_stream, wid);
        proof {
            assert(env.objc@.take(mid.len() as int) == mid);
            if read_stream != 0 {
                assert(env.objc@[rid - 1] == mid[rid - 1]);
            }
            assert(env.objc@.take(n as int) =~= mid.take(n as int));
        }
    }
    proof {
        let a = *old(env);
        let b = *env;
        assert(rid == (if read_stream != 0 { (n + 1) as Id } else { NIL }));
        assert(b.objc@.take(n as int) == a.objc@);
        assert(b.mem@ == out_ptr_write(out_ptr_write(a.mem@, read_stream, rid), write_stream, wid));
        assert(b == (Environment { objc: b.objc, mem: b.mem, ..a }));
    }
    (rid, wid)
}

// MARK: - Open / Close

pub fn CFReadStreamOpen(env: &mut Environment, stream: Id) -> (r: bool)
    ensures
        r == (stream != NIL),
        stream == NIL ==> *final(env) == *old(env),
        stream != NIL ==> only_objc_changed(*old(env), *final(env)) && final(env).objc@
            == with_read(
            old(env).objc@,
            stream,
            ReadStreamHost {
                status: kCFStreamStatusOpen,
                offset: 0,
                ..read_host(old(env).objc@, stream)->0
            },
        ),
{
    if stream == NIL {
        return false;
    }
    if let Some(mut h) = take_read(&mut env.objc, stream) {
        h.status = kCFStreamStatusOpen;
        h.offset = 0;
        put_read(&mut env.objc, stream, h, Ghost(old(env).objc@));
    }
    true
}

pub fn CFReadStreamClose(env: &mut Environment, stream: Id)
    ensures
        stream == NIL ==> *final(env) == *old(env),
        stream != NIL ==> only_objc_changed(*old(env), *final(env)) && final(env).objc@
            == with_read(
            old(env).objc@,
            stream,
            ReadStreamHost { status: kCFStreamStatusClosed, ..read_host(old(env).objc@, stream)->0 },
        ),
{
    if stream == NIL {
        return ;
    }
    if let Some(mut h) = take_read(&mut env.objc, stream) {
        h.status = kCFStreamStatusClosed;
        put_read(&mut env.objc, stream, h, Ghost(old(env).objc@));
    }
}

pub fn CFWriteStreamOpen(env: &mut Environment, stream: Id) -> (r: bool)
    ensures
        r == (stream != NIL),
        stream == NIL ==> *final(env) == *old(env),
        stream != NIL ==> only_objc_changed(*old(env), *final(env)) && final(env).objc@
            == with_write(
            old(env).objc@,
            stream,
            WriteStreamHost { status: kCFStreamStatusOpen, ..write_host(old(env).objc@, stream)->0 },
        ),
{
    if stream == NIL {
        return false;
    }
    if let Some(mut h) = take_write(&mut env.objc, stream) {
        h.status = kCFStreamStatusOpen;
        put_write(&mut env.objc, stream, h, Ghost(old(env).objc@));
    }
    true
}

pub fn CFWriteStreamClose(env: &mut Environment, stream: Id)
    ensures
        stream == NIL ==> *final(env) == *old(env),
        stream != NIL ==> only_objc_changed(*old(env), *final(env)) && final(env).objc@
            == with_write(
            old(env).objc@,
            stream,
            WriteStreamHost {
                status: kCFStreamStatusClosed,
                ..write_host(old(env).objc@, stream)->0
            },
        ),
{
    if stream == NIL {
        return ;
    }
    if let Some(mut h) = take_write(&mut env.objc, stream) {
        h.status = kCFStreamStatusClosed;
        put_write(&mut env.objc, stream, h, Ghost(old(env).objc@));
    }
}

// MARK: - Status

/// The status a read stream reports: an error for `NULL`, and "not open"
/// for an id that names no read stream.
pub open spec fn read_status(s: Seq<Option<ObjectEntry>>, stream: Id) -> i32 {
    if stream == NIL {
        kCFStreamStatusError
    } else if read_host(s, stream) is Some {
        read_host(s, stream)->0.status
    } else {
        kCFStreamStatusNotOpen
    }
}

pub open spec fn write_status(s: Seq<Option<ObjectEntry>>, stream: Id) -> i32 {
    if stream == NIL {
        kCFStreamStatusError
    } else if write_host(s, stream) is Some {
        write_host(s, stream)->0.status
    } else {
        kCFStreamStatusNotOpen
    }
}

pub fn CFReadStreamGetStatus(env: &Environment, stream: Id) -> (r: i32)
    ensures
        r == read_status(env.objc@, stream),
{
    if stream == NIL {
        return kCFStreamStatusError;
    }
    match borrow_read(&env.objc, stream) {
        Some(h) => h.status,
        None => kCFStreamStatusNotOpen,
    }
}

pub fn CFWriteStreamGetStatus(env: &Environment, stream: Id) -> (r: i32)
    ensures
        r == write_status(env.objc@, stream),
{
    if stream == NIL {
        return kCFStreamStatusError;
    }
    match borrow_write(&env.objc, stream) {
        Some(h) => h.status,
        None => kCFStreamStatusNotOpen,
    }
}

/// `CFStreamError` is `{ CFStreamErrorDomain domain; SInt32 error; }`,
/// returned in a register pair: the domain in the low word, the error in the
/// high one.
pub open spec fn packed_error(domain: i32, error: i32) -> u64 {
    ((domain as u32) as int + (error as u32) as int * 0x1_0000_0000) as u64
}

pub fn packed_stream_error(domain: i32, error: i32) -> (r: u64)
    ensures
        r == packed_error(domain, error),
        r % 0x1_0000_0000 == domain as u32,
        r / 0x1_0000_0000 == error as u32,
{
    let d: u64 = domain as u32 as u64;
    let e: u64 = error as u32 as u64;
    assert((d & 0xFFFF_FFFFu64) | (e << 32u64) == d + e * 0x1_0000_0000) by (bit_vector)
        requires
            d < 0x1_0000_0000u64,
            e < 0x1_0000_0000u64,
    ;
    (d & 0xFFFF_FFFF) | (e << 32)
}

/// Why a stream failed: `ENETDOWN` for a stand-in network stream, and the
/// custom domain's -1 for anything else.
pub open spec fn stream_error(network: bool) -> u64 {
    if network {
        packed_error(kCFStreamErrorDomainPOSIX, ENETDOWN)
    } else {
        packed_error(kCFStreamErrorDomainCustom, -1i32)
    }
}

pub fn CFReadStreamGetError(env: &Environment, stream: Id) -> (r: u64)
    ensures
        r == stream_error(
            stream != NIL && read_host(env.objc@, stream) is Some && read_host(
                env.objc@,
                stream,
            )->0.network,
        ),
{
    if stream != NIL {
        if let Some(h) = borrow_read(&env.objc, stream) {
            if h.network {
                return packed_stream_error(kCFStreamErrorDomainPOSIX, ENETDOWN);
            }
        }
    }
    packed_stream_error(kCFStreamErrorDomainCustom, -1)
}

pub fn CFWriteStreamGetError(env: &Environment, stream: Id) -> (r: u64)
    ensures
        r == stream_error(
            stream != NIL && write_host(env.objc@, stream) is Some && write_host(
                env.objc@,
                stream,
            )->0.network,
        ),
{
    if stream != NIL {
        if let Some(h) = borrow_write(&env.objc, stream) {
            if h.network {
                return packed_stream_error(kCFStreamErrorDomainPOSIX, ENETDOWN);
            }
        }
    }
    packed_stream_error(kCFStreamErrorDomainCustom, -1)
}

// MARK: - Read / Write

/// Whether a stream in this status takes reads.
pub open spec fn readable_status(status: i32) -> bool {
    status == kCFStreamStatusOpen || status == kCFStreamStatusReading
}

pub open spec fn writable_status(status: i32) -> bool {
    status == kCFStreamStatusOpen || status == kCFStreamStatusWriting
}

/// How many bytes a read of up to `buffer_length` bytes takes from `h`.
pub open spec fn read_copy_len(h: ReadStreamHost, buffer_length: i32) -> int {
    let remaining = if h.offset <= h.data@.len() { h.data@.len() - h.offset } else { 0 };
    if remaining <= buffer_length { remaining } else { buffer_length as int }
}

/// A read from a read stream that is open: it gets bytes.
pub open spec fn read_proceeds(s: Seq<Option<ObjectEntry>>, stream: Id, buffer: u32, buffer_length: i32) -> bool {
    &&& stream != NIL
    &&& buffer != 0
    &&& buffer_length >= 0
    &&& read_host(s, stream) is Some
    &&& readable_status(read_host(s, stream)->0.status)
}

/// The `n` bytes a read takes, from the stream's offset on.
pub open spec fn read_chunk(h: ReadStreamHost, n: int) -> Seq<u8> {
    Seq::new(n as nat, |i: int| h.data@[h.offset + i])
}

/// The stream after a read of `n` bytes.
pub open spec fn read_advanced(h: ReadStreamHost, n: int) -> ReadStreamHost {
    let offset = (h.offset + n) as usize;
    ReadStreamHost {
        offset,
        status: if offset >= h.data@.len() { kCFStreamStatusAtEnd } else { h.status },
        ..h
    }
}

/// Copy up to `buffer_length` bytes from the stream into the guest buffer,
/// returning how many, or -1 when the stream is not open for reading. The
/// stream is at its end once everything in it has been read.
pub fn CFReadStreamRead(env: &mut Environment, stream: Id, buffer: u32, buffer_length: i32) -> (r: i32)
    requires
        read_proceeds(old(env).objc@, stream, buffer, buffer_length) ==> valid_range(
            buffer as int,
            read_copy_len(read_host(old(env).objc@, stream)->0, buffer_length),
        ),
    ensures
        !read_proceeds(old(env).objc@, stream, buffer, buffer_length) ==> r == -1 && *final(env)
            == *old(env),
        read_proceeds(old(env).objc@, stream, buffer, buffer_length) ==> {
            let h = read_host(old(env).objc@, stream)->0;
            let n = read_copy_len(h, buffer_length);
            &&& r == n
            &&& final(env).mem@ == write_spec(
                old(env).mem@,
                buffer as int,
                read_chunk(h, n),
            )
            &&& crate::mem::same_heap(old(env).mem, final(env).mem)
            &&& final(env).objc@ == with_read(old(env).objc@, stream, read_advanced(h, n))
            &&& only_objc_mem_changed(*old(env), *final(env))
        },
{
    if stream == NIL || buffer == 0 || buffer_length < 0 {
        return -1;
    }
    let readable = match borrow_read(&env.objc, stream) {
        Some(h) => h.status == kCFStreamStatusOpen || h.status == kCFStreamStatusReading,
        None => false,
    };
    if !readable {
        return -1;
    }
    let mut h = match take_read(&mut env.objc, stream) {
        Some(h) => h,
        None => {
            assert(false);
            return -1;
        },
    };
    let len = h.data.len();
    let remaining = if h.offset <= len { len - h.offset } else { 0 };
    let copy_len = if remaining <= buffer_length as usize { remaining } else { buffer_length as usize };
    if copy_len > 0 {
        env.mem.write_bytes_from(buffer, h.data.as_slice(), h.offset, copy_len);
        assert(h.data@.subrange(h.offset as int, h.offset + copy_len) =~= read_chunk(h, copy_len as int));
        h.offset = h.offset + copy_len;
    } else {
        proof {
            assert(env.mem@ =~= write_spec(old(env).mem@, buffer as int, Seq::<u8>::empty()));
            assert(read_chunk(h, copy_len as int) =~= Seq::<u8>::empty());
        }
    }
    if h.offset >= h.data.len() {
        h.status = kCFStreamStatusAtEnd;
    }
    put_read(&mut env.objc, stream, h, Ghost(old(env).objc@));
    copy_len as i32
}

/// Never any buffer to lend.
pub fn CFReadStreamGetBuffer(
    _env: &Environment,
    _stream: Id,
    _max_bytes_to_read: i32,
    _num_bytes_read: u32,
) -> (r: u32)
    ensures
        r == 0,
{
    0
}

pub fn CFReadStreamHasBytesAvailable(env: &Environment, stream: Id) -> (r: bool)
    ensures
        r == (stream != NIL && read_host(env.objc@, stream) is Some && read_host(
            env.objc@,
            stream,
        )->0.offset < read_host(env.objc@, stream)->0.data@.len()),
{
    if stream == NIL {
        return false;
    }
    match borrow_read(&env.objc, stream) {
        Some(h) => h.offset < h.data.len(),
        None => false,
    }
}

/// A write to a write stream that is open: it takes the bytes.
pub open spec fn write_proceeds(s: Seq<Option<ObjectEntry>>, stream: Id, buffer: u32, buffer_length: i32) -> bool {
    &&& stream != NIL
    &&& buffer != 0
    &&& buffer_length >= 0
    &&& write_host(s, stream) is Some
    &&& writable_status(write_host(s, stream)->0.status)
}

/// Append `buffer_length` bytes from the guest buffer to the stream's data,
/// returning how many, or -1 when the stream is not open for writing.
pub fn CFWriteStreamWrite(env: &mut Environment, stream: Id, buffer: u32, buffer_length: i32) -> (r: i32)
    requires
        write_proceeds(old(env).objc@, stream, buffer, buffer_length) ==> valid_range(
            buffer as int,
            buffer_length as int,
        ),
    ensures
        !write_proceeds(old(env).objc@, stream, buffer, buffer_length) ==> r == -1 && *final(env)
            == *old(env),
        write_proceeds(old(env).objc@, stream, buffer, buffer_length) ==> {
            let h = write_host(old(env).objc@, stream)->0;
            &&& r == buffer_length
            &&& final(env).objc@ == with_write(
                old(env).objc@,
                stream,
                WriteStreamHost {
                    data: final_write_data(final(env).objc@, stream),
                    ..h
                },
            )
            &&& final_write_data(final(env).objc@, stream)@ == h.data@ + bytes_at(
                old(env).mem@,
                buffer as int,
                buffer_length as int,
            )
            &&& only_objc_changed(*old(env), *final(env))
        },
{
    if stream == NIL || buffer == 0 || buffer_length < 0 {
        return -1;
    }
    let writable = match borrow_write(&env.objc, stream) {
        Some(h) => h.status == kCFStreamStatusOpen || h.status == kCFStreamStatusWriting,
        None => false,
    };
    if !writable {
        return -1;
    }
    let mut h = match take_write(&mut env.objc, stream) {
        Some(h) => h,
        None => {
            assert(false);
            return -1;
        },
    };
    let mut bytes = env.mem.read_bytes(buffer, buffer_length as u32);
    h.data.append(&mut bytes);
    put_write(&mut env.objc, stream, h, Ghost(old(env).objc@));
    buffer_length
}

/// The data of the write stream `id`.
pub open spec fn final_write_data(s: Seq<Option<ObjectEntry>>, id: Id) -> Vec<u8> {
    write_host(s, id)->0.data
}

pub fn CFWriteStreamCanAcceptBytes(env: &Environment, stream: Id) -> (r: bool)
    ensures
        r == (stream != NIL && writable_status(write_status(env.objc@, stream))),
{
    if stream == NIL {
        return false;
    }
    let status = match borrow_write(&env.objc, stream) {
        Some(h) => h.status,
        None => kCFStreamStatusNotOpen,
    };
    status == kCFStreamStatusOpen || status == kCFStreamStatusWriting
}

// MARK: - Properties

/// No property has a value.
pub fn CFReadStreamCopyProperty(_env: &Environment, _stream: Id, _property_name: Id) -> (r: Id)
    ensures
        r == NIL,
{
    NIL
}

/// No property can be set.
pub fn CFReadStreamSetProperty(
    _env: &Environment,
    _stream: Id,
    _property_name: Id,
    _property_value: Id,
) -> (r: bool)
    ensures
        !r,
{
    false
}

pub fn CFWriteStreamCopyProperty(_env: &Environment, _stream: Id, _property_name: Id) -> (r: Id)
    ensures
        r == NIL,
{
    NIL
}

pub fn CFWriteStreamSetProperty(
    _env: &Environment,
    _stream: Id,
    _property_name: Id,
    _property_value: Id,
) -> (r: bool)
    ensures
        !r,
{
    false
}

// MARK: - Client / Run loop scheduling

/// The `info` field of the `CFStreamClientContext` at `ctx`, which is one
/// word in: `{ CFIndex version; void *info; ... }`. Null for no context.
pub open spec fn context_info(m: Map<u32, u8>, ctx: u32) -> u32 {
    if ctx == 0 {
        0
    } else {
        crate::mem::le_u32(bytes_at(m, ctx + 4, 4))
    }
}

/// The client a `SetClient` call registers: none for a null callback,
/// which is the documented way to remove one.
pub open spec fn client_for(m: Map<u32, u8>, events: u32, cb: GuestFunction, ctx: u32) -> Option<
    StreamClient,
> {
    if cb.addr < 2 {
        None
    } else {
        Some(StreamClient { callback: cb, info: context_info(m, ctx), events })
    }
}

/// The context can be read when a client is registered.
pub open spec fn client_context_readable(cb: GuestFunction, ctx: u32) -> bool {
    cb.addr >= 2 && ctx != 0 ==> valid_range(ctx + 4, 4)
}

pub fn client_context_info(env: &Environment, client_ctx: u32) -> (r: u32)
    requires
        client_ctx != 0 ==> valid_range(client_ctx + 4, 4),
    ensures
        r == context_info(env.mem@, client_ctx),
{
    if client_ctx == 0 {
        return 0;
    }
    env.mem.read_u32(client_ctx + 4)
}

pub fn make_client(env: &Environment, stream_events: u32, client_cb: GuestFunction, client_ctx: u32) -> (r: Option<StreamClient>)
    requires
        client_context_readable(client_cb, client_ctx),
    ensures
        r == client_for(env.mem@, stream_events, client_cb, client_ctx),
{
    if client_cb.addr_without_thumb_bit() == 0 {
        return None;
    }
    Some(
        StreamClient {
            callback: client_cb,
            info: client_context_info(env, client_ctx),
            events: stream_events,
        },
    )
}

/// Register (or, with a null callback, remove) the stream's client. A
/// stream without a client is owed no events.
pub fn CFReadStreamSetClient(
    env: &mut Environment,
    stream: Id,
    stream_events: u32,
    client_cb: GuestFunction,
    client_ctx: u32,
) -> (r: bool)
    requires
        stream != NIL ==> client_context_readable(client_cb, client_ctx),
    ensures
        r == (stream != NIL),
        stream == NIL ==> *final(env) == *old(env),
        stream != NIL ==> {
            let c = client_for(old(env).mem@, stream_events, client_cb, client_ctx);
            &&& final(env).objc@ == with_read(
                old(env).objc@,
                stream,
                ReadStreamHost { client: c, ..read_host(old(env).objc@, stream)->0 },
            )
            &&& final(env).scheduled_streams@ == if c is None {
                without_stream(old(env).scheduled_streams@, stream)
            } else {
                old(env).scheduled_streams@
            }
            &&& only_objc_sched_changed(*old(env), *final(env))
        },
{
    if stream == NIL {
        return false;
    }
    let client = make_client(env, stream_events, client_cb, client_ctx);
    if let Some(mut h) = take_read(&mut env.objc, stream) {
        h.client = client;
        put_read(&mut env.objc, stream, h, Ghost(old(env).objc@));
    }
    if client.is_none() {
        forget_stream(env, stream);
    }
    true
}

pub fn CFWriteStreamSetClient(
    env: &mut Environment,
    stream: Id,
    stream_events: u32,
    client_cb: GuestFunction,
    client_ctx: u32,
) -> (r: bool)
    requires
        stream != NIL ==> client_context_readable(client_cb, client_ctx),
    ensures
        r == (stream != NIL),
        stream == NIL ==> *final(env) == *old(env),
        stream != NIL ==> {
            let c = client_for(old(env).mem@, stream_events, client_cb, client_ctx);
            &&& final(env).objc@ == with_write(
                old(env).objc@,
                stream,
                WriteStreamHost { client: c, ..write_host(old(env).objc@, stream)->0 },
            )
            &&& final(env).scheduled_streams@ == if c is None {
                without_stream(old(env).scheduled_streams@, stream)
            } else {
                old(env).scheduled_streams@
            }
            &&& only_objc_sched_changed(*old(env), *final(env))
        },
{
    if stream == NIL {
        return false;
    }
    let client = make_client(env, stream_events, client_cb, client_ctx);
    if let Some(mut h) = take_write(&mut env.objc, stream) {
        h.client = client;
        put_write(&mut env.objc, stream, h, Ghost(old(env).objc@));
    }
    if client.is_none() {
        forget_stream(env, stream);
    }
    true
}

/// The list after [remember_stream].
pub open spec fn remembered(s: Seq<(Id, bool)>, id: Id, is_read: bool) -> Seq<(Id, bool)> {
    if has_stream(s, id) {
        s
    } else {
        s.push((id, is_read))
    }
}

pub fn CFReadStreamScheduleWithRunLoop(env: &mut Environment, stream: Id, _run_loop: Id, _run_loop_mode: Id)
    ensures
        stream == NIL ==> *final(env) == *old(env),
        stream != NIL ==> {
            &&& final(env).objc@ == with_read(
                old(env).objc@,
                stream,
                ReadStreamHost { scheduled: true, ..read_host(old(env).objc@, stream)->0 },
            )
            &&& final(env).scheduled_streams@ == remembered(old(env).scheduled_streams@, stream, true)
            &&& only_objc_sched_changed(*old(env), *final(env))
        },
{
    if stream == NIL {
        return ;
    }
    if let Some(mut h) = take_read(&mut env.objc, stream) {
        h.scheduled = true;
        put_read(&mut env.objc, stream, h, Ghost(old(env).objc@));
    }
    remember_stream(env, stream, true);
}

pub fn CFReadStreamUnscheduleFromRunLoop(env: &mut Environment, stream: Id, _run_loop: Id, _run_loop_mode: Id)
    ensures
        stream == NIL ==> *final(env) == *old(env),
        stream != NIL ==> {
            &&& final(env).objc@ == with_read(
                old(env).objc@,
                stream,
                ReadStreamHost { scheduled: false, ..read_host(old(env).objc@, stream)->0 },
            )
            &&& final(env).scheduled_streams@ == without_stream(old(env).scheduled_streams@, stream)
            &&& only_objc_sched_changed(*old(env), *final(env))
        },
{
    if stream == NIL {
        return ;
    }
    if let Some(mut h) = take_read(&mut env.objc, stream) {
        h.scheduled = false;
        put_read(&mut env.objc, stream, h, Ghost(old(env).objc@));
    }
    forget_stream(env, stream);
}

pub fn CFWriteStreamScheduleWithRunLoop(env: &mut Environment, stream: Id, _run_loop: Id, _run_loop_mode: Id)
    ensures
        stream == NIL ==> *final(env) == *old(env),
        stream != NIL ==> {
            &&& final(env).objc@ == with_write(
                old(env).objc@,
                stream,
                WriteStreamHost { scheduled: true, ..write_host(old(env).objc@, stream)->0 },
            )
            &&& final(env).scheduled_streams@ == remembered(old(env).scheduled_streams@, stream, false)
            &&& only_objc_sched_changed(*old(env), *final(env))
        },
{
    if stream == NIL {
        return ;
    }
    if let Some(mut h) = take_write(&mut env.objc, stream) {
        h.scheduled = true;
        put_write(&mut env.objc, stream, h, Ghost(old(env).objc@));
    }
    remember_stream(env, stream, false);
}

pub fn CFWriteStreamUnscheduleFromRunLoop(env: &mut Environment, stream: Id, _run_loop: Id, _run_loop_mode: Id)
    ensures
        stream == NIL ==> *final(env) == *old(env),
        stream != NIL ==> {
            &&& final(env).objc@ == with_write(
                old(env).objc@,
                stream,
                WriteStreamHost { scheduled: false, ..write_host(old(env).objc@, stream)->0 },
            )
            &&& final(env).scheduled_streams@ == without_stream(old(env).scheduled_streams@, stream)
            &&& only_objc_sched_changed(*old(env), *final(env))
        },
{
    if stream == NIL {
        return ;
    }
    if let Some(mut h) = take_write(&mut env.objc, stream) {
        h.scheduled = false;
        put_write(&mut env.objc, stream, h, Ghost(old(env).objc@));
    }
    forget_stream(env, stream);
}

// MARK: - Event delivery

/// The event a read stream owes its client next, given what it has already
/// said; `None` when there is nothing to say. Nothing is reported before the
/// stream is opened or after it is closed. A stand-in network stream reports
/// one error. Otherwise: open-completed once, then bytes-available for as
/// long as there is something to read, then end-encountered once.
pub open spec fn next_read_event(h: ReadStreamHost) -> Option<u32> {
    if h.status == kCFStreamStatusNotOpen || h.status == kCFStreamStatusClosed {
        None
    } else if h.network {
        if h.delivered & kCFStreamEventErrorOccurred == 0 {
            Some(kCFStreamEventErrorOccurred)
        } else {
            None
        }
    } else if h.delivered & kCFStreamEventOpenCompleted == 0 {
        Some(kCFStreamEventOpenCompleted)
    } else if h.offset < h.data@.len() {
        Some(kCFStreamEventHasBytesAvailable)
    } else if h.delivered & kCFStreamEventEndEncountered == 0 {
        Some(kCFStreamEventEndEncountered)
    } else {
        None
    }
}

/// A write stream owes: nothing before it is opened or after it is closed;
/// one error for a stand-in network stream; otherwise open-completed once,
/// then can-accept-bytes every time, since memory always has room.
pub open spec fn next_write_event(h: WriteStreamHost) -> Option<u32> {
    if h.status == kCFStreamStatusNotOpen || h.status == kCFStreamStatusClosed {
        None
    } else if h.network {
        if h.delivered & kCFStreamEventErrorOccurred == 0 {
            Some(kCFStreamEventErrorOccurred)
        } else {
            None
        }
    } else if h.delivered & kCFStreamEventOpenCompleted == 0 {
        Some(kCFStreamEventOpenCompleted)
    } else {
        Some(kCFStreamEventCanAcceptBytes)
    }
}

pub fn next_read_stream_event(host: &ReadStreamHost) -> (r: Option<u32>)
    ensures
        r == next_read_event(*host),
{
    if host.status == kCFStreamStatusNotOpen || host.status == kCFStreamStatusClosed {
        None
    } else if host.network {
        if host.delivered & kCFStreamEventErrorOccurred == 0 {
            Some(kCFStreamEventErrorOccurred)
        } else {
            None
        }
    } else if host.delivered & kCFStreamEventOpenCompleted == 0 {
        Some(kCFStreamEventOpenCompleted)
    } else if host.offset < host.data.len() {
        Some(kCFStreamEventHasBytesAvailable)
    } else if host.delivered & kCFStreamEventEndEncountered == 0 {
        Some(kCFStreamEventEndEncountered)
    } else {
        None
    }
}

pub fn next_write_stream_event(host: &WriteStreamHost) -> (r: Option<u32>)
    ensures
        r == next_write_event(*host),
{
    if host.status == kCFStreamStatusNotOpen || host.status == kCFStreamStatusClosed {
        None
    } else if host.network {
        if host.delivered & kCFStreamEventErrorOccurred == 0 {
            Some(kCFStreamEventErrorOccurred)
        } else {
            None
        }
    } else if host.delivered & kCFStreamEventOpenCompleted == 0 {
        Some(kCFStreamEventOpenCompleted)
    } else {
        Some(kCFStreamEventCanAcceptBytes)
    }
}

/// A read stream once `event` has been delivered: it is recorded, and an
/// error or the end changes the status to match.
pub open spec fn read_after_event(h: ReadStreamHost, event: u32) -> ReadStreamHost {
    ReadStreamHost {
        delivered: h.delivered | event,
        status: if event == kCFStreamEventErrorOccurred {
            kCFStreamStatusError
        } else if event == kCFStreamEventEndEncountered {
            kCFStreamStatusAtEnd
        } else {
            h.status
        },
        ..h
    }
}

pub open spec fn write_after_event(h: WriteStreamHost, event: u32) -> WriteStreamHost {
    WriteStreamHost {
        delivered: h.delivered | event,
        status: if event == kCFStreamEventErrorOccurred {
            kCFStreamStatusError
        } else {
            h.status
        },
        ..h
    }
}

/// The call that tells a client about `event`, unless it did not ask to
/// hear about it.
pub open spec fn client_call(c: StreamClient, stream: Id, event: u32) -> Option<GuestCall> {
    if event & c.events == 0 {
        None
    } else {
        Some(GuestCall::StreamClient { callback: c.callback, stream, event, info: c.info })
    }
}

/// Delivering to read stream `stream`: the object table afterwards, and the
/// call to make. A stream is owed an event only while it is scheduled and
/// has a client.
pub open spec fn read_delivery(s: Seq<Option<ObjectEntry>>, stream: Id) -> (Seq<Option<ObjectEntry>>, Option<GuestCall>) {
    let ho = read_host(s, stream);
    if ho is None {
        (s, None)
    } else {
        let h = ho->0;
        if h.client is None || !h.scheduled || next_read_event(h) is None {
            (s, None)
        } else {
            let e = next_read_event(h)->0;
            (with_host(s, stream, HostObject::ReadStream(read_after_event(h, e))), client_call(h.client->0, stream, e))
        }
    }
}

pub open spec fn write_delivery(s: Seq<Option<ObjectEntry>>, stream: Id) -> (Seq<Option<ObjectEntry>>, Option<GuestCall>) {
    let ho = write_host(s, stream);
    if ho is None {
        (s, None)
    } else {
        let h = ho->0;
        if h.client is None || !h.scheduled || next_write_event(h) is None {
            (s, None)
        } else {
            let e = next_write_event(h)->0;
            (with_host(s, stream, HostObject::WriteStream(write_after_event(h, e))), client_call(h.client->0, stream, e))
        }
    }
}

/// Record the event read stream `stream` owes its client and return the
/// call that tells the client, if it asked to hear about it.
pub fn deliver_read_stream_event(env: &mut Environment, stream: Id) -> (r: Option<GuestCall>)
    ensures
        (final(env).objc@, r) == read_delivery(old(env).objc@, stream),
        only_objc_changed(*old(env), *final(env)),
{
    let (client, event) = match borrow_read(&env.objc, stream) {
        Some(h) => {
            if h.client.is_none() || !h.scheduled {
                return None;
            }
            match next_read_stream_event(h) {
                Some(e) => (h.client.unwrap(), e),
                None => {
                    return None;
                },
            }
        },
        None => {
            return None;
        },
    };
    let mut h = match take_read(&mut env.objc, stream) {
        Some(h) => h,
        None => {
            assert(false);
            return None;
        },
    };
    h.delivered = h.delivered | event;
    if event == kCFStreamEventErrorOccurred {
        h.status = kCFStreamStatusError;
    } else if event == kCFStreamEventEndEncountered {
        h.status = kCFStreamStatusAtEnd;
    }
    put_read(&mut env.objc, stream, h, Ghost(old(env).objc@));
    if event & client.events == 0 {
        return None;
    }
    Some(GuestCall::StreamClient { callback: client.callback, stream, event, info: client.info })
}

pub fn deliver_write_stream_event(env: &mut Environment, stream: Id) -> (r: Option<GuestCall>)
    ensures
        (final(env).objc@, r) == write_delivery(old(env).objc@, stream),
        only_objc_changed(*old(env), *final(env)),
{
    let (client, event) = match borrow_write(&env.objc, stream) {
        Some(h) => {
            if h.client.is_none() || !h.scheduled {
                return None;
            }
            match next_write_stream_event(h) {
                Some(e) => (h.client.unwrap(), e),
                None => {
                    return None;
                },
            }
        },
        None => {
            return None;
        },
    };
    let mut h = match take_write(&mut env.objc, stream) {
        Some(h) => h,
        None => {
            assert(false);
            return None;
        },
    };
    h.delivered = h.delivered | event;
    if event == kCFStreamEventErrorOccurred {
        h.status = kCFStreamStatusError;
    }
    put_write(&mut env.objc, stream, h, Ghost(old(env).objc@));
    if event & client.events == 0 {
        return None;
    }
    Some(GuestCall::StreamClient { callback: client.callback, stream, event, info: client.info })
}

/// One run-loop iteration's worth of event delivery: the streams that were
/// scheduled when it began, taken in order. Guest callbacks run between
/// steps, and may schedule, unschedule or release streams as they please.
pub struct PendingEvents {
    queue: Vec<(Id, bool)>,
    next: usize,
}

impl PendingEvents {
    pub closed spec fn queue(&self) -> Seq<(Id, bool)> {
        self.queue@
    }

    pub closed spec fn position(&self) -> nat {
        self.next as nat
    }

    /// Deliver the event owed by the next stream in the queue. `None` once
    /// every stream has had its turn; otherwise the call to make, if any.
    pub fn step(&mut self, env: &mut Environment) -> (r: Option<Option<GuestCall>>)
        ensures
            final(self).queue() == old(self).queue(),
            old(self).position() >= old(self).queue().len() ==> r is None && *final(env) == *old(env)
                && final(self).position() == old(self).position(),
            old(self).position() < old(self).queue().len() ==> {
                let (stream, is_read) = old(self).queue()[old(self).position() as int];
                let d = if is_read {
                    read_delivery(old(env).objc@, stream)
                } else {
                    write_delivery(old(env).objc@, stream)
                };
                &&& r == Some(d.1)
                &&& final(env).objc@ == d.0
                &&& only_objc_changed(*old(env), *final(env))
                &&& final(self).position() == old(self).position() + 1
            },
    {
        if self.next >= self.queue.len() {
            return None;
        }
        let (stream, is_read) = self.queue[self.next];
        self.next = self.next + 1;
        if is_read {
            Some(deliver_read_stream_event(env, stream))
        } else {
            Some(deliver_write_stream_event(env, stream))
        }
    }
}

/// Start delivering events for this run-loop iteration: the list of
/// scheduled streams is copied first, since the callbacks may change it.
pub fn deliver_pending_events(env: &Environment) -> (r: PendingEvents)
    ensures
        r.queue() == env.scheduled_streams@,
        r.position() == 0,
{
    let mut queue: Vec<(Id, bool)> = Vec::new();
    let n = env.scheduled_streams.len();
    let mut i: usize = 0;
    while i < n
        invariant
            n == env.scheduled_streams@.len(),
            i <= n,
            queue@ == env.scheduled_streams@.take(i as int),
        decreases n - i,
    {
        queue.push(env.scheduled_streams[i]);
        i = i + 1;
        assert(queue@ =~= env.scheduled_streams@.take(i as int));
    }
    assert(env.scheduled_streams@.take(n as int) =~= env.scheduled_streams@);
    PendingEvents { queue, next: 0 }
}

// MARK: - Laws

/// No stream is on the list of streams owed events twice.
pub open spec fn no_duplicate_streams(s: Seq<(Id, bool)>) -> bool {
    forall|i: int, j: int| 0 <= i < j < s.len() ==> #[trigger] s[i].0 != #[trigger] s[j].0
}

/// Scheduling and unscheduling keep the list of streams owed events free
/// of duplicates, and unscheduling takes the stream off it.
pub proof fn lemma_schedule_list_has_no_duplicates(s: Seq<(Id, bool)>, id: Id, is_read: bool)
    requires
        no_duplicate_streams(s),
    ensures
        no_duplicate_streams(remembered(s, id, is_read)),
        has_stream(remembered(s, id, is_read), id),
        no_duplicate_streams(without_stream(s, id)),
        !has_stream(without_stream(s, id), id),
{
    let r = remembered(s, id, is_read);
    if !has_stream(s, id) {
        assert forall|i: int, j: int| 0 <= i < j < r.len() implies #[trigger] r[i].0 != #[trigger] r[j].0 by {
            if j == s.len() {
                assert(s[i].0 != id);
            }
        }
        assert(r[s.len() as int].0 == id);
    }
    let w = without_stream(s, id);
    lemma_filter_no_duplicates(s, id);
    assert forall|i: int| 0 <= i < w.len() implies #[trigger] w[i].0 != id by {
        s.lemma_filter_pred(entry_is_not(id), i);
    }
}

proof fn lemma_filter_no_duplicates(s: Seq<(Id, bool)>, id: Id)
    requires
        no_duplicate_streams(s),
    ensures
        no_duplicate_streams(without_stream(s, id)),
    decreases s.len(),
{
    reveal(Seq::filter);
    if s.len() > 0 {
        let d = s.drop_last();
        assert forall|i: int, j: int| 0 <= i < j < d.len() implies #[trigger] d[i].0 != #[trigger] d[j].0 by {
            assert(d[i] == s[i] && d[j] == s[j]);
        }
        lemma_filter_no_duplicates(d, id);
        let wd = without_stream(d, id);
        let w = without_stream(s, id);
        if s.last().0 != id {
            assert(w == wd.push(s.last()));
            assert forall|i: int| 0 <= i < wd.len() implies #[trigger] wd[i].0 != s.last().0 by {
                assert(wd.contains(wd[i]));
                d.lemma_filter_contains_rev(entry_is_not(id), wd[i]);
                let k = choose|k: int| 0 <= k < d.len() && d[k] == wd[i];
                assert(s[k] == d[k]);
                assert(s[s.len() - 1] == s.last());
            }
            assert forall|i: int, j: int| 0 <= i < j < w.len() implies #[trigger] w[i].0 != #[trigger] w[j].0 by {
                if j == wd.len() {
                    assert(wd[i].0 != s.last().0);
                } else {
                    assert(w[i] == wd[i] && w[j] == wd[j]);
                }
            }
        } else {
            assert(w == wd);
        }
    }
}

/// A stand-in network stream, once opened, tells its client one thing,
/// that the connection failed, and then has nothing more to say.
pub proof fn lemma_network_read_stream_fails_once(h: ReadStreamHost)
    requires
        h.network,
        next_read_event(h) is Some,
    ensures
        next_read_event(h) == Some(kCFStreamEventErrorOccurred),
        read_after_event(h, kCFStreamEventErrorOccurred).status == kCFStreamStatusError,
        next_read_event(read_after_event(h, kCFStreamEventErrorOccurred)) is None,
{
    let d = h.delivered;
    assert((d | 8u32) & 8u32 != 0) by (bit_vector);
}

pub proof fn lemma_network_write_stream_fails_once(h: WriteStreamHost)
    requires
        h.network,
        next_write_event(h) is Some,
    ensures
        next_write_event(h) == Some(kCFStreamEventErrorOccurred),
        write_after_event(h, kCFStreamEventErrorOccurred).status == kCFStreamStatusError,
        next_write_event(write_after_event(h, kCFStreamEventErrorOccurred)) is None,
{
    let d = h.delivered;
    assert((d | 8u32) & 8u32 != 0) by (bit_vector);
}

/// The one-shot events are said once: after open-completed or
/// end-encountered has been delivered, it is not owed again.
pub proof fn lemma_one_shot_read_events(h: ReadStreamHost, e: u32)
    requires
        next_read_event(h) == Some(e),
        e == kCFStreamEventOpenCompleted || e == kCFStreamEventEndEncountered,
    ensures
        next_read_event(read_after_event(h, e)) != Some(e),
{
    let d = h.delivered;
    assert((d | 1u32) & 1u32 != 0) by (bit_vector);
    assert((d | 16u32) & 16u32 != 0) by (bit_vector);
}

/// Reading everything a stream holds leaves it at its end.
pub proof fn lemma_read_to_end(h: ReadStreamHost, buffer_length: i32)
    requires
        h.offset <= h.data@.len(),
        buffer_length >= h.data@.len() - h.offset,
    ensures
        read_copy_len(h, buffer_length) == h.data@.len() - h.offset,
        read_advanced(h, read_copy_len(h, buffer_length)).offset == h.data@.len(),
        read_advanced(h, read_copy_len(h, buffer_length)).status == kCFStreamStatusAtEnd,
{
    assert(h.data.len() == h.data@.len());
}

proof fn lemma_read_host_of_update(s: Seq<Option<ObjectEntry>>, id: Id, h: ReadStreamHost)
    requires
        read_host(s, id) is Some,
    ensures
        with_read(s, id, h) == with_host(s, id, HostObject::ReadStream(h)),
        read_host(with_read(s, id, h), id) == Some(h),
{
}

proof fn lemma_write_host_of_update(s: Seq<Option<ObjectEntry>>, id: Id, h: WriteStreamHost)
    requires
        write_host(s, id) is Some,
    ensures
        with_write(s, id, h) == with_host(s, id, HostObject::WriteStream(h)),
        write_host(with_write(s, id, h), id) == Some(h),
{
}

proof fn lemma_with_same_host(s: Seq<Option<ObjectEntry>>, id: Id)
    requires
        is_live(s, id),
    ensures
        with_host(s, id, entry(s, id).host) == s,
{
    assert(with_host(s, id, entry(s, id).host) =~= s);
}

/// The call that tells client `c` of `stream` about `event`.
pub open spec fn told(c: StreamClient, stream: Id, event: u32) -> Option<GuestCall> {
    Some(GuestCall::StreamClient { callback: c.callback, stream, event, info: c.info })
}

/// A stand-in network read stream, fresh from creation, given a client that
/// listens for errors, then scheduled, then opened: the next delivery tells
/// the client once, with the context's `info`, that an error occurred; the
/// stream then reports the error status, and every later delivery makes no
/// call and changes nothing.
pub proof fn lemma_network_read_stream_session(
    s: Seq<Option<ObjectEntry>>,
    m: Map<u32, u8>,
    id: Id,
    events: u32,
    cb: GuestFunction,
    ctx: u32,
)
    requires
        read_host(s, id) is Some,
        is_new_read_host(read_host(s, id)->0, true),
        cb.addr >= 2,
        events & kCFStreamEventErrorOccurred != 0,
    ensures
        ({
            let s1 = with_read(
                s,
                id,
                ReadStreamHost { client: client_for(m, events, cb, ctx), ..read_host(s, id)->0 },
            );
            let s2 = with_read(s1, id, ReadStreamHost { scheduled: true, ..read_host(s1, id)->0 });
            let s3 = with_read(
                s2,
                id,
                ReadStreamHost { status: kCFStreamStatusOpen, offset: 0, ..read_host(s2, id)->0 },
            );
            let d = read_delivery(s3, id);
            &&& read_status(s3, id) == kCFStreamStatusOpen
            &&& d.1 == Some(
                GuestCall::StreamClient {
                    callback: cb,
                    stream: id,
                    event: kCFStreamEventErrorOccurred,
                    info: context_info(m, ctx),
                },
            )
            &&& read_status(d.0, id) == kCFStreamStatusError
            &&& read_delivery(d.0, id) == (d.0, None::<GuestCall>)
        }),
{
    let h = read_host(s, id)->0;
    let c = client_for(m, events, cb, ctx);
    let h1 = ReadStreamHost { client: c, ..h };
    lemma_read_host_of_update(s, id, h1);
    let s1 = with_read(s, id, h1);
    let h2 = ReadStreamHost { scheduled: true, ..h1 };
    lemma_read_host_of_update(s1, id, h2);
    let s2 = with_read(s1, id, h2);
    let h3 = ReadStreamHost { status: kCFStreamStatusOpen, offset: 0, ..h2 };
    lemma_read_host_of_update(s2, id, h3);
    let s3 = with_read(s2, id, h3);
    assert(0u32 & 8u32 == 0u32) by (bit_vector);
    assert(events & 8u32 != 0u32 ==> 8u32 & events != 0u32) by (bit_vector);
    assert(next_read_event(h3) == Some(kCFStreamEventErrorOccurred));
    let h4 = read_after_event(h3, kCFStreamEventErrorOccurred);
    lemma_read_host_of_update(s3, id, h4);
    assert(0u32 | 8u32 == 8u32 && 8u32 & 8u32 != 0u32) by (bit_vector);
    assert(next_read_event(h4) is None);
}

/// A memory read stream that has said nothing yet, opened and scheduled
/// with a client that listens for every event: the first delivery tells it
/// the stream opened. Then, while there are bytes left, the next delivery
/// and every one after it say bytes are available; with none left, the
/// next says the end was reached, the stream is at its end, and later
/// deliveries make no call and change nothing.
pub proof fn lemma_read_stream_event_order(s: Seq<Option<ObjectEntry>>, id: Id)
    requires
        read_host(s, id) is Some,
        !read_host(s, id)->0.network,
        read_host(s, id)->0.status == kCFStreamStatusOpen,
        read_host(s, id)->0.scheduled,
        read_host(s, id)->0.delivered == kCFStreamEventNone,
        read_host(s, id)->0.offset <= read_host(s, id)->0.data@.len(),
        read_host(s, id)->0.client is Some,
        read_host(s, id)->0.client->0.events & 19u32 == 19u32,
    ensures
        ({
            let h = read_host(s, id)->0;
            let c = h.client->0;
            let d1 = read_delivery(s, id);
            let d2 = read_delivery(d1.0, id);
            &&& d1.1 == told(c, id, kCFStreamEventOpenCompleted)
            &&& h.offset < h.data@.len() ==> {
                &&& d2.1 == told(c, id, kCFStreamEventHasBytesAvailable)
                &&& read_status(d2.0, id) == kCFStreamStatusOpen
                &&& read_delivery(d2.0, id) == (d2.0, told(c, id, kCFStreamEventHasBytesAvailable))
            }
            &&& h.offset == h.data@.len() ==> {
                &&& d2.1 == told(c, id, kCFStreamEventEndEncountered)
                &&& read_status(d2.0, id) == kCFStreamStatusAtEnd
                &&& read_delivery(d2.0, id) == (d2.0, None::<GuestCall>)
            }
        }),
{
    let h = read_host(s, id)->0;
    let c = h.client->0;
    let ev = c.events;
    assert(ev & 19u32 == 19u32 ==> 1u32 & ev != 0u32 && 2u32 & ev != 0u32 && 16u32 & ev != 0u32)
        by (bit_vector);
    assert(0u32 & 1u32 == 0u32 && 0u32 | 1u32 == 1u32) by (bit_vector);
    assert(1u32 & 1u32 != 0u32 && 1u32 | 2u32 == 3u32 && 1u32 & 16u32 == 0u32) by (bit_vector);
    assert(3u32 & 1u32 != 0u32 && 3u32 | 2u32 == 3u32) by (bit_vector);
    assert(1u32 | 16u32 == 17u32 && 17u32 & 1u32 != 0u32 && 17u32 & 16u32 != 0u32) by (bit_vector);
    let h1 = read_after_event(h, kCFStreamEventOpenCompleted);
    lemma_read_host_of_update(s, id, h1);
    let s1 = with_read(s, id, h1);
    assert(read_delivery(s, id) == (s1, told(c, id, kCFStreamEventOpenCompleted)));
    if h.offset < h.data@.len() {
        let h2 = read_after_event(h1, kCFStreamEventHasBytesAvailable);
        lemma_read_host_of_update(s1, id, h2);
        let s2 = with_read(s1, id, h2);
        assert(read_delivery(s1, id) == (s2, told(c, id, kCFStreamEventHasBytesAvailable)));
        assert(read_after_event(h2, kCFStreamEventHasBytesAvailable) == h2);
        lemma_with_same_host(s2, id);
    } else {
        let h2 = read_after_event(h1, kCFStreamEventEndEncountered);
        lemma_read_host_of_update(s1, id, h2);
        let s2 = with_read(s1, id, h2);
        assert(read_delivery(s1, id) == (s2, told(c, id, kCFStreamEventEndEncountered)));
        assert(next_read_event(h2) is None);
    }
}

/// A memory read stream that has said it opened and has been read to its
/// end: the next delivery tells a client listening for it that the end was
/// reached, once; the stream is then at its end, and later deliveries make
/// no call and change nothing.
pub proof fn lemma_read_stream_end_after_reading(s: Seq<Option<ObjectEntry>>, id: Id)
    requires
        read_host(s, id) is Some,
        !read_host(s, id)->0.network,
        read_host(s, id)->0.status != kCFStreamStatusNotOpen,
        read_host(s, id)->0.status != kCFStreamStatusClosed,
        read_host(s, id)->0.scheduled,
        read_host(s, id)->0.delivered & kCFStreamEventOpenCompleted != 0,
        read_host(s, id)->0.delivered & kCFStreamEventEndEncountered == 0,
        read_host(s, id)->0.offset >= read_host(s, id)->0.data@.len(),
        read_host(s, id)->0.client is Some,
        read_host(s, id)->0.client->0.events & kCFStreamEventEndEncountered != 0,
    ensures
        ({
            let c = read_host(s, id)->0.client->0;
            let d = read_delivery(s, id);
            &&& d.1 == told(c, id, kCFStreamEventEndEncountered)
            &&& read_status(d.0, id) == kCFStreamStatusAtEnd
            &&& read_delivery(d.0, id) == (d.0, None::<GuestCall>)
        }),
{
    let h = read_host(s, id)->0;
    let d = h.delivered;
    let ev = h.client->0.events;
    assert(ev & 16u32 != 0u32 ==> 16u32 & ev != 0u32) by (bit_vector);
    assert(d & 1u32 != 0u32 ==> (d | 16u32) & 1u32 != 0u32) by (bit_vector);
    assert((d | 16u32) & 16u32 != 0u32) by (bit_vector);
    let h1 = read_after_event(h, kCFStreamEventEndEncountered);
    lemma_read_host_of_update(s, id, h1);
    assert(next_read_event(h1) is None);
}

/// A write stream that has said nothing yet, opened and scheduled with a
/// client that listens for what it may say. Over memory: the first delivery
/// says it opened, the next and every one after say it can accept bytes,
/// and the status stays open. A stand-in network stream: the first
/// delivery says an error occurred, the status becomes the error status,
/// and later deliveries make no call and change nothing.
pub proof fn lemma_write_stream_event_order(s: Seq<Option<ObjectEntry>>, id: Id)
    requires
        write_host(s, id) is Some,
        write_host(s, id)->0.status == kCFStreamStatusOpen,
        write_host(s, id)->0.scheduled,
        write_host(s, id)->0.delivered == kCFStreamEventNone,
        write_host(s, id)->0.client is Some,
        !write_host(s, id)->0.network ==> write_host(s, id)->0.client->0.events & 5u32 == 5u32,
        write_host(s, id)->0.network ==> write_host(s, id)->0.client->0.events & 8u32 != 0,
    ensures
        ({
            let h = write_host(s, id)->0;
            let c = h.client->0;
            let d1 = write_delivery(s, id);
            let d2 = write_delivery(d1.0, id);
            &&& !h.network ==> {
                &&& d1.1 == told(c, id, kCFStreamEventOpenCompleted)
                &&& d2.1 == told(c, id, kCFStreamEventCanAcceptBytes)
                &&& write_status(d1.0, id) == kCFStreamStatusOpen
                &&& write_status(d2.0, id) == kCFStreamStatusOpen
                &&& write_delivery(d2.0, id) == (d2.0, told(c, id, kCFStreamEventCanAcceptBytes))
            }
            &&& h.network ==> {
                &&& d1.1 == told(c, id, kCFStreamEventErrorOccurred)
                &&& write_status(d1.0, id) == kCFStreamStatusError
                &&& d2 == (d1.0, None::<GuestCall>)
            }
        }),
{
    let h = write_host(s, id)->0;
    let c = h.client->0;
    let ev = c.events;
    assert(ev & 5u32 == 5u32 ==> 1u32 & ev != 0u32 && 4u32 & ev != 0u32) by (bit_vector);
    assert(ev & 8u32 != 0u32 ==> 8u32 & ev != 0u32) by (bit_vector);
    assert(0u32 & 1u32 == 0u32 && 0u32 | 1u32 == 1u32 && 0u32 & 8u32 == 0u32 && 0u32 | 8u32 == 8u32)
        by (bit_vector);
    assert(1u32 & 1u32 != 0u32 && 1u32 | 4u32 == 5u32 && 5u32 & 1u32 != 0u32 && 5u32 | 4u32 == 5u32
        && 8u32 & 8u32 != 0u32) by (bit_vector);
    if h.network {
        let h1 = write_after_event(h, kCFStreamEventErrorOccurred);
        lemma_write_host_of_update(s, id, h1);
        assert(next_write_event(h1) is None);
    } else {
        let h1 = write_after_event(h, kCFStreamEventOpenCompleted);
        lemma_write_host_of_update(s, id, h1);
        let s1 = with_write(s, id, h1);
        assert(write_delivery(s, id) == (s1, told(c, id, kCFStreamEventOpenCompleted)));
        let h2 = write_after_event(h1, kCFStreamEventCanAcceptBytes);
        lemma_write_host_of_update(s1, id, h2);
        let s2 = with_write(s1, id, h2);
        assert(write_delivery(s1, id) == (s2, told(c, id, kCFStreamEventCanAcceptBytes)));
        assert(write_after_event(h2, kCFStreamEventCanAcceptBytes) == h2);
        lemma_with_same_host(s2, id);
    }
}


/// A client is called only about an event it asked to hear about, and then
/// with that event, its stream and its context's `info`; any event,
/// an error included, that it did not ask for is recorded without a call.
pub proof fn lemma_clients_hear_only_what_they_asked_for(c: StreamClient, stream: Id, event: u32)
    ensures
        client_call(c, stream, event) is Some <==> event & c.events != 0,
        event & c.events != 0 ==> client_call(c, stream, event) == Some(
            GuestCall::StreamClient { callback: c.callback, stream, event, info: c.info },
        ),
{
}

/// Delivering to a stream calls its own client, about an event that client
/// asked for; a stream without a client, or not scheduled, is called about
/// nothing.
pub proof fn lemma_delivery_calls_only_the_listening_client(s: Seq<Option<ObjectEntry>>, stream: Id)
    ensures
        read_delivery(s, stream).1 matches Some(GuestCall::StreamClient { callback, stream: st, event, info }) ==> {
            let h = read_host(s, stream)->0;
            &&& read_host(s, stream) is Some
            &&& h.scheduled
            &&& h.client is Some
            &&& st == stream
            &&& callback == h.client->0.callback
            &&& info == h.client->0.info
            &&& event & h.client->0.events != 0
        },
        write_delivery(s, stream).1 matches Some(GuestCall::StreamClient { callback, stream: st, event, info }) ==> {
            let h = write_host(s, stream)->0;
            &&& write_host(s, stream) is Some
            &&& h.scheduled
            &&& h.client is Some
            &&& st == stream
            &&& callback == h.client->0.callback
            &&& info == h.client->0.info
            &&& event & h.client->0.events != 0
        },
        read_delivery(s, stream).1 is Some ==> read_delivery(s, stream).1->0 is StreamClient,
        write_delivery(s, stream).1 is Some ==> write_delivery(s, stream).1->0 is StreamClient,
{
}

/// Only a write stream that is open, or in the middle of a write, takes
/// bytes or says it can: once closed, failed or at its end, or before it is
/// opened, a write fails and changes nothing, and it cannot accept bytes.
pub proof fn lemma_only_open_write_streams_take_bytes(
    s: Seq<Option<ObjectEntry>>,
    stream: Id,
    buffer: u32,
    buffer_length: i32,
    status: i32,
)
    ensures
        writable_status(status) <==> (status == 2 || status == 4),
        write_proceeds(s, stream, buffer, buffer_length) <==> {
            &&& stream != NIL
            &&& buffer != 0
            &&& buffer_length >= 0
            &&& write_host(s, stream) is Some
            &&& (write_host(s, stream)->0.status == 2 || write_host(s, stream)->0.status == 4)
        },
        (write_status(s, stream) != 2 && write_status(s, stream) != 4) ==> !write_proceeds(
            s,
            stream,
            buffer,
            buffer_length,
        ),
{
}

/// Likewise only a read stream that is open, or in the middle of a read,
/// gives bytes: before it is opened, or once closed, failed or at its end,
/// a read fails.
pub proof fn lemma_only_open_read_streams_give_bytes(
    s: Seq<Option<ObjectEntry>>,
    stream: Id,
    buffer: u32,
    buffer_length: i32,
    status: i32,
)
    ensures
        readable_status(status) <==> (status == 2 || status == 3),
        read_proceeds(s, stream, buffer, buffer_length) <==> {
            &&& stream != NIL
            &&& buffer != 0
            &&& buffer_length >= 0
            &&& read_host(s, stream) is Some
            &&& (read_host(s, stream)->0.status == 2 || read_host(s, stream)->0.status == 3)
        },
{
}

} // verus!
