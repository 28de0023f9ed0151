//! The table of host-side Objective-C objects: what each live object is,
//! and how many references keep it alive.

use crate::ca_eagl_layer::{LayerHost, WindowHost};
use crate::cf_stream::{ReadStreamHost, WriteStreamHost};
use crate::sc_network_reachability::ReachabilityHost;
use vstd::prelude::*;

verus! {

/// An object pointer. Zero is `nil`.
pub type Id = u32;

pub const NIL: Id = 0;

/// A guest function's address, with the Thumb bit as the guest gave it.
#[derive(Clone, Copy, Debug, PartialEq, Eq, Structural)]
pub struct GuestFunction {
    pub addr: u32,
}

impl GuestFunction {
    pub fn from_addr_with_thumb_bit(addr: u32) -> (f: GuestFunction)
        ensures
            f.addr == addr,
    {
        GuestFunction { addr }
    }

    /// The address with the Thumb bit cleared; zero for a null function.
    pub fn addr_without_thumb_bit(&self) -> (r: u32)
        ensures
            r == self.addr & 0xFFFF_FFFEu32,
            r == 0 <==> self.addr < 2,
    {
        let a = self.addr;
        assert((a & 0xFFFF_FFFEu32 == 0) <==> a < 2) by (bit_vector);
        a & 0xFFFF_FFFEu32
    }
}

/// A call into guest code that the host has decided to make. Running guest
/// code is the CPU's business, so the library hands the call back to whoever
/// runs the CPU.
#[derive(Clone, Copy, Debug, PartialEq, Eq, Structural)]
pub enum GuestCall {
    /// `void (^)(void)`: the block's `invoke` function, called with the block.
    VoidBlock { invoke: GuestFunction, block: Id },
    /// A `CFReadStreamClientCallBack` or `CFWriteStreamClientCallBack`.
    StreamClient { callback: GuestFunction, stream: Id, event: u32, info: u32 },
    /// A `SCNetworkReachabilityCallBack`.
    ReachabilityCallout { callout: GuestFunction, target: Id, flags: u32, context: u32 },
}

/// What a live object is, from the host's side.
pub enum HostObject {
    ReadStream(ReadStreamHost),
    WriteStream(WriteStreamHost),
    Reachability(ReachabilityHost),
    Layer(LayerHost),
    Window(WindowHost),
    /// An object whose host side carries no state.
    Plain,
}

pub struct ObjectEntry {
    pub refcount: u32,
    pub host: HostObject,
}

/// Objects by id. Object `id` lives in slot `id - 1`; a slot is emptied when
/// its object is deallocated, and ids are never handed out twice.
pub struct ObjectStore {
    slots: Vec<Option<ObjectEntry>>,
}

impl View for ObjectStore {
    type V = Seq<Option<ObjectEntry>>;

    closed spec fn view(&self) -> Seq<Option<ObjectEntry>> {
        self.slots@
    }
}

/// Whether `id` names a live object.
pub open spec fn is_live(s: Seq<Option<ObjectEntry>>, id: Id) -> bool {
    1 <= id <= s.len() && s[id - 1] is Some
}

/// The entry of a live object.
pub open spec fn entry(s: Seq<Option<ObjectEntry>>, id: Id) -> ObjectEntry {
    s[id - 1]->0
}

/// The store with the host object of live `id` replaced by `host`.
pub open spec fn with_host(s: Seq<Option<ObjectEntry>>, id: Id, host: HostObject) -> Seq<
    Option<ObjectEntry>,
> {
    s.update(id - 1, Some(ObjectEntry { refcount: entry(s, id).refcount, host }))
}

/// The store with the reference count of live `id` set to `rc`.
pub open spec fn with_refcount(s: Seq<Option<ObjectEntry>>, id: Id, rc: u32) -> Seq<
    Option<ObjectEntry>,
> {
    s.update(id - 1, Some(ObjectEntry { refcount: rc, host: entry(s, id).host }))
}

/// `s` after a release of live `id`: one reference fewer, and gone when
/// that was the last.
pub open spec fn released(s: Seq<Option<ObjectEntry>>, id: Id) -> Seq<Option<ObjectEntry>> {
    if entry(s, id).refcount <= 1 {
        s.update(id - 1, None)
    } else {
        with_refcount(s, id, (entry(s, id).refcount - 1) as u32)
    }
}

impl ObjectStore {
    pub fn new() -> (r: ObjectStore)
        ensures
            r@ == Seq::<Option<ObjectEntry>>::empty(),
    {
        ObjectStore { slots: Vec::new() }
    }

    /// A new object with one reference.
    pub fn alloc_object(&mut self, host: HostObject) -> (id: Id)
        requires
            old(self)@.len() < 0xFFFF_FFFF,
        ensures
            id == old(self)@.len() + 1,
            final(self)@ == old(self)@.push(Some(ObjectEntry { refcount: 1, host })),
    {
        self.slots.push(Some(ObjectEntry { refcount: 1, host }));
        self.slots.len() as u32
    }

    /// How many ids have been handed out.
    pub fn len(&self) -> (r: usize)
        ensures
            r == self@.len(),
    {
        self.slots.len()
    }

    /// The entry of `id`, if it is live.
    pub fn get(&self, id: Id) -> (r: Option<&ObjectEntry>)
        ensures
            r is Some <==> is_live(self@, id),
            r is Some ==> *r->0 == entry(self@, id),
    {
        if id == 0 || id as usize > self.slots.len() {
            return None;
        }
        match &self.slots[(id - 1) as usize] {
            Some(e) => Some(e),
            None => None,
        }
    }

    /// Replace the host object of live `id`, handing back the old one.
    pub fn replace_host(&mut self, id: Id, host: HostObject) -> (r: HostObject)
        requires
            is_live(old(self)@, id),
        ensures
            r == entry(old(self)@, id).host,
            final(self)@ == with_host(old(self)@, id, host),
    {
        let i = (id - 1) as usize;
        let mut slot: Option<ObjectEntry> = None;
        std::mem::swap(&mut slot, &mut self.slots[i]);
        match slot {
            Some(e) => {
                let rc = e.refcount;
                self.slots.set(i, Some(ObjectEntry { refcount: rc, host }));
                assert(self.slots@ =~= with_host(old(self)@, id, host));
                e.host
            },
            None => {
                assert(false);
                host
            },
        }
    }

    /// One more reference to live `id`.
    pub fn retain(&mut self, id: Id)
        requires
            is_live(old(self)@, id),
            entry(old(self)@, id).refcount < 0xFFFF_FFFF,
        ensures
            final(self)@ == with_refcount(old(self)@, id, (entry(old(self)@, id).refcount + 1) as u32),
    {
        let i = (id - 1) as usize;
        let mut slot: Option<ObjectEntry> = None;
        std::mem::swap(&mut slot, &mut self.slots[i]);
        match slot {
            Some(e) => {
                self.slots.set(i, Some(ObjectEntry { refcount: e.refcount + 1, host: e.host }));
                assert(self.slots@ =~= with_refcount(old(self)@, id, (entry(old(self)@, id).refcount + 1) as u32));
            },
            None => {
                assert(false);
            },
        }
    }

    /// One reference fewer to live `id`; the object goes when none is left.
    /// Returns the host object of a deallocated object.
    pub fn release(&mut self, id: Id) -> (r: Option<HostObject>)
        requires
            is_live(old(self)@, id),
        ensures
            final(self)@ == released(old(self)@, id),
            r is Some <==> entry(old(self)@, id).refcount <= 1,
            r is Some ==> r->0 == entry(old(self)@, id).host,
    {
        let i = (id - 1) as usize;
        let mut slot: Option<ObjectEntry> = None;
        std::mem::swap(&mut slot, &mut self.slots[i]);
        match slot {
            Some(e) => {
                if e.refcount <= 1 {
                    assert(self.slots@ =~= released(old(self)@, id));
                    Some(e.host)
                } else {
                    self.slots.set(i, Some(ObjectEntry { refcount: e.refcount - 1, host: e.host }));
                    assert(self.slots@ =~= released(old(self)@, id));
                    None
                }
            },
            None => {
                assert(false);
                None
            },
        }
    }
}

/// A retain followed by a release leaves the table as it was.
pub proof fn lemma_retain_then_release(s: Seq<Option<ObjectEntry>>, id: Id)
    requires
        is_live(s, id),
        entry(s, id).refcount >= 1,
        entry(s, id).refcount < 0xFFFF_FFFF,
    ensures
        released(with_refcount(s, id, (entry(s, id).refcount + 1) as u32), id) == s,
{
    let s1 = with_refcount(s, id, (entry(s, id).refcount + 1) as u32);
    assert(released(s1, id) =~= s);
}

/// Releasing the last reference deallocates the object, and its id never
/// names a live object again.
pub proof fn lemma_last_release_deallocates(s: Seq<Option<ObjectEntry>>, id: Id)
    requires
        is_live(s, id),
        entry(s, id).refcount <= 1,
    ensures
        !is_live(released(s, id), id),
        released(s, id).len() == s.len(),
{
}

} // verus!
