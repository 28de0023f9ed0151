//! The state every host function works on.

use crate::mem::GuestMemory;
use crate::objc::{entry, is_live, released, with_refcount, HostObject, Id, ObjectStore, NIL};
use vstd::prelude::*;
use vstd::string::StringSliceAdditionalSpecFns;

verus! {

/// The registers the host functions look at: `r0`-`r15` and the CPSR.
pub struct Cpu {
    pub regs: [u32; 16],
    pub cpsr: u32,
}

/// The command-line options the host functions consult.
#[derive(Clone, Copy, Debug)]
pub struct Options {
    /// `--force-composition`: never present a layer directly.
    pub force_composition: bool,
    /// `--claim-network-reachable`: tell apps the network is up.
    pub claim_network_reachable: bool,
}

pub struct Environment {
    pub mem: GuestMemory,
    pub cpu: Cpu,
    pub objc: ObjectStore,
    pub options: Options,
    /// The guest thread's `errno`.
    pub errno: i32,
    /// The emulated process's pid.
    pub pid: i32,
    /// `hw.machine` for the emulated device family.
    pub machine_name: &'static str,
    /// The emulated device's RAM in bytes.
    pub physical_memory: u32,
    pub mmap: crate::mmap::State,
    /// Streams scheduled with a run loop that may still owe their client an
    /// event, and whether each is a read stream.
    pub scheduled_streams: Vec<(Id, bool)>,
    /// Reachability targets still owed their first callback.
    pub awaiting_first_callback: Vec<Id>,
    /// `(pc, number)` of each raw syscall site already reported.
    pub reported_syscalls: Vec<(u32, u32)>,
    /// Whether a failed fullscreen-layer search has already been explained.
    pub fullscreen_search_reported: bool,
    /// The app's windows, front-most last.
    pub windows: Vec<Id>,
}

impl Environment {
    pub open spec fn wf(&self) -> bool {
        &&& self.mem.wf()
        &&& self.machine_name.spec_bytes().len() + 1 < 0xFFFF_FFFF
        &&& forall|p: u32| #[trigger]
            self.mmap.allocations().contains_key(p) ==> self.mem.blocks().contains_key(p)
    }

    /// A fresh process: empty memory with its heap at `[heap_start,
    /// heap_end)`, no objects, no windows, nothing scheduled.
    pub fn new(
        machine_name: &'static str,
        physical_memory: u32,
        pid: i32,
        heap_start: u32,
        heap_end: u32,
        options: Options,
    ) -> (r: Environment)
        requires
            heap_start % crate::mem::PAGE_SIZE == 0,
            heap_start > 0,
            heap_start <= heap_end,
            machine_name.spec_bytes().len() + 1 < 0xFFFF_FFFF,
        ensures
            r.wf(),
            r.mem@ == Map::<u32, u8>::empty(),
            r.mem.heap_next() == heap_start,
            r.mem.heap_end() == heap_end,
            r.objc@ == Seq::<Option<crate::objc::ObjectEntry>>::empty(),
            r.options == options,
            r.errno == 0,
            r.pid == pid,
            r.machine_name == machine_name,
            r.physical_memory == physical_memory,
            r.mmap.allocations() == Map::<u32, u32>::empty(),
            r.scheduled_streams@ == Seq::<(Id, bool)>::empty(),
            r.awaiting_first_callback@ == Seq::<Id>::empty(),
            r.reported_syscalls@ == Seq::<(u32, u32)>::empty(),
            !r.fullscreen_search_reported,
            r.windows@ == Seq::<Id>::empty(),
    {
        Environment {
            mem: GuestMemory::new(heap_start, heap_end),
            cpu: Cpu { regs: [0u32; 16], cpsr: 0 },
            objc: ObjectStore::new(),
            options,
            errno: 0,
            pid,
            machine_name,
            physical_memory,
            mmap: crate::mmap::State::new(),
            scheduled_streams: Vec::new(),
            awaiting_first_callback: Vec::new(),
            reported_syscalls: Vec::new(),
            fullscreen_search_reported: false,
            windows: Vec::new(),
        }
    }

    pub fn set_errno(&mut self, errno: i32)
        ensures
            *final(self) == (Environment { errno, ..*old(self) }),
    {
        self.errno = errno;
    }

    pub fn get_errno(&self) -> (r: i32)
        ensures
            r == self.errno,
    {
        self.errno
    }
}

/// `objc_retain`: one more reference to `obj`, which is handed back. `nil`
/// is left alone.
pub fn retain(env: &mut Environment, obj: Id) -> (r: Id)
    requires
        obj == NIL || (is_live(old(env).objc@, obj) && entry(old(env).objc@, obj).refcount
            < 0xFFFF_FFFF),
    ensures
        r == obj,
        obj == NIL ==> *final(env) == *old(env),
        obj != NIL ==> *final(env) == (Environment {
            objc: final(env).objc,
            ..*old(env)
        }) && final(env).objc@ == with_refcount(
            old(env).objc@,
            obj,
            (entry(old(env).objc@, obj).refcount + 1) as u32,
        ),
{
    if obj != NIL {
        env.objc.retain(obj);
    }
    obj
}

/// Whether a host object is a stream, whose deallocation takes it off the
/// list of streams owed events.
pub open spec fn is_stream_host(h: HostObject) -> bool {
    h is ReadStream || h is WriteStream
}

/// `objc_release`: one reference fewer to `obj`. The last one deallocates
/// it, and a deallocated stream is taken off the list of streams owed
/// events. `nil` is left alone.
pub fn release(env: &mut Environment, obj: Id)
    requires
        obj == NIL || is_live(old(env).objc@, obj),
    ensures
        obj == NIL ==> *final(env) == *old(env),
        obj != NIL ==> {
            &&& final(env).objc@ == released(old(env).objc@, obj)
            &&& final(env).scheduled_streams@ == if entry(old(env).objc@, obj).refcount <= 1
                && is_stream_host(entry(old(env).objc@, obj).host) {
                crate::cf_stream::without_stream(old(env).scheduled_streams@, obj)
            } else {
                old(env).scheduled_streams@
            }
            &&& *final(env) == (Environment {
                objc: final(env).objc,
                scheduled_streams: final(env).scheduled_streams,
                ..*old(env)
            })
        },
{
    if obj == NIL {
        return ;
    }
    let gone = env.objc.release(obj);
    match gone {
        Some(HostObject::ReadStream(_)) | Some(HostObject::WriteStream(_)) => {
            crate::cf_stream::forget_stream(env, obj);
        },
        _ => {},
    }
}

} // verus!
