//! `SCNetworkReachability`. There is no network stack behind it, so the
//! network is reported unreachable unless the user has said otherwise; a
//! target scheduled for monitoring is told so once, as the real API tells it
//! the current state soon after scheduling.
#![allow(non_snake_case)]
#![allow(non_upper_case_globals)]

use crate::cf_stream::only_objc_changed;
use crate::env::{release, retain, Environment};
use crate::mem::{cstr_bytes, has_cstr, le_bytes_u32, valid_range, write_spec};
use crate::objc::{entry, is_live, with_host, GuestCall, GuestFunction, HostObject, Id, ObjectEntry, NIL};
use vstd::prelude::*;

verus! {

pub const kSCNetworkReachabilityFlagsTransientConnection: u32 = 1 << 0;
pub const kSCNetworkReachabilityFlagsReachable: u32 = 1 << 1;
pub const kSCNetworkReachabilityFlagsConnectionRequired: u32 = 1 << 2;
pub const kSCNetworkReachabilityFlagsConnectionOnTraffic: u32 = 1 << 3;
pub const kSCNetworkReachabilityFlagsInterventionRequired: u32 = 1 << 4;
pub const kSCNetworkReachabilityFlagsConnectionOnDemand: u32 = 1 << 5;
pub const kSCNetworkReachabilityFlagsIsLocalAddress: u32 = 1 << 16;
pub const kSCNetworkReachabilityFlagsIsDirect: u32 = 1 << 17;
pub const kSCNetworkReachabilityFlagsIsWWAN: u32 = 1 << 18;

pub struct ReachabilityHost {
    pub name: Option<Vec<u8>>,
    pub callout: Option<GuestFunction>,
    pub context: u32,
}

/// The reachability target `id` names, if it names one. Anything else
/// behaves as a target without a callout, and changes to it go nowhere.
pub open spec fn reach_host(s: Seq<Option<ObjectEntry>>, id: Id) -> Option<ReachabilityHost> {
    if is_live(s, id) {
        match entry(s, id).host {
            HostObject::Reachability(h) => Some(h),
            _ => None,
        }
    } else {
        None
    }
}

/// The flags reported: reachable only when the user has claimed so.
pub open spec fn reported_flags(claim_network_reachable: bool) -> u32 {
    if claim_network_reachable {
        kSCNetworkReachabilityFlagsReachable
    } else {
        0
    }
}

pub fn SCNetworkReachabilityRetain(env: &mut Environment, target: Id) -> (r: Id)
    requires
        target == NIL || (is_live(old(env).objc@, target) && entry(old(env).objc@, target).refcount
            < 0xFFFF_FFFF),
    ensures
        r == target,
        target == NIL ==> *final(env) == *old(env),
        target != NIL ==> only_objc_changed(*old(env), *final(env)) && final(env).objc@
            == crate::objc::with_refcount(
            old(env).objc@,
            target,
            (entry(old(env).objc@, target).refcount + 1) as u32,
        ),
{
    if target != NIL {
        retain(env, target)
    } else {
        target
    }
}

pub fn SCNetworkReachabilityRelease(env: &mut Environment, target: Id)
    requires
        target == NIL || is_live(old(env).objc@, target),
    ensures
        target == NIL ==> *final(env) == *old(env),
        target != NIL ==> {
            &&& final(env).objc@ == crate::objc::released(old(env).objc@, target)
            &&& final(env).scheduled_streams@ == if entry(old(env).objc@, target).refcount <= 1
                && crate::env::is_stream_host(entry(old(env).objc@, target).host) {
                crate::cf_stream::without_stream(old(env).scheduled_streams@, target)
            } else {
                old(env).scheduled_streams@
            }
            &&& crate::cf_stream::only_objc_sched_changed(*old(env), *final(env))
        },
{
    if target != NIL {
        release(env, target);
    }
}

/// `core::str::from_utf8` succeeds exactly on well-formed UTF-8, which is
/// what this reports.
#[verifier::external_body]
fn is_utf8(bytes: &[u8]) -> (r: bool)
    ensures
        r == vstd::utf8::valid_utf8(bytes@),
{
    core::str::from_utf8(bytes).is_ok()
}

/// A new target with one reference.
pub open spec fn new_target(old: Seq<Option<ObjectEntry>>, new: Seq<Option<ObjectEntry>>, id: Id, name: Option<Seq<u8>>) -> bool {
    &&& crate::cf_stream::allocated_one(old, new, id)
    &&& reach_host(new, id) is Some
    &&& ({
        let h = reach_host(new, id)->0;
        &&& h.callout is None
        &&& h.context == 0
        &&& match name {
            Some(n) => h.name is Some && h.name->0@ == n,
            None => h.name is None,
        }
    })
}

/// The name a target is created with: the string, or an empty one when it
/// is not UTF-8.
pub open spec fn target_name(m: Map<u32, u8>, name: u32) -> Seq<u8> {
    if vstd::utf8::valid_utf8(cstr_bytes(m, name as int)) {
        cstr_bytes(m, name as int)
    } else {
        Seq::empty()
    }
}

pub fn SCNetworkReachabilityCreateWithName(env: &mut Environment, _allocator: Id, name: u32) -> (r: Id)
    requires
        old(env).objc@.len() < 0xFFFF_FFFF,
        has_cstr(old(env).mem@, name as int),
    ensures
        new_target(old(env).objc@, final(env).objc@, r, Some(target_name(old(env).mem@, name))),
        only_objc_changed(*old(env), *final(env)),
{
    let bytes = env.mem.read_cstr(name);
    proof {
        let n = choose|n: int| crate::mem::is_cstr_len(env.mem@, name as int, n);
        crate::mem::lemma_cstr_len_unique(env.mem@, name as int, n, bytes@.len() as int);
    }
    let name_bytes = if is_utf8(bytes.as_slice()) {
        bytes
    } else {
        Vec::new()
    };
    let host = ReachabilityHost { name: Some(name_bytes), callout: None, context: 0 };
    let id = env.objc.alloc_object(HostObject::Reachability(host));
    assert(env.objc@.take(old(env).objc@.len() as int) =~= old(env).objc@);
    id
}

fn create_unnamed(env: &mut Environment) -> (r: Id)
    requires
        old(env).objc@.len() < 0xFFFF_FFFF,
    ensures
        new_target(old(env).objc@, final(env).objc@, r, None),
        only_objc_changed(*old(env), *final(env)),
{
    let host = ReachabilityHost { name: None, callout: None, context: 0 };
    let id = env.objc.alloc_object(HostObject::Reachability(host));
    assert(env.objc@.take(old(env).objc@.len() as int) =~= old(env).objc@);
    id
}

pub fn SCNetworkReachabilityCreateWithAddress(env: &mut Environment, _allocator: Id, _address: u32) -> (r: Id)
    requires
        old(env).objc@.len() < 0xFFFF_FFFF,
    ensures
        new_target(old(env).objc@, final(env).objc@, r, None),
        only_objc_changed(*old(env), *final(env)),
{
    create_unnamed(env)
}

pub fn SCNetworkReachabilityCreateWithAddressPair(
    env: &mut Environment,
    _allocator: Id,
    _local: u32,
    _remote: u32,
) -> (r: Id)
    requires
        old(env).objc@.len() < 0xFFFF_FFFF,
    ensures
        new_target(old(env).objc@, final(env).objc@, r, None),
        only_objc_changed(*old(env), *final(env)),
{
    create_unnamed(env)
}

/// Store the flags through `flags` and succeed: unreachable, since there is
/// no network stack, unless `--claim-network-reachable` was given.
pub fn SCNetworkReachabilityGetFlags(env: &mut Environment, _target: Id, flags: u32) -> (r: bool)
    requires
        valid_range(flags as int, 4),
    ensures
        r,
        final(env).mem@ == write_spec(
            old(env).mem@,
            flags as int,
            le_bytes_u32(reported_flags(old(env).options.claim_network_reachable)),
        ),
        crate::mem::same_heap(old(env).mem, final(env).mem),
        *final(env) == (Environment { mem: final(env).mem, ..*old(env) }),
{
    let reachable = env.options.claim_network_reachable;
    let value = if reachable {
        kSCNetworkReachabilityFlagsReachable
    } else {
        0
    };
    env.mem.write_u32(flags, value);
    true
}

/// The list of targets owed a first callback, with `target` on it.
pub open spec fn awaiting_with(s: Seq<Id>, target: Id) -> Seq<Id> {
    if s.contains(target) {
        s
    } else {
        s.push(target)
    }
}

/// The list with `target` taken off.
pub open spec fn awaiting_without(s: Seq<Id>, target: Id) -> Seq<Id> {
    s.filter(target_is_not(target))
}

/// Whether a target is another than `target`.
pub open spec fn target_is_not(target: Id) -> spec_fn(Id) -> bool {
    |t: Id| t != target
}

/// Only the list of targets owed a first callback has changed.
pub open spec fn only_awaiting_changed(a: Environment, b: Environment) -> bool {
    b == (Environment { awaiting_first_callback: b.awaiting_first_callback, ..a })
}

pub fn schedule_first_callback(env: &mut Environment, target: Id)
    ensures
        final(env).awaiting_first_callback@ == awaiting_with(old(env).awaiting_first_callback@, target),
        only_awaiting_changed(*old(env), *final(env)),
{
    let n = env.awaiting_first_callback.len();
    let mut i: usize = 0;
    while i < n
        invariant
            n == env.awaiting_first_callback@.len(),
            i <= n,
            forall|j: int| 0 <= j < i ==> env.awaiting_first_callback@[j] != target,
        decreases n - i,
    {
        if env.awaiting_first_callback[i] == target {
            assert(env.awaiting_first_callback@[i as int] == target);
            return ;
        }
        i = i + 1;
    }
    env.awaiting_first_callback.push(target);
}

pub fn cancel_first_callback(env: &mut Environment, target: Id)
    ensures
        final(env).awaiting_first_callback@ == awaiting_without(old(env).awaiting_first_callback@, target),
        only_awaiting_changed(*old(env), *final(env)),
{
    let n = env.awaiting_first_callback.len();
    let mut kept: Vec<Id> = Vec::new();
    let mut i: usize = 0;
    assert(awaiting_without(old(env).awaiting_first_callback@.take(0), target) =~= Seq::<Id>::empty()) by {
        reveal(Seq::filter);
    }
    while i < n
        invariant
            env.awaiting_first_callback@ == old(env).awaiting_first_callback@,
            n == env.awaiting_first_callback@.len(),
            i <= n,
            kept@ == awaiting_without(old(env).awaiting_first_callback@.take(i as int), target),
        decreases n - i,
    {
        let t = env.awaiting_first_callback[i];
        proof {
            let s = old(env).awaiting_first_callback@;
            let w = s.take(i + 1);
            assert(w.drop_last() =~= s.take(i as int));
            assert(w.last() == t);
            assert(awaiting_without(w, target) == if t != target {
                awaiting_without(s.take(i as int), target).push(t)
            } else {
                awaiting_without(s.take(i as int), target)
            }) by {
                reveal(Seq::filter);
            }
        }
        if t != target {
            kept.push(t);
        }
        i = i + 1;
    }
    assert(old(env).awaiting_first_callback@.take(n as int) =~= old(env).awaiting_first_callback@);
    env.awaiting_first_callback = kept;
}

/// The callout a target is told the state of the network through, if it
/// has one.
pub open spec fn callout_call(s: Seq<Option<ObjectEntry>>, target: Id, claim: bool) -> Option<GuestCall> {
    let ho = reach_host(s, target);
    if ho is Some && ho->0.callout is Some {
        Some(
            GuestCall::ReachabilityCallout {
                callout: ho->0.callout->0,
                target,
                flags: reported_flags(claim),
                context: ho->0.context,
            },
        )
    } else {
        None
    }
}

/// The callbacks owed at one run-loop iteration: the targets that were
/// waiting when it began, taken in order. Guest callouts run between steps.
pub struct PendingCallbacks {
    queue: Vec<Id>,
    next: usize,
}

impl PendingCallbacks {
    pub closed spec fn queue(&self) -> Seq<Id> {
        self.queue@
    }

    pub closed spec fn position(&self) -> nat {
        self.next as nat
    }

    /// The callout owed to the next target in the queue. `None` once every
    /// target has had its turn; otherwise the call to make, if the target
    /// has a callout.
    pub fn step(&mut self, env: &Environment) -> (r: Option<Option<GuestCall>>)
        ensures
            final(self).queue() == old(self).queue(),
            old(self).position() >= old(self).queue().len() ==> r is None && final(self).position()
                == old(self).position(),
            old(self).position() < old(self).queue().len() ==> {
                &&& r == Some(
                    callout_call(
                        env.objc@,
                        old(self).queue()[old(self).position() as int],
                        env.options.claim_network_reachable,
                    ),
                )
                &&& final(self).position() == old(self).position() + 1
            },
    {
        if self.next >= self.queue.len() {
            return None;
        }
        let target = self.queue[self.next];
        self.next = self.next + 1;
        let (callout, context) = match env.objc.get(target) {
            Some(e) => match &e.host {
                HostObject::Reachability(h) => (h.callout, h.context),
                _ => (None, 0),
            },
            None => (None, 0),
        };
        let callout = match callout {
            Some(c) => c,
            None => {
                return Some(None);
            },
        };
        let flags = if env.options.claim_network_reachable {
            kSCNetworkReachabilityFlagsReachable
        } else {
            0
        };
        Some(Some(GuestCall::ReachabilityCallout { callout, target, flags, context }))
    }
}

/// Deliver the callbacks owed to scheduled targets: each is owed one, and
/// only one, so the list is emptied as it is taken.
pub fn deliver_pending_callbacks(env: &mut Environment) -> (r: PendingCallbacks)
    ensures
        r.queue() == old(env).awaiting_first_callback@,
        r.position() == 0,
        final(env).awaiting_first_callback@ == Seq::<Id>::empty(),
        only_awaiting_changed(*old(env), *final(env)),
{
    let mut due: Vec<Id> = Vec::new();
    std::mem::swap(&mut due, &mut env.awaiting_first_callback);
    PendingCallbacks { queue: due, next: 0 }
}

/// Register the callout that is told about `target`, and its context.
pub fn SCNetworkReachabilitySetCallback(env: &mut Environment, target: Id, callout: GuestFunction, context: u32) -> (r: bool)
    ensures
        r,
        only_objc_changed(*old(env), *final(env)),
        reach_host(old(env).objc@, target) is Some ==> final(env).objc@ == with_host(
            old(env).objc@,
            target,
            HostObject::Reachability(
                ReachabilityHost {
                    callout: Some(callout),
                    context,
                    ..reach_host(old(env).objc@, target)->0
                },
            ),
        ),
        reach_host(old(env).objc@, target) is None ==> final(env).objc@ == old(env).objc@,
{
    let is_target = match env.objc.get(target) {
        Some(e) => match &e.host {
            HostObject::Reachability(_) => true,
            _ => false,
        },
        None => false,
    };
    if is_target {
        match env.objc.replace_host(target, HostObject::Plain) {
            HostObject::Reachability(h) => {
                let host = ReachabilityHost { name: h.name, callout: Some(callout), context };
                let _ = env.objc.replace_host(target, HostObject::Reachability(host));
                proof {
                    let s = old(env).objc@;
                    assert(env.objc@ =~= with_host(s, target, HostObject::Reachability(host)));
                }
            },
            _ => {
                assert(false);
            },
        }
    }
    true
}

pub fn SCNetworkReachabilityScheduleWithRunLoop(env: &mut Environment, target: Id, _run_loop: Id, _run_loop_mode: Id) -> (r: bool)
    ensures
        r,
        final(env).awaiting_first_callback@ == awaiting_with(old(env).awaiting_first_callback@, target),
        only_awaiting_changed(*old(env), *final(env)),
{
    schedule_first_callback(env, target);
    true
}

pub fn SCNetworkReachabilityUnscheduleFromRunLoop(env: &mut Environment, target: Id, _run_loop: Id, _run_loop_mode: Id) -> (r: bool)
    ensures
        r,
        final(env).awaiting_first_callback@ == awaiting_without(old(env).awaiting_first_callback@, target),
        only_awaiting_changed(*old(env), *final(env)),
{
    cancel_first_callback(env, target);
    true
}

/// A null queue stops monitoring; any other starts it.
pub fn SCNetworkReachabilitySetDispatchQueue(env: &mut Environment, target: Id, queue: u32) -> (r: bool)
    ensures
        r,
        final(env).awaiting_first_callback@ == if queue == 0 {
            awaiting_without(old(env).awaiting_first_callback@, target)
        } else {
            awaiting_with(old(env).awaiting_first_callback@, target)
        },
        only_awaiting_changed(*old(env), *final(env)),
{
    if queue == 0 {
        cancel_first_callback(env, target);
    } else {
        schedule_first_callback(env, target);
    }
    true
}

/// No target is owed its first callback twice.
pub open spec fn no_duplicate_targets(s: Seq<Id>) -> bool {
    forall|i: int, j: int| 0 <= i < j < s.len() ==> #[trigger] s[i] != #[trigger] s[j]
}

/// Scheduling a target twice still owes it one callback, and cancelling
/// takes it off the list.
pub proof fn lemma_one_callback_per_target(s: Seq<Id>, target: Id)
    requires
        no_duplicate_targets(s),
    ensures
        no_duplicate_targets(awaiting_with(s, target)),
        awaiting_with(awaiting_with(s, target), target) == awaiting_with(s, target),
        !awaiting_without(s, target).contains(target),
{
    let w = awaiting_with(s, target);
    if !s.contains(target) {
        assert forall|i: int, j: int| 0 <= i < j < w.len() implies #[trigger] w[i] != #[trigger] w[j] by {
            if j == s.len() {
                assert(s[i] != target);
            }
        }
    }
    assert(w[w.len() - 1] == target || s.contains(target));
    if !s.contains(target) {
        assert(w.contains(target)) by {
            assert(w[s.len() as int] == target);
        }
    }
    let c = awaiting_without(s, target);
    if c.contains(target) {
        let k = choose|k: int| 0 <= k < c.len() && c[k] == target;
        s.lemma_filter_pred(target_is_not(target), k);
    }
}

/// The flags a callout is told are the flags `SCNetworkReachabilityGetFlags`
/// reports: the two never disagree about the network.
pub proof fn lemma_callout_agrees_with_get_flags(s: Seq<Option<ObjectEntry>>, target: Id, claim: bool)
    requires
        callout_call(s, target, claim) is Some,
    ensures
        callout_call(s, target, claim)->0 matches GuestCall::ReachabilityCallout { flags, .. } && flags
            == reported_flags(claim),
        !claim ==> reported_flags(claim) == 0,
{
}

/// A target given a callout and a context, then scheduled (on a run loop or
/// a dispatch queue) once or more: it stands on the list of targets owed a
/// callback exactly once, and the callback owed is the callout, told about
/// that target with the flags `SCNetworkReachabilityGetFlags` reports and
/// with that context. Delivery empties the list, so the next delivery owes
/// it nothing until it is scheduled again, which owes it one callback anew.
pub proof fn lemma_scheduled_target_is_called_once(
    s: Seq<Option<ObjectEntry>>,
    a: Seq<Id>,
    target: Id,
    callout: GuestFunction,
    context: u32,
    claim: bool,
)
    requires
        reach_host(s, target) is Some,
        no_duplicate_targets(a),
    ensures
        ({
            let s1 = with_host(
                s,
                target,
                HostObject::Reachability(
                    ReachabilityHost { callout: Some(callout), context, ..reach_host(s, target)->0 },
                ),
            );
            let a1 = awaiting_with(a, target);
            &&& awaiting_with(a1, target) == a1
            &&& a1.contains(target)
            &&& forall|i: int, j: int|
                0 <= i < a1.len() && 0 <= j < a1.len() && #[trigger] a1[i] == target && #[trigger] a1[j]
                    == target ==> i == j
            &&& callout_call(s1, target, claim) == Some(
                GuestCall::ReachabilityCallout {
                    callout,
                    target,
                    flags: reported_flags(claim),
                    context,
                },
            )
            &&& !Seq::<Id>::empty().contains(target)
            &&& awaiting_with(Seq::<Id>::empty(), target) == seq![target]
        }),
{
    lemma_one_callback_per_target(a, target);
    let a1 = awaiting_with(a, target);
    assert(a1.contains(target)) by {
        if !a.contains(target) {
            assert(a1[a.len() as int] == target);
        }
    }
    assert(awaiting_with(Seq::<Id>::empty(), target) =~= seq![target]);
}

} // verus!
