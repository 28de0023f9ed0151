use lib::env::{Environment, Options};
use lib::objc::{GuestCall, GuestFunction, HostObject, NIL};
use lib::sc_network_reachability::{
    SCNetworkReachabilityCreateWithAddress,
    SCNetworkReachabilityCreateWithAddressPair,
    SCNetworkReachabilityCreateWithName,
    SCNetworkReachabilityGetFlags,
    SCNetworkReachabilityRelease,
    SCNetworkReachabilityRetain,
    SCNetworkReachabilityScheduleWithRunLoop,
    SCNetworkReachabilitySetCallback,
    SCNetworkReachabilitySetDispatchQueue,
    SCNetworkReachabilityUnscheduleFromRunLoop,
    deliver_pending_callbacks,
    kSCNetworkReachabilityFlagsReachable,
};

fn env(claim: bool) -> Environment {
    Environment::new(
        "iPhone1,2",
        134217728,
        42,
        0x10_0000,
        0x20_0000,
        Options { force_composition: false, claim_network_reachable: claim },
    )
}

fn calls(e: &mut Environment) -> Vec<GuestCall> {
    let mut out = Vec::new();
    let mut p = deliver_pending_callbacks(e);
    while let Some(c) = p.step(e) {
        if let Some(c) = c {
            out.push(c);
        }
    }
    out
}

const CB: GuestFunction = GuestFunction { addr: 0x6001 };

#[test]
fn flags_say_unreachable_unless_claimed() {
    let mut e = env(false);
    e.mem.write_u32(0x2000, 99);
    assert!(SCNetworkReachabilityGetFlags(&mut e, NIL, 0x2000));
    assert_eq!(e.mem.read_u32(0x2000), 0);
    let mut e = env(true);
    assert!(SCNetworkReachabilityGetFlags(&mut e, NIL, 0x2000));
    assert_eq!(e.mem.read_u32(0x2000), kSCNetworkReachabilityFlagsReachable);
}

#[test]
fn create_with_name_keeps_the_name() {
    let mut e = env(false);
    e.mem.write_bytes(0x2000, b"example.com\0");
    let t = SCNetworkReachabilityCreateWithName(&mut e, NIL, 0x2000);
    match &e.objc.get(t).unwrap().host {
        HostObject::Reachability(h) => assert_eq!(h.name, Some(b"example.com".to_vec())),
        _ => panic!(),
    }
    e.mem.write_bytes(0x3000, &[0xFF, 0xFE, 0]);
    let t2 = SCNetworkReachabilityCreateWithName(&mut e, NIL, 0x3000);
    match &e.objc.get(t2).unwrap().host {
        HostObject::Reachability(h) => assert_eq!(h.name, Some(Vec::new())),
        _ => panic!(),
    }
    let t3 = SCNetworkReachabilityCreateWithAddress(&mut e, NIL, 0x4000);
    let t4 = SCNetworkReachabilityCreateWithAddressPair(&mut e, NIL, 0x4000, 0x5000);
    assert_eq!((t, t2, t3, t4), (1, 2, 3, 4));
}

#[test]
fn scheduled_target_is_told_once() {
    let mut e = env(false);
    let t = SCNetworkReachabilityCreateWithAddress(&mut e, NIL, 0x4000);
    assert!(SCNetworkReachabilitySetCallback(&mut e, t, CB, 0x77));
    assert!(SCNetworkReachabilityScheduleWithRunLoop(&mut e, t, NIL, NIL));
    assert!(SCNetworkReachabilityScheduleWithRunLoop(&mut e, t, NIL, NIL));
    assert_eq!(
        calls(&mut e),
        vec![GuestCall::ReachabilityCallout { callout: CB, target: t, flags: 0, context: 0x77 }]
    );
    assert!(calls(&mut e).is_empty());
}

#[test]
fn claimed_reachability_is_told_as_reachable() {
    let mut e = env(true);
    let t = SCNetworkReachabilityCreateWithAddress(&mut e, NIL, 0x4000);
    assert!(SCNetworkReachabilitySetCallback(&mut e, t, CB, 0));
    assert!(SCNetworkReachabilitySetDispatchQueue(&mut e, t, 0x9000));
    assert_eq!(
        calls(&mut e),
        vec![GuestCall::ReachabilityCallout { callout: CB, target: t, flags: 2, context: 0 }]
    );
}

#[test]
fn unscheduled_or_calloutless_targets_get_nothing() {
    let mut e = env(false);
    let t = SCNetworkReachabilityCreateWithAddress(&mut e, NIL, 0x4000);
    assert!(SCNetworkReachabilityScheduleWithRunLoop(&mut e, t, NIL, NIL));
    assert!(calls(&mut e).is_empty());
    assert!(SCNetworkReachabilitySetCallback(&mut e, t, CB, 0));
    assert!(SCNetworkReachabilityScheduleWithRunLoop(&mut e, t, NIL, NIL));
    assert!(SCNetworkReachabilityUnscheduleFromRunLoop(&mut e, t, NIL, NIL));
    assert!(calls(&mut e).is_empty());
    assert!(SCNetworkReachabilitySetDispatchQueue(&mut e, t, 0x9000));
    assert!(SCNetworkReachabilitySetDispatchQueue(&mut e, t, 0));
    assert!(e.awaiting_first_callback.is_empty());
}

#[test]
fn retain_and_release_targets() {
    let mut e = env(false);
    let t = SCNetworkReachabilityCreateWithAddress(&mut e, NIL, 0x4000);
    assert_eq!(SCNetworkReachabilityRetain(&mut e, t), t);
    assert_eq!(e.objc.get(t).unwrap().refcount, 2);
    SCNetworkReachabilityRelease(&mut e, t);
    SCNetworkReachabilityRelease(&mut e, t);
    assert!(e.objc.get(t).is_none());
    assert_eq!(SCNetworkReachabilityRetain(&mut e, NIL), NIL);
}

#[test]
fn rescheduled_target_is_told_again_once() {
    let mut e = env(false);
    let t = SCNetworkReachabilityCreateWithAddress(&mut e, NIL, 0x4000);
    assert!(SCNetworkReachabilitySetCallback(&mut e, t, CB, 0x55));
    assert!(SCNetworkReachabilitySetDispatchQueue(&mut e, t, 0x9000));
    assert!(SCNetworkReachabilityScheduleWithRunLoop(&mut e, t, NIL, NIL));
    assert_eq!(e.awaiting_first_callback, vec![t]);
    let once = vec![GuestCall::ReachabilityCallout { callout: CB, target: t, flags: 0, context: 0x55 }];
    assert_eq!(calls(&mut e), once);
    assert!(calls(&mut e).is_empty());
    assert!(SCNetworkReachabilityScheduleWithRunLoop(&mut e, t, NIL, NIL));
    assert_eq!(calls(&mut e), once);
    assert!(calls(&mut e).is_empty());
}
