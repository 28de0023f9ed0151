use lib::cf_stream::{
    CFReadStreamClose,
    CFReadStreamCopyProperty,
    CFReadStreamCreateWithBytesNoCopy,
    CFReadStreamCreateWithFile,
    CFReadStreamGetBuffer,
    CFReadStreamGetError,
    CFReadStreamGetStatus,
    CFReadStreamHasBytesAvailable,
    CFReadStreamOpen,
    CFReadStreamRead,
    CFReadStreamRelease,
    CFReadStreamRetain,
    CFReadStreamScheduleWithRunLoop,
    CFReadStreamSetClient,
    CFReadStreamSetProperty,
    CFReadStreamUnscheduleFromRunLoop,
    CFStreamCreatePairWithPeerSocketSignature,
    CFStreamCreatePairWithSocket,
    CFStreamCreatePairWithSocketToCFHost,
    CFStreamCreatePairWithSocketToHost,
    CFWriteStreamCanAcceptBytes,
    CFWriteStreamClose,
    CFWriteStreamCopyProperty,
    CFWriteStreamCreateWithAllocatedBuffers,
    CFWriteStreamCreateWithFile,
    CFWriteStreamGetError,
    CFWriteStreamGetStatus,
    CFWriteStreamOpen,
    CFWriteStreamRelease,
    CFWriteStreamRetain,
    CFWriteStreamScheduleWithRunLoop,
    CFWriteStreamSetClient,
    CFWriteStreamSetProperty,
    CFWriteStreamUnscheduleFromRunLoop,
    CFWriteStreamWrite,
    ENETDOWN,
    ReadStreamHost,
    StreamClient,
    WriteStreamHost,
    alloc_network_read_stream,
    client_context_info,
    deliver_pending_events,
    kCFStreamErrorDomainCustom,
    kCFStreamErrorDomainPOSIX,
    kCFStreamEventCanAcceptBytes,
    kCFStreamEventEndEncountered,
    kCFStreamEventErrorOccurred,
    kCFStreamEventHasBytesAvailable,
    kCFStreamEventOpenCompleted,
    kCFStreamStatusAtEnd,
    kCFStreamStatusClosed,
    kCFStreamStatusError,
    kCFStreamStatusNotOpen,
    kCFStreamStatusOpen,
    next_read_stream_event,
    next_write_stream_event,
    packed_stream_error,
};
use lib::env::{Environment, Options};
use lib::objc::{GuestCall, GuestFunction, HostObject, NIL};

fn env() -> Environment {
    Environment::new(
        "iPhone1,2",
        134217728,
        42,
        0x10_0000,
        0x20_0000,
        Options { force_composition: false, claim_network_reachable: false },
    )
}

fn read_host(env: &Environment, id: u32) -> &ReadStreamHost {
    match &env.objc.get(id).unwrap().host {
        HostObject::ReadStream(h) => h,
        _ => panic!("not a read stream"),
    }
}

fn write_host(env: &Environment, id: u32) -> &WriteStreamHost {
    match &env.objc.get(id).unwrap().host {
        HostObject::WriteStream(h) => h,
        _ => panic!("not a write stream"),
    }
}

const CB: GuestFunction = GuestFunction { addr: 0x5001 };
const CTX: u32 = 0x1000;
const ALL_EVENTS: u32 = 31;

#[test]
fn packed_error_puts_domain_low_and_error_high() {
    assert_eq!(packed_stream_error(1, 50), (50u64 << 32) | 1);
    assert_eq!(packed_stream_error(-1, -1), u64::MAX);
}

#[test]
fn network_stream_errors_are_enetdown() {
    let mut e = env();
    let rs = alloc_network_read_stream(&mut e);
    assert_eq!(CFReadStreamGetError(&e, rs), packed_stream_error(kCFStreamErrorDomainPOSIX, ENETDOWN));
    let plain = CFReadStreamCreateWithFile(&mut e, NIL, NIL);
    assert_eq!(CFReadStreamGetError(&e, plain), packed_stream_error(kCFStreamErrorDomainCustom, -1));
    assert_eq!(CFReadStreamGetError(&e, NIL), packed_stream_error(kCFStreamErrorDomainCustom, -1));
}

#[test]
fn open_close_and_status() {
    let mut e = env();
    let rs = CFReadStreamCreateWithFile(&mut e, NIL, NIL);
    assert_eq!(CFReadStreamGetStatus(&e, rs), kCFStreamStatusNotOpen);
    assert!(CFReadStreamOpen(&mut e, rs));
    assert_eq!(CFReadStreamGetStatus(&e, rs), kCFStreamStatusOpen);
    CFReadStreamClose(&mut e, rs);
    assert_eq!(CFReadStreamGetStatus(&e, rs), kCFStreamStatusClosed);
    assert!(!CFReadStreamOpen(&mut e, NIL));
    assert_eq!(CFReadStreamGetStatus(&e, NIL), kCFStreamStatusError);
    let ws = CFWriteStreamCreateWithAllocatedBuffers(&mut e, NIL, NIL);
    assert!(!CFWriteStreamCanAcceptBytes(&e, ws));
    assert!(CFWriteStreamOpen(&mut e, ws));
    assert!(CFWriteStreamCanAcceptBytes(&e, ws));
    CFWriteStreamClose(&mut e, ws);
    assert_eq!(CFWriteStreamGetStatus(&e, ws), kCFStreamStatusClosed);
}

#[test]
fn read_copies_and_reaches_the_end() {
    let mut e = env();
    let rs = CFReadStreamCreateWithBytesNoCopy(&mut e, NIL, 0, 0, NIL);
    // Give the stream something to read.
    let mut h = match e.objc.replace_host(rs, HostObject::Plain) {
        HostObject::ReadStream(h) => h,
        _ => panic!(),
    };
    h.data = vec![10, 20, 30, 40, 50];
    e.objc.replace_host(rs, HostObject::ReadStream(h));
    assert_eq!(CFReadStreamRead(&mut e, rs, 0x2000, 3), -1);
    assert!(CFReadStreamOpen(&mut e, rs));
    assert!(CFReadStreamHasBytesAvailable(&e, rs));
    assert_eq!(CFReadStreamRead(&mut e, rs, 0x2000, 3), 3);
    assert_eq!(e.mem.read_bytes(0x2000, 3), vec![10, 20, 30]);
    assert_eq!(CFReadStreamGetStatus(&e, rs), kCFStreamStatusOpen);
    assert_eq!(CFReadStreamRead(&mut e, rs, 0x3000, 10), 2);
    assert_eq!(e.mem.read_bytes(0x3000, 3), vec![40, 50, 0]);
    assert_eq!(CFReadStreamGetStatus(&e, rs), kCFStreamStatusAtEnd);
    assert!(!CFReadStreamHasBytesAvailable(&e, rs));
    assert_eq!(CFReadStreamRead(&mut e, rs, 0x3000, 10), -1);
    assert_eq!(CFReadStreamRead(&mut e, rs, 0, 10), -1);
    assert_eq!(CFReadStreamRead(&mut e, rs, 0x3000, -1), -1);
}

#[test]
fn write_appends_guest_bytes() {
    let mut e = env();
    let ws = CFWriteStreamCreateWithFile(&mut e, NIL, NIL);
    e.mem.write_bytes(0x2000, &[1, 2, 3, 4]);
    assert_eq!(CFWriteStreamWrite(&mut e, ws, 0x2000, 4), -1);
    assert!(CFWriteStreamOpen(&mut e, ws));
    assert_eq!(CFWriteStreamWrite(&mut e, ws, 0x2000, 4), 4);
    assert_eq!(CFWriteStreamWrite(&mut e, ws, 0x2001, 2), 2);
    assert_eq!(write_host(&e, ws).data, vec![1, 2, 3, 4, 2, 3]);
    assert_eq!(CFWriteStreamWrite(&mut e, NIL, 0x2000, 4), -1);
}

#[test]
fn properties_are_stubs() {
    let mut e = env();
    let rs = alloc_network_read_stream(&mut e);
    assert_eq!(CFReadStreamCopyProperty(&e, rs, 7), NIL);
    assert!(!CFReadStreamSetProperty(&e, rs, 7, 8));
    assert_eq!(CFWriteStreamCopyProperty(&e, rs, 7), NIL);
    assert!(!CFWriteStreamSetProperty(&e, rs, 7, 8));
    assert_eq!(CFReadStreamGetBuffer(&e, rs, 10, 0x2000), 0);
}

#[test]
fn pair_with_socket_gives_nil_streams() {
    let mut e = env();
    e.mem.write_u32(0x2000, 99);
    e.mem.write_u32(0x2004, 99);
    CFStreamCreatePairWithSocket(&mut e, NIL, 3, 0x2000, 0x2004);
    assert_eq!(e.mem.read_u32(0x2000), 0);
    assert_eq!(e.mem.read_u32(0x2004), 0);
    e.mem.write_u32(0x2000, 99);
    CFStreamCreatePairWithPeerSocketSignature(&mut e, NIL, 0x3000, 0x2000, 0);
    assert_eq!(e.mem.read_u32(0x2000), 0);
}

#[test]
fn pair_with_host_gives_failing_network_streams() {
    let mut e = env();
    let (rs, ws) = CFStreamCreatePairWithSocketToHost(&mut e, NIL, NIL, 80, 0x2000, 0x2004);
    assert_eq!((rs, ws), (1, 2));
    assert_eq!(e.mem.read_u32(0x2000), rs);
    assert_eq!(e.mem.read_u32(0x2004), ws);
    assert!(read_host(&e, rs).network);
    assert!(write_host(&e, ws).network);
    let (rs2, ws2) = CFStreamCreatePairWithSocketToCFHost(&mut e, NIL, NIL, 80, 0, 0x2008);
    assert_eq!((rs2, ws2), (NIL, 3));
    assert_eq!(e.mem.read_u32(0x2008), 3);
}

#[test]
fn retain_then_release_keeps_the_stream() {
    let mut e = env();
    let rs = alloc_network_read_stream(&mut e);
    assert_eq!(CFReadStreamRetain(&mut e, rs), rs);
    assert_eq!(e.objc.get(rs).unwrap().refcount, 2);
    CFReadStreamRelease(&mut e, rs);
    assert_eq!(e.objc.get(rs).unwrap().refcount, 1);
    assert_eq!(CFReadStreamRetain(&mut e, NIL), NIL);
    CFReadStreamRelease(&mut e, NIL);
}

#[test]
fn releasing_a_scheduled_stream_forgets_it() {
    let mut e = env();
    let ws = CFWriteStreamCreateWithFile(&mut e, NIL, NIL);
    CFWriteStreamScheduleWithRunLoop(&mut e, ws, NIL, NIL);
    assert_eq!(e.scheduled_streams, vec![(ws, false)]);
    assert_eq!(CFWriteStreamRetain(&mut e, ws), ws);
    CFWriteStreamRelease(&mut e, ws);
    assert_eq!(e.scheduled_streams, vec![(ws, false)]);
    CFWriteStreamRelease(&mut e, ws);
    assert!(e.objc.get(ws).is_none());
    assert!(e.scheduled_streams.is_empty());
}

#[test]
fn scheduling_twice_lists_once_and_unscheduling_removes() {
    let mut e = env();
    let rs = alloc_network_read_stream(&mut e);
    CFReadStreamScheduleWithRunLoop(&mut e, rs, NIL, NIL);
    CFReadStreamScheduleWithRunLoop(&mut e, rs, NIL, NIL);
    assert_eq!(e.scheduled_streams, vec![(rs, true)]);
    assert!(read_host(&e, rs).scheduled);
    CFReadStreamUnscheduleFromRunLoop(&mut e, rs, NIL, NIL);
    assert!(e.scheduled_streams.is_empty());
    assert!(!read_host(&e, rs).scheduled);
}

#[test]
fn client_info_is_read_from_the_context() {
    let mut e = env();
    let rs = alloc_network_read_stream(&mut e);
    e.mem.write_u32(CTX + 4, 0xBEEF);
    assert!(CFReadStreamSetClient(&mut e, rs, ALL_EVENTS, CB, CTX));
    assert_eq!(read_host(&e, rs).client, Some(StreamClient { callback: CB, info: 0xBEEF, events: ALL_EVENTS }));
    assert_eq!(client_context_info(&e, 0), 0);
    assert!(!CFReadStreamSetClient(&mut e, NIL, ALL_EVENTS, CB, CTX));
}

#[test]
fn removing_the_client_forgets_the_stream() {
    let mut e = env();
    let ws = CFWriteStreamCreateWithFile(&mut e, NIL, NIL);
    CFWriteStreamScheduleWithRunLoop(&mut e, ws, NIL, NIL);
    assert!(CFWriteStreamSetClient(&mut e, ws, ALL_EVENTS, GuestFunction { addr: 1 }, 0));
    assert_eq!(write_host(&e, ws).client, None);
    assert!(e.scheduled_streams.is_empty());
}

fn run_events(e: &mut Environment) -> Vec<GuestCall> {
    let mut calls = Vec::new();
    let mut pending = deliver_pending_events(e);
    while let Some(call) = pending.step(e) {
        if let Some(c) = call {
            calls.push(c);
        }
    }
    calls
}

#[test]
fn network_read_stream_reports_one_error() {
    let mut e = env();
    let rs = alloc_network_read_stream(&mut e);
    assert!(CFReadStreamSetClient(&mut e, rs, ALL_EVENTS, CB, 0));
    CFReadStreamScheduleWithRunLoop(&mut e, rs, NIL, NIL);
    assert!(run_events(&mut e).is_empty());
    assert!(CFReadStreamOpen(&mut e, rs));
    let calls = run_events(&mut e);
    assert_eq!(
        calls,
        vec![GuestCall::StreamClient { callback: CB, stream: rs, event: kCFStreamEventErrorOccurred, info: 0 }]
    );
    assert_eq!(CFReadStreamGetStatus(&e, rs), kCFStreamStatusError);
    assert!(run_events(&mut e).is_empty());
}

#[test]
fn memory_read_stream_reports_open_then_end() {
    let mut e = env();
    let rs = CFReadStreamCreateWithFile(&mut e, NIL, NIL);
    assert!(CFReadStreamSetClient(&mut e, rs, ALL_EVENTS, CB, 0));
    CFReadStreamScheduleWithRunLoop(&mut e, rs, NIL, NIL);
    assert!(CFReadStreamOpen(&mut e, rs));
    let first = run_events(&mut e);
    assert_eq!(first, vec![GuestCall::StreamClient { callback: CB, stream: rs, event: kCFStreamEventOpenCompleted, info: 0 }]);
    let second = run_events(&mut e);
    assert_eq!(second, vec![GuestCall::StreamClient { callback: CB, stream: rs, event: kCFStreamEventEndEncountered, info: 0 }]);
    assert_eq!(CFReadStreamGetStatus(&e, rs), kCFStreamStatusAtEnd);
    assert!(run_events(&mut e).is_empty());
}

#[test]
fn write_stream_can_always_accept_and_unasked_events_are_recorded() {
    let mut e = env();
    let ws = CFWriteStreamCreateWithFile(&mut e, NIL, NIL);
    assert!(CFWriteStreamSetClient(&mut e, ws, kCFStreamEventCanAcceptBytes, CB, 0));
    CFWriteStreamScheduleWithRunLoop(&mut e, ws, NIL, NIL);
    assert!(CFWriteStreamOpen(&mut e, ws));
    assert!(run_events(&mut e).is_empty());
    assert_eq!(write_host(&e, ws).delivered, kCFStreamEventOpenCompleted);
    for _ in 0..2 {
        assert_eq!(
            run_events(&mut e),
            vec![GuestCall::StreamClient { callback: CB, stream: ws, event: kCFStreamEventCanAcceptBytes, info: 0 }]
        );
    }
}

#[test]
fn network_write_stream_reports_one_error() {
    let mut e = env();
    let (_, ws) = CFStreamCreatePairWithSocketToHost(&mut e, NIL, NIL, 80, 0, 0x2000);
    assert!(CFWriteStreamSetClient(&mut e, ws, ALL_EVENTS, CB, 0));
    CFWriteStreamScheduleWithRunLoop(&mut e, ws, NIL, NIL);
    assert!(CFWriteStreamOpen(&mut e, ws));
    assert_eq!(
        run_events(&mut e),
        vec![GuestCall::StreamClient { callback: CB, stream: ws, event: kCFStreamEventErrorOccurred, info: 0 }]
    );
    assert_eq!(CFWriteStreamGetStatus(&e, ws), kCFStreamStatusError);
    assert_eq!(CFWriteStreamGetError(&e, ws), packed_stream_error(kCFStreamErrorDomainPOSIX, ENETDOWN));
    assert!(run_events(&mut e).is_empty());
    CFWriteStreamUnscheduleFromRunLoop(&mut e, ws, NIL, NIL);
    assert!(e.scheduled_streams.is_empty());
}

#[test]
fn next_events_follow_the_protocol() {
    let h = ReadStreamHost {
        status: kCFStreamStatusOpen,
        offset: 0,
        data: vec![1],
        client: None,
        scheduled: true,
        network: false,
        delivered: kCFStreamEventOpenCompleted,
    };
    assert_eq!(next_read_stream_event(&h), Some(kCFStreamEventHasBytesAvailable));
    let w = WriteStreamHost {
        status: kCFStreamStatusNotOpen,
        data: vec![],
        client: None,
        scheduled: true,
        network: true,
        delivered: 0,
    };
    assert_eq!(next_write_stream_event(&w), None);
}

#[test]
fn memory_read_stream_with_bytes_says_available_until_read_to_the_end() {
    let mut e = env();
    let rs = CFReadStreamCreateWithBytesNoCopy(&mut e, NIL, 0, 0, NIL);
    let mut h = match e.objc.replace_host(rs, HostObject::Plain) {
        HostObject::ReadStream(h) => h,
        _ => panic!(),
    };
    h.data = vec![7, 8, 9];
    e.objc.replace_host(rs, HostObject::ReadStream(h));
    assert!(CFReadStreamSetClient(&mut e, rs, ALL_EVENTS, CB, 0));
    CFReadStreamScheduleWithRunLoop(&mut e, rs, NIL, NIL);
    assert!(CFReadStreamOpen(&mut e, rs));
    let told = |event| vec![GuestCall::StreamClient { callback: CB, stream: rs, event, info: 0 }];
    assert_eq!(run_events(&mut e), told(kCFStreamEventOpenCompleted));
    for _ in 0..3 {
        assert_eq!(run_events(&mut e), told(kCFStreamEventHasBytesAvailable));
        assert_eq!(CFReadStreamGetStatus(&e, rs), kCFStreamStatusOpen);
    }
    assert_eq!(CFReadStreamRead(&mut e, rs, 0x2000, 16), 3);
    assert_eq!(run_events(&mut e), told(kCFStreamEventEndEncountered));
    assert_eq!(CFReadStreamGetStatus(&e, rs), kCFStreamStatusAtEnd);
    assert!(run_events(&mut e).is_empty());
    assert!(run_events(&mut e).is_empty());
}

#[test]
fn network_read_stream_error_carries_the_context_info() {
    let mut e = env();
    e.mem.write_u32(CTX + 4, 0xCAFE);
    let rs = alloc_network_read_stream(&mut e);
    assert!(CFReadStreamSetClient(&mut e, rs, kCFStreamEventErrorOccurred, CB, CTX));
    CFReadStreamScheduleWithRunLoop(&mut e, rs, NIL, NIL);
    assert!(CFReadStreamOpen(&mut e, rs));
    assert_eq!(CFReadStreamGetStatus(&e, rs), kCFStreamStatusOpen);
    assert_eq!(
        run_events(&mut e),
        vec![GuestCall::StreamClient { callback: CB, stream: rs, event: kCFStreamEventErrorOccurred, info: 0xCAFE }]
    );
    assert_eq!(CFReadStreamGetStatus(&e, rs), kCFStreamStatusError);
    assert!(run_events(&mut e).is_empty());
}
