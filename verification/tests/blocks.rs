use lib::blocks::{
    BLOCK_FIELD_IS_BLOCK,
    BLOCK_FIELD_IS_BYREF,
    BLOCK_FIELD_IS_OBJECT,
    BLOCK_FIELD_IS_WEAK,
    _Block_copy,
    _Block_object_assign,
    _Block_object_dispose,
    block_copy,
    block_invoke,
    block_release,
    invoke_void_block,
};
use lib::env::{Environment, Options};
use lib::objc::{GuestCall, GuestFunction, HostObject, NIL};

fn env() -> Environment {
    Environment::new(
        "iPhone1,2",
        134217728,
        42,
        0x10_0000,
        0x20_0000,
        Options { force_composition: false, claim_network_reachable: false },
    )
}

#[test]
fn block_invoke_reads_the_fourth_word() {
    let mut e = env();
    e.mem.write_u32(0x2000 + 12, 0x4001);
    assert_eq!(block_invoke(&e, 0x2000), Some(GuestFunction { addr: 0x4001 }));
    assert_eq!(block_invoke(&e, 0x3000), None);
    assert_eq!(block_invoke(&e, NIL), None);
    assert_eq!(
        invoke_void_block(&mut e, 0x2000),
        Some(GuestCall::VoidBlock { invoke: GuestFunction { addr: 0x4001 }, block: 0x2000 })
    );
    assert_eq!(invoke_void_block(&mut e, NIL), None);
}

#[test]
fn copy_is_the_same_block() {
    let mut e = env();
    assert_eq!(block_copy(&mut e, 0x2000), 0x2000);
    assert_eq!(block_copy(&mut e, NIL), NIL);
    block_release(&mut e, 0x2000);
    assert_eq!(_Block_copy(&mut e, 0x2000), 0x2000);
}

#[test]
fn object_assign_retains_objects_but_not_weak_ones() {
    let mut e = env();
    let obj = e.objc.alloc_object(HostObject::Plain);
    _Block_object_assign(&mut e, 0x3000, obj, BLOCK_FIELD_IS_OBJECT);
    assert_eq!(e.mem.read_u32(0x3000), obj);
    assert_eq!(e.objc.get(obj).unwrap().refcount, 2);
    _Block_object_assign(&mut e, 0x3004, obj, BLOCK_FIELD_IS_OBJECT | BLOCK_FIELD_IS_WEAK);
    assert_eq!(e.mem.read_u32(0x3004), obj);
    assert_eq!(e.objc.get(obj).unwrap().refcount, 2);
    _Block_object_assign(&mut e, 0x3008, obj, BLOCK_FIELD_IS_BYREF);
    assert_eq!(e.objc.get(obj).unwrap().refcount, 2);
    _Block_object_dispose(&mut e, obj, BLOCK_FIELD_IS_WEAK);
    assert_eq!(e.objc.get(obj).unwrap().refcount, 2);
    _Block_object_dispose(&mut e, obj, BLOCK_FIELD_IS_BLOCK);
    assert_eq!(e.objc.get(obj).unwrap().refcount, 1);
    _Block_object_dispose(&mut e, obj, BLOCK_FIELD_IS_OBJECT);
    assert!(e.objc.get(obj).is_none());
}
