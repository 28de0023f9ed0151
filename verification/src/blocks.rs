//! The Blocks runtime: the copy and dispose helpers compiled into blocks
//! that capture objects, and what host code needs to keep or call a block.
//!
//! A block is not duplicated when copied: a copy is the same block, as it
//! is for a global block. What the helpers do get right is the reference
//! counting of the objects a block captures.
#![allow(non_snake_case)]

use crate::env::{release, retain, Environment};
use crate::mem::{bytes_at, le_bytes_u32, le_u32, valid_range, write_spec};
use crate::objc::{entry, is_live, GuestCall, GuestFunction, Id, NIL};
use vstd::prelude::*;

verus! {

/// `BLOCK_FIELD_IS_*`: what a captured value is.
pub const BLOCK_FIELD_IS_OBJECT: i32 = 3;
pub const BLOCK_FIELD_IS_BLOCK: i32 = 7;
pub const BLOCK_FIELD_IS_BYREF: i32 = 8;
pub const BLOCK_FIELD_IS_WEAK: i32 = 16;
#[allow(dead_code)]
pub const BLOCK_BYREF_CALLER: i32 = 128;

/// Word offset of a block literal's `invoke` pointer: the layout is
/// `{ isa, flags, reserved, invoke, descriptor, ... }`, one word each.
pub const BLOCK_INVOKE_WORD_OFFSET: u32 = 3;

/// Whether a captured value described by `flags` holds a reference: an
/// object or a block, not captured `__weak`. `__block` storage is managed
/// by its caller.
pub open spec fn holds_reference(flags: i32) -> bool {
    &&& flags & BLOCK_FIELD_IS_WEAK == 0
    &&& (flags & 0xFF & !BLOCK_FIELD_IS_WEAK == BLOCK_FIELD_IS_OBJECT || flags & 0xFF
        & !BLOCK_FIELD_IS_WEAK == BLOCK_FIELD_IS_BLOCK)
}

fn holds_ref(flags: i32) -> (r: bool)
    ensures
        r == holds_reference(flags),
{
    if flags & BLOCK_FIELD_IS_WEAK != 0 {
        return false;
    }
    let kind = flags & 0xFF & !BLOCK_FIELD_IS_WEAK;
    kind == BLOCK_FIELD_IS_OBJECT || kind == BLOCK_FIELD_IS_BLOCK
}

/// `_Block_copy`: the same block.
pub fn _Block_copy(_env: &mut Environment, block: u32) -> (r: u32)
    ensures
        r == block,
        *final(_env) == *old(_env),
{
    block
}

/// `_Block_release`: nothing was copied, so nothing is released.
pub fn _Block_release(_env: &mut Environment, _block: u32)
    ensures
        *final(_env) == *old(_env),
{
}

/// `_Block_object_assign(destAddr, object, flags)`: store `object` at
/// `dest_addr`, taking a reference to it when it is a captured object or
/// block.
pub fn _Block_object_assign(env: &mut Environment, dest_addr: u32, object: u32, flags: i32)
    requires
        valid_range(dest_addr as int, 4),
        holds_reference(flags) && object != NIL ==> is_live(old(env).objc@, object) && entry(
            old(env).objc@,
            object,
        ).refcount < 0xFFFF_FFFF,
    ensures
        final(env).mem@ == write_spec(old(env).mem@, dest_addr as int, le_bytes_u32(object)),
        crate::mem::same_heap(old(env).mem, final(env).mem),
        holds_reference(flags) && object != NIL ==> final(env).objc@ == crate::objc::with_refcount(
            old(env).objc@,
            object,
            (entry(old(env).objc@, object).refcount + 1) as u32,
        ),
        !(holds_reference(flags) && object != NIL) ==> final(env).objc@ == old(env).objc@,
        *final(env) == (Environment { mem: final(env).mem, objc: final(env).objc, ..*old(env) }),
{
    if holds_ref(flags) {
        retain(env, object);
    }
    env.mem.write_u32(dest_addr, object);
}

/// `_Block_object_dispose(object, flags)`: give up the reference
/// `_Block_object_assign` took.
pub fn _Block_object_dispose(env: &mut Environment, object: u32, flags: i32)
    requires
        holds_reference(flags) && object != NIL ==> is_live(old(env).objc@, object),
    ensures
        !(holds_reference(flags) && object != NIL) ==> *final(env) == *old(env),
        holds_reference(flags) && object != NIL ==> {
            &&& final(env).objc@ == crate::objc::released(old(env).objc@, object)
            &&& final(env).scheduled_streams@ == if entry(old(env).objc@, object).refcount <= 1
                && crate::env::is_stream_host(entry(old(env).objc@, object).host) {
                crate::cf_stream::without_stream(old(env).scheduled_streams@, object)
            } else {
                old(env).scheduled_streams@
            }
            &&& *final(env) == (Environment {
                objc: final(env).objc,
                scheduled_streams: final(env).scheduled_streams,
                ..*old(env)
            })
        },
{
    if holds_ref(flags) {
        release(env, object);
    }
}

/// The `invoke` pointer of the block at `block`.
pub open spec fn invoke_addr(m: Map<u32, u8>, block: Id) -> u32 {
    le_u32(bytes_at(m, block + BLOCK_INVOKE_WORD_OFFSET * 4, 4))
}

/// The function a block calls: none for `nil`, or for a block whose
/// `invoke` is zero, which is what a stack block that was never copied and
/// has gone out of scope looks like.
pub open spec fn block_function(m: Map<u32, u8>, block: Id) -> Option<GuestFunction> {
    if block == NIL || invoke_addr(m, block) == 0 {
        None
    } else {
        Some(GuestFunction { addr: invoke_addr(m, block) })
    }
}

/// Read a block's `invoke` function pointer.
pub fn block_invoke(env: &Environment, block: Id) -> (r: Option<GuestFunction>)
    requires
        block != NIL ==> valid_range(block + BLOCK_INVOKE_WORD_OFFSET * 4, 4),
    ensures
        r == block_function(env.mem@, block),
{
    if block == NIL {
        return None;
    }
    let invoke_addr: u32 = env.mem.read_u32(block + BLOCK_INVOKE_WORD_OFFSET * 4);
    if invoke_addr == 0 {
        return None;
    }
    Some(GuestFunction::from_addr_with_thumb_bit(invoke_addr))
}

/// Call a block of type `void (^)(void)`: its `invoke` function, with the
/// block as the argument. Nothing to call gives nothing to do.
pub fn invoke_void_block(env: &mut Environment, block: Id) -> (r: Option<GuestCall>)
    requires
        block != NIL ==> valid_range(block + BLOCK_INVOKE_WORD_OFFSET * 4, 4),
    ensures
        *final(env) == *old(env),
        block_function(old(env).mem@, block) is None ==> r is None,
        block_function(old(env).mem@, block) is Some ==> r == Some(
            GuestCall::VoidBlock { invoke: block_function(old(env).mem@, block)->0, block },
        ),
{
    match block_invoke(env, block) {
        Some(invoke) => Some(GuestCall::VoidBlock { invoke, block }),
        None => None,
    }
}

/// `Block_copy()` for host code that keeps a block past the call it was
/// handed to; pass the result to [block_release] when done with it.
pub fn block_copy(env: &mut Environment, block: Id) -> (r: Id)
    ensures
        r == block,
        *final(env) == *old(env),
{
    if block == NIL {
        return NIL;
    }
    _Block_copy(env, block)
}

/// `Block_release()`, pairing with [block_copy].
pub fn block_release(env: &mut Environment, block: Id)
    ensures
        *final(env) == *old(env),
{
    if block == NIL {
        return ;
    }
    _Block_release(env, block);
}

} // verus!
