//! Raw Darwin system calls, `svc #0x80`, issued by apps that skip libc.
//!
//! The syscall number is in `r12`, the arguments where a normal call puts
//! them (`r0`-`r3`, then the stack), and the result comes back in `r0`, with
//! the carry flag set when it is an `errno` rather than a value. Each call is
//! the same host function the linked entry point uses.

use crate::env::{Cpu, Environment};
use crate::mem::{bytes_at, le_u32, valid_range};
use crate::sysctl::{in_guest_range, sysctl, sysctl_args_ok, sysctl_ok, sysctl_result};
use vstd::prelude::*;

verus! {

/// `svc #0x80`, the instruction Darwin uses for a system call.
pub const DARWIN_SYSCALL_SVC: u32 = 0x80;

// Numbers from XNU's `bsd/kern/syscalls.master`.
pub const SYS_EXIT: u32 = 1;
pub const SYS_READ: u32 = 3;
pub const SYS_WRITE: u32 = 4;
pub const SYS_OPEN: u32 = 5;
pub const SYS_CLOSE: u32 = 6;
pub const SYS_GETPID: u32 = 20;
pub const SYS_GETUID: u32 = 24;
pub const SYS_GETEUID: u32 = 25;
pub const SYS_PTRACE: u32 = 26;
pub const SYS_ACCESS: u32 = 33;
pub const SYS_GETPPID: u32 = 39;
pub const SYS_GETGID: u32 = 47;
pub const SYS_GETTIMEOFDAY: u32 = 116;
pub const SYS_SYSCTL: u32 = 202;
pub const SYS_ISSETUGID: u32 = 327;

/// `ENOSYS`: no such system call.
pub const ENOSYS: i32 = 78;

/// The CPSR carry flag, set when `r0` holds an `errno`.
pub const CPSR_CARRY: u32 = 0x2000_0000;

/// The stack pointer's register.
pub const SP: usize = 13;

/// The uid and gid of a sandboxed app on a device that is not jailbroken.
pub const MOBILE_UID: i32 = 501;

/// launchd's pid: the parent of every app.
pub const LAUNCHD_PID: i32 = 1;

/// A system call that is host I/O or ends the process. The caller makes it
/// with these arguments and hands the libc-style result to [finish_libc];
/// `Exit` does not come back.
#[derive(Clone, Copy, Debug, PartialEq, Eq, Structural)]
pub enum HostCall {
    Open { path: u32, flags: i32 },
    Close { fd: i32 },
    Read { fd: i32, buffer: u32, count: u32 },
    Write { fd: i32, buffer: u32, count: u32 },
    Access { path: u32, mode: i32 },
    GetTimeOfDay { tp: u32, tzp: u32 },
    Ptrace { request: i32, pid: i32, addr: u32, data: i32 },
    Exit { status: i32 },
}

/// What handling a system call came to.
#[derive(Clone, Copy, Debug, PartialEq, Eq, Structural)]
pub enum SyscallAction {
    /// The result is in the registers.
    Finished,
    /// Not implemented: failed with `ENOSYS`. `first_report` says whether
    /// this site has not been reported before.
    Unimplemented { number: u32, first_report: bool },
    /// A call for the caller to make.
    Host(HostCall),
}

/// The registers and the CPSR.
pub open spec fn cpu_state(cpu: Cpu) -> (Seq<u32>, u32) {
    (cpu.regs@, cpu.cpsr)
}

/// The registers after returning `result`: in `r0`, carry clear.
pub open spec fn finished_cpu(cpu: Cpu, result: i32) -> (Seq<u32>, u32) {
    (cpu.regs@.update(0, result as u32), cpu.cpsr & !CPSR_CARRY)
}

/// The registers after reporting `errno`: in `r0`, carry set.
pub open spec fn failed_cpu(cpu: Cpu, errno: i32) -> (Seq<u32>, u32) {
    (cpu.regs@.update(0, errno as u32), cpu.cpsr | CPSR_CARRY)
}

/// A libc-style result in the kernel's terms: -1 means the `errno` goes in
/// `r0` with the carry set.
pub open spec fn libc_finished_cpu(cpu: Cpu, result: i32, errno: i32) -> (Seq<u32>, u32) {
    if result == -1 {
        failed_cpu(cpu, errno)
    } else {
        finished_cpu(cpu, result)
    }
}

/// Only the registers have changed.
pub open spec fn only_cpu_changed(a: Environment, b: Environment) -> bool {
    b == (Environment { cpu: b.cpu, ..a })
}

/// Return a result: `r0` holds it, and the carry flag is clear.
pub fn finish(env: &mut Environment, result: i32)
    ensures
        cpu_state(final(env).cpu) == finished_cpu(old(env).cpu, result),
        only_cpu_changed(*old(env), *final(env)),
{
    env.cpu.regs[0] = result as u32;
    env.cpu.cpsr = env.cpu.cpsr & !CPSR_CARRY;
    assert(env.cpu.regs@ =~= old(env).cpu.regs@.update(0, result as u32));
}

/// Report failure: `r0` holds the `errno`, and the carry flag is set.
pub fn fail(env: &mut Environment, errno: i32)
    ensures
        cpu_state(final(env).cpu) == failed_cpu(old(env).cpu, errno),
        only_cpu_changed(*old(env), *final(env)),
{
    env.cpu.regs[0] = errno as u32;
    env.cpu.cpsr = env.cpu.cpsr | CPSR_CARRY;
    assert(env.cpu.regs@ =~= old(env).cpu.regs@.update(0, errno as u32));
}

/// Finish a call whose host implementation reports failure the way libc
/// does, -1 with the reason in `errno`, the way the kernel does instead.
pub fn finish_libc(env: &mut Environment, result: i32)
    ensures
        cpu_state(final(env).cpu) == libc_finished_cpu(old(env).cpu, result, old(env).errno),
        only_cpu_changed(*old(env), *final(env)),
{
    if result == -1 {
        let errno = env.get_errno();
        fail(env, errno);
    } else {
        finish(env, result);
    }
}

/// The address of stack argument `n` (counting from 0 for `r0`), for
/// `n >= 4`: they sit just above the stack pointer, in order.
pub open spec fn stack_arg_addr(regs: Seq<u32>, n: int) -> int {
    regs[SP as int] + (n - 4) * 4
}

/// Argument `n` of a system call.
pub open spec fn syscall_arg(m: Map<u32, u8>, regs: Seq<u32>, n: int) -> u32 {
    if n < 4 {
        regs[n]
    } else {
        le_u32(bytes_at(m, stack_arg_addr(regs, n), 4))
    }
}

/// The `n`th argument of a system call.
pub fn arg(env: &Environment, regs: &[u32; 16], n: usize) -> (r: u32)
    requires
        n < 16,
        n >= 4 ==> valid_range(stack_arg_addr(regs@, n as int), 4),
    ensures
        r == syscall_arg(env.mem@, regs@, n as int),
{
    if n < 4 {
        regs[n]
    } else {
        let sp = regs[SP];
        env.mem.read_u32(sp + ((n - 4) as u32) * 4)
    }
}

/// Whether site `(pc, number)` is reported for the first time, which
/// remembers it: a guest asking in a loop cannot fill the log.
pub fn log_unimplemented(env: &mut Environment, svc_pc: u32, number: u32) -> (r: bool)
    ensures
        r == !old(env).reported_syscalls@.contains((svc_pc, number)),
        final(env).reported_syscalls@ == if r {
            old(env).reported_syscalls@.push((svc_pc, number))
        } else {
            old(env).reported_syscalls@
        },
        *final(env) == (Environment { reported_syscalls: final(env).reported_syscalls, ..*old(env) }),
{
    let n = env.reported_syscalls.len();
    let mut i: usize = 0;
    while i < n
        invariant
            n == env.reported_syscalls@.len(),
            i <= n,
            forall|j: int| 0 <= j < i ==> env.reported_syscalls@[j] != (svc_pc, number),
        decreases n - i,
    {
        let e = env.reported_syscalls[i];
        if e.0 == svc_pc && e.1 == number {
            assert(env.reported_syscalls@[i as int] == (svc_pc, number));
            return false;
        }
        i = i + 1;
    }
    env.reported_syscalls.push((svc_pc, number));
    true
}

/// The host call that system call `number` is, given the registers.
pub open spec fn host_call_for(regs: Seq<u32>, number: u32) -> Option<HostCall> {
    if number == SYS_OPEN {
        Some(HostCall::Open { path: regs[0], flags: regs[1] as i32 })
    } else if number == SYS_CLOSE {
        Some(HostCall::Close { fd: regs[0] as i32 })
    } else if number == SYS_READ {
        Some(HostCall::Read { fd: regs[0] as i32, buffer: regs[1], count: regs[2] })
    } else if number == SYS_WRITE {
        Some(HostCall::Write { fd: regs[0] as i32, buffer: regs[1], count: regs[2] })
    } else if number == SYS_ACCESS {
        Some(HostCall::Access { path: regs[0], mode: regs[1] as i32 })
    } else if number == SYS_GETTIMEOFDAY {
        Some(HostCall::GetTimeOfDay { tp: regs[0], tzp: regs[1] })
    } else if number == SYS_PTRACE {
        Some(HostCall::Ptrace { request: regs[0] as i32, pid: regs[1] as i32, addr: regs[2], data: regs[3] as i32 })
    } else if number == SYS_EXIT {
        Some(HostCall::Exit { status: regs[0] as i32 })
    } else {
        None
    }
}

/// The value a system call answered by the host alone returns: the pid;
/// launchd's as the parent; uid and gid 501, as for an app in its sandbox;
/// and not setuid.
pub open spec fn own_answer(env: Environment, number: u32) -> Option<i32> {
    if number == SYS_GETPID {
        Some(env.pid)
    } else if number == SYS_GETPPID {
        Some(LAUNCHD_PID)
    } else if number == SYS_GETUID || number == SYS_GETEUID || number == SYS_GETGID {
        Some(MOBILE_UID)
    } else if number == SYS_ISSETUGID {
        Some(0i32)
    } else {
        None
    }
}

/// The arguments of a `__sysctl` issued as a raw system call can be read,
/// and the memory it touches is there to touch.
pub open spec fn raw_sysctl_ok(env: Environment) -> bool {
    let regs = env.cpu.regs@;
    let m = env.mem@;
    &&& valid_range(stack_arg_addr(regs, 4), 8)
    &&& sysctl_ok(env, regs[0], regs[1], regs[2], regs[3], syscall_arg(m, regs, 4), syscall_arg(m, regs, 5))
}

/// What a raw `__sysctl` leaves behind.
pub open spec fn raw_sysctl_result(env: Environment) -> (i32, i32, Map<u32, u8>) {
    let regs = env.cpu.regs@;
    let m = env.mem@;
    sysctl_result(env, regs[0], regs[1], regs[2], regs[3], syscall_arg(m, regs, 4), syscall_arg(m, regs, 5))
}

/// Whether the memory a raw `__sysctl` asks about is there to touch, which
/// must be made sure of before [handle_darwin_syscall] performs one.
pub fn raw_sysctl_args_ok(env: &Environment) -> (r: bool)
    requires
        env.wf(),
    ensures
        r == raw_sysctl_ok(*env),
{
    let regs = env.cpu.regs;
    if !in_guest_range(regs[SP], 8) {
        return false;
    }
    let newp = arg(env, &regs, 4);
    let newlen = arg(env, &regs, 5);
    sysctl_args_ok(env, regs[0], regs[1], regs[2], regs[3], newp, newlen)
}

/// Perform the system call the guest asked for with `svc #0x80` at
/// `svc_pc`. The program counter is already past the instruction.
pub fn handle_darwin_syscall(env: &mut Environment, svc_pc: u32) -> (r: SyscallAction)
    requires
        old(env).wf(),
        old(env).cpu.regs@[12] == SYS_SYSCTL ==> raw_sysctl_ok(*old(env)),
    ensures
        final(env).wf(),
        ({
            let regs = old(env).cpu.regs@;
            let number = regs[12];
            if number == SYS_SYSCTL {
                let (res, errno, m) = raw_sysctl_result(*old(env));
                &&& r == SyscallAction::Finished
                &&& final(env).mem@ == m
                &&& final(env).errno == errno
                &&& cpu_state(final(env).cpu) == libc_finished_cpu(old(env).cpu, res, errno)
                &&& *final(env) == (Environment { cpu: final(env).cpu, mem: final(env).mem, errno: final(env).errno, ..*old(env) })
                &&& crate::mem::same_heap(old(env).mem, final(env).mem)
            } else if host_call_for(regs, number) is Some {
                &&& r == SyscallAction::Host(host_call_for(regs, number)->0)
                &&& *final(env) == *old(env)
            } else if own_answer(*old(env), number) is Some {
                &&& r == SyscallAction::Finished
                &&& cpu_state(final(env).cpu) == finished_cpu(old(env).cpu, own_answer(*old(env), number)->0)
                &&& only_cpu_changed(*old(env), *final(env))
            } else {
                let first = !old(env).reported_syscalls@.contains((svc_pc, number));
                &&& r == (SyscallAction::Unimplemented { number, first_report: first })
                &&& final(env).reported_syscalls@ == if first {
                    old(env).reported_syscalls@.push((svc_pc, number))
                } else {
                    old(env).reported_syscalls@
                }
                &&& cpu_state(final(env).cpu) == failed_cpu(old(env).cpu, ENOSYS)
                &&& *final(env) == (Environment { cpu: final(env).cpu, reported_syscalls: final(env).reported_syscalls, ..*old(env) })
            }
        }),
{
    let regs = env.cpu.regs;
    let number = regs[12];
    if number == SYS_SYSCTL {
        let newp = arg(env, &regs, 4);
        let newlen = arg(env, &regs, 5);
        let result = sysctl(env, regs[0], regs[1], regs[2], regs[3], newp, newlen);
        finish_libc(env, result);
        return SyscallAction::Finished;
    }
    if number == SYS_OPEN {
        return SyscallAction::Host(HostCall::Open { path: regs[0], flags: regs[1] as i32 });
    }
    if number == SYS_CLOSE {
        return SyscallAction::Host(HostCall::Close { fd: regs[0] as i32 });
    }
    if number == SYS_READ {
        return SyscallAction::Host(HostCall::Read { fd: regs[0] as i32, buffer: regs[1], count: regs[2] });
    }
    if number == SYS_WRITE {
        return SyscallAction::Host(HostCall::Write { fd: regs[0] as i32, buffer: regs[1], count: regs[2] });
    }
    if number == SYS_ACCESS {
        return SyscallAction::Host(HostCall::Access { path: regs[0], mode: regs[1] as i32 });
    }
    if number == SYS_GETTIMEOFDAY {
        return SyscallAction::Host(HostCall::GetTimeOfDay { tp: regs[0], tzp: regs[1] });
    }
    if number == SYS_PTRACE {
        return SyscallAction::Host(
            HostCall::Ptrace {
                request: regs[0] as i32,
                pid: regs[1] as i32,
                addr: regs[2],
                data: regs[3] as i32,
            },
        );
    }
    if number == SYS_EXIT {
        return SyscallAction::Host(HostCall::Exit { status: regs[0] as i32 });
    }
    if number == SYS_GETPID {
        let pid = env.pid;
        finish(env, pid);
        return SyscallAction::Finished;
    }
    if number == SYS_GETPPID {
        finish(env, LAUNCHD_PID);
        return SyscallAction::Finished;
    }
    if number == SYS_GETUID || number == SYS_GETEUID || number == SYS_GETGID {
        finish(env, MOBILE_UID);
        return SyscallAction::Finished;
    }
    if number == SYS_ISSETUGID {
        finish(env, 0);
        return SyscallAction::Finished;
    }
    let first_report = log_unimplemented(env, svc_pc, number);
    fail(env, ENOSYS);
    SyscallAction::Unimplemented { number, first_report }
}

/// Each raw system call that is host work is handed back as the host call
/// of the same name, with its arguments from the registers where the ARM
/// calling convention puts them: read is number 3, write 4, open 5, close 6,
/// access 33, gettimeofday 116, ptrace 26 and exit 1. No other number is
/// any of these calls.
pub proof fn lemma_host_calls_match_their_numbers(regs: Seq<u32>, number: u32)
    ensures
        host_call_for(regs, 3) == Some(HostCall::Read { fd: regs[0] as i32, buffer: regs[1], count: regs[2] }),
        host_call_for(regs, 4) == Some(HostCall::Write { fd: regs[0] as i32, buffer: regs[1], count: regs[2] }),
        host_call_for(regs, 5) == Some(HostCall::Open { path: regs[0], flags: regs[1] as i32 }),
        host_call_for(regs, 6) == Some(HostCall::Close { fd: regs[0] as i32 }),
        host_call_for(regs, 33) == Some(HostCall::Access { path: regs[0], mode: regs[1] as i32 }),
        host_call_for(regs, 116) == Some(HostCall::GetTimeOfDay { tp: regs[0], tzp: regs[1] }),
        host_call_for(regs, 26) == Some(
            HostCall::Ptrace { request: regs[0] as i32, pid: regs[1] as i32, addr: regs[2], data: regs[3] as i32 },
        ),
        host_call_for(regs, 1) == Some(HostCall::Exit { status: regs[0] as i32 }),
        host_call_for(regs, number) matches Some(HostCall::Read { .. }) ==> number == 3,
        host_call_for(regs, number) matches Some(HostCall::Write { .. }) ==> number == 4,
        host_call_for(regs, number) matches Some(HostCall::Open { .. }) ==> number == 5,
        host_call_for(regs, number) matches Some(HostCall::Close { .. }) ==> number == 6,
        host_call_for(regs, number) matches Some(HostCall::Access { .. }) ==> number == 33,
        host_call_for(regs, number) matches Some(HostCall::GetTimeOfDay { .. }) ==> number == 116,
        host_call_for(regs, number) matches Some(HostCall::Ptrace { .. }) ==> number == 26,
        host_call_for(regs, number) matches Some(HostCall::Exit { .. }) ==> number == 1,
        host_call_for(regs, number) is Some ==> (number == 1 || number == 3 || number == 4 || number == 5
            || number == 6 || number == 26 || number == 33 || number == 116),
{
}

} // verus!
