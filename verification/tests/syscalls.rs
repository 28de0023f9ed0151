use lib::env::{Environment, Options};
use lib::syscall::{
    CPSR_CARRY,
    ENOSYS,
    HostCall,
    SYS_EXIT,
    SYS_GETEUID,
    SYS_GETGID,
    SYS_GETPID,
    SYS_GETPPID,
    SYS_GETUID,
    SYS_ISSETUGID,
    SYS_OPEN,
    SYS_READ,
    SYS_SYSCTL,
    SyscallAction,
    arg,
    finish_libc,
    handle_darwin_syscall,
    raw_sysctl_args_ok,
};

fn env() -> Environment {
    Environment::new(
        "iPhone1,2",
        134217728,
        42,
        0x10_0000,
        0x20_0000,
        Options { force_composition: false, claim_network_reachable: false },
    )
}

#[test]
fn getpid_returns_pid_with_carry_clear() {
    let mut e = env();
    e.cpu.regs[12] = SYS_GETPID;
    e.cpu.cpsr = CPSR_CARRY | 0x10;
    assert_eq!(handle_darwin_syscall(&mut e, 0x4000), SyscallAction::Finished);
    assert_eq!(e.cpu.regs[0], 42);
    assert_eq!(e.cpu.cpsr, 0x10);
}

#[test]
fn identity_answers() {
    let mut e = env();
    for (n, v) in [(SYS_GETPPID, 1u32), (SYS_GETUID, 501), (SYS_GETEUID, 501), (SYS_GETGID, 501), (SYS_ISSETUGID, 0)] {
        e.cpu.regs[12] = n;
        e.cpu.regs[0] = 77;
        assert_eq!(handle_darwin_syscall(&mut e, 0x4000), SyscallAction::Finished);
        assert_eq!(e.cpu.regs[0], v);
    }
}

#[test]
fn unknown_syscall_fails_with_enosys_and_reports_once() {
    let mut e = env();
    e.cpu.regs[12] = 9999;
    assert_eq!(
        handle_darwin_syscall(&mut e, 0x4000),
        SyscallAction::Unimplemented { number: 9999, first_report: true }
    );
    assert_eq!(e.cpu.regs[0], ENOSYS as u32);
    assert_eq!(e.cpu.cpsr & CPSR_CARRY, CPSR_CARRY);
    assert_eq!(
        handle_darwin_syscall(&mut e, 0x4000),
        SyscallAction::Unimplemented { number: 9999, first_report: false }
    );
    assert_eq!(
        handle_darwin_syscall(&mut e, 0x4008),
        SyscallAction::Unimplemented { number: 9999, first_report: true }
    );
}

#[test]
fn host_calls_are_handed_back() {
    let mut e = env();
    e.cpu.regs[0] = 3;
    e.cpu.regs[1] = 0x2000;
    e.cpu.regs[2] = 16;
    e.cpu.regs[12] = SYS_READ;
    assert_eq!(
        handle_darwin_syscall(&mut e, 0),
        SyscallAction::Host(HostCall::Read { fd: 3, buffer: 0x2000, count: 16 })
    );
    e.cpu.regs[12] = SYS_EXIT;
    assert_eq!(handle_darwin_syscall(&mut e, 0), SyscallAction::Host(HostCall::Exit { status: 3 }));
    e.cpu.regs[12] = SYS_OPEN;
    assert_eq!(handle_darwin_syscall(&mut e, 0), SyscallAction::Host(HostCall::Open { path: 3, flags: 0x2000 }));
}

#[test]
fn finish_libc_translates_failure() {
    let mut e = env();
    e.errno = 2;
    finish_libc(&mut e, -1);
    assert_eq!(e.cpu.regs[0], 2);
    assert_eq!(e.cpu.cpsr & CPSR_CARRY, CPSR_CARRY);
    finish_libc(&mut e, 5);
    assert_eq!(e.cpu.regs[0], 5);
    assert_eq!(e.cpu.cpsr & CPSR_CARRY, 0);
}

#[test]
fn raw_sysctl_reads_stack_arguments() {
    let mut e = env();
    // MIB kern.ostype at 0x1000, oldp 0x2000, oldlenp 0x3000.
    e.mem.write_i32(0x1000, 1);
    e.mem.write_i32(0x1004, 1);
    e.mem.write_u32(0x3000, 64);
    e.cpu.regs = [0; 16];
    e.cpu.regs[0] = 0x1000;
    e.cpu.regs[1] = 2;
    e.cpu.regs[2] = 0x2000;
    e.cpu.regs[3] = 0x3000;
    e.cpu.regs[13] = 0x8000;
    e.mem.write_u32(0x8000, 0);
    e.mem.write_u32(0x8004, 0);
    e.cpu.regs[12] = SYS_SYSCTL;
    assert_eq!(handle_darwin_syscall(&mut e, 0), SyscallAction::Finished);
    assert_eq!(e.cpu.regs[0], 0);
    assert_eq!(e.mem.read_bytes(0x2000, 7), b"Darwin\0".to_vec());
    // A write attempt through the stack arguments fails with EPERM.
    e.mem.write_u32(0x8000, 0x9000);
    e.cpu.regs[0] = 0x1000;
    assert_eq!(handle_darwin_syscall(&mut e, 0), SyscallAction::Finished);
    assert_eq!(e.cpu.regs[0], 1);
    assert_eq!(e.cpu.cpsr & CPSR_CARRY, CPSR_CARRY);
}

#[test]
fn arg_reads_registers_then_stack() {
    let mut e = env();
    let mut regs = [0u32; 16];
    regs[2] = 5;
    regs[13] = 0x8000;
    e.mem.write_u32(0x8004, 6);
    assert_eq!(arg(&e, &regs, 2), 5);
    assert_eq!(arg(&e, &regs, 5), 6);
}

#[test]
fn raw_sysctl_arguments_are_checked_against_guest_memory() {
    let mut e = env();
    e.mem.write_i32(0x1000, 1);
    e.mem.write_i32(0x1004, 1);
    e.mem.write_u32(0x3000, 64);
    e.cpu.regs = [0; 16];
    e.cpu.regs[0] = 0x1000;
    e.cpu.regs[1] = 2;
    e.cpu.regs[2] = 0x2000;
    e.cpu.regs[3] = 0x3000;
    e.cpu.regs[13] = 0x8000;
    e.cpu.regs[12] = SYS_SYSCTL;
    assert!(raw_sysctl_args_ok(&e));
    // A null MIB cannot be read.
    e.cpu.regs[0] = 0;
    assert!(!raw_sysctl_args_ok(&e));
    e.cpu.regs[0] = 0x1000;
    // Nor can a null size, for a value that exists.
    e.cpu.regs[3] = 0;
    assert!(!raw_sysctl_args_ok(&e));
    // A write attempt touches nothing beyond the MIB.
    e.mem.write_u32(0x8000, 0x9000);
    assert!(raw_sysctl_args_ok(&e));
    // The stack arguments must be in memory too.
    e.cpu.regs[13] = 0xFFFF_FFFC;
    assert!(!raw_sysctl_args_ok(&e));
}
