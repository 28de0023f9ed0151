use lib::env::{Environment, Options};
use lib::sysctl::{
    in_guest_range, int_map_get, string_map_get, sysctl, sysctl_args_ok, sysctl_generic, sysctl_values,
    sysctlbyname,
    SysInfoType, CTL_KERN, EFAULT, EINVAL, EPERM, KERN_PROC, KERN_PROC_PID,
};

fn env() -> Environment {
    Environment::new(
        "iPhone1,2",
        134217728,
        42,
        0x10_0000,
        0x20_0000,
        Options { force_composition: false, claim_network_reachable: false },
    )
}

fn write_mib(env: &mut Environment, addr: u32, mib: &[i32]) {
    for (i, v) in mib.iter().enumerate() {
        env.mem.write_i32(addr + 4 * i as u32, *v);
    }
}

fn write_cstr(env: &mut Environment, addr: u32, s: &str) {
    env.mem.write_bytes(addr, s.as_bytes());
    env.mem.write_u8(addr + s.len() as u32, 0);
}

const NAME: u32 = 0x1000;
const OLD: u32 = 0x2000;
const OLDLEN: u32 = 0x3000;

#[test]
fn kern_proc_is_not_listed_as_a_value() {
    assert!(int_map_get((CTL_KERN, KERN_PROC)).is_none());
}

#[test]
fn kern_osversion_is_65() {
    let (name, _) = int_map_get((CTL_KERN, 65)).expect("KERN_OSVERSION should be in the table");
    assert_eq!(name, "kern.osversion");
}

#[test]
fn no_two_entries_claim_the_same_mib() {
    let mut seen = std::collections::HashSet::new();
    for entry in sysctl_values().iter() {
        if entry.mib == (0, 0) {
            continue;
        }
        assert!(
            seen.insert(entry.mib),
            "{:?} is claimed twice, the second time by {}; one of the two silently loses",
            entry.mib,
            entry.name
        );
    }
}

#[test]
fn placeholder_mib_names_no_entry() {
    assert!(int_map_get((0, 0)).is_none());
    let mut e = env();
    write_mib(&mut e, NAME, &[0, 0]);
    e.mem.write_u32(OLDLEN, 4);
    assert_eq!(sysctl(&mut e, NAME, 2, OLD, OLDLEN, 0, 0), -1);
    assert_eq!(e.errno, 0);
    assert_eq!(e.mem.read_u32(OLD), 0);
    // The entries behind the placeholder are still found by name.
    write_cstr(&mut e, NAME, "hw.l3cachesize");
    assert_eq!(sysctlbyname(&mut e, NAME, OLD, OLDLEN, 0, 0), 0);
}

#[test]
fn name_lookup_finds_the_entry() {
    let (name, value) = string_map_get(b"kern.ostype").unwrap();
    assert_eq!(name, "kern.ostype");
    match value {
        SysInfoType::Str(s) => assert_eq!(s, "Darwin"),
        _ => panic!("kern.ostype is a string"),
    }
    assert!(string_map_get(b"kern.nothing").is_none());
}

#[test]
fn sysctl_with_short_name_fails() {
    let mut e = env();
    e.errno = 7;
    assert_eq!(sysctl(&mut e, NAME, 1, OLD, OLDLEN, 0, 0), -1);
    assert_eq!(e.errno, 0);
}

#[test]
fn sysctl_ncpu_reads_one() {
    let mut e = env();
    write_mib(&mut e, NAME, &[6, 3]);
    e.mem.write_u32(OLDLEN, 4);
    assert_eq!(sysctl(&mut e, NAME, 2, OLD, OLDLEN, 0, 0), 0);
    assert_eq!(e.mem.read_i32(OLD), 1);
    assert_eq!(e.mem.read_u32(OLDLEN), 4);
}

#[test]
fn sysctl_size_query_then_read_string() {
    let mut e = env();
    write_mib(&mut e, NAME, &[1, 1]);
    assert_eq!(sysctl(&mut e, NAME, 2, 0, OLDLEN, 0, 0), 0);
    assert_eq!(e.mem.read_u32(OLDLEN), 7);
    assert_eq!(sysctl(&mut e, NAME, 2, OLD, OLDLEN, 0, 0), 0);
    assert_eq!(e.mem.read_bytes(OLD, 7), b"Darwin\0".to_vec());
    assert_eq!(e.mem.read_u32(OLDLEN), 7);
}

#[test]
fn sysctl_string_into_small_buffer_fails() {
    let mut e = env();
    write_mib(&mut e, NAME, &[1, 2]);
    e.mem.write_u32(OLDLEN, 3);
    assert_eq!(sysctl(&mut e, NAME, 2, OLD, OLDLEN, 0, 0), -1);
    assert_eq!(e.mem.read_u32(OLDLEN), 3);
    assert_eq!(e.mem.read_u8(OLD), 0);
}

#[test]
fn sysctl_int64_into_four_bytes_is_truncated() {
    let mut e = env();
    write_mib(&mut e, NAME, &[6, 15]);
    e.mem.write_u32(OLDLEN, 4);
    assert_eq!(sysctl(&mut e, NAME, 2, OLD, OLDLEN, 0, 0), 0);
    assert_eq!(e.mem.read_u32(OLD), 412000000);
    assert_eq!(e.mem.read_u32(OLDLEN), 4);
}

#[test]
fn sysctl_int64_full() {
    let mut e = env();
    write_mib(&mut e, NAME, &[1, 21]);
    e.mem.write_u32(OLDLEN, 8);
    assert_eq!(sysctl(&mut e, NAME, 2, OLD, OLDLEN, 0, 0), 0);
    assert_eq!(e.mem.read_u32(OLD), 1600000000);
    assert_eq!(e.mem.read_u32(OLD + 4), 0);
    assert_eq!(e.mem.read_u32(OLDLEN), 8);
}

#[test]
fn sysctl_memory_sizes_come_from_the_device() {
    let mut e = env();
    write_mib(&mut e, NAME, &[6, 5]);
    e.mem.write_u32(OLDLEN, 4);
    assert_eq!(sysctl(&mut e, NAME, 2, OLD, OLDLEN, 0, 0), 0);
    assert_eq!(e.mem.read_u32(OLD), 134217728);
    write_mib(&mut e, NAME, &[6, 6]);
    assert_eq!(sysctl(&mut e, NAME, 2, OLD, OLDLEN, 0, 0), 0);
    assert_eq!(e.mem.read_u32(OLD), 134217728 / 4 * 3);
    write_mib(&mut e, NAME, &[6, 24]);
    e.mem.write_u32(OLDLEN, 8);
    assert_eq!(sysctl(&mut e, NAME, 2, OLD, OLDLEN, 0, 0), 0);
    assert_eq!(e.mem.read_u32(OLD), 134217728);
    assert_eq!(e.mem.read_u32(OLDLEN), 8);
}

#[test]
fn sysctl_hw_machine_is_the_device() {
    let mut e = env();
    write_mib(&mut e, NAME, &[6, 1]);
    assert_eq!(sysctl(&mut e, NAME, 2, 0, OLDLEN, 0, 0), 0);
    assert_eq!(e.mem.read_u32(OLDLEN), 10);
    e.mem.write_u32(OLDLEN, 9);
    assert_eq!(sysctl(&mut e, NAME, 2, OLD, OLDLEN, 0, 0), -1);
    e.mem.write_u32(OLDLEN, 64);
    assert_eq!(sysctl(&mut e, NAME, 2, OLD, OLDLEN, 0, 0), 0);
    assert_eq!(e.mem.read_bytes(OLD, 10), b"iPhone1,2\0".to_vec());
    assert_eq!(e.mem.read_u32(OLDLEN), 10);
}

#[test]
fn sysctl_unknown_mib_fails() {
    let mut e = env();
    write_mib(&mut e, NAME, &[6, 99]);
    e.mem.write_u32(OLDLEN, 4);
    assert_eq!(sysctl(&mut e, NAME, 2, OLD, OLDLEN, 0, 0), -1);
    assert_eq!(e.errno, 0);
}

#[test]
fn sysctl_write_attempt_is_eperm() {
    let mut e = env();
    write_mib(&mut e, NAME, &[1, 2]);
    e.mem.write_u32(OLDLEN, 64);
    assert_eq!(sysctl(&mut e, NAME, 2, OLD, OLDLEN, 0x4000, 4), -1);
    assert_eq!(e.errno, EPERM);
    assert_eq!(e.mem.read_u8(OLD), 0);
}

#[test]
fn sysctl_write_attempt_to_hw_machine_is_eperm() {
    let mut e = env();
    write_mib(&mut e, NAME, &[6, 1]);
    e.mem.write_u32(OLDLEN, 64);
    assert_eq!(sysctl(&mut e, NAME, 2, OLD, OLDLEN, 0x4000, 10), -1);
    assert_eq!(e.errno, EPERM);
    assert_eq!(e.mem.read_u8(OLD), 0);
    assert_eq!(e.mem.read_u32(OLDLEN), 64);
    // A null new value with a nonzero length is a write attempt too.
    assert_eq!(sysctl(&mut e, NAME, 2, OLD, OLDLEN, 0, 1), -1);
    assert_eq!(e.errno, EPERM);
}

#[test]
fn sysctl_write_attempt_to_kern_proc_is_eperm() {
    let mut e = env();
    write_mib(&mut e, NAME, &[CTL_KERN, KERN_PROC, KERN_PROC_PID, 42]);
    e.mem.write_u32(OLDLEN, 1000);
    assert_eq!(sysctl(&mut e, NAME, 4, OLD, OLDLEN, 0x4000, 0), -1);
    assert_eq!(e.errno, EPERM);
    assert_eq!(e.mem.read_u32(OLDLEN), 1000);
    assert_eq!(e.mem.read_u8(OLD + 20), 0);
}

#[test]
fn kern_proc_pid_reports_runnable_untraced_process() {
    let mut e = env();
    write_mib(&mut e, NAME, &[CTL_KERN, KERN_PROC, KERN_PROC_PID, 42]);
    for i in 0..501u32 {
        e.mem.write_u8(OLD + i, 0xAA);
    }
    e.mem.write_u32(OLDLEN, 1000);
    assert_eq!(sysctl(&mut e, NAME, 4, OLD, OLDLEN, 0, 0), 0);
    assert_eq!(e.mem.read_u32(OLDLEN), 500);
    assert_eq!(e.mem.read_i32(OLD + 16), 0);
    assert_eq!(e.mem.read_u8(OLD + 20), 2);
    assert_eq!(e.mem.read_i32(OLD + 24), 42);
    assert_eq!(e.mem.read_u8(OLD + 499), 0);
    assert_eq!(e.mem.read_u8(OLD + 500), 0xAA);
}

#[test]
fn kern_proc_size_query_and_short_buffer() {
    let mut e = env();
    write_mib(&mut e, NAME, &[CTL_KERN, KERN_PROC, KERN_PROC_PID, 42]);
    assert_eq!(sysctl(&mut e, NAME, 4, 0, OLDLEN, 0, 0), 0);
    assert_eq!(e.mem.read_u32(OLDLEN), 500);
    e.mem.write_u8(OLD + 24, 0xAA);
    e.mem.write_u32(OLDLEN, 21);
    assert_eq!(sysctl(&mut e, NAME, 4, OLD, OLDLEN, 0, 0), 0);
    assert_eq!(e.mem.read_u32(OLDLEN), 21);
    assert_eq!(e.mem.read_u8(OLD + 20), 2);
    assert_eq!(e.mem.read_u8(OLD + 24), 0xAA);
}

#[test]
fn kern_proc_other_selectors_fail() {
    let mut e = env();
    write_mib(&mut e, NAME, &[CTL_KERN, KERN_PROC, 0, 0]);
    assert_eq!(sysctl(&mut e, NAME, 4, OLD, OLDLEN, 0, 0), -1);
    assert_eq!(e.errno, EINVAL);
    write_mib(&mut e, NAME, &[CTL_KERN, KERN_PROC, KERN_PROC_PID]);
    assert_eq!(sysctl(&mut e, NAME, 3, OLD, OLDLEN, 0, 0), -1);
    assert_eq!(e.errno, EINVAL);
}

#[test]
fn kern_proc_without_oldlenp_is_efault() {
    let mut e = env();
    write_mib(&mut e, NAME, &[CTL_KERN, KERN_PROC, KERN_PROC_PID, 42]);
    assert_eq!(sysctl(&mut e, NAME, 4, OLD, 0, 0, 0), -1);
    assert_eq!(e.errno, EFAULT);
}

#[test]
fn sysctlbyname_reads_table_and_device() {
    let mut e = env();
    write_cstr(&mut e, NAME, "kern.osversion");
    e.mem.write_u32(OLDLEN, 64);
    assert_eq!(sysctlbyname(&mut e, NAME, OLD, OLDLEN, 0, 0), 0);
    assert_eq!(e.mem.read_bytes(OLD, 7), b"10B141\0".to_vec());
    assert_eq!(e.mem.read_u32(OLDLEN), 7);

    write_cstr(&mut e, NAME, "hw.machine");
    e.mem.write_u32(OLDLEN, 64);
    assert_eq!(sysctlbyname(&mut e, NAME, OLD, OLDLEN, 0, 0), 0);
    assert_eq!(e.mem.read_bytes(OLD, 10), b"iPhone1,2\0".to_vec());

    write_cstr(&mut e, NAME, "hw.memsize");
    e.mem.write_u32(OLDLEN, 8);
    assert_eq!(sysctlbyname(&mut e, NAME, OLD, OLDLEN, 0, 0), 0);
    assert_eq!(e.mem.read_u32(OLD), 134217728);
    assert_eq!(e.mem.read_u32(OLDLEN), 8);

    write_cstr(&mut e, NAME, "hw.usermem");
    e.mem.write_u32(OLDLEN, 4);
    assert_eq!(sysctlbyname(&mut e, NAME, OLD, OLDLEN, 0, 0), 0);
    assert_eq!(e.mem.read_u32(OLD), 100663296);
}

#[test]
fn sysctlbyname_unknown_and_write() {
    let mut e = env();
    write_cstr(&mut e, NAME, "kern.nothing");
    e.mem.write_u32(OLDLEN, 64);
    assert_eq!(sysctlbyname(&mut e, NAME, OLD, OLDLEN, 0, 0), -1);
    assert_eq!(e.errno, 0);
    write_cstr(&mut e, NAME, "kern.osrelease");
    assert_eq!(sysctlbyname(&mut e, NAME, OLD, OLDLEN, 0x4000, 0), -1);
    assert_eq!(e.errno, EPERM);
}

#[test]
fn generic_bytes_value_gets_a_prefix() {
    static RAW: [u8; 6] = [1, 2, 3, 4, 5, 6];
    let mut e = env();
    e.mem.write_u32(OLDLEN, 4);
    assert_eq!(sysctl_generic(&mut e, Some(SysInfoType::Bytes(&RAW)), OLD, OLDLEN, 0, 0), 0);
    assert_eq!(e.mem.read_bytes(OLD, 6), vec![1, 2, 3, 4, 0, 0]);
    assert_eq!(e.mem.read_u32(OLDLEN), 4);
    e.mem.write_u32(OLDLEN, 16);
    assert_eq!(sysctl_generic(&mut e, Some(SysInfoType::Bytes(&RAW)), OLD, OLDLEN, 0, 0), 0);
    assert_eq!(e.mem.read_bytes(OLD, 6), vec![1, 2, 3, 4, 5, 6]);
    assert_eq!(e.mem.read_u32(OLDLEN), 6);
}

#[test]
fn kern_osrevision_is_a_number() {
    let mut e = env();
    write_mib(&mut e, NAME, &[1, 3]);
    assert_eq!(sysctl(&mut e, NAME, 2, 0, OLDLEN, 0, 0), 0);
    assert_eq!(e.mem.read_u32(OLDLEN), 4);
    e.mem.write_u32(OLDLEN, 4);
    assert_eq!(sysctl(&mut e, NAME, 2, OLD, OLDLEN, 0, 0), 0);
    assert_eq!(e.mem.read_i32(OLD), 199506);
}

#[test]
fn extra_mib_components_are_ignored() {
    let mut e = env();
    write_mib(&mut e, NAME, &[6, 7, 99, 99]);
    e.mem.write_u32(OLDLEN, 4);
    assert_eq!(sysctl(&mut e, NAME, 4, OLD, OLDLEN, 0, 0), 0);
    assert_eq!(e.mem.read_i32(OLD), 4096);
}

#[test]
fn guest_ranges_end_at_four_gigabytes() {
    assert!(in_guest_range(1, 4));
    assert!(!in_guest_range(0, 4));
    assert!(in_guest_range(0xFFFF_FFFC, 4));
    assert!(!in_guest_range(0xFFFF_FFFD, 4));
}

#[test]
fn sysctl_arguments_are_checked_per_name() {
    let mut e = env();
    assert!(sysctl_args_ok(&e, 0, 1, 0, 0, 0, 0));
    write_mib(&mut e, NAME, &[6, 1]);
    e.mem.write_u32(OLDLEN, 64);
    assert!(sysctl_args_ok(&e, NAME, 2, OLD, OLDLEN, 0, 0));
    assert!(!sysctl_args_ok(&e, NAME, 2, 0xFFFF_FFF8, OLDLEN, 0, 0));
    e.mem.write_u32(OLDLEN, 4);
    assert!(sysctl_args_ok(&e, NAME, 2, 0xFFFF_FFF8, OLDLEN, 0, 0));
    write_mib(&mut e, NAME, &[CTL_KERN, KERN_PROC, KERN_PROC_PID, 42]);
    e.mem.write_u32(OLDLEN, 1000);
    assert!(sysctl_args_ok(&e, NAME, 4, OLD, OLDLEN, 0, 0));
    assert!(!sysctl_args_ok(&e, NAME, 4, 0xFFFF_FF00, OLDLEN, 0, 0));
    assert!(sysctl_args_ok(&e, NAME, 4, 0xFFFF_FF00, 0, 0, 0));
    write_mib(&mut e, NAME, &[6, 99]);
    assert!(sysctl_args_ok(&e, NAME, 2, 0, 0, 0, 0));
}

#[test]
fn by_name_and_by_mib_agree_for_every_entry() {
    for entry in sysctl_values().iter() {
        if entry.mib == (0, 0) {
            continue;
        }
        for oldlen in [0u32, 3, 4, 64] {
            let mut a = env();
            write_mib(&mut a, NAME, &[entry.mib.0, entry.mib.1]);
            a.mem.write_u32(OLDLEN, oldlen);
            let ra = sysctl(&mut a, NAME, 2, OLD, OLDLEN, 0, 0);
            let mut b = env();
            write_cstr(&mut b, NAME, entry.name);
            b.mem.write_u32(OLDLEN, oldlen);
            let rb = sysctlbyname(&mut b, NAME, OLD, OLDLEN, 0, 0);
            assert_eq!(ra, rb, "{}", entry.name);
            assert_eq!(a.errno, b.errno, "{}", entry.name);
            assert_eq!(a.mem.read_u32(OLDLEN), b.mem.read_u32(OLDLEN), "{}", entry.name);
            assert_eq!(a.mem.read_bytes(OLD, 64), b.mem.read_bytes(OLD, 64), "{}", entry.name);
        }
    }
}
