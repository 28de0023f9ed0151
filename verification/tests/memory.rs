use lib::env::{Environment, Options};
use lib::mem::GuestMemory;
use lib::mmap::{
    EINVAL,
    EIO,
    ENOMEM,
    FileRead,
    MAP_ANON,
    MAP_FAILED,
    MAP_FILE,
    MmapStep,
    State,
    madvise,
    mlock,
    mmap,
    mmap_file_read,
    mprotect,
    munlock,
    munmap,
};

fn env() -> Environment {
    Environment::new(
        "iPhone1,2",
        134217728,
        42,
        0x10_0000,
        0x10_4000,
        Options { force_composition: false, claim_network_reachable: false },
    )
}

#[test]
fn words_are_little_endian() {
    let mut m = GuestMemory::new(0x1000, 0x2000);
    m.write_u32(0x100, 0x1234_5678);
    assert_eq!(m.read_bytes(0x100, 4), vec![0x78, 0x56, 0x34, 0x12]);
    assert_eq!(m.read_u32(0x100), 0x1234_5678);
    m.write_i64(0x200, -2);
    assert_eq!(m.read_u32(0x200), 0xFFFF_FFFE);
    assert_eq!(m.read_u32(0x204), 0xFFFF_FFFF);
    assert_eq!(m.read_u8(0x300), 0);
}

#[test]
fn cstr_stops_at_nul() {
    let mut m = GuestMemory::new(0x1000, 0x2000);
    m.write_bytes(0x100, b"abc\0def");
    assert_eq!(m.read_cstr(0x100), b"abc".to_vec());
}

#[test]
fn calloc_hands_out_pages_until_full() {
    let mut m = GuestMemory::new(0x1000, 0x4000);
    m.write_u8(0x1005, 9);
    let a = m.calloc(10);
    assert_eq!(a, 0x1000);
    assert_eq!(m.read_u8(0x1005), 0);
    let b = m.calloc(0x1001);
    assert_eq!(b, 0x2000);
    assert_eq!(m.calloc(1), 0);
    m.free(a);
    assert_eq!(m.calloc(1), 0);
}

#[test]
fn mmap_anonymous_then_munmap() {
    let mut e = env();
    e.errno = 3;
    let r = mmap(&mut e, 0x5000, 100, 3, MAP_ANON, -1, 0);
    assert_eq!(r, MmapStep::Done(0x10_0000));
    assert_eq!(e.errno, 0);
    assert!(e.mmap.contains(0x10_0000));
    assert_eq!(munmap(&mut e, 0x10_0000, 8), 0);
    assert!(!e.mmap.contains(0x10_0000));
    assert_eq!(munmap(&mut e, 0x10_0000, 8), -1);
    assert_eq!(e.errno, EINVAL);
}

#[test]
fn munmap_zero_length_fails() {
    let mut e = env();
    let r = mmap(&mut e, 0, 100, 3, MAP_ANON, -1, 0);
    assert_eq!(r, MmapStep::Done(0x10_0000));
    assert_eq!(munmap(&mut e, 0x10_0000, 0), -1);
    assert_eq!(e.errno, EINVAL);
    assert!(e.mmap.contains(0x10_0000));
}

#[test]
fn mmap_out_of_memory_is_map_failed() {
    let mut e = env();
    assert_eq!(mmap(&mut e, 0, 0x5000, 3, MAP_ANON, -1, 0), MmapStep::Done(MAP_FAILED));
    assert_eq!(e.errno, ENOMEM);
}

#[test]
fn mmap_file_fills_from_what_was_read() {
    let mut e = env();
    let step = mmap(&mut e, 0, 8, 1, MAP_FILE, 3, 0);
    let ptr = match step {
        MmapStep::ReadFile { ptr } => ptr,
        _ => panic!("a file mapping waits for its file"),
    };
    assert!(!e.mmap.contains(ptr));
    assert_eq!(mmap_file_read(&mut e, ptr, 8, FileRead::Read(vec![7, 7, 7])), ptr);
    assert_eq!(e.mem.read_bytes(ptr, 8), vec![7, 7, 7, 0, 0, 0, 0, 0]);
    assert!(e.mmap.contains(ptr));
}

#[test]
fn mmap_file_failures_are_eio() {
    let mut e = env();
    let ptr = match mmap(&mut e, 0, 8, 1, MAP_FILE, 3, 0) {
        MmapStep::ReadFile { ptr } => ptr,
        _ => panic!(),
    };
    assert_eq!(mmap_file_read(&mut e, ptr, 8, FileRead::SeekFailed), MAP_FAILED);
    assert_eq!(e.errno, EIO);
    assert!(!e.mmap.contains(ptr));
    let ptr = match mmap(&mut e, 0, 8, 1, MAP_FILE, 3, 0) {
        MmapStep::ReadFile { ptr } => ptr,
        _ => panic!(),
    };
    assert_eq!(mmap_file_read(&mut e, ptr, 8, FileRead::ReadFailed), MAP_FAILED);
    assert_eq!(e.errno, EIO);
}

#[test]
fn advisory_calls_succeed() {
    let mut e = env();
    e.errno = 9;
    assert_eq!(madvise(&mut e, 0x1000, 10, 4), 0);
    assert_eq!(e.errno, 0);
    e.errno = 9;
    assert_eq!(mprotect(&mut e, 0x1000, 10, 7), 0);
    assert_eq!(e.errno, 0);
    e.errno = 9;
    assert_eq!(mlock(&mut e, 0x1000, 10), 0);
    assert_eq!(e.errno, 0);
    e.errno = 9;
    assert_eq!(munlock(&mut e, 0x1000, 10), 0);
    assert_eq!(e.errno, 0);
}

#[test]
fn state_starts_empty() {
    let s = State::default();
    assert!(!s.contains(0x1000));
}

#[test]
fn a_string_must_end_inside_guest_memory() {
    let mut e = Environment::new(
        "iPhone1,2",
        134217728,
        42,
        0x10_0000,
        0x20_0000,
        Options { force_composition: false, claim_network_reachable: false },
    );
    e.mem.write_bytes(0x1000, b"abc");
    assert!(e.mem.has_cstr_at(0x1000));
    assert_eq!(e.mem.read_cstr(0x1000), b"abc".to_vec());
    assert!(!e.mem.has_cstr_at(0));
    for a in 0xFFFF_FFF0u32..=0xFFFF_FFFF {
        e.mem.write_u8(a, b'x');
    }
    assert!(!e.mem.has_cstr_at(0xFFFF_FFF0));
    e.mem.write_u8(0xFFFF_FFFF, 0);
    assert!(e.mem.has_cstr_at(0xFFFF_FFF0));
}
