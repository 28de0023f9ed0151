//! `sys/sysctl.h`: the kernel's table of named values, read by MIB or by
//! name.

use crate::env::Environment;
use crate::mem::{
    bytes_at, cstr_bytes, has_cstr, le_bytes_u32, le_bytes_u64, le_u32, splice, valid_range,
    write_spec, GuestMemory,
};
use vstd::prelude::*;
use vstd::string::StringSliceAdditionalSpecFns;

verus! {

broadcast use vstd::string::group_string_axioms;

/// `CTL_KERN`, the first component of a MIB naming something about the kernel.
pub const CTL_KERN: i32 = 1;

/// `KERN_PROC`, which names process table entries.
pub const KERN_PROC: i32 = 14;

/// `KERN_PROC_PID`, the third MIB component asking for one process by pid.
pub const KERN_PROC_PID: i32 = 1;

/// `EPERM`: the table cannot be written.
pub const EPERM: i32 = 1;

/// `EFAULT`: nowhere to write the answer.
pub const EFAULT: i32 = 14;

/// `EINVAL`: a question this kernel does not answer.
pub const EINVAL: i32 = 22;

/// The size of `struct kinfo_proc` on a 32-bit Darwin: 196 bytes of
/// `struct extern_proc` followed by 304 of `struct eproc`.
pub const KINFO_PROC_SIZE: u32 = 500;

/// Offsets into `struct extern_proc`, which `struct kinfo_proc` starts with.
pub const KP_PROC_P_FLAG: u32 = 16;
pub const KP_PROC_P_STAT: u32 = 20;
pub const KP_PROC_P_PID: u32 = 24;

/// `SRUN`: the process asking is runnable.
pub const SRUN: u8 = 2;

/// A value in the table.
#[derive(Clone, Copy)]
pub enum SysInfoType {
    /// A string, handed out NUL-terminated.
    Str(&'static str),
    Int32(i32),
    Int64(i64),
    Bytes(&'static [u8]),
}

/// An entry: its MIB (`(0, 0)` for one only reachable by name), its name,
/// and its value.
#[derive(Clone, Copy)]
pub struct SysctlEntry {
    pub mib: (i32, i32),
    pub name: &'static str,
    pub value: SysInfoType,
}

pub open spec fn sysctl_table() -> Seq<SysctlEntry> {
    seq![
        SysctlEntry { mib: (6, 1), name: "hw.machine", value: SysInfoType::Str("iPhone2,1") },
        SysctlEntry { mib: (6, 2), name: "hw.model", value: SysInfoType::Str("N88AP") },
        SysctlEntry { mib: (6, 3), name: "hw.ncpu", value: SysInfoType::Int32(1) },
        SysctlEntry { mib: (6, 25), name: "hw.activecpu", value: SysInfoType::Int32(1) },
        SysctlEntry { mib: (0, 0), name: "hw.physicalcpu", value: SysInfoType::Int32(1) },
        SysctlEntry { mib: (0, 0), name: "hw.physicalcpu_max", value: SysInfoType::Int32(1) },
        SysctlEntry { mib: (0, 0), name: "hw.logicalcpu", value: SysInfoType::Int32(1) },
        SysctlEntry { mib: (0, 0), name: "hw.logicalcpu_max", value: SysInfoType::Int32(1) },
        SysctlEntry { mib: (0, 0), name: "hw.cputype", value: SysInfoType::Int32(12) },
        SysctlEntry { mib: (0, 0), name: "hw.cpusubtype", value: SysInfoType::Int32(6) },
        SysctlEntry { mib: (6, 15), name: "hw.cpufrequency", value: SysInfoType::Int64(412000000) },
        SysctlEntry { mib: (6, 16), name: "hw.cpufrequency_max", value: SysInfoType::Int64(412000000) },
        SysctlEntry { mib: (6, 14), name: "hw.busfrequency", value: SysInfoType::Int64(103000000) },
        SysctlEntry { mib: (0, 0), name: "hw.cachelinesize", value: SysInfoType::Int32(32) },
        SysctlEntry { mib: (0, 0), name: "hw.l1dcachesize", value: SysInfoType::Int32(16384) },
        SysctlEntry { mib: (0, 0), name: "hw.l2cachesize", value: SysInfoType::Int32(0) },
        SysctlEntry { mib: (0, 0), name: "hw.l3cachesize", value: SysInfoType::Int32(0) },
        SysctlEntry { mib: (6, 5), name: "hw.physmem", value: SysInfoType::Int32(536870912) },
        SysctlEntry { mib: (6, 6), name: "hw.usermem", value: SysInfoType::Int32(402653184) },
        SysctlEntry { mib: (6, 24), name: "hw.memsize", value: SysInfoType::Int32(536870912) },
        SysctlEntry { mib: (6, 7), name: "hw.pagesize", value: SysInfoType::Int32(4096) },
        SysctlEntry { mib: (1, 1), name: "kern.ostype", value: SysInfoType::Str("Darwin") },
        SysctlEntry { mib: (1, 2), name: "kern.osrelease", value: SysInfoType::Str("13.0.0") },
        SysctlEntry { mib: (1, 3), name: "kern.osrevision", value: SysInfoType::Int32(199506) },
        SysctlEntry { mib: (1, 10), name: "kern.hostname", value: SysInfoType::Str("touchHLE") },
        SysctlEntry { mib: (1, 4), name: "kern.version", value: SysInfoType::Str("Darwin Kernel Version 13.0.0: Wed Jun 13 16:55:00 PDT 2012; root:xnu-2107.7.55~11/RELEASE_ARM_S5L8920X") },
        SysctlEntry { mib: (1, 21), name: "kern.boottime", value: SysInfoType::Int64(1600000000) },
        SysctlEntry { mib: (1, 65), name: "kern.osversion", value: SysInfoType::Str("10B141") }
    ]
}

/// The table of values, in order. `hw.machine` and the memory sizes are
/// placeholders: the emulated device decides them.
pub fn sysctl_values() -> (r: Vec<SysctlEntry>)
    ensures
        r@ == sysctl_table(),
{
    let mut v: Vec<SysctlEntry> = Vec::new();
    v.push(SysctlEntry { mib: (6, 1), name: "hw.machine", value: SysInfoType::Str("iPhone2,1") });
    v.push(SysctlEntry { mib: (6, 2), name: "hw.model", value: SysInfoType::Str("N88AP") });
    v.push(SysctlEntry { mib: (6, 3), name: "hw.ncpu", value: SysInfoType::Int32(1) });
    v.push(SysctlEntry { mib: (6, 25), name: "hw.activecpu", value: SysInfoType::Int32(1) });
    v.push(SysctlEntry { mib: (0, 0), name: "hw.physicalcpu", value: SysInfoType::Int32(1) });
    v.push(SysctlEntry { mib: (0, 0), name: "hw.physicalcpu_max", value: SysInfoType::Int32(1) });
    v.push(SysctlEntry { mib: (0, 0), name: "hw.logicalcpu", value: SysInfoType::Int32(1) });
    v.push(SysctlEntry { mib: (0, 0), name: "hw.logicalcpu_max", value: SysInfoType::Int32(1) });
    v.push(SysctlEntry { mib: (0, 0), name: "hw.cputype", value: SysInfoType::Int32(12) });
    v.push(SysctlEntry { mib: (0, 0), name: "hw.cpusubtype", value: SysInfoType::Int32(6) });
    v.push(SysctlEntry { mib: (6, 15), name: "hw.cpufrequency", value: SysInfoType::Int64(412000000) });
    v.push(SysctlEntry { mib: (6, 16), name: "hw.cpufrequency_max", value: SysInfoType::Int64(412000000) });
    v.push(SysctlEntry { mib: (6, 14), name: "hw.busfrequency", value: SysInfoType::Int64(103000000) });
    v.push(SysctlEntry { mib: (0, 0), name: "hw.cachelinesize", value: SysInfoType::Int32(32) });
    v.push(SysctlEntry { mib: (0, 0), name: "hw.l1dcachesize", value: SysInfoType::Int32(16384) });
    v.push(SysctlEntry { mib: (0, 0), name: "hw.l2cachesize", value: SysInfoType::Int32(0) });
    v.push(SysctlEntry { mib: (0, 0), name: "hw.l3cachesize", value: SysInfoType::Int32(0) });
    v.push(SysctlEntry { mib: (6, 5), name: "hw.physmem", value: SysInfoType::Int32(536870912) });
    v.push(SysctlEntry { mib: (6, 6), name: "hw.usermem", value: SysInfoType::Int32(402653184) });
    v.push(SysctlEntry { mib: (6, 24), name: "hw.memsize", value: SysInfoType::Int32(536870912) });
    v.push(SysctlEntry { mib: (6, 7), name: "hw.pagesize", value: SysInfoType::Int32(4096) });
    v.push(SysctlEntry { mib: (1, 1), name: "kern.ostype", value: SysInfoType::Str("Darwin") });
    v.push(SysctlEntry { mib: (1, 2), name: "kern.osrelease", value: SysInfoType::Str("13.0.0") });
    v.push(SysctlEntry { mib: (1, 3), name: "kern.osrevision", value: SysInfoType::Int32(199506) });
    v.push(SysctlEntry { mib: (1, 10), name: "kern.hostname", value: SysInfoType::Str("touchHLE") });
    v.push(SysctlEntry { mib: (1, 4), name: "kern.version", value: SysInfoType::Str("Darwin Kernel Version 13.0.0: Wed Jun 13 16:55:00 PDT 2012; root:xnu-2107.7.55~11/RELEASE_ARM_S5L8920X") });
    v.push(SysctlEntry { mib: (1, 21), name: "kern.boottime", value: SysInfoType::Int64(1600000000) });
    v.push(SysctlEntry { mib: (1, 65), name: "kern.osversion", value: SysInfoType::Str("10B141") });
    assert(v@ =~= sysctl_table());
    v
}

/// The bytes a value is handed out as.
pub open spec fn value_bytes(v: SysInfoType) -> Seq<u8> {
    match v {
        SysInfoType::Str(s) => s.spec_bytes().push(0u8),
        SysInfoType::Int32(n) => le_bytes_u32(n as u32),
        SysInfoType::Int64(n) => le_bytes_u64(n as u64),
        SysInfoType::Bytes(b) => b@,
    }
}

pub open spec fn value_len(v: SysInfoType) -> int {
    value_bytes(v).len() as int
}

/// A value short enough for its length to be a guest `size_t`.
pub open spec fn value_fits(v: SysInfoType) -> bool {
    value_len(v) < 0xFFFF_FFFF
}

/// Every value in the table fits.
pub proof fn lemma_table_values_fit()
    ensures
        forall|i: int| 0 <= i < sysctl_table().len() ==> value_fits(#[trigger] sysctl_table()[i].value),
{
    reveal_strlit("iPhone2,1");
    reveal_strlit("N88AP");
    reveal_strlit("Darwin");
    reveal_strlit("13.0.0");
    reveal_strlit("touchHLE");
    reveal_strlit("Darwin Kernel Version 13.0.0: Wed Jun 13 16:55:00 PDT 2012; root:xnu-2107.7.55~11/RELEASE_ARM_S5L8920X");
    reveal_strlit("10B141");
    assert(vstd::string::is_ascii("iPhone2,1"));
    assert(vstd::string::is_ascii("N88AP"));
    assert(vstd::string::is_ascii("Darwin"));
    assert(vstd::string::is_ascii("13.0.0"));
    assert(vstd::string::is_ascii("touchHLE"));
    assert(vstd::string::is_ascii("Darwin Kernel Version 13.0.0: Wed Jun 13 16:55:00 PDT 2012; root:xnu-2107.7.55~11/RELEASE_ARM_S5L8920X"));
    assert(vstd::string::is_ascii("10B141"));
    assert forall|i: int| 0 <= i < sysctl_table().len() implies value_fits(#[trigger] sysctl_table()[i].value) by {
        assert(i == 0 || i == 1 || i == 2 || i == 3 || i == 4 || i == 5 || i == 6 || i == 7 || i == 8 || i == 9 || i == 10 || i == 11 || i == 12 || i == 13 || i == 14 || i == 15 || i == 16 || i == 17 || i == 18 || i == 19 || i == 20 || i == 21 || i == 22 || i == 23 || i == 24 || i == 25 || i == 26 || i == 27);
    }
}

// MARK: - Lookups

/// Entry `i` is the last one with MIB `mib`. Where several share one, the
/// last wins, as it does when the table is loaded into a map.
pub open spec fn is_last_with_mib(t: Seq<SysctlEntry>, mib: (i32, i32), i: int) -> bool {
    &&& 0 <= i < t.len()
    &&& t[i].mib == mib
    &&& forall|j: int| i < j < t.len() ==> #[trigger] t[j].mib != mib
}

/// The entry with MIB `mib`. `(0, 0)` only marks the entries reachable by
/// name alone, so no entry is found under it.
pub open spec fn mib_lookup(mib: (i32, i32)) -> Option<SysctlEntry> {
    let t = sysctl_table();
    if mib != (0i32, 0i32) && exists|i: int| is_last_with_mib(t, mib, i) {
        Some(t[choose|i: int| is_last_with_mib(t, mib, i)])
    } else {
        None
    }
}

/// Entry `i` is the last one named `name`.
pub open spec fn is_last_with_name(t: Seq<SysctlEntry>, name: Seq<u8>, i: int) -> bool {
    &&& 0 <= i < t.len()
    &&& t[i].name.spec_bytes() == name
    &&& forall|j: int| i < j < t.len() ==> #[trigger] t[j].name.spec_bytes() != name
}

/// The entry named `name`.
pub open spec fn name_lookup(name: Seq<u8>) -> Option<SysctlEntry> {
    let t = sysctl_table();
    if exists|i: int| is_last_with_name(t, name, i) {
        Some(t[choose|i: int| is_last_with_name(t, name, i)])
    } else {
        None
    }
}

proof fn lemma_last_with_mib_unique(t: Seq<SysctlEntry>, mib: (i32, i32), i: int, j: int)
    requires
        is_last_with_mib(t, mib, i),
        is_last_with_mib(t, mib, j),
    ensures
        i == j,
{
    if i < j {
        assert(t[j].mib != mib);
    } else if j < i {
        assert(t[i].mib != mib);
    }
}

proof fn lemma_last_with_name_unique(t: Seq<SysctlEntry>, name: Seq<u8>, i: int, j: int)
    requires
        is_last_with_name(t, name, i),
        is_last_with_name(t, name, j),
    ensures
        i == j,
{
    if i < j {
        assert(t[j].name.spec_bytes() != name);
    } else if j < i {
        assert(t[i].name.spec_bytes() != name);
    }
}

/// The name and value listed under `mib`. The table is a constant, so it is
/// searched where it stands, from the end, which finds what loading it into
/// a map entry by entry would keep.
pub fn int_map_get(mib: (i32, i32)) -> (r: Option<(&'static str, SysInfoType)>)
    ensures
        r is None <==> mib_lookup(mib) is None,
        r is Some ==> r->0 == (mib_lookup(mib)->0.name, mib_lookup(mib)->0.value),
{
    if mib.0 == 0 && mib.1 == 0 {
        return None;
    }
    let t = sysctl_values();
    let mut i: usize = t.len();
    while i > 0
        invariant
            t@ == sysctl_table(),
            i <= t@.len(),
            forall|j: int| i <= j < t@.len() ==> #[trigger] t@[j].mib != mib,
            mib != (0i32, 0i32),
        decreases i,
    {
        let e = t[i - 1];
        if e.mib.0 == mib.0 && e.mib.1 == mib.1 {
            proof {
                assert(is_last_with_mib(t@, mib, i - 1));
                let k = choose|k: int| is_last_with_mib(t@, mib, k);
                lemma_last_with_mib_unique(t@, mib, i - 1, k);
            }
            return Some((e.name, e.value));
        }
        i = i - 1;
    }
    assert(!exists|k: int| is_last_with_mib(t@, mib, k));
    None
}

/// Whether two byte strings are the same.
fn bytes_eq(a: &[u8], b: &[u8]) -> (r: bool)
    ensures
        r == (a@ == b@),
{
    if a.len() != b.len() {
        return false;
    }
    let mut i: usize = 0;
    while i < a.len()
        invariant
            a@.len() == b@.len(),
            i <= a@.len(),
            forall|j: int| 0 <= j < i ==> a@[j] == b@[j],
        decreases a@.len() - i,
    {
        if a[i] != b[i] {
            return false;
        }
        i = i + 1;
    }
    assert(a@ =~= b@);
    true
}

/// The name and value listed under the name spelled by `name`, found as
/// [int_map_get] finds a MIB.
pub fn string_map_get(name: &[u8]) -> (r: Option<(&'static str, SysInfoType)>)
    ensures
        r is None <==> name_lookup(name@) is None,
        r is Some ==> r->0 == (name_lookup(name@)->0.name, name_lookup(name@)->0.value),
{
    let t = sysctl_values();
    let mut i: usize = t.len();
    while i > 0
        invariant
            t@ == sysctl_table(),
            i <= t@.len(),
            forall|j: int| i <= j < t@.len() ==> #[trigger] t@[j].name.spec_bytes() != name@,
        decreases i,
    {
        let e = t[i - 1];
        if bytes_eq(e.name.as_bytes(), name) {
            proof {
                assert(is_last_with_name(t@, name@, i - 1));
                let k = choose|k: int| is_last_with_name(t@, name@, k);
                lemma_last_with_name_unique(t@, name@, i - 1, k);
            }
            return Some((e.name, e.value));
        }
        i = i - 1;
    }
    assert(!exists|k: int| is_last_with_name(t@, name@, k));
    None
}

// MARK: - Laws of the table

/// The position of each MIB in the table; -1 for one it does not list.
pub open spec fn mib_slot(m: (i32, i32)) -> int {
    if m == (6i32, 1i32) { 0 } else
    if m == (6i32, 2i32) { 1 } else
    if m == (6i32, 3i32) { 2 } else
    if m == (6i32, 25i32) { 3 } else
    if m == (6i32, 15i32) { 10 } else
    if m == (6i32, 16i32) { 11 } else
    if m == (6i32, 14i32) { 12 } else
    if m == (6i32, 5i32) { 17 } else
    if m == (6i32, 6i32) { 18 } else
    if m == (6i32, 24i32) { 19 } else
    if m == (6i32, 7i32) { 20 } else
    if m == (1i32, 1i32) { 21 } else
    if m == (1i32, 2i32) { 22 } else
    if m == (1i32, 3i32) { 23 } else
    if m == (1i32, 10i32) { 24 } else
    if m == (1i32, 4i32) { 25 } else
    if m == (1i32, 21i32) { 26 } else
    if m == (1i32, 65i32) { 27 } else { -1 }
}

/// No two entries claim the same MIB, apart from the `(0, 0)` placeholder
/// of entries only reachable by name.
pub proof fn lemma_no_two_entries_claim_the_same_mib()
    ensures
        forall|i: int, j: int|
            0 <= i < j < sysctl_table().len() && (#[trigger] sysctl_table()[i]).mib != (0i32, 0i32)
                ==> sysctl_table()[i].mib != (#[trigger] sysctl_table()[j]).mib,
{
    let t = sysctl_table();
    assert forall|i: int| 0 <= i < t.len() && (#[trigger] t[i]).mib != (0i32, 0i32) implies mib_slot(t[i].mib) == i by {
        assert(i == 0 || i == 1 || i == 2 || i == 3 || i == 4 || i == 5 || i == 6 || i == 7 || i == 8 || i == 9 || i == 10 || i == 11 || i == 12 || i == 13 || i == 14 || i == 15 || i == 16 || i == 17 || i == 18 || i == 19 || i == 20 || i == 21 || i == 22 || i == 23 || i == 24 || i == 25 || i == 26 || i == 27);
    }
}

/// `(CTL_KERN, KERN_PROC)` is not a value: it answers with a
/// `struct kinfo_proc`, which `kern_proc` builds.
pub proof fn lemma_kern_proc_is_not_listed()
    ensures
        mib_lookup((CTL_KERN, KERN_PROC)) is None,
{
    let t = sysctl_table();
    assert forall|i: int| 0 <= i < t.len() implies (#[trigger] t[i]).mib != (CTL_KERN, KERN_PROC) by {
        assert(i == 0 || i == 1 || i == 2 || i == 3 || i == 4 || i == 5 || i == 6 || i == 7 || i == 8 || i == 9 || i == 10 || i == 11 || i == 12 || i == 13 || i == 14 || i == 15 || i == 16 || i == 17 || i == 18 || i == 19 || i == 20 || i == 21 || i == 22 || i == 23 || i == 24 || i == 25 || i == 26 || i == 27);
    }
}

/// `KERN_OSVERSION` is 65, and names the build string.
pub proof fn lemma_kern_osversion_is_65()
    ensures
        mib_lookup((CTL_KERN, 65i32)) is Some,
        mib_lookup((CTL_KERN, 65i32))->0.name == "kern.osversion",
{
    let t = sysctl_table();
    assert(is_last_with_mib(t, (CTL_KERN, 65i32), 27));
    let k = choose|k: int| is_last_with_mib(t, (CTL_KERN, 65i32), k);
    lemma_last_with_mib_unique(t, (CTL_KERN, 65i32), 27, k);
}

// MARK: - Answering

/// What a call leaves behind: its return value, `errno`, and guest memory.
pub type Outcome = (i32, i32, Map<u32, u8>);

/// How many bytes a value handed to a buffer of `oldlen` bytes takes up:
/// all of it when it fits; otherwise the low word of a 64-bit integer when
/// there is room for one, a prefix of raw bytes, or nothing.
pub open spec fn generic_write_len(v: SysInfoType, oldlen: int) -> int {
    if oldlen >= value_len(v) {
        value_len(v)
    } else {
        match v {
            SysInfoType::Int64(_) => if oldlen >= 4 { 4 } else { 0 },
            SysInfoType::Bytes(_) => oldlen,
            _ => 0,
        }
    }
}

/// The `*oldlenp` in memory `m`.
pub open spec fn read_len(m: Map<u32, u8>, oldlenp: u32) -> u32 {
    le_u32(bytes_at(m, oldlenp as int, 4))
}

/// The memory a call answering with `v` touches is there to touch.
pub open spec fn generic_ok(m: Map<u32, u8>, v: Option<SysInfoType>, oldp: u32, oldlenp: u32, newp: u32, newlen: u32) -> bool {
    newp == 0 && newlen == 0 && v is Some ==> {
        &&& valid_range(oldlenp as int, 4)
        &&& oldp != 0 ==> valid_range(oldp as int, generic_write_len(v->0, read_len(m, oldlenp) as int))
    }
}

/// Answering with `v` (or with nothing, for an unknown name). A request to
/// set a value fails with `EPERM`, as it does on a device. A null `oldp`
/// asks only for the size. A buffer that is too small still gets the low
/// word of a 64-bit integer, or as many raw bytes as fit; anything else that
/// does not fit fails.
pub open spec fn generic_result(
    m: Map<u32, u8>,
    errno: i32,
    v: Option<SysInfoType>,
    oldp: u32,
    oldlenp: u32,
    newp: u32,
    newlen: u32,
) -> Outcome {
    if newp != 0 || newlen != 0 {
        (-1i32, EPERM, m)
    } else if v is None {
        (-1i32, errno, m)
    } else {
        let v = v->0;
        let len = value_len(v);
        if oldp == 0 {
            (0, errno, write_spec(m, oldlenp as int, le_bytes_u32(len as u32)))
        } else {
            let oldlen = read_len(m, oldlenp);
            if oldlen >= len {
                (0, errno, write_spec(write_spec(m, oldp as int, value_bytes(v)), oldlenp as int, le_bytes_u32(len as u32)))
            } else {
                match v {
                    SysInfoType::Int64(n) => if oldlen >= 4 {
                        (0, errno, write_spec(write_spec(m, oldp as int, le_bytes_u32((n as i32) as u32)), oldlenp as int, le_bytes_u32(4)))
                    } else {
                        (-1i32, errno, m)
                    },
                    SysInfoType::Bytes(b) => (0, errno, write_spec(write_spec(m, oldp as int, b@.take(oldlen as int)), oldlenp as int, le_bytes_u32(oldlen))),
                    _ => (-1i32, errno, m),
                }
            }
        }
    }
}

/// Only guest memory and `errno` have changed, and the heap is as it was.
pub open spec fn only_mem_errno_changed(a: Environment, b: Environment) -> bool {
    &&& b == (Environment { mem: b.mem, errno: b.errno, ..a })
    &&& b.mem.blocks() == a.mem.blocks()
    &&& b.mem.heap_next() == a.mem.heap_next()
    &&& b.mem.heap_end() == a.mem.heap_end()
    &&& b.mem.wf() == a.mem.wf()
}

/// Write `v` at `addr`.
fn write_value(mem: &mut GuestMemory, addr: u32, v: SysInfoType)
    requires
        valid_range(addr as int, value_len(v)),
    ensures
        final(mem)@ == write_spec(old(mem)@, addr as int, value_bytes(v)),
        final(mem).blocks() == old(mem).blocks(),
        final(mem).heap_next() == old(mem).heap_next(),
        final(mem).heap_end() == old(mem).heap_end(),
        final(mem).wf() == old(mem).wf(),
{
    match v {
        SysInfoType::Str(s) => {
            let bytes = s.as_bytes();
            mem.write_bytes(addr, bytes);
            let n = bytes.len();
            mem.write_u8(addr + n as u32, 0);
            proof {
                crate::mem::lemma_write_concat(old(mem)@, addr as int, bytes@, seq![0u8]);
                assert(bytes@ + seq![0u8] =~= bytes@.push(0u8));
            }
        },
        SysInfoType::Int32(n) => {
            mem.write_i32(addr, n);
        },
        SysInfoType::Int64(n) => {
            mem.write_i64(addr, n);
        },
        SysInfoType::Bytes(b) => {
            mem.write_bytes(addr, b);
        },
    }
}

/// The length of a value that fits, as a guest `size_t`.
fn value_size(v: SysInfoType) -> (r: u32)
    requires
        value_fits(v),
    ensures
        r == value_len(v),
{
    match v {
        SysInfoType::Str(s) => (s.len() + 1) as u32,
        SysInfoType::Int32(_) => 4,
        SysInfoType::Int64(_) => 8,
        SysInfoType::Bytes(b) => b.len() as u32,
    }
}

/// Answer a `sysctl` or `sysctlbyname` with `value`, the value of the name
/// asked for, or `None` for a name with no value.
pub fn sysctl_generic(
    env: &mut Environment,
    value: Option<SysInfoType>,
    oldp: u32,
    oldlenp: u32,
    newp: u32,
    newlen: u32,
) -> (r: i32)
    requires
        value is Some ==> value_fits(value->0),
        generic_ok(old(env).mem@, value, oldp, oldlenp, newp, newlen),
    ensures
        (r, final(env).errno, final(env).mem@) == generic_result(
            old(env).mem@,
            old(env).errno,
            value,
            oldp,
            oldlenp,
            newp,
            newlen,
        ),
        only_mem_errno_changed(*old(env), *final(env)),
{
    if newp != 0 || newlen != 0 {
        env.set_errno(EPERM);
        return -1;
    }
    let v = match value {
        Some(v) => v,
        None => {
            return -1;
        },
    };
    let len = value_size(v);
    if oldp == 0 {
        env.mem.write_u32(oldlenp, len);
        return 0;
    }
    let oldlen = env.mem.read_u32(oldlenp);
    if oldlen < len {
        match v {
            SysInfoType::Int64(num) => {
                if oldlen >= 4 {
                    let truncated = num as i32;
                    env.mem.write_i32(oldp, truncated);
                    env.mem.write_u32(oldlenp, 4);
                    return 0;
                }
                return -1;
            },
            SysInfoType::Bytes(bytes) => {
                let copy_len = oldlen;
                env.mem.write_bytes_from(oldp, bytes, 0, copy_len as usize);
                assert(bytes@.subrange(0, copy_len as int) =~= bytes@.take(copy_len as int));
                env.mem.write_u32(oldlenp, copy_len);
                return 0;
            },
            _ => {
                return -1;
            },
        }
    }
    write_value(&mut env.mem, oldp, v);
    env.mem.write_u32(oldlenp, len);
    0
}

// MARK: - kern.proc

/// A `struct kinfo_proc` cut to `len` bytes: all zero, except that the
/// process is runnable and has pid `pid`. Its `p_flag` is zero, so no
/// `P_TRACED`: nobody is debugging it.
pub open spec fn kinfo_proc_bytes(len: int, pid: i32) -> Seq<u8> {
    let z = Seq::new(len as nat, |i: int| 0u8);
    let a = if len >= KP_PROC_P_STAT + 1 { splice(z, KP_PROC_P_STAT as int, seq![SRUN]) } else { z };
    let b = if len >= KP_PROC_P_PID + 4 { splice(a, KP_PROC_P_PID as int, le_bytes_u32(pid as u32)) } else { a };
    if len >= KP_PROC_P_FLAG + 4 { splice(b, KP_PROC_P_FLAG as int, le_bytes_u32(0)) } else { b }
}

/// How much of the `struct kinfo_proc` a buffer of `oldlen` bytes gets.
pub open spec fn kinfo_len(oldlen: u32) -> int {
    if oldlen < KINFO_PROC_SIZE { oldlen as int } else { KINFO_PROC_SIZE as int }
}

/// The memory `kern_proc` touches is there to touch.
pub open spec fn kern_proc_ok(m: Map<u32, u8>, name: u32, name_len: u32, oldp: u32, oldlenp: u32) -> bool {
    name_len >= 4 ==> {
        &&& valid_range(name + 8, 4)
        &&& (le_u32(bytes_at(m, name + 8, 4)) as i32 == KERN_PROC_PID && oldlenp != 0) ==> {
            &&& valid_range(oldlenp as int, 4)
            &&& oldp != 0 ==> valid_range(oldp as int, kinfo_len(read_len(m, oldlenp)))
        }
    }
}

/// `sysctl([CTL_KERN, KERN_PROC, KERN_PROC_PID, pid])`. Other selectors ask
/// for lists and fail with `EINVAL`; a null `oldlenp` fails with `EFAULT`; a
/// null `oldp` asks for the size. Otherwise as much of the answer as the
/// buffer has room for is written.
pub open spec fn kern_proc_result(m: Map<u32, u8>, errno: i32, pid: i32, name: u32, name_len: u32, oldp: u32, oldlenp: u32) -> Outcome {
    if name_len < 4 || le_u32(bytes_at(m, name + 8, 4)) as i32 != KERN_PROC_PID {
        (-1i32, EINVAL, m)
    } else if oldlenp == 0 {
        (-1i32, EFAULT, m)
    } else if oldp == 0 {
        (0, errno, write_spec(m, oldlenp as int, le_bytes_u32(KINFO_PROC_SIZE)))
    } else {
        let len = kinfo_len(read_len(m, oldlenp));
        (0, errno, write_spec(write_spec(m, oldp as int, kinfo_proc_bytes(len, pid)), oldlenp as int, le_bytes_u32(len as u32)))
    }
}

/// What a process can find out about a process: runnable, its pid, and no
/// flags, so "am I being debugged?" answers no.
pub fn kern_proc(env: &mut Environment, name: u32, name_len: u32, oldp: u32, oldlenp: u32) -> (r: i32)
    requires
        kern_proc_ok(old(env).mem@, name, name_len, oldp, oldlenp),
    ensures
        (r, final(env).errno, final(env).mem@) == kern_proc_result(
            old(env).mem@,
            old(env).errno,
            old(env).pid,
            name,
            name_len,
            oldp,
            oldlenp,
        ),
        only_mem_errno_changed(*old(env), *final(env)),
{
    if name_len < 4 || env.mem.read_i32(name + 8) != KERN_PROC_PID {
        env.set_errno(EINVAL);
        return -1;
    }
    if oldlenp == 0 {
        env.set_errno(EFAULT);
        return -1;
    }
    if oldp == 0 {
        env.mem.write_u32(oldlenp, KINFO_PROC_SIZE);
        return 0;
    }
    let oldlen = env.mem.read_u32(oldlenp);
    let len = if oldlen < KINFO_PROC_SIZE { oldlen } else { KINFO_PROC_SIZE };
    let ghost m0 = env.mem@;
    let ghost z = Seq::new(len as nat, |i: int| 0u8);
    env.mem.fill_zero(oldp, len);
    let ghost a = if len >= KP_PROC_P_STAT + 1 { splice(z, KP_PROC_P_STAT as int, seq![SRUN]) } else { z };
    if len >= KP_PROC_P_STAT + 1 {
        env.mem.write_u8(oldp + KP_PROC_P_STAT, SRUN);
        proof { crate::mem::lemma_write_inside(m0, oldp as int, z, KP_PROC_P_STAT as int, seq![SRUN]); }
    }
    assert(env.mem@ == write_spec(m0, oldp as int, a));
    let ghost b = if len >= KP_PROC_P_PID + 4 { splice(a, KP_PROC_P_PID as int, le_bytes_u32(env.pid as u32)) } else { a };
    if len >= KP_PROC_P_PID + 4 {
        let pid = env.pid;
        env.mem.write_i32(oldp + KP_PROC_P_PID, pid);
        proof { crate::mem::lemma_write_inside(m0, oldp as int, a, KP_PROC_P_PID as int, le_bytes_u32(pid as u32)); }
    }
    assert(env.mem@ == write_spec(m0, oldp as int, b));
    if len >= KP_PROC_P_FLAG + 4 {
        env.mem.write_i32(oldp + KP_PROC_P_FLAG, 0);
        proof { crate::mem::lemma_write_inside(m0, oldp as int, b, KP_PROC_P_FLAG as int, le_bytes_u32(0)); }
    }
    assert(env.mem@ == write_spec(m0, oldp as int, kinfo_proc_bytes(len as int, env.pid)));
    env.mem.write_u32(oldlenp, len);
    0
}

// MARK: - sysctl and sysctlbyname

/// `hw.machine` by MIB, which the emulated device decides: its name and a
/// NUL, or the size of that for a null `oldp`. A buffer too small fails.
pub open spec fn machine_result(m: Map<u32, u8>, errno: i32, machine: &'static str, oldp: u32, oldlenp: u32) -> Outcome {
    let bytes = machine.spec_bytes().push(0u8);
    let len = bytes.len();
    if oldp == 0 {
        (0, errno, write_spec(m, oldlenp as int, le_bytes_u32(len as u32)))
    } else if read_len(m, oldlenp) < len {
        (-1i32, errno, m)
    } else {
        (0, errno, write_spec(write_spec(m, oldp as int, bytes), oldlenp as int, le_bytes_u32(len as u32)))
    }
}

pub open spec fn machine_ok(m: Map<u32, u8>, machine: &'static str, oldp: u32, oldlenp: u32) -> bool {
    &&& valid_range(oldlenp as int, 4)
    &&& (oldp != 0 && read_len(m, oldlenp) >= machine.spec_bytes().len() + 1) ==> valid_range(
        oldp as int,
        machine.spec_bytes().len() + 1int,
    )
}

/// The value of the MIB `mib` on a device with `phys` bytes of RAM: the
/// memory sizes come from the device, the rest from the table.
pub open spec fn mib_value(phys: u32, mib: (i32, i32)) -> Option<SysInfoType> {
    if mib == (6i32, 5i32) {
        Some(SysInfoType::Int32(phys as i32))
    } else if mib == (6i32, 24i32) {
        Some(SysInfoType::Int64(phys as i64))
    } else if mib == (6i32, 6i32) {
        Some(SysInfoType::Int32((phys / 4 * 3) as i32))
    } else if mib_lookup(mib) is Some {
        Some(mib_lookup(mib)->0.value)
    } else {
        None
    }
}

/// The value of the name spelled `name`: `hw.machine` and the memory sizes
/// come from the device, the rest from the table.
pub open spec fn name_value(machine: &'static str, phys: u32, name: Seq<u8>) -> Option<SysInfoType> {
    if name == "hw.machine".spec_bytes() {
        Some(SysInfoType::Str(machine))
    } else if name == "hw.physmem".spec_bytes() {
        Some(SysInfoType::Int32(phys as i32))
    } else if name == "hw.memsize".spec_bytes() {
        Some(SysInfoType::Int64(phys as i64))
    } else if name == "hw.usermem".spec_bytes() {
        Some(SysInfoType::Int32((phys / 4 * 3) as i32))
    } else if name_lookup(name) is Some {
        Some(name_lookup(name)->0.value)
    } else {
        None
    }
}

/// The first two components of the MIB at `name`.
pub open spec fn mib_at(m: Map<u32, u8>, name: u32) -> (i32, i32) {
    (le_u32(bytes_at(m, name as int, 4)) as i32, le_u32(bytes_at(m, name + 4, 4)) as i32)
}

/// `sysctl(name, name_len, oldp, oldlenp, newp, newlen)`, keyed on the first
/// two components of the MIB: fewer than two fail; an attempt to set a value
/// fails with `EPERM`, whatever the name, as it does on a device;
/// `hw.machine` and `kern.proc` have answers of their own; everything else
/// is looked up.
pub open spec fn sysctl_result(env: Environment, name: u32, name_len: u32, oldp: u32, oldlenp: u32, newp: u32, newlen: u32) -> Outcome {
    let m = env.mem@;
    if name_len < 2 {
        (-1i32, 0i32, m)
    } else {
        let mib = mib_at(m, name);
        if newp != 0 || newlen != 0 {
            (-1i32, EPERM, m)
        } else if mib == (6i32, 1i32) {
            machine_result(m, 0, env.machine_name, oldp, oldlenp)
        } else if mib == (CTL_KERN, KERN_PROC) {
            kern_proc_result(m, 0, env.pid, name, name_len, oldp, oldlenp)
        } else {
            generic_result(m, 0, mib_value(env.physical_memory, mib), oldp, oldlenp, newp, newlen)
        }
    }
}

/// The memory `sysctl` touches is there to touch.
pub open spec fn sysctl_ok(env: Environment, name: u32, name_len: u32, oldp: u32, oldlenp: u32, newp: u32, newlen: u32) -> bool {
    let m = env.mem@;
    name_len >= 2 ==> {
        &&& valid_range(name as int, 8)
        &&& (newp == 0 && newlen == 0) ==> sysctl_read_ok(env, name, name_len, oldp, oldlenp)
    }
}

/// The memory a read by MIB touches is there to touch.
pub open spec fn sysctl_read_ok(env: Environment, name: u32, name_len: u32, oldp: u32, oldlenp: u32) -> bool {
    let m = env.mem@;
    {
        &&& mib_at(m, name) == (6i32, 1i32) ==> machine_ok(m, env.machine_name, oldp, oldlenp)
        &&& mib_at(m, name) == (CTL_KERN, KERN_PROC) ==> kern_proc_ok(m, name, name_len, oldp, oldlenp)
        &&& (mib_at(m, name) != (6i32, 1i32) && mib_at(m, name) != (CTL_KERN, KERN_PROC)) ==> generic_ok(
            m,
            mib_value(env.physical_memory, mib_at(m, name)),
            oldp,
            oldlenp,
            0,
            0,
        )
    }
}

/// `int sysctl(int *name, u_int namelen, void *oldp, size_t *oldlenp, void
/// *newp, size_t newlen)`.
pub fn sysctl(
    env: &mut Environment,
    name: u32,
    name_len: u32,
    oldp: u32,
    oldlenp: u32,
    newp: u32,
    newlen: u32,
) -> (r: i32)
    requires
        old(env).wf(),
        sysctl_ok(*old(env), name, name_len, oldp, oldlenp, newp, newlen),
    ensures
        (r, final(env).errno, final(env).mem@) == sysctl_result(
            *old(env),
            name,
            name_len,
            oldp,
            oldlenp,
            newp,
            newlen,
        ),
        only_mem_errno_changed(*old(env), *final(env)),
        final(env).wf(),
{
    env.set_errno(0);
    if name_len < 2 {
        return -1;
    }
    let name0 = env.mem.read_i32(name);
    let name1 = env.mem.read_i32(name + 4);
    if newp != 0 || newlen != 0 {
        env.set_errno(EPERM);
        return -1;
    }
    if name0 == 6 && name1 == 1 {
        let machine_bytes = env.machine_name.as_bytes();
        let len = (machine_bytes.len() + 1) as u32;
        if oldp == 0 {
            env.mem.write_u32(oldlenp, len);
            return 0;
        }
        let oldlen = env.mem.read_u32(oldlenp);
        if oldlen < len {
            return -1;
        }
        write_value(&mut env.mem, oldp, SysInfoType::Str(env.machine_name));
        env.mem.write_u32(oldlenp, len);
        return 0;
    }
    if name0 == CTL_KERN && name1 == KERN_PROC {
        return kern_proc(env, name, name_len, oldp, oldlenp);
    }
    let value = mib_value_of(env.physical_memory, name0, name1);
    sysctl_generic(env, value, oldp, oldlenp, newp, newlen)
}

/// The value of the MIB `(name0, name1)` on a device with `phys` bytes of
/// RAM; it always fits a guest `size_t`.
fn mib_value_of(phys: u32, name0: i32, name1: i32) -> (r: Option<SysInfoType>)
    ensures
        r == mib_value(phys, (name0, name1)),
        r is Some ==> value_fits(r->0),
{
    let value = if name0 == 6 && name1 == 5 {
        Some(SysInfoType::Int32(phys as i32))
    } else if name0 == 6 && name1 == 24 {
        Some(SysInfoType::Int64(phys as i64))
    } else if name0 == 6 && name1 == 6 {
        Some(SysInfoType::Int32((phys / 4 * 3) as i32))
    } else {
        match int_map_get((name0, name1)) {
            Some((_, val)) => Some(val),
            None => None,
        }
    };
    proof {
        lemma_table_values_fit();
        if mib_lookup((name0, name1)) is Some {
            let t = sysctl_table();
            let k = choose|k: int| is_last_with_mib(t, (name0, name1), k);
            assert(value_fits(t[k].value));
        }
    }
    value
}

/// Whether `[addr, addr + n)` is a range of guest memory.
pub fn in_guest_range(addr: u32, n: u32) -> (r: bool)
    ensures
        r == valid_range(addr as int, n as int),
{
    addr > 0 && (addr as u64) + (n as u64) <= 0x1_0000_0000u64
}

/// Whether the memory a `sysctl` with these arguments would touch is there
/// to touch, which its caller must make sure of before the call.
pub fn sysctl_args_ok(
    env: &Environment,
    name: u32,
    name_len: u32,
    oldp: u32,
    oldlenp: u32,
    newp: u32,
    newlen: u32,
) -> (r: bool)
    requires
        env.wf(),
    ensures
        r == sysctl_ok(*env, name, name_len, oldp, oldlenp, newp, newlen),
{
    if name_len < 2 {
        return true;
    }
    if !in_guest_range(name, 8) {
        return false;
    }
    if newp != 0 || newlen != 0 {
        return true;
    }
    let name0 = env.mem.read_i32(name);
    let name1 = env.mem.read_i32(name + 4);
    if name0 == 6 && name1 == 1 {
        if !in_guest_range(oldlenp, 4) {
            return false;
        }
        let len = (env.machine_name.as_bytes().len() + 1) as u32;
        if oldp != 0 && env.mem.read_u32(oldlenp) >= len {
            return in_guest_range(oldp, len);
        }
        return true;
    }
    if name0 == CTL_KERN && name1 == KERN_PROC {
        if name_len < 4 {
            return true;
        }
        if (name as u64) + 12 > 0x1_0000_0000u64 {
            return false;
        }
        if env.mem.read_i32(name + 8) == KERN_PROC_PID && oldlenp != 0 {
            if !in_guest_range(oldlenp, 4) {
                return false;
            }
            if oldp != 0 {
                let oldlen = env.mem.read_u32(oldlenp);
                let n = if oldlen < KINFO_PROC_SIZE {
                    oldlen
                } else {
                    KINFO_PROC_SIZE
                };
                return in_guest_range(oldp, n);
            }
        }
        return true;
    }
    match mib_value_of(env.physical_memory, name0, name1) {
        None => true,
        Some(v) => {
            if !in_guest_range(oldlenp, 4) {
                return false;
            }
            if oldp == 0 {
                return true;
            }
            let oldlen = env.mem.read_u32(oldlenp);
            let size = value_size(v);
            let n = if oldlen >= size {
                size
            } else {
                match v {
                    SysInfoType::Int64(_) => if oldlen >= 4 {
                        4
                    } else {
                        0
                    },
                    SysInfoType::Bytes(_) => oldlen,
                    _ => 0,
                }
            };
            in_guest_range(oldp, n)
        },
    }
}

/// The memory `sysctlbyname` touches is there to touch, and the name is a
/// string.
pub open spec fn sysctlbyname_ok(env: Environment, name: u32, oldp: u32, oldlenp: u32, newp: u32, newlen: u32) -> bool {
    let m = env.mem@;
    &&& has_cstr(m, name as int)
    &&& vstd::utf8::valid_utf8(cstr_bytes(m, name as int))
    &&& generic_ok(m, name_value(env.machine_name, env.physical_memory, cstr_bytes(m, name as int)), oldp, oldlenp, newp, newlen)
}

/// `int sysctlbyname(const char *name, void *oldp, size_t *oldlenp, void
/// *newp, size_t newlen)`.
pub open spec fn sysctlbyname_result(env: Environment, name: u32, oldp: u32, oldlenp: u32, newp: u32, newlen: u32) -> Outcome {
    generic_result(
        env.mem@,
        0,
        name_value(env.machine_name, env.physical_memory, cstr_bytes(env.mem@, name as int)),
        oldp,
        oldlenp,
        newp,
        newlen,
    )
}

pub fn sysctlbyname(
    env: &mut Environment,
    name: u32,
    oldp: u32,
    oldlenp: u32,
    newp: u32,
    newlen: u32,
) -> (r: i32)
    requires
        old(env).wf(),
        sysctlbyname_ok(*old(env), name, oldp, oldlenp, newp, newlen),
    ensures
        (r, final(env).errno, final(env).mem@) == sysctlbyname_result(
            *old(env),
            name,
            oldp,
            oldlenp,
            newp,
            newlen,
        ),
        only_mem_errno_changed(*old(env), *final(env)),
        final(env).wf(),
{
    env.set_errno(0);
    let name_bytes = env.mem.read_cstr(name);
    proof {
        let n = choose|n: int| crate::mem::is_cstr_len(env.mem@, name as int, n);
        crate::mem::lemma_cstr_len_unique(env.mem@, name as int, n, name_bytes@.len() as int);
    }
    let phys = env.physical_memory;
    let value = if bytes_eq(name_bytes.as_slice(), "hw.machine".as_bytes()) {
        Some(SysInfoType::Str(env.machine_name))
    } else if bytes_eq(name_bytes.as_slice(), "hw.physmem".as_bytes()) {
        Some(SysInfoType::Int32(phys as i32))
    } else if bytes_eq(name_bytes.as_slice(), "hw.memsize".as_bytes()) {
        Some(SysInfoType::Int64(phys as i64))
    } else if bytes_eq(name_bytes.as_slice(), "hw.usermem".as_bytes()) {
        Some(SysInfoType::Int32((phys / 4 * 3) as i32))
    } else {
        match string_map_get(name_bytes.as_slice()) {
            Some((_, val)) => Some(val),
            None => None,
        }
    };
    proof {
        lemma_table_values_fit();
        if name_lookup(name_bytes@) is Some {
            let t = sysctl_table();
            let k = choose|k: int| is_last_with_name(t, name_bytes@, k);
            assert(value_fits(t[k].value));
        }
    }
    sysctl_generic(env, value, oldp, oldlenp, newp, newlen)
}

/// Asking for the size first and then reading into a buffer of that size
/// gets the whole value: the size a null `oldp` reports is what a read
/// needs and what it writes.
pub proof fn lemma_size_query_then_read(m: Map<u32, u8>, errno: i32, v: SysInfoType, oldp: u32, oldlenp: u32)
    requires
        value_fits(v),
        oldp != 0,
        valid_range(oldlenp as int, 4),
    ensures
        ({
            let (r1, e1, m1) = generic_result(m, errno, Some(v), 0, oldlenp, 0, 0);
            &&& r1 == 0
            &&& e1 == errno
            &&& read_len(m1, oldlenp) == value_len(v)
            &&& generic_result(m1, errno, Some(v), oldp, oldlenp, 0, 0) == (
                0i32,
                errno,
                write_spec(
                    write_spec(m1, oldp as int, value_bytes(v)),
                    oldlenp as int,
                    le_bytes_u32(value_len(v) as u32),
                ),
            )
        }),
{
    let len = value_len(v);
    let m1 = write_spec(m, oldlenp as int, le_bytes_u32(len as u32));
    crate::mem::lemma_read_written(m, oldlenp as int, le_bytes_u32(len as u32));
    crate::mem::lemma_le_u32_roundtrip(len as u32);
    assert(read_len(m1, oldlenp) == len);
}

/// The process `kern.proc` describes is runnable, has the pid it was asked
/// about, and carries no flags: in particular not `P_TRACED`, so "am I being
/// debugged?" answers no. Each field is there when the buffer has room for
/// it, and the rest is zero.
pub proof fn lemma_kinfo_proc_not_traced(len: int, pid: i32)
    requires
        0 <= len <= KINFO_PROC_SIZE,
    ensures
        kinfo_proc_bytes(len, pid).len() == len,
        len >= KP_PROC_P_FLAG + 4 ==> kinfo_proc_bytes(len, pid).subrange(16, 20) == seq![0u8, 0u8, 0u8, 0u8],
        len >= KP_PROC_P_STAT + 1 ==> kinfo_proc_bytes(len, pid)[20] == SRUN,
        len >= KP_PROC_P_PID + 4 ==> kinfo_proc_bytes(len, pid).subrange(24, 28) == le_bytes_u32(pid as u32),
        forall|i: int| 0 <= i < len && !(16 <= i < 21) && !(24 <= i < 28) ==> #[trigger] kinfo_proc_bytes(len, pid)[i] == 0,
{
    let z = Seq::new(len as nat, |i: int| 0u8);
    let a = if len >= 21 { splice(z, 20, seq![SRUN]) } else { z };
    let b = if len >= 28 { splice(a, 24, le_bytes_u32(pid as u32)) } else { a };
    let c = kinfo_proc_bytes(len, pid);
    assert(a.len() == len);
    assert(b.len() == len);
    assert(c.len() == len);
    if len >= 20 {
        assert(c.subrange(16, 20) =~= le_bytes_u32(0));
        assert(le_bytes_u32(0) =~= seq![0u8, 0u8, 0u8, 0u8]);
    }
    if len >= 21 {
        assert(a[20] == SRUN);
        assert(b[20] == SRUN);
        assert(c[20] == SRUN);
    }
    if len >= 28 {
        assert(b.subrange(24, 28) =~= le_bytes_u32(pid as u32));
        assert(c.subrange(24, 28) =~= le_bytes_u32(pid as u32));
    }
    assert forall|i: int| 0 <= i < len && !(16 <= i < 21) && !(24 <= i < 28) implies #[trigger] c[i] == 0 by {
        assert(z[i] == 0);
        assert(a[i] == 0);
        assert(b[i] == 0);
    }
}


// MARK: - Names

/// A number that tells the table's names apart: the length, the fifth byte
/// and the third byte from the end.
spec fn name_fingerprint(n: Seq<u8>) -> int {
    n.len() * 0x1_0000 + n[4] * 0x100 + n[n.len() - 3]
}

/// The entry whose name has fingerprint `k`; -1 for none.
spec fn fingerprint_slot(k: int) -> int {
    if k == 680297 { 0 } else if k == 552804 { 1 } else if k == 484195 { 2 } else if k == 811875 { 3 } else if k == 944227 { 4 } else if k == 1206381 { 5 } else if k == 880483 { 6 } else if k == 1142637 { 7 } else if k == 684153 { 8 } else if k == 880761 { 9 } else if k == 1011822 { 10 } else if k == 1273965 { 11 } else if k == 1013102 { 12 } else if k == 1073513 { 13 } else if k == 995689 { 14 } else if k == 930409 { 15 } else if k == 930665 { 16 } else if k == 682093 { 17 } else if k == 684909 { 18 } else if k == 681321 { 19 } else if k == 745833 { 20 } else if k == 732793 { 21 } else if k == 929377 { 22 } else if k == 994921 { 23 } else if k == 863841 { 24 } else if k == 798313 { 25 } else if k == 863849 { 26 } else if k == 929385 { 27 } else { -1 }
}

/// No two entries share a name, so a name finds its own entry.
pub proof fn lemma_names_are_distinct()
    ensures
        forall|i: int, j: int|
            0 <= i < j < sysctl_table().len() ==> (#[trigger] sysctl_table()[i]).name.spec_bytes()
                != (#[trigger] sysctl_table()[j]).name.spec_bytes(),
{
    reveal_strlit("hw.machine");
    assert(vstd::string::is_ascii("hw.machine"));
    assert(name_fingerprint("hw.machine".spec_bytes()) == 680297);
    reveal_strlit("hw.model");
    assert(vstd::string::is_ascii("hw.model"));
    assert(name_fingerprint("hw.model".spec_bytes()) == 552804);
    reveal_strlit("hw.ncpu");
    assert(vstd::string::is_ascii("hw.ncpu"));
    assert(name_fingerprint("hw.ncpu".spec_bytes()) == 484195);
    reveal_strlit("hw.activecpu");
    assert(vstd::string::is_ascii("hw.activecpu"));
    assert(name_fingerprint("hw.activecpu".spec_bytes()) == 811875);
    reveal_strlit("hw.physicalcpu");
    assert(vstd::string::is_ascii("hw.physicalcpu"));
    assert(name_fingerprint("hw.physicalcpu".spec_bytes()) == 944227);
    reveal_strlit("hw.physicalcpu_max");
    assert(vstd::string::is_ascii("hw.physicalcpu_max"));
    assert(name_fingerprint("hw.physicalcpu_max".spec_bytes()) == 1206381);
    reveal_strlit("hw.logicalcpu");
    assert(vstd::string::is_ascii("hw.logicalcpu"));
    assert(name_fingerprint("hw.logicalcpu".spec_bytes()) == 880483);
    reveal_strlit("hw.logicalcpu_max");
    assert(vstd::string::is_ascii("hw.logicalcpu_max"));
    assert(name_fingerprint("hw.logicalcpu_max".spec_bytes()) == 1142637);
    reveal_strlit("hw.cputype");
    assert(vstd::string::is_ascii("hw.cputype"));
    assert(name_fingerprint("hw.cputype".spec_bytes()) == 684153);
    reveal_strlit("hw.cpusubtype");
    assert(vstd::string::is_ascii("hw.cpusubtype"));
    assert(name_fingerprint("hw.cpusubtype".spec_bytes()) == 880761);
    reveal_strlit("hw.cpufrequency");
    assert(vstd::string::is_ascii("hw.cpufrequency"));
    assert(name_fingerprint("hw.cpufrequency".spec_bytes()) == 1011822);
    reveal_strlit("hw.cpufrequency_max");
    assert(vstd::string::is_ascii("hw.cpufrequency_max"));
    assert(name_fingerprint("hw.cpufrequency_max".spec_bytes()) == 1273965);
    reveal_strlit("hw.busfrequency");
    assert(vstd::string::is_ascii("hw.busfrequency"));
    assert(name_fingerprint("hw.busfrequency".spec_bytes()) == 1013102);
    reveal_strlit("hw.cachelinesize");
    assert(vstd::string::is_ascii("hw.cachelinesize"));
    assert(name_fingerprint("hw.cachelinesize".spec_bytes()) == 1073513);
    reveal_strlit("hw.l1dcachesize");
    assert(vstd::string::is_ascii("hw.l1dcachesize"));
    assert(name_fingerprint("hw.l1dcachesize".spec_bytes()) == 995689);
    reveal_strlit("hw.l2cachesize");
    assert(vstd::string::is_ascii("hw.l2cachesize"));
    assert(name_fingerprint("hw.l2cachesize".spec_bytes()) == 930409);
    reveal_strlit("hw.l3cachesize");
    assert(vstd::string::is_ascii("hw.l3cachesize"));
    assert(name_fingerprint("hw.l3cachesize".spec_bytes()) == 930665);
    reveal_strlit("hw.physmem");
    assert(vstd::string::is_ascii("hw.physmem"));
    assert(name_fingerprint("hw.physmem".spec_bytes()) == 682093);
    reveal_strlit("hw.usermem");
    assert(vstd::string::is_ascii("hw.usermem"));
    assert(name_fingerprint("hw.usermem".spec_bytes()) == 684909);
    reveal_strlit("hw.memsize");
    assert(vstd::string::is_ascii("hw.memsize"));
    assert(name_fingerprint("hw.memsize".spec_bytes()) == 681321);
    reveal_strlit("hw.pagesize");
    assert(vstd::string::is_ascii("hw.pagesize"));
    assert(name_fingerprint("hw.pagesize".spec_bytes()) == 745833);
    reveal_strlit("kern.ostype");
    assert(vstd::string::is_ascii("kern.ostype"));
    assert(name_fingerprint("kern.ostype".spec_bytes()) == 732793);
    reveal_strlit("kern.osrelease");
    assert(vstd::string::is_ascii("kern.osrelease"));
    assert(name_fingerprint("kern.osrelease".spec_bytes()) == 929377);
    reveal_strlit("kern.osrevision");
    assert(vstd::string::is_ascii("kern.osrevision"));
    assert(name_fingerprint("kern.osrevision".spec_bytes()) == 994921);
    reveal_strlit("kern.hostname");
    assert(vstd::string::is_ascii("kern.hostname"));
    assert(name_fingerprint("kern.hostname".spec_bytes()) == 863841);
    reveal_strlit("kern.version");
    assert(vstd::string::is_ascii("kern.version"));
    assert(name_fingerprint("kern.version".spec_bytes()) == 798313);
    reveal_strlit("kern.boottime");
    assert(vstd::string::is_ascii("kern.boottime"));
    assert(name_fingerprint("kern.boottime".spec_bytes()) == 863849);
    reveal_strlit("kern.osversion");
    assert(vstd::string::is_ascii("kern.osversion"));
    assert(name_fingerprint("kern.osversion".spec_bytes()) == 929385);
    let t = sysctl_table();
    assert forall|i: int| 0 <= i < t.len() implies fingerprint_slot(name_fingerprint(#[trigger] t[i].name.spec_bytes())) == i by {
        assert(i == 0 || i == 1 || i == 2 || i == 3 || i == 4 || i == 5 || i == 6 || i == 7 || i == 8 || i == 9 || i == 10 || i == 11 || i == 12 || i == 13 || i == 14 || i == 15 || i == 16 || i == 17 || i == 18 || i == 19 || i == 20 || i == 21 || i == 22 || i == 23 || i == 24 || i == 25 || i == 26 || i == 27);
    }
    assert forall|i: int, j: int| 0 <= i < j < t.len() implies (#[trigger] t[i]).name.spec_bytes()
        != (#[trigger] t[j]).name.spec_bytes() by {
        assert(fingerprint_slot(name_fingerprint(t[i].name.spec_bytes())) == i);
        assert(fingerprint_slot(name_fingerprint(t[j].name.spec_bytes())) == j);
    }
}

/// Entry `i` is found under its name, and under its MIB when it has one.
proof fn lemma_entry_found(i: int, machine: &'static str, phys: u32)
    requires
        0 <= i < sysctl_table().len(),
    ensures
        ({
            let t = sysctl_table();
            &&& name_value(machine, phys, t[i].name.spec_bytes()) == if i == 0 {
                Some(SysInfoType::Str(machine))
            } else if i == 17 {
                Some(SysInfoType::Int32(phys as i32))
            } else if i == 18 {
                Some(SysInfoType::Int32((phys / 4 * 3) as i32))
            } else if i == 19 {
                Some(SysInfoType::Int64(phys as i64))
            } else {
                Some(t[i].value)
            }
            &&& (t[i].mib != (0i32, 0i32) && i != 17 && i != 18 && i != 19) ==> mib_value(phys, t[i].mib) == Some(t[i].value)
        }),
{
    let t = sysctl_table();
    let n = t[i].name.spec_bytes();
    lemma_names_are_distinct();
    lemma_no_two_entries_claim_the_same_mib();
    assert(is_last_with_name(t, n, i)) by {
        assert forall|j: int| i < j < t.len() implies #[trigger] t[j].name.spec_bytes() != n by {
            assert(t[i].name.spec_bytes() != t[j].name.spec_bytes());
        }
    }
    let k = choose|k: int| is_last_with_name(t, n, k);
    lemma_last_with_name_unique(t, n, i, k);
    if i != 0 {
        assert(t[0].name.spec_bytes() != t[i].name.spec_bytes());
    }
    if i != 17 {
        if i < 17 { assert(t[i].name.spec_bytes() != t[17].name.spec_bytes()); } else { assert(t[17].name.spec_bytes() != t[i].name.spec_bytes()); }
    }
    if i != 18 {
        if i < 18 { assert(t[i].name.spec_bytes() != t[18].name.spec_bytes()); } else { assert(t[18].name.spec_bytes() != t[i].name.spec_bytes()); }
    }
    if i != 19 {
        if i < 19 { assert(t[i].name.spec_bytes() != t[19].name.spec_bytes()); } else { assert(t[19].name.spec_bytes() != t[i].name.spec_bytes()); }
    }
    if t[i].mib != (0i32, 0i32) {
        let m = t[i].mib;
        assert(is_last_with_mib(t, m, i)) by {
            assert forall|j: int| i < j < t.len() implies #[trigger] t[j].mib != m by {
                assert(t[i].mib != t[j].mib);
            }
        }
        let k2 = choose|k: int| is_last_with_mib(t, m, k);
        lemma_last_with_mib_unique(t, m, i, k2);
        assert(i == 0 || i == 1 || i == 2 || i == 3 || i == 10 || i == 11 || i == 12 || i == 17 || i == 18
            || i == 19 || i == 20 || i == 21 || i == 22 || i == 23 || i == 24 || i == 25 || i == 26 || i == 27);
    }
}

/// What each name and each MIB reads: the values a device of this kind
/// reports, with the model from the device and the memory sizes from its
/// RAM. Entries without a MIB are reached by name only.
pub proof fn lemma_listed_values(machine: &'static str, phys: u32)
    ensures
        name_value(machine, phys, "hw.machine".spec_bytes()) == Some(SysInfoType::Str(machine)),
        name_value(machine, phys, "hw.model".spec_bytes()) == Some(SysInfoType::Str("N88AP")),
        name_value(machine, phys, "hw.ncpu".spec_bytes()) == Some(SysInfoType::Int32(1)),
        name_value(machine, phys, "hw.activecpu".spec_bytes()) == Some(SysInfoType::Int32(1)),
        name_value(machine, phys, "hw.physicalcpu".spec_bytes()) == Some(SysInfoType::Int32(1)),
        name_value(machine, phys, "hw.physicalcpu_max".spec_bytes()) == Some(SysInfoType::Int32(1)),
        name_value(machine, phys, "hw.logicalcpu".spec_bytes()) == Some(SysInfoType::Int32(1)),
        name_value(machine, phys, "hw.logicalcpu_max".spec_bytes()) == Some(SysInfoType::Int32(1)),
        name_value(machine, phys, "hw.cputype".spec_bytes()) == Some(SysInfoType::Int32(12)),
        name_value(machine, phys, "hw.cpusubtype".spec_bytes()) == Some(SysInfoType::Int32(6)),
        name_value(machine, phys, "hw.cpufrequency".spec_bytes()) == Some(SysInfoType::Int64(412000000)),
        name_value(machine, phys, "hw.cpufrequency_max".spec_bytes()) == Some(SysInfoType::Int64(412000000)),
        name_value(machine, phys, "hw.busfrequency".spec_bytes()) == Some(SysInfoType::Int64(103000000)),
        name_value(machine, phys, "hw.cachelinesize".spec_bytes()) == Some(SysInfoType::Int32(32)),
        name_value(machine, phys, "hw.l1dcachesize".spec_bytes()) == Some(SysInfoType::Int32(16384)),
        name_value(machine, phys, "hw.l2cachesize".spec_bytes()) == Some(SysInfoType::Int32(0)),
        name_value(machine, phys, "hw.l3cachesize".spec_bytes()) == Some(SysInfoType::Int32(0)),
        name_value(machine, phys, "hw.physmem".spec_bytes()) == Some(SysInfoType::Int32(phys as i32)),
        name_value(machine, phys, "hw.usermem".spec_bytes()) == Some(SysInfoType::Int32((phys / 4 * 3) as i32)),
        name_value(machine, phys, "hw.memsize".spec_bytes()) == Some(SysInfoType::Int64(phys as i64)),
        name_value(machine, phys, "hw.pagesize".spec_bytes()) == Some(SysInfoType::Int32(4096)),
        name_value(machine, phys, "kern.ostype".spec_bytes()) == Some(SysInfoType::Str("Darwin")),
        name_value(machine, phys, "kern.osrelease".spec_bytes()) == Some(SysInfoType::Str("13.0.0")),
        name_value(machine, phys, "kern.osrevision".spec_bytes()) == Some(SysInfoType::Int32(199506)),
        name_value(machine, phys, "kern.hostname".spec_bytes()) == Some(SysInfoType::Str("touchHLE")),
        name_value(machine, phys, "kern.version".spec_bytes()) == Some(SysInfoType::Str("Darwin Kernel Version 13.0.0: Wed Jun 13 16:55:00 PDT 2012; root:xnu-2107.7.55~11/RELEASE_ARM_S5L8920X")),
        name_value(machine, phys, "kern.boottime".spec_bytes()) == Some(SysInfoType::Int64(1600000000)),
        name_value(machine, phys, "kern.osversion".spec_bytes()) == Some(SysInfoType::Str("10B141")),
        mib_value(phys, (6i32, 2i32)) == Some(SysInfoType::Str("N88AP")),
        mib_value(phys, (6i32, 3i32)) == Some(SysInfoType::Int32(1)),
        mib_value(phys, (6i32, 25i32)) == Some(SysInfoType::Int32(1)),
        mib_value(phys, (6i32, 15i32)) == Some(SysInfoType::Int64(412000000)),
        mib_value(phys, (6i32, 16i32)) == Some(SysInfoType::Int64(412000000)),
        mib_value(phys, (6i32, 14i32)) == Some(SysInfoType::Int64(103000000)),
        mib_value(phys, (6i32, 5i32)) == Some(SysInfoType::Int32(phys as i32)),
        mib_value(phys, (6i32, 6i32)) == Some(SysInfoType::Int32((phys / 4 * 3) as i32)),
        mib_value(phys, (6i32, 24i32)) == Some(SysInfoType::Int64(phys as i64)),
        mib_value(phys, (6i32, 7i32)) == Some(SysInfoType::Int32(4096)),
        mib_value(phys, (1i32, 1i32)) == Some(SysInfoType::Str("Darwin")),
        mib_value(phys, (1i32, 2i32)) == Some(SysInfoType::Str("13.0.0")),
        mib_value(phys, (1i32, 3i32)) == Some(SysInfoType::Int32(199506)),
        mib_value(phys, (1i32, 10i32)) == Some(SysInfoType::Str("touchHLE")),
        mib_value(phys, (1i32, 4i32)) == Some(SysInfoType::Str("Darwin Kernel Version 13.0.0: Wed Jun 13 16:55:00 PDT 2012; root:xnu-2107.7.55~11/RELEASE_ARM_S5L8920X")),
        mib_value(phys, (1i32, 21i32)) == Some(SysInfoType::Int64(1600000000)),
        mib_value(phys, (1i32, 65i32)) == Some(SysInfoType::Str("10B141")),
{
    lemma_entry_found(0, machine, phys);
    lemma_entry_found(1, machine, phys);
    lemma_entry_found(2, machine, phys);
    lemma_entry_found(3, machine, phys);
    lemma_entry_found(4, machine, phys);
    lemma_entry_found(5, machine, phys);
    lemma_entry_found(6, machine, phys);
    lemma_entry_found(7, machine, phys);
    lemma_entry_found(8, machine, phys);
    lemma_entry_found(9, machine, phys);
    lemma_entry_found(10, machine, phys);
    lemma_entry_found(11, machine, phys);
    lemma_entry_found(12, machine, phys);
    lemma_entry_found(13, machine, phys);
    lemma_entry_found(14, machine, phys);
    lemma_entry_found(15, machine, phys);
    lemma_entry_found(16, machine, phys);
    lemma_entry_found(17, machine, phys);
    lemma_entry_found(18, machine, phys);
    lemma_entry_found(19, machine, phys);
    lemma_entry_found(20, machine, phys);
    lemma_entry_found(21, machine, phys);
    lemma_entry_found(22, machine, phys);
    lemma_entry_found(23, machine, phys);
    lemma_entry_found(24, machine, phys);
    lemma_entry_found(25, machine, phys);
    lemma_entry_found(26, machine, phys);
    lemma_entry_found(27, machine, phys);
}

/// Components of a MIB past the second are ignored, except by `kern.proc`,
/// whose third names what is asked about.
pub proof fn lemma_extra_mib_components_ignored(env: Environment, name: u32, name_len: u32, oldp: u32, oldlenp: u32, newp: u32, newlen: u32)
    requires
        name_len >= 2,
        mib_at(env.mem@, name) != (CTL_KERN, KERN_PROC),
    ensures
        sysctl_result(env, name, name_len, oldp, oldlenp, newp, newlen) == sysctl_result(env, name, 2, oldp, oldlenp, newp, newlen),
{
}

/// Reading a value by name and by MIB give the same answer, for every
/// entry that has a MIB, the values the device decides included: the same
/// result, the same `errno`, and the same bytes written.
#[verifier::spinoff_prover]
#[verifier::rlimit(40)]
pub proof fn lemma_by_name_agrees_with_by_mib(
    env: Environment,
    i: int,
    name: u32,
    name_len: u32,
    cname: u32,
    oldp: u32,
    oldlenp: u32,
    newp: u32,
    newlen: u32,
)
    requires
        0 <= i < sysctl_table().len(),
        sysctl_table()[i].mib != (0i32, 0i32),
        name_len >= 2,
        mib_at(env.mem@, name) == sysctl_table()[i].mib,
        cstr_bytes(env.mem@, cname as int) == sysctl_table()[i].name.spec_bytes(),
    ensures
        sysctl_result(env, name, name_len, oldp, oldlenp, newp, newlen) == sysctlbyname_result(
            env,
            cname,
            oldp,
            oldlenp,
            newp,
            newlen,
        ),
{
    let t = sysctl_table();
    let mib = t[i].mib;
    let n = t[i].name.spec_bytes();
    lemma_names_are_distinct();
    lemma_no_two_entries_claim_the_same_mib();
    assert(mib_slot(mib) == i) by {
        assert(i == 0 || i == 1 || i == 2 || i == 3 || i == 4 || i == 5 || i == 6 || i == 7 || i == 8
            || i == 9 || i == 10 || i == 11 || i == 12 || i == 13 || i == 14 || i == 15 || i == 16
            || i == 17 || i == 18 || i == 19 || i == 20 || i == 21 || i == 22 || i == 23 || i == 24
            || i == 25 || i == 26 || i == 27);
    }
    assert(mib != (CTL_KERN, KERN_PROC));
    if newp != 0 || newlen != 0 {
        return;
    }
    if i == 0 {
        assert(n == "hw.machine".spec_bytes());
        return;
    }
    assert(t[0].name.spec_bytes() == "hw.machine".spec_bytes());
    assert(t[17].name.spec_bytes() == "hw.physmem".spec_bytes());
    assert(t[18].name.spec_bytes() == "hw.usermem".spec_bytes());
    assert(t[19].name.spec_bytes() == "hw.memsize".spec_bytes());
    assert(n != "hw.machine".spec_bytes()) by {
        assert(t[0].name.spec_bytes() != t[i].name.spec_bytes());
    }
    assert(mib != (6i32, 1i32));
    if i == 17 || i == 18 || i == 19 {
        return;
    }
    assert(n != "hw.physmem".spec_bytes() && n != "hw.usermem".spec_bytes() && n != "hw.memsize".spec_bytes()) by {
        if i < 17 {
            assert(t[i].name.spec_bytes() != t[17].name.spec_bytes());
            assert(t[i].name.spec_bytes() != t[18].name.spec_bytes());
            assert(t[i].name.spec_bytes() != t[19].name.spec_bytes());
        } else {
            assert(t[17].name.spec_bytes() != t[i].name.spec_bytes());
            assert(t[18].name.spec_bytes() != t[i].name.spec_bytes());
            assert(t[19].name.spec_bytes() != t[i].name.spec_bytes());
        }
    }
    assert(mib != (6i32, 5i32) && mib != (6i32, 6i32) && mib != (6i32, 24i32));
    assert(is_last_with_mib(t, mib, i)) by {
        assert forall|j: int| i < j < t.len() implies #[trigger] t[j].mib != mib by {
            assert(t[i].mib != t[j].mib);
        }
    }
    let k = choose|k: int| is_last_with_mib(t, mib, k);
    lemma_last_with_mib_unique(t, mib, i, k);
    assert(is_last_with_name(t, n, i)) by {
        assert forall|j: int| i < j < t.len() implies #[trigger] t[j].name.spec_bytes() != n by {
            assert(t[i].name.spec_bytes() != t[j].name.spec_bytes());
        }
    }
    let k2 = choose|k: int| is_last_with_name(t, n, k);
    lemma_last_with_name_unique(t, n, i, k2);
}

} // verus!
