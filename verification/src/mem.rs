//! Guest memory: a flat 32-bit address space of bytes, and a page-granular
//! heap allocator over one region of it.

use std::collections::HashMap;
use vstd::prelude::*;

verus! {

broadcast use vstd::std_specs::hash::group_hash_axioms;

/// The guest's page size.
pub const PAGE_SIZE: u32 = 4096;

/// Mask of the bits of an address below page granularity.
pub const PAGE_SIZE_ALIGN_MASK: u32 = 4095;

/// The byte at `addr`. Memory that was never written reads as zero.
pub open spec fn byte_at(m: Map<u32, u8>, addr: int) -> u8 {
    if m.contains_key(addr as u32) {
        m[addr as u32]
    } else {
        0u8
    }
}

/// The `n` bytes starting at `addr`.
pub open spec fn bytes_at(m: Map<u32, u8>, addr: int, n: int) -> Seq<u8> {
    Seq::new(n as nat, |i: int| byte_at(m, addr + i))
}

/// Memory `m` with `data` written at `addr`.
pub open spec fn write_spec(m: Map<u32, u8>, addr: int, data: Seq<u8>) -> Map<u32, u8> {
    Map::new(
        |k: u32| m.contains_key(k) || (addr <= k < addr + data.len()),
        |k: u32|
            if addr <= k < addr + data.len() {
                data[k - addr]
            } else {
                m[k]
            },
    )
}

/// A range of `n` bytes at `addr` that the guest may touch: not the null
/// pointer, and not running off the end of the address space.
pub open spec fn valid_range(addr: int, n: int) -> bool {
    0 < addr && 0 <= n && addr + n <= 0x1_0000_0000
}

/// Little-endian bytes of a 32-bit value.
pub open spec fn le_bytes_u32(v: u32) -> Seq<u8> {
    seq![
        (v % 256) as u8,
        ((v / 256) % 256) as u8,
        ((v / 65536) % 256) as u8,
        ((v / 16777216) % 256) as u8,
    ]
}

/// Little-endian bytes of a 64-bit value.
pub open spec fn le_bytes_u64(v: u64) -> Seq<u8> {
    le_bytes_u32((v % 0x1_0000_0000) as u32) + le_bytes_u32((v / 0x1_0000_0000) as u32)
}

/// The 32-bit value whose little-endian bytes are `s`.
pub open spec fn le_u32(s: Seq<u8>) -> u32 {
    (s[0] + 256 * s[1] + 65536 * s[2] + 16777216 * s[3]) as u32
}

/// `n` is the length of the NUL-terminated string at `addr`.
pub open spec fn is_cstr_len(m: Map<u32, u8>, addr: int, n: int) -> bool {
    &&& 0 <= n
    &&& byte_at(m, addr + n) == 0
    &&& forall|i: int| 0 <= i < n ==> #[trigger] bytes_at(m, addr, n)[i] != 0
}

/// There is a NUL-terminated string at `addr` that lies in the address space.
pub open spec fn has_cstr(m: Map<u32, u8>, addr: int) -> bool {
    exists|n: int| valid_range(addr, n + 1) && is_cstr_len(m, addr, n)
}

/// The NUL-terminated string at `addr`, without its terminator.
pub open spec fn cstr_bytes(m: Map<u32, u8>, addr: int) -> Seq<u8> {
    bytes_at(m, addr, choose|n: int| is_cstr_len(m, addr, n))
}

/// A string has one length: the first NUL ends it.
pub proof fn lemma_cstr_len_unique(m: Map<u32, u8>, addr: int, n1: int, n2: int)
    requires
        is_cstr_len(m, addr, n1),
        is_cstr_len(m, addr, n2),
    ensures
        n1 == n2,
{
    if n1 < n2 {
        assert(bytes_at(m, addr, n2)[n1] != 0);
    } else if n2 < n1 {
        assert(bytes_at(m, addr, n1)[n2] != 0);
    }
}

/// The heap is as it was: the same allocations, the same room left.
pub open spec fn same_heap(a: GuestMemory, b: GuestMemory) -> bool {
    &&& b.blocks() == a.blocks()
    &&& b.heap_next() == a.heap_next()
    &&& b.heap_end() == a.heap_end()
    &&& b.wf() == a.wf()
}

/// Two writes back to back are one write of both.
pub proof fn lemma_write_concat(m: Map<u32, u8>, addr: int, s: Seq<u8>, t: Seq<u8>)
    requires
        0 <= addr,
        addr + s.len() + t.len() <= 0x1_0000_0000,
    ensures
        write_spec(write_spec(m, addr, s), addr + s.len(), t) == write_spec(m, addr, s + t),
{
    assert(write_spec(write_spec(m, addr, s), addr + s.len(), t) =~= write_spec(m, addr, s + t));
}

/// `s` with `t` written over it from position `k`.
pub open spec fn splice(s: Seq<u8>, k: int, t: Seq<u8>) -> Seq<u8> {
    s.take(k) + t + s.skip(k + t.len())
}

/// A write inside what an earlier write covered lands in that write.
pub proof fn lemma_write_inside(m: Map<u32, u8>, addr: int, s: Seq<u8>, k: int, t: Seq<u8>)
    requires
        0 <= addr,
        0 <= k,
        k + t.len() <= s.len(),
        addr + s.len() <= 0x1_0000_0000,
    ensures
        write_spec(write_spec(m, addr, s), addr + k, t) == write_spec(m, addr, splice(s, k, t)),
{
    let lhs = write_spec(write_spec(m, addr, s), addr + k, t);
    let rhs = write_spec(m, addr, splice(s, k, t));
    assert forall|x: u32| lhs.contains_key(x) == rhs.contains_key(x) by {}
    assert forall|x: u32| lhs.contains_key(x) implies lhs[x] == rhs[x] by {
        if addr + k <= x < addr + k + t.len() {
            assert(splice(s, k, t)[x - addr] == t[x - addr - k]);
        } else if addr <= x < addr + s.len() {
            if x < addr + k {
                assert(splice(s, k, t)[x - addr] == s[x - addr]);
            } else {
                assert(splice(s, k, t)[x - addr] == s.skip(k + t.len())[x - addr - k - t.len()]);
            }
        }
    }
    assert(lhs =~= rhs);
}

/// What was written is what is read back.
pub proof fn lemma_read_written(m: Map<u32, u8>, addr: int, s: Seq<u8>)
    requires
        valid_range(addr, s.len() as int),
    ensures
        bytes_at(write_spec(m, addr, s), addr, s.len() as int) == s,
{
    let w = write_spec(m, addr, s);
    assert forall|i: int| 0 <= i < s.len() implies bytes_at(w, addr, s.len() as int)[i] == s[i] by {
        let k = (addr + i) as u32;
        assert(k as int == addr + i);
        assert(w.contains_key(k));
    }
    assert(bytes_at(w, addr, s.len() as int) =~= s);
}

/// A 32-bit value survives its little-endian encoding.
pub proof fn lemma_le_u32_roundtrip(v: u32)
    ensures
        le_u32(le_bytes_u32(v)) == v,
{
    let b = le_bytes_u32(v);
    let v0 = v as int;
    let q1 = v0 / 256;
    let q2 = q1 / 256;
    let q3 = q2 / 256;
    assert(v0 == 256 * q1 + v0 % 256);
    assert(q1 == 256 * q2 + q1 % 256);
    assert(q2 == 256 * q3 + q2 % 256);
    assert(q2 == v0 / 65536) by {
        vstd::arithmetic::div_mod::lemma_div_denominator(v0, 256, 256);
    }
    assert(q3 == v0 / 16777216) by {
        vstd::arithmetic::div_mod::lemma_div_denominator(v0, 65536, 256);
    }
    assert(q3 < 256);
}

/// A word read back from where it was written is the word written, and a
/// write leaves every byte outside it as it was.
pub proof fn lemma_read_u32_after_write(m: Map<u32, u8>, addr: int, v: u32, other: int)
    requires
        valid_range(addr, 4),
        0 <= other < 0x1_0000_0000,
        !(addr <= other < addr + 4),
    ensures
        le_u32(bytes_at(write_spec(m, addr, le_bytes_u32(v)), addr, 4)) == v,
        byte_at(write_spec(m, addr, le_bytes_u32(v)), other) == byte_at(m, other),
{
    lemma_read_written(m, addr, le_bytes_u32(v));
    lemma_le_u32_roundtrip(v);
    assert((other as u32) as int == other);
}

/// The number of bytes an allocation of `len` bytes takes up: whole pages,
/// and at least one.
pub open spec fn alloc_size(len: u32) -> int {
    if len == 0 {
        PAGE_SIZE as int
    } else {
        ((len as int + 4095) / 4096) * 4096
    }
}

pub struct GuestMemory {
    bytes: HashMap<u32, u8>,
    heap_next: u32,
    heap_end: u32,
    blocks: HashMap<u32, u32>,
}

impl View for GuestMemory {
    type V = Map<u32, u8>;

    closed spec fn view(&self) -> Map<u32, u8> {
        self.bytes@
    }
}

impl GuestMemory {
    /// Live heap allocations: start address to size in bytes.
    pub closed spec fn blocks(&self) -> Map<u32, u32> {
        self.blocks@
    }

    /// Where the next allocation would start.
    pub closed spec fn heap_next(&self) -> u32 {
        self.heap_next
    }

    /// The end of the heap region.
    pub closed spec fn heap_end(&self) -> u32 {
        self.heap_end
    }

    pub closed spec fn wf(&self) -> bool {
        &&& self.heap_next % PAGE_SIZE == 0
        &&& self.heap_next > 0
        &&& self.heap_next <= self.heap_end
        &&& forall|p: u32| #[trigger] self.blocks@.contains_key(p) ==> p < self.heap_next && p != 0
    }

    /// Whether an allocation of `len` bytes fits in what is left of the heap.
    pub open spec fn can_alloc(&self, len: u32) -> bool {
        self.heap_next() + alloc_size(len) <= self.heap_end()
    }

    /// Empty memory whose heap is `[heap_start, heap_end)`.
    pub fn new(heap_start: u32, heap_end: u32) -> (r: GuestMemory)
        requires
            heap_start % PAGE_SIZE == 0,
            heap_start > 0,
            heap_start <= heap_end,
        ensures
            r.wf(),
            r@ == Map::<u32, u8>::empty(),
            r.blocks() == Map::<u32, u32>::empty(),
            r.heap_next() == heap_start,
            r.heap_end() == heap_end,
    {
        GuestMemory { bytes: HashMap::new(), heap_next: heap_start, heap_end, blocks: HashMap::new() }
    }

    pub fn read_u8(&self, addr: u32) -> (r: u8)
        requires
            valid_range(addr as int, 1),
        ensures
            r == byte_at(self@, addr as int),
    {
        match self.bytes.get(&addr) {
            Some(b) => *b,
            None => 0,
        }
    }

    pub fn write_u8(&mut self, addr: u32, v: u8)
        requires
            valid_range(addr as int, 1),
        ensures
            final(self)@ == write_spec(old(self)@, addr as int, seq![v]),
            final(self).blocks() == old(self).blocks(),
            final(self).heap_next() == old(self).heap_next(),
            final(self).heap_end() == old(self).heap_end(),
            final(self).wf() == old(self).wf(),
    {
        self.bytes.insert(addr, v);
        assert(self.bytes@ =~= write_spec(old(self)@, addr as int, seq![v]));
    }

    /// The `n` bytes at `addr`.
    pub fn read_bytes(&self, addr: u32, n: u32) -> (r: Vec<u8>)
        requires
            valid_range(addr as int, n as int),
        ensures
            r@ == bytes_at(self@, addr as int, n as int),
    {
        let mut r: Vec<u8> = Vec::new();
        let mut i: u32 = 0;
        while i < n
            invariant
                valid_range(addr as int, n as int),
                i <= n,
                r@ == bytes_at(self@, addr as int, i as int),
            decreases n - i,
        {
            let b = self.read_u8(addr + i);
            r.push(b);
            i = i + 1;
            assert(r@ =~= bytes_at(self@, addr as int, i as int));
        }
        r
    }

    /// Write `data` at `addr`.
    pub fn write_bytes(&mut self, addr: u32, data: &[u8])
        requires
            valid_range(addr as int, data@.len() as int),
        ensures
            final(self)@ == write_spec(old(self)@, addr as int, data@),
            final(self).blocks() == old(self).blocks(),
            final(self).heap_next() == old(self).heap_next(),
            final(self).heap_end() == old(self).heap_end(),
            final(self).wf() == old(self).wf(),
    {
        let n = data.len();
        let mut i: usize = 0;
        assert(self.bytes@ =~= write_spec(old(self)@, addr as int, data@.take(0)));
        while i < n
            invariant
                valid_range(addr as int, data@.len() as int),
                n == data@.len(),
                i <= n,
                self.bytes@ == write_spec(old(self)@, addr as int, data@.take(i as int)),
                self.blocks@ == old(self).blocks@,
                self.heap_next == old(self).heap_next,
                self.heap_end == old(self).heap_end,
            decreases n - i,
        {
            let a: u32 = addr + (i as u32);
            self.bytes.insert(a, data[i]);
            i = i + 1;
            assert(self.bytes@ =~= write_spec(old(self)@, addr as int, data@.take(i as int)));
        }
        assert(data@.take(n as int) =~= data@);
    }

    /// Write `data[start..start + n]` at `addr`.
    pub fn write_bytes_from(&mut self, addr: u32, data: &[u8], start: usize, n: usize)
        requires
            valid_range(addr as int, n as int),
            start + n <= data@.len(),
        ensures
            final(self)@ == write_spec(old(self)@, addr as int, data@.subrange(start as int, start + n)),
            final(self).blocks() == old(self).blocks(),
            final(self).heap_next() == old(self).heap_next(),
            final(self).heap_end() == old(self).heap_end(),
            final(self).wf() == old(self).wf(),
    {
        let mut i: usize = 0;
        let dl = data.len();
        assert(self.bytes@ =~= write_spec(old(self)@, addr as int, data@.subrange(start as int, start as int)));
        while i < n
            invariant
                valid_range(addr as int, n as int),
                start + n <= data@.len(),
                dl == data@.len(),
                i <= n,
                self.bytes@ == write_spec(old(self)@, addr as int, data@.subrange(start as int, start + i)),
                self.blocks@ == old(self).blocks@,
                self.heap_next == old(self).heap_next,
                self.heap_end == old(self).heap_end,
            decreases n - i,
        {
            let a: u32 = addr + (i as u32);
            assert(start + i < data@.len());
            self.bytes.insert(a, data[start + i]);
            i = i + 1;
            assert(self.bytes@ =~= write_spec(old(self)@, addr as int, data@.subrange(start as int, start + i)));
        }
    }

    /// Set the `n` bytes at `addr` to zero.
    pub fn fill_zero(&mut self, addr: u32, n: u32)
        requires
            valid_range(addr as int, n as int),
        ensures
            final(self)@ == write_spec(old(self)@, addr as int, Seq::new(n as nat, |i: int| 0u8)),
            final(self).blocks() == old(self).blocks(),
            final(self).heap_next() == old(self).heap_next(),
            final(self).heap_end() == old(self).heap_end(),
            final(self).wf() == old(self).wf(),
    {
        let mut i: u32 = 0;
        assert(self.bytes@ =~= write_spec(old(self)@, addr as int, Seq::new(0, |i: int| 0u8)));
        while i < n
            invariant
                valid_range(addr as int, n as int),
                i <= n,
                self.bytes@ == write_spec(old(self)@, addr as int, Seq::new(i as nat, |i: int| 0u8)),
                self.blocks@ == old(self).blocks@,
                self.heap_next == old(self).heap_next,
                self.heap_end == old(self).heap_end,
            decreases n - i,
        {
            self.bytes.insert(addr + i, 0u8);
            i = i + 1;
            assert(self.bytes@ =~= write_spec(old(self)@, addr as int, Seq::new(i as nat, |i: int| 0u8)));
        }
    }
    pub fn read_u32(&self, addr: u32) -> (r: u32)
        requires
            valid_range(addr as int, 4),
        ensures
            r == le_u32(bytes_at(self@, addr as int, 4)),
    {
        let b0 = self.read_u8(addr) as u32;
        let b1 = self.read_u8(addr + 1) as u32;
        let b2 = self.read_u8(addr + 2) as u32;
        let b3 = self.read_u8(addr + 3) as u32;
        b0 + 256 * b1 + 65536 * b2 + 16777216 * b3
    }

    pub fn read_i32(&self, addr: u32) -> (r: i32)
        requires
            valid_range(addr as int, 4),
        ensures
            r == le_u32(bytes_at(self@, addr as int, 4)) as i32,
    {
        self.read_u32(addr) as i32
    }

    pub fn write_u32(&mut self, addr: u32, v: u32)
        requires
            valid_range(addr as int, 4),
        ensures
            final(self)@ == write_spec(old(self)@, addr as int, le_bytes_u32(v)),
            final(self).blocks() == old(self).blocks(),
            final(self).heap_next() == old(self).heap_next(),
            final(self).heap_end() == old(self).heap_end(),
            final(self).wf() == old(self).wf(),
    {
        let data: Vec<u8> = vec![
            (v % 256) as u8,
            ((v / 256) % 256) as u8,
            ((v / 65536) % 256) as u8,
            ((v / 16777216) % 256) as u8,
        ];
        assert(data@ =~= le_bytes_u32(v));
        self.write_bytes(addr, data.as_slice());
    }

    pub fn write_i32(&mut self, addr: u32, v: i32)
        requires
            valid_range(addr as int, 4),
        ensures
            final(self)@ == write_spec(old(self)@, addr as int, le_bytes_u32(v as u32)),
            final(self).blocks() == old(self).blocks(),
            final(self).heap_next() == old(self).heap_next(),
            final(self).heap_end() == old(self).heap_end(),
            final(self).wf() == old(self).wf(),
    {
        self.write_u32(addr, v as u32);
    }

    pub fn write_i64(&mut self, addr: u32, v: i64)
        requires
            valid_range(addr as int, 8),
        ensures
            final(self)@ == write_spec(old(self)@, addr as int, le_bytes_u64(v as u64)),
            final(self).blocks() == old(self).blocks(),
            final(self).heap_next() == old(self).heap_next(),
            final(self).heap_end() == old(self).heap_end(),
            final(self).wf() == old(self).wf(),
    {
        let u = v as u64;
        let lo = (u % 0x1_0000_0000) as u32;
        let hi = (u / 0x1_0000_0000) as u32;
        let data: Vec<u8> = vec![
            (lo % 256) as u8,
            ((lo / 256) % 256) as u8,
            ((lo / 65536) % 256) as u8,
            ((lo / 16777216) % 256) as u8,
            (hi % 256) as u8,
            ((hi / 256) % 256) as u8,
            ((hi / 65536) % 256) as u8,
            ((hi / 16777216) % 256) as u8,
        ];
        assert(data@ =~= le_bytes_u64(u));
        self.write_bytes(addr, data.as_slice());
    }

    /// Whether a NUL-terminated string starts at `addr` and ends before the
    /// address space does, as [read_cstr](Self::read_cstr) needs.
    pub fn has_cstr_at(&self, addr: u32) -> (r: bool)
        ensures
            r == has_cstr(self@, addr as int),
    {
        if addr == 0 {
            return false;
        }
        let mut i: u32 = 0;
        loop
            invariant
                addr > 0,
                addr as int + i as int <= 0x1_0000_0000,
                forall|j: int| 0 <= j < i ==> #[trigger] bytes_at(self@, addr as int, i as int)[j] != 0,
            decreases 0x1_0000_0000 - addr - i,
        {
            if (addr as u64) + (i as u64) >= 0x1_0000_0000u64 {
                proof {
                    assert forall|n: int| !(valid_range(addr as int, n + 1) && is_cstr_len(self@, addr as int, n)) by {
                        if valid_range(addr as int, n + 1) && is_cstr_len(self@, addr as int, n) {
                            assert(bytes_at(self@, addr as int, i as int)[n] != 0);
                        }
                    }
                }
                return false;
            }
            if self.read_u8(addr + i) == 0 {
                assert(valid_range(addr as int, i + 1) && is_cstr_len(self@, addr as int, i as int));
                return true;
            }
            let ghost prev = i;
            i = i + 1;
            assert forall|j: int| 0 <= j < i implies #[trigger] bytes_at(self@, addr as int, i as int)[j] != 0 by {
                if j < prev {
                    assert(bytes_at(self@, addr as int, prev as int)[j] != 0);
                }
            }
        }
    }

    /// The NUL-terminated string at `addr`, without its terminator.
    pub fn read_cstr(&self, addr: u32) -> (r: Vec<u8>)
        requires
            has_cstr(self@, addr as int),
        ensures
            is_cstr_len(self@, addr as int, r@.len() as int),
            r@ == bytes_at(self@, addr as int, r@.len() as int),
    {
        let ghost n = choose|n: int| valid_range(addr as int, n + 1) && is_cstr_len(self@, addr as int, n);
        let mut r: Vec<u8> = Vec::new();
        let mut i: u32 = 0;
        loop
            invariant
                valid_range(addr as int, n + 1),
                is_cstr_len(self@, addr as int, n),
                0 <= i <= n,
                r@ == bytes_at(self@, addr as int, i as int),
            decreases n - i,
        {
            let b = self.read_u8(addr + i);
            if b == 0 {
                proof {
                    if (i as int) < n {
                        assert(bytes_at(self@, addr as int, n)[i as int] != 0);
                    }
                }
                return r;
            }
            r.push(b);
            i = i + 1;
            assert(r@ =~= bytes_at(self@, addr as int, i as int));
        }
    }

    /// Allocate `len` zeroed bytes on the heap, page-aligned. Returns 0 when
    /// the heap has no room left.
    pub fn calloc(&mut self, len: u32) -> (p: u32)
        requires
            old(self).wf(),
        ensures
            final(self).wf(),
            final(self).heap_end() == old(self).heap_end(),
            p == 0 <==> !old(self).can_alloc(len),
            p == 0 ==> final(self)@ == old(self)@ && final(self).blocks() == old(self).blocks()
                && final(self).heap_next() == old(self).heap_next(),
            p != 0 ==> {
                &&& p == old(self).heap_next()
                &&& p % PAGE_SIZE == 0
                &&& !old(self).blocks().contains_key(p)
                &&& valid_range(p as int, len as int)
                &&& final(self).blocks() == old(self).blocks().insert(p, alloc_size(len) as u32)
                &&& final(self).heap_next() == old(self).heap_next() + alloc_size(len)
                &&& final(self)@ == write_spec(old(self)@, p as int, Seq::new(len as nat, |i: int| 0u8))
            },
    {
        let size: u64 = if len == 0 {
            4096
        } else {
            ((len as u64 + 4095) / 4096) * 4096
        };
        assert(size == alloc_size(len));
        if ((self.heap_end - self.heap_next) as u64) < size {
            return 0;
        }
        let p = self.heap_next;
        proof {
            assert(size >= len) by (nonlinear_arith)
                requires
                    size == if len == 0 { 4096 } else { ((len as int + 4095) / 4096) * 4096 },
            ;
            assert(size % 4096 == 0) by (nonlinear_arith)
                requires
                    size == if len == 0 { 4096 } else { ((len as int + 4095) / 4096) * 4096 },
            ;
        }
        self.fill_zero(p, len);
        self.blocks.insert(p, size as u32);
        self.heap_next = self.heap_next + size as u32;
        p
    }

    /// Release the heap allocation at `p`.
    pub fn free(&mut self, p: u32)
        requires
            old(self).wf(),
            old(self).blocks().contains_key(p),
        ensures
            final(self).wf(),
            final(self)@ == old(self)@,
            final(self).blocks() == old(self).blocks().remove(p),
            final(self).heap_next() == old(self).heap_next(),
            final(self).heap_end() == old(self).heap_end(),
    {
        self.blocks.remove(&p);
    }
}

} // verus!
