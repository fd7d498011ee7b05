//! The readable part of the process, as plain values.
//!
//! Probing reads addresses that may not be mapped, so the committed readable
//! regions are listed once in a sorted table and every read is answered from
//! it. A [`Memory`] is that table together with the bytes of each entry; its
//! view is the map from address to byte.

use vstd::prelude::*;

verus! {

/// One entry of the table: the half-open range of addresses `[base, end)`.
pub type Span = (u64, u64);

/// Sorted, every entry non-empty and below the top of the address space, and a
/// gap between any two entries: neighbours that touch are one entry.
pub open spec fn table_wf(t: Seq<Span>) -> bool {
    &&& forall|i: int| #![trigger t[i]] 0 <= i < t.len() ==> t[i].0 < t[i].1 < u64::MAX
    &&& forall|i: int, j: int|
        #![trigger t[i], t[j]]
        0 <= i < j < t.len() ==> t[i].1 < t[j].0
}

/// The address is in entry `k`.
pub open spec fn in_span(t: Seq<Span>, k: int, a: int) -> bool {
    0 <= k < t.len() && t[k].0 <= a < t[k].1
}

/// The address is in some entry.
pub open spec fn mapped(t: Seq<Span>, a: int) -> bool {
    exists|k: int| in_span(t, k, a)
}

/// Every address of `[a, a + len)` is in the table.
pub open spec fn covered(t: Seq<Span>, a: int, len: int) -> bool {
    forall|x: int| a <= x < a + len ==> mapped(t, x)
}

/// The number of entries that start at or below `a`.
fn partition_point(t: &Vec<Span>, a: u64) -> (i: usize)
    requires
        table_wf(t@),
    ensures
        i <= t.len(),
        forall|k: int| 0 <= k < i ==> t@[k].0 <= a,
        forall|k: int| i <= k < t.len() ==> a < t@[k].0,
{
    let mut lo: usize = 0;
    let mut hi: usize = t.len();
    while lo < hi
        invariant
            table_wf(t@),
            lo <= hi <= t.len(),
            forall|k: int| 0 <= k < lo ==> t@[k].0 <= a,
            forall|k: int| hi <= k < t.len() ==> a < t@[k].0,
        decreases hi - lo,
    {
        let mid: usize = lo + (hi - lo) / 2;
        if t[mid].0 <= a {
            lo = mid + 1;
        } else {
            hi = mid;
        }
    }
    lo
}

/// The entry that holds an address.
fn locate(t: &Vec<Span>, a: u64) -> (r: Option<usize>)
    requires
        table_wf(t@),
    ensures
        r matches Some(k) ==> in_span(t@, k as int, a as int),
        r is None ==> !mapped(t@, a as int),
{
    let i: usize = partition_point(t, a);
    if i == 0 {
        return None;
    }
    if a < t[i - 1].1 {
        Some(i - 1)
    } else {
        proof {
            assert forall|k: int| !in_span(t@, k, a as int) by {
                if in_span(t@, k, a as int) {
                    assert(k < i);
                    if k < i - 1 {
                        assert(t@[k].1 < t@[i - 1].0);
                    }
                }
            }
        }
        None
    }
}

/// A range that starts in entry `k` is covered exactly if it ends there too.
proof fn lemma_covered_by_one(t: Seq<Span>, k: int, a: int, len: int)
    requires
        table_wf(t),
        in_span(t, k, a),
        len > 0,
    ensures
        covered(t, a, len) <==> a + len <= t[k].1,
{
    if a + len <= t[k].1 {
        assert forall|x: int| a <= x < a + len implies mapped(t, x) by {
            assert(in_span(t, k, x));
        }
    } else {
        let x = t[k].1 as int;
        if mapped(t, x) {
            let j = choose|j: int| in_span(t, j, x);
            if j < k {
                assert(t[j].1 < t[k].0);
            } else if k < j {
                assert(t[k].1 < t[j].0);
            }
        }
        assert(!mapped(t, x));
    }
}

/// Whether `[a, a + len)` lies in the table, by binary search.
pub fn in_table(t: &Vec<Span>, a: u64, len: u64) -> (r: bool)
    requires
        table_wf(t@),
    ensures
        len > 0 ==> r == covered(t@, a as int, len as int),
        len == 0 ==> r == (exists|k: int|
            0 <= k < t.len() && #[trigger] t@[k].0 <= a && a <= t@[k].1),
{
    let i: usize = partition_point(t, a);
    if i == 0 {
        proof {
            if len > 0 && mapped(t@, a as int) {
                let k = choose|k: int| in_span(t@, k, a as int);
                assert(a < t@[k].0);
            }
        }
        return false;
    }
    let e: u64 = t[i - 1].1;
    let r = a.saturating_add(len) <= e;
    proof {
        if len > 0 {
            if a < e {
                assert(in_span(t@, i - 1, a as int));
                lemma_covered_by_one(t@, i - 1, a as int, len as int);
            } else if mapped(t@, a as int) {
                let k = choose|k: int| in_span(t@, k, a as int);
                if k < i - 1 {
                    assert(t@[k].1 < t@[i - 1].0);
                }
            }
        } else {
            assert forall|k: int| 0 <= k < t.len() && #[trigger] t@[k].0 <= a && a <= t@[k].1
                implies r by {
                if k < i - 1 {
                    assert(t@[k].1 < t@[i - 1].0);
                }
            }
        }
    }
    r
}

/// The readable memory of the process.
pub struct Memory<'a> {
    spans: Vec<Span>,
    data: Vec<&'a [u8]>,
}

/// Little-endian value of `n` bytes from address `a`.
pub open spec fn le(m: Map<int, u8>, a: int, n: nat) -> nat
    decreases n,
{
    if n == 0 {
        0
    } else {
        m[a] as nat + 256 * le(m, a + 1, (n - 1) as nat)
    }
}

/// A non-null range whose every byte is readable.
pub open spec fn has(m: Map<int, u8>, a: int, len: int) -> bool {
    &&& a != 0
    &&& len > 0
    &&& forall|x: int| a <= x < a + len ==> #[trigger] m.dom().contains(x)
}

/// The unsigned value of `n` bytes at `a`, where they are readable.
pub open spec fn val(m: Map<int, u8>, a: int, n: nat) -> Option<nat> {
    if has(m, a, n as int) {
        Some(le(m, a, n))
    } else {
        None
    }
}

/// The two's complement value of 32 bits.
pub open spec fn signed32(v: nat) -> int {
    if v < 0x8000_0000 {
        v as int
    } else {
        v - 0x1_0000_0000
    }
}

/// The signed 32-bit value at `a`, where it is readable.
pub open spec fn int_val(m: Map<int, u8>, a: int) -> Option<int> {
    match val(m, a, 4) {
        Some(v) => Some(signed32(v)),
        None => None,
    }
}

/// The pointer at `a`: none where it is unreadable or null.
pub open spec fn ptr_val(m: Map<int, u8>, a: int) -> Option<nat> {
    match val(m, a, 8) {
        Some(v) => if v == 0 {
            None
        } else {
            Some(v)
        },
        None => None,
    }
}

pub open spec fn pow256(n: nat) -> nat
    decreases n,
{
    if n == 0 {
        1
    } else {
        256 * pow256((n - 1) as nat)
    }
}

pub proof fn lemma_pow256_positive(n: nat)
    ensures
        pow256(n) > 0,
    decreases n,
{
    if n > 0 {
        lemma_pow256_positive((n - 1) as nat);
    }
}

pub proof fn lemma_pow256_values()
    ensures
        pow256(0) == 1,
        pow256(4) == 0x1_0000_0000,
        pow256(8) == 0x1_0000_0000_0000_0000,
{
    reveal_with_fuel(pow256, 9);
}

/// `n` bytes hold a value below `256^n`.
pub proof fn lemma_le_bound(m: Map<int, u8>, a: int, n: nat)
    ensures
        le(m, a, n) < pow256(n),
    decreases n,
{
    if n > 0 {
        lemma_le_bound(m, a + 1, (n - 1) as nat);
    }
}

/// The bounds of the widths that are read.
pub proof fn lemma_widths(m: Map<int, u8>, a: int)
    ensures
        le(m, a, 1) < 0x100,
        le(m, a, 2) < 0x1_0000,
        le(m, a, 4) < 0x1_0000_0000,
        le(m, a, 8) < 0x1_0000_0000_0000_0000,
{
    reveal_with_fuel(pow256, 9);
    lemma_le_bound(m, a, 1);
    lemma_le_bound(m, a, 2);
    lemma_le_bound(m, a, 4);
    lemma_le_bound(m, a, 8);
}

impl<'a> Memory<'a> {
    /// One slice of bytes for each table entry, of the entry's length.
    pub closed spec fn wf(&self) -> bool {
        &&& table_wf(self.spans@)
        &&& self.spans.len() == self.data.len()
        &&& forall|k: int|
            #![trigger self.data@[k]]
            0 <= k < self.data.len() ==> self.data@[k]@.len() == self.spans@[k].1 - self.spans@[k].0
    }

    /// The table of readable ranges.
    pub closed spec fn table(&self) -> Seq<Span> {
        self.spans@
    }

    /// The bytes of table entry `k`.
    pub closed spec fn bytes_of(&self, k: int) -> Seq<u8> {
        self.data@[k]@
    }
}

impl<'a> View for Memory<'a> {
    type V = Map<int, u8>;

    closed spec fn view(&self) -> Map<int, u8> {
        Map::new(
            |a: int| mapped(self.spans@, a),
            |a: int|
                {
                    let k = choose|k: int| in_span(self.spans@, k, a);
                    self.data@[k]@[a - self.spans@[k].0]
                },
        )
    }
}

impl<'a> Memory<'a> {
    /// The byte at an address is the byte of the entry that holds it.
    proof fn lemma_at(&self, k: int, a: int)
        requires
            self.wf(),
            in_span(self.spans@, k, a),
        ensures
            self@.dom().contains(a),
            self@[a] == self.data@[k]@[a - self.spans@[k].0],
    {
        let j = choose|j: int| in_span(self.spans@, j, a);
        if j < k {
            assert(self.spans@[j].1 < self.spans@[k].0);
        } else if k < j {
            assert(self.spans@[k].1 < self.spans@[j].0);
        }
    }

    /// Readable addresses are below the top of the address space.
    pub proof fn lemma_below_top(&self, a: int)
        requires
            self.wf(),
            self@.dom().contains(a),
        ensures
            0 <= a < u64::MAX - 1,
    {
        let k = choose|k: int| in_span(self.spans@, k, a);
        assert(self.spans@[k].1 < u64::MAX);
    }

    /// Outside the address space there is nothing to read.
    pub proof fn lemma_no_value(&self, a: int, n: nat)
        requires
            self.wf(),
            n > 0,
            !(0 <= a <= u64::MAX - 2),
        ensures
            val(self@, a, n) is None,
    {
        if has(self@, a, n as int) {
            assert(self@.dom().contains(a));
            self.lemma_below_top(a);
        }
    }

    /// Nothing is readable.
    pub fn new() -> (mem: Self)
        ensures
            mem.wf(),
            mem@ == Map::<int, u8>::empty(),
            mem.table() == Seq::<Span>::empty(),
    {
        let mem = Memory { spans: Vec::new(), data: Vec::new() };
        proof {
            assert(forall|a: int| !mapped(mem.spans@, a));
            assert(mem@ =~= Map::<int, u8>::empty());
        }
        mem
    }

    /// Appends a range above everything held so far. False, with nothing
    /// changed, where it is empty, touches or precedes the last entry, or
    /// reaches the top of the address space.
    pub fn add(&mut self, base: u64, bytes: &'a [u8]) -> (r: bool)
        requires
            old(self).wf(),
        ensures
            final(self).wf(),
            r == (bytes@.len() > 0 && base + bytes@.len() < u64::MAX && (
            old(self).table().len() == 0 || old(self).table().last().1 < base)),
            r ==> final(self).table() == old(self).table().push(
                (base, (base + bytes@.len()) as u64),
            ),
            r ==> final(self)@ == old(self)@.union_prefer_right(
                Map::new(
                    |a: int| base <= a < base + bytes@.len(),
                    |a: int| bytes@[a - base],
                ),
            ),
            !r ==> *final(self) == *old(self),
    {
        let len: u64 = bytes.len() as u64;
        if len == 0 || len >= u64::MAX - base {
            return false;
        }
        let n: usize = self.spans.len();
        if n > 0 && self.spans[n - 1].1 >= base {
            return false;
        }
        self.spans.push((base, base + len));
        self.data.push(bytes);
        proof {
            let o = *old(self);
            let added = Map::new(
                |a: int| base <= a < base + bytes@.len(),
                |a: int| bytes@[a - base],
            );
            let want = o@.union_prefer_right(added);
            assert(self.data@ == o.data@.push(bytes));
            assert(self.wf()) by {
                assert forall|i: int, j: int|
                    #![trigger self.spans@[i], self.spans@[j]]
                    0 <= i < j < self.spans@.len() implies self.spans@[i].1 < self.spans@[j].0 by {
                    if j == n {
                        if i < n - 1 {
                            assert(o.spans@[i].1 < o.spans@[n - 1].0);
                        }
                    } else {
                        assert(o.spans@[i].1 < o.spans@[j].0);
                    }
                }
            }
            assert forall|a: int| #[trigger] self@.dom().contains(a) == want.dom().contains(a) by {
                if mapped(self.spans@, a) {
                    let k = choose|k: int| in_span(self.spans@, k, a);
                    if k < n {
                        assert(in_span(o.spans@, k, a));
                    }
                }
                if mapped(o.spans@, a) {
                    let k = choose|k: int| in_span(o.spans@, k, a);
                    assert(in_span(self.spans@, k, a));
                }
                if base <= a < base + len {
                    assert(in_span(self.spans@, n as int, a));
                }
            }
            assert forall|a: int| #[trigger] self@.dom().contains(a) implies self@[a] == want[a] by {
                let k = choose|k: int| in_span(self.spans@, k, a);
                self.lemma_at(k, a);
                if k < n {
                    assert(in_span(o.spans@, k, a));
                    o.lemma_at(k, a);
                    if n - 1 > k {
                        assert(o.spans@[k].1 < o.spans@[n - 1].0);
                    }
                    assert(!added.dom().contains(a));
                }
            }
            assert(self@ =~= want);
        }
        true
    }

    /// Whether `len` bytes can be read at `p`.
    pub fn readable(&self, p: u64, len: u64) -> (r: bool)
        requires
            self.wf(),
        ensures
            r == has(self@, p as int, len as int),
    {
        if p == 0 || len == 0 {
            return false;
        }
        let r = in_table(&self.spans, p, len);
        proof {
            assert forall|x: int| self@.dom().contains(x) == mapped(self.spans@, x) by {}
            if r {
                assert forall|x: int| p <= x < p + len implies #[trigger] self@.dom().contains(x) by {
                    assert(mapped(self.spans@, x));
                }
            } else {
                let x = choose|x: int| p <= x < p + len && !mapped(self.spans@, x);
                assert(!self@.dom().contains(x));
            }
        }
        r
    }

    /// Whether `len` bytes can be read at `p + off`.
    pub fn readable_at(&self, p: u64, off: u64, len: u64) -> (r: bool)
        requires
            self.wf(),
        ensures
            r == has(self@, p + off, len as int),
    {
        if off > u64::MAX - p {
            proof {
                if has(self@, p + off, len as int) {
                    self.lemma_below_top(p + off);
                }
            }
            return false;
        }
        self.readable(p + off, len)
    }

    /// The byte at an address.
    pub fn byte(&self, a: u64) -> (r: Option<u8>)
        requires
            self.wf(),
        ensures
            r == (if self@.dom().contains(a as int) {
                Some(self@[a as int])
            } else {
                None
            }),
    {
        match locate(&self.spans, a) {
            Some(k) => {
                proof {
                    self.lemma_at(k as int, a as int);
                    assert(self.data@[k as int]@.len() == self.spans@[k as int].1
                        - self.spans@[k as int].0);
                }
                let off: u64 = a - self.spans[k].0;
                Some(self.data[k][off as usize])
            },
            None => None,
        }
    }

    /// The little-endian value of `n` bytes at `p + off`.
    fn read_le(&self, p: u64, off: u64, n: u64) -> (r: Option<u64>)
        requires
            self.wf(),
            n <= 8,
        ensures
            r is Some == has(self@, p + off, n as int),
            r matches Some(v) ==> v == le(self@, p + off, n as nat),
    {
        if off > u64::MAX - p {
            proof {
                if has(self@, p + off, n as int) {
                    self.lemma_below_top(p + off);
                }
            }
            return None;
        }
        let a: u64 = p + off;
        if !self.readable(a, n) {
            return None;
        }
        let mut v: u64 = 0;
        let mut i: u64 = n;
        proof {
            self.lemma_below_top(a + n - 1);
        }
        while i > 0
            invariant
                self.wf(),
                i <= n <= 8,
                a + n <= u64::MAX,
                has(self@, a as int, n as int),
                v == le(self@, a + i, (n - i) as nat),
                v < pow256((n - i) as nat),
            decreases i,
        {
            i = i - 1;
            assert(self@.dom().contains(a + i));
            proof {
                assert(le(self@, a + i, (n - i) as nat) == self@[a + i] as nat + 256 * le(
                    self@,
                    a + i + 1,
                    (n - i - 1) as nat,
                ));
                lemma_le_bound(self@, a + i, (n - i) as nat);
                reveal_with_fuel(pow256, 9);
                assert(pow256((n - i) as nat) <= 0x1_0000_0000_0000_0000);
            }
            match self.byte(a + i) {
                Some(b) => {
                    v = v * 256 + b as u64;
                },
                None => {
                    return None;
                },
            }
        }
        Some(v)
    }

    pub fn read_u8(&self, p: u64, off: u64) -> (r: Option<u8>)
        requires
            self.wf(),
        ensures
            r is Some == val(self@, p + off, 1) is Some,
            r matches Some(v) ==> v as nat == val(self@, p + off, 1)->0,
    {
        proof {
            lemma_widths(self@, p + off);
        }
        match self.read_le(p, off, 1) {
            Some(v) => Some(v as u8),
            None => None,
        }
    }

    pub fn read_u16(&self, p: u64, off: u64) -> (r: Option<u16>)
        requires
            self.wf(),
        ensures
            r is Some == val(self@, p + off, 2) is Some,
            r matches Some(v) ==> v as nat == val(self@, p + off, 2)->0,
    {
        proof {
            lemma_widths(self@, p + off);
        }
        match self.read_le(p, off, 2) {
            Some(v) => Some(v as u16),
            None => None,
        }
    }

    pub fn read_u32(&self, p: u64, off: u64) -> (r: Option<u32>)
        requires
            self.wf(),
        ensures
            r is Some == val(self@, p + off, 4) is Some,
            r matches Some(v) ==> v as nat == val(self@, p + off, 4)->0,
    {
        proof {
            lemma_widths(self@, p + off);
        }
        match self.read_le(p, off, 4) {
            Some(v) => Some(v as u32),
            None => None,
        }
    }

    pub fn read_i32(&self, p: u64, off: u64) -> (r: Option<i32>)
        requires
            self.wf(),
        ensures
            r is Some == int_val(self@, p + off) is Some,
            r matches Some(v) ==> v as int == int_val(self@, p + off)->0,
    {
        match self.read_u32(p, off) {
            Some(v) => if v < 0x8000_0000 {
                Some(v as i32)
            } else {
                Some((v as i64 - 0x1_0000_0000) as i32)
            },
            None => None,
        }
    }

    pub fn read_u64(&self, p: u64, off: u64) -> (r: Option<u64>)
        requires
            self.wf(),
        ensures
            r is Some == val(self@, p + off, 8) is Some,
            r matches Some(v) ==> v as nat == val(self@, p + off, 8)->0,
    {
        self.read_le(p, off, 8)
    }

    /// The pointer at `p + off`; null reads as none.
    pub fn read_ptr(&self, p: u64, off: u64) -> (r: Option<u64>)
        requires
            self.wf(),
        ensures
            r is Some == ptr_val(self@, p + off) is Some,
            r matches Some(v) ==> v != 0 && v as nat == ptr_val(self@, p + off)->0,
    {
        match self.read_u64(p, off) {
            Some(v) => if v == 0 {
                None
            } else {
                Some(v)
            },
            None => None,
        }
    }
}

} // verus!
