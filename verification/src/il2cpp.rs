//! Reading a foreign address space without faulting: which ranges are
//! readable, text and headers found there, and the search for a byte pattern.
//!
//! The queries themselves (one per address, answered by the system) are made by
//! the caller; what each answer means is decided here.

use vstd::prelude::*;

use crate::memory;
use crate::memory::{in_table, Memory, Span};
use crate::text;
use crate::text::{chars_of, copy_of, lossy};

verus! {

/// The module that holds the scripting runtime.
pub const MODULE: &'static str = "GameAssembly.dll";

/// State of a region whose pages have storage.
pub const MEM_COMMIT: u32 = 0x1000;

/// Protection bits under which a read faults: no access, and guard.
pub const PAGE_BLOCKED: u32 = 0x101;

/// No user address lies at or above this.
pub const ADDRESS_TOP: u64 = 0x7FFF_FFFF_0000;

/// The answer to a query of one address: the run of pages that starts there.
#[derive(Clone, Copy, PartialEq, Eq, Debug)]
pub struct RegionInfo {
    pub base: u64,
    pub size: u64,
    pub state: u32,
    pub protect: u32,
}

/// Where a region ends.
pub open spec fn region_end(i: RegionInfo) -> int {
    if i.base + i.size > u64::MAX {
        u64::MAX as int
    } else {
        i.base + i.size
    }
}

/// Committed, with a protection that a read does not trip over.
pub open spec fn committed_spec(i: RegionInfo) -> bool {
    i.state == MEM_COMMIT && i.protect != 0 && i.protect & PAGE_BLOCKED == 0
}

pub fn committed(i: &RegionInfo) -> (r: bool)
    ensures
        r == committed_spec(*i),
{
    i.state == MEM_COMMIT && i.protect != 0 && i.protect & PAGE_BLOCKED == 0
}

// -- the table of readable ranges --------------------------------------------

/// The table and whether it alone answers.
pub struct Regions {
    pub table: Vec<Span>,
    pub cache_only: bool,
}

/// The table after one more answer: a committed region that starts where the
/// last entry ends extends it, any other committed region is a new entry.
pub open spec fn noted(t: Seq<Span>, i: RegionInfo) -> Seq<Span> {
    if !committed_spec(i) {
        t
    } else if t.len() > 0 && t.last().1 == i.base {
        t.update(t.len() - 1, (t.last().0, region_end(i) as u64))
    } else {
        t.push((i.base, region_end(i) as u64))
    }
}

/// The table over all answers of a walk.
pub open spec fn noted_all(answers: Seq<RegionInfo>) -> Seq<Span>
    decreases answers.len(),
{
    if answers.len() == 0 {
        Seq::empty()
    } else {
        noted(noted_all(answers.drop_last()), answers.last())
    }
}

/// A walk over the address space that rebuilds the table.
pub struct Walk {
    pub addr: u64,
    pub table: Vec<Span>,
}

impl Walk {
    pub fn new() -> (w: Self)
        ensures
            w.addr == 0,
            w.table@ == noted_all(Seq::empty()),
    {
        let w = Walk { addr: 0, table: Vec::new() };
        assert(w.table@ == noted_all(Seq::empty()));
        w
    }

    /// The next address to query, until the top is reached.
    pub fn wants(&self) -> (r: Option<u64>)
        ensures
            r == (if self.addr < ADDRESS_TOP {
                Some(self.addr)
            } else {
                None
            }),
    {
        if self.addr < ADDRESS_TOP {
            Some(self.addr)
        } else {
            None
        }
    }

    /// Takes the answer for the wanted address. False ends the walk: a region
    /// that does not reach beyond the address would repeat forever.
    pub fn answer(&mut self, i: RegionInfo) -> (more: bool)
        ensures
            final(self).table@ == noted(old(self).table@, i),
            more == (region_end(i) > old(self).addr),
            final(self).addr == (if more {
                region_end(i) as u64
            } else {
                old(self).addr
            }),
    {
        let end: u64 = i.base.saturating_add(i.size);
        if committed(&i) {
            let n: usize = self.table.len();
            if n > 0 && self.table[n - 1].1 == i.base {
                let start: u64 = self.table[n - 1].0;
                self.table.set(n - 1, (start, end));
            } else {
                self.table.push((i.base, end));
            }
        }
        if end <= self.addr {
            return false;
        }
        self.addr = end;
        true
    }
}

/// Replaces the table by what a walk found, and says how many entries it has.
pub fn refresh_regions(r: &mut Regions, w: Walk) -> (n: usize)
    ensures
        final(r).table == w.table,
        final(r).cache_only == old(r).cache_only,
        n == w.table@.len(),
{
    let n: usize = w.table.len();
    r.table = w.table;
    n
}

/// An answer at or above the end of the table leaves it well formed.
pub proof fn law_noted_wf(t: Seq<Span>, i: RegionInfo)
    requires
        memory::table_wf(t),
        t.len() > 0 ==> t.last().1 <= i.base,
        i.size > 0,
        i.base + i.size < u64::MAX,
    ensures
        memory::table_wf(noted(t, i)),
{
    let r = noted(t, i);
    assert forall|a: int, b: int| #![trigger r[a], r[b]] 0 <= a < b < r.len() implies r[a].1
        < r[b].0 by {
        if b < t.len() {
            assert(t[a].1 < t[b].0);
        } else if a < t.len() - 1 {
            assert(t[a].1 < t[t.len() - 1].0);
        }
    }
    assert forall|a: int| #![trigger r[a]] 0 <= a < r.len() implies r[a].0 < r[a].1 < u64::MAX by {
        if a < t.len() {
            assert(t[a].0 < t[a].1);
        }
    }
}

/// Answers as a walk gets them: each starts where the one before it ends, or
/// above, and none is empty or reaches the top of the address space.
pub open spec fn ascending(answers: Seq<RegionInfo>) -> bool {
    &&& forall|k: int|
        #![trigger answers[k]]
        0 <= k < answers.len() ==> answers[k].size > 0 && answers[k].base + answers[k].size
            < u64::MAX
    &&& forall|j: int, k: int|
        #![trigger answers[j], answers[k]]
        0 <= j < k < answers.len() ==> region_end(answers[j]) <= answers[k].base
}

/// The address lies in a committed region among the answers.
pub open spec fn answered(answers: Seq<RegionInfo>, a: int) -> bool {
    exists|k: int|
        #![trigger answers[k]]
        0 <= k < answers.len() && committed_spec(answers[k]) && answers[k].base <= a < region_end(
            answers[k],
        )
}

/// The table over the answers of a walk is well formed, and an address is in it
/// exactly where it lies in a committed region.
pub proof fn law_walk_exact(answers: Seq<RegionInfo>, a: int)
    requires
        ascending(answers),
    ensures
        memory::table_wf(noted_all(answers)),
        memory::mapped(noted_all(answers), a) <==> answered(answers, a),
        noted_all(answers).len() > 0 ==> answers.len() > 0 && noted_all(answers).last().1
            <= region_end(answers.last()),
    decreases answers.len(),
{
    let t = noted_all(answers);
    if answers.len() == 0 {
        assert(t.len() == 0);
        if answered(answers, a) {
            assert(false);
        }
        if memory::mapped(t, a) {
            let k = choose|k: int| memory::in_span(t, k, a);
            assert(false);
        }
    } else {
        let front = answers.drop_last();
        let i = answers.last();
        let before = noted_all(front);
        assert(forall|k: int| 0 <= k < front.len() ==> front[k] == answers[k]);
        law_walk_exact(front, a);
        if before.len() > 0 {
            assert(front.last() == answers[answers.len() - 2]);
            assert(region_end(answers[answers.len() - 2]) <= answers[answers.len() - 1].base);
        }
        law_noted_wf(before, i);
        lemma_noted_maps(before, i, a);
        if answered(answers, a) && !answered(front, a) {
            let k = choose|k: int|
                #![trigger answers[k]]
                0 <= k < answers.len() && committed_spec(answers[k]) && answers[k].base <= a
                    < region_end(answers[k]);
            if k < front.len() {
                assert(front[k] == answers[k]);
            }
            assert(k == answers.len() - 1);
        }
        if answered(front, a) {
            let k = choose|k: int|
                #![trigger front[k]]
                0 <= k < front.len() && committed_spec(front[k]) && front[k].base <= a
                    < region_end(front[k]);
            assert(answers[k] == front[k]);
        }
        if committed_spec(i) && i.base <= a < region_end(i) {
            assert(answers[answers.len() - 1] == i);
        }
    }
}

/// One more answer adds the addresses of its region, where it is committed.
proof fn lemma_noted_maps(t: Seq<Span>, i: RegionInfo, a: int)
    requires
        memory::table_wf(t),
        t.len() > 0 ==> t.last().1 <= i.base,
        i.size > 0,
        i.base + i.size < u64::MAX,
    ensures
        memory::mapped(noted(t, i), a) <==> (memory::mapped(t, a) || (committed_spec(i) && i.base
            <= a < region_end(i))),
{
    let r = noted(t, i);
    if memory::mapped(t, a) {
        let k = choose|k: int| memory::in_span(t, k, a);
        assert(memory::in_span(r, k, a));
    }
    if committed_spec(i) && i.base <= a < region_end(i) {
        assert(memory::in_span(r, r.len() - 1, a));
    }
    if memory::mapped(r, a) {
        let k = choose|k: int| memory::in_span(r, k, a);
        if k < t.len() {
            if t[k].0 <= a < t[k].1 {
                assert(memory::in_span(t, k, a));
            }
        }
    }
}

/// While one is held, misses are answered from the table alone.
pub struct CacheOnly {}

impl CacheOnly {
    pub fn enter(r: &mut Regions) -> (g: Self)
        ensures
            final(r).cache_only,
            final(r).table == old(r).table,
    {
        r.cache_only = true;
        CacheOnly {  }
    }

    /// Ends the hold.
    pub fn leave(self, r: &mut Regions)
        ensures
            !final(r).cache_only,
            final(r).table == old(r).table,
    {
        r.cache_only = false;
    }
}

/// Where `len` bytes at `p` end, at most at the last address.
pub open spec fn end_of(p: u64, len: u64) -> int {
    if p + len > u64::MAX {
        u64::MAX as int
    } else {
        p + len
    }
}

/// A live answer that allows `len` bytes at `p` to be read.
pub open spec fn live_ok(p: u64, len: u64, live: Option<RegionInfo>) -> bool {
    match live {
        Some(i) => {
            &&& i.state == MEM_COMMIT
            &&& i.protect & PAGE_BLOCKED == 0
            &&& end_of(p, len) <= i.base + i.size
        },
        None => false,
    }
}

/// Readability by a live answer, ignoring the table: the table can be stale for
/// an address from outside.
pub fn readable_now(p: u64, len: u64, live: Option<RegionInfo>) -> (r: bool)
    requires
        live matches Some(i) ==> i.base + i.size <= u64::MAX,
    ensures
        r == (p != 0 && len != 0 && live_ok(p, len, live)),
{
    if p == 0 || len == 0 {
        return false;
    }
    match live {
        Some(i) => {
            if i.state != MEM_COMMIT {
                return false;
            }
            if i.protect & PAGE_BLOCKED != 0 {
                return false;
            }
            p.saturating_add(len) <= i.base + i.size
        },
        None => false,
    }
}

/// Readability: from the table, or, unless the table alone answers, from a live
/// answer.
pub fn readable(regions: &Regions, p: u64, len: u64, live: Option<RegionInfo>) -> (r: bool)
    requires
        memory::table_wf(regions.table@),
        live matches Some(i) ==> i.base + i.size <= u64::MAX,
    ensures
        r == (p != 0 && len != 0 && (memory::covered(regions.table@, p as int, len as int) || (
        !regions.cache_only && live_ok(p, len, live)))),
{
    if p == 0 || len == 0 {
        return false;
    }
    if in_table(&regions.table, p, len) {
        return true;
    }
    if regions.cache_only {
        return false;
    }
    readable_now(p, len, live)
}

// -- text --------------------------------------------------------------------

/// The printable ASCII text from `p + n` up to a zero byte before `p + max`.
pub open spec fn text_from(m: Map<int, u8>, p: int, n: nat, max: nat) -> Option<Seq<char>>
    decreases max - n,
{
    if n >= max || !m.dom().contains(p + n) {
        None
    } else {
        let b = m[p + n];
        if b == 0 {
            Some(Seq::empty())
        } else if 0x20 <= b < 0x7f {
            match text_from(m, p, n + 1, max) {
                Some(t) => Some(seq![b as char] + t),
                None => None,
            }
        } else {
            None
        }
    }
}

/// A zero-terminated printable ASCII text at `p`, shorter than `max`.
pub open spec fn text_val(m: Map<int, u8>, p: int, max: nat) -> Option<Seq<char>> {
    if p == 0 {
        None
    } else {
        text_from(m, p, 0, max)
    }
}

/// The longest text that is followed from a pointer.
pub const TEXT_MAX: u64 = 512;

/// The text behind the pointer at `a`.
pub open spec fn str_val(m: Map<int, u8>, a: int) -> Option<Seq<char>> {
    match memory::ptr_val(m, a) {
        Some(s) => text_val(m, s as int, TEXT_MAX as nat),
        None => None,
    }
}

/// What an optional string holds.
pub open spec fn opt_text(s: Option<String>) -> Option<Seq<char>> {
    match s {
        Some(t) => Some(t@),
        None => None,
    }
}

/// A zero-terminated ASCII string, bounded. None if it is not plausibly text.
pub fn cstr(mem: &Memory, p: u64, max: u64) -> (r: Option<String>)
    requires
        mem.wf(),
    ensures
        opt_text(r) == text_val(mem@, p as int, max as nat),
{
    if p == 0 {
        return None;
    }
    let mut out = String::new();
    let mut n: u64 = 0;
    while n < max
        invariant
            mem.wf(),
            p != 0,
            n <= max,
            ({
                let rest = text_from(mem@, p as int, n as nat, max as nat);
                text_from(mem@, p as int, 0, max as nat) == match rest {
                    Some(t) => Some(out@ + t),
                    None => None,
                }
            }),
        decreases max - n,
    {
        if n > u64::MAX - p {
            proof {
                if mem@.dom().contains(p + n) {
                    mem.lemma_below_top(p + n);
                }
            }
            return None;
        }
        match mem.byte(p + n) {
            Some(b) => {
                if b == 0 {
                    assert(out@ + Seq::<char>::empty() == out@);
                    return Some(out);
                }
                if b < 0x20 || b >= 0x7f {
                    return None;
                }
                let ghost o = out@;
                out.push(b as char);
                proof {
                    match text_from(mem@, p as int, n as nat + 1, max as nat) {
                        Some(t) => {
                            assert(o + (seq![b as char] + t) == out@ + t);
                        },
                        None => {},
                    }
                }
            },
            None => {
                return None;
            },
        }
        n = n + 1;
    }
    None
}

/// The string behind the pointer at `p + off`.
pub fn str_at(mem: &Memory, p: u64, off: u64) -> (r: Option<String>)
    requires
        mem.wf(),
    ensures
        opt_text(r) == str_val(mem@, p + off),
{
    match mem.read_ptr(p, off) {
        Some(s) => cstr(mem, s, TEXT_MAX),
        None => None,
    }
}

/// The `n` bytes at `p`.
pub open spec fn bytes_at(m: Map<int, u8>, p: int, n: nat) -> Seq<u8> {
    Seq::new(n, |i: int| m[p + i])
}

/// The first zero byte from `p` on stands at `p + n`, with no gap before it.
pub open spec fn ends_after(m: Map<int, u8>, p: int, n: nat) -> bool {
    &&& memory::has(m, p, n as int + 1)
    &&& m[p + n] == 0
    &&& forall|i: int| 0 <= i < n ==> #[trigger] m[p + i] != 0
}

/// Best-effort name for logging: the bytes up to the first zero, whatever they
/// are. A readable start must lead to a zero byte.
pub fn cstr_lossy(mem: &Memory, p: u64) -> (r: String)
    requires
        mem.wf(),
        memory::has(mem@, p as int, 1) ==> exists|n: nat| ends_after(mem@, p as int, n),
    ensures
        !memory::has(mem@, p as int, 1) ==> r@ == "<unreadable>"@,
        forall|n: nat| #[trigger]
            ends_after(mem@, p as int, n) ==> r@ == text::lossy_text(bytes_at(mem@, p as int, n)),
{
    if !mem.readable(p, 1) {
        return copy_of("<unreadable>");
    }
    let ghost end = choose|n: nat| ends_after(mem@, p as int, n);
    let mut out: Vec<u8> = Vec::new();
    let mut n: u64 = 0;
    loop
        invariant
            mem.wf(),
            ends_after(mem@, p as int, end),
            n <= end,
            out@ == bytes_at(mem@, p as int, n as nat),
        ensures
            n == end,
            out@ == bytes_at(mem@, p as int, end),
        decreases end - n,
    {
        proof {
            mem.lemma_below_top(p + n);
        }
        match mem.byte(p + n) {
            Some(b) => {
                if b == 0 {
                    break;
                }
                out.push(b);
            },
            None => {
                break;
            },
        }
        n = n + 1;
    }
    proof {
        assert forall|k: nat| #[trigger] ends_after(mem@, p as int, k) implies k == end by {
            assert(mem@[p + k] == 0 && mem@[p + end] == 0);
        }
    }
    lossy(out.as_slice())
}

/// A character of a C# identifier, the compiler's decorations among them.
pub open spec fn ident_char(c: char) -> bool {
    ||| 'a' <= c <= 'z'
    ||| 'A' <= c <= 'Z'
    ||| '0' <= c <= '9'
    ||| c == '_' || c == '.' || c == '`' || c == '<' || c == '>' || c == '/' || c == '[' || c == ']'
        || c == ',' || c == '|' || c == '-' || c == '+' || c == '=' || c == ' '
}

pub open spec fn identifier(s: Seq<char>) -> bool {
    &&& 0 < s.len() < 512
    &&& forall|i: int| 0 <= i < s.len() ==> #[trigger] ident_char(s[i])
}

/// C# identifiers, including the compiler's decorations: `<>c__DisplayClass`,
/// backtick arity, nested-type dots.
pub fn is_identifier(s: &str) -> (r: bool)
    ensures
        r == identifier(s@),
{
    let v = chars_of(s);
    if v.len() == 0 || v.len() >= 512 {
        return false;
    }
    let mut i: usize = 0;
    while i < v.len()
        invariant
            i <= v.len(),
            v@ == s@,
            forall|k: int| 0 <= k < i ==> #[trigger] ident_char(v@[k]),
        decreases v.len() - i,
    {
        let c = v[i];
        let ok = ('a' <= c && c <= 'z') || ('A' <= c && c <= 'Z') || ('0' <= c && c <= '9') || c
            == '_' || c == '.' || c == '`' || c == '<' || c == '>' || c == '/' || c == '[' || c
            == ']' || c == ',' || c == '|' || c == '-' || c == '+' || c == '=' || c == ' ';
        if !ok {
            assert(!ident_char(v@[i as int]));
            return false;
        }
        i = i + 1;
    }
    true
}

/// Namespaces are dotted or empty.
pub open spec fn namespace_text(s: Seq<char>) -> bool {
    s.len() == 0 || identifier(s)
}

pub fn is_namespace(s: &str) -> (r: bool)
    ensures
        r == namespace_text(s@),
{
    s.is_empty() || is_identifier(s)
}

// -- module headers ----------------------------------------------------------

/// The bounds of the module mapped at `base`, from its own header.
pub open spec fn bounds_spec(m: Map<int, u8>, base: int) -> Option<(int, int)> {
    match memory::val(m, base + 0x3C, 4) {
        Some(h) => match memory::val(m, base + h + 0x50, 4) {
            Some(size) => Some((base, base + size)),
            None => None,
        },
        None => None,
    }
}

/// First and past-the-end address of a mapped module, from the image size in
/// its header.
pub fn module_bounds(mem: &Memory, base: u64) -> (r: Option<(u64, u64)>)
    requires
        mem.wf(),
        base <= u64::MAX - 0xFFFF_FFFF,
    ensures
        r is Some == bounds_spec(mem@, base as int) is Some,
        r matches Some(b) ==> (b.0 as int, b.1 as int) == bounds_spec(mem@, base as int)->0,
{
    match mem.read_u32(base, 0x3C) {
        Some(h) => match mem.read_u32(base, h as u64 + 0x50) {
            Some(size) => Some((base, base + size as u64)),
            None => None,
        },
        None => None,
    }
}

/// The pointers of a table of `n` assemblies; none for a count that no process
/// has.
pub open spec fn assemblies_spec(m: Map<int, u8>, p: int, n: nat) -> Seq<int>
    decreases n,
{
    if n == 0 {
        Seq::empty()
    } else {
        let rest = assemblies_spec(m, p, (n - 1) as nat);
        match memory::ptr_val(m, p + 8 * (n - 1)) {
            Some(a) => rest.push(a as int),
            None => rest,
        }
    }
}

/// The values of a list of addresses.
pub open spec fn ints(s: Seq<u64>) -> Seq<int> {
    s.map_values(|x: u64| x as int)
}

pub fn assemblies(mem: &Memory, p: u64, n: u64) -> (r: Vec<u64>)
    requires
        mem.wf(),
    ensures
        ints(r@) == (if p == 0 || n > 4096 {
            Seq::<int>::empty()
        } else {
            assemblies_spec(mem@, p as int, n as nat)
        }),
{
    let mut r: Vec<u64> = Vec::new();
    if p == 0 || n == 0 || n > 4096 {
        assert(ints(r@) == Seq::<int>::empty());
        return r;
    }
    let mut i: u64 = 0;
    assert(ints(r@) == assemblies_spec(mem@, p as int, 0));
    while i < n
        invariant
            mem.wf(),
            i <= n <= 4096,
            ints(r@) == assemblies_spec(mem@, p as int, i as nat),
        decreases n - i,
    {
        match mem.read_ptr(p, 8 * i) {
            Some(a) => {
                let ghost before = r@;
                r.push(a);
                assert(ints(r@) == ints(before).push(a as int));
            },
            None => {},
        }
        i = i + 1;
    }
    r
}

// -- pattern search ----------------------------------------------------------

/// The pattern stands at index `i`.
pub open spec fn match_at(b: Seq<u8>, needle: Seq<u8>, i: int) -> bool {
    0 <= i && i + needle.len() <= b.len() && b.subrange(i, i + needle.len()) == needle
}

/// The addresses at which the pattern starts below index `n`, in order, for
/// bytes that stand at address `at`.
pub open spec fn matches_below(b: Seq<u8>, needle: Seq<u8>, at: int, n: nat) -> Seq<int>
    decreases n,
{
    if n == 0 {
        Seq::empty()
    } else {
        let rest = matches_below(b, needle, at, (n - 1) as nat);
        if match_at(b, needle, n - 1) {
            rest.push(at + n - 1)
        } else {
            rest
        }
    }
}

/// After how many bytes the abort flag is asked for.
pub const POLL_EVERY: usize = 0x20_0000;

/// A search with room for so many hits comes to the first poll.
pub open spec fn polled(b: Seq<u8>, needle: Seq<u8>, at: int, room: int) -> bool {
    &&& b.len() >= POLL_EVERY - 1 + needle.len()
    &&& matches_below(b, needle, at, POLL_EVERY as nat).len() < room
}

/// How the search of one slice ended.
#[derive(Clone, Copy, PartialEq, Eq, Debug, Structural)]
pub enum SliceEnd {
    /// All of it was searched.
    Done,
    /// The wanted number of hits was reached.
    Full,
    /// The abort flag came up.
    Aborted,
}

fn matches_here(b: &[u8], needle: &Vec<u8>, i: usize) -> (r: bool)
    requires
        i + needle.len() <= b.len(),
    ensures
        r == match_at(b@, needle@, i as int),
{
    let mut k: usize = 0;
    while k < needle.len()
        invariant
            k <= needle.len(),
            i + needle.len() <= b.len(),
            forall|j: int| 0 <= j < k ==> b@[i + j] == needle@[j],
        decreases needle.len() - k,
    {
        if b[i + k] != needle[k] {
            assert(b@.subrange(i as int, i + needle.len())[k as int] != needle@[k as int]);
            return false;
        }
        k = k + 1;
    }
    assert(b@.subrange(i as int, i + needle.len()) == needle@);
    true
}

/// A scan of `[start, end)`: bounded in hits and in bytes.
pub struct Scan {
    pub needle: Vec<u8>,
    pub start: u64,
    pub end: u64,
    pub max_hits: u64,
    pub max_bytes: u64,
    pub addr: u64,
    pub scanned: u64,
    pub hits: Vec<u64>,
    pub finished: bool,
}

impl Scan {
    /// Every hit is an address of the scanned range, and there are no more of
    /// them than allowed; a scan that is not over has room for another.
    pub open spec fn wf(&self) -> bool {
        &&& self.needle@.len() > 0 || self.finished
        &&& self.hits@.len() <= self.max_hits
        &&& !self.finished ==> self.hits@.len() < self.max_hits
        &&& forall|k: int| 0 <= k < self.hits@.len() ==> self.start <= #[trigger] self.hits@[k]
            < self.end
    }

    /// The parts that no step changes.
    pub open spec fn same_bounds(&self, o: &Scan) -> bool {
        &&& self.needle == o.needle
        &&& self.start == o.start
        &&& self.end == o.end
        &&& self.max_hits == o.max_hits
        &&& self.max_bytes == o.max_bytes
    }

    /// An empty pattern, an empty range or no hits allowed finds nothing.
    pub fn new(needle: Vec<u8>, start: u64, end: u64, max_hits: u64, max_bytes: u64) -> (s: Self)
        ensures
            s.wf(),
            s.needle == needle,
            s.start == start,
            s.end == end,
            s.max_hits == max_hits,
            s.max_bytes == max_bytes,
            s.addr == start,
            s.scanned == 0,
            s.hits@ == Seq::<u64>::empty(),
            s.finished == (needle@.len() == 0 || start >= end || max_hits == 0),
    {
        let finished = needle.len() == 0 || start >= end || max_hits == 0;
        Scan {
            needle,
            start,
            end,
            max_hits,
            max_bytes,
            addr: start,
            scanned: 0,
            hits: Vec::new(),
            finished,
        }
    }

    /// The address to query next; none when the scan is over. A raised abort
    /// flag ends it.
    pub fn wants(&mut self, aborted: bool) -> (r: Option<u64>)
        requires
            old(self).wf(),
        ensures
            final(self).wf(),
            final(self).same_bounds(old(self)),
            final(self).hits == old(self).hits,
            final(self).scanned == old(self).scanned,
            final(self).addr == old(self).addr,
            r == (if old(self).finished || old(self).addr >= old(self).end || aborted {
                None
            } else {
                Some(old(self).addr)
            }),
            final(self).finished == r is None,
    {
        if self.finished || self.addr >= self.end || aborted {
            self.finished = true;
            return None;
        }
        Some(self.addr)
    }

    /// The part of a region that lies in the range, where it can be read.
    pub open spec fn window_of(&self, i: RegionInfo) -> Option<(u64, u64)> {
        let s = if i.base < self.start {
            self.start
        } else {
            i.base
        };
        let e = if region_end(i) > self.end {
            self.end
        } else {
            region_end(i) as u64
        };
        if committed_spec(i) && e > s {
            Some((s, e))
        } else {
            None
        }
    }

    /// The addresses to search for the answered region.
    pub fn window(&self, i: &RegionInfo) -> (r: Option<(u64, u64)>)
        ensures
            r == self.window_of(*i),
    {
        if !committed(i) {
            return None;
        }
        let rend: u64 = i.base.saturating_add(i.size);
        let s: u64 = if i.base < self.start {
            self.start
        } else {
            i.base
        };
        let e: u64 = if rend > self.end {
            self.end
        } else {
            rend
        };
        if e > s {
            Some((s, e))
        } else {
            None
        }
    }

    /// Searches the bytes of a window that starts at `at`, polling the abort
    /// flag now and then.
    pub fn search<F: Fn() -> bool>(&mut self, at: u64, bytes: &[u8], aborted: F) -> (r: SliceEnd)
        requires
            old(self).wf(),
            !old(self).finished,
            call_requires(aborted, ()),
            old(self).start <= at,
            at + bytes@.len() <= old(self).end,
        ensures
            final(self).wf(),
            final(self).same_bounds(old(self)),
            final(self).addr == old(self).addr,
            final(self).scanned == old(self).scanned,
            final(self).finished == (r != SliceEnd::Done),
            r == SliceEnd::Aborted ==> call_ensures(aborted, (), true),
            r == SliceEnd::Aborted ==> exists|n: nat|
                #![trigger matches_below(bytes@, old(self).needle@, at as int, n)]
                0 < n <= bytes@.len() && n % (POLL_EVERY as nat) == 0 && ints(final(self).hits@)
                    == ints(old(self).hits@) + matches_below(
                    bytes@,
                    old(self).needle@,
                    at as int,
                    n,
                ),
            polled(bytes@, old(self).needle@, at as int, old(self).max_hits
                - old(self).hits@.len()) && (forall|b: bool| call_ensures(aborted, (), b) ==> b)
                ==> r == SliceEnd::Aborted,
            exists|n: nat|
                #![trigger matches_below(bytes@, old(self).needle@, at as int, n)]
                n <= bytes@.len() && ints(final(self).hits@) == ints(old(self).hits@)
                    + matches_below(bytes@, old(self).needle@, at as int, n),
            r == SliceEnd::Done ==> ints(final(self).hits@) == ints(old(self).hits@)
                + matches_below(bytes@, old(self).needle@, at as int, bytes@.len()),
            r == SliceEnd::Full ==> final(self).hits@.len() == old(self).max_hits,
    {
        let len: usize = bytes.len();
        let n: usize = self.needle.len();
        let ghost needle = self.needle@;
        let ghost o = *self;
        let ghost always = forall|b: bool| call_ensures(aborted, (), b) ==> b;
        let mut i: usize = 0;
        assert(ints(self.hits@) == ints(o.hits@) + matches_below(bytes@, needle, at as int, 0));
        while i < len && n <= len - i
            invariant
                i <= len,
                len == bytes@.len(),
                n == needle.len(),
                n > 0,
                needle == self.needle@,
                self.wf(),
                !self.finished,
                o == *old(self),
                self.same_bounds(&o),
                self.addr == o.addr,
                self.scanned == o.scanned,
                call_requires(aborted, ()),
                o.start <= at,
                at + len <= o.end,
                ints(self.hits@) == ints(o.hits@) + matches_below(
                    bytes@,
                    needle,
                    at as int,
                    i as nat,
                ),
                always == (forall|b: bool| call_ensures(aborted, (), b) ==> b),
                always ==> i < POLL_EVERY,
            decreases len - i,
        {
            let ghost h0 = self.hits@;
            if matches_here(bytes, &self.needle, i) {
                self.hits.push(at + i as u64);
                proof {
                    assert(ints(self.hits@) == ints(h0).push(at + i));
                    assert(ints(self.hits@) == ints(o.hits@) + matches_below(
                        bytes@,
                        needle,
                        at as int,
                        (i + 1) as nat,
                    ));
                    assert(ints(h0).len() == h0.len());
                    assert(ints(o.hits@).len() == o.hits@.len());
                }
                if self.hits.len() as u64 >= self.max_hits {
                    self.finished = true;
                    proof {
                        if always && polled(bytes@, needle, at as int, o.max_hits - o.hits@.len()) {
                            lemma_matches_prefix(
                                bytes@,
                                needle,
                                at as int,
                                (i + 1) as nat,
                                POLL_EVERY as nat,
                            );
                        }
                    }
                    return SliceEnd::Full;
                }
            }
            i = i + 1;
            assert(ints(self.hits@) == ints(o.hits@) + matches_below(
                bytes@,
                needle,
                at as int,
                i as nat,
            ));
            if i % POLL_EVERY == 0 && aborted() {
                self.finished = true;
                return SliceEnd::Aborted;
            }
        }
        proof {
            lemma_no_match_past(bytes@, needle, at as int, i as nat, len as nat);
        }
        SliceEnd::Done
    }

    /// Moves past an answered region of which `len` bytes were searched. The
    /// scan ends when enough was searched or the region does not advance.
    pub fn pass(&mut self, i: &RegionInfo, len: u64)
        requires
            old(self).wf(),
        ensures
            final(self).wf(),
            final(self).same_bounds(old(self)),
            final(self).hits == old(self).hits,
            final(self).scanned == (if old(self).scanned + len > u64::MAX {
                u64::MAX
            } else {
                (old(self).scanned + len) as u64
            }),
            final(self).finished == (old(self).finished || (len > 0 && final(self).scanned
                >= old(self).max_bytes) || region_end(*i) <= old(self).addr),
            final(self).addr == (if final(self).finished {
                old(self).addr
            } else {
                region_end(*i) as u64
            }),
    {
        self.scanned = self.scanned.saturating_add(len);
        let rend: u64 = i.base.saturating_add(i.size);
        if self.finished || (len > 0 && self.scanned >= self.max_bytes) || rend <= self.addr {
            self.finished = true;
        } else {
            self.addr = rend;
        }
    }
}

/// What a scan reads is committed memory of the region that was answered, and
/// lies in its range.
pub proof fn law_scan_stays_inside(s: Scan, i: RegionInfo)
    ensures
        s.window_of(i) matches Some(w) ==> {
            &&& committed_spec(i)
            &&& s.start <= w.0 < w.1 <= s.end
            &&& i.base <= w.0 && w.1 <= region_end(i)
        },
{
}

/// What a scan has done so far: the hits, the bytes searched, the address it
/// has come to, and whether it is over.
pub struct Progress {
    pub hits: Seq<int>,
    pub scanned: int,
    pub addr: int,
    pub finished: bool,
}

impl Scan {
    pub open spec fn progress(&self) -> Progress {
        Progress {
            hits: ints(self.hits@),
            scanned: self.scanned as int,
            addr: self.addr as int,
            finished: self.finished,
        }
    }

    /// How many hits there is room for.
    pub open spec fn room(&self, p: Progress) -> int {
        self.max_hits - p.hits.len()
    }

    /// The hits in the window of an answered region, which holds `b`.
    pub open spec fn hits_in(&self, i: RegionInfo, b: Seq<u8>) -> Seq<int> {
        match self.window_of(i) {
            Some(w) => matches_below(b, self.needle@, w.0 as int, b.len()),
            None => Seq::empty(),
        }
    }

    /// The bytes searched, after `n` more.
    pub open spec fn searched(&self, p: Progress, n: int) -> int {
        if p.scanned + n > u64::MAX {
            u64::MAX as int
        } else {
            p.scanned + n
        }
    }

    /// One answered region: all its hits are listed, in order, up to the limit;
    /// then the scan goes on behind it, unless enough was searched or the region
    /// does not advance.
    pub open spec fn after_region(&self, p: Progress, i: RegionInfo, b: Seq<u8>) -> Progress {
        let found = self.hits_in(i, b);
        if found.len() >= self.room(p) {
            Progress { hits: p.hits + found.take(self.room(p)), finished: true, ..p }
        } else {
            let scanned = self.searched(p, b.len() as int);
            let over = (b.len() > 0 && scanned >= self.max_bytes) || region_end(i) <= p.addr;
            Progress {
                hits: p.hits + found,
                scanned,
                addr: if over {
                    p.addr
                } else {
                    region_end(i)
                },
                finished: over,
            }
        }
    }

    /// The bytes that belong to an answered region: those of its window.
    pub open spec fn window_len(&self, i: RegionInfo) -> int {
        match self.window_of(i) {
            Some(w) => w.1 - w.0,
            None => 0,
        }
    }
}

/// Searches one answered region, whose window holds `bytes`. True where the
/// abort flag ended the scan.
pub fn scan<F: Fn() -> bool>(s: &mut Scan, i: &RegionInfo, bytes: &[u8], aborted: F) -> (r: bool)
    requires
        old(s).wf(),
        !old(s).finished,
        call_requires(aborted, ()),
        bytes@.len() == old(s).window_len(*i),
    ensures
        final(s).wf(),
        final(s).same_bounds(old(s)),
        final(s).hits@.len() <= old(s).max_hits,
        !r ==> final(s).progress() == old(s).after_region(old(s).progress(), *i, bytes@),
        (old(s).window_of(*i) matches Some(w) && polled(
            bytes@,
            old(s).needle@,
            w.0 as int,
            old(s).room(old(s).progress()),
        )) && (forall|b: bool| call_ensures(aborted, (), b) ==> b) ==> r,
        r ==> {
            &&& call_ensures(aborted, (), true)
            &&& final(s).finished
            &&& exists|n: int|
                0 <= n <= old(s).hits_in(*i, bytes@).len() && ints(final(s).hits@) == ints(
                    old(s).hits@,
                ) + #[trigger] old(s).hits_in(*i, bytes@).take(n)
        },
{
    let ghost o = *s;
    let ghost p = s.progress();
    let ghost found = s.hits_in(*i, bytes@);
    assert(ints(o.hits@).len() == o.hits@.len());
    match s.window(i) {
        Some(w) => {
            let end = s.search(w.0, bytes, aborted);
            assert(ints(s.hits@).len() == s.hits@.len());
            match end {
                SliceEnd::Done => {
                    s.pass(i, bytes.len() as u64);
                    false
                },
                SliceEnd::Full => {
                    proof {
                        let n = choose|n: nat|
                            #![trigger matches_below(bytes@, o.needle@, w.0 as int, n)]
                            n <= bytes@.len() && ints(s.hits@) == ints(o.hits@) + matches_below(
                                bytes@,
                                o.needle@,
                                w.0 as int,
                                n,
                            );
                        lemma_matches_prefix(bytes@, o.needle@, w.0 as int, n, bytes@.len());
                        assert(ints(s.hits@) =~= p.hits + found.take(o.room(p)));
                    }
                    false
                },
                SliceEnd::Aborted => {
                    proof {
                        let n = choose|n: nat|
                            #![trigger matches_below(bytes@, o.needle@, w.0 as int, n)]
                            n <= bytes@.len() && ints(s.hits@) == ints(o.hits@) + matches_below(
                                bytes@,
                                o.needle@,
                                w.0 as int,
                                n,
                            );
                        lemma_matches_prefix(bytes@, o.needle@, w.0 as int, n, bytes@.len());
                        let m = matches_below(bytes@, o.needle@, w.0 as int, n);
                        assert(ints(s.hits@) == ints(o.hits@) + found.take(m.len() as int));
                    }
                    true
                },
            }
        },
        None => {
            s.pass(i, 0);
            assert(p.hits + found =~= p.hits);
            false
        },
    }
}

/// The matches below a lower index come first.
proof fn lemma_matches_prefix(b: Seq<u8>, needle: Seq<u8>, at: int, n: nat, k: nat)
    requires
        n <= k,
    ensures
        ({
            let few = matches_below(b, needle, at, n);
            let all = matches_below(b, needle, at, k);
            few.len() <= all.len() && few == all.take(few.len() as int)
        }),
    decreases k,
{
    let few = matches_below(b, needle, at, n);
    let all = matches_below(b, needle, at, k);
    if n == k {
        assert(all.take(few.len() as int) =~= all);
    } else {
        lemma_matches_prefix(b, needle, at, n, (k - 1) as nat);
        let rest = matches_below(b, needle, at, (k - 1) as nat);
        assert(all.take(few.len() as int) =~= rest.take(few.len() as int));
    }
}

/// A scan over a list of answered regions, each with the bytes of its window.
pub open spec fn scanned_over(s: Scan, answers: Seq<(RegionInfo, Seq<u8>)>) -> Progress
    decreases answers.len(),
{
    if answers.len() == 0 {
        Progress {
            hits: Seq::empty(),
            scanned: 0,
            addr: s.start as int,
            finished: s.max_hits == 0,
        }
    } else {
        let p = scanned_over(s, answers.drop_last());
        if p.finished {
            p
        } else {
            s.after_region(p, answers.last().0, answers.last().1)
        }
    }
}

/// The pattern stands at address `a`, in the window of one of the regions.
pub open spec fn stands_at(s: Scan, answers: Seq<(RegionInfo, Seq<u8>)>, a: int) -> bool {
    exists|k: int|
        #![trigger answers[k]]
        0 <= k < answers.len() && (s.window_of(answers[k].0) matches Some(w) && match_at(
            answers[k].1,
            s.needle@,
            a - w.0,
        ))
}

/// A scan lists only addresses at which the pattern stands, no more than it was
/// allowed, and, unless a limit ended it, all of them.
pub proof fn law_scan_exact(s: Scan, answers: Seq<(RegionInfo, Seq<u8>)>, a: int)
    requires
        s.needle@.len() > 0,
    ensures
        scanned_over(s, answers).hits.contains(a) ==> stands_at(s, answers, a),
        !scanned_over(s, answers).finished && stands_at(s, answers, a) ==> scanned_over(
            s,
            answers,
        ).hits.contains(a),
        scanned_over(s, answers).hits.len() <= s.max_hits,
        !scanned_over(s, answers).finished ==> scanned_over(s, answers).hits.len() < s.max_hits,
    decreases answers.len(),
{
    let r = scanned_over(s, answers);
    if answers.len() == 0 {
        assert(!stands_at(s, answers, a));
    } else {
        let front = answers.drop_last();
        let p = scanned_over(s, front);
        let i = answers.last().0;
        let b = answers.last().1;
        let last = answers.len() - 1;
        assert(answers[last] == answers.last());
        law_scan_exact(s, front, a);
        if stands_at(s, front, a) {
            let k = choose|k: int|
                #![trigger front[k]]
                0 <= k < front.len() && (s.window_of(front[k].0) matches Some(w) && match_at(
                    front[k].1,
                    s.needle@,
                    a - w.0,
                ));
            assert(answers[k] == front[k]);
        }
        if !p.finished {
            let found = s.hits_in(i, b);
            if let Some(w) = s.window_of(i) {
                law_matches_exact(b, s.needle@, w.0 as int, b.len(), a);
            }
            let part = if found.len() >= s.room(p) {
                found.take(s.room(p))
            } else {
                found
            };
            assert(r.hits == p.hits + part);
            if r.hits.contains(a) {
                let k = choose|k: int| 0 <= k < r.hits.len() && r.hits[k] == a;
                if k < p.hits.len() {
                    assert(p.hits[k] == a);
                } else {
                    assert(found[k - p.hits.len()] == a);
                }
            }
            if !r.finished && stands_at(s, answers, a) {
                let k = choose|k: int|
                    #![trigger answers[k]]
                    0 <= k < answers.len() && (s.window_of(answers[k].0) matches Some(w) && match_at(
                        answers[k].1,
                        s.needle@,
                        a - w.0,
                    ));
                if k < front.len() {
                    assert(front[k] == answers[k]);
                    assert(p.hits.contains(a));
                    let j = choose|j: int| 0 <= j < p.hits.len() && p.hits[j] == a;
                    assert(r.hits[j] == a);
                } else {
                    assert(found.contains(a));
                    let j = choose|j: int| 0 <= j < found.len() && found[j] == a;
                    assert(r.hits[p.hits.len() + j] == a);
                }
            }
        }
    }
}

/// The regions of a scan as the system answers for them: each behind the one
/// before it, with the bytes of its window.
pub open spec fn in_order(s: Scan, answers: Seq<(RegionInfo, Seq<u8>)>) -> bool {
    &&& forall|k: int|
        #![trigger answers[k]]
        0 <= k < answers.len() ==> answers[k].1.len() == s.window_len(answers[k].0)
    &&& forall|j: int, k: int|
        #![trigger answers[j], answers[k]]
        0 <= j < k < answers.len() ==> region_end(answers[j].0) <= answers[k].0.base
}

/// The matches in a slice ascend and lie in it.
proof fn lemma_matches_ascend(b: Seq<u8>, needle: Seq<u8>, at: int, n: nat)
    requires
        needle.len() > 0,
    ensures
        ({
            let all = matches_below(b, needle, at, n);
            &&& forall|x: int| 0 <= x < all.len() ==> at <= #[trigger] all[x] < at + n
            &&& forall|x: int| 0 <= x < all.len() ==> #[trigger] all[x] < at + b.len()
            &&& forall|x: int, y: int| 0 <= x < y < all.len() ==> #[trigger] all[x] < #[trigger] all[y]
        }),
    decreases n,
{
    if n > 0 {
        lemma_matches_ascend(b, needle, at, (n - 1) as nat);
        let front = matches_below(b, needle, at, (n - 1) as nat);
        let all = matches_below(b, needle, at, n);
        assert(all == front || all == front.push(at + n - 1));
        assert forall|x: int, y: int| 0 <= x < y < all.len() implies #[trigger] all[x]
            < #[trigger] all[y] by {
            if y < front.len() {
                assert(front[x] < front[y]);
            } else {
                assert(all[x] == front[x]);
            }
        }
    }
}

/// The hits of a scan ascend, and so none is listed twice.
pub proof fn law_hits_ascend(s: Scan, answers: Seq<(RegionInfo, Seq<u8>)>)
    requires
        s.needle@.len() > 0,
        in_order(s, answers),
    ensures
        forall|x: int, y: int|
            0 <= x < y < scanned_over(s, answers).hits.len() ==> #[trigger] scanned_over(
                s,
                answers,
            ).hits[x] < #[trigger] scanned_over(s, answers).hits[y],
        answers.len() > 0 ==> forall|x: int|
            0 <= x < scanned_over(s, answers).hits.len() ==> #[trigger] scanned_over(
                s,
                answers,
            ).hits[x] < region_end(answers.last().0),
        answers.len() == 0 ==> scanned_over(s, answers).hits.len() == 0,
    decreases answers.len(),
{
    if answers.len() > 0 {
        let front = answers.drop_last();
        let p = scanned_over(s, front);
        let r = scanned_over(s, answers);
        let i = answers.last().0;
        let b = answers.last().1;
        assert(forall|k: int| 0 <= k < front.len() ==> front[k] == answers[k]);
        assert(answers[answers.len() - 1] == answers.last());
        law_hits_ascend(s, front);
        if front.len() > 0 {
            assert(front.last() == answers[answers.len() - 2]);
            assert(region_end(answers[answers.len() - 2].0) <= i.base);
        }
        assert(i.base <= region_end(i));
        let found = s.hits_in(i, b);
        if let Some(w) = s.window_of(i) {
            lemma_matches_ascend(b, s.needle@, w.0 as int, b.len());
        }
        if !p.finished {
            let part = if found.len() >= s.room(p) {
                found.take(s.room(p))
            } else {
                found
            };
            law_scan_exact(s, front, 0);
            assert(r.hits == p.hits + part);
            assert forall|x: int, y: int| 0 <= x < y < r.hits.len() implies #[trigger] r.hits[x]
                < #[trigger] r.hits[y] by {
                let k = p.hits.len();
                if y < k {
                    assert(p.hits[x] < p.hits[y]);
                } else if x < k {
                    assert(p.hits[x] < i.base);
                    assert(found[y - k] == r.hits[y]);
                } else {
                    assert(found[x - k] < found[y - k]);
                }
            }
            assert forall|x: int| 0 <= x < r.hits.len() implies #[trigger] r.hits[x] < region_end(
                i,
            ) by {
                let k = p.hits.len();
                if x < k {
                    assert(p.hits[x] < i.base);
                } else {
                    assert(found[x - k] == r.hits[x]);
                }
            }
        }
    }
}

/// No pattern starts where fewer bytes than its length are left.
proof fn lemma_no_match_past(b: Seq<u8>, needle: Seq<u8>, at: int, i: nat, n: nat)
    requires
        i <= n <= b.len(),
        needle.len() > 0,
        i + needle.len() > b.len(),
    ensures
        matches_below(b, needle, at, n) == matches_below(b, needle, at, i),
    decreases n,
{
    if n > i {
        lemma_no_match_past(b, needle, at, i, (n - 1) as nat);
    }
}

/// A listed address is one at which the pattern stands, and every such address
/// is listed.
pub proof fn law_matches_exact(b: Seq<u8>, needle: Seq<u8>, at: int, n: nat, a: int)
    ensures
        matches_below(b, needle, at, n).contains(a) <==> (at <= a < at + n && match_at(
            b,
            needle,
            a - at,
        )),
    decreases n,
{
    if n > 0 {
        law_matches_exact(b, needle, at, (n - 1) as nat, a);
        let rest = matches_below(b, needle, at, (n - 1) as nat);
        if match_at(b, needle, n - 1) {
            let all = rest.push(at + n - 1);
            if rest.contains(a) {
                let k = choose|k: int| 0 <= k < rest.len() && rest[k] == a;
                assert(all[k] == a);
            }
            assert(all[rest.len() as int] == at + n - 1);
            if all.contains(a) && a != at + n - 1 {
                let k = choose|k: int| 0 <= k < all.len() && all[k] == a;
                assert(rest[k] == a);
            }
        }
    }
}

// ── waiting for the runtime's module ─────────────────────────────────────────

/// What the wait for the module comes to.
#[derive(Copy, Clone, PartialEq, Eq, Debug, Structural)]
pub enum LoadWait {
    /// It is there.
    Loaded,
    /// It will not be waited for any longer.
    GiveUp,
    /// Look again after a short while.
    Sleep,
}

/// One look for the module: whether it was found, whether it is too late, and
/// whether the abort flag is up.
pub fn load_wait(found: bool, late: bool, aborted: bool) -> (r: LoadWait)
    ensures
        r is Loaded <==> found,
        r is GiveUp <==> !found && (late || aborted),
{
    if found {
        LoadWait::Loaded
    } else if late || aborted {
        LoadWait::GiveUp
    } else {
        LoadWait::Sleep
    }
}

} // verus!
