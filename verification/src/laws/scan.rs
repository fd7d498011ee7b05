//! The laws of memory as the system reports it, of searching it, and of the
//! texts in it.

use vstd::prelude::*;

use crate::il2cpp;
use crate::il2cpp::{RegionInfo, Scan};
use crate::memory;

verus! {

/// A region can be read where it is committed and its protection is neither
/// none, nor without access, nor guarded.
pub proof fn law_committed(i: RegionInfo)
    ensures
        il2cpp::committed_spec(i) <==> {
            &&& i.state == 0x1000
            &&& i.protect != 0
            &&& i.protect & 0x001 == 0
            &&& i.protect & 0x100 == 0
        },
{
    let p = i.protect;
    assert(p & 0x101 == 0 <==> p & 0x001 == 0 && p & 0x100 == 0) by (bit_vector);
}

/// The part of a region that a search looks at lies in the region and in the
/// range that was asked for, and is all of what does.
pub proof fn law_window(s: Scan, i: RegionInfo, a: int)
    requires
        i.base + i.size <= u64::MAX,
    ensures
        (s.window_of(i) matches Some(w) && w.0 <= a < w.1) <==> {
            &&& il2cpp::committed_spec(i)
            &&& i.base <= a < i.base + i.size
            &&& s.start <= a < s.end
        },
        s.window_of(i) matches Some(w) ==> w.0 < w.1,
{
}

/// A pattern stands in bytes where every byte of it does.
pub proof fn law_match(b: Seq<u8>, needle: Seq<u8>, i: int)
    ensures
        il2cpp::match_at(b, needle, i) <==> {
            &&& 0 <= i
            &&& i + needle.len() <= b.len()
            &&& forall|j: int| 0 <= j < needle.len() ==> b[i + j] == #[trigger] needle[j]
        },
{
    if 0 <= i && i + needle.len() <= b.len() {
        let t = b.subrange(i, i + needle.len());
        if t == needle {
            assert forall|j: int| 0 <= j < needle.len() implies b[i + j] == #[trigger] needle[j] by {
                assert(t[j] == needle[j]);
            }
        }
        if forall|j: int| 0 <= j < needle.len() ==> b[i + j] == #[trigger] needle[j] {
            assert(t =~= needle);
        }
    }
}

/// How many bytes the first regions of a search hold.
pub open spec fn bytes_in(answers: Seq<(RegionInfo, Seq<u8>)>) -> int
    decreases answers.len(),
{
    if answers.len() == 0 {
        0
    } else {
        bytes_in(answers.drop_last()) + answers.last().1.len()
    }
}

/// A search ends before its regions do only for a reason: it has all the hits
/// it may have, it has searched as much as it may, or the system's answers do
/// not go on.
pub proof fn law_scan_ends(s: Scan, answers: Seq<(RegionInfo, Seq<u8>)>)
    ensures
        ({
            let p = il2cpp::scanned_over(s, answers);
            &&& p.finished ==> {
                ||| p.hits.len() >= s.max_hits
                ||| bytes_in(answers) >= s.max_bytes
                ||| p.scanned >= u64::MAX
                ||| exists|k: int|
                    #![trigger answers[k]]
                    0 <= k < answers.len() && il2cpp::region_end(answers[k].0) <= if k == 0 {
                        s.start as int
                    } else {
                        il2cpp::region_end(answers[k - 1].0)
                    }
            }
            &&& p.scanned <= bytes_in(answers)
            &&& !p.finished ==> p.addr == if answers.len() == 0 {
                s.start as int
            } else {
                il2cpp::region_end(answers.last().0)
            }
        }),
    decreases answers.len(),
{
    if answers.len() > 0 {
        let front = answers.drop_last();
        let n = answers.len() - 1;
        law_scan_ends(s, front);
        let p = il2cpp::scanned_over(s, front);
        assert(forall|k: int| 0 <= k < n ==> #[trigger] front[k] == answers[k]);
        assert(answers[n] == answers.last());
        if n > 0 {
            assert(front.last() == answers[n - 1]);
        }
        if p.finished {
            if exists|k: int|
                #![trigger front[k]]
                0 <= k < front.len() && il2cpp::region_end(front[k].0) <= if k == 0 {
                    s.start as int
                } else {
                    il2cpp::region_end(front[k - 1].0)
                } {
                let k = choose|k: int|
                    #![trigger front[k]]
                    0 <= k < front.len() && il2cpp::region_end(front[k].0) <= if k == 0 {
                        s.start as int
                    } else {
                        il2cpp::region_end(front[k - 1].0)
                    };
                assert(answers[k] == front[k]);
                if k > 0 {
                    assert(answers[k - 1] == front[k - 1]);
                }
            }
        } else {
            let i = answers.last().0;
            let b = answers.last().1;
            let found = s.hits_in(i, b);
            if found.len() < s.room(p) {
                assert(il2cpp::region_end(i) <= p.addr ==> il2cpp::region_end(answers[n].0)
                    <= if n == 0 {
                    s.start as int
                } else {
                    il2cpp::region_end(answers[n - 1].0)
                });
            }
        }
    }
}

/// The byte at an address is the code of a printable character.
pub open spec fn shows(m: Map<int, u8>, a: int, c: char) -> bool {
    m.dom().contains(a) && 0x20 <= m[a] <= 0x7e && m[a] == c as int
}

/// A text in memory is what stands from its address up to a zero byte, less than
/// `max` bytes away: one printable character for each byte, and nothing where a
/// byte before the zero is not printable or cannot be read.
pub proof fn law_text(m: Map<int, u8>, p: int, t: Seq<char>, max: nat)
    ensures
        il2cpp::text_val(m, p, max) == Some(t) <==> {
            &&& p != 0
            &&& t.len() < max
            &&& m.dom().contains(p + t.len())
            &&& m[p + t.len()] == 0
            &&& forall|i: int| 0 <= i < t.len() ==> shows(m, p + i, #[trigger] t[i])
        },
{
    lemma_text_from(m, p, 0, t, max);
    assert(p + 0 == p);
}

spec fn text_here(m: Map<int, u8>, a: int, t: Seq<char>, room: int) -> bool {
    &&& t.len() < room
    &&& m.dom().contains(a + t.len())
    &&& m[a + t.len()] == 0
    &&& forall|i: int| 0 <= i < t.len() ==> shows(m, a + i, #[trigger] t[i])
}

proof fn lemma_text_here(m: Map<int, u8>, a: int, t: Seq<char>, room: int)
    requires
        t.len() > 0,
    ensures
        text_here(m, a, t, room) <==> shows(m, a, t[0]) && text_here(m, a + 1, t.skip(1), room - 1),
{
    let u = t.skip(1);
    assert(a + 1 + u.len() == a + t.len());
    if text_here(m, a, t, room) {
        assert(shows(m, a + 0, t[0]));
        assert forall|i: int| 0 <= i < u.len() implies shows(m, a + 1 + i, #[trigger] u[i]) by {
            assert(shows(m, a + (i + 1), t[i + 1]));
        }
    }
    if shows(m, a, t[0]) && text_here(m, a + 1, u, room - 1) {
        assert forall|i: int| 0 <= i < t.len() implies shows(m, a + i, #[trigger] t[i]) by {
            if i > 0 {
                assert(shows(m, a + 1 + (i - 1), u[i - 1]));
            }
        }
    }
}

proof fn lemma_text_from(m: Map<int, u8>, p: int, n: nat, t: Seq<char>, max: nat)
    ensures
        il2cpp::text_from(m, p, n, max) == Some(t) <==> text_here(m, p + n, t, max - n),
    decreases t.len(),
{
    let r = il2cpp::text_from(m, p, n, max);
    if t.len() == 0 {
        assert(t =~= Seq::empty());
        assert(p + n + t.len() == p + n);
        if n < max && m.dom().contains(p + n) && m[p + n] != 0 {
            if let Some(x) = r {
                assert(x.len() > 0);
            }
        }
    } else {
        let u = t.skip(1);
        lemma_text_from(m, p, n + 1, u, max);
        lemma_text_here(m, p + n, t, max - n);
        if let Some(x) = r {
            if m[p + n] != 0 {
                let y = il2cpp::text_from(m, p, n + 1, max)->0;
                assert(x == seq![m[p + n] as char] + y);
                assert(x.skip(1) =~= y);
                if x == t {
                    assert(y == u);
                }
            }
        }
        if text_here(m, p + n, t, max - n) {
            assert(seq![t[0]] + u =~= t);
        }
    }
}

/// The text that a pointer leads to is shorter than 512 characters.
pub proof fn law_pointed_text(m: Map<int, u8>, a: int, p: nat)
    requires
        memory::val(m, a, 8) == Some(p),
    ensures
        p != 0 ==> il2cpp::str_val(m, a) == il2cpp::text_val(m, p as int, 512),
        p == 0 ==> il2cpp::str_val(m, a) is None,
{
}

/// An identifier has from 1 to 511 characters: letters, digits, and what the
/// compiler decorates names with. A namespace may be empty besides.
pub proof fn law_identifier(s: Seq<char>)
    ensures
        il2cpp::identifier(s) <==> 1 <= s.len() <= 511 && forall|i: int|
            0 <= i < s.len() ==> {
                let c = #[trigger] s[i];
                ||| 'a' <= c <= 'z'
                ||| 'A' <= c <= 'Z'
                ||| '0' <= c <= '9'
                ||| seq![
                    '_',
                    '.',
                    '`',
                    '<',
                    '>',
                    '/',
                    '[',
                    ']',
                    ',',
                    '|',
                    '-',
                    '+',
                    '=',
                    ' ',
                ].contains(c)
            },
        il2cpp::namespace_text(s) <==> s.len() == 0 || il2cpp::identifier(s),
{
    let marks = seq!['_', '.', '`', '<', '>', '/', '[', ']', ',', '|', '-', '+', '=', ' '];
    assert(marks[0] == '_' && marks[1] == '.' && marks[2] == '`' && marks[3] == '<' && marks[4]
        == '>' && marks[5] == '/' && marks[6] == '[' && marks[7] == ']' && marks[8] == ','
        && marks[9] == '|' && marks[10] == '-' && marks[11] == '+' && marks[12] == '=' && marks[13]
        == ' ');
    assert forall|i: int| 0 <= i < s.len() implies #[trigger] il2cpp::ident_char(s[i]) == {
        let c = s[i];
        ||| 'a' <= c <= 'z'
        ||| 'A' <= c <= 'Z'
        ||| '0' <= c <= '9'
        ||| marks.contains(c)
    } by {
        let c = s[i];
        if marks.contains(c) {
            let k = choose|k: int| 0 <= k < marks.len() && marks[k] == c;
            assert(il2cpp::ident_char(marks[k]));
        }
    }
    if il2cpp::identifier(s) {
        assert forall|i: int| 0 <= i < s.len() implies {
            let c = #[trigger] s[i];
            ||| 'a' <= c <= 'z'
            ||| 'A' <= c <= 'Z'
            ||| '0' <= c <= '9'
            ||| marks.contains(c)
        } by {
            assert(il2cpp::ident_char(s[i]));
        }
    }
}

/// Where a module lies, out of its own header: the header's place at 0x3c, and
/// the module's size 0x50 into the header.
pub proof fn law_module_bounds(m: Map<int, u8>, base: int, header: nat, size: nat)
    requires
        memory::val(m, base + 0x3c, 4) == Some(header),
        memory::val(m, base + header + 0x50, 4) == Some(size),
    ensures
        il2cpp::bounds_spec(m, base) == Some((base, base + size)),
{
}

/// The assemblies of a table are the pointers in it that are not null, in their
/// order.
pub proof fn law_assemblies(m: Map<int, u8>, p: int, n: nat)
    ensures
        il2cpp::assemblies_spec(m, p, n) == Seq::new(
            n,
            |i: int|
                match memory::val(m, p + 8 * i, 8) {
                    Some(v) => v as int,
                    None => 0,
                },
        ).filter(|a: int| a != 0),
    decreases n,
{
    let all = Seq::new(
        n,
        |i: int|
            match memory::val(m, p + 8 * i, 8) {
                Some(v) => v as int,
                None => 0,
            },
    );
    let f = |a: int| a != 0;
    reveal(Seq::filter);
    if n > 0 {
        law_assemblies(m, p, (n - 1) as nat);
        assert(all.drop_last() =~= Seq::new(
            (n - 1) as nat,
            |i: int|
                match memory::val(m, p + 8 * i, 8) {
                    Some(v) => v as int,
                    None => 0,
                },
        ));
    }
    assert(il2cpp::assemblies_spec(m, p, n) =~= all.filter(f));
}

/// Bytes are live where the system says at this moment that their region is
/// committed, can be accessed and reaches over all of them.
pub proof fn law_live(p: u64, len: u64, i: RegionInfo)
    requires
        p + len <= u64::MAX,
    ensures
        il2cpp::live_ok(p, len, Some(i)) <==> {
            &&& i.state == 0x1000
            &&& i.protect & 0x101 == 0
            &&& p + len <= i.base + i.size
        },
        !il2cpp::live_ok(p, len, None),
{
}

/// A region ends as far behind its start as it is long, but not beyond the last
/// address; one that is committed is noted whole, and no other.
pub proof fn law_region(i: RegionInfo, t: Seq<memory::Span>)
    ensures
        i.base + i.size <= u64::MAX ==> il2cpp::region_end(i) == i.base + i.size,
        i.base + i.size > u64::MAX ==> il2cpp::region_end(i) == u64::MAX,
        !il2cpp::committed_spec(i) ==> il2cpp::noted(t, i) == t,
        il2cpp::committed_spec(i) && i.base + i.size <= u64::MAX ==> {
            let n = il2cpp::noted(t, i);
            &&& t.len() > 0 && t.last().1 == i.base ==> n.len() == t.len() && n.last() == (
                t.last().0,
                (i.base + i.size) as u64,
            )
            &&& t.len() == 0 || t.last().1 != i.base ==> n == t.push(
                (i.base, (i.base + i.size) as u64),
            )
        },
{
}

} // verus!
