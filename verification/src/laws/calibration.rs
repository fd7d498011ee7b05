//! The laws of finding the layout of the metadata: which layout is found, and
//! that one is found where there is one.

use vstd::prelude::*;

use crate::il2cpp;
use crate::il2cpp_abi;
use crate::il2cpp_abi::{CalibrationError, ClassPart, FieldPart, FieldSlots, Layout, MethodSlots};
use crate::memory;
use crate::search;
use crate::text;

verus! {

// ── winning a vote, and being first ──────────────────────────────────────────

/// The candidate has votes, no candidate has more, and none before it has as
/// many.
#[verifier::opaque]
pub open spec fn wins(votes: spec_fn(int) -> nat, lo: int, step: int, n: nat, x: int) -> bool {
    &&& votes(x) > 0
    &&& exists|j: int| 0 <= j < n && x == lo + #[trigger] (step * j)
    &&& forall|j: int|
        0 <= j < n ==> votes(lo + #[trigger] (step * j)) <= votes(x) && (lo + step * j < x ==> votes(
            lo + step * j,
        ) < votes(x))
}

/// The best candidate is the one that wins, and there is none exactly where
/// nobody has a vote.
proof fn lemma_wins(votes: spec_fn(int) -> nat, lo: int, step: int, n: nat)
    requires
        step > 0,
        n > 0,
    ensures
        search::best(votes, lo, step, n).0 > 0 ==> wins(
            votes,
            lo,
            step,
            n,
            search::best(votes, lo, step, n).1,
        ) && search::best(votes, lo, step, n).0 == votes(search::best(votes, lo, step, n).1),
        forall|x: int|
            #[trigger] wins(votes, lo, step, n, x) ==> search::best(votes, lo, step, n) == (
                votes(x),
                x,
            ),
        forall|x: int| #[trigger]
            wins(votes, lo, step, n, x) ==> votes(x) > 0 && lo <= x <= lo + step * (n - 1),
        search::best(votes, lo, step, n).0 == 0 <==> forall|j: int|
            0 <= j < n ==> votes(lo + #[trigger] (step * j)) == 0,
{
    reveal(wins);
    let b = search::best(votes, lo, step, n);
    search::lemma_best_in_range(votes, lo, step, n);
    search::law_best_is_first_maximum(votes, lo, step, n, 0);
    assert forall|j: int| 0 <= j < n implies votes(lo + #[trigger] (step * j)) <= b.0 && (b.0 > 0
        && lo + step * j < b.1 ==> votes(lo + step * j) < b.0) by {
        search::law_best_is_first_maximum(votes, lo, step, n, j as nat);
    }
    if b.0 > 0 {
        let j = choose|j: int| 0 <= j < n && b.1 == lo + #[trigger] (step * j);
        assert(b.1 == lo + step * j);
    }
    assert forall|x: int| #[trigger] wins(votes, lo, step, n, x) implies b == (votes(x), x) by {
        let j = choose|j: int| 0 <= j < n && x == lo + #[trigger] (step * j);
        assert(votes(lo + step * j) <= b.0);
        assert(b.0 > 0);
        let i = choose|i: int| 0 <= i < n && b.1 == lo + #[trigger] (step * i);
        assert(votes(lo + step * i) <= votes(x));
        if x < b.1 {
            assert(votes(lo + step * j) < b.0);
        } else if b.1 < x {
            assert(votes(lo + step * i) < votes(x));
        }
    }
}

/// The entry satisfies a test, and none before it does.
#[verifier::opaque]
pub open spec fn is_first(s: Seq<u64>, p: spec_fn(u64) -> bool, x: u64) -> bool {
    exists|i: int|
        0 <= i < s.len() && #[trigger] s[i] == x && p(x) && forall|j: int|
            0 <= j < i ==> !p(#[trigger] s[j])
}

proof fn lemma_is_first(s: Seq<u64>, p: spec_fn(u64) -> bool)
    ensures
        forall|x: u64| #[trigger] is_first(s, p, x) <==> search::first_in(s, p) == Some(x),
        search::first_in(s, p) is None <==> forall|i: int| 0 <= i < s.len() ==> !p(#[trigger] s[i]),
{
    reveal(is_first);
    search::law_first_in(s, p);
    assert forall|x: u64| #[trigger] is_first(s, p, x) implies search::first_in(s, p) == Some(x) by {
        let i = choose|i: int|
            0 <= i < s.len() && #[trigger] s[i] == x && p(x) && forall|j: int|
                0 <= j < i ==> !p(#[trigger] s[j]);
        assert(p(s[i]));
        let y = search::first_in(s, p)->0;
        let k = choose|k: int|
            0 <= k < s.len() && #[trigger] s[k] == y && p(y) && forall|j: int|
                0 <= j < k ==> !p(#[trigger] s[j]);
        if k < i {
            assert(!p(s[k]));
        } else if i < k {
            assert(!p(s[i]));
        }
    }
    if let Some(x) = search::first_in(s, p) {
        assert(is_first(s, p, x));
    }
}

/// The offset satisfies a test, and no candidate below it does.
#[verifier::opaque]
pub open spec fn is_least(p: spec_fn(int) -> bool, lo: int, step: int, hi: int, x: int) -> bool {
    &&& x < hi
    &&& p(x)
    &&& exists|k: nat| x == lo + #[trigger] (step * k)
    &&& forall|k: nat| lo + #[trigger] (step * k) < x ==> !p(lo + step * k)
}

proof fn lemma_is_least(p: spec_fn(int) -> bool, lo: int, step: int, hi: int)
    requires
        step > 0,
    ensures
        forall|x: int| #[trigger]
            is_least(p, lo, step, hi, x) <==> search::first_from(p, lo, step, hi) == Some(x),
        search::first_from(p, lo, step, hi) is None <==> forall|k: nat|
            lo + #[trigger] (step * k) < hi ==> !p(lo + step * k),
{
    reveal(is_least);
    search::law_first_from(p, lo, step, hi);
    let r = search::first_from(p, lo, step, hi);
    if let Some(y) = r {
        assert(is_least(p, lo, step, hi, y));
        let k = choose|k: nat| y == lo + #[trigger] (step * k);
        assert(lo + step * k < hi && p(lo + step * k));
    }
    assert forall|x: int| #[trigger] is_least(p, lo, step, hi, x) implies r == Some(x) by {
        let k = choose|k: nat| x == lo + #[trigger] (step * k);
        assert(p(lo + step * k));
        let y = r->0;
        let j = choose|j: nat| y == lo + #[trigger] (step * j);
        if y < x {
            assert(!p(lo + step * j));
        } else if x < y {
            assert(!p(lo + step * k));
        }
    }
}

// ── the samples ──────────────────────────────────────────────────────────────

/// The cheap passes look at the classes among the first 4096 of which 0x180
/// bytes can be read, all of them in their order; the expensive ones at 192 of
/// those at most, evenly spread.
pub proof fn law_samples(m: Map<int, u8>, classes: Seq<u64>)
    ensures
        classes.len() <= 4096 ==> il2cpp_abi::samples_of(m, classes) == classes.filter(
            |c: u64| memory::has(m, c as int, 0x180),
        ),
        classes.len() > 4096 ==> il2cpp_abi::samples_of(m, classes) == classes.take(4096).filter(
            |c: u64| memory::has(m, c as int, 0x180),
        ),
{
    assert(il2cpp_abi::is_class(m) =~= (|c: u64| memory::has(m, c as int, 0x180)));
    if classes.len() <= 4096 {
        assert(classes.take(classes.len() as int) =~= classes);
    }
}

pub proof fn law_probes(cs: Seq<u64>, i: int)
    ensures
        ({
            let ps = il2cpp_abi::probes_of(cs);
            let step = if cs.len() >= 384 {
                cs.len() as int / 192
            } else {
                1
            };
            &&& ps.len() <= 192
            &&& 0 <= i < ps.len() ==> step * i < cs.len() && ps[i] == cs[step * i]
            &&& ps.len() < 192 ==> step * ps.len() >= cs.len()
        }),
{
    let step = il2cpp_abi::probe_step(cs.len());
    search::law_spread(cs, step, 0, 192);
    assert(0 + step * i == step * i);
}

// ── the class structure ──────────────────────────────────────────────────────

/// The text that the pointer at an address leads to.
pub open spec fn reads(m: Map<int, u8>, a: int, t: Seq<char>) -> bool {
    il2cpp::str_val(m, a) == Some(t)
}

/// The pointer at an address leads to an identifier.
pub open spec fn reads_name(m: Map<int, u8>, a: int) -> bool {
    il2cpp::str_val(m, a) matches Some(t) && il2cpp::identifier(t)
}

/// How many classes have a name at an offset, of one at which some class is
/// called Object and some class String.
pub open spec fn name_votes(m: Map<int, u8>, cs: Seq<u64>) -> spec_fn(int) -> nat {
    |off: int|
        if (exists|i: int| 0 <= i < cs.len() && reads(m, #[trigger] cs[i] + off, "Object"@)) && (
        exists|i: int| 0 <= i < cs.len() && reads(m, #[trigger] cs[i] + off, "String"@)) {
            cs.filter(|c: u64| reads_name(m, c + off)).len()
        } else {
            0
        }
}

/// How many classes have `System` at an offset, of another one at which more
/// than half of them have the name of a namespace.
pub open spec fn space_votes(m: Map<int, u8>, cs: Seq<u64>, c_name: int) -> spec_fn(int) -> nat {
    |off: int|
        if off != c_name && 2 * cs.filter(
            |c: u64|
                il2cpp::str_val(m, c + off) matches Some(t) && (t.len() == 0 || il2cpp::identifier(
                    t,
                )),
        ).len() > cs.len() - cs.len() % 2 {
            cs.filter(|c: u64| reads(m, c + off, "System"@)).len()
        } else {
            0
        }
}

/// The class of that name in the namespace `System`.
pub open spec fn system_class(m: Map<int, u8>, c_name: int, c_space: int, t: Seq<char>) -> spec_fn(
    u64,
) -> bool {
    |c: u64| reads(m, c + c_name, t) && reads(m, c + c_space, "System"@)
}

/// The third byte of the second word of a type record: the element type.
pub open spec fn element(m: Map<int, u8>, c: int, x: int) -> Option<nat> {
    match memory::val(m, c + x + 8, 4) {
        Some(v) => Some((v / 65536) % 256),
        None => None,
    }
}

/// The type records stand at an offset: those of String, Object and Int32 have
/// their element types, and more than half of all classes have a sound one, the
/// same in both records.
pub open spec fn type_records(
    m: Map<int, u8>,
    cs: Seq<u64>,
    string: u64,
    object: u64,
    int32: u64,
) -> spec_fn(int) -> bool {
    |x: int|
        {
            &&& element(m, string as int, x) == Some(14nat)
            &&& element(m, object as int, x) == Some(28nat)
            &&& element(m, int32 as int, x) == Some(8nat)
            &&& 2 * cs.filter(
                |c: u64|
                    {
                        &&& element(m, c as int, x) matches Some(t)
                        &&& 1 <= t <= 32
                        &&& element(m, c as int, x + 16) == Some(t)
                    },
            ).len() > cs.len() - cs.len() % 2
        }
}

/// How many classes point at another class with a name, of an offset other than
/// that of the type records at which String points at Object.
pub open spec fn parent_votes(
    m: Map<int, u8>,
    cs: Seq<u64>,
    c_name: int,
    c_byval: int,
    string: u64,
) -> spec_fn(int) -> nat {
    |off: int|
        if off != c_byval && (memory::val(m, string + off, 8) matches Some(p) && p != 0 && reads(
            m,
            p + c_name,
            "Object"@,
        )) {
            cs.filter(
                |c: u64|
                    {
                        &&& memory::val(m, c + off, 8) matches Some(p)
                        &&& p != 0
                        &&& p != c
                        &&& memory::has(m, p as int, 0x180)
                        &&& reads_name(m, p + c_name)
                    },
            ).len()
        } else {
            0
        }
}

proof fn lemma_class_votes(
    m: Map<int, u8>,
    cs: Seq<u64>,
    c_name: int,
    c_byval: int,
    string: u64,
    object: u64,
    int32: u64,
)
    ensures
        il2cpp_abi::name_score(m, cs) == name_votes(m, cs),
        il2cpp_abi::namespace_score(m, cs, c_name) == space_votes(m, cs, c_name),
        il2cpp_abi::byval_fits(m, cs, string as int, object as int, int32 as int) == type_records(
            m,
            cs,
            string,
            object,
            int32,
        ),
        il2cpp_abi::parent_score(m, cs, c_name, c_byval, string as int) == parent_votes(
            m,
            cs,
            c_name,
            c_byval,
            string,
        ),
{
    assert forall|off: int| #[trigger]
        il2cpp_abi::name_score(m, cs)(off) == name_votes(m, cs)(off) by {
        let p = il2cpp_abi::reads_at(m, off, "Object"@);
        let q = il2cpp_abi::reads_at(m, off, "String"@);
        lemma_is_first(cs, p);
        lemma_is_first(cs, q);
        assert((exists|i: int| 0 <= i < cs.len() && reads(m, #[trigger] cs[i] + off, "Object"@))
            == (search::first_in(cs, p) is Some)) by {
            if search::first_in(cs, p) is Some {
                let i = choose|i: int| 0 <= i < cs.len() && p(#[trigger] cs[i]);
                assert(reads(m, cs[i] + off, "Object"@));
            }
            if exists|i: int| 0 <= i < cs.len() && reads(m, #[trigger] cs[i] + off, "Object"@) {
                let i = choose|i: int|
                    0 <= i < cs.len() && reads(m, #[trigger] cs[i] + off, "Object"@);
                assert(p(cs[i]));
            }
        }
        assert((exists|i: int| 0 <= i < cs.len() && reads(m, #[trigger] cs[i] + off, "String"@))
            == (search::first_in(cs, q) is Some)) by {
            if search::first_in(cs, q) is Some {
                let i = choose|i: int| 0 <= i < cs.len() && q(#[trigger] cs[i]);
                assert(reads(m, cs[i] + off, "String"@));
            }
            if exists|i: int| 0 <= i < cs.len() && reads(m, #[trigger] cs[i] + off, "String"@) {
                let i = choose|i: int|
                    0 <= i < cs.len() && reads(m, #[trigger] cs[i] + off, "String"@);
                assert(q(cs[i]));
            }
        }
        let f = |c: u64| reads_name(m, c + off);
        assert(il2cpp_abi::named_at(m, off) =~= f);
        search::law_count_if(cs, f);
    }
    assert(il2cpp_abi::name_score(m, cs) =~= name_votes(m, cs));
    assert forall|off: int| #[trigger]
        il2cpp_abi::namespace_score(m, cs, c_name)(off) == space_votes(m, cs, c_name)(off) by {
        let f = |c: u64|
            il2cpp::str_val(m, c + off) matches Some(t) && (t.len() == 0 || il2cpp::identifier(t));
        assert(il2cpp_abi::spaced_at(m, off) =~= f);
        search::law_count_if(cs, f);
        let g = |c: u64| reads(m, c + off, "System"@);
        assert(il2cpp_abi::reads_at(m, off, "System"@) =~= g);
        search::law_count_if(cs, g);
    }
    assert(il2cpp_abi::namespace_score(m, cs, c_name) =~= space_votes(m, cs, c_name));
    let fits = il2cpp_abi::byval_fits(m, cs, string as int, object as int, int32 as int);
    assert forall|x: int| #[trigger]
        fits(x) == type_records(m, cs, string, object, int32)(x) by {
        let f = |c: u64|
            {
                &&& element(m, c as int, x) matches Some(t)
                &&& 1 <= t <= 32
                &&& element(m, c as int, x + 16) == Some(t)
            };
        assert forall|c: int, y: int| #[trigger]
            il2cpp_abi::element_of(m, c, y) == element(m, c, y) by {}
        assert(il2cpp_abi::typed_at(m, x) =~= f);
        search::law_count_if(cs, f);
    }
    assert(fits =~= type_records(m, cs, string, object, int32));
    let score = il2cpp_abi::parent_score(m, cs, c_name, c_byval, string as int);
    assert forall|off: int| #[trigger]
        score(off) == parent_votes(m, cs, c_name, c_byval, string)(off) by {
        let f = |c: u64|
            {
                &&& memory::val(m, c + off, 8) matches Some(p)
                &&& p != 0
                &&& p != c
                &&& memory::has(m, p as int, 0x180)
                &&& reads_name(m, p + c_name)
            };
        assert(il2cpp_abi::derived_at(m, c_name, off) =~= f);
        search::law_count_if(cs, f);
    }
    assert(score =~= parent_votes(m, cs, c_name, c_byval, string));
}

/// The class structure is found exactly where each of its offsets is: the name
/// and the namespace win their votes, String, Object and Int32 of `System` are
/// among the classes, the type records stand at the least offset that fits them,
/// and the parent wins its vote. So where a layout is there, it is found, and it
/// is that one.
pub proof fn law_class_structure(m: Map<int, u8>, cs: Seq<u64>, cl: ClassPart, object: u64, int32: u64)
    ensures
        ({
            let name = cl.c_name as int;
            let space = cl.c_namespace as int;
            il2cpp_abi::class_part(m, cs) == Ok::<ClassPart, CalibrationError>(cl) && is_first(
                cs,
                system_class(m, name, space, "Object"@),
                object,
            ) && is_first(cs, system_class(m, name, space, "Int32"@), int32) <==> {
                &&& wins(name_votes(m, cs), 0, 8, 16, name)
                &&& wins(space_votes(m, cs, name), 0, 8, 12, space)
                &&& is_first(cs, system_class(m, name, space, "String"@), cl.a_str)
                &&& is_first(cs, system_class(m, name, space, "Object"@), object)
                &&& is_first(cs, system_class(m, name, space, "Int32"@), int32)
                &&& is_least(
                    type_records(m, cs, cl.a_str, object, int32),
                    0x18,
                    8,
                    0x80,
                    cl.c_byval as int,
                )
                &&& wins(
                    parent_votes(m, cs, name, cl.c_byval as int, cl.a_str),
                    0,
                    8,
                    20,
                    cl.c_parent as int,
                )
            }
        }),
        il2cpp_abi::class_part(m, cs) matches Ok(found) ==> exists|object: u64, int32: u64|
            #[trigger] is_first(
                cs,
                system_class(m, found.c_name as int, found.c_namespace as int, "Object"@),
                object,
            ) && #[trigger] is_first(
                cs,
                system_class(m, found.c_name as int, found.c_namespace as int, "Int32"@),
                int32,
            ),
{
    if il2cpp_abi::class_part(m, cs) is Ok {
        let (b, c) = lemma_class_sound(m, cs);
        let found = il2cpp_abi::class_part(m, cs)->Ok_0;
        let name = found.c_name as int;
        let space = found.c_namespace as int;
        lemma_is_first(cs, system_class(m, name, space, "Object"@));
        lemma_is_first(cs, system_class(m, name, space, "Int32"@));
    }
    if class_fits(m, cs, cl, object, int32) {
        lemma_class_complete(m, cs, cl, object, int32);
    }
}

spec fn class_fits(m: Map<int, u8>, cs: Seq<u64>, cl: ClassPart, object: u64, int32: u64) -> bool {
    let name = cl.c_name as int;
    let space = cl.c_namespace as int;
    &&& wins(name_votes(m, cs), 0, 8, 16, name)
    &&& wins(space_votes(m, cs, name), 0, 8, 12, space)
    &&& is_first(cs, system_class(m, name, space, "String"@), cl.a_str)
    &&& is_first(cs, system_class(m, name, space, "Object"@), object)
    &&& is_first(cs, system_class(m, name, space, "Int32"@), int32)
    &&& is_least(type_records(m, cs, cl.a_str, object, int32), 0x18, 8, 0x80, cl.c_byval as int)
    &&& wins(
        parent_votes(m, cs, name, cl.c_byval as int, cl.a_str),
        0,
        8,
        20,
        cl.c_parent as int,
    )
}

proof fn lemma_class_complete(m: Map<int, u8>, cs: Seq<u64>, cl: ClassPart, object: u64, int32: u64)
    requires
        class_fits(m, cs, cl, object, int32),
    ensures
        il2cpp_abi::class_part(m, cs) == Ok::<ClassPart, CalibrationError>(cl),
{
    let name = cl.c_name as int;
    let space = cl.c_namespace as int;
    let byval = cl.c_byval as int;
    lemma_class_votes(m, cs, name, byval, cl.a_str, object, int32);
    lemma_wins(name_votes(m, cs), 0, 8, 16);
    assert(search::best(il2cpp_abi::name_score(m, cs), 0, 8, 16).1 == name);
    lemma_wins(space_votes(m, cs, name), 0, 8, 12);
    assert(search::best(il2cpp_abi::namespace_score(m, cs, name), 0, 8, 12).1 == space);
    assert(il2cpp_abi::in_system(m, name, space, "String"@) =~= system_class(
        m,
        name,
        space,
        "String"@,
    ));
    assert(il2cpp_abi::in_system(m, name, space, "Object"@) =~= system_class(
        m,
        name,
        space,
        "Object"@,
    ));
    assert(il2cpp_abi::in_system(m, name, space, "Int32"@) =~= system_class(
        m,
        name,
        space,
        "Int32"@,
    ));
    lemma_is_first(cs, system_class(m, name, space, "String"@));
    lemma_is_first(cs, system_class(m, name, space, "Object"@));
    lemma_is_first(cs, system_class(m, name, space, "Int32"@));
    lemma_is_least(type_records(m, cs, cl.a_str, object, int32), 0x18, 8, 0x80);
    lemma_wins(parent_votes(m, cs, name, byval, cl.a_str), 0, 8, 20);
}

proof fn lemma_class_sound(m: Map<int, u8>, cs: Seq<u64>) -> (r: (u64, u64))
    requires
        il2cpp_abi::class_part(m, cs) is Ok,
    ensures
        class_fits(m, cs, il2cpp_abi::class_part(m, cs)->Ok_0, r.0, r.1),
{
    let cl = il2cpp_abi::class_part(m, cs)->Ok_0;
    lemma_class_votes(m, cs, 0, 0, 0, 0, 0);
    lemma_wins(name_votes(m, cs), 0, 8, 16);
    let name = search::best(il2cpp_abi::name_score(m, cs), 0, 8, 16).1;
    assert(wins(name_votes(m, cs), 0, 8, 16, name));
    assert(cl.c_name == name);
    lemma_class_votes(m, cs, name, 0, 0, 0, 0);
    lemma_wins(space_votes(m, cs, name), 0, 8, 12);
    let space = search::best(il2cpp_abi::namespace_score(m, cs, name), 0, 8, 12).1;
    assert(wins(space_votes(m, cs, name), 0, 8, 12, space));
    assert(cl.c_namespace == space);
    assert(il2cpp_abi::in_system(m, name, space, "String"@) =~= system_class(
        m,
        name,
        space,
        "String"@,
    ));
    assert(il2cpp_abi::in_system(m, name, space, "Object"@) =~= system_class(
        m,
        name,
        space,
        "Object"@,
    ));
    assert(il2cpp_abi::in_system(m, name, space, "Int32"@) =~= system_class(
        m,
        name,
        space,
        "Int32"@,
    ));
    lemma_is_first(cs, system_class(m, name, space, "String"@));
    lemma_is_first(cs, system_class(m, name, space, "Object"@));
    lemma_is_first(cs, system_class(m, name, space, "Int32"@));
    let a = cl.a_str;
    let b = search::first_in(cs, system_class(m, name, space, "Object"@))->0;
    let c = search::first_in(cs, system_class(m, name, space, "Int32"@))->0;
    lemma_class_votes(m, cs, name, cl.c_byval as int, a, b, c);
    let t = type_records(m, cs, a, b, c);
    lemma_is_least(t, 0x18, 8, 0x80);
    search::law_first_from(t, 0x18, 8, 0x80);
    let byval = search::first_from(t, 0x18, 8, 0x80)->0;
    assert(cl.c_byval == byval);
    lemma_wins(parent_votes(m, cs, name, byval, a), 0, 8, 20);
    (b, c)
}

// ── the field structure ──────────────────────────────────────────────────────

/// The pointer at an address is that of a class.
pub open spec fn owned_by(m: Map<int, u8>, a: int, c: int) -> bool {
    c != 0 && memory::val(m, a, 8) == Some(c as nat) && c >= 0
}

/// How many classes have at `fields` an array whose first entry has the class at
/// `parent` and a name at `name`; the two are not the same.
pub open spec fn field_votes(m: Map<int, u8>, ps: Seq<u64>, fields: int, parent: int, name: int) -> nat {
    if parent == name {
        0
    } else {
        ps.filter(
            |c: u64|
                {
                    &&& memory::val(m, c + fields, 8) matches Some(p)
                    &&& p != 0
                    &&& memory::has(m, p as int, 0x20)
                    &&& owned_by(m, p + parent, c as int)
                    &&& reads_name(m, p + name)
                },
        ).len()
    }
}

/// All places in turn: every eighth byte of the class up to 0x180 for the array,
/// and every eighth of an entry up to 0x20 for the owner and for the name.
pub open spec fn field_places(m: Map<int, u8>, ps: Seq<u64>) -> spec_fn(int) -> nat {
    |k: int| field_votes(m, ps, 8 * (k / 16), 8 * ((k / 4) % 4), 8 * (k % 4))
}

/// Eight classes have a second entry that far behind the first.
pub open spec fn strides(m: Map<int, u8>, ps: Seq<u64>, fields: int, parent: int, d: int) -> bool {
    ps.filter(
        |c: u64|
            {
                &&& memory::val(m, c + fields, 8) matches Some(p)
                &&& p != 0
                &&& memory::has(m, p as int, d * 2)
                &&& owned_by(m, p + d + parent, c as int)
            },
    ).len() >= 8
}

/// Entry `i` of a class is one of its fields: readable, its own, and with a name.
pub open spec fn is_field(m: Map<int, u8>, s: FieldSlots, c: int, i: int) -> bool {
    &&& memory::val(m, c + s.c_fields, 8) matches Some(p)
    &&& p != 0
    &&& memory::has(m, p + i * s.f_stride, s.f_stride as int)
    &&& owned_by(m, p + i * s.f_stride + s.f_parent, c)
    &&& reads_name(m, p + i * s.f_stride + s.f_name)
}

/// How many classes have at an offset the number of their fields, from 1 to 400:
/// the first of them, six at most, are fields, and what follows the last is
/// none.
pub open spec fn field_count_votes(m: Map<int, u8>, ps: Seq<u64>, s: FieldSlots) -> spec_fn(
    int,
) -> nat {
    |off: int|
        ps.filter(
            |c: u64|
                {
                    &&& memory::val(m, c + off, 2) matches Some(v)
                    &&& 1 <= v <= 400
                    &&& forall|i: int|
                        0 <= i < v && i < 6 ==> #[trigger] is_field(m, s, c as int, i)
                    &&& !is_field(m, s, c as int, v as int)
                },
        ).len()
}

/// The entries of String, 16 at most, that have it as their owner.
pub open spec fn string_entries(m: Map<int, u8>, s: FieldSlots, c: int, n: nat) -> Seq<u64> {
    match memory::val(m, c + s.c_fields, 8) {
        Some(p) => if p == 0 {
            Seq::empty()
        } else {
            Seq::new(n, |i: int| p + i * s.f_stride).filter(
                |e: int| memory::has(m, e, s.f_stride as int) && owned_by(m, e + s.f_parent, c),
            ).map_values(|e: int| e as u64)
        },
        None => Seq::empty(),
    }
}

/// The offsets of fields stand where one entry has that of the length and one
/// that of the characters, in a word that is a pointer in no more than half of
/// the entries.
pub open spec fn offsets_stand(m: Map<int, u8>, es: Seq<u64>, s_len: int, s_chars: int) -> spec_fn(
    int,
) -> bool {
    |x: int|
        {
            &&& 2 * es.filter(
                |e: u64|
                    memory::val(m, e + 8 * (x / 8), 8) matches Some(p) && p != 0 && memory::has(
                        m,
                        p as int,
                        1,
                    ),
            ).len() <= es.len()
            &&& exists|i: int|
                0 <= i < es.len() && memory::int_val(m, #[trigger] es[i] + x) == Some(s_len)
            &&& exists|i: int|
                0 <= i < es.len() && memory::int_val(m, #[trigger] es[i] + x) == Some(s_chars)
        }
}

proof fn lemma_field_places(m: Map<int, u8>, ps: Seq<u64>)
    ensures
        il2cpp_abi::field_score(m, ps) == field_places(m, ps),
{
    assert forall|k: int| #[trigger]
        il2cpp_abi::field_score(m, ps)(k) == field_places(m, ps)(k) by {
        let (a, b, n) = (8 * (k / 16), 8 * ((k / 4) % 4), 8 * (k % 4));
        let f = |c: u64|
            {
                &&& memory::val(m, c + a, 8) matches Some(p)
                &&& p != 0
                &&& memory::has(m, p as int, 0x20)
                &&& owned_by(m, p + b, c as int)
                &&& reads_name(m, p + n)
            };
        assert(il2cpp_abi::field_at(m, a, b, n) =~= f);
        search::law_count_if(ps, f);
    }
    assert(il2cpp_abi::field_score(m, ps) =~= field_places(m, ps));
}

proof fn lemma_strides(m: Map<int, u8>, ps: Seq<u64>, fields: int, parent: int, d: int)
    ensures
        il2cpp_abi::stride_fits(m, ps, fields, parent, d) == strides(m, ps, fields, parent, d),
{
    let f = |c: u64|
        {
            &&& memory::val(m, c + fields, 8) matches Some(p)
            &&& p != 0
            &&& memory::has(m, p as int, d * 2)
            &&& owned_by(m, p + d + parent, c as int)
        };
    assert(il2cpp_abi::strided_at(m, fields, parent, d) =~= f);
    search::law_count_if(ps, f);
}

/// The distance of two entries is the first of these at which eight classes have
/// a second entry: 0x20, 0x18, 0x28, 0x30, 0x10; and 0x20 where none is.
pub proof fn law_stride(m: Map<int, u8>, ps: Seq<u64>, fields: int, parent: int)
    ensures
        ({
            let d = il2cpp_abi::stride_of(m, ps, fields, parent);
            let ok = |d: int| strides(m, ps, fields, parent, d);
            &&& ok(0x20) ==> d == 0x20
            &&& !ok(0x20) && ok(0x18) ==> d == 0x18
            &&& !ok(0x20) && !ok(0x18) && ok(0x28) ==> d == 0x28
            &&& !ok(0x20) && !ok(0x18) && !ok(0x28) && ok(0x30) ==> d == 0x30
            &&& !ok(0x20) && !ok(0x18) && !ok(0x28) && !ok(0x30) && ok(0x10) ==> d == 0x10
            &&& !ok(0x20) && !ok(0x18) && !ok(0x28) && !ok(0x30) && !ok(0x10) ==> d == 0x20
        }),
{
    lemma_strides(m, ps, fields, parent, 0x20);
    lemma_strides(m, ps, fields, parent, 0x18);
    lemma_strides(m, ps, fields, parent, 0x28);
    lemma_strides(m, ps, fields, parent, 0x30);
    lemma_strides(m, ps, fields, parent, 0x10);
}

proof fn lemma_field_counts(m: Map<int, u8>, ps: Seq<u64>, s: FieldSlots)
    ensures
        il2cpp_abi::field_count_score(m, ps, s) == field_count_votes(m, ps, s),
{
    assert forall|c: int, i: int| #[trigger]
        il2cpp_abi::field_ok(m, s, c, i) == is_field(m, s, c, i) by {}
    assert forall|off: int| #[trigger]
        il2cpp_abi::field_count_score(m, ps, s)(off) == field_count_votes(m, ps, s)(off) by {
        let f = |c: u64|
            {
                &&& memory::val(m, c + off, 2) matches Some(v)
                &&& 1 <= v <= 400
                &&& forall|i: int| 0 <= i < v && i < 6 ==> #[trigger] is_field(m, s, c as int, i)
                &&& !is_field(m, s, c as int, v as int)
            };
        let g = il2cpp_abi::counts_fields(m, s, off);
        assert forall|c: u64| #[trigger] g(c) == f(c) by {
            if let Some(v) = memory::val(m, c + off, 2) {
                if g(c) {
                    assert forall|i: int| 0 <= i < v && i < 6 implies #[trigger] is_field(
                        m,
                        s,
                        c as int,
                        i,
                    ) by {
                        assert(il2cpp_abi::field_ok(m, s, c as int, i));
                    }
                    assert(!il2cpp_abi::field_ok(m, s, c as int, v as int));
                }
                if f(c) {
                    assert forall|i: int|
                        0 <= i < il2cpp_abi::lesser(v as int, 6) implies #[trigger] il2cpp_abi::field_ok(
                        m,
                        s,
                        c as int,
                        i,
                    ) by {
                        assert(is_field(m, s, c as int, i));
                    }
                    assert(!is_field(m, s, c as int, v as int));
                }
            }
        }
        assert(g =~= f);
        search::law_count_if(ps, f);
    }
    assert(il2cpp_abi::field_count_score(m, ps, s) =~= field_count_votes(m, ps, s));
}

proof fn lemma_string_entries(m: Map<int, u8>, s: FieldSlots, c: int, n: nat)
    ensures
        il2cpp_abi::owned_entries(m, s, c, n) == string_entries(m, s, c, n),
    decreases n,
{
    if let Some(p) = memory::ptr_val(m, c + s.c_fields) {
        let all = Seq::new(n, |i: int| p + i * s.f_stride);
        let keep = |e: int| memory::has(m, e, s.f_stride as int) && owned_by(m, e + s.f_parent, c);
        reveal(Seq::filter);
        if n > 0 {
            lemma_string_entries(m, s, c, (n - 1) as nat);
            assert(all.drop_last() =~= Seq::new((n - 1) as nat, |i: int| p + i * s.f_stride));
            let e = all.last();
            assert(e == p + (n - 1) * s.f_stride);
            assert(keep(e) == il2cpp_abi::entry_owned(m, s, c, n - 1));
            assert(all.filter(keep) == if keep(e) {
                all.drop_last().filter(keep).push(e)
            } else {
                all.drop_last().filter(keep)
            });
        }
        assert(il2cpp_abi::owned_entries(m, s, c, n) =~= all.filter(keep).map_values(
            |e: int| e as u64,
        ));
    } else {
        lemma_no_entries(m, s, c, n);
    }
}

proof fn lemma_no_entries(m: Map<int, u8>, s: FieldSlots, c: int, n: nat)
    requires
        memory::ptr_val(m, c + s.c_fields) is None,
    ensures
        il2cpp_abi::owned_entries(m, s, c, n) == Seq::<u64>::empty(),
    decreases n,
{
    if n > 0 {
        lemma_no_entries(m, s, c, (n - 1) as nat);
    }
}

proof fn lemma_offsets_stand(m: Map<int, u8>, es: Seq<u64>, s_len: int, s_chars: int)
    ensures
        il2cpp_abi::offset_fits(m, es, s_len, s_chars) == offsets_stand(m, es, s_len, s_chars),
{
    let p = il2cpp_abi::offset_fits(m, es, s_len, s_chars);
    assert forall|x: int| #[trigger] p(x) == offsets_stand(m, es, s_len, s_chars)(x) by {
        let f = |e: u64|
            memory::val(m, e + 8 * (x / 8), 8) matches Some(p) && p != 0 && memory::has(
                m,
                p as int,
                1,
            );
        assert(il2cpp_abi::holds_ptr(m, (x / 8) * 8) =~= f);
        search::law_count_if(es, f);
        lemma_holds(m, es, x, s_len);
        lemma_holds(m, es, x, s_chars);
    }
    assert(p =~= offsets_stand(m, es, s_len, s_chars));
}

proof fn lemma_holds(m: Map<int, u8>, es: Seq<u64>, x: int, v: int)
    ensures
        (search::first_in(es, il2cpp_abi::holds_int(m, x, v)) is Some) == (exists|i: int|
            0 <= i < es.len() && memory::int_val(m, #[trigger] es[i] + x) == Some(v)),
{
    let p = il2cpp_abi::holds_int(m, x, v);
    lemma_is_first(es, p);
    if search::first_in(es, p) is Some {
        let i = choose|i: int| 0 <= i < es.len() && p(#[trigger] es[i]);
        assert(memory::int_val(m, es[i] + x) == Some(v));
    }
    if exists|i: int| 0 <= i < es.len() && memory::int_val(m, #[trigger] es[i] + x) == Some(v) {
        let i = choose|i: int|
            0 <= i < es.len() && memory::int_val(m, #[trigger] es[i] + x) == Some(v);
        assert(p(es[i]));
    }
}

/// The field structure fits: the three places win their vote, the distance of
/// two entries is found, the number of fields wins its vote with eight classes
/// at least, and the offsets of fields stand at the least place that fits
/// String's own.
pub open spec fn fields_fit(
    m: Map<int, u8>,
    ps: Seq<u64>,
    string: u64,
    s_len: i32,
    s_chars: i32,
    fl: FieldPart,
) -> bool {
    let s = fl.slots;
    let n = match memory::val(m, string + fl.c_field_count, 2) {
        Some(v) => if v < 16 {
            v
        } else {
            16
        },
        None => 0,
    };
    &&& s.c_fields % 8 == 0 && s.f_parent % 8 == 0 && s.f_name % 8 == 0
    &&& s.f_parent < 32 && s.f_name < 32
    &&& wins(
        field_places(m, ps),
        0,
        1,
        768,
        16 * (s.c_fields as int / 8) + 4 * (s.f_parent as int / 8) + (s.f_name as int / 8),
    )
    &&& s.f_stride == il2cpp_abi::stride_of(m, ps, s.c_fields as int, s.f_parent as int)
    &&& wins(field_count_votes(m, ps, s), 0x80, 2, 128, fl.c_field_count as int)
    &&& field_count_votes(m, ps, s)(fl.c_field_count as int) >= 8
    &&& is_least(
        offsets_stand(m, string_entries(m, s, string as int, n), s_len as int, s_chars as int),
        0,
        4,
        s.f_stride as int,
        fl.f_offset as int,
    )
}

/// The field structure is found exactly where it fits.
pub proof fn law_field_structure(
    m: Map<int, u8>,
    ps: Seq<u64>,
    string: u64,
    s_len: i32,
    s_chars: i32,
    fl: FieldPart,
)
    ensures
        il2cpp_abi::field_part(m, ps, string, s_len, s_chars) == Ok::<FieldPart, CalibrationError>(fl)
            <==> fields_fit(m, ps, string, s_len, s_chars, fl),
{
    let votes = field_places(m, ps);
    lemma_field_places(m, ps);
    lemma_wins(votes, 0, 1, 768);
    let k = search::best(votes, 0, 1, 768).1;
    let s = il2cpp_abi::slots_of(m, ps, k);
    if search::best(votes, 0, 1, 768).0 > 0 {
        assert(wins(votes, 0, 1, 768, k));
        lemma_decode(k);
    }
    let t = fl.slots;
    let j = 16 * (t.c_fields as int / 8) + 4 * (t.f_parent as int / 8) + (t.f_name as int / 8);
    if fields_fit(m, ps, string, s_len, s_chars, fl) {
        assert(wins(votes, 0, 1, 768, j));
        assert(j == k);
        lemma_encode(t.c_fields as int, t.f_parent as int, t.f_name as int);
        assert(s == t);
    }
    if il2cpp_abi::field_part(m, ps, string, s_len, s_chars) == Ok::<FieldPart, CalibrationError>(
        fl,
    ) {
        assert(s == t);
        lemma_encode(t.c_fields as int, t.f_parent as int, t.f_name as int);
        assert(j == k);
    }
    lemma_field_counts(m, ps, s);
    let v2 = field_count_votes(m, ps, s);
    lemma_wins(v2, 0x80, 2, 128);
    let count = search::best(v2, 0x80, 2, 128).1;
    if search::best(v2, 0x80, 2, 128).0 > 0 {
        assert(wins(v2, 0x80, 2, 128, count));
    }
    let few = il2cpp_abi::few_fields(m, string as int, count);
    lemma_string_entries(m, s, string as int, few);
    let es = string_entries(m, s, string as int, few);
    lemma_offsets_stand(m, es, s_len as int, s_chars as int);
    lemma_is_least(offsets_stand(m, es, s_len as int, s_chars as int), 0, 4, s.f_stride as int);
    search::law_first_from(
        offsets_stand(m, es, s_len as int, s_chars as int),
        0,
        4,
        s.f_stride as int,
    );
}

proof fn lemma_decode(k: int)
    requires
        0 <= k < 768,
    ensures
        0 <= 8 * (k / 16) < 0x180,
        0 <= 8 * ((k / 4) % 4) < 32,
        0 <= 8 * (k % 4) < 32,
        16 * ((8 * (k / 16)) / 8) + 4 * ((8 * ((k / 4) % 4)) / 8) + ((8 * (k % 4)) / 8) == k,
        (8 * (k / 16)) % 8 == 0 && (8 * ((k / 4) % 4)) % 8 == 0 && (8 * (k % 4)) % 8 == 0,
{
}

proof fn lemma_encode(a: int, b: int, c: int)
    requires
        a >= 0 && b >= 0 && c >= 0,
        a % 8 == 0 && b % 8 == 0 && c % 8 == 0,
        b < 32 && c < 32,
    ensures
        ({
            let k = 16 * (a / 8) + 4 * (b / 8) + (c / 8);
            &&& (k / 16) * 8 == a
            &&& ((k / 4) % 4) * 8 == b
            &&& (k % 4) * 8 == c
        }),
{
}

// ── the method structure ─────────────────────────────────────────────────────

/// Record `i` of a class lies at `x`: the class's array has its address, and
/// enough of it can be read.
pub open spec fn record_at(m: Map<int, u8>, s: MethodSlots, c: int, i: int, x: nat) -> bool {
    &&& memory::val(m, c + s.c_methods, 8) matches Some(arr)
    &&& arr != 0
    &&& memory::val(m, arr + i * 8, 8) == Some(x)
    &&& x != 0
    &&& memory::has(m, x as int, 0x60)
}

proof fn lemma_record(m: Map<int, u8>, s: MethodSlots, c: int, i: int)
    ensures
        forall|x: nat| #[trigger]
            record_at(m, s, c, i, x) <==> il2cpp_abi::method_at(m, s, c, i) == Some(x),
{
}

/// Record `i` of a class is a method of its own.
pub open spec fn own_record(m: Map<int, u8>, s: MethodSlots, c: int, i: int) -> bool {
    exists|x: nat| #[trigger] record_at(m, s, c, i, x) && owned_by(m, x + s.m_klass, c)
}

/// And has a name.
pub open spec fn is_method(m: Map<int, u8>, s: MethodSlots, c: int, i: int) -> bool {
    exists|x: nat| #[trigger]
        record_at(m, s, c, i, x) && owned_by(m, x + s.m_klass, c) && reads_name(m, x + s.m_name)
}

proof fn lemma_own_record(m: Map<int, u8>, s: MethodSlots, c: int, i: int)
    ensures
        il2cpp_abi::method_owned(m, s, c, i) == own_record(m, s, c, i),
        il2cpp_abi::method_ok(m, s, c, i) == is_method(m, s, c, i),
{
    lemma_record(m, s, c, i);
    if let Some(x) = il2cpp_abi::method_at(m, s, c, i) {
        assert(record_at(m, s, c, i, x));
    }
}

/// How many classes have at `methods` an array whose first record has the class
/// at `klass` and a name at `name`; the array is not that of the fields, and the
/// two are not the same.
pub open spec fn method_places(m: Map<int, u8>, ps: Seq<u64>, c_fields: int) -> spec_fn(int) -> nat {
    |k: int|
        {
            let s = MethodSlots {
                c_methods: (8 * (k / 64)) as u64,
                m_klass: (8 * ((k / 8) % 8)) as u64,
                m_name: (8 * (k % 8)) as u64,
            };
            if s.c_methods == c_fields || s.m_klass == s.m_name {
                0
            } else {
                ps.filter(|c: u64| is_method(m, s, c as int, 0)).len()
            }
        }
}

/// How many classes have at an offset, other than that of the number of fields,
/// the number of their methods, from 1 to 2000: the first of them, six at most,
/// are methods, and what follows the last is none.
pub open spec fn method_count_votes(
    m: Map<int, u8>,
    ps: Seq<u64>,
    s: MethodSlots,
    c_field_count: int,
) -> spec_fn(int) -> nat {
    |off: int|
        if off == c_field_count {
            0
        } else {
            ps.filter(
                |c: u64|
                    {
                        &&& memory::val(m, c + off, 2) matches Some(v)
                        &&& 1 <= v <= 2000
                        &&& forall|i: int|
                            0 <= i < v && i < 6 ==> #[trigger] is_method(m, s, c as int, i)
                        &&& !is_method(m, s, c as int, v as int)
                    },
            ).len()
        }
}

proof fn lemma_method_votes(m: Map<int, u8>, ps: Seq<u64>, c_fields: int, s: MethodSlots, count: int)
    ensures
        il2cpp_abi::method_score(m, ps, c_fields) == method_places(m, ps, c_fields),
        il2cpp_abi::method_count_score(m, ps, s, count) == method_count_votes(m, ps, s, count),
{
    assert forall|k: int| #[trigger]
        il2cpp_abi::method_score(m, ps, c_fields)(k) == method_places(m, ps, c_fields)(k) by {
        let t = MethodSlots {
            c_methods: (8 * (k / 64)) as u64,
            m_klass: (8 * ((k / 8) % 8)) as u64,
            m_name: (8 * (k % 8)) as u64,
        };
        assert(il2cpp_abi::method_slots(k) == t);
        let f = |c: u64| is_method(m, t, c as int, 0);
        assert forall|c: u64| #[trigger] il2cpp_abi::has_method(m, t)(c) == f(c) by {
            lemma_own_record(m, t, c as int, 0);
        }
        assert(il2cpp_abi::has_method(m, t) =~= f);
        search::law_count_if(ps, f);
    }
    assert(il2cpp_abi::method_score(m, ps, c_fields) =~= method_places(m, ps, c_fields));
    let score = il2cpp_abi::method_count_score(m, ps, s, count);
    assert forall|off: int| #[trigger]
        score(off) == method_count_votes(m, ps, s, count)(off) by {
        let f = |c: u64|
            {
                &&& memory::val(m, c + off, 2) matches Some(v)
                &&& 1 <= v <= 2000
                &&& forall|i: int| 0 <= i < v && i < 6 ==> #[trigger] is_method(m, s, c as int, i)
                &&& !is_method(m, s, c as int, v as int)
            };
        let g = il2cpp_abi::counts_methods(m, s, off);
        assert forall|c: u64| #[trigger] g(c) == f(c) by {
            if let Some(v) = memory::val(m, c + off, 2) {
                lemma_own_record(m, s, c as int, v as int);
                if g(c) {
                    assert forall|i: int| 0 <= i < v && i < 6 implies #[trigger] is_method(
                        m,
                        s,
                        c as int,
                        i,
                    ) by {
                        lemma_own_record(m, s, c as int, i);
                        assert(il2cpp_abi::method_ok(m, s, c as int, i));
                    }
                }
                if f(c) {
                    assert forall|i: int|
                        0 <= i < il2cpp_abi::lesser(v as int, 6) implies #[trigger] il2cpp_abi::method_ok(
                        m,
                        s,
                        c as int,
                        i,
                    ) by {
                        lemma_own_record(m, s, c as int, i);
                        assert(is_method(m, s, c as int, i));
                    }
                }
            }
        }
        assert(g =~= f);
        search::law_count_if(ps, f);
    }
    assert(score =~= method_count_votes(m, ps, s, count));
}

/// Of a class the first methods are looked at, four at most and up to the first
/// that is not its own; of these, those count whose word at `off` points into the
/// module.
pub proof fn law_code_votes(m: Map<int, u8>, s: MethodSlots, base: int, off: int, c: int, i: nat, n: nat)
    ensures
        ({
            let run = il2cpp_abi::owned_run(m, s, c, i, n);
            let hits = il2cpp_abi::code_run(m, s, base, off, c, i, n);
            let own = |i: int| own_record(m, s, c, i);
            let code = exists|x: nat| #[trigger]
                record_at(m, s, c, i as int, x) && (memory::val(m, x + off, 8) matches Some(p) && p
                    != 0 && base <= p < base + il2cpp_abi::image_size(m, base));
            &&& i >= n || !own(i as int) ==> run == 0 && hits == 0
            &&& i < n && own(i as int) ==> {
                &&& run == 1 + il2cpp_abi::owned_run(m, s, c, i + 1, n)
                &&& hits == il2cpp_abi::code_run(m, s, base, off, c, i + 1, n) + if code {
                    1int
                } else {
                    0
                }
            }
        }),
{
    lemma_own_record(m, s, c, i as int);
    lemma_record(m, s, c, i as int);
    if let Some(x) = il2cpp_abi::method_at(m, s, c, i as int) {
        assert(record_at(m, s, c, i as int, x));
        if let Some(p) = memory::ptr_val(m, x + off) {
            assert(memory::val(m, x + off, 8) == Some(p));
        }
    }
}

/// The size of the module, out of its header: the header's place, from 1 to
/// 0x1000, at 0x3c, and the size 80 bytes into the header.
pub proof fn law_image_size(m: Map<int, u8>, base: int, header: nat, size: nat)
    ensures
        memory::val(m, base + 0x3c, 4) == Some(header) && 1 <= header <= 0x1000 && memory::val(
            m,
            base + header + 80,
            4,
        ) == Some(size) ==> il2cpp_abi::image_size(m, base) == size,
        memory::val(m, base + 0x3c, 4) == Some(header) && !(1 <= header <= 0x1000)
            ==> il2cpp_abi::image_size(m, base) == 0,
        memory::val(m, base + 0x3c, 4) is None ==> il2cpp_abi::image_size(m, base) == 0,
{
}

/// The code stands at an offset where, of the first 120 classes, more than 32
/// methods are looked at and more than three quarters of them point into the
/// module there.
pub proof fn law_code_stands(m: Map<int, u8>, ps: Seq<u64>, s: MethodSlots, base: int, off: int)
    ensures
        ({
            let few = if ps.len() <= 120 {
                ps
            } else {
                ps.take(120)
            };
            let total = search::sum_of(few, |c: u64| il2cpp_abi::owned_run(m, s, c as int, 0, 4));
            let hits = search::sum_of(
                few,
                |c: u64| il2cpp_abi::code_run(m, s, base, off, c as int, 0, 4),
            );
            il2cpp_abi::code_fits(m, ps, s, base)(off) <==> total >= 33 && 4 * hits > 3 * total
        }),
{
    if ps.len() <= 120 {
        assert(ps.take(ps.len() as int) =~= ps);
    }
    assert(il2cpp_abi::owned_of(m, s) =~= (|c: u64| il2cpp_abi::owned_run(m, s, c as int, 0, 4)));
    assert(il2cpp_abi::code_of(m, s, base, off) =~= (|c: u64|
        il2cpp_abi::code_run(m, s, base, off, c as int, 0, 4)));
}

/// The method lies at `x`: the last record of that name among the first `n` of
/// the class.
pub open spec fn is_last_named(
    m: Map<int, u8>,
    s: MethodSlots,
    c: int,
    t: Seq<char>,
    n: nat,
    x: nat,
) -> bool {
    exists|i: int|
        0 <= i < n && #[trigger] record_at(m, s, c, i, x) && reads(m, x + s.m_name, t) && (forall|
            j: int,
            y: nat,
        |
            i < j < n && #[trigger] record_at(m, s, c, j, y) ==> !reads(m, y + s.m_name, t))
}

proof fn lemma_last(m: Map<int, u8>, s: MethodSlots, c: int, t: Seq<char>, n: nat, x: nat)
    ensures
        il2cpp_abi::last_named(m, s, c, t, n) == Some(x) <==> is_last_named(m, s, c, t, n, x),
    decreases n,
{
    if n > 0 {
        let k = (n - 1) as nat;
        lemma_last(m, s, c, t, k, x);
        lemma_record(m, s, c, n - 1);
        let here = il2cpp_abi::method_at(m, s, c, n - 1);
        let r = il2cpp_abi::last_named(m, s, c, t, n);
        if let Some(y) = here {
            assert(record_at(m, s, c, n - 1, y));
        }
        if here matches Some(y) && reads(m, y + s.m_name, t) {
            let y = here->0;
            assert(r == Some(y));
            if x == y {
                assert(is_last_named(m, s, c, t, n, x));
            }
            if is_last_named(m, s, c, t, n, x) {
                let i = choose|i: int|
                    0 <= i < n && #[trigger] record_at(m, s, c, i, x) && reads(m, x + s.m_name, t)
                        && (forall|j: int, y: nat|
                        i < j < n && #[trigger] record_at(m, s, c, j, y) ==> !reads(
                            m,
                            y + s.m_name,
                            t,
                        ));
                if i < n - 1 {
                    assert(!reads(m, y + s.m_name, t));
                }
            }
        } else {
            assert(r == il2cpp_abi::last_named(m, s, c, t, k));
            if is_last_named(m, s, c, t, k, x) {
                let i = choose|i: int|
                    0 <= i < k && #[trigger] record_at(m, s, c, i, x) && reads(m, x + s.m_name, t)
                        && (forall|j: int, y: nat|
                        i < j < k && #[trigger] record_at(m, s, c, j, y) ==> !reads(
                            m,
                            y + s.m_name,
                            t,
                        ));
                assert forall|j: int, y: nat|
                    i < j < n && #[trigger] record_at(m, s, c, j, y) implies !reads(
                    m,
                    y + s.m_name,
                    t,
                ) by {
                    if j == n - 1 {
                        assert(here == Some(y));
                    }
                }
                assert(record_at(m, s, c, i, x));
                assert(is_last_named(m, s, c, t, n, x));
            }
            if is_last_named(m, s, c, t, n, x) {
                let i = choose|i: int|
                    0 <= i < n && #[trigger] record_at(m, s, c, i, x) && reads(m, x + s.m_name, t)
                        && (forall|j: int, y: nat|
                        i < j < n && #[trigger] record_at(m, s, c, j, y) ==> !reads(
                            m,
                            y + s.m_name,
                            t,
                        ));
                if i == n - 1 {
                    assert(here == Some(x));
                }
                assert(record_at(m, s, c, i, x));
                assert(is_last_named(m, s, c, t, k, x));
            }
        }
    } else {
        assert(!is_last_named(m, s, c, t, n, x));
    }
}

/// The number of parameters stands at an offset: `get_Length` has 0 there,
/// `IsNullOrEmpty` 1, and each of String's first 40 methods 32 at most.
pub open spec fn parameters_stand(
    m: Map<int, u8>,
    s: MethodSlots,
    string: int,
    count: nat,
    gl: nat,
    inoe: nat,
) -> spec_fn(int) -> bool {
    |off: int|
        {
            &&& memory::val(m, gl + off, 1) == Some(0nat)
            &&& memory::val(m, inoe + off, 1) == Some(1nat)
            &&& forall|i: int, x: nat|
                0 <= i < count && i < 40 && #[trigger] record_at(m, s, string, i, x) ==> (
                memory::val(m, x + off, 1) matches Some(v) && v <= 32)
        }
}

/// The flags stand at an offset: both methods have some there, and of the two
/// only `IsNullOrEmpty` has the fifth bit, that of a static method.
pub open spec fn flags_stand(m: Map<int, u8>, gl: nat, inoe: nat) -> spec_fn(int) -> bool {
    |off: int|
        {
            &&& memory::val(m, gl + off, 2) matches Some(a)
            &&& memory::val(m, inoe + off, 2) matches Some(b)
            &&& a != 0
            &&& b != 0
            &&& (a / 16) % 2 == 0
            &&& (b / 16) % 2 == 1
        }
}

/// The core library has its name at an offset: it begins with `mscorlib`.
pub open spec fn library_named(m: Map<int, u8>, corlib: int) -> spec_fn(int) -> bool {
    |off: int|
        il2cpp::str_val(m, corlib + off) matches Some(t) && exists|b: Seq<char>|
            t == #[trigger] ("mscorlib"@ + b)
}

/// The byte behind the number of parameters is a small one, 15 at most, in each
/// of String's first 40 methods.
pub open spec fn bits_stand(
    m: Map<int, u8>,
    s: MethodSlots,
    string: int,
    count: nat,
    off: int,
) -> bool {
    forall|i: int, x: nat|
        0 <= i < count && i < 40 && #[trigger] record_at(m, s, string, i, x) ==> (memory::val(
            m,
            x + off,
            1,
        ) matches Some(v) && v <= 15)
}

proof fn lemma_bytes(m: Map<int, u8>, s: MethodSlots, c: int, count: nat, off: int, top: nat)
    ensures
        il2cpp_abi::bytes_below(m, s, c, count, off, top) == (forall|i: int, x: nat|
            0 <= i < count && i < 40 && #[trigger] record_at(m, s, c, i, x) ==> (memory::val(
                m,
                x + off,
                1,
            ) matches Some(v) && v <= top)),
{
    assert forall|i: int, x: nat| #[trigger]
        record_at(m, s, c, i, x) == (il2cpp_abi::method_at(m, s, c, i) == Some(x)) by {
        lemma_record(m, s, c, i);
    }
    if il2cpp_abi::bytes_below(m, s, c, count, off, top) {
        assert forall|i: int, x: nat|
            0 <= i < count && i < 40 && #[trigger] record_at(m, s, c, i, x) implies (memory::val(
            m,
            x + off,
            1,
        ) matches Some(v) && v <= top) by {
            assert(il2cpp_abi::method_at(m, s, c, i) == Some(x));
        }
    }
    if forall|i: int, x: nat|
        0 <= i < count && i < 40 && #[trigger] record_at(m, s, c, i, x) ==> (memory::val(
            m,
            x + off,
            1,
        ) matches Some(v) && v <= top) {
        assert forall|i: int|
            0 <= i < il2cpp_abi::lesser(count as int, 40) implies (#[trigger] il2cpp_abi::method_at(
            m,
            s,
            c,
            i,
        ) matches Some(x) ==> (memory::val(m, x + off, 1) matches Some(v) && v <= top)) by {
            if let Some(x) = il2cpp_abi::method_at(m, s, c, i) {
                assert(record_at(m, s, c, i, x));
            }
        }
    }
}

proof fn lemma_shape_tests(
    m: Map<int, u8>,
    s: MethodSlots,
    c: int,
    count: nat,
    gl: nat,
    inoe: nat,
    corlib: int,
)
    ensures
        il2cpp_abi::params_fit(m, s, c, count, gl as int, inoe as int) == parameters_stand(
            m,
            s,
            c,
            count,
            gl,
            inoe,
        ),
        il2cpp_abi::flags_fit(m, gl as int, inoe as int) == flags_stand(m, gl, inoe),
        il2cpp_abi::image_fits(m, corlib) == library_named(m, corlib),
{
    let p = il2cpp_abi::params_fit(m, s, c, count, gl as int, inoe as int);
    assert forall|off: int| #[trigger]
        p(off) == parameters_stand(m, s, c, count, gl, inoe)(off) by {
        lemma_bytes(m, s, c, count, off, 32);
    }
    assert(p =~= parameters_stand(m, s, c, count, gl, inoe));
    assert(il2cpp_abi::flags_fit(m, gl as int, inoe as int) =~= flags_stand(m, gl, inoe));
    let q = il2cpp_abi::image_fits(m, corlib);
    assert forall|off: int| #[trigger] q(off) == library_named(m, corlib)(off) by {
        if let Some(t) = il2cpp::str_val(m, corlib + off) {
            crate::laws::text::law_contains(t, "mscorlib"@);
        }
    }
    assert(q =~= library_named(m, corlib));
}

/// Once two methods of String are known, the number of parameters, the flags and
/// the name of the library are found at the least offset at which they stand,
/// and the search fails only where there is none: a number of parameters of up
/// to 32 is no reason to fail.
pub proof fn law_shape(
    m: Map<int, u8>,
    s: MethodSlots,
    string: int,
    count: nat,
    gl: nat,
    inoe: nat,
    corlib: int,
    params: u64,
    flags: u64,
    name: u64,
)
    ensures
        ({
            let found = il2cpp_abi::shape_part(
                m,
                s,
                string,
                count,
                gl as int,
                inoe as int,
                corlib,
            );
            let stand = parameters_stand(m, s, string, count, gl, inoe);
            &&& found == Ok::<(u64, u64, u64, u64), CalibrationError>(
                (flags, params, (params + 1) as u64, name),
            ) <==> {
                &&& is_least(stand, 0x30, 1, 0x60, params as int)
                &&& is_least(flags_stand(m, gl, inoe), 0x30, 2, 0x60, flags as int)
                &&& bits_stand(m, s, string, count, params + 1)
                &&& is_least(library_named(m, corlib), 0, 8, 0x40, name as int)
            }
            &&& found matches Ok(r) ==> r.2 == r.1 + 1
            &&& found == Err::<(u64, u64, u64, u64), CalibrationError>(
                CalibrationError::NoParamCount,
            ) <==> forall|off: int| 0x30 <= off < 0x60 ==> !#[trigger] stand(off)
        }),
{
    let stand = parameters_stand(m, s, string, count, gl, inoe);
    lemma_shape_tests(m, s, string, count, gl, inoe, corlib);
    lemma_is_least(stand, 0x30, 1, 0x60);
    lemma_is_least(flags_stand(m, gl, inoe), 0x30, 2, 0x60);
    lemma_is_least(library_named(m, corlib), 0, 8, 0x40);
    search::law_first_from(stand, 0x30, 1, 0x60);
    search::law_first_number(stand, 0x30, 0x60);
    search::law_first_from(flags_stand(m, gl, inoe), 0x30, 2, 0x60);
    search::law_first_from(library_named(m, corlib), 0, 8, 0x40);
    if let Some(p) = search::first_from(stand, 0x30, 1, 0x60) {
        lemma_bytes(m, s, string, count, p + 1, 15);
        assert(stand(p));
    }
    lemma_bytes(m, s, string, count, params + 1, 15);
}

/// The method structure fits: the three places win their vote, the number of
/// methods wins its own with eight classes at least, the code stands at the least
/// offset at which it can, String and two of its methods are found, and their
/// shape says the rest.
pub open spec fn methods_fit(
    m: Map<int, u8>,
    cs: Seq<u64>,
    ps: Seq<u64>,
    fl: FieldPart,
    corlib: int,
    base: int,
    l: Layout,
    string: u64,
    gl: nat,
    inoe: nat,
) -> bool {
    let s = MethodSlots { c_methods: l.c_methods, m_name: l.m_name, m_klass: l.m_klass };
    let count = match memory::val(m, string + l.c_method_count, 2) {
        Some(v) => v,
        None => 0,
    };
    &&& l.c_methods % 8 == 0 && l.m_klass % 8 == 0 && l.m_name % 8 == 0
    &&& l.m_klass < 64 && l.m_name < 64
    &&& wins(
        method_places(m, ps, fl.slots.c_fields as int),
        0,
        1,
        3072,
        64 * (l.c_methods as int / 8) + 8 * (l.m_klass as int / 8) + (l.m_name as int / 8),
    )
    &&& wins(
        method_count_votes(m, ps, s, fl.c_field_count as int),
        0x80,
        2,
        128,
        l.c_method_count as int,
    )
    &&& method_count_votes(m, ps, s, fl.c_field_count as int)(l.c_method_count as int) >= 8
    &&& is_least(il2cpp_abi::code_fits(m, ps, s, base), 0, 8, 0x20, l.m_ptr as int)
    &&& is_first(cs, |c: u64| reads(m, c + l.c_name, "String"@), string)
    &&& is_last_named(m, s, string as int, "get_Length"@, count, gl)
    &&& is_last_named(m, s, string as int, "IsNullOrEmpty"@, count, inoe)
    &&& is_least(
        parameters_stand(m, s, string as int, count, gl, inoe),
        0x30,
        1,
        0x60,
        l.m_param_count as int,
    )
    &&& is_least(flags_stand(m, gl, inoe), 0x30, 2, 0x60, l.m_flags as int)
    &&& l.m_bits == l.m_param_count + 1
    &&& bits_stand(m, s, string as int, count, l.m_bits as int)
    &&& is_least(library_named(m, corlib), 0, 8, 0x40, l.i_name as int)
}

/// What a layout takes over from the class and the field structure.
pub open spec fn built_on(l: Layout, cl: ClassPart, fl: FieldPart) -> bool {
    &&& l.c_name == cl.c_name
    &&& l.c_namespace == cl.c_namespace
    &&& l.c_byval == cl.c_byval
    &&& l.c_parent == cl.c_parent
    &&& l.c_fields == fl.slots.c_fields
    &&& l.c_field_count == fl.c_field_count
    &&& l.f_name == fl.slots.f_name
    &&& l.f_parent == fl.slots.f_parent
    &&& l.f_offset == fl.f_offset
    &&& l.f_stride == fl.slots.f_stride
}

proof fn lemma_method_code(k: int)
    requires
        0 <= k < 3072,
    ensures
        ({
            let s = il2cpp_abi::method_slots(k);
            &&& s.c_methods == 8 * (k / 64) && s.c_methods % 8 == 0
            &&& s.m_klass == 8 * ((k / 8) % 8) && s.m_klass % 8 == 0 && s.m_klass < 64
            &&& s.m_name == 8 * (k % 8) && s.m_name % 8 == 0 && s.m_name < 64
            &&& 64 * (s.c_methods as int / 8) + 8 * (s.m_klass as int / 8) + (s.m_name as int / 8)
                == k
        }),
{
}

proof fn lemma_method_encode(a: u64, b: u64, c: u64)
    requires
        a % 8 == 0 && b % 8 == 0 && c % 8 == 0,
        b < 64 && c < 64,
        64 * (a as int / 8) + 8 * (b as int / 8) + (c as int / 8) < 3072,
    ensures
        il2cpp_abi::method_slots(64 * (a as int / 8) + 8 * (b as int / 8) + (c as int / 8)) == (
        MethodSlots { c_methods: a, m_klass: b, m_name: c }),
{
}

/// Where the method structure fits, it is found.
pub proof fn law_methods_complete(
    m: Map<int, u8>,
    cs: Seq<u64>,
    ps: Seq<u64>,
    cl: ClassPart,
    fl: FieldPart,
    corlib: int,
    base: int,
    l: Layout,
    string: u64,
    gl: nat,
    inoe: nat,
)
    requires
        built_on(l, cl, fl),
        methods_fit(m, cs, ps, fl, corlib, base, l, string, gl, inoe),
    ensures
        il2cpp_abi::method_part(m, cs, ps, cl, fl, corlib, base) == Ok::<Layout, CalibrationError>(
            l,
        ),
{
    let s = MethodSlots { c_methods: l.c_methods, m_name: l.m_name, m_klass: l.m_klass };
    let fields = fl.slots.c_fields as int;
    let k = 64 * (l.c_methods as int / 8) + 8 * (l.m_klass as int / 8) + (l.m_name as int / 8);
    lemma_method_votes(m, ps, fields, s, fl.c_field_count as int);
    lemma_wins(method_places(m, ps, fields), 0, 1, 3072);
    assert(search::best(il2cpp_abi::method_score(m, ps, fields), 0, 1, 3072).1 == k);
    lemma_method_encode(l.c_methods, l.m_klass, l.m_name);
    assert(il2cpp_abi::method_slots(k) == s);
    let votes = method_count_votes(m, ps, s, fl.c_field_count as int);
    lemma_wins(votes, 0x80, 2, 128);
    assert(search::best(votes, 0x80, 2, 128).1 == l.c_method_count);
    lemma_is_least(il2cpp_abi::code_fits(m, ps, s, base), 0, 8, 0x20);
    let p = |c: u64| reads(m, c + l.c_name, "String"@);
    assert(il2cpp_abi::reads_at(m, cl.c_name as int, "String"@) =~= p);
    lemma_is_first(cs, p);
    let count = il2cpp_abi::count_at(m, string as int, l.c_method_count as int);
    lemma_last(m, s, string as int, "get_Length"@, count, gl);
    lemma_last(m, s, string as int, "IsNullOrEmpty"@, count, inoe);
    law_shape(
        m,
        s,
        string as int,
        count,
        gl,
        inoe,
        corlib,
        l.m_param_count,
        l.m_flags,
        l.i_name,
    );
}

/// Where a layout is found, its method structure fits.
pub proof fn law_methods_sound(
    m: Map<int, u8>,
    cs: Seq<u64>,
    ps: Seq<u64>,
    cl: ClassPart,
    fl: FieldPart,
    corlib: int,
    base: int,
    l: Layout,
)
    requires
        il2cpp_abi::method_part(m, cs, ps, cl, fl, corlib, base) == Ok::<Layout, CalibrationError>(
            l,
        ),
    ensures
        built_on(l, cl, fl),
        exists|string: u64, gl: nat, inoe: nat| #[trigger]
            methods_fit(m, cs, ps, fl, corlib, base, l, string, gl, inoe),
{
    let fields = fl.slots.c_fields as int;
    let places = method_places(m, ps, fields);
    let s = MethodSlots { c_methods: l.c_methods, m_name: l.m_name, m_klass: l.m_klass };
    lemma_method_votes(m, ps, fields, s, fl.c_field_count as int);
    lemma_wins(places, 0, 1, 3072);
    let k = search::best(places, 0, 1, 3072).1;
    assert(wins(places, 0, 1, 3072, k));
    lemma_method_code(k);
    assert(il2cpp_abi::method_slots(k) == s);
    let votes = method_count_votes(m, ps, s, fl.c_field_count as int);
    lemma_wins(votes, 0x80, 2, 128);
    let n = search::best(votes, 0x80, 2, 128).1;
    assert(wins(votes, 0x80, 2, 128, n));
    assert(l.c_method_count == n);
    let code = il2cpp_abi::code_fits(m, ps, s, base);
    lemma_is_least(code, 0, 8, 0x20);
    search::law_first_from(code, 0, 8, 0x20);
    let p = |c: u64| reads(m, c + l.c_name, "String"@);
    assert(il2cpp_abi::reads_at(m, cl.c_name as int, "String"@) =~= p);
    lemma_is_first(cs, p);
    let string = search::first_in(cs, p)->0;
    let count = il2cpp_abi::count_at(m, string as int, n);
    let gl = il2cpp_abi::last_named(m, s, string as int, "get_Length"@, count)->0;
    let inoe = il2cpp_abi::last_named(m, s, string as int, "IsNullOrEmpty"@, count)->0;
    lemma_last(m, s, string as int, "get_Length"@, count, gl);
    lemma_last(m, s, string as int, "IsNullOrEmpty"@, count, inoe);
    law_shape(
        m,
        s,
        string as int,
        count,
        gl,
        inoe,
        corlib,
        l.m_param_count,
        l.m_flags,
        l.i_name,
    );
    assert(methods_fit(m, cs, ps, fl, corlib, base, l, string, gl, inoe));
}

// ── the whole layout ─────────────────────────────────────────────────────────

/// Metadata that is laid out by a layout is calibrated to that layout: where
/// there is a core library with 32 classes that can be read, and the class, the
/// field and the method structure fit, calibration succeeds, with that layout
/// and no other.
pub proof fn law_layout_found(
    m: Map<int, u8>,
    corlib: u64,
    classes: Seq<u64>,
    base: u64,
    s_len: i32,
    s_chars: i32,
    l: Layout,
    cl: ClassPart,
    fl: FieldPart,
    object: u64,
    int32: u64,
    string: u64,
    gl: nat,
    inoe: nat,
)
    requires
        corlib != 0,
        classes.len() >= 32,
        il2cpp_abi::samples_of(m, classes).len() >= 32,
        ({
            let cs = il2cpp_abi::samples_of(m, classes);
            let ps = il2cpp_abi::probes_of(cs);
            let name = l.c_name as int;
            let space = l.c_namespace as int;
            &&& built_on(l, cl, fl)
            &&& wins(name_votes(m, cs), 0, 8, 16, name)
            &&& wins(space_votes(m, cs, name), 0, 8, 12, space)
            &&& is_first(cs, system_class(m, name, space, "String"@), cl.a_str)
            &&& is_first(cs, system_class(m, name, space, "Object"@), object)
            &&& is_first(cs, system_class(m, name, space, "Int32"@), int32)
            &&& is_least(
                type_records(m, cs, cl.a_str, object, int32),
                0x18,
                8,
                0x80,
                l.c_byval as int,
            )
            &&& wins(
                parent_votes(m, cs, name, l.c_byval as int, cl.a_str),
                0,
                8,
                20,
                l.c_parent as int,
            )
            &&& fields_fit(m, ps, cl.a_str, s_len, s_chars, fl)
            &&& methods_fit(m, cs, ps, fl, corlib as int, base as int, l, string, gl, inoe)
        }),
    ensures
        il2cpp_abi::calibrated(m, corlib, classes, base, s_len, s_chars) == Ok::<
            Layout,
            CalibrationError,
        >(l),
{
    let cs = il2cpp_abi::samples_of(m, classes);
    let ps = il2cpp_abi::probes_of(cs);
    law_class_structure(m, cs, cl, object, int32);
    law_field_structure(m, ps, cl.a_str, s_len, s_chars, fl);
    law_methods_complete(
        m,
        cs,
        ps,
        cl,
        fl,
        corlib as int,
        base as int,
        l,
        string,
        gl,
        inoe,
    );
}

/// Calibration does not begin without a core library, nor with fewer than 32
/// classes, or fewer than 32 that can be read; and it says so.
pub proof fn law_calibration_needs(
    m: Map<int, u8>,
    corlib: u64,
    classes: Seq<u64>,
    base: u64,
    s_len: i32,
    s_chars: i32,
)
    ensures
        ({
            let r = il2cpp_abi::calibrated(m, corlib, classes, base, s_len, s_chars);
            let n = il2cpp_abi::samples_of(m, classes).len();
            &&& corlib == 0 ==> r == Err::<Layout, CalibrationError>(CalibrationError::NoCorlib)
            &&& corlib != 0 && classes.len() < 32 ==> r == Err::<Layout, CalibrationError>(
                CalibrationError::TooFewClasses,
            )
            &&& corlib != 0 && classes.len() >= 32 && n < 32 ==> r == Err::<
                Layout,
                CalibrationError,
            >(CalibrationError::TooFewReadable)
            &&& r is Ok ==> corlib != 0 && n >= 32
        }),
{
}

/// The layout that was measured, and what is said of one that differs from it:
/// nothing of one that is the same, and of each field that differs its name,
/// where it is, and where it was measured.
pub proof fn law_drift(l: Layout, x: u64)
    ensures
        ({
            let r = il2cpp_abi::reference();
            let said = |n: Seq<char>, was: nat|
                seq![
                    n + ": got "@ + text::hex_text(x as nat) + " expected "@ + text::hex_text(was),
                ];
            let drift = |l: Layout| il2cpp_abi::drift(l);
            &&& drift(l).len() == 0 <==> l == r
            &&& x != 0x10 ==> drift(Layout { c_name: x, ..r }) =~= said("c_name"@, 0x10)
            &&& x != 0x18 ==> drift(Layout { c_namespace: x, ..r }) =~= said("c_namespace"@, 0x18)
            &&& x != 0x20 ==> drift(Layout { c_byval: x, ..r }) =~= said("c_byval"@, 0x20)
            &&& x != 0x58 ==> drift(Layout { c_parent: x, ..r }) =~= said("c_parent"@, 0x58)
            &&& x != 0x80 ==> drift(Layout { c_fields: x, ..r }) =~= said("c_fields"@, 0x80)
            &&& x != 0x124 ==> drift(Layout { c_field_count: x, ..r }) =~= said(
                "c_field_count"@,
                0x124,
            )
            &&& x != 0x98 ==> drift(Layout { c_methods: x, ..r }) =~= said("c_methods"@, 0x98)
            &&& x != 0x120 ==> drift(Layout { c_method_count: x, ..r }) =~= said(
                "c_method_count"@,
                0x120,
            )
            &&& x != 0 ==> drift(Layout { f_name: x, ..r }) =~= said("f_name"@, 0)
            &&& x != 0x10 ==> drift(Layout { f_parent: x, ..r }) =~= said("f_parent"@, 0x10)
            &&& x != 0x18 ==> drift(Layout { f_offset: x, ..r }) =~= said("f_offset"@, 0x18)
            &&& x != 0x20 ==> drift(Layout { f_stride: x, ..r }) =~= said("f_stride"@, 0x20)
            &&& x != 0 ==> drift(Layout { m_ptr: x, ..r }) =~= said("m_ptr"@, 0)
            &&& x != 0x18 ==> drift(Layout { m_name: x, ..r }) =~= said("m_name"@, 0x18)
            &&& x != 0x20 ==> drift(Layout { m_klass: x, ..r }) =~= said("m_klass"@, 0x20)
            &&& x != 0x4c ==> drift(Layout { m_flags: x, ..r }) =~= said("m_flags"@, 0x4c)
            &&& x != 0x52 ==> drift(Layout { m_param_count: x, ..r }) =~= said(
                "m_param_count"@,
                0x52,
            )
            &&& x != 0x53 ==> drift(Layout { m_bits: x, ..r }) =~= said("m_bits"@, 0x53)
            &&& x != 0 ==> drift(Layout { i_name: x, ..r }) =~= said("i_name"@, 0)
        }),
{
}

} // verus!
