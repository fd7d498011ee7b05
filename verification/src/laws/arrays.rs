//! The laws of reading the game's arrays and lists.

use vstd::prelude::*;

use crate::chams;
use crate::memory;
use crate::runtime;

verus! {

/// What lies in the first `n` slots of an array of references, from 0x20 on,
/// eight bytes each; null where a slot cannot be read.
pub open spec fn slots(m: Map<int, u8>, arr: int, n: nat) -> Seq<u64> {
    Seq::new(
        n,
        |i: int|
            match memory::val(m, arr + 0x20 + i * 8, 8) {
                Some(v) => v as u64,
                None => 0,
            },
    )
}

/// What is collected of an array is what lies in its slots, in their order, but
/// for those that are null or cannot be read: nothing else is left out, and
/// nothing is added.
pub proof fn law_elements(m: Map<int, u8>, arr: int, n: nat)
    ensures
        chams::elements(m, arr, n) == slots(m, arr, n).filter(|p: u64| p != 0),
        forall|p: u64| #[trigger]
            chams::elements(m, arr, n).contains(p) <==> p != 0 && exists|i: int|
                0 <= i < n && #[trigger] slots(m, arr, n)[i] == p,
        (forall|i: int| 0 <= i < n ==> #[trigger] slots(m, arr, n)[i] != 0) ==> chams::elements(
            m,
            arr,
            n,
        ) == slots(m, arr, n),
    decreases n,
{
    broadcast use vstd::seq_lib::group_filter_ensures;

    let f = |p: u64| p != 0;
    let s = slots(m, arr, n);
    reveal(Seq::filter);
    if n == 0 {
        assert(s =~= Seq::empty());
        assert(chams::elements(m, arr, n) =~= s.filter(f));
    } else {
        law_elements(m, arr, (n - 1) as nat);
        memory::lemma_widths(m, arr + 0x20 + (n - 1) * 8);
        assert(s.drop_last() =~= slots(m, arr, (n - 1) as nat));
        assert(chams::elements(m, arr, n) =~= s.filter(f));
    }
    assert forall|p: u64| #[trigger] chams::elements(m, arr, n).contains(p) <==> p != 0 && exists|
        i: int,
    |
        0 <= i < n && #[trigger] slots(m, arr, n)[i] == p by {
        if chams::elements(m, arr, n).contains(p) {
            s.lemma_filter_contains_rev(f, p);
            let i = choose|i: int| 0 <= i < s.len() && s[i] == p;
            assert(slots(m, arr, n)[i] == p);
            let j = choose|j: int| 0 <= j < s.filter(f).len() && s.filter(f)[j] == p;
            assert(f(s.filter(f)[j]));
        }
        if p != 0 && exists|i: int| 0 <= i < n && #[trigger] slots(m, arr, n)[i] == p {
            let i = choose|i: int| 0 <= i < n && #[trigger] slots(m, arr, n)[i] == p;
            assert(f(s[i]));
        }
    }
    if forall|i: int| 0 <= i < n ==> #[trigger] slots(m, arr, n)[i] != 0 {
        if n > 0 {
            assert(forall|i: int| 0 <= i < n - 1 ==> #[trigger] slots(m, arr, (n - 1) as nat)[i] == s[i]);
            assert(f(s.last()));
            assert(chams::elements(m, arr, n) =~= s);
        } else {
            assert(chams::elements(m, arr, n) =~= s);
        }
    }
}

/// An array has its length at 0x18 and is taken whole, or not at all where it is
/// null or empty, cannot be read, or has more elements than are asked for.
pub proof fn law_whole_array(m: Map<int, u8>, arr: int, most: nat, n: nat)
    ensures
        arr != 0 && memory::val(m, arr + 0x18, 8) == Some(n) && 0 < n <= most
            ==> chams::all_elements(m, arr, most) == slots(m, arr, n).filter(|p: u64| p != 0),
        arr == 0 ==> chams::all_elements(m, arr, most).len() == 0,
        memory::val(m, arr + 0x18, 8) is None ==> chams::all_elements(m, arr, most).len() == 0,
        memory::val(m, arr + 0x18, 8) == Some(n) && (n == 0 || n > most) ==> chams::all_elements(
            m,
            arr,
            most,
        ).len() == 0,
{
    law_elements(m, arr, n);
}

/// A list has its array at 0x10 and its length, a signed number, at 0x18; one
/// that is null, or whose length is not above 0, has no array.
pub proof fn law_list(m: Map<int, u8>, list: int, n: int)
    requires
        list != 0,
        memory::int_val(m, list + 0x18) == Some(n),
    ensures
        runtime::count_in(m, list) == Some(
            if n > 0 {
                n as nat
            } else {
                0
            },
        ),
        n > 0 ==> runtime::items_in(m, list) == memory::val(m, list + 0x10, 8),
        n <= 0 ==> runtime::items_in(m, list) == Some(0nat),
        runtime::items_in(m, 0) == Some(0nat),
        chams::list_len(m, list) == if n > 0 {
            n
        } else {
            0
        },
{
}

/// A value of several bytes has the lowest first, and is there exactly where all
/// of them can be read at an address that is not null.
pub proof fn law_little_endian(m: Map<int, u8>, a: int)
    ensures
        memory::val(m, a, 1) is Some <==> a != 0 && m.dom().contains(a),
        memory::val(m, a, 1) matches Some(v) ==> v == m[a],
        memory::val(m, a, 2) matches Some(v) ==> v == m[a] + 0x100 * m[a + 1],
        memory::val(m, a, 4) matches Some(v) ==> v == m[a] + 0x100 * m[a + 1] + 0x1_0000 * m[a + 2]
            + 0x100_0000 * m[a + 3],
        memory::val(m, a, 4) matches Some(v) ==> memory::int_val(m, a) == Some(
            if m[a + 3] < 0x80 {
                v as int
            } else {
                v - 0x1_0000_0000
            },
        ),
        memory::val(m, a, 8) is Some <==> a != 0 && forall|i: int|
            0 <= i < 8 ==> m.dom().contains(#[trigger] (a + i)),
        memory::val(m, a, 8) matches Some(v) ==> v == m[a] + 0x100 * m[a + 1] + 0x1_0000 * m[a + 2]
            + 0x100_0000 * m[a + 3] + 0x1_0000_0000 * (m[a + 4] + 0x100 * m[a + 5] + 0x1_0000 * m[a
            + 6] + 0x100_0000 * m[a + 7]),
        memory::ptr_val(m, a) == if memory::val(m, a, 8) == Some(0nat) {
            None
        } else {
            memory::val(m, a, 8)
        },
{
    reveal_with_fuel(memory::le, 9);
    if memory::has(m, a, 8) {
        assert forall|i: int| 0 <= i < 8 implies m.dom().contains(#[trigger] (a + i)) by {}
    }
    if forall|i: int| 0 <= i < 8 ==> m.dom().contains(#[trigger] (a + i)) {
        assert forall|x: int| a <= x < a + 8 implies #[trigger] m.dom().contains(x) by {
            assert(m.dom().contains(a + (x - a)));
        }
    }
    if memory::has(m, a, 1) {
        assert(m.dom().contains(a));
    }
}

} // verus!
