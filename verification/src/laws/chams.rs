//! The laws of the highlighted players.

use vstd::prelude::*;

use crate::chams;
use crate::chams::{AssignStep, Cache, Rgba, TypeObjects};
use crate::laws::arrays;
use crate::laws::features as toggles;
use crate::laws::raid::{method_or_null, named_method};
use crate::memory;
use crate::runtime;
use crate::runtime::{Object, ScriptRuntime, Store};

verus! {

/// The renderers of a player are what lies in the array that the player refers
/// to, in its order, null ones left out: all of them where the array has from 1
/// to 4096 elements, and none where it has another number.
pub proof fn law_player_renderers(m: Map<int, u8>, off: i32, player: int, arr: nat, n: nat)
    requires
        memory::val(m, player + off, 8) == Some(arr),
        arr != 0,
        memory::val(m, arr + 0x18int, 8) == Some(n),
    ensures
        1 <= n <= 4096 ==> chams::own_renderers(m, Some(off), player) == arrays::slots(
            m,
            arr as int,
            n,
        ).filter(|p: u64| p != 0),
        1 <= n <= 4096 ==> forall|i: int|
            0 <= i < n && (#[trigger] arrays::slots(m, arr as int, n)[i]) != 0
                ==> chams::own_renderers(m, Some(off), player).contains(
                arrays::slots(m, arr as int, n)[i],
            ),
        !(1 <= n <= 4096) ==> chams::own_renderers(m, Some(off), player).len() == 0,
{
    arrays::law_elements(m, arr as int, n);
}

/// Without the field, or where it leads nowhere, a player has no renderers of
/// its own.
pub proof fn law_no_renderers(m: Map<int, u8>, off: i32, player: int)
    ensures
        chams::own_renderers(m, None, player).len() == 0,
        !(memory::val(m, player + off, 8) matches Some(v) && v != 0) ==> chams::own_renderers(
            m,
            Some(off),
            player,
        ).len() == 0,
{
}

/// The players that a living world lists: what the list's array refers to, in
/// its order, as far as the list says, where that is from 1 to 4096.
pub proof fn law_listed_players(
    m: Map<int, u8>,
    off: i32,
    world: int,
    list: nat,
    items: nat,
    n: int,
    len: nat,
    k: nat,
)
    requires
        world != 0,
        memory::val(m, world + 0x10, 8) matches Some(v) && v != 0,
        memory::val(m, world + off, 8) == Some(list),
        list != 0,
        memory::val(m, list + 0x10int, 8) == Some(items),
        items != 0,
        memory::int_val(m, list + 0x18int) == Some(n),
        memory::val(m, items + 0x18int, 8) == Some(len),
        k == if n < len {
            n
        } else {
            len as int
        },
    ensures
        1 <= n <= 4096 ==> chams::listed_players(m, Some(off), world) == arrays::slots(
            m,
            items as int,
            k,
        ).filter(|p: u64| p != 0),
        !(1 <= n <= 4096) ==> chams::listed_players(m, Some(off), world).len() == 0,
{
    if 1 <= n <= 4096 {
        arrays::law_elements(m, items as int, k);
    }
}

/// A pass is over the players that a living world lists. Where it lists none, it
/// is over those that a search found, from 1 to 4096 of them. Where no world
/// lives it is over nobody.
pub proof fn law_pass_players(
    m: Map<int, u8>,
    world: int,
    listed: Seq<u64>,
    around: Map<int, u8>,
    found: Object,
    n: nat,
)
    ensures
        ({
            let lives = world != 0 && (memory::val(m, world + 0x10, 8) matches Some(v) && v != 0);
            &&& !lives ==> chams::pass_players(m, world, listed, around, Some(found)).len() == 0
            &&& lives && listed.len() > 0 ==> chams::pass_players(
                m,
                world,
                listed,
                around,
                Some(found),
            ) == listed
            &&& lives && listed.len() == 0 && found.0 != 0 && memory::val(around, found.0 + 0x18, 8)
                == Some(n) && 1 <= n <= 4096 ==> chams::pass_players(
                m,
                world,
                listed,
                around,
                Some(found),
            ) == arrays::slots(around, found.0 as int, n).filter(|p: u64| p != 0)
            &&& listed.len() == 0 ==> chams::pass_players(m, world, listed, around, None).len() == 0
        }),
{
    arrays::law_elements(around, found.0 as int, n);
}

/// The local player is the one that a living world refers to.
pub proof fn law_local_player(m: Map<int, u8>, off: i32, world: int, p: nat)
    ensures
        chams::local_player(m, Some(off), world) == Some(p) <==> {
            &&& world != 0
            &&& memory::val(m, world + 0x10, 8) matches Some(v)
            &&& v != 0
            &&& memory::val(m, world + off, 8) == Some(p)
            &&& p != 0
        },
        chams::local_player(m, None, world) is None,
{
}

/// Of the renderers of a player and those found by walking, each is kept once,
/// where it first occurs: of two that are kept, the one that occurs first comes
/// first.
pub proof fn law_first_occurrences(s: Seq<u64>)
    ensures
        forall|x: u64| #[trigger] chams::distinct(s).contains(x) <==> s.contains(x),
        chams::distinct(s).no_duplicates(),
        forall|i: int, j: int|
            0 <= i < j < chams::distinct(s).len() ==> s.index_of_first(
                #[trigger] chams::distinct(s)[i],
            )->0 < s.index_of_first(#[trigger] chams::distinct(s)[j])->0,
        s.no_duplicates() ==> chams::distinct(s) == s,
    decreases s.len(),
{
    chams::law_distinct(s);
    let d = chams::distinct(s);
    if s.len() > 0 {
        let t = s.drop_last();
        let b = chams::distinct(t);
        law_first_occurrences(t);
        chams::law_distinct(t);
        assert forall|x: u64| t.contains(x) implies #[trigger] s.index_of_first(x)
            == t.index_of_first(x) && s.index_of_first(x)->0 < t.len() by {
            t.index_of_first_ensures(x);
            s.index_of_first_ensures(x);
            let i = t.index_of_first(x)->0;
            assert(s[i] == x);
            let j = s.index_of_first(x)->0;
            assert(s.contains(x));
            if j < i {
                assert(t[j] == x);
            }
        }
        assert forall|i: int, j: int| 0 <= i < j < d.len() implies s.index_of_first(
            #[trigger] d[i],
        )->0 < s.index_of_first(#[trigger] d[j])->0 by {
            assert(i < b.len() && d[i] == b[i]);
            assert(b.contains(b[i]));
            if j < b.len() {
                assert(b.contains(b[j]));
                assert(d[j] == b[j]);
            } else {
                s.index_of_first_ensures(s.last());
                assert(s[s.len() - 1] == s.last());
                let k = s.index_of_first(s.last())->0;
                assert(d[j] == s.last());
                if k < t.len() {
                    assert(t[k] == s.last());
                    assert(t.contains(s.last()));
                }
            }
        }
        if s.no_duplicates() {
            assert(t.no_duplicates());
            if b.contains(s.last()) {
                assert(t.contains(s.last()));
                let i = choose|i: int| 0 <= i < t.len() && t[i] == s.last();
                assert(s[i] == s[s.len() - 1]);
            }
            assert(d =~= s);
        }
    } else {
        assert(d =~= s);
    }
}

/// A renderer is touched where it has its native half and nothing is kept of it
/// yet.
pub proof fn law_untouched(m: Map<int, u8>, originals: Map<u64, u64>, r: u64)
    ensures
        chams::untouched(m, originals, r) <==> {
            &&& r != 0
            &&& memory::val(m, r + 0x10, 8) matches Some(v)
            &&& v != 0
            &&& !originals.contains_key(r)
        },
{
}

/// An object that was kept can be used again where its header can be read and it
/// still has its native half.
pub proof fn law_usable(m: Map<int, u8>, o: int)
    ensures
        chams::usable(m, o) <==> {
            &&& o != 0
            &&& memory::has(m, o, 24)
            &&& memory::val(m, o + 16, 8) matches Some(v)
            &&& v != 0
        },
{
}

/// The material is built after the first that there is of the materials that a
/// renderer has, from 1 to 64 of them, and put into as many slots.
pub proof fn law_template(m: Map<int, u8>, shared: int, n: nat, k: int)
    requires
        shared != 0,
        memory::val(m, shared + 0x18, 8) == Some(n),
        0 <= k < n,
        arrays::slots(m, shared, n)[k] != 0,
        forall|i: int| 0 <= i < k ==> #[trigger] arrays::slots(m, shared, n)[i] == 0,
    ensures
        n <= 64 ==> chams::template_in(m, shared) == Some((n, arrays::slots(m, shared, n)[k])),
        n > 64 ==> chams::template_in(m, shared) is None,
{
    if n <= 64 {
        arrays::law_elements(m, shared, n);
        lemma_first_kept(arrays::slots(m, shared, n), k);
        assert(chams::elements(m, shared, n).contains(arrays::slots(m, shared, n)[k]));
    }
}

proof fn lemma_first_kept(s: Seq<u64>, k: int)
    requires
        0 <= k < s.len(),
        s[k] != 0,
        forall|i: int| 0 <= i < k ==> #[trigger] s[i] == 0,
    ensures
        s.filter(|p: u64| p != 0).len() > 0,
        s.filter(|p: u64| p != 0)[0] == s[k],
    decreases s.len(),
{
    let f = |p: u64| p != 0;
    reveal(Seq::filter);
    let t = s.drop_last();
    if k < s.len() - 1 {
        assert(forall|i: int| 0 <= i < t.len() ==> #[trigger] t[i] == s[i]);
        lemma_first_kept(t, k);
        assert(t.filter(f)[0] == s[k]);
    } else {
        lemma_none_kept(t);
        assert(t.filter(f).len() == 0);
        assert(f(s.last()));
    }
}

proof fn lemma_none_kept(s: Seq<u64>)
    requires
        forall|i: int| 0 <= i < s.len() ==> #[trigger] s[i] == 0,
    ensures
        s.filter(|p: u64| p != 0).len() == 0,
    decreases s.len(),
{
    reveal(Seq::filter);
    if s.len() > 0 {
        assert(forall|i: int| 0 <= i < s.len() - 1 ==> #[trigger] s.drop_last()[i] == s[i]);
        lemma_none_kept(s.drop_last());
        assert(s[s.len() - 1] == 0);
    }
}

/// A renderer without any material is not touched.
pub proof fn law_no_template(m: Map<int, u8>, shared: int, n: nat)
    requires
        shared == 0 || memory::val(m, shared + 0x18, 8) == Some(n),
        forall|i: int| 0 <= i < n ==> #[trigger] arrays::slots(m, shared, n)[i] == 0,
    ensures
        chams::template_in(m, shared) is None,
{
    if shared != 0 {
        arrays::law_elements(m, shared, n);
        lemma_none_kept(arrays::slots(m, shared, n));
    }
}

/// Memory after several stores, one after the other.
pub open spec fn after_stores(m: Map<int, u8>, stores: Seq<Store>) -> Map<int, u8>
    decreases stores.len(),
{
    if stores.len() == 0 {
        m
    } else {
        runtime::stored(after_stores(m, stores.drop_last()), stores.last())
    }
}

/// After the stores of an array that is handed over, each of its slots holds the
/// material, and every byte outside the slots is what it was.
pub proof fn law_filled(m: Map<int, u8>, arr: int, fill: u64, n: nat, i: int)
    requires
        0 < arr,
        arr + 0x20 + n * 8 <= u64::MAX,
        memory::has(m, arr + 0x20, 8int * n),
        0 <= i < n,
    ensures
        memory::val(after_stores(m, chams::fill_of(arr, fill, n)), arr + 0x20 + i * 8, 8) == Some(
            fill as nat,
        ),
        after_stores(m, chams::fill_of(arr, fill, n)).dom() == m.dom(),
        forall|a: int|
            m.dom().contains(a) && !(arr + 0x20 <= a < arr + 0x20 + n * 8)
                ==> #[trigger] after_stores(m, chams::fill_of(arr, fill, n))[a] == m[a],
{
    lemma_filled(m, arr, fill, n, n);
}

proof fn lemma_filled(m: Map<int, u8>, arr: int, fill: u64, n: nat, k: nat)
    requires
        0 < arr,
        arr + 0x20 + n * 8 <= u64::MAX,
        memory::has(m, arr + 0x20, 8int * n),
        k <= n,
    ensures
        after_stores(m, chams::fill_of(arr, fill, k)).dom() == m.dom(),
        forall|i: int|
            0 <= i < k ==> #[trigger] memory::val(
                after_stores(m, chams::fill_of(arr, fill, k)),
                arr + 0x20 + i * 8,
                8,
            ) == Some(fill as nat),
        forall|a: int|
            m.dom().contains(a) && !(arr + 0x20 <= a < arr + 0x20 + k * 8)
                ==> #[trigger] after_stores(m, chams::fill_of(arr, fill, k))[a] == m[a],
    decreases k,
{
    if k > 0 {
        lemma_filled(m, arr, fill, n, (k - 1) as nat);
        let before = after_stores(m, chams::fill_of(arr, fill, (k - 1) as nat));
        let all = chams::fill_of(arr, fill, k);
        assert(all.drop_last() =~= chams::fill_of(arr, fill, (k - 1) as nat));
        let s = all.last();
        assert(s.addr == arr + 0x20 + (k - 1) * 8);
        assert(memory::has(before, s.addr as int, 8));
        runtime::law_store(before, s);
        let after = after_stores(m, all);
        assert forall|i: int| 0 <= i < k implies #[trigger] memory::val(
            after,
            arr + 0x20 + i * 8,
            8,
        ) == Some(fill as nat) by {
            if i < k - 1 {
                assert(memory::val(before, arr + 0x20 + i * 8, 8) == Some(fill as nat));
                lemma_same_bytes(before, after, arr + 0x20 + i * 8, 8);
            }
        }
    }
}

/// A value is the same in two memories that have the same bytes there.
proof fn lemma_same_bytes(m: Map<int, u8>, w: Map<int, u8>, a: int, n: nat)
    requires
        m.dom() == w.dom(),
        forall|x: int| a <= x < a + n && m.dom().contains(x) ==> #[trigger] m[x] == w[x],
        memory::has(m, a, n as int),
    ensures
        memory::val(w, a, n) == memory::val(m, a, n),
{
    lemma_same_le(m, w, a, n);
}

proof fn lemma_same_le(m: Map<int, u8>, w: Map<int, u8>, a: int, n: nat)
    requires
        forall|x: int| a <= x < a + n ==> #[trigger] m.dom().contains(x),
        forall|x: int| a <= x < a + n && m.dom().contains(x) ==> #[trigger] m[x] == w[x],
    ensures
        memory::le(w, a, n) == memory::le(m, a, n),
    decreases n,
{
    if n > 0 {
        lemma_same_le(m, w, a + 1, (n - 1) as nat);
        assert(m.dom().contains(a));
    }
}

/// An array is handed over filled, slot for slot, with from 1 to 64 times the
/// material; without a material, or with another number, nothing is.
pub proof fn law_handed(r: AssignStep, arr: Object, shared: bool, fill: u64, n: u64, i: int)
    requires
        chams::handed(r, arr, shared, fill, n),
        arr.0 + 0x20 + n * 8 <= u64::MAX,
    ensures
        r is Refuse <==> fill == 0 || n == 0 || n > 64,
        !(r is Refuse) ==> {
            &&& r matches AssignStep::Hand { arr: a, shared: b, stores }
            &&& a == arr
            &&& b == shared
            &&& stores@.len() == n
            &&& 0 <= i < n ==> stores@[i].addr == arr.0 + 0x20 + i * 8 && stores@[i].width == 8
                && stores@[i].value == fill
        },
{
}

/// How a colour is laid on: glow adds it, mesh mixes it at 45 in a hundred, flat
/// puts it in place of what was there and is the only one to write the depth.
/// Mesh takes the colour of what is in sight, the others that of what is behind
/// something. Whatever the style, the depth is not tested, both faces are drawn,
/// and it is drawn after everything else.
pub proof fn law_material(style: usize, scheme: usize, rim: bool)
    requires
        style < 3,
        scheme < 6,
    ensures
        ({
            let ops = chams::material_ops(style, scheme, rim);
            let zero = Rgba { r: 0, g: 0, b: 0, a: 100 };
            let number = |name: Seq<char>, v: int| (0int, name, v, zero);
            &&& ops[0] == number("_ZTest"@, 8)
            &&& ops[1] == number("_Cull"@, 0)
            &&& ops[2] == (3int, Seq::<char>::empty(), 4000int, zero)
            &&& style == 0 ==> {
                &&& ops[3] == number("_SrcBlend"@, 1)
                &&& ops[4] == number("_DstBlend"@, 0)
                &&& ops[5] == number("_ZWrite"@, 1)
                &&& ops[6] == (1int, "_Color"@, 0int, hidden_colour(scheme))
            }
            &&& style == 1 ==> {
                &&& ops[3] == number("_SrcBlend"@, 1)
                &&& ops[4] == number("_DstBlend"@, 1)
                &&& ops[5] == number("_ZWrite"@, 0)
                &&& ops[6] == (1int, "_Color"@, 0int, hidden_colour(scheme))
            }
            &&& style == 2 ==> {
                &&& ops[3] == number("_SrcBlend"@, 5)
                &&& ops[4] == number("_DstBlend"@, 10)
                &&& ops[5] == number("_ZWrite"@, 0)
                &&& ops[6] == (1int, "_Color"@, 0int, Rgba { a: 45, ..seen_colour(scheme) })
            }
            &&& ops.len() == if rim {
                15nat
            } else {
                7
            }
            &&& rim ==> {
                let tint = if style == 2 {
                    seen_colour(scheme)
                } else {
                    hidden_colour(scheme)
                };
                let power = |name: Seq<char>| (2int, name, 220int, zero);
                &&& ops[7] == (1int, "_RimColor"@, 0int, tint)
                &&& ops[8] == (1int, "_RimLightColor"@, 0int, tint)
                &&& ops[9] == (1int, "_FresnelColor"@, 0int, tint)
                &&& ops[10] == (1int, "_OutlineColor"@, 0int, tint)
                &&& ops[11] == power("_RimPower"@)
                &&& ops[12] == power("_RimLightPower"@)
                &&& ops[13] == power("_FresnelPower"@)
                &&& ops[14] == power("_RimIntensity"@)
            }
        }),
{
}

/// The colour of a scheme for what is in sight, in hundredths.
pub open spec fn seen_colour(scheme: usize) -> Rgba {
    let c: Seq<(u8, u8, u8)> = seq![
        (55, 100, 100),
        (100, 60, 25),
        (65, 100, 35),
        (80, 45, 100),
        (60, 85, 100),
        (100, 45, 40),
    ];
    let (r, g, b) = c[scheme as int];
    Rgba { r, g, b, a: 100 }
}

/// The colour of a scheme for what is behind something, in hundredths.
pub open spec fn hidden_colour(scheme: usize) -> Rgba {
    let c: Seq<(u8, u8, u8)> = seq![
        (0, 95, 100),
        (100, 35, 0),
        (25, 100, 0),
        (65, 0, 100),
        (0, 55, 100),
        (100, 5, 0),
    ];
    let (r, g, b) = c[scheme as int];
    Rgba { r, g, b, a: 100 }
}

/// The six schemes and the three styles, by number and by name.
pub proof fn law_names(scheme: usize, style: usize)
    requires
        scheme < 6,
        style < 3,
    ensures
        chams::scheme_text(scheme) == seq![
            "plasma"@,
            "molten"@,
            "toxic"@,
            "void"@,
            "ice"@,
            "ember"@,
        ][scheme as int],
        chams::style_text(style) == seq!["flat"@, "glow"@, "mesh"@][style as int],
        chams::scheme_vis(scheme) == seen_colour(scheme),
        chams::scheme_occ(scheme) == hidden_colour(scheme),
        chams::SCHEMES == 6,
        chams::STYLES == 3,
{
}

/// The shader is the first candidate that there is.
pub proof fn law_first_shader(found: Seq<u64>, at: nat)
    ensures
        chams::first_handle(found, at) matches Some(i) ==> at <= i < found.len()
            && found[i as int] != 0 && forall|j: int| at <= j < i ==> #[trigger] found[j] == 0,
        chams::first_handle(found, at) is None ==> forall|j: int|
            at <= j < found.len() ==> #[trigger] found[j] == 0,
    decreases found.len() - at,
{
    if at < found.len() && found[at as int] == 0 {
        law_first_shader(found, at + 1);
    }
}

/// A pass is made every half second, and at once where none was made.
pub proof fn law_pass_due(last: u64, now: u64)
    ensures
        chams::due(None, now),
        chams::due(Some(last), now) <==> now >= last + 500_000_000,
{
}

/// Everything that the feature calls is found by name: a method of its own where
/// overloads must be told apart, or one that may be inherited. Where one is
/// missing that it cannot do without, there is nothing.
pub proof fn law_chams_names<R: ScriptRuntime>(rt: &R, ty: TypeObjects, dual_ok: bool, c: Cache)
    requires
        chams::cache_of(rt, ty, dual_ok) == Some(c),
    ensures
        ({
            let class = |name: Seq<char>| ("UnityEngine.CoreModule"@, "UnityEngine"@, name);
            let own = |k: Seq<char>, name: Seq<char>, argc: int|
                named_method(rt, class(k), name, argc, true);
            let any = |k: Seq<char>, name: Seq<char>, argc: int|
                named_method(rt, class(k), name, argc, false);
            &&& ty.player.0 != 0 && c.ty_player == ty.player
            &&& ty.renderer.0 != 0 && c.ty_renderer == ty.renderer
            &&& c.ty_skinned == if ty.skinned.0 == 0 {
                ty.renderer
            } else {
                ty.skinned
            }
            &&& c.ty_shader == ty.shader
            &&& c.dual_ok == dual_ok
            &&& rt.image_of("UnityEngine.CoreModule"@) matches Some(i)
            &&& rt.class_of(i, "UnityEngine"@, "Material"@) == Some(c.mat_class)
            &&& own("Object"@, "FindObjectsOfType"@, 1) is Some ==> c.find_objects_argc == 1
                && own("Object"@, "FindObjectsOfType"@, 1) == Some(c.find_objects)
            &&& own("Object"@, "FindObjectsOfType"@, 1) is None ==> c.find_objects_argc == 2
                && own("Object"@, "FindObjectsOfType"@, 2) == Some(c.find_objects)
            &&& c.find_objects_all == method_or_null(own("Object"@, "FindObjectsOfTypeAll"@, 1))
            &&& c.get_name == method_or_null(any("Object"@, "get_name"@, 0))
            &&& own("Object"@, "Instantiate"@, 1) == Some(c.instantiate)
            &&& own("Shader"@, "Find"@, 1) == Some(c.shader_find)
            &&& any("Component"@, "get_transform"@, 0) == Some(c.comp_get_transform)
            &&& own("Component"@, "GetComponent"@, 1) == Some(c.comp_get_component)
            &&& any("Transform"@, "get_childCount"@, 0) == Some(c.tf_child_count)
            &&& own("Transform"@, "GetChild"@, 1) == Some(c.tf_get_child)
            &&& any("Renderer"@, "get_materials"@, 0) == Some(c.r_get_materials)
            &&& any("Renderer"@, "get_sharedMaterials"@, 0) == Some(c.r_get_shared_materials)
            &&& any("Renderer"@, "set_materials"@, 1) == Some(c.r_set_materials)
            &&& any("Renderer"@, "set_sharedMaterials"@, 1) == Some(c.r_set_shared_materials)
            &&& any("Material"@, "set_shader"@, 1) == Some(c.m_set_shader)
            &&& own("Material"@, "SetColor"@, 2) == Some(c.m_set_color)
            &&& own("Material"@, "SetInt"@, 2) == Some(c.m_set_int)
            &&& own("Material"@, "SetFloat"@, 2) == Some(c.m_set_float)
            &&& any("Material"@, "set_renderQueue"@, 1) == Some(c.m_set_render_queue)
            &&& c.player_renderers_off matches Some(o) ==> toggles::lies_at(
                rt,
                "EFT"@,
                "Player"@,
                "_renderers"@,
                o,
            )
            &&& c.main_player_off matches Some(o) ==> toggles::lies_at(
                rt,
                "EFT"@,
                "GameWorld"@,
                "MainPlayer"@,
                o,
            )
            &&& forall|o: i32| #[trigger]
                toggles::lies_at(rt, "EFT"@, "GameWorld"@, "RegisteredPlayers"@, o)
                    ==> c.gw_players_off == Some(o)
            &&& forall|o: i32| #[trigger]
                toggles::lies_at(rt, "EFT"@, "Player"@, "_renderers"@, o)
                    ==> c.player_renderers_off == Some(o)
            &&& forall|o: i32| #[trigger]
                toggles::lies_at(rt, "EFT"@, "GameWorld"@, "MainPlayer"@, o) ==> c.main_player_off
                    == Some(o)
        }),
{
}

/// The feature is there where the two types it cannot do without were made and
/// every method is found that it calls.
pub proof fn law_chams_found<R: ScriptRuntime>(rt: &R, ty: TypeObjects, dual_ok: bool)
    ensures
        ({
            let class = |name: Seq<char>| ("UnityEngine.CoreModule"@, "UnityEngine"@, name);
            let own = |k: Seq<char>, name: Seq<char>, argc: int|
                named_method(rt, class(k), name, argc, true) is Some;
            let any = |k: Seq<char>, name: Seq<char>, argc: int|
                named_method(rt, class(k), name, argc, false) is Some;
            chams::cache_of(rt, ty, dual_ok) is Some <==> {
                &&& ty.player.0 != 0
                &&& ty.renderer.0 != 0
                &&& own("Object"@, "FindObjectsOfType"@, 1) || own(
                    "Object"@,
                    "FindObjectsOfType"@,
                    2,
                )
                &&& own("Object"@, "Instantiate"@, 1)
                &&& own("Shader"@, "Find"@, 1)
                &&& any("Component"@, "get_transform"@, 0)
                &&& own("Component"@, "GetComponent"@, 1)
                &&& any("Transform"@, "get_childCount"@, 0)
                &&& own("Transform"@, "GetChild"@, 1)
                &&& any("Renderer"@, "get_materials"@, 0)
                &&& any("Renderer"@, "get_sharedMaterials"@, 0)
                &&& any("Renderer"@, "set_materials"@, 1)
                &&& any("Renderer"@, "set_sharedMaterials"@, 1)
                &&& any("Material"@, "set_shader"@, 1)
                &&& own("Material"@, "SetColor"@, 2)
                &&& own("Material"@, "SetInt"@, 2)
                &&& own("Material"@, "SetFloat"@, 2)
                &&& any("Material"@, "set_renderQueue"@, 1)
            }
        }),
{
}

} // verus!
