//! The laws of looking classes, fields and methods up in the metadata.

use vstd::prelude::*;

use crate::http;
use crate::il2cpp;
use crate::il2cpp_abi::Layout;
use crate::il2cpp_runtime;
use crate::il2cpp_runtime::{Il2CppRuntime, ImageClasses};
use crate::memory;
use crate::runtime::{Class, Field, Image, Method, ScriptRuntime};
use crate::search;
use crate::text;

verus! {

/// The field entry of a class at a place in its array.
pub open spec fn field_here(m: Map<int, u8>, l: Layout, c: int, i: int, name: Seq<char>, e: int) -> bool {
    &&& memory::val(m, c + l.c_fields, 8) matches Some(p)
    &&& p != 0
    &&& e == p + i * l.f_stride
    &&& memory::has(m, e, l.f_stride as int)
    &&& il2cpp::str_val(m, e + l.f_name) == Some(name)
}

/// A class has a field of a name where one of its entries, as many as it says it
/// has, is readable and has that name; it is the first such one.
pub proof fn law_own_field(m: Map<int, u8>, l: Layout, c: int, name: Seq<char>, n: nat, f: Field)
    requires
        memory::val(m, c + l.c_field_count, 2) == Some(n),
    ensures
        il2cpp_runtime::own_field(m, l, c, name) == Some(f) ==> exists|i: int, e: int|
            0 <= i < n && f.0 == e as u64 && #[trigger] field_here(m, l, c, i, name, e) && (forall|
                j: int,
                x: int,
            |
                0 <= j < i ==> !#[trigger] field_here(m, l, c, j, name, x)),
        il2cpp_runtime::own_field(m, l, c, name) is None ==> forall|i: int, e: int|
            0 <= i < n ==> !#[trigger] field_here(m, l, c, i, name, e),
{
    let p = il2cpp_runtime::field_named(m, l, c, name);
    search::law_first_number(p, 0, n as int);
    assert forall|i: int| 0 <= i < n implies #[trigger] p(i) == (exists|e: int|
        field_here(m, l, c, i, name, e)) by {
        if p(i) {
            let e = il2cpp_runtime::field_entry(m, l, c, i)->0;
            assert(field_here(m, l, c, i, name, e));
        }
        if exists|e: int| field_here(m, l, c, i, name, e) {
            let e = choose|e: int| field_here(m, l, c, i, name, e);
            assert(il2cpp_runtime::field_entry(m, l, c, i) == Some(e));
        }
    }
    let found = search::first_from(p, 0, 1, n as int);
    if let Some(i) = found {
        let e = il2cpp_runtime::field_entry(m, l, c, i)->0;
        assert(p(i));
        assert(field_here(m, l, c, i, name, e));
        assert forall|j: int, x: int| 0 <= j < i implies !#[trigger] field_here(
            m,
            l,
            c,
            j,
            name,
            x,
        ) by {
            assert(!p(j));
        }
    } else {
        assert forall|i: int, e: int| 0 <= i < n implies !#[trigger] field_here(
            m,
            l,
            c,
            i,
            name,
            e,
        ) by {
            assert(!p(i));
        }
    }
}

/// The method record of a class at a place in its array.
pub open spec fn record_here(m: Map<int, u8>, l: Layout, c: int, i: int, x: int) -> bool {
    &&& memory::val(m, c + l.c_methods, 8) matches Some(arr)
    &&& arr != 0
    &&& memory::val(m, arr + i * 8, 8) matches Some(r)
    &&& r != 0
    &&& x == r
    &&& memory::has(m, x, 0x60)
}

/// A number in memory, 0 where it cannot be read.
pub open spec fn number_or_zero(m: Map<int, u8>, a: int, n: nat) -> nat {
    match memory::val(m, a, n) {
        Some(v) => v,
        None => 0,
    }
}

/// The name of a method, empty where it cannot be read.
pub open spec fn name_or_empty(m: Map<int, u8>, a: int) -> Seq<char> {
    match il2cpp::str_val(m, a) {
        Some(t) => t,
        None => Seq::empty(),
    }
}

/// The record is one that was asked for, by its name and number of arguments; by
/// rule 1 one without a type parameter, by rule 2 a static one.
pub open spec fn asked_for(
    m: Map<int, u8>,
    l: Layout,
    c: int,
    i: int,
    name: Seq<char>,
    argc: int,
    rule: int,
    x: int,
) -> bool {
    &&& record_here(m, l, c, i, x)
    &&& name_or_empty(m, x + l.m_name) == name
    &&& argc < 0 || number_or_zero(m, x + l.m_param_count, 1) == argc
    &&& rule == 1 ==> number_or_zero(m, x + l.m_bits, 1) % 2 == 0
    &&& rule == 2 ==> (number_or_zero(m, x + l.m_flags, 2) / 16) % 2 == 1
}

/// Of its own methods a class has the first that was asked for: of that name and
/// number of arguments, where a negative number fits any; one without a type
/// parameter, or a static one, where that is asked.
pub proof fn law_own_method(
    m: Map<int, u8>,
    l: Layout,
    c: int,
    name: Seq<char>,
    argc: int,
    n: nat,
    rule: int,
    r: Method,
)
    requires
        memory::val(m, c + l.c_method_count, 2) == Some(n),
        0 <= rule < 3,
        rule > 0 ==> argc >= 0,
    ensures
        ({
            let fits = if rule == 0 {
                il2cpp_runtime::method_fits(m, l, c, name, argc)
            } else if rule == 1 {
                il2cpp_runtime::exact_fits(m, l, c, name, argc)
            } else {
                il2cpp_runtime::static_fits(m, l, c, name, argc)
            };
            let found = il2cpp_runtime::first_method(m, l, c, fits);
            &&& found == Some(r) ==> exists|i: int, x: int|
                0 <= i < n && r.0 == x as u64 && #[trigger] asked_for(
                    m,
                    l,
                    c,
                    i,
                    name,
                    argc,
                    rule,
                    x,
                ) && (forall|j: int, y: int|
                    0 <= j < i ==> !#[trigger] asked_for(
                        m,
                        l,
                        c,
                        j,
                        name,
                        argc,
                        rule,
                        y,
                    ))
            &&& found is None ==> forall|i: int, x: int|
                0 <= i < n ==> !#[trigger] asked_for(
                    m,
                    l,
                    c,
                    i,
                    name,
                    argc,
                    rule,
                    x,
                )
        }),
{
    let p = if rule == 0 {
        il2cpp_runtime::method_fits(m, l, c, name, argc)
    } else if rule == 1 {
        il2cpp_runtime::exact_fits(m, l, c, name, argc)
    } else {
        il2cpp_runtime::static_fits(m, l, c, name, argc)
    };
    let s = il2cpp_runtime::slots(l);
    search::law_first_number(p, 0, n as int);
    assert forall|i: int, x: int| #[trigger]
        asked_for(m, l, c, i, name, argc, rule, x) implies p(i)
        && crate::il2cpp_abi::method_at(m, s, c, i) == Some(x as nat) by {}
    assert forall|i: int| #[trigger] p(i) implies asked_for(
        m,
        l,
        c,
        i,
        name,
        argc,
        rule,
        crate::il2cpp_abi::method_at(m, s, c, i)->0 as int,
    ) by {}
    let found = search::first_from(p, 0, 1, n as int);
    if let Some(i) = found {
        let x = crate::il2cpp_abi::method_at(m, s, c, i)->0 as int;
        assert(p(i));
        assert(asked_for(m, l, c, i, name, argc, rule, x));
        assert forall|j: int, y: int| 0 <= j < i implies !#[trigger] asked_for(
            m,
            l,
            c,
            j,
            name,
            argc,
            rule,
            y,
        ) by {
            assert(!p(j));
        }
    } else {
        assert forall|i: int, x: int| 0 <= i < n implies !#[trigger] asked_for(
            m,
            l,
            c,
            i,
            name,
            argc,
            rule,
            x,
        ) by {
            assert(!p(i));
        }
    }
}

/// A class without such a method has that of its base class, and none
/// where it has no other class above it.
pub proof fn law_method_inherited(rt: Il2CppRuntime<'_>, class: Class, name: Seq<char>, argc: int, b: nat)
    ensures
        ({
            let m = rt.mem@;
            let own = il2cpp_runtime::first_method(
                m,
                rt.l,
                class.0 as int,
                il2cpp_runtime::method_fits(m, rt.l, class.0 as int, name, argc),
            );
            let up = memory::val(m, class.0 + rt.l.c_parent, 8);
            &&& own is Some ==> rt.method_of(class, name, argc) == own
            &&& own is None && up == Some(b) && b != 0 && b != class.0 ==> rt.method_of(
                class,
                name,
                argc,
            ) == rt.method_of(Class(b as u64), name, argc)
            &&& own is None && (up is None || up == Some(0nat) || up == Some(class.0 as nat))
                ==> rt.method_of(class, name, argc) is None
        }),
{
    il2cpp_runtime::law_nearest_inherits(
        rt.mem@,
        rt.l,
        class.0 as int,
        il2cpp_runtime::has_method(rt.mem@, rt.l, name, argc),
    );
    memory::lemma_widths(rt.mem@, class.0 + rt.l.c_parent);
}

/// The same of fields.
pub proof fn law_field_above(rt: Il2CppRuntime<'_>, class: Class, name: Seq<char>, b: nat)
    ensures
        ({
            let m = rt.mem@;
            let own = il2cpp_runtime::own_field(m, rt.l, class.0 as int, name);
            let up = memory::val(m, class.0 + rt.l.c_parent, 8);
            &&& own is Some ==> rt.field_of(class, name) == own
            &&& own is None && up == Some(b) && b != 0 && b != class.0 ==> rt.field_of(class, name)
                == rt.field_of(Class(b as u64), name)
            &&& own is None && (up is None || up == Some(0nat) || up == Some(class.0 as nat))
                ==> rt.field_of(class, name) is None
        }),
{
    il2cpp_runtime::law_nearest_inherits(
        rt.mem@,
        rt.l,
        class.0 as int,
        il2cpp_runtime::has_field(rt.mem@, rt.l, name),
    );
    memory::lemma_widths(rt.mem@, class.0 + rt.l.c_parent);
}

/// What is read off a field and a method: the offset and the code, where the
/// layout says they stand.
pub proof fn law_read_off(rt: Il2CppRuntime<'_>, f: Field, r: Method)
    ensures
        memory::int_val(rt.mem@, f.0 + rt.l.f_offset) matches Some(v) ==> rt.offset_of(f) == v as i32,
        memory::int_val(rt.mem@, f.0 + rt.l.f_offset) is None ==> rt.offset_of(f) == 0,
        rt.native_of(r) is Some <==> (memory::val(rt.mem@, r.0 + rt.l.m_ptr, 8) matches Some(v)
            && v != 0),
        rt.native_of(r) matches Some(p) ==> memory::val(rt.mem@, r.0 + rt.l.m_ptr, 8) == Some(
            p as nat,
        ),
{
    memory::lemma_widths(rt.mem@, r.0 + rt.l.m_ptr);
}

/// An assembly's image is the first that has the assembly's name, whatever the
/// case and with or without `.dll`.
pub proof fn law_image(rt: Il2CppRuntime<'_>, assembly: Seq<char>, g: Image)
    ensures
        ({
            let named = |x: u64|
                x != 0 && (il2cpp::str_val(rt.mem@, x + rt.l.i_name) matches Some(t)
                    && text::same_but_case(text::without_tail(t, ".dll"@), assembly));
            &&& rt.image_of(assembly) == Some(g) ==> exists|i: int|
                0 <= i < rt.images@.len() && #[trigger] rt.images@[i] == g.0 && named(g.0)
                    && forall|j: int| 0 <= j < i ==> !named(#[trigger] rt.images@[j])
            &&& rt.image_of(assembly) is None <==> forall|i: int|
                0 <= i < rt.images@.len() ==> !named(#[trigger] rt.images@[i])
        }),
{
    let p = il2cpp_runtime::image_named(rt.mem@, rt.l, assembly);
    search::law_first_in(rt.images@, p);
}

/// The class of an image is the first of those listed for it that is readable
/// and has that namespace and name, whether the image was indexed or not, as
/// long as nothing was stopped.
pub proof fn law_class_found(
    rt: Il2CppRuntime<'_>,
    image: Image,
    namespace: Seq<char>,
    name: Seq<char>,
    c: Class,
)
    requires
        il2cpp_runtime::index_for(rt.indexes@, image) matches Some(e) ==> e
            == il2cpp_runtime::index_val(
            rt.mem@,
            rt.l,
            il2cpp_runtime::classes_in(rt.lists@, image),
        ),
        !rt.stopped || il2cpp_runtime::index_for(rt.indexes@, image) is Some,
    ensures
        ({
            let classes = il2cpp_runtime::classes_in(rt.lists@, image);
            let named = |x: u64|
                {
                    &&& memory::has(rt.mem@, x as int, 0x40)
                    &&& name_or_empty(rt.mem@, x + rt.l.c_name).len() > 0
                    &&& name_or_empty(rt.mem@, x + rt.l.c_name) == name
                    &&& name_or_empty(rt.mem@, x + rt.l.c_namespace) == namespace
                };
            &&& rt.class_of(image, namespace, name) == Some(c) ==> exists|i: int|
                0 <= i < classes.len() && #[trigger] classes[i] == c.0 && named(c.0) && forall|
                    j: int,
                |
                    0 <= j < i ==> !named(#[trigger] classes[j])
            &&& rt.class_of(image, namespace, name) is None <==> forall|i: int|
                0 <= i < classes.len() ==> !named(#[trigger] classes[i])
        }),
{
    let classes = il2cpp_runtime::classes_in(rt.lists@, image);
    il2cpp_runtime::law_index_exact(rt.mem@, rt.l, classes, namespace, name);
    search::law_first_in(classes, il2cpp_runtime::class_named(rt.mem@, rt.l, namespace, name));
}

/// The classes listed for an image are those of the first list with its name.
pub proof fn law_classes_listed(lists: Seq<ImageClasses>, image: Image, k: int)
    requires
        0 <= k < lists.len(),
        lists[k].image == image,
        forall|j: int| 0 <= j < k ==> (#[trigger] lists[j]).image != image,
    ensures
        il2cpp_runtime::classes_in(lists, image) == lists[k].classes@,
    decreases lists.len(),
{
    let d = lists.drop_last();
    if k < d.len() {
        assert(forall|j: int| 0 <= j < d.len() ==> #[trigger] d[j] == lists[j]);
        law_classes_listed(d, image, k);
        lemma_listed(d, image, k);
    } else {
        assert(forall|j: int| 0 <= j < d.len() ==> #[trigger] d[j] == lists[j]);
        lemma_unlisted(d, image);
    }
}

proof fn lemma_listed(lists: Seq<ImageClasses>, image: Image, k: int)
    requires
        0 <= k < lists.len(),
        lists[k].image == image,
    ensures
        il2cpp_runtime::list_for(lists, image) is Some,
    decreases lists.len(),
{
    if k < lists.len() - 1 {
        assert(lists.drop_last()[k] == lists[k]);
        lemma_listed(lists.drop_last(), image, k);
    }
}

proof fn lemma_unlisted(lists: Seq<ImageClasses>, image: Image)
    requires
        forall|j: int| 0 <= j < lists.len() ==> (#[trigger] lists[j]).image != image,
    ensures
        il2cpp_runtime::list_for(lists, image) is None,
    decreases lists.len(),
{
    if lists.len() > 0 {
        assert(forall|j: int|
            0 <= j < lists.len() - 1 ==> #[trigger] lists.drop_last()[j] == lists[j]);
        lemma_unlisted(lists.drop_last(), image);
        assert(lists[lists.len() - 1].image != image);
    }
}

// ── dumps ────────────────────────────────────────────────────────────────────

/// The fields of a class are all its entries that are readable and have a name,
/// in their order, each with its offset.
pub proof fn law_fields_dumped(m: Map<int, u8>, l: Layout, c: int, n: nat, p: nat)
    requires
        memory::val(m, c + l.c_fields, 8) == Some(p),
        p != 0,
    ensures
        il2cpp_runtime::own_fields(m, l, c, n) == Seq::new(n, |i: int| p + i * l.f_stride).filter(
            |e: int| memory::has(m, e, l.f_stride as int) && name_or_empty(m, e + l.f_name).len() > 0,
        ).map_values(
            |e: int|
                (
                    name_or_empty(m, e + l.f_name),
                    match memory::int_val(m, e + l.f_offset) {
                        Some(v) => v,
                        None => -1,
                    },
                ),
        ),
    decreases n,
{
    let keep = |e: int|
        memory::has(m, e, l.f_stride as int) && name_or_empty(m, e + l.f_name).len() > 0;
    let show = |e: int|
        (
            name_or_empty(m, e + l.f_name),
            match memory::int_val(m, e + l.f_offset) {
                Some(v) => v,
                None => -1,
            },
        );
    let all = Seq::new(n, |i: int| p + i * l.f_stride);
    reveal(Seq::filter);
    if n > 0 {
        law_fields_dumped(m, l, c, (n - 1) as nat, p);
        assert(all.drop_last() =~= Seq::new((n - 1) as nat, |i: int| p + i * l.f_stride));
        let e = all.last();
        assert(e == p + (n - 1) * l.f_stride);
        assert(all.filter(keep) == if keep(e) {
            all.drop_last().filter(keep).push(e)
        } else {
            all.drop_last().filter(keep)
        });
    }
    assert(il2cpp_runtime::own_fields(m, l, c, n) =~= all.filter(keep).map_values(show));
}

/// Behind its own fields come those of its base class, and so on, 32 classes at
/// most.
pub proof fn law_fields_above(m: Map<int, u8>, l: Layout, c: int, b: nat, n: nat)
    requires
        n > 1,
    ensures
        ({
            let own = il2cpp_runtime::own_fields(
                m,
                l,
                c,
                number_or_zero(m, c + l.c_field_count, 2),
            );
            let up = memory::val(m, c + l.c_parent, 8);
            &&& up == Some(b) && b != 0 && b != c ==> il2cpp_runtime::all_fields(m, l, c, n) == own
                + il2cpp_runtime::all_fields(m, l, b as int, (n - 1) as nat)
            &&& up is None || up == Some(0nat) || (up == Some(b) && b == c)
                ==> il2cpp_runtime::all_fields(m, l, c, n) == own
            &&& il2cpp_runtime::all_fields(m, l, c, 1) == own
            &&& il2cpp_runtime::DUMP_DEPTH == 32
        }),
{
}

/// The methods of a class are all its records that are readable and have a
/// name, in their order.
pub proof fn law_methods_dumped(m: Map<int, u8>, l: Layout, c: int, n: nat, arr: nat)
    requires
        memory::val(m, c + l.c_methods, 8) == Some(arr),
        arr != 0,
    ensures
        il2cpp_runtime::own_methods(m, l, c, n) == Seq::new(
            n,
            |i: int| number_or_zero(m, arr + i * 8, 8) as int,
        ).filter(
            |x: int| x != 0 && memory::has(m, x, 0x60) && name_or_empty(m, x + l.m_name).len() > 0,
        ).map_values(
            |x: int|
                (
                    name_or_empty(m, x + l.m_name),
                    number_or_zero(m, x + l.m_param_count, 1),
                    (number_or_zero(m, x + l.m_flags, 2) / 16) % 2 == 1,
                    number_or_zero(m, x + l.m_ptr, 8),
                ),
        ),
    decreases n,
{
    let keep = |x: int|
        x != 0 && memory::has(m, x, 0x60) && name_or_empty(m, x + l.m_name).len() > 0;
    let show = |x: int|
        (
            name_or_empty(m, x + l.m_name),
            number_or_zero(m, x + l.m_param_count, 1),
            (number_or_zero(m, x + l.m_flags, 2) / 16) % 2 == 1,
            number_or_zero(m, x + l.m_ptr, 8),
        );
    let all = Seq::new(n, |i: int| number_or_zero(m, arr + i * 8, 8) as int);
    reveal(Seq::filter);
    if n > 0 {
        law_methods_dumped(m, l, c, (n - 1) as nat, arr);
        assert(all.drop_last() =~= Seq::new(
            (n - 1) as nat,
            |i: int| number_or_zero(m, arr + i * 8, 8) as int,
        ));
        let x = all.last();
        assert(all.filter(keep) == if keep(x) {
            all.drop_last().filter(keep).push(x)
        } else {
            all.drop_last().filter(keep)
        });
    }
    assert(il2cpp_runtime::own_methods(m, l, c, n) =~= all.filter(keep).map_values(show));
}

/// Behind its own methods come those of its base class, and so on.
pub proof fn law_methods_above(m: Map<int, u8>, l: Layout, c: int, b: nat, n: nat)
    requires
        n > 1,
    ensures
        ({
            let own = il2cpp_runtime::own_methods(
                m,
                l,
                c,
                number_or_zero(m, c + l.c_method_count, 2),
            );
            let up = memory::val(m, c + l.c_parent, 8);
            &&& up == Some(b) && b != 0 && b != c ==> il2cpp_runtime::all_methods(m, l, c, n) == own
                + il2cpp_runtime::all_methods(m, l, b as int, (n - 1) as nat)
            &&& up is None || up == Some(0nat) || (up == Some(b) && b == c)
                ==> il2cpp_runtime::all_methods(m, l, c, n) == own
            &&& il2cpp_runtime::all_methods(m, l, c, 1) == own
        }),
{
}

// ── strings ──────────────────────────────────────────────────────────────────

proof fn lemma_units_front(c: char, t: Seq<char>)
    ensures
        http::units_of(seq![c] + t) == http::char_units(c) + http::units_of(t),
    decreases t.len(),
{
    let s = seq![c] + t;
    if t.len() == 0 {
        assert(s =~= seq![c]);
        assert(s.drop_last() =~= Seq::<char>::empty());
        assert(t =~= Seq::<char>::empty());
        assert(http::units_of(Seq::<char>::empty()) =~= Seq::<u16>::empty());
        assert(s.last() == c);
        assert(http::units_of(s) == Seq::<u16>::empty() + http::char_units(c));
        assert(http::units_of(s) =~= http::char_units(c) + http::units_of(t));
    } else {
        assert(s.drop_last() =~= seq![c] + t.drop_last());
        lemma_units_front(c, t.drop_last());
        assert(http::units_of(s) =~= http::char_units(c) + http::units_of(t));
    }
}

proof fn lemma_code(c: char)
    ensures
        c as int <= 0xd7ff || 0xe000 <= c as int <= 0x10ffff,
        (c as u32) < 0x1_0000 ==> (c as u32 as u16) as char == c && (c as u32 as u16) as int
            == c as int,
        (c as u32) >= 0x1_0000 ==> {
            let u = http::char_units(c);
            &&& u.len() == 2
            &&& 0xD800 <= u[0] < 0xDC00
            &&& 0xDC00 <= u[1] < 0xE000
            &&& 0x1_0000 + (u[0] - 0xD800) * 0x400 + (u[1] - 0xDC00) == c as int
        },
{
}

/// A text written as 16-bit units and read from them again is the text.
pub proof fn law_units_round_trip(s: Seq<char>)
    ensures
        il2cpp_runtime::decoded(http::units_of(s)) == Some(s),
    decreases s.len(),
{
    let u = http::units_of(s);
    if s.len() == 0 {
        assert(u =~= Seq::empty());
        assert(il2cpp_runtime::decoded(u)->0 =~= s);
    } else {
        let c = s[0];
        let t = s.skip(1);
        assert(s =~= seq![c] + t);
        lemma_units_front(c, t);
        law_units_round_trip(t);
        let w = http::units_of(t);
        lemma_code(c);
        if (c as u32) < 0x1_0000 {
            assert(http::char_units(c) =~= seq![c as u32 as u16]);
            assert(u.skip(1) =~= w);
            assert(u[0] == c as u32);
            assert(!(0xD800 <= u[0] < 0xE000));
            assert(u[0] as char == c);
            assert(il2cpp_runtime::decoded(u) == Some(seq![c] + t));
        } else {
            let pair = http::char_units(c);
            assert(u.skip(2) =~= w);
            assert(u[0] == pair[0] && u[1] == pair[1]);
            assert((0x1_0000 + (u[0] - 0xD800) * 0x400 + (u[1] - 0xDC00)) as char == c);
            assert(il2cpp_runtime::decoded(u) == Some(seq![c] + t));
        }
    }
}

/// A string object whose length and units stand where they should is the text
/// that the units say; its length is at most 65535.
pub proof fn law_string(m: Map<int, u8>, p: int, s_len: int, s_chars: int, t: Seq<char>)
    requires
        memory::int_val(m, p + s_len) == Some(http::units_of(t).len() as int),
        forall|i: int|
            0 <= i < http::units_of(t).len() ==> memory::val(m, p + s_chars + 2 * i, 2) == Some(
                (#[trigger] http::units_of(t)[i]) as nat,
            ),
    ensures
        http::units_of(t).len() <= 0xffff ==> il2cpp_runtime::string_val(m, p, s_len, s_chars)
            == Some(t),
        http::units_of(t).len() > 0xffff ==> il2cpp_runtime::string_val(m, p, s_len, s_chars) is None,
{
    lemma_units_read(m, p + s_chars, http::units_of(t), http::units_of(t).len());
    law_units_round_trip(t);
    assert(http::units_of(t).take(http::units_of(t).len() as int) =~= http::units_of(t));
}

proof fn lemma_units_read(m: Map<int, u8>, a: int, u: Seq<u16>, n: nat)
    requires
        n <= u.len(),
        forall|i: int|
            0 <= i < u.len() ==> memory::val(m, a + 2 * i, 2) == Some((#[trigger] u[i]) as nat),
    ensures
        il2cpp_runtime::units(m, a, n) == Some(u.take(n as int)),
    decreases n,
{
    if n > 0 {
        lemma_units_read(m, a, u, (n - 1) as nat);
        assert(memory::val(m, a + 2 * (n - 1), 2) == Some(u[n - 1] as nat));
        assert(u.take(n - 1).push(u[n - 1]) =~= u.take(n as int));
    } else {
        assert(u.take(0) =~= Seq::empty());
    }
}

/// Where a string has its length is found on a string of known text: the length
/// stands there, and the units behind it.
pub proof fn law_string_probe(m: Map<int, u8>, s: int, off: int)
    ensures
        il2cpp_runtime::string_fits(m, s)(off) <==> {
            &&& memory::int_val(m, s + off) == Some("il2cppProbe"@.len() as int)
            &&& forall|i: int|
                0 <= i < "il2cppProbe"@.len() ==> memory::val(m, s + off + 4 + 2 * i, 2) == Some(
                    (#[trigger] "il2cppProbe"@[i]) as u32 as nat,
                )
        },
{
}

} // verus!
