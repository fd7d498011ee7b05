//! Finding the layout of the runtime's metadata structures.
//!
//! No offset is a constant. Each is the first, or the best, candidate that fits
//! what the metadata must say of itself whatever the build: the core library
//! holds `System.Object` and `System.String`, String's parent is Object, a field
//! and a method point back at the class that owns them, a method's code lies in
//! the module's own image, `String::get_Length` takes no argument and
//! `String::IsNullOrEmpty` is static and takes one. The reference layout at the
//! end is compared with, never read from.

use vstd::prelude::*;

use crate::il2cpp;
use crate::il2cpp::{is_identifier, is_namespace, str_at};
use crate::memory;
use crate::memory::Memory;
use crate::search;
use crate::search::{best_where, count_where, find_where, first_where, keep_where, spread_of};
use crate::text;
use crate::text::{copy_of, push_hex, same, starts_with};

verus! {

/// Where the fields of the metadata structures lie.
#[derive(Debug, Clone, Copy, PartialEq, Eq, Structural)]
pub struct Layout {
    pub c_name: u64,
    pub c_namespace: u64,
    pub c_byval: u64,
    pub c_parent: u64,
    pub c_fields: u64,
    pub c_field_count: u64,
    pub c_methods: u64,
    pub c_method_count: u64,
    pub f_name: u64,
    pub f_parent: u64,
    pub f_offset: u64,
    pub f_stride: u64,
    pub m_ptr: u64,
    pub m_name: u64,
    pub m_klass: u64,
    pub m_flags: u64,
    pub m_param_count: u64,
    pub m_bits: u64,
    pub i_name: u64,
}

/// The attribute bit of a static method.
pub const ATTR_STATIC: u16 = 0x0010;

/// How much of a class must be readable for it to count as one.
pub const CLASS_WINDOW: u64 = 0x180;

/// How many classes the cheap passes look at.
pub const SAMPLE_MAX: usize = 4096;

/// How many of them, evenly spread, the expensive passes look at.
pub const PROBE_MAX: usize = 192;

/// Why no layout was found.
#[derive(Debug, Clone, Copy, PartialEq, Eq, Structural)]
pub enum CalibrationError {
    NoCorlib,
    TooFewClasses,
    TooFewReadable,
    NoClassName,
    NoNamespace,
    NoAnchors,
    NoByval,
    NoParent,
    NoFields,
    NoFieldCount,
    NoFieldOffset,
    NoMethods,
    NoMethodCount,
    NoMethodPointer,
    NoStringMethods,
    NoParamCount,
    NoFlags,
    BadBits,
    NoImageName,
    Aborted,
}

// ── what is looked for ───────────────────────────────────────────────────────

/// The pointer at `a` leads to a text that reads `t`.
pub open spec fn text_is(m: Map<int, u8>, a: int, t: Seq<char>) -> bool {
    il2cpp::str_val(m, a) == Some(t)
}

/// The pointer at `a` leads to an identifier.
pub open spec fn ident_at(m: Map<int, u8>, a: int) -> bool {
    il2cpp::str_val(m, a) matches Some(s) && il2cpp::identifier(s)
}

/// The pointer at `a` leads to the name of a namespace.
pub open spec fn names_space(m: Map<int, u8>, a: int) -> bool {
    il2cpp::str_val(m, a) matches Some(s) && il2cpp::namespace_text(s)
}

/// The pointer at `a` leads to `p`.
pub open spec fn points_to(m: Map<int, u8>, a: int, p: int) -> bool {
    memory::ptr_val(m, a) matches Some(q) && q == p
}

/// The classes of which `CLASS_WINDOW` bytes are readable.
pub open spec fn is_class(m: Map<int, u8>) -> spec_fn(u64) -> bool {
    |c: u64| memory::has(m, c as int, CLASS_WINDOW as int)
}

/// The classes that the cheap passes look at.
pub open spec fn samples_of(m: Map<int, u8>, classes: Seq<u64>) -> Seq<u64> {
    classes.take(
        if classes.len() < SAMPLE_MAX {
            classes.len() as int
        } else {
            SAMPLE_MAX as int
        },
    ).filter(is_class(m))
}

/// The distance between two probed classes.
pub open spec fn probe_step(n: nat) -> int {
    if n / (PROBE_MAX as nat) > 1 {
        (n / (PROBE_MAX as nat)) as int
    } else {
        1
    }
}

/// The classes that the expensive passes look at.
pub open spec fn probes_of(samples: Seq<u64>) -> Seq<u64> {
    search::spread(samples, probe_step(samples.len()), 0, PROBE_MAX as nat)
}

/// A class whose text at `off` is an identifier.
pub open spec fn named_at(m: Map<int, u8>, off: int) -> spec_fn(u64) -> bool {
    |c: u64| ident_at(m, c + off)
}

/// A class whose text at `off` reads `t`.
pub open spec fn reads_at(m: Map<int, u8>, off: int, t: Seq<char>) -> spec_fn(u64) -> bool {
    |c: u64| text_is(m, c + off, t)
}

/// A class whose text at `off` is the name of a namespace.
pub open spec fn spaced_at(m: Map<int, u8>, off: int) -> spec_fn(u64) -> bool {
    |c: u64| names_space(m, c + off)
}

/// How many names an offset yields, where Object and String are among them.
pub open spec fn name_score(m: Map<int, u8>, cs: Seq<u64>) -> spec_fn(int) -> nat {
    |off: int|
        if search::first_in(cs, reads_at(m, off, "Object"@)) is Some && search::first_in(
            cs,
            reads_at(m, off, "String"@),
        ) is Some {
            search::count_if(cs, named_at(m, off))
        } else {
            0
        }
}

/// How often an offset reads "System", where most classes have a namespace
/// there.
pub open spec fn namespace_score(m: Map<int, u8>, cs: Seq<u64>, c_name: int) -> spec_fn(int) -> nat {
    |off: int|
        if off != c_name && search::count_if(cs, spaced_at(m, off)) > cs.len() / 2 {
            search::count_if(cs, reads_at(m, off, "System"@))
        } else {
            0
        }
}

/// The class `System.t`.
pub open spec fn in_system(
    m: Map<int, u8>,
    c_name: int,
    c_namespace: int,
    t: Seq<char>,
) -> spec_fn(u64) -> bool {
    |c: u64| text_is(m, c + c_name, t) && text_is(m, c + c_namespace, "System"@)
}

/// The element type in the type record at `x` of a class.
pub open spec fn element_of(m: Map<int, u8>, c: int, x: int) -> Option<nat> {
    match memory::val(m, c + x + 8, 4) {
        Some(v) => Some((v / 0x1_0000) % 256),
        None => None,
    }
}

/// A class with one sound element type in the records at `x` and after it.
pub open spec fn typed_at(m: Map<int, u8>, x: int) -> spec_fn(u64) -> bool {
    |c: u64|
        {
            &&& element_of(m, c as int, x) matches Some(t)
            &&& 1 <= t <= 0x20
            &&& element_of(m, c as int, x + 0x10) == Some(t)
        }
}

/// An offset at which String, Object and Int32 have their own element types,
/// and most classes a sound one.
pub open spec fn byval_fits(
    m: Map<int, u8>,
    cs: Seq<u64>,
    a_str: int,
    a_obj: int,
    a_i32: int,
) -> spec_fn(int) -> bool {
    |x: int|
        {
            &&& element_of(m, a_str, x) == Some(0x0enat)
            &&& element_of(m, a_obj, x) == Some(0x1cnat)
            &&& element_of(m, a_i32, x) == Some(0x08nat)
            &&& search::count_if(cs, typed_at(m, x)) > cs.len() / 2
        }
}

/// A class that points at another one with a name.
pub open spec fn derived_at(m: Map<int, u8>, c_name: int, off: int) -> spec_fn(u64) -> bool {
    |c: u64|
        {
            &&& memory::ptr_val(m, c + off) matches Some(p)
            &&& p != c
            &&& memory::has(m, p as int, CLASS_WINDOW as int)
            &&& ident_at(m, p + c_name)
        }
}

/// How many classes point at another one, where String points at Object.
pub open spec fn parent_score(
    m: Map<int, u8>,
    cs: Seq<u64>,
    c_name: int,
    c_byval: int,
    a_str: int,
) -> spec_fn(int) -> nat {
    |off: int|
        if off != c_byval && (memory::ptr_val(m, a_str + off) matches Some(p) && text_is(
            m,
            p + c_name,
            "Object"@,
        )) {
            search::count_if(cs, derived_at(m, c_name, off))
        } else {
            0
        }
}

/// The three offsets that the number of a field candidate stands for: of the
/// array in the class, of the owner and of the name in the entry.
pub open spec fn field_slots(k: int) -> (int, int, int) {
    ((k / 16) * 8, ((k / 4) % 4) * 8, (k % 4) * 8)
}

/// A class whose array at `off` starts with an entry that has the class at `fp`
/// and a name at `fnm`.
pub open spec fn field_at(m: Map<int, u8>, off: int, fp: int, fnm: int) -> spec_fn(u64) -> bool {
    |c: u64|
        {
            &&& memory::ptr_val(m, c + off) matches Some(p)
            &&& memory::has(m, p as int, 0x20)
            &&& points_to(m, p + fp, c as int)
            &&& ident_at(m, p + fnm)
        }
}

pub open spec fn field_score(m: Map<int, u8>, ps: Seq<u64>) -> spec_fn(int) -> nat {
    |k: int|
        if field_slots(k).1 == field_slots(k).2 {
            0
        } else {
            search::count_if(
                ps,
                field_at(m, field_slots(k).0, field_slots(k).1, field_slots(k).2),
            )
        }
}

/// A class whose second field entry, `stride` after the first, has the class as
/// its owner.
pub open spec fn strided_at(m: Map<int, u8>, c_fields: int, f_parent: int, stride: int) -> spec_fn(
    u64,
) -> bool {
    |c: u64|
        {
            &&& memory::ptr_val(m, c + c_fields) matches Some(p)
            &&& memory::has(m, p as int, stride * 2)
            &&& points_to(m, p + stride + f_parent, c as int)
        }
}

/// Whether eight probed classes have a second entry that far from the first.
pub open spec fn stride_fits(
    m: Map<int, u8>,
    ps: Seq<u64>,
    c_fields: int,
    f_parent: int,
    stride: int,
) -> bool {
    search::count_if(ps, strided_at(m, c_fields, f_parent, stride)) >= 8
}

/// The distance between two field entries.
pub open spec fn stride_of(m: Map<int, u8>, ps: Seq<u64>, c_fields: int, f_parent: int) -> int {
    if stride_fits(m, ps, c_fields, f_parent, 0x20) {
        0x20
    } else if stride_fits(m, ps, c_fields, f_parent, 0x18) {
        0x18
    } else if stride_fits(m, ps, c_fields, f_parent, 0x28) {
        0x28
    } else if stride_fits(m, ps, c_fields, f_parent, 0x30) {
        0x30
    } else if stride_fits(m, ps, c_fields, f_parent, 0x10) {
        0x10
    } else {
        0x20
    }
}

/// What is known of the field entries.
#[derive(Debug, Clone, Copy, PartialEq, Eq, Structural)]
pub struct FieldSlots {
    pub c_fields: u64,
    pub f_name: u64,
    pub f_parent: u64,
    pub f_stride: u64,
}

/// The address of entry `i`, `p` being the start of the array.
pub open spec fn entry_addr(s: FieldSlots, p: int, i: int) -> int {
    p + i * s.f_stride
}

/// Entry `i` is readable and has the class as its owner.
pub open spec fn entry_owned(m: Map<int, u8>, s: FieldSlots, c: int, i: int) -> bool {
    &&& memory::ptr_val(m, c + s.c_fields) matches Some(p)
    &&& memory::has(m, entry_addr(s, p as int, i), s.f_stride as int)
    &&& points_to(m, entry_addr(s, p as int, i) + s.f_parent, c)
}

/// Entry `i` is a field of the class.
pub open spec fn field_ok(m: Map<int, u8>, s: FieldSlots, c: int, i: int) -> bool {
    &&& entry_owned(m, s, c, i)
    &&& memory::ptr_val(m, c + s.c_fields) matches Some(p)
    &&& ident_at(m, entry_addr(s, p as int, i) + s.f_name)
}

/// The lesser of two numbers.
pub open spec fn lesser(a: int, b: int) -> int {
    if a < b {
        a
    } else {
        b
    }
}

/// A class whose number at `off` says how many fields it has: the first of
/// them are fields, what follows the last is none.
pub open spec fn counts_fields(m: Map<int, u8>, s: FieldSlots, off: int) -> spec_fn(u64) -> bool {
    |c: u64|
        {
            &&& memory::val(m, c + off, 2) matches Some(v)
            &&& 1 <= v <= 400
            &&& forall|i: int| 0 <= i < lesser(v as int, 6) ==> #[trigger] field_ok(m, s, c as int, i)
            &&& !field_ok(m, s, c as int, v as int)
        }
}

pub open spec fn field_count_score(m: Map<int, u8>, ps: Seq<u64>, s: FieldSlots) -> spec_fn(
    int,
) -> nat {
    |off: int| search::count_if(ps, counts_fields(m, s, off))
}

/// The addresses of the entries below `n` that have the class as their owner.
pub open spec fn owned_entries(m: Map<int, u8>, s: FieldSlots, c: int, n: nat) -> Seq<u64>
    decreases n,
{
    if n == 0 {
        Seq::empty()
    } else {
        let before = owned_entries(m, s, c, (n - 1) as nat);
        if entry_owned(m, s, c, n - 1) {
            before.push(entry_addr(s, memory::ptr_val(m, c + s.c_fields)->0 as int, n - 1) as u64)
        } else {
            before
        }
    }
}

/// An entry that holds a pointer at `slot` to something readable.
pub open spec fn holds_ptr(m: Map<int, u8>, slot: int) -> spec_fn(u64) -> bool {
    |e: u64| memory::ptr_val(m, e + slot) matches Some(p) && memory::has(m, p as int, 1)
}

/// An entry whose number at `off` is `v`.
pub open spec fn holds_int(m: Map<int, u8>, off: int, v: int) -> spec_fn(u64) -> bool {
    |e: u64| memory::int_val(m, e + off) == Some(v)
}

/// An offset, not in a slot that mostly holds pointers, at which one entry has
/// `s_len` and one has `s_chars`.
pub open spec fn offset_fits(m: Map<int, u8>, es: Seq<u64>, s_len: int, s_chars: int) -> spec_fn(
    int,
) -> bool {
    |x: int|
        {
            &&& search::count_if(es, holds_ptr(m, (x / 8) * 8)) * 2 <= es.len()
            &&& search::first_in(es, holds_int(m, x, s_len)) is Some
            &&& search::first_in(es, holds_int(m, x, s_chars)) is Some
        }
}

/// What was found of the class structure, and the class of strings.
#[derive(Debug, Clone, Copy, PartialEq, Eq, Structural)]
pub struct ClassPart {
    pub c_name: u64,
    pub c_namespace: u64,
    pub c_byval: u64,
    pub c_parent: u64,
    pub a_str: u64,
}

/// What the class structure is, found on the samples `cs`.
pub open spec fn class_part(m: Map<int, u8>, cs: Seq<u64>) -> Result<ClassPart, CalibrationError> {
    let name = search::best(name_score(m, cs), 0, 8, 16);
    let space = search::best(namespace_score(m, cs, name.1), 0, 8, 12);
    if name.0 == 0 {
        Err(CalibrationError::NoClassName)
    } else if space.0 == 0 {
        Err(CalibrationError::NoNamespace)
    } else {
        match (
            search::first_in(cs, in_system(m, name.1, space.1, "String"@)),
            search::first_in(cs, in_system(m, name.1, space.1, "Object"@)),
            search::first_in(cs, in_system(m, name.1, space.1, "Int32"@)),
        ) {
            (Some(a_str), Some(a_obj), Some(a_i32)) => match search::first_from(
                byval_fits(m, cs, a_str as int, a_obj as int, a_i32 as int),
                0x18,
                8,
                0x80,
            ) {
                Some(byval) => {
                    let parent = search::best(
                        parent_score(m, cs, name.1, byval, a_str as int),
                        0,
                        8,
                        20,
                    );
                    if parent.0 == 0 {
                        Err(CalibrationError::NoParent)
                    } else {
                        Ok(
                            ClassPart {
                                c_name: name.1 as u64,
                                c_namespace: space.1 as u64,
                                c_byval: byval as u64,
                                c_parent: parent.1 as u64,
                                a_str,
                            },
                        )
                    }
                },
                None => Err(CalibrationError::NoByval),
            },
            _ => Err(CalibrationError::NoAnchors),
        }
    }
}

/// What was found of the field structure.
#[derive(Debug, Clone, Copy, PartialEq, Eq, Structural)]
pub struct FieldPart {
    pub slots: FieldSlots,
    pub c_field_count: u64,
    pub f_offset: u64,
}

/// The field entries as candidate `k` has them.
pub open spec fn slots_of(m: Map<int, u8>, ps: Seq<u64>, k: int) -> FieldSlots {
    FieldSlots {
        c_fields: field_slots(k).0 as u64,
        f_parent: field_slots(k).1 as u64,
        f_name: field_slots(k).2 as u64,
        f_stride: stride_of(m, ps, field_slots(k).0, field_slots(k).1) as u64,
    }
}

/// How many fields the number at `c + off` says, at most 16.
pub open spec fn few_fields(m: Map<int, u8>, c: int, off: int) -> nat {
    match memory::val(m, c + off, 2) {
        Some(v) => lesser(v as int, 16) as nat,
        None => 0,
    }
}

/// What the field structure is, found on the probes `ps` and on String's own
/// fields.
pub open spec fn field_part(
    m: Map<int, u8>,
    ps: Seq<u64>,
    a_str: u64,
    s_len: i32,
    s_chars: i32,
) -> Result<FieldPart, CalibrationError> {
    let votes = search::best(field_score(m, ps), 0, 1, 768);
    let slots = slots_of(m, ps, votes.1);
    let count = search::best(field_count_score(m, ps, slots), 0x80, 2, 128);
    let entries = owned_entries(m, slots, a_str as int, few_fields(m, a_str as int, count.1));
    if votes.0 == 0 {
        Err(CalibrationError::NoFields)
    } else if count.0 < 8 {
        Err(CalibrationError::NoFieldCount)
    } else {
        match search::first_from(
            offset_fits(m, entries, s_len as int, s_chars as int),
            0,
            4,
            slots.f_stride as int,
        ) {
            Some(off) => Ok(
                FieldPart { slots, c_field_count: count.1 as u64, f_offset: off as u64 },
            ),
            None => Err(CalibrationError::NoFieldOffset),
        }
    }
}

// ── finding the class structure ──────────────────────────────────────────────

fn reads(mem: &Memory, p: u64, off: u64, t: &str) -> (r: bool)
    requires
        mem.wf(),
    ensures
        r == text_is(mem@, p + off, t@),
{
    match str_at(mem, p, off) {
        Some(s) => same(s.as_str(), t),
        None => false,
    }
}

fn named(mem: &Memory, p: u64, off: u64) -> (r: bool)
    requires
        mem.wf(),
    ensures
        r == ident_at(mem@, p + off),
{
    match str_at(mem, p, off) {
        Some(s) => is_identifier(s.as_str()),
        None => false,
    }
}

fn spaced(mem: &Memory, p: u64, off: u64) -> (r: bool)
    requires
        mem.wf(),
    ensures
        r == names_space(mem@, p + off),
{
    match str_at(mem, p, off) {
        Some(s) => is_namespace(s.as_str()),
        None => false,
    }
}

fn leads_to(mem: &Memory, p: u64, off: u64, q: u64) -> (r: bool)
    requires
        mem.wf(),
    ensures
        r == points_to(mem@, p + off, q as int),
{
    match mem.read_ptr(p, off) {
        Some(x) => x == q,
        None => false,
    }
}

fn count_reading(mem: &Memory, cs: &Vec<u64>, off: u64, t: &str) -> (n: usize)
    requires
        mem.wf(),
    ensures
        n == search::count_if(cs@, reads_at(mem@, off as int, t@)),
{
    let ghost p = reads_at(mem@, off as int, t@);
    let f = |c: u64| -> (b: bool)
        requires
            mem.wf(),
        ensures
            b == p(c),
        { reads(mem, c, off, t) };
    count_where(
        cs,
        f,
        Ghost(p),
    )
}

fn any_reading(mem: &Memory, cs: &Vec<u64>, off: u64, t: &str) -> (r: bool)
    requires
        mem.wf(),
    ensures
        r == (search::first_in(cs@, reads_at(mem@, off as int, t@)) is Some),
{
    let ghost p = reads_at(mem@, off as int, t@);
    let f = |c: u64| -> (b: bool)
        requires
            mem.wf(),
        ensures
            b == p(c),
        { reads(mem, c, off, t) };
    find_where(
        cs,
        f,
        Ghost(p),
    ).is_some()
}

fn score_name(mem: &Memory, cs: &Vec<u64>, off: u64) -> (n: usize)
    requires
        mem.wf(),
    ensures
        n == name_score(mem@, cs@)(off as int),
{
    if any_reading(mem, cs, off, "Object") && any_reading(mem, cs, off, "String") {
        let ghost p = named_at(mem@, off as int);
        let f = |c: u64| -> (b: bool)
            requires
                mem.wf(),
            ensures
                b == p(c),
            { named(mem, c, off) };
        count_where(
            cs,
            f,
            Ghost(p),
        )
    } else {
        0
    }
}

fn score_namespace(mem: &Memory, cs: &Vec<u64>, c_name: u64, off: u64) -> (n: usize)
    requires
        mem.wf(),
    ensures
        n == namespace_score(mem@, cs@, c_name as int)(off as int),
{
    if off == c_name {
        return 0;
    }
    let ghost p = spaced_at(mem@, off as int);
    let f = |c: u64| -> (b: bool)
        requires
            mem.wf(),
        ensures
            b == p(c),
        { spaced(mem, c, off) };
    let ok: usize = count_where(
        cs,
        f,
        Ghost(p),
    );
    if ok > cs.len() / 2 {
        count_reading(mem, cs, off, "System")
    } else {
        0
    }
}

fn find_sys(mem: &Memory, cs: &Vec<u64>, c_name: u64, c_namespace: u64, t: &str) -> (r: Option<u64>)
    requires
        mem.wf(),
    ensures
        r == search::first_in(cs@, in_system(mem@, c_name as int, c_namespace as int, t@)),
{
    let ghost p = in_system(mem@, c_name as int, c_namespace as int, t@);
    let f = |c: u64| -> (b: bool)
        requires
            mem.wf(),
        ensures
            b == p(c),
        { reads(mem, c, c_name, t) && reads(mem, c, c_namespace, "System") };
    find_where(
        cs,
        f,
        Ghost(p),
    )
}

fn element(mem: &Memory, c: u64, x: u64) -> (r: Option<u8>)
    requires
        mem.wf(),
        x <= 0x1000,
    ensures
        r matches Some(t) ==> element_of(mem@, c as int, x as int) == Some(t as nat),
        r is None ==> element_of(mem@, c as int, x as int) is None,
{
    match mem.read_u32(c, x + 8) {
        Some(v) => {
            let t: u32 = (v / 0x1_0000) % 256;
            Some(t as u8)
        },
        None => None,
    }
}

fn typed(mem: &Memory, c: u64, x: u64) -> (r: bool)
    requires
        mem.wf(),
        x <= 0x100,
    ensures
        r == typed_at(mem@, x as int)(c),
{
    match element(mem, c, x) {
        Some(t) => 1 <= t && t <= 0x20 && match element(mem, c, x + 0x10) {
            Some(u) => u == t,
            None => false,
        },
        None => false,
    }
}

fn has_element(mem: &Memory, c: u64, x: u64, want: u8) -> (r: bool)
    requires
        mem.wf(),
        x <= 0x100,
    ensures
        r == (element_of(mem@, c as int, x as int) == Some(want as nat)),
{
    match element(mem, c, x) {
        Some(t) => t == want,
        None => false,
    }
}

fn fits_byval(mem: &Memory, cs: &Vec<u64>, a_str: u64, a_obj: u64, a_i32: u64, x: u64) -> (r: bool)
    requires
        mem.wf(),
        x <= 0x80,
    ensures
        r == byval_fits(mem@, cs@, a_str as int, a_obj as int, a_i32 as int)(x as int),
{
    if !has_element(mem, a_str, x, 0x0e) || !has_element(mem, a_obj, x, 0x1c) || !has_element(
        mem,
        a_i32,
        x,
        0x08,
    ) {
        return false;
    }
    let ghost p = typed_at(mem@, x as int);
    let f = |c: u64| -> (b: bool)
        requires
            mem.wf(),
            x <= 0x80,
        ensures
            b == p(c),
        { typed(mem, c, x) };
    let sane: usize = count_where(
        cs,
        f,
        Ghost(p),
    );
    sane > cs.len() / 2
}

fn derived(mem: &Memory, c_name: u64, off: u64, c: u64) -> (r: bool)
    requires
        mem.wf(),
    ensures
        r == derived_at(mem@, c_name as int, off as int)(c),
{
    match mem.read_ptr(c, off) {
        Some(p) => p != c && mem.readable(p, CLASS_WINDOW) && named(mem, p, c_name),
        None => false,
    }
}

fn score_parent(
    mem: &Memory,
    cs: &Vec<u64>,
    c_name: u64,
    c_byval: u64,
    a_str: u64,
    off: u64,
) -> (n: usize)
    requires
        mem.wf(),
    ensures
        n == parent_score(mem@, cs@, c_name as int, c_byval as int, a_str as int)(off as int),
{
    if off == c_byval {
        return 0;
    }
    let anchor: bool = match mem.read_ptr(a_str, off) {
        Some(p) => reads(mem, p, c_name, "Object"),
        None => false,
    };
    if !anchor {
        return 0;
    }
    let ghost p = derived_at(mem@, c_name as int, off as int);
    let f = |c: u64| -> (b: bool)
        requires
            mem.wf(),
        ensures
            b == p(c),
        { derived(mem, c_name, off, c) };
    count_where(
        cs,
        f,
        Ghost(p),
    )
}

/// Finds the class structure.
fn calibrate_classes(mem: &Memory, cs: &Vec<u64>) -> (r: Result<ClassPart, CalibrationError>)
    requires
        mem.wf(),
    ensures
        r == class_part(mem@, cs@),
{
    let never = || -> (b: bool)
        ensures
            !b,
        { false };
    let ghost p = name_score(mem@, cs@);
    let f = |off: u64| -> (v: usize)
        requires
            mem.wf(),
        ensures
            v == p(off as int),
        { score_name(mem, cs, off) };
    let (n, c_name): (usize, u64) = match best_where(
        0,
        8,
        16,
        f,
        &never,
        16,
        Ghost(p),
    ) {
        Some(b) => b,
        None => (0, 0),
    };
    if n == 0 {
        return Err(CalibrationError::NoClassName);
    }
    let ghost p = namespace_score(mem@, cs@, c_name as int);
    let f = |off: u64| -> (v: usize)
        requires
            mem.wf(),
        ensures
            v == p(off as int),
        { score_namespace(mem, cs, c_name, off) };
    let (n, c_namespace): (usize, u64) = match best_where(
        0,
        8,
        12,
        f,
        &never,
        12,
        Ghost(p),
    ) {
        Some(b) => b,
        None => (0, 0),
    };
    if n == 0 {
        return Err(CalibrationError::NoNamespace);
    }
    let found = (
        find_sys(mem, cs, c_name, c_namespace, "String"),
        find_sys(mem, cs, c_name, c_namespace, "Object"),
        find_sys(mem, cs, c_name, c_namespace, "Int32"),
    );
    let (a_str, a_obj, a_i32): (u64, u64, u64) = match found {
        (Some(a), Some(b), Some(c)) => (a, b, c),
        _ => {
            return Err(CalibrationError::NoAnchors);
        },
    };
    let ghost p = byval_fits(mem@, cs@, a_str as int, a_obj as int, a_i32 as int);
    let f = |x: u64| -> (b: bool)
        requires
            mem.wf(),
            x < 0x80,
        ensures
            b == p(x as int),
        { fits_byval(mem, cs, a_str, a_obj, a_i32, x) };
    let c_byval: u64 = match first_where(
        0x18,
        8,
        0x80,
        f,
        Ghost(p),
    ) {
        Some(x) => x,
        None => {
            return Err(CalibrationError::NoByval);
        },
    };
    let ghost p = parent_score(mem@, cs@, c_name as int, c_byval as int, a_str as int);
    let f = |off: u64| -> (v: usize)
        requires
            mem.wf(),
        ensures
            v == p(off as int),
        { score_parent(mem, cs, c_name, c_byval, a_str, off) };
    let (n, c_parent): (usize, u64) = match best_where(
        0,
        8,
        20,
        f,
        &never,
        20,
        Ghost(p),
    ) {
        Some(b) => b,
        None => (0, 0),
    };
    if n == 0 {
        return Err(CalibrationError::NoParent);
    }
    Ok(ClassPart { c_name, c_namespace, c_byval, c_parent, a_str })
}

// ── finding the field structure ──────────────────────────────────────────────

fn field_here(mem: &Memory, off: u64, fp: u64, fnm: u64, c: u64) -> (r: bool)
    requires
        mem.wf(),
    ensures
        r == field_at(mem@, off as int, fp as int, fnm as int)(c),
{
    match mem.read_ptr(c, off) {
        Some(p) => mem.readable(p, 0x20) && leads_to(mem, p, fp, c) && named(mem, p, fnm),
        None => false,
    }
}

fn score_field(mem: &Memory, ps: &Vec<u64>, k: u64) -> (n: usize)
    requires
        mem.wf(),
        k <= 768,
    ensures
        n == field_score(mem@, ps@)(k as int),
{
    let off: u64 = (k / 16) * 8;
    let fp: u64 = ((k / 4) % 4) * 8;
    let fnm: u64 = (k % 4) * 8;
    if fp == fnm {
        return 0;
    }
    let ghost p = field_at(mem@, off as int, fp as int, fnm as int);
    let f = |c: u64| -> (b: bool)
        requires
            mem.wf(),
        ensures
            b == p(c),
        { field_here(mem, off, fp, fnm, c) };
    count_where(ps, f, Ghost(p))
}

fn strided(mem: &Memory, c_fields: u64, f_parent: u64, stride: u64, c: u64) -> (r: bool)
    requires
        mem.wf(),
        f_parent <= 0x20,
        stride <= 0x30,
    ensures
        r == strided_at(mem@, c_fields as int, f_parent as int, stride as int)(c),
{
    match mem.read_ptr(c, c_fields) {
        Some(p) => mem.readable(p, stride * 2) && leads_to(mem, p, stride + f_parent, c),
        None => false,
    }
}

fn fits_stride(mem: &Memory, ps: &Vec<u64>, c_fields: u64, f_parent: u64, stride: u64) -> (r: bool)
    requires
        mem.wf(),
        f_parent <= 0x20,
        stride <= 0x30,
    ensures
        r == stride_fits(mem@, ps@, c_fields as int, f_parent as int, stride as int),
{
    let ghost p = strided_at(mem@, c_fields as int, f_parent as int, stride as int);
    let f = |c: u64| -> (b: bool)
        requires
            mem.wf(),
            f_parent <= 0x20,
            stride <= 0x30,
        ensures
            b == p(c),
        { strided(mem, c_fields, f_parent, stride, c) };
    count_where(ps, f, Ghost(p)) >= 8
}

fn find_stride(mem: &Memory, ps: &Vec<u64>, c_fields: u64, f_parent: u64) -> (r: u64)
    requires
        mem.wf(),
        f_parent <= 0x20,
    ensures
        r == stride_of(mem@, ps@, c_fields as int, f_parent as int),
        0x10 <= r <= 0x30,
{
    if fits_stride(mem, ps, c_fields, f_parent, 0x20) {
        0x20
    } else if fits_stride(mem, ps, c_fields, f_parent, 0x18) {
        0x18
    } else if fits_stride(mem, ps, c_fields, f_parent, 0x28) {
        0x28
    } else if fits_stride(mem, ps, c_fields, f_parent, 0x30) {
        0x30
    } else if fits_stride(mem, ps, c_fields, f_parent, 0x10) {
        0x10
    } else {
        0x20
    }
}

impl FieldSlots {
    /// The offsets are small, as those that calibration finds are.
    pub open spec fn small(&self) -> bool {
        &&& self.f_name <= 0x1000
        &&& self.f_parent <= 0x1000
        &&& 1 <= self.f_stride <= 0x1000
    }

    fn shift(&self, i: u64) -> (d: u64)
        requires
            self.small(),
            i <= 0x1_0000,
        ensures
            d == i * self.f_stride,
            d <= 0x1000_0000,
    {
        assert(i * self.f_stride <= 0x1_0000 * 0x1000) by (nonlinear_arith)
            requires
                i <= 0x1_0000,
                self.f_stride <= 0x1000,
        ;
        i * self.f_stride
    }

    /// The start of entry `i` from the start of the array, where the entry is
    /// readable and has the class as its owner.
    fn owned(&self, mem: &Memory, c: u64, i: u64) -> (r: Option<(u64, u64)>)
        requires
            mem.wf(),
            self.small(),
            i <= 0x1_0000,
        ensures
            r is Some <==> entry_owned(mem@, *self, c as int, i as int),
            r matches Some(x) ==> {
                &&& memory::ptr_val(mem@, c + self.c_fields) == Some(x.0 as nat)
                &&& x.1 == i * self.f_stride
                &&& x.1 <= 0x1000_0000
                &&& x.0 + x.1 <= u64::MAX
            },
    {
        let d: u64 = self.shift(i);
        match mem.read_ptr(c, self.c_fields) {
            Some(p) => if mem.readable_at(p, d, self.f_stride) && leads_to(
                mem,
                p,
                d + self.f_parent,
                c,
            ) {
                proof {
                    mem.lemma_below_top(p + d);
                }
                Some((p, d))
            } else {
                None
            },
            None => None,
        }
    }

    /// Whether entry `i` is a field of the class.
    fn is_field(&self, mem: &Memory, c: u64, i: u64) -> (r: bool)
        requires
            mem.wf(),
            self.small(),
            i <= 0x1_0000,
        ensures
            r == field_ok(mem@, *self, c as int, i as int),
    {
        match self.owned(mem, c, i) {
            Some((p, d)) => named(mem, p, d + self.f_name),
            None => false,
        }
    }
}

fn count_fits(mem: &Memory, s: &FieldSlots, off: u64, c: u64) -> (r: bool)
    requires
        mem.wf(),
        s.small(),
    ensures
        r == counts_fields(mem@, *s, off as int)(c),
{
    let v: u16 = match mem.read_u16(c, off) {
        Some(v) => v,
        None => {
            return false;
        },
    };
    if v == 0 || v > 400 {
        return false;
    }
    let top: u64 = if v < 6 {
        v as u64
    } else {
        6
    };
    let mut i: u64 = 0;
    while i < top
        invariant
            mem.wf(),
            s.small(),
            i <= top <= 6,
            forall|j: int| 0 <= j < i ==> #[trigger] field_ok(mem@, *s, c as int, j),
            top == lesser(v as int, 6),
            memory::val(mem@, c + off, 2) == Some(v as nat),
        decreases top - i,
    {
        if !s.is_field(mem, c, i) {
            return false;
        }
        i = i + 1;
    }
    !s.is_field(mem, c, v as u64)
}

fn score_field_count(mem: &Memory, ps: &Vec<u64>, s: &FieldSlots, off: u64) -> (n: usize)
    requires
        mem.wf(),
        s.small(),
    ensures
        n == field_count_score(mem@, ps@, *s)(off as int),
{
    let ghost p = counts_fields(mem@, *s, off as int);
    let f = |c: u64| -> (b: bool)
        requires
            mem.wf(),
            s.small(),
        ensures
            b == p(c),
        { count_fits(mem, s, off, c) };
    count_where(ps, f, Ghost(p))
}

fn entries_of(mem: &Memory, s: &FieldSlots, c: u64, n: u64) -> (r: Vec<u64>)
    requires
        mem.wf(),
        s.small(),
        n <= 16,
    ensures
        r@ == owned_entries(mem@, *s, c as int, n as nat),
{
    let mut r: Vec<u64> = Vec::new();
    let mut i: u64 = 0;
    while i < n
        invariant
            mem.wf(),
            s.small(),
            i <= n <= 16,
            r@ == owned_entries(mem@, *s, c as int, i as nat),
        decreases n - i,
    {
        match s.owned(mem, c, i) {
            Some((p, d)) => {
                r.push(p + d);
            },
            None => {},
        }
        i = i + 1;
    }
    r
}

fn count_ptrs(mem: &Memory, es: &Vec<u64>, slot: u64) -> (n: usize)
    requires
        mem.wf(),
    ensures
        n == search::count_if(es@, holds_ptr(mem@, slot as int)),
{
    let ghost p = holds_ptr(mem@, slot as int);
    let f = |e: u64| -> (b: bool)
        requires
            mem.wf(),
        ensures
            b == p(e),
        {
            match mem.read_ptr(e, slot) {
                Some(q) => mem.readable(q, 1),
                None => false,
            }
        };
    count_where(es, f, Ghost(p))
}

fn any_int(mem: &Memory, es: &Vec<u64>, off: u64, v: i32) -> (r: bool)
    requires
        mem.wf(),
    ensures
        r == (search::first_in(es@, holds_int(mem@, off as int, v as int)) is Some),
{
    let ghost p = holds_int(mem@, off as int, v as int);
    let f = |e: u64| -> (b: bool)
        requires
            mem.wf(),
        ensures
            b == p(e),
        {
            match mem.read_i32(e, off) {
                Some(x) => x == v,
                None => false,
            }
        };
    find_where(es, f, Ghost(p)).is_some()
}

fn fits_offset(mem: &Memory, es: &Vec<u64>, s_len: i32, s_chars: i32, x: u64) -> (r: bool)
    requires
        mem.wf(),
        es.len() <= 16,
    ensures
        r == offset_fits(mem@, es@, s_len as int, s_chars as int)(x as int),
{
    proof {
        search::lemma_count_bound(es@, holds_ptr(mem@, (x / 8) * 8));
    }
    count_ptrs(mem, es, (x / 8) * 8) * 2 <= es.len() && any_int(mem, es, x, s_len) && any_int(
        mem,
        es,
        x,
        s_chars,
    )
}

/// Finds the field structure. Only an abort keeps it from its result.
fn calibrate_fields<G: Fn() -> bool>(
    mem: &Memory,
    ps: &Vec<u64>,
    a_str: u64,
    s_len: i32,
    s_chars: i32,
    aborted: &G,
) -> (r: Result<FieldPart, CalibrationError>)
    requires
        mem.wf(),
        call_requires(aborted, ()),
    ensures
        r == Err::<FieldPart, _>(CalibrationError::Aborted) ==> call_ensures(aborted, (), true),
        (forall|b: bool| call_ensures(aborted, (), b) ==> b) ==> r == Err::<FieldPart, _>(
            CalibrationError::Aborted,
        ),
        r != Err::<FieldPart, _>(CalibrationError::Aborted) ==> r == field_part(
            mem@,
            ps@,
            a_str,
            s_len,
            s_chars,
        ),
        r matches Ok(f) ==> f.slots.small(),
{
    let ghost p = field_score(mem@, ps@);
    let f = |k: u64| -> (v: usize)
        requires
            mem.wf(),
            k <= 768,
        ensures
            v == p(k as int),
        { score_field(mem, ps, k) };
    let (n, k): (usize, u64) = match best_where(0, 1, 768, f, aborted, 16, Ghost(p)) {
        Some(b) => b,
        None => {
            return Err(CalibrationError::Aborted);
        },
    };
    if n == 0 {
        return Err(CalibrationError::NoFields);
    }
    proof {
        search::lemma_best_in_range(p, 0, 1, 768);
    }
    let c_fields: u64 = (k / 16) * 8;
    let f_parent: u64 = ((k / 4) % 4) * 8;
    let f_name: u64 = (k % 4) * 8;
    let f_stride: u64 = find_stride(mem, ps, c_fields, f_parent);
    let slots = FieldSlots { c_fields, f_name, f_parent, f_stride };
    assert(slots == slots_of(mem@, ps@, k as int));
    let s = &slots;
    let ghost p = field_count_score(mem@, ps@, slots);
    let f = |off: u64| -> (v: usize)
        requires
            mem.wf(),
            s.small(),
        ensures
            v == p(off as int),
        { score_field_count(mem, ps, s, off) };
    let (n, c_field_count): (usize, u64) = match best_where(
        0x80,
        2,
        128,
        f,
        aborted,
        1,
        Ghost(p),
    ) {
        Some(b) => b,
        None => {
            return Err(CalibrationError::Aborted);
        },
    };
    if n < 8 {
        return Err(CalibrationError::NoFieldCount);
    }
    let few: u64 = match mem.read_u16(a_str, c_field_count) {
        Some(v) => if v < 16 {
            v as u64
        } else {
            16
        },
        None => 0,
    };
    let entries: Vec<u64> = entries_of(mem, s, a_str, few);
    let es = &entries;
    proof {
        lemma_entries_bound(mem@, slots, a_str as int, few as nat);
    }
    let ghost p = offset_fits(mem@, es@, s_len as int, s_chars as int);
    let f = |x: u64| -> (b: bool)
        requires
            mem.wf(),
            es.len() <= 16,
        ensures
            b == p(x as int),
        { fits_offset(mem, es, s_len, s_chars, x) };
    match first_where(0, 4, f_stride, f, Ghost(p)) {
        Some(f_offset) => Ok(FieldPart { slots, c_field_count, f_offset }),
        None => Err(CalibrationError::NoFieldOffset),
    }
}

proof fn lemma_entries_bound(m: Map<int, u8>, s: FieldSlots, c: int, n: nat)
    ensures
        owned_entries(m, s, c, n).len() <= n,
    decreases n,
{
    if n > 0 {
        lemma_entries_bound(m, s, c, (n - 1) as nat);
    }
}

// ── the method structure ─────────────────────────────────────────────────────

/// What is known of the method records.
#[derive(Debug, Clone, Copy, PartialEq, Eq, Structural)]
pub struct MethodSlots {
    pub c_methods: u64,
    pub m_name: u64,
    pub m_klass: u64,
}

/// The offsets that the number of a method candidate stands for: of the array
/// in the class, of the owner and of the name in the record.
pub open spec fn method_slots(k: int) -> MethodSlots {
    MethodSlots {
        c_methods: ((k / 64) * 8) as u64,
        m_klass: (((k / 8) % 8) * 8) as u64,
        m_name: ((k % 8) * 8) as u64,
    }
}

/// Record `i` of the class.
pub open spec fn method_at(m: Map<int, u8>, s: MethodSlots, c: int, i: int) -> Option<nat> {
    match memory::ptr_val(m, c + s.c_methods) {
        Some(arr) => match memory::ptr_val(m, arr + i * 8) {
            Some(x) => if memory::has(m, x as int, 0x60) {
                Some(x)
            } else {
                None
            },
            None => None,
        },
        None => None,
    }
}

/// Record `i` has the class as its owner.
pub open spec fn method_owned(m: Map<int, u8>, s: MethodSlots, c: int, i: int) -> bool {
    method_at(m, s, c, i) matches Some(x) && points_to(m, x + s.m_klass, c)
}

/// Record `i` is a method of the class.
pub open spec fn method_ok(m: Map<int, u8>, s: MethodSlots, c: int, i: int) -> bool {
    &&& method_owned(m, s, c, i)
    &&& method_at(m, s, c, i) matches Some(x)
    &&& ident_at(m, x + s.m_name)
}

/// A class whose first record is a method of it.
pub open spec fn has_method(m: Map<int, u8>, s: MethodSlots) -> spec_fn(u64) -> bool {
    |c: u64| method_ok(m, s, c as int, 0)
}

pub open spec fn method_score(m: Map<int, u8>, ps: Seq<u64>, c_fields: int) -> spec_fn(int) -> nat {
    |k: int|
        if method_slots(k).c_methods == c_fields || method_slots(k).m_klass == method_slots(
            k,
        ).m_name {
            0
        } else {
            search::count_if(ps, has_method(m, method_slots(k)))
        }
}

/// A class whose number at `off` says how many methods it has.
pub open spec fn counts_methods(m: Map<int, u8>, s: MethodSlots, off: int) -> spec_fn(u64) -> bool {
    |c: u64|
        {
            &&& memory::val(m, c + off, 2) matches Some(v)
            &&& 1 <= v <= 2000
            &&& forall|i: int| 0 <= i < lesser(v as int, 6) ==> #[trigger] method_ok(m, s, c as int, i)
            &&& !method_ok(m, s, c as int, v as int)
        }
}

pub open spec fn method_count_score(
    m: Map<int, u8>,
    ps: Seq<u64>,
    s: MethodSlots,
    c_field_count: int,
) -> spec_fn(int) -> nat {
    |off: int|
        if off == c_field_count {
            0
        } else {
            search::count_if(ps, counts_methods(m, s, off))
        }
}

/// The size of the module loaded at `base`, out of its header; 0 where the
/// header says none.
pub open spec fn image_size(m: Map<int, u8>, base: int) -> nat {
    match memory::val(m, base + 0x3C, 4) {
        Some(lfanew) => if lfanew == 0 || lfanew > 0x1000 {
            0
        } else {
            match memory::val(m, base + lfanew + 80, 4) {
                Some(size) => size,
                None => 0,
            }
        },
        None => 0,
    }
}

/// The address lies in the module.
pub open spec fn in_image(m: Map<int, u8>, base: int, p: int) -> bool {
    base <= p < base + image_size(m, base)
}

/// How many records from `i` on, below `n`, have the class as their owner
/// before the first that has not.
pub open spec fn owned_run(m: Map<int, u8>, s: MethodSlots, c: int, i: nat, n: nat) -> nat
    decreases n - i,
{
    if i >= n || !method_owned(m, s, c, i as int) {
        0
    } else {
        1 + owned_run(m, s, c, i + 1, n)
    }
}

/// How many of those point into the module at `off`.
pub open spec fn code_run(
    m: Map<int, u8>,
    s: MethodSlots,
    base: int,
    off: int,
    c: int,
    i: nat,
    n: nat,
) -> nat
    decreases n - i,
{
    if i >= n || !method_owned(m, s, c, i as int) {
        0
    } else {
        code_run(m, s, base, off, c, i + 1, n) + if memory::ptr_val(
            m,
            method_at(m, s, c, i as int)->0 + off,
        ) matches Some(p) && in_image(m, base, p as int) {
            1nat
        } else {
            0
        }
    }
}

pub open spec fn owned_of(m: Map<int, u8>, s: MethodSlots) -> spec_fn(u64) -> nat {
    |c: u64| owned_run(m, s, c as int, 0, 4)
}

pub open spec fn code_of(m: Map<int, u8>, s: MethodSlots, base: int, off: int) -> spec_fn(
    u64,
) -> nat {
    |c: u64| code_run(m, s, base, off, c as int, 0, 4)
}

/// The first 120 probes.
pub open spec fn few_probes(ps: Seq<u64>) -> Seq<u64> {
    ps.take(lesser(ps.len() as int, 120))
}

/// An offset at which more than three quarters of the methods looked at point
/// into the module.
pub open spec fn code_fits(m: Map<int, u8>, ps: Seq<u64>, s: MethodSlots, base: int) -> spec_fn(
    int,
) -> bool {
    |off: int|
        {
            let total = search::sum_of(few_probes(ps), owned_of(m, s));
            let hits = search::sum_of(few_probes(ps), code_of(m, s, base, off));
            total > 32 && hits * 4 > total * 3
        }
}

/// The last record below `n` whose name is `t`.
pub open spec fn last_named(m: Map<int, u8>, s: MethodSlots, c: int, t: Seq<char>, n: nat) -> Option<
    nat,
>
    decreases n,
{
    if n == 0 {
        None
    } else {
        match method_at(m, s, c, n - 1) {
            Some(x) => if text_is(m, x + s.m_name, t) {
                Some(x)
            } else {
                last_named(m, s, c, t, (n - 1) as nat)
            },
            None => last_named(m, s, c, t, (n - 1) as nat),
        }
    }
}

/// The byte at `off` of each of the first 40 records, below `count`, is at most
/// `top`.
pub open spec fn bytes_below(
    m: Map<int, u8>,
    s: MethodSlots,
    c: int,
    count: nat,
    off: int,
    top: nat,
) -> bool {
    forall|i: int|
        0 <= i < lesser(count as int, 40) ==> (#[trigger] method_at(m, s, c, i) matches Some(x)
            ==> (memory::val(m, x + off, 1) matches Some(v) && v <= top))
}

/// An offset at which `get_Length` has 0 and `IsNullOrEmpty` 1, and every method
/// of String a small number.
pub open spec fn params_fit(
    m: Map<int, u8>,
    s: MethodSlots,
    c: int,
    count: nat,
    gl: int,
    inoe: int,
) -> spec_fn(int) -> bool {
    |off: int|
        {
            &&& memory::val(m, gl + off, 1) == Some(0nat)
            &&& memory::val(m, inoe + off, 1) == Some(1nat)
            &&& bytes_below(m, s, c, count, off, 32)
        }
}

/// The static bit of a method's attributes.
pub open spec fn static_bit(v: nat) -> bool {
    (v / 16) % 2 == 1
}

/// An offset at which `get_Length` and `IsNullOrEmpty` have attributes, and only
/// the latter the static bit.
pub open spec fn flags_fit(m: Map<int, u8>, gl: int, inoe: int) -> spec_fn(int) -> bool {
    |off: int|
        {
            &&& memory::val(m, gl + off, 2) matches Some(a)
            &&& memory::val(m, inoe + off, 2) matches Some(b)
            &&& a != 0 && b != 0
            &&& !static_bit(a)
            &&& static_bit(b)
        }
}

/// An offset at which the core library has its name.
pub open spec fn image_fits(m: Map<int, u8>, corlib: int) -> spec_fn(int) -> bool {
    |off: int|
        il2cpp::str_val(m, corlib + off) matches Some(s) && text::begins(s, "mscorlib"@)
}

/// How many methods a class says it has.
pub open spec fn count_at(m: Map<int, u8>, c: int, off: int) -> nat {
    match memory::val(m, c + off, 2) {
        Some(v) => v,
        None => 0,
    }
}

/// The rest of the layout, once two methods of String are known.
pub open spec fn shape_part(
    m: Map<int, u8>,
    s: MethodSlots,
    c: int,
    count: nat,
    gl: int,
    inoe: int,
    corlib: int,
) -> Result<(u64, u64, u64, u64), CalibrationError> {
    match search::first_from(params_fit(m, s, c, count, gl, inoe), 0x30, 1, 0x60) {
        Some(params) => match search::first_from(flags_fit(m, gl, inoe), 0x30, 2, 0x60) {
            Some(flags) => if !bytes_below(m, s, c, count, params + 1, 0x0F) {
                Err(CalibrationError::BadBits)
            } else {
                match search::first_from(image_fits(m, corlib), 0, 8, 0x40) {
                    Some(name) => Ok(
                        (flags as u64, params as u64, (params + 1) as u64, name as u64),
                    ),
                    None => Err(CalibrationError::NoImageName),
                }
            },
            None => Err(CalibrationError::NoFlags),
        },
        None => Err(CalibrationError::NoParamCount),
    }
}

/// The whole layout, found on the samples `cs` and the probes `ps`, once the
/// class and field structures are known.
pub open spec fn method_part(
    m: Map<int, u8>,
    cs: Seq<u64>,
    ps: Seq<u64>,
    cl: ClassPart,
    fl: FieldPart,
    corlib: int,
    base: int,
) -> Result<Layout, CalibrationError> {
    let votes = search::best(method_score(m, ps, fl.slots.c_fields as int), 0, 1, 3072);
    let s = method_slots(votes.1);
    let n = search::best(method_count_score(m, ps, s, fl.c_field_count as int), 0x80, 2, 128);
    let string = search::first_in(cs, reads_at(m, cl.c_name as int, "String"@));
    if votes.0 == 0 {
        Err(CalibrationError::NoMethods)
    } else if n.0 < 8 {
        Err(CalibrationError::NoMethodCount)
    } else {
        match (search::first_from(code_fits(m, ps, s, base), 0, 8, 0x20), string) {
            (None, _) => Err(CalibrationError::NoMethodPointer),
            (Some(code), None) => Err(CalibrationError::NoStringMethods),
            (Some(code), Some(c)) => {
                let count = count_at(m, c as int, n.1);
                match (
                    last_named(m, s, c as int, "get_Length"@, count),
                    last_named(m, s, c as int, "IsNullOrEmpty"@, count),
                ) {
                    (Some(gl), Some(inoe)) => match shape_part(
                        m,
                        s,
                        c as int,
                        count,
                        gl as int,
                        inoe as int,
                        corlib,
                    ) {
                        Ok(x) => Ok(
                            Layout {
                                c_name: cl.c_name,
                                c_namespace: cl.c_namespace,
                                c_byval: cl.c_byval,
                                c_parent: cl.c_parent,
                                c_fields: fl.slots.c_fields,
                                c_field_count: fl.c_field_count,
                                c_methods: s.c_methods,
                                c_method_count: n.1 as u64,
                                f_name: fl.slots.f_name,
                                f_parent: fl.slots.f_parent,
                                f_offset: fl.f_offset,
                                f_stride: fl.slots.f_stride,
                                m_ptr: code as u64,
                                m_name: s.m_name,
                                m_klass: s.m_klass,
                                m_flags: x.0,
                                m_param_count: x.1,
                                m_bits: x.2,
                                i_name: x.3,
                            },
                        ),
                        Err(e) => Err(e),
                    },
                    _ => Err(CalibrationError::NoStringMethods),
                }
            },
        }
    }
}

/// The layout of the metadata in `m`: `classes` are those of the core library
/// `corlib`, `base` is where the module is loaded, `s_len` and `s_chars` are
/// where a string has its length and its first character.
pub open spec fn calibrated(
    m: Map<int, u8>,
    corlib: u64,
    classes: Seq<u64>,
    base: u64,
    s_len: i32,
    s_chars: i32,
) -> Result<Layout, CalibrationError> {
    let cs = samples_of(m, classes);
    let ps = probes_of(cs);
    if corlib == 0 {
        Err(CalibrationError::NoCorlib)
    } else if classes.len() < 32 {
        Err(CalibrationError::TooFewClasses)
    } else if cs.len() < 32 {
        Err(CalibrationError::TooFewReadable)
    } else {
        match class_part(m, cs) {
            Ok(cl) => match field_part(m, ps, cl.a_str, s_len, s_chars) {
                Ok(fl) => method_part(m, cs, ps, cl, fl, corlib as int, base as int),
                Err(e) => Err(e),
            },
            Err(e) => Err(e),
        }
    }
}

impl MethodSlots {
    /// Record `i` of the class, where it is readable.
    pub(crate) fn at(&self, mem: &Memory, c: u64, i: u64) -> (r: Option<u64>)
        requires
            mem.wf(),
            i <= 0x1_0000,
        ensures
            r matches Some(x) ==> method_at(mem@, *self, c as int, i as int) == Some(x as nat),
            r is None ==> method_at(mem@, *self, c as int, i as int) is None,
    {
        let arr: u64 = match mem.read_ptr(c, self.c_methods) {
            Some(p) => p,
            None => {
                return None;
            },
        };
        match mem.read_ptr(arr, i * 8) {
            Some(x) => if mem.readable(x, 0x60) {
                Some(x)
            } else {
                None
            },
            None => None,
        }
    }

    /// Record `i` of the class, where it has the class as its owner.
    fn owned(&self, mem: &Memory, c: u64, i: u64) -> (r: Option<u64>)
        requires
            mem.wf(),
            i <= 0x1_0000,
        ensures
            r is Some <==> method_owned(mem@, *self, c as int, i as int),
            r matches Some(x) ==> method_at(mem@, *self, c as int, i as int) == Some(x as nat),
    {
        match self.at(mem, c, i) {
            Some(x) => if leads_to(mem, x, self.m_klass, c) {
                Some(x)
            } else {
                None
            },
            None => None,
        }
    }

    /// Whether record `i` is a method of the class.
    fn is_method(&self, mem: &Memory, c: u64, i: u64) -> (r: bool)
        requires
            mem.wf(),
            i <= 0x1_0000,
        ensures
            r == method_ok(mem@, *self, c as int, i as int),
    {
        match self.owned(mem, c, i) {
            Some(x) => named(mem, x, self.m_name),
            None => false,
        }
    }
}

fn score_method(mem: &Memory, ps: &Vec<u64>, c_fields: u64, k: u64) -> (n: usize)
    requires
        mem.wf(),
        k <= 3072,
    ensures
        n == method_score(mem@, ps@, c_fields as int)(k as int),
{
    let s = slots_at(k);
    if s.c_methods == c_fields || s.m_klass == s.m_name {
        return 0;
    }
    let ghost p = has_method(mem@, s);
    let f = |c: u64| -> (b: bool)
        requires
            mem.wf(),
        ensures
            b == p(c),
        { s.is_method(mem, c, 0) };
    count_where(ps, f, Ghost(p))
}

fn slots_at(k: u64) -> (s: MethodSlots)
    requires
        k <= 3072,
    ensures
        s == method_slots(k as int),
{
    MethodSlots { c_methods: (k / 64) * 8, m_klass: ((k / 8) % 8) * 8, m_name: (k % 8) * 8 }
}

fn method_count_fits(mem: &Memory, s: &MethodSlots, off: u64, c: u64) -> (r: bool)
    requires
        mem.wf(),
    ensures
        r == counts_methods(mem@, *s, off as int)(c),
{
    let v: u16 = match mem.read_u16(c, off) {
        Some(v) => v,
        None => {
            return false;
        },
    };
    if v == 0 || v > 2000 {
        return false;
    }
    let top: u64 = if v < 6 {
        v as u64
    } else {
        6
    };
    let mut i: u64 = 0;
    while i < top
        invariant
            mem.wf(),
            i <= top <= 6,
            forall|j: int| 0 <= j < i ==> #[trigger] method_ok(mem@, *s, c as int, j),
            top == lesser(v as int, 6),
            memory::val(mem@, c + off, 2) == Some(v as nat),
        decreases top - i,
    {
        if !s.is_method(mem, c, i) {
            return false;
        }
        i = i + 1;
    }
    !s.is_method(mem, c, v as u64)
}

fn score_method_count(
    mem: &Memory,
    ps: &Vec<u64>,
    s: &MethodSlots,
    c_field_count: u64,
    off: u64,
) -> (n: usize)
    requires
        mem.wf(),
    ensures
        n == method_count_score(mem@, ps@, *s, c_field_count as int)(off as int),
{
    if off == c_field_count {
        return 0;
    }
    let ghost p = counts_methods(mem@, *s, off as int);
    let f = |c: u64| -> (b: bool)
        requires
            mem.wf(),
        ensures
            b == p(c),
        { method_count_fits(mem, s, off, c) };
    count_where(ps, f, Ghost(p))
}

/// The size of the module loaded at `base`, out of its header.
fn image_span(mem: &Memory, base: u64) -> (size: u64)
    requires
        mem.wf(),
    ensures
        size == image_size(mem@, base as int),
{
    let lfanew: u32 = match mem.read_u32(base, 0x3C) {
        Some(v) => v,
        None => 0,
    };
    if lfanew == 0 || lfanew > 0x1000 {
        return 0;
    }
    match mem.read_u32(base, lfanew as u64 + 80) {
        Some(v) => v as u64,
        None => 0,
    }
}

fn count_owned(mem: &Memory, s: &MethodSlots, c: u64) -> (n: usize)
    requires
        mem.wf(),
    ensures
        n == owned_of(mem@, *s)(c),
        n <= 4,
{
    let mut i: u64 = 0;
    while i < 4
        invariant
            mem.wf(),
            i <= 4,
            owned_run(mem@, *s, c as int, 0, 4) == i + owned_run(mem@, *s, c as int, i as nat, 4),
        decreases 4 - i,
    {
        if s.owned(mem, c, i).is_none() {
            return i as usize;
        }
        i = i + 1;
    }
    i as usize
}

fn count_code(mem: &Memory, s: &MethodSlots, base: u64, size: u64, off: u64, c: u64) -> (n: usize)
    requires
        mem.wf(),
        size == image_size(mem@, base as int),
    ensures
        n == code_of(mem@, *s, base as int, off as int)(c),
        n <= 4,
{
    let mut n: usize = 0;
    let mut i: u64 = 0;
    while i < 4
        invariant
            mem.wf(),
            size == image_size(mem@, base as int),
            n <= i <= 4,
            code_run(mem@, *s, base as int, off as int, c as int, 0, 4) == n + code_run(
                mem@,
                *s,
                base as int,
                off as int,
                c as int,
                i as nat,
                4,
            ),
        decreases 4 - i,
    {
        match s.owned(mem, c, i) {
            Some(x) => {
                match mem.read_ptr(x, off) {
                    Some(p) => if base <= p && p - base < size {
                        n = n + 1;
                    },
                    None => {},
                }
            },
            None => {
                return n;
            },
        }
        i = i + 1;
    }
    n
}

fn fits_code(mem: &Memory, ps: &Vec<u64>, s: &MethodSlots, base: u64, size: u64, off: u64) -> (r:
    bool)
    requires
        mem.wf(),
        size == image_size(mem@, base as int),
    ensures
        r == code_fits(mem@, ps@, *s, base as int)(off as int),
{
    let top: usize = if ps.len() < 120 {
        ps.len()
    } else {
        120
    };
    let ghost p = owned_of(mem@, *s);
    let f = |c: u64| -> (v: usize)
        requires
            mem.wf(),
        ensures
            v == p(c),
            v <= 4,
        { count_owned(mem, s, c) };
    let total: usize = crate::search::sum_where(ps, top, f, Ghost(p));
    let ghost q = code_of(mem@, *s, base as int, off as int);
    let g = |c: u64| -> (v: usize)
        requires
            mem.wf(),
            size == image_size(mem@, base as int),
        ensures
            v == q(c),
            v <= 4,
        { count_code(mem, s, base, size, off, c) };
    let hits: usize = crate::search::sum_where(ps, top, g, Ghost(q));
    total > 32 && hits * 4 > total * 3
}

fn find_last(mem: &Memory, s: &MethodSlots, c: u64, t: &str, count: u64) -> (r: Option<u64>)
    requires
        mem.wf(),
        count <= 0x1_0000,
    ensures
        r matches Some(x) ==> last_named(mem@, *s, c as int, t@, count as nat) == Some(x as nat),
        r is None ==> last_named(mem@, *s, c as int, t@, count as nat) is None,
{
    let mut r: Option<u64> = None;
    let mut i: u64 = 0;
    while i < count
        invariant
            mem.wf(),
            i <= count <= 0x1_0000,
            r matches Some(x) ==> last_named(mem@, *s, c as int, t@, i as nat) == Some(x as nat),
            r is None ==> last_named(mem@, *s, c as int, t@, i as nat) is None,
        decreases count - i,
    {
        match s.at(mem, c, i) {
            Some(x) => if reads(mem, x, s.m_name, t) {
                r = Some(x);
            },
            None => {},
        }
        i = i + 1;
    }
    r
}

fn all_bytes_below(mem: &Memory, s: &MethodSlots, c: u64, count: u64, off: u64, top: u8) -> (r: bool)
    requires
        mem.wf(),
    ensures
        r == bytes_below(mem@, *s, c as int, count as nat, off as int, top as nat),
{
    let few: u64 = if count < 40 {
        count
    } else {
        40
    };
    let mut i: u64 = 0;
    while i < few
        invariant
            mem.wf(),
            i <= few <= 40,
            few == lesser(count as int, 40),
            forall|j: int|
                0 <= j < i ==> (#[trigger] method_at(mem@, *s, c as int, j) matches Some(x)
                    ==> (memory::val(mem@, x + off, 1) matches Some(v) && v <= top)),
        decreases few - i,
    {
        match s.at(mem, c, i) {
            Some(x) => {
                let fine: bool = match mem.read_u8(x, off) {
                    Some(v) => v <= top,
                    None => false,
                };
                if !fine {
                    return false;
                }
            },
            None => {},
        }
        i = i + 1;
    }
    true
}

fn byte_is(mem: &Memory, p: u64, off: u64, v: u8) -> (r: bool)
    requires
        mem.wf(),
    ensures
        r == (memory::val(mem@, p + off, 1) == Some(v as nat)),
{
    match mem.read_u8(p, off) {
        Some(x) => x == v,
        None => false,
    }
}

/// Whether the attributes have the static bit.
pub fn is_static(v: u16) -> (r: bool)
    ensures
        r == static_bit(v as nat),
        r == (v & ATTR_STATIC != 0),
{
    assert(((v / 16) % 2 == 1) == (v & 0x0010 != 0)) by (bit_vector);
    v & ATTR_STATIC != 0
}

fn fits_flags(mem: &Memory, gl: u64, inoe: u64, off: u64) -> (r: bool)
    requires
        mem.wf(),
    ensures
        r == flags_fit(mem@, gl as int, inoe as int)(off as int),
{
    match (mem.read_u16(gl, off), mem.read_u16(inoe, off)) {
        (Some(a), Some(b)) => a != 0 && b != 0 && !is_static(a) && is_static(b),
        _ => false,
    }
}

/// Finds what String's own methods say of a method record, and the image's
/// name.
fn calibrate_shape(
    mem: &Memory,
    s: &MethodSlots,
    c: u64,
    count: u64,
    gl: u64,
    inoe: u64,
    corlib: u64,
) -> (r: Result<(u64, u64, u64, u64), CalibrationError>)
    requires
        mem.wf(),
    ensures
        r == shape_part(
            mem@,
            *s,
            c as int,
            count as nat,
            gl as int,
            inoe as int,
            corlib as int,
        ),
{
    let ghost p = params_fit(mem@, *s, c as int, count as nat, gl as int, inoe as int);
    let f = |off: u64| -> (b: bool)
        requires
            mem.wf(),
        ensures
            b == p(off as int),
        {
            byte_is(mem, gl, off, 0) && byte_is(mem, inoe, off, 1) && all_bytes_below(
                mem,
                s,
                c,
                count,
                off,
                32,
            )
        };
    let m_param_count: u64 = match first_where(0x30, 1, 0x60, f, Ghost(p)) {
        Some(x) => x,
        None => {
            return Err(CalibrationError::NoParamCount);
        },
    };
    let ghost p = flags_fit(mem@, gl as int, inoe as int);
    let f = |off: u64| -> (b: bool)
        requires
            mem.wf(),
        ensures
            b == p(off as int),
        { fits_flags(mem, gl, inoe, off) };
    let m_flags: u64 = match first_where(0x30, 2, 0x60, f, Ghost(p)) {
        Some(x) => x,
        None => {
            return Err(CalibrationError::NoFlags);
        },
    };
    proof {
        search::law_first_from(
            params_fit(mem@, *s, c as int, count as nat, gl as int, inoe as int),
            0x30,
            1,
            0x60,
        );
    }
    let m_bits: u64 = m_param_count + 1;
    if !all_bytes_below(mem, s, c, count, m_bits, 0x0F) {
        return Err(CalibrationError::BadBits);
    }
    let ghost p = image_fits(mem@, corlib as int);
    let f = |off: u64| -> (b: bool)
        requires
            mem.wf(),
        ensures
            b == p(off as int),
        {
            match str_at(mem, corlib, off) {
                Some(t) => starts_with(t.as_str(), "mscorlib"),
                None => false,
            }
        };
    match first_where(0, 8, 0x40, f, Ghost(p)) {
        Some(i_name) => Ok((m_flags, m_param_count, m_bits, i_name)),
        None => Err(CalibrationError::NoImageName),
    }
}

/// A method of the class under a layout, with its name.
pub open spec fn method_of(m: Map<int, u8>, l: Layout, c: int, x: nat, t: Seq<char>) -> bool {
    let s = MethodSlots { c_methods: l.c_methods, m_name: l.m_name, m_klass: l.m_klass };
    &&& text_is(m, x + l.m_name, t)
    &&& exists|i: int|
        0 <= i < count_at(m, c, l.c_method_count as int) && #[trigger] method_at(m, s, c, i)
            == Some(x)
}

/// Under a layout the class has a `get_Length` without parameters that is not
/// static, and an `IsNullOrEmpty` with one that is.
pub open spec fn methods_anchored(m: Map<int, u8>, l: Layout, c: int) -> bool {
    exists|gl: nat, inoe: nat| #[trigger]
        method_of(m, l, c, gl, "get_Length"@) && #[trigger] method_of(
            m,
            l,
            c,
            inoe,
            "IsNullOrEmpty"@,
        ) && memory::val(m, gl + l.m_param_count, 1) == Some(0nat) && memory::val(
            m,
            inoe + l.m_param_count,
            1,
        ) == Some(1nat) && (memory::val(m, gl + l.m_flags, 2) matches Some(a) && a != 0
            && !static_bit(a)) && (memory::val(m, inoe + l.m_flags, 2) matches Some(b)
            && static_bit(b))
}

/// What every layout has that is built on a class part and a field part: those
/// two as they are, and a method part that fits the class of strings.
pub open spec fn methods_found(
    m: Map<int, u8>,
    cs: Seq<u64>,
    cl: ClassPart,
    fl: FieldPart,
    corlib: int,
    l: Layout,
) -> bool {
    &&& l.c_name == cl.c_name
    &&& l.c_namespace == cl.c_namespace
    &&& l.c_byval == cl.c_byval
    &&& l.c_parent == cl.c_parent
    &&& l.c_fields == fl.slots.c_fields
    &&& l.c_field_count == fl.c_field_count
    &&& l.f_name == fl.slots.f_name
    &&& l.f_parent == fl.slots.f_parent
    &&& l.f_offset == fl.f_offset
    &&& l.f_stride == fl.slots.f_stride
    &&& l.c_methods < 0x180
    &&& l.c_methods != l.c_fields
    &&& 0x80 <= l.c_method_count < 0x180
    &&& l.c_method_count != l.c_field_count
    &&& l.m_ptr < 0x20
    &&& l.m_name < 0x40
    &&& l.m_klass < 0x40
    &&& l.m_name != l.m_klass
    &&& 0x30 <= l.m_flags < 0x60
    &&& 0x30 <= l.m_param_count < 0x60
    &&& l.m_bits == l.m_param_count + 1
    &&& l.i_name < 0x40
    &&& (il2cpp::str_val(m, corlib + l.i_name) matches Some(t) && text::begins(t, "mscorlib"@))
    &&& exists|c: u64| #[trigger]
        cs.contains(c) && text_is(m, c + l.c_name, "String"@) && methods_anchored(m, l, c as int)
}

/// Finds the method structure and with it the whole layout. Only an abort keeps
/// it from its result.
fn calibrate_methods<G: Fn() -> bool>(
    mem: &Memory,
    cs: &Vec<u64>,
    ps: &Vec<u64>,
    cl: &ClassPart,
    fl: &FieldPart,
    corlib: u64,
    base: u64,
    aborted: &G,
) -> (r: Result<Layout, CalibrationError>)
    requires
        mem.wf(),
        call_requires(aborted, ()),
    ensures
        r == Err::<Layout, _>(CalibrationError::Aborted) ==> call_ensures(aborted, (), true),
        (forall|b: bool| call_ensures(aborted, (), b) ==> b) ==> r == Err::<Layout, _>(
            CalibrationError::Aborted,
        ),
        r != Err::<Layout, _>(CalibrationError::Aborted) ==> r == method_part(
            mem@,
            cs@,
            ps@,
            *cl,
            *fl,
            corlib as int,
            base as int,
        ),
        r matches Ok(l) ==> methods_found(mem@, cs@, *cl, *fl, corlib as int, l),
{
    let c_fields: u64 = fl.slots.c_fields;
    let ghost p = method_score(mem@, ps@, c_fields as int);
    let f = |k: u64| -> (v: usize)
        requires
            mem.wf(),
            k <= 3072,
        ensures
            v == p(k as int),
        { score_method(mem, ps, c_fields, k) };
    let (n, k): (usize, u64) = match best_where(0, 1, 3072, f, aborted, 64, Ghost(p)) {
        Some(b) => b,
        None => {
            return Err(CalibrationError::Aborted);
        },
    };
    if n == 0 {
        return Err(CalibrationError::NoMethods);
    }
    proof {
        search::lemma_best_in_range(p, 0, 1, 3072);
    }
    let slots = slots_at(k);
    let s = &slots;
    let c_field_count: u64 = fl.c_field_count;
    let ghost p = method_count_score(mem@, ps@, slots, c_field_count as int);
    let f = |off: u64| -> (v: usize)
        requires
            mem.wf(),
        ensures
            v == p(off as int),
        { score_method_count(mem, ps, s, c_field_count, off) };
    let (n, c_method_count): (usize, u64) = match best_where(
        0x80,
        2,
        128,
        f,
        aborted,
        1,
        Ghost(p),
    ) {
        Some(b) => b,
        None => {
            return Err(CalibrationError::Aborted);
        },
    };
    if n < 8 {
        return Err(CalibrationError::NoMethodCount);
    }
    let size: u64 = image_span(mem, base);
    let ghost p = code_fits(mem@, ps@, slots, base as int);
    let f = |off: u64| -> (b: bool)
        requires
            mem.wf(),
            size == image_size(mem@, base as int),
        ensures
            b == p(off as int),
        { fits_code(mem, ps, s, base, size, off) };
    let m_ptr: u64 = match first_where(0, 8, 0x20, f, Ghost(p)) {
        Some(x) => x,
        None => {
            return Err(CalibrationError::NoMethodPointer);
        },
    };
    let c_name: u64 = cl.c_name;
    let ghost p = reads_at(mem@, c_name as int, "String"@);
    let f = |c: u64| -> (b: bool)
        requires
            mem.wf(),
        ensures
            b == p(c),
        { reads(mem, c, c_name, "String") };
    let c: u64 = match find_where(cs, f, Ghost(p)) {
        Some(c) => c,
        None => {
            return Err(CalibrationError::NoStringMethods);
        },
    };
    let count: u64 = match mem.read_u16(c, c_method_count) {
        Some(v) => v as u64,
        None => 0,
    };
    let (gl, inoe): (u64, u64) = match (
        find_last(mem, s, c, "get_Length", count),
        find_last(mem, s, c, "IsNullOrEmpty", count),
    ) {
        (Some(a), Some(b)) => (a, b),
        _ => {
            return Err(CalibrationError::NoStringMethods);
        },
    };
    proof {
        lemma_method_part(mem@, cs@, ps@, *cl, *fl, corlib as int, base as int);
    }
    match calibrate_shape(mem, s, c, count, gl, inoe, corlib) {
        Ok((m_flags, m_param_count, m_bits, i_name)) => Ok(
            Layout {
                c_name,
                c_namespace: cl.c_namespace,
                c_byval: cl.c_byval,
                c_parent: cl.c_parent,
                c_fields,
                c_field_count,
                c_methods: s.c_methods,
                c_method_count,
                f_name: fl.slots.f_name,
                f_parent: fl.slots.f_parent,
                f_offset: fl.f_offset,
                f_stride: fl.slots.f_stride,
                m_ptr,
                m_name: s.m_name,
                m_klass: s.m_klass,
                m_flags,
                m_param_count,
                m_bits,
                i_name,
            },
        ),
        Err(e) => Err(e),
    }
}

/// The class structure is found, so that the passes that can be aborted run.
pub open spec fn abortable(m: Map<int, u8>, corlib: u64, classes: Seq<u64>) -> bool {
    &&& corlib != 0
    &&& classes.len() >= 32
    &&& samples_of(m, classes).len() >= 32
    &&& class_part(m, samples_of(m, classes)) is Ok
}

/// Finds the layout of the metadata. `aborted` is asked while the expensive
/// passes run; unless it says yes, the layout, or the reason why there is none,
/// is that of `calibrated`.
pub fn calibrate<G: Fn() -> bool>(
    mem: &Memory,
    corlib: u64,
    classes: &Vec<u64>,
    base: u64,
    s_len: i32,
    s_chars: i32,
    aborted: &G,
) -> (r: Result<Layout, CalibrationError>)
    requires
        mem.wf(),
        call_requires(aborted, ()),
    ensures
        r == Err::<Layout, _>(CalibrationError::Aborted) ==> {
            &&& call_ensures(aborted, (), true)
            &&& abortable(mem@, corlib, classes@)
        },
        abortable(mem@, corlib, classes@) && (forall|b: bool| call_ensures(aborted, (), b) ==> b)
            ==> r == Err::<Layout, _>(CalibrationError::Aborted),
        r != Err::<Layout, _>(CalibrationError::Aborted) ==> r == calibrated(
            mem@,
            corlib,
            classes@,
            base,
            s_len,
            s_chars,
        ),
{
    if corlib == 0 {
        return Err(CalibrationError::NoCorlib);
    }
    if classes.len() < 32 {
        return Err(CalibrationError::TooFewClasses);
    }
    let top: usize = if classes.len() < SAMPLE_MAX {
        classes.len()
    } else {
        SAMPLE_MAX
    };
    let ghost p = is_class(mem@);
    let f = |c: u64| -> (b: bool)
        requires
            mem.wf(),
        ensures
            b == p(c),
        { mem.readable(c, CLASS_WINDOW) };
    let cs: Vec<u64> = keep_where(classes, top, f, Ghost(p));
    if cs.len() < 32 {
        return Err(CalibrationError::TooFewReadable);
    }
    let step: usize = if cs.len() / PROBE_MAX > 1 {
        cs.len() / PROBE_MAX
    } else {
        1
    };
    let ps: Vec<u64> = spread_of(&cs, step, PROBE_MAX);
    let cl: ClassPart = match calibrate_classes(mem, &cs) {
        Ok(x) => x,
        Err(e) => {
            return Err(e);
        },
    };
    let fl: FieldPart = match calibrate_fields(mem, &ps, cl.a_str, s_len, s_chars, aborted) {
        Ok(x) => x,
        Err(e) => {
            return Err(e);
        },
    };
    calibrate_methods(mem, &cs, &ps, &cl, &fl, corlib, base, aborted)
}

// ── what every layout that is found has ──────────────────────────────────────

impl Layout {
    /// The offsets lie in the structures they belong to, and no two that must
    /// differ are the same.
    pub open spec fn sound(&self) -> bool {
        &&& self.c_name < 0x80
        &&& self.c_namespace < 0x60
        &&& self.c_namespace != self.c_name
        &&& 0x18 <= self.c_byval < 0x80
        &&& self.c_parent < 0xA0
        &&& self.c_parent != self.c_byval
        &&& self.c_fields < 0x180
        &&& 0x80 <= self.c_field_count < 0x180
        &&& self.c_methods < 0x180
        &&& self.c_methods != self.c_fields
        &&& 0x80 <= self.c_method_count < 0x180
        &&& self.c_method_count != self.c_field_count
        &&& self.f_name < 0x20
        &&& self.f_parent < 0x20
        &&& self.f_name != self.f_parent
        &&& self.f_offset < self.f_stride
        &&& 0x10 <= self.f_stride <= 0x30
        &&& self.m_ptr < 0x20
        &&& self.m_name < 0x40
        &&& self.m_klass < 0x40
        &&& self.m_name != self.m_klass
        &&& 0x30 <= self.m_flags < 0x60
        &&& 0x30 <= self.m_param_count < 0x60
        &&& self.m_bits == self.m_param_count + 1
        &&& self.i_name < 0x40
    }
}

/// What is first satisfies the test, and is one of the entries.
proof fn lemma_first_in(s: Seq<u64>, p: spec_fn(u64) -> bool)
    ensures
        search::first_in(s, p) matches Some(x) ==> p(x) && s.contains(x),
    decreases s.len(),
{
    if s.len() > 0 {
        lemma_first_in(s.drop_last(), p);
        assert(s.last() == s[s.len() - 1]);
        if let Some(x) = search::first_in(s.drop_last(), p) {
            let i = choose|i: int| 0 <= i < s.drop_last().len() && s.drop_last()[i] == x;
            assert(s[i] == x);
        }
    }
}

proof fn lemma_class_part(m: Map<int, u8>, cs: Seq<u64>)
    ensures
        class_part(m, cs) matches Ok(cl) ==> {
            &&& cl.c_name < 0x80
            &&& cl.c_namespace < 0x60
            &&& cl.c_namespace != cl.c_name
            &&& 0x18 <= cl.c_byval < 0x80
            &&& cl.c_parent < 0xA0
            &&& cl.c_parent != cl.c_byval
            &&& cs.contains(cl.a_str)
            &&& text_is(m, cl.a_str + cl.c_name, "String"@)
            &&& text_is(m, cl.a_str + cl.c_namespace, "System"@)
            &&& element_of(m, cl.a_str as int, cl.c_byval as int) == Some(0x0enat)
            &&& memory::ptr_val(m, cl.a_str + cl.c_parent) matches Some(p)
            &&& text_is(m, p + cl.c_name, "Object"@)
        },
{
    if class_part(m, cs) is Ok {
        let s1 = name_score(m, cs);
        let name = search::best(s1, 0, 8, 16);
        search::lemma_best_in_range(s1, 0, 8, 16);
        let s2 = namespace_score(m, cs, name.1);
        let space = search::best(s2, 0, 8, 12);
        search::lemma_best_in_range(s2, 0, 8, 12);
        search::law_best_is_first_maximum(s2, 0, 8, 12, 0);
        lemma_first_in(cs, in_system(m, name.1, space.1, "String"@));
        let a_str = search::first_in(cs, in_system(m, name.1, space.1, "String"@))->0;
        let a_obj = search::first_in(cs, in_system(m, name.1, space.1, "Object"@))->0;
        let a_i32 = search::first_in(cs, in_system(m, name.1, space.1, "Int32"@))->0;
        let fits = byval_fits(m, cs, a_str as int, a_obj as int, a_i32 as int);
        search::law_first_from(fits, 0x18, 8, 0x80);
        let byval = search::first_from(fits, 0x18, 8, 0x80)->0;
        let s3 = parent_score(m, cs, name.1, byval, a_str as int);
        search::lemma_best_in_range(s3, 0, 8, 20);
        search::law_best_is_first_maximum(s3, 0, 8, 20, 0);
    }
}

/// One of the class's own fields lies at `off`.
pub open spec fn field_lies_at(m: Map<int, u8>, fl: FieldPart, c: int, off: int) -> bool {
    exists|e: u64| #[trigger]
        owned_entries(m, fl.slots, c, few_fields(m, c, fl.c_field_count as int)).contains(e)
            && memory::int_val(m, e + fl.f_offset) == Some(off)
}

/// The two fields of strings lie where the engine says.
pub open spec fn fields_anchored(
    m: Map<int, u8>,
    fl: FieldPart,
    c: int,
    s_len: int,
    s_chars: int,
) -> bool {
    field_lies_at(m, fl, c, s_len) && field_lies_at(m, fl, c, s_chars)
}

/// The field part of a layout.
pub open spec fn fields_of(l: Layout) -> FieldPart {
    FieldPart {
        slots: FieldSlots {
            c_fields: l.c_fields,
            f_name: l.f_name,
            f_parent: l.f_parent,
            f_stride: l.f_stride,
        },
        c_field_count: l.c_field_count,
        f_offset: l.f_offset,
    }
}

proof fn lemma_field_part(m: Map<int, u8>, ps: Seq<u64>, a_str: u64, s_len: i32, s_chars: i32)
    ensures
        field_part(m, ps, a_str, s_len, s_chars) matches Ok(fl) ==> {
            &&& fl.slots.c_fields < 0x180
            &&& fl.slots.f_name < 0x20
            &&& fl.slots.f_parent < 0x20
            &&& fl.slots.f_name != fl.slots.f_parent
            &&& 0x10 <= fl.slots.f_stride <= 0x30
            &&& 0x80 <= fl.c_field_count < 0x180
            &&& fl.f_offset < fl.slots.f_stride
            &&& fields_anchored(m, fl, a_str as int, s_len as int, s_chars as int)
        },
{
    if field_part(m, ps, a_str, s_len, s_chars) is Ok {
        let s1 = field_score(m, ps);
        let votes = search::best(s1, 0, 1, 768);
        search::lemma_best_in_range(s1, 0, 1, 768);
        search::law_best_is_first_maximum(s1, 0, 1, 768, 0);
        let slots = slots_of(m, ps, votes.1);
        let s2 = field_count_score(m, ps, slots);
        let count = search::best(s2, 0x80, 2, 128);
        search::lemma_best_in_range(s2, 0x80, 2, 128);
        let entries = owned_entries(m, slots, a_str as int, few_fields(m, a_str as int, count.1));
        search::law_first_from(
            offset_fits(m, entries, s_len as int, s_chars as int),
            0,
            4,
            slots.f_stride as int,
        );
        let off = search::first_from(
            offset_fits(m, entries, s_len as int, s_chars as int),
            0,
            4,
            slots.f_stride as int,
        )->0;
        lemma_first_in(entries, holds_int(m, off, s_len as int));
        lemma_first_in(entries, holds_int(m, off, s_chars as int));
    }
}

/// What is named last is a record of the class, with that name.
proof fn lemma_last_named(m: Map<int, u8>, s: MethodSlots, c: int, t: Seq<char>, n: nat)
    ensures
        last_named(m, s, c, t, n) matches Some(x) ==> {
            &&& text_is(m, x + s.m_name, t)
            &&& exists|i: int| 0 <= i < n && #[trigger] method_at(m, s, c, i) == Some(x)
        },
    decreases n,
{
    if n > 0 {
        lemma_last_named(m, s, c, t, (n - 1) as nat);
        assert(method_at(m, s, c, n - 1) == method_at(m, s, c, n - 1));
    }
}

proof fn lemma_method_part(
    m: Map<int, u8>,
    cs: Seq<u64>,
    ps: Seq<u64>,
    cl: ClassPart,
    fl: FieldPart,
    corlib: int,
    base: int,
)
    ensures
        method_part(m, cs, ps, cl, fl, corlib, base) matches Ok(l) ==> methods_found(
            m,
            cs,
            cl,
            fl,
            corlib,
            l,
        ),
{
    if method_part(m, cs, ps, cl, fl, corlib, base) is Ok {
        let s1 = method_score(m, ps, fl.slots.c_fields as int);
        let votes = search::best(s1, 0, 1, 3072);
        search::lemma_best_in_range(s1, 0, 1, 3072);
        search::law_best_is_first_maximum(s1, 0, 1, 3072, 0);
        let s = method_slots(votes.1);
        let s2 = method_count_score(m, ps, s, fl.c_field_count as int);
        let n = search::best(s2, 0x80, 2, 128);
        search::lemma_best_in_range(s2, 0x80, 2, 128);
        search::law_best_is_first_maximum(s2, 0x80, 2, 128, 0);
        search::law_first_from(code_fits(m, ps, s, base), 0, 8, 0x20);
        let c = search::first_in(cs, reads_at(m, cl.c_name as int, "String"@))->0;
        let count = count_at(m, c as int, n.1);
        let gl = last_named(m, s, c as int, "get_Length"@, count)->0;
        let inoe = last_named(m, s, c as int, "IsNullOrEmpty"@, count)->0;
        search::law_first_from(
            params_fit(m, s, c as int, count, gl as int, inoe as int),
            0x30,
            1,
            0x60,
        );
        search::law_first_from(flags_fit(m, gl as int, inoe as int), 0x30, 2, 0x60);
        search::law_first_from(image_fits(m, corlib), 0, 8, 0x40);
        lemma_first_in(cs, reads_at(m, cl.c_name as int, "String"@));
        lemma_last_named(m, s, c as int, "get_Length"@, count);
        lemma_last_named(m, s, c as int, "IsNullOrEmpty"@, count);
        let l = method_part(m, cs, ps, cl, fl, corlib, base)->Ok_0;
        assert(s == MethodSlots { c_methods: l.c_methods, m_name: l.m_name, m_klass: l.m_klass });
        assert(method_of(m, l, c as int, gl, "get_Length"@));
        assert(method_of(m, l, c as int, inoe, "IsNullOrEmpty"@));
        assert(methods_anchored(m, l, c as int));
        assert(cs.contains(c));
    }
}

/// Every layout that is found is sound.
pub proof fn law_layout_sound(
    m: Map<int, u8>,
    corlib: u64,
    classes: Seq<u64>,
    base: u64,
    s_len: i32,
    s_chars: i32,
)
    ensures
        calibrated(m, corlib, classes, base, s_len, s_chars) matches Ok(l) ==> l.sound(),
{
    if calibrated(m, corlib, classes, base, s_len, s_chars) is Ok {
        let cs = samples_of(m, classes);
        let ps = probes_of(cs);
        lemma_class_part(m, cs);
        let cl = class_part(m, cs)->Ok_0;
        lemma_field_part(m, ps, cl.a_str, s_len, s_chars);
        let fl = field_part(m, ps, cl.a_str, s_len, s_chars)->Ok_0;
        lemma_method_part(m, cs, ps, cl, fl, corlib as int, base as int);
    }
}

/// Every sample is one of the classes.
proof fn lemma_sample_listed(m: Map<int, u8>, classes: Seq<u64>, c: u64)
    requires
        samples_of(m, classes).contains(c),
    ensures
        classes.contains(c),
{
    let top = if classes.len() < SAMPLE_MAX {
        classes.len() as int
    } else {
        SAMPLE_MAX as int
    };
    classes.take(top).lemma_filter_contains_rev(is_class(m), c);
    let i = choose|i: int| 0 <= i < top && classes.take(top)[i] == c;
    assert(classes[i] == c);
}

/// Under every layout that is found, one of the classes is `System.String`, its
/// parent is Object, its element type is that of strings, and two of its fields
/// lie where the engine says; a class called String has a `get_Length` without
/// parameters and a static `IsNullOrEmpty` with one; and the core library is
/// called mscorlib.
pub proof fn law_layout_anchored(
    m: Map<int, u8>,
    corlib: u64,
    classes: Seq<u64>,
    base: u64,
    s_len: i32,
    s_chars: i32,
)
    ensures
        calibrated(m, corlib, classes, base, s_len, s_chars) matches Ok(l) ==> {
            &&& il2cpp::str_val(m, corlib + l.i_name) matches Some(t)
            &&& text::begins(t, "mscorlib"@)
            &&& exists|c: u64| #[trigger]
                classes.contains(c) && text_is(m, c + l.c_name, "String"@) && text_is(
                    m,
                    c + l.c_namespace,
                    "System"@,
                ) && element_of(m, c as int, l.c_byval as int) == Some(0x0enat) && (
                memory::ptr_val(m, c + l.c_parent) matches Some(p) && text_is(
                    m,
                    p + l.c_name,
                    "Object"@,
                )) && fields_anchored(m, fields_of(l), c as int, s_len as int, s_chars as int)
            &&& exists|c: u64| #[trigger]
                classes.contains(c) && text_is(m, c + l.c_name, "String"@) && methods_anchored(
                    m,
                    l,
                    c as int,
                )
        },
{
    if calibrated(m, corlib, classes, base, s_len, s_chars) is Ok {
        let cs = samples_of(m, classes);
        let ps = probes_of(cs);
        lemma_class_part(m, cs);
        let cl = class_part(m, cs)->Ok_0;
        lemma_field_part(m, ps, cl.a_str, s_len, s_chars);
        let fl = field_part(m, ps, cl.a_str, s_len, s_chars)->Ok_0;
        lemma_method_part(m, cs, ps, cl, fl, corlib as int, base as int);
        let l = calibrated(m, corlib, classes, base, s_len, s_chars)->Ok_0;
        assert(fields_of(l) == fl);
        lemma_sample_listed(m, classes, cl.a_str);
        let c = choose|c: u64| #[trigger]
            cs.contains(c) && text_is(m, c + l.c_name, "String"@) && methods_anchored(
                m,
                l,
                c as int,
            );
        lemma_sample_listed(m, classes, c);
    }
}

// ── the reference layout ─────────────────────────────────────────────────────

/// The layout of a build that was measured by hand. Nothing is read through it:
/// it only makes a change of layout announce itself.
pub open spec fn reference() -> Layout {
    Layout {
        c_name: 0x10,
        c_namespace: 0x18,
        c_byval: 0x20,
        c_parent: 0x58,
        c_fields: 0x80,
        c_field_count: 0x124,
        c_methods: 0x98,
        c_method_count: 0x120,
        f_name: 0x00,
        f_parent: 0x10,
        f_offset: 0x18,
        f_stride: 0x20,
        m_ptr: 0x00,
        m_name: 0x18,
        m_klass: 0x20,
        m_flags: 0x4C,
        m_param_count: 0x52,
        m_bits: 0x53,
        i_name: 0x00,
    }
}

fn reference_layout() -> (l: Layout)
    ensures
        l == reference(),
{
    Layout {
        c_name: 0x10,
        c_namespace: 0x18,
        c_byval: 0x20,
        c_parent: 0x58,
        c_fields: 0x80,
        c_field_count: 0x124,
        c_methods: 0x98,
        c_method_count: 0x120,
        f_name: 0x00,
        f_parent: 0x10,
        f_offset: 0x18,
        f_stride: 0x20,
        m_ptr: 0x00,
        m_name: 0x18,
        m_klass: 0x20,
        m_flags: 0x4C,
        m_param_count: 0x52,
        m_bits: 0x53,
        i_name: 0x00,
    }
}

/// One difference, as it is reported.
pub open spec fn diff_text(name: Seq<char>, got: nat, want: nat) -> Seq<char> {
    name + ": got "@ + text::hex_text(got) + " expected "@ + text::hex_text(want)
}

/// The report with one more field compared.
pub open spec fn compared(diffs: Seq<Seq<char>>, name: Seq<char>, got: u64, want: u64) -> Seq<
    Seq<char>,
> {
    if got != want {
        diffs.push(diff_text(name, got as nat, want as nat))
    } else {
        diffs
    }
}

/// Every difference between a layout and the reference, in the order of the
/// fields.
pub open spec fn drift(l: Layout) -> Seq<Seq<char>> {
    let d = compared(Seq::empty(), "c_name"@, l.c_name, reference().c_name);
    let d = compared(d, "c_namespace"@, l.c_namespace, reference().c_namespace);
    let d = compared(d, "c_byval"@, l.c_byval, reference().c_byval);
    let d = compared(d, "c_parent"@, l.c_parent, reference().c_parent);
    let d = compared(d, "c_fields"@, l.c_fields, reference().c_fields);
    let d = compared(d, "c_field_count"@, l.c_field_count, reference().c_field_count);
    let d = compared(d, "c_methods"@, l.c_methods, reference().c_methods);
    let d = compared(d, "c_method_count"@, l.c_method_count, reference().c_method_count);
    let d = compared(d, "f_name"@, l.f_name, reference().f_name);
    let d = compared(d, "f_parent"@, l.f_parent, reference().f_parent);
    let d = compared(d, "f_offset"@, l.f_offset, reference().f_offset);
    let d = compared(d, "f_stride"@, l.f_stride, reference().f_stride);
    let d = compared(d, "m_ptr"@, l.m_ptr, reference().m_ptr);
    let d = compared(d, "m_name"@, l.m_name, reference().m_name);
    let d = compared(d, "m_klass"@, l.m_klass, reference().m_klass);
    let d = compared(d, "m_flags"@, l.m_flags, reference().m_flags);
    let d = compared(d, "m_param_count"@, l.m_param_count, reference().m_param_count);
    let d = compared(d, "m_bits"@, l.m_bits, reference().m_bits);
    compared(d, "i_name"@, l.i_name, reference().i_name)
}

fn compare_field(diffs: &mut Vec<String>, name: &str, got: u64, want: u64)
    ensures
        text::texts(final(diffs)@) == compared(text::texts(old(diffs)@), name@, got, want),
{
    if got != want {
        let mut s = copy_of(name);
        s.append(": got ");
        push_hex(&mut s, got);
        s.append(" expected ");
        push_hex(&mut s, want);
        assert(s@ == diff_text(name@, got as nat, want as nat));
        diffs.push(s);
        assert(text::texts(diffs@) =~= text::texts(old(diffs)@).push(s@));
    }
}

/// Compares a layout with the reference and returns every difference.
pub fn self_test(l: &Layout) -> (diffs: Vec<String>)
    ensures
        text::texts(diffs@) == drift(*l),
{
    let e = reference_layout();
    let mut d: Vec<String> = Vec::new();
    assert(text::texts(d@) =~= Seq::empty());
    compare_field(&mut d, "c_name", l.c_name, e.c_name);
    compare_field(&mut d, "c_namespace", l.c_namespace, e.c_namespace);
    compare_field(&mut d, "c_byval", l.c_byval, e.c_byval);
    compare_field(&mut d, "c_parent", l.c_parent, e.c_parent);
    compare_field(&mut d, "c_fields", l.c_fields, e.c_fields);
    compare_field(&mut d, "c_field_count", l.c_field_count, e.c_field_count);
    compare_field(&mut d, "c_methods", l.c_methods, e.c_methods);
    compare_field(&mut d, "c_method_count", l.c_method_count, e.c_method_count);
    compare_field(&mut d, "f_name", l.f_name, e.f_name);
    compare_field(&mut d, "f_parent", l.f_parent, e.f_parent);
    compare_field(&mut d, "f_offset", l.f_offset, e.f_offset);
    compare_field(&mut d, "f_stride", l.f_stride, e.f_stride);
    compare_field(&mut d, "m_ptr", l.m_ptr, e.m_ptr);
    compare_field(&mut d, "m_name", l.m_name, e.m_name);
    compare_field(&mut d, "m_klass", l.m_klass, e.m_klass);
    compare_field(&mut d, "m_flags", l.m_flags, e.m_flags);
    compare_field(&mut d, "m_param_count", l.m_param_count, e.m_param_count);
    compare_field(&mut d, "m_bits", l.m_bits, e.m_bits);
    compare_field(&mut d, "i_name", l.i_name, e.i_name);
    d
}

/// Nothing is reported of the reference itself, and something of every other
/// layout.
pub proof fn law_drift(l: Layout)
    ensures
        drift(l).len() == 0 <==> l == reference(),
{
}

} // verus!
