//! Looking things up by walking calibrated metadata: images, classes, fields,
//! methods and strings. No offset here is a constant.

use vstd::prelude::*;

use crate::il2cpp;
use crate::il2cpp::str_at;
use crate::il2cpp_abi;
use crate::il2cpp_abi::{is_static, Layout, MethodSlots};
use crate::memory;
use crate::memory::Memory;
use crate::runtime::{Backend, Class, Field, Image, Method, Object, ScriptRuntime};
use crate::search;
use crate::search::{find_where, first_where};
use crate::text;
use crate::text::{chars_of, eq_ignore_case, same, strip_tail};

verus! {

/// Some scalar values are characters: `char::from_u32` gives the character of
/// every number that is one, and nothing for the others (surrogates, and what
/// lies above the last character).
pub assume_specification [char::from_u32](i: u32) -> (r: Option<char>)
    ensures
        r is Some <==> (i < 0xD800 || 0xE000 <= i <= 0x10FFFF),
        r matches Some(c) ==> c == i as char,
;

// ── what the metadata says ───────────────────────────────────────────────────

/// The text that the pointer at `a` leads to; empty where there is none.
pub open spec fn text_or_empty(m: Map<int, u8>, a: int) -> Seq<char> {
    match il2cpp::str_val(m, a) {
        Some(s) => s,
        None => Seq::empty(),
    }
}

/// A number of `n` bytes, 0 where it cannot be read.
pub open spec fn val_or_zero(m: Map<int, u8>, a: int, n: nat) -> nat {
    match memory::val(m, a, n) {
        Some(v) => v,
        None => 0,
    }
}

/// Field entry `i` of a class, where it is readable.
pub open spec fn field_entry(m: Map<int, u8>, l: Layout, c: int, i: int) -> Option<int> {
    match memory::ptr_val(m, c + l.c_fields) {
        Some(p) => if memory::has(m, p + i * l.f_stride, l.f_stride as int) {
            Some(p + i * l.f_stride)
        } else {
            None
        },
        None => None,
    }
}

pub open spec fn field_total(m: Map<int, u8>, l: Layout, c: int) -> nat {
    val_or_zero(m, c + l.c_field_count, 2)
}

/// The entries with that name.
pub open spec fn field_named(m: Map<int, u8>, l: Layout, c: int, name: Seq<char>) -> spec_fn(
    int,
) -> bool {
    |i: int|
        field_entry(m, l, c, i) matches Some(e) && il2cpp::str_val(m, e + l.f_name) == Some(name)
}

/// The class's own field of that name, the first of them.
pub open spec fn own_field(m: Map<int, u8>, l: Layout, c: int, name: Seq<char>) -> Option<Field> {
    match search::first_from(field_named(m, l, c, name), 0, 1, field_total(m, l, c) as int) {
        Some(i) => Some(Field(field_entry(m, l, c, i)->0 as u64)),
        None => None,
    }
}

pub open spec fn slots(l: Layout) -> MethodSlots {
    MethodSlots { c_methods: l.c_methods, m_name: l.m_name, m_klass: l.m_klass }
}

pub open spec fn method_total(m: Map<int, u8>, l: Layout, c: int) -> nat {
    val_or_zero(m, c + l.c_method_count, 2)
}

pub open spec fn method_name(m: Map<int, u8>, l: Layout, x: int) -> Seq<char> {
    text_or_empty(m, x + l.m_name)
}

pub open spec fn method_argc(m: Map<int, u8>, l: Layout, x: int) -> nat {
    val_or_zero(m, x + l.m_param_count, 1)
}

pub open spec fn method_is_generic(m: Map<int, u8>, l: Layout, x: int) -> bool {
    val_or_zero(m, x + l.m_bits, 1) % 2 == 1
}

pub open spec fn method_is_static(m: Map<int, u8>, l: Layout, x: int) -> bool {
    il2cpp_abi::static_bit(val_or_zero(m, x + l.m_flags, 2))
}

/// The records with that name and number of arguments; a negative number fits
/// all.
pub open spec fn method_fits(
    m: Map<int, u8>,
    l: Layout,
    c: int,
    name: Seq<char>,
    argc: int,
) -> spec_fn(int) -> bool {
    |i: int|
        {
            &&& il2cpp_abi::method_at(m, slots(l), c, i) matches Some(x)
            &&& method_name(m, l, x as int) == name
            &&& argc < 0 || method_argc(m, l, x as int) == argc
        }
}

/// The same, leaving out methods with a type parameter.
pub open spec fn exact_fits(
    m: Map<int, u8>,
    l: Layout,
    c: int,
    name: Seq<char>,
    argc: int,
) -> spec_fn(int) -> bool {
    |i: int|
        {
            &&& il2cpp_abi::method_at(m, slots(l), c, i) matches Some(x)
            &&& !method_is_generic(m, l, x as int)
            &&& method_name(m, l, x as int) == name
            &&& method_argc(m, l, x as int) == argc
        }
}

/// The static methods with that name and number of arguments.
pub open spec fn static_fits(
    m: Map<int, u8>,
    l: Layout,
    c: int,
    name: Seq<char>,
    argc: int,
) -> spec_fn(int) -> bool {
    |i: int|
        {
            &&& il2cpp_abi::method_at(m, slots(l), c, i) matches Some(x)
            &&& method_name(m, l, x as int) == name
            &&& method_argc(m, l, x as int) == argc
            &&& method_is_static(m, l, x as int)
        }
}

/// The first of the class's own records that fits.
pub open spec fn first_method(m: Map<int, u8>, l: Layout, c: int, fits: spec_fn(int) -> bool) -> Option<
    Method,
> {
    match search::first_from(fits, 0, 1, method_total(m, l, c) as int) {
        Some(i) => Some(Method(il2cpp_abi::method_at(m, slots(l), c, i)->0 as u64)),
        None => None,
    }
}

// ── base classes ─────────────────────────────────────────────────────────────

/// The base class, where there is another one.
pub open spec fn base_of(m: Map<int, u8>, l: Layout, c: int) -> Option<int> {
    match memory::ptr_val(m, c + l.c_parent) {
        Some(p) => if p == c {
            None
        } else {
            Some(p as int)
        },
        None => None,
    }
}

/// The base class `k` steps up.
pub open spec fn ancestor(m: Map<int, u8>, l: Layout, c: int, k: nat) -> Option<int>
    decreases k,
{
    if k == 0 {
        Some(c)
    } else {
        match ancestor(m, l, c, (k - 1) as nat) {
            Some(x) => base_of(m, l, x),
            None => None,
        }
    }
}

/// The class `k` steps up satisfies `p`, and none below it does.
pub open spec fn nearest(m: Map<int, u8>, l: Layout, c: int, p: spec_fn(int) -> bool, k: nat) -> bool {
    &&& ancestor(m, l, c, k) matches Some(x)
    &&& p(x)
    &&& forall|j: nat| j < k ==> (#[trigger] ancestor(m, l, c, j) matches Some(y) && !p(y))
}

/// The nearest class, the class itself or a base class of it, that satisfies
/// `p`.
pub open spec fn nearest_class(m: Map<int, u8>, l: Layout, c: int, p: spec_fn(int) -> bool) -> Option<
    int,
> {
    if exists|k: nat| nearest(m, l, c, p, k) {
        ancestor(m, l, c, choose|k: nat| nearest(m, l, c, p, k))
    } else {
        None
    }
}

/// Only one class is the nearest.
proof fn lemma_nearest(m: Map<int, u8>, l: Layout, c: int, p: spec_fn(int) -> bool, k: nat)
    requires
        nearest(m, l, c, p, k),
    ensures
        nearest_class(m, l, c, p) == ancestor(m, l, c, k),
{
    let j = choose|j: nat| nearest(m, l, c, p, j);
    assert(nearest(m, l, c, p, j));
    if j < k {
        assert(ancestor(m, l, c, j) matches Some(y) && !p(y));
    } else if k < j {
        assert(ancestor(m, l, c, k) matches Some(y) && !p(y));
    }
}

/// A list of a class and the base classes above it: complete, though the base
/// classes may lead in a circle.
pub open spec fn is_lineage(m: Map<int, u8>, l: Layout, c: int, chain: Seq<u64>) -> bool {
    &&& chain.len() > 0
    &&& forall|i: int|
        0 <= i < chain.len() ==> ancestor(m, l, c, i as nat) == Some(#[trigger] chain[i] as int)
    &&& match base_of(m, l, chain.last() as int) {
        None => true,
        Some(b) => exists|j: int| 0 <= j < chain.len() && #[trigger] chain[j] == b,
    }
}

/// Every base class is on the list.
proof fn lemma_lineage_complete(m: Map<int, u8>, l: Layout, c: int, chain: Seq<u64>, k: nat)
    requires
        is_lineage(m, l, c, chain),
    ensures
        ancestor(m, l, c, k) matches Some(x) ==> exists|j: int|
            0 <= j < chain.len() && #[trigger] chain[j] == x,
    decreases k,
{
    if k < chain.len() {
        assert(ancestor(m, l, c, k) == Some(chain[k as int] as int));
    } else {
        lemma_lineage_complete(m, l, c, chain, (k - 1) as nat);
        match ancestor(m, l, c, (k - 1) as nat) {
            Some(x) => {
                let j = choose|j: int| 0 <= j < chain.len() && #[trigger] chain[j] == x;
                if j + 1 < chain.len() {
                    assert(ancestor(m, l, c, (j + 1) as nat) == Some(chain[j + 1] as int));
                    assert(ancestor(m, l, c, j as nat) == Some(chain[j] as int));
                } else {
                    assert(x == chain.last());
                }
            },
            None => {},
        }
    }
}

/// A list of different addresses is no longer than there are addresses.
proof fn lemma_distinct_bound(s: Seq<u64>)
    requires
        s.no_duplicates(),
    ensures
        s.len() <= 0x1_0000_0000_0000_0000,
{
    let t = Seq::new(s.len(), |i: int| s[i] as int);
    assert(t.no_duplicates()) by {
        assert forall|i: int, j: int| 0 <= i < t.len() && 0 <= j < t.len() && i != j implies t[i]
            != t[j] by {
            assert(s[i] != s[j]);
        }
    }
    t.unique_seq_to_set();
    let all = vstd::set_lib::set_int_range(0, 0x1_0000_0000_0000_0000);
    vstd::set_lib::lemma_int_range(0, 0x1_0000_0000_0000_0000);
    assert(t.to_set().subset_of(all)) by {
        assert forall|x: int| t.to_set().contains(x) implies all.contains(x) by {
            let i = choose|i: int| 0 <= i < t.len() && t[i] == x;
            assert(t[i] == s[i] as int);
        }
    }
    vstd::set_lib::lemma_len_subset(t.to_set(), all);
}

// ── class index ──────────────────────────────────────────────────────────────

/// A class under its namespace and name.
pub struct ClassEntry {
    pub namespace: String,
    pub name: String,
    pub class: u64,
}

/// The named classes of one image.
pub struct ImageIndex {
    pub image: Image,
    pub entries: Vec<ClassEntry>,
}

/// What an index says: namespace, name and class of each entry.
pub open spec fn entries_val(e: Seq<ClassEntry>) -> Seq<(Seq<char>, Seq<char>, u64)> {
    e.map_values(|x: ClassEntry| (x.namespace@, x.name@, x.class))
}

/// A class has a name that can be read.
pub open spec fn indexable(m: Map<int, u8>, l: Layout, c: u64) -> bool {
    memory::has(m, c as int, 0x40) && text_or_empty(m, c + l.c_name).len() > 0
}

/// The index of a list of classes.
pub open spec fn index_val(m: Map<int, u8>, l: Layout, classes: Seq<u64>) -> Seq<
    (Seq<char>, Seq<char>, u64),
>
    decreases classes.len(),
{
    if classes.len() == 0 {
        Seq::empty()
    } else {
        let before = index_val(m, l, classes.drop_last());
        let c = classes.last();
        if indexable(m, l, c) {
            before.push((text_or_empty(m, c + l.c_namespace), text_or_empty(m, c + l.c_name), c))
        } else {
            before
        }
    }
}

/// The first entry under that namespace and name.
pub open spec fn entry_class(
    e: Seq<(Seq<char>, Seq<char>, u64)>,
    namespace: Seq<char>,
    name: Seq<char>,
) -> Option<Class>
    decreases e.len(),
{
    if e.len() == 0 {
        None
    } else {
        match entry_class(e.drop_last(), namespace, name) {
            Some(c) => Some(c),
            None => if e.last().0 == namespace && e.last().1 == name {
                Some(Class(e.last().2))
            } else {
                None
            },
        }
    }
}

/// The classes with that namespace and name.
pub open spec fn class_named(m: Map<int, u8>, l: Layout, namespace: Seq<char>, name: Seq<char>) -> spec_fn(
    u64,
) -> bool {
    |c: u64|
        {
            &&& indexable(m, l, c)
            &&& text_or_empty(m, c + l.c_namespace) == namespace
            &&& text_or_empty(m, c + l.c_name) == name
        }
}

/// Looking a name up in the index of a list finds the first class of the list
/// that has it.
pub proof fn law_index_exact(
    m: Map<int, u8>,
    l: Layout,
    classes: Seq<u64>,
    namespace: Seq<char>,
    name: Seq<char>,
)
    ensures
        entry_class(index_val(m, l, classes), namespace, name) == (match search::first_in(
            classes,
            class_named(m, l, namespace, name),
        ) {
            Some(c) => Some(Class(c)),
            None => None,
        }),
    decreases classes.len(),
{
    if classes.len() > 0 {
        law_index_exact(m, l, classes.drop_last(), namespace, name);
        let before = index_val(m, l, classes.drop_last());
        if indexable(m, l, classes.last()) {
            assert(index_val(m, l, classes).drop_last() =~= before);
        }
    }
}

/// The index of an image among several, the first of them.
pub open spec fn index_for(ix: Seq<ImageIndex>, image: Image) -> Option<
    Seq<(Seq<char>, Seq<char>, u64)>,
>
    decreases ix.len(),
{
    if ix.len() == 0 {
        None
    } else {
        match index_for(ix.drop_last(), image) {
            Some(e) => Some(e),
            None => if ix.last().image == image {
                Some(entries_val(ix.last().entries@))
            } else {
                None
            },
        }
    }
}

/// All the classes of one image, in the order in which the runtime lists them.
pub struct ImageClasses {
    pub image: Image,
    pub classes: Vec<u64>,
}

/// What is listed for an image, the first of several lists.
pub open spec fn list_for(lists: Seq<ImageClasses>, image: Image) -> Option<Seq<u64>>
    decreases lists.len(),
{
    if lists.len() == 0 {
        None
    } else {
        match list_for(lists.drop_last(), image) {
            Some(c) => Some(c),
            None => if lists.last().image == image {
                Some(lists.last().classes@)
            } else {
                None
            },
        }
    }
}

/// The classes of an image; none where none are listed.
pub open spec fn classes_in(lists: Seq<ImageClasses>, image: Image) -> Seq<u64> {
    match list_for(lists, image) {
        Some(c) => c,
        None => Seq::empty(),
    }
}

proof fn lemma_list_prefix(lists: Seq<ImageClasses>, i: int, image: Image)
    requires
        0 <= i <= lists.len(),
        list_for(lists.take(i), image) is Some,
    ensures
        list_for(lists, image) == list_for(lists.take(i), image),
    decreases lists.len(),
{
    if i == lists.len() {
        assert(lists.take(i) =~= lists);
    } else {
        assert(lists.drop_last().take(i) =~= lists.take(i));
        lemma_list_prefix(lists.drop_last(), i, image);
    }
}

proof fn lemma_index_prefix(ix: Seq<ImageIndex>, i: int, image: Image)
    requires
        0 <= i <= ix.len(),
        index_for(ix.take(i), image) is Some,
    ensures
        index_for(ix, image) == index_for(ix.take(i), image),
    decreases ix.len(),
{
    if i == ix.len() {
        assert(ix.take(i) =~= ix);
    } else {
        assert(ix.drop_last().take(i) =~= ix.take(i));
        lemma_index_prefix(ix.drop_last(), i, image);
    }
}

proof fn lemma_entry_prefix(
    e: Seq<(Seq<char>, Seq<char>, u64)>,
    i: int,
    namespace: Seq<char>,
    name: Seq<char>,
)
    requires
        0 <= i <= e.len(),
        entry_class(e.take(i), namespace, name) is Some,
    ensures
        entry_class(e, namespace, name) == entry_class(e.take(i), namespace, name),
    decreases e.len(),
{
    if i == e.len() {
        assert(e.take(i) =~= e);
    } else {
        assert(e.drop_last().take(i) =~= e.take(i));
        lemma_entry_prefix(e.drop_last(), i, namespace, name);
    }
}

fn entry_lookup(e: &Vec<ClassEntry>, namespace: &str, name: &str) -> (r: Option<Class>)
    ensures
        r == entry_class(entries_val(e@), namespace@, name@),
{
    let ghost all = entries_val(e@);
    let mut i: usize = 0;
    while i < e.len()
        invariant
            i <= e.len(),
            all == entries_val(e@),
            entry_class(all.take(i as int), namespace@, name@) is None,
        decreases e.len() - i,
    {
        assert(all.take(i + 1).drop_last() =~= all.take(i as int));
        assert(all[i as int] == (e@[i as int].namespace@, e@[i as int].name@, e@[i as int].class));
        if same(e[i].namespace.as_str(), namespace) && same(e[i].name.as_str(), name) {
            proof {
                lemma_entry_prefix(all, i + 1, namespace@, name@);
            }
            return Some(Class(e[i].class));
        }
        i = i + 1;
    }
    assert(all.take(i as int) =~= all);
    None
}

/// Whether an address is on a list.
pub fn holds(s: &Vec<u64>, x: u64) -> (r: bool)
    ensures
        r == s@.contains(x),
{
    let mut i: usize = 0;
    while i < s.len()
        invariant
            i <= s.len(),
            forall|j: int| 0 <= j < i ==> #[trigger] s@[j] != x,
        decreases s.len() - i,
    {
        if s[i] == x {
            assert(s@[i as int] == x);
            return true;
        }
        i = i + 1;
    }
    false
}

// ── the runtime ──────────────────────────────────────────────────────────────

/// The metadata of the process under a calibrated layout.
pub struct Il2CppRuntime<'a> {
    /// What can be read.
    pub mem: Memory<'a>,
    pub l: Layout,
    /// Where a string has its length and its first character.
    pub s_len: u64,
    pub s_chars: u64,
    /// The image of each loaded assembly, null where it has none.
    pub images: Vec<u64>,
    /// The classes of the images, as the runtime lists them.
    pub lists: Vec<ImageClasses>,
    /// The images that were indexed.
    pub indexes: Vec<ImageIndex>,
    /// The abort flag is up: no image is indexed any more.
    pub stopped: bool,
}

/// The images of that assembly: the name without its suffix is the same but for
/// case.
pub open spec fn image_named(m: Map<int, u8>, l: Layout, assembly: Seq<char>) -> spec_fn(u64) -> bool {
    |g: u64|
        {
            &&& g != 0
            &&& il2cpp::str_val(m, g + l.i_name) matches Some(s)
            &&& text::same_but_case(text::without_tail(s, ".dll"@), assembly)
        }
}

impl<'a> Il2CppRuntime<'a> {
    /// The memory is a valid view and the layout one that calibration finds.
    pub open spec fn wf(&self) -> bool {
        self.mem.wf() && self.l.sound()
    }

    fn text_at(&self, p: u64, off: u64) -> (r: String)
        requires
            self.wf(),
        ensures
            r@ == text_or_empty(self.mem@, p + off),
    {
        match str_at(&self.mem, p, off) {
            Some(s) => s,
            None => String::new(),
        }
    }

    fn slots(&self) -> (s: MethodSlots)
        ensures
            s == slots(self.l),
    {
        MethodSlots { c_methods: self.l.c_methods, m_name: self.l.m_name, m_klass: self.l.m_klass }
    }

    fn u8_or_zero(&self, p: u64, off: u64) -> (r: u8)
        requires
            self.wf(),
        ensures
            r == val_or_zero(self.mem@, p + off, 1),
    {
        match self.mem.read_u8(p, off) {
            Some(v) => v,
            None => 0,
        }
    }

    fn u16_or_zero(&self, p: u64, off: u64) -> (r: u16)
        requires
            self.wf(),
        ensures
            r == val_or_zero(self.mem@, p + off, 2),
    {
        match self.mem.read_u16(p, off) {
            Some(v) => v,
            None => 0,
        }
    }

    fn field_at(&self, c: u64, i: u64) -> (r: Option<u64>)
        requires
            self.wf(),
            i <= 0x1_0000,
        ensures
            r matches Some(e) ==> field_entry(self.mem@, self.l, c as int, i as int) == Some(
                e as int,
            ),
            r is None ==> field_entry(self.mem@, self.l, c as int, i as int) is None,
    {
        let stride: u64 = self.l.f_stride;
        assert(i * stride <= 0x1_0000 * 0x30) by (nonlinear_arith)
            requires
                i <= 0x1_0000,
                stride <= 0x30,
        ;
        let d: u64 = i * stride;
        match self.mem.read_ptr(c, self.l.c_fields) {
            Some(p) => if self.mem.readable_at(p, d, stride) {
                proof {
                    self.mem.lemma_below_top(p + d);
                }
                Some(p + d)
            } else {
                None
            },
            None => None,
        }
    }

    /// The class itself and the base classes above it.
    fn lineage(&self, c: u64) -> (chain: Vec<u64>)
        requires
            self.wf(),
        ensures
            is_lineage(self.mem@, self.l, c as int, chain@),
    {
        let mut chain: Vec<u64> = Vec::new();
        let mut x: u64 = c;
        let ghost m = self.mem@;
        let ghost l = self.l;
        loop
            invariant_except_break
                chain@.no_duplicates(),
                !chain@.contains(x),
                ancestor(m, l, c as int, chain@.len()) == Some(x as int),
                forall|i: int|
                    0 <= i < chain@.len() ==> ancestor(m, l, c as int, i as nat) == Some(
                        #[trigger] chain@[i] as int,
                    ),
            invariant
                self.wf(),
                m == self.mem@,
                l == self.l,
            ensures
                is_lineage(m, l, c as int, chain@),
            decreases 0x1_0000_0000_0000_0000 - chain@.len(),
        {
            let ghost before = chain@;
            chain.push(x);
            proof {
                assert(chain@.no_duplicates()) by {
                    assert forall|i: int, j: int|
                        0 <= i < chain@.len() && 0 <= j < chain@.len() && i != j implies chain@[i]
                        != chain@[j] by {
                        if i == before.len() {
                            assert(before.contains(before[j]));
                        } else if j == before.len() {
                            assert(before.contains(before[i]));
                        }
                    }
                }
                lemma_distinct_bound(chain@);
            }
            let p: u64 = match self.mem.read_ptr(x, self.l.c_parent) {
                Some(p) => p,
                None => {
                    break ;
                },
            };
            if p == x {
                break ;
            }
            let seen: bool = holds(&chain, p);
            if seen {
                break ;
            }
            x = p;
        }
        chain
    }

    /// The nearest class that `f` accepts, the class itself or a base class.
    fn nearest_where<F: Fn(u64) -> bool>(
        &self,
        c: u64,
        f: F,
        Ghost(p): Ghost<spec_fn(int) -> bool>,
    ) -> (r: Option<u64>)
        requires
            self.wf(),
            forall|x: u64| #[trigger] call_requires(f, (x,)),
            forall|x: u64, b: bool| #[trigger] call_ensures(f, (x,), b) ==> b == p(x as int),
        ensures
            search::opt_int(r) == nearest_class(self.mem@, self.l, c as int, p),
            r matches Some(x) ==> p(x as int),
    {
        let chain: Vec<u64> = self.lineage(c);
        let ghost m = self.mem@;
        let ghost l = self.l;
        let mut i: usize = 0;
        while i < chain.len()
            invariant
                i <= chain@.len(),
                m == self.mem@,
                l == self.l,
                is_lineage(m, l, c as int, chain@),
                forall|j: int| 0 <= j < i ==> !p(#[trigger] chain@[j] as int),
                forall|x: u64| #[trigger] call_requires(f, (x,)),
                forall|x: u64, b: bool| #[trigger] call_ensures(f, (x,), b) ==> b == p(x as int),
            decreases chain@.len() - i,
        {
            if f(chain[i]) {
                proof {
                    assert(ancestor(m, l, c as int, i as nat) == Some(chain@[i as int] as int));
                    assert forall|j: nat| j < i as nat implies (#[trigger] ancestor(
                        m,
                        l,
                        c as int,
                        j,
                    ) matches Some(y) && !p(y)) by {
                        assert(ancestor(m, l, c as int, j) == Some(chain@[j as int] as int));
                    }
                    lemma_nearest(m, l, c as int, p, i as nat);
                }
                return Some(chain[i]);
            }
            i = i + 1;
        }
        proof {
            if exists|k: nat| nearest(m, l, c as int, p, k) {
                let k = choose|k: nat| nearest(m, l, c as int, p, k);
                lemma_lineage_complete(m, l, c as int, chain@, k);
            }
        }
        None
    }

    fn own_field(&self, c: u64, name: &str) -> (r: Option<Field>)
        requires
            self.wf(),
        ensures
            r == own_field(self.mem@, self.l, c as int, name@),
    {
        let n: u64 = self.u16_or_zero(c, self.l.c_field_count) as u64;
        let ghost p = field_named(self.mem@, self.l, c as int, name@);
        let f = |i: u64| -> (b: bool)
            requires
                self.wf(),
                i <= 0x1_0000,
            ensures
                b == p(i as int),
            { self.field_is(c, i, name) };
        match first_where(0, 1, n, f, Ghost(p)) {
            Some(i) => {
                proof {
                    search::law_first_from(p, 0, 1, n as int);
                }
                match self.field_at(c, i) {
                    Some(e) => Some(Field(e)),
                    None => None,
                }
            },
            None => None,
        }
    }

    fn field_is(&self, c: u64, i: u64, name: &str) -> (r: bool)
        requires
            self.wf(),
            i <= 0x1_0000,
        ensures
            r == field_named(self.mem@, self.l, c as int, name@)(i as int),
    {
        match self.field_at(c, i) {
            Some(e) => match str_at(&self.mem, e, self.l.f_name) {
                Some(s) => same(s.as_str(), name),
                None => false,
            },
            None => false,
        }
    }

    /// Whether record `i` fits: by name, by number of arguments where one is
    /// asked for, without a type parameter and static where that is asked for.
    fn method_is(&self, c: u64, i: u64, name: &str, argc: i64, exact: bool, stat: bool) -> (r: bool)
        requires
            self.wf(),
            i <= 0x1_0000,
        ensures
            !exact && !stat ==> r == method_fits(self.mem@, self.l, c as int, name@, argc as int)(
                i as int,
            ),
            exact && !stat && argc >= 0 ==> r == exact_fits(
                self.mem@,
                self.l,
                c as int,
                name@,
                argc as int,
            )(i as int),
            !exact && stat && argc >= 0 ==> r == static_fits(
                self.mem@,
                self.l,
                c as int,
                name@,
                argc as int,
            )(i as int),
    {
        let x: u64 = match self.slots().at(&self.mem, c, i) {
            Some(x) => x,
            None => {
                return false;
            },
        };
        if exact && self.u8_or_zero(x, self.l.m_bits) % 2 == 1 {
            return false;
        }
        if stat && !is_static(self.u16_or_zero(x, self.l.m_flags)) {
            return false;
        }
        same(self.text_at(x, self.l.m_name).as_str(), name) && (argc < 0 || self.u8_or_zero(
            x,
            self.l.m_param_count,
        ) as i64 == argc)
    }

    fn record(&self, c: u64, i: Option<u64>) -> (r: Option<Method>)
        requires
            self.wf(),
            i matches Some(k) ==> k <= 0x1_0000 && il2cpp_abi::method_at(
                self.mem@,
                slots(self.l),
                c as int,
                k as int,
            ) is Some,
        ensures
            i is None ==> r is None,
            i matches Some(k) ==> r == Some(
                Method(
                    il2cpp_abi::method_at(
                        self.mem@,
                        slots(self.l),
                        c as int,
                        k as int,
                    )->0 as u64,
                ),
            ),
    {
        match i {
            Some(k) => match self.slots().at(&self.mem, c, k) {
                Some(x) => Some(Method(x)),
                None => None,
            },
            None => None,
        }
    }

    fn own_method(&self, c: u64, name: &str, argc: i32) -> (r: Option<Method>)
        requires
            self.wf(),
        ensures
            r == first_method(
                self.mem@,
                self.l,
                c as int,
                method_fits(self.mem@, self.l, c as int, name@, argc as int),
            ),
    {
        let n: u64 = self.u16_or_zero(c, self.l.c_method_count) as u64;
        let ghost p = method_fits(self.mem@, self.l, c as int, name@, argc as int);
        let f = |i: u64| -> (b: bool)
            requires
                self.wf(),
                i <= 0x1_0000,
            ensures
                b == p(i as int),
            { self.method_is(c, i, name, argc as i64, false, false) };
        let i: Option<u64> = first_where(0, 1, n, f, Ghost(p));
        proof {
            search::law_first_from(p, 0, 1, n as int);
        }
        self.record(c, i)
    }

    fn own_exact(&self, c: u64, name: &str, argc: u32) -> (r: Option<Method>)
        requires
            self.wf(),
        ensures
            r == first_method(
                self.mem@,
                self.l,
                c as int,
                exact_fits(self.mem@, self.l, c as int, name@, argc as int),
            ),
    {
        let n: u64 = self.u16_or_zero(c, self.l.c_method_count) as u64;
        let ghost p = exact_fits(self.mem@, self.l, c as int, name@, argc as int);
        let f = |i: u64| -> (b: bool)
            requires
                self.wf(),
                i <= 0x1_0000,
            ensures
                b == p(i as int),
            { self.method_is(c, i, name, argc as i64, true, false) };
        let i: Option<u64> = first_where(0, 1, n, f, Ghost(p));
        proof {
            search::law_first_from(p, 0, 1, n as int);
        }
        self.record(c, i)
    }

    /// The static `GetTypeFromHandle` of `System.Type`, which makes a type
    /// object of a type record.
    pub fn type_from_handle_method(&self, corlib: Image) -> (r: Option<Method>)
        requires
            self.wf(),
        ensures
            r == match self.class_of(corlib, "System"@, "Type"@) {
                Some(c) => first_method(
                    self.mem@,
                    self.l,
                    c.0 as int,
                    static_fits(self.mem@, self.l, c.0 as int, "GetTypeFromHandle"@, 1),
                ),
                None => None,
            },
    {
        let c: u64 = match self.class(corlib, "System", "Type") {
            Some(c) => c.0,
            None => {
                return None;
            },
        };
        let n: u64 = self.u16_or_zero(c, self.l.c_method_count) as u64;
        let ghost p = static_fits(self.mem@, self.l, c as int, "GetTypeFromHandle"@, 1);
        let f = |i: u64| -> (b: bool)
            requires
                self.wf(),
                i <= 0x1_0000,
            ensures
                b == p(i as int),
            { self.method_is(c, i, "GetTypeFromHandle", 1, false, true) };
        let i: Option<u64> = first_where(0, 1, n, f, Ghost(p));
        proof {
            search::law_first_from(p, 0, 1, n as int);
        }
        self.record(c, i)
    }

    /// The type record of a class, where its element type is one that exists.
    pub fn type_handle(&self, class: Class) -> (r: Option<u64>)
        requires
            self.wf(),
        ensures
            r is Some <==> (il2cpp_abi::element_of(
                self.mem@,
                class.0 as int,
                self.l.c_byval as int,
            ) matches Some(t) && 1 <= t <= 0x20),
            r matches Some(h) ==> h == class.0 + self.l.c_byval,
    {
        match self.mem.read_u32(class.0, self.l.c_byval + 8) {
            Some(v) => {
                proof {
                    self.mem.lemma_below_top(class.0 + (self.l.c_byval + 8));
                }
                let t: u32 = (v / 0x1_0000) % 256;
                if 1 <= t && t <= 0x20 {
                    Some(class.0 + self.l.c_byval)
                } else {
                    None
                }
            },
            None => None,
        }
    }
}

impl<'a> ScriptRuntime for Il2CppRuntime<'a> {
    open spec fn ready(&self) -> bool {
        self.wf()
    }

    open spec fn image_of(&self, assembly: Seq<char>) -> Option<Image> {
        match search::first_in(self.images@, image_named(self.mem@, self.l, assembly)) {
            Some(g) => Some(Image(g)),
            None => None,
        }
    }

    open spec fn class_of(&self, image: Image, namespace: Seq<char>, name: Seq<char>) -> Option<
        Class,
    > {
        match index_for(self.indexes@, image) {
            Some(e) => entry_class(e, namespace, name),
            None => {
                let classes = classes_in(self.lists@, image);
                if self.stopped && classes.len() > 0 {
                    None
                } else {
                    entry_class(index_val(self.mem@, self.l, classes), namespace, name)
                }
            },
        }
    }

    open spec fn field_of(&self, class: Class, name: Seq<char>) -> Option<Field> {
        match nearest_class(self.mem@, self.l, class.0 as int, has_field(self.mem@, self.l, name)) {
            Some(x) => own_field(self.mem@, self.l, x, name),
            None => None,
        }
    }

    open spec fn offset_of(&self, field: Field) -> i32 {
        match memory::int_val(self.mem@, field.0 + self.l.f_offset) {
            Some(v) => v as i32,
            None => 0,
        }
    }

    open spec fn method_of(&self, class: Class, name: Seq<char>, argc: int) -> Option<Method> {
        match nearest_class(
            self.mem@,
            self.l,
            class.0 as int,
            has_method(self.mem@, self.l, name, argc),
        ) {
            Some(x) => first_method(
                self.mem@,
                self.l,
                x,
                method_fits(self.mem@, self.l, x, name, argc),
            ),
            None => None,
        }
    }

    open spec fn exact_of(&self, class: Class, name: Seq<char>, argc: nat) -> Option<Method> {
        first_method(
            self.mem@,
            self.l,
            class.0 as int,
            exact_fits(self.mem@, self.l, class.0 as int, name, argc as int),
        )
    }

    open spec fn native_of(&self, method: Method) -> Option<u64> {
        match memory::ptr_val(self.mem@, method.0 + self.l.m_ptr) {
            Some(p) => Some(p as u64),
            None => None,
        }
    }

    fn backend(&self) -> (r: Backend)
        ensures
            r == Backend::Il2Cpp,
    {
        Backend::Il2Cpp
    }

    fn image(&self, assembly: &str) -> Option<Image> {
        let ghost p = image_named(self.mem@, self.l, assembly@);
        let f = |g: u64| -> (b: bool)
            requires
                self.wf(),
            ensures
                b == p(g),
            {
                if g == 0 {
                    false
                } else {
                    match str_at(&self.mem, g, self.l.i_name) {
                        Some(s) => eq_ignore_case(strip_tail(s.as_str(), ".dll").as_str(), assembly),
                        None => false,
                    }
                }
            };
        match find_where(&self.images, f, Ghost(p)) {
            Some(g) => Some(Image(g)),
            None => None,
        }
    }

    fn class(&self, image: Image, namespace: &str, name: &str) -> Option<Class> {
        let ghost all = self.indexes@;
        let mut i: usize = 0;
        while i < self.indexes.len()
            invariant
                i <= self.indexes.len(),
                all == self.indexes@,
                index_for(all.take(i as int), image) is None,
            decreases self.indexes.len() - i,
        {
            assert(all.take(i + 1).drop_last() =~= all.take(i as int));
            if self.indexes[i].image.0 == image.0 {
                proof {
                    lemma_index_prefix(all, i + 1, image);
                }
                return entry_lookup(&self.indexes[i].entries, namespace, name);
            }
            i = i + 1;
        }
        assert(all.take(i as int) =~= all);
        self.class_unindexed(image, namespace, name)
    }

    fn field(&self, class: Class, name: &str) -> Option<Field> {
        let ghost p = has_field(self.mem@, self.l, name@);
        let f = |x: u64| -> (b: bool)
            requires
                self.wf(),
            ensures
                b == p(x as int),
            { self.own_field(x, name).is_some() };
        match self.nearest_where(class.0, f, Ghost(p)) {
            Some(x) => self.own_field(x, name),
            None => None,
        }
    }

    fn field_offset(&self, field: Field) -> i32 {
        match self.mem.read_i32(field.0, self.l.f_offset) {
            Some(v) => v,
            None => 0,
        }
    }

    fn method(&self, class: Class, name: &str, argc: i32) -> Option<Method> {
        let ghost p = has_method(self.mem@, self.l, name@, argc as int);
        let f = |x: u64| -> (b: bool)
            requires
                self.wf(),
            ensures
                b == p(x as int),
            { self.own_method(x, name, argc).is_some() };
        match self.nearest_where(class.0, f, Ghost(p)) {
            Some(x) => self.own_method(x, name, argc),
            None => None,
        }
    }

    fn method_exact(&self, class: Class, name: &str, argc: u32) -> Option<Method> {
        self.own_exact(class.0, name, argc)
    }

    fn native_ptr(&self, method: Method) -> Option<u64> {
        self.mem.read_ptr(method.0, self.l.m_ptr)
    }
}

/// The classes that have a field of that name themselves.
pub open spec fn has_field(m: Map<int, u8>, l: Layout, name: Seq<char>) -> spec_fn(int) -> bool {
    |c: int| own_field(m, l, c, name) is Some
}

/// The classes that have such a method themselves.
pub open spec fn has_method(m: Map<int, u8>, l: Layout, name: Seq<char>, argc: int) -> spec_fn(
    int,
) -> bool {
    |c: int| first_method(m, l, c, method_fits(m, l, c, name, argc)) is Some
}

// ── inheritance ──────────────────────────────────────────────────────────────

/// One step up and then `k` more is `k + 1` steps up.
proof fn lemma_ancestor_shift(m: Map<int, u8>, l: Layout, c: int, k: nat)
    ensures
        ancestor(m, l, c, k + 1) == (match base_of(m, l, c) {
            Some(b) => ancestor(m, l, b, k),
            None => None,
        }),
    decreases k,
{
    if k > 0 {
        lemma_ancestor_shift(m, l, c, (k - 1) as nat);
    } else {
        assert(ancestor(m, l, c, 0) == Some(c));
        assert(ancestor(m, l, c, 1) == base_of(m, l, c));
    }
}

/// A class that satisfies `p` is the nearest one to itself; otherwise the
/// nearest one is that of its base class.
pub proof fn law_nearest_inherits(m: Map<int, u8>, l: Layout, c: int, p: spec_fn(int) -> bool)
    ensures
        nearest_class(m, l, c, p) == (if p(c) {
            Some(c)
        } else {
            match base_of(m, l, c) {
                Some(b) => nearest_class(m, l, b, p),
                None => None,
            }
        }),
{
    if p(c) {
        assert(nearest(m, l, c, p, 0));
        lemma_nearest(m, l, c, p, 0);
    } else {
        if exists|k: nat| nearest(m, l, c, p, k) {
            let k = choose|k: nat| nearest(m, l, c, p, k);
            assert(k > 0);
            let j = (k - 1) as nat;
            lemma_ancestor_shift(m, l, c, j);
            let b = base_of(m, l, c)->0;
            assert(nearest(m, l, b, p, j)) by {
                assert forall|i: nat| i < j implies (#[trigger] ancestor(m, l, b, i) matches Some(y)
                    && !p(y)) by {
                    lemma_ancestor_shift(m, l, c, i);
                    assert(ancestor(m, l, c, i + 1) matches Some(y) && !p(y));
                }
            }
            lemma_nearest(m, l, b, p, j);
            lemma_nearest(m, l, c, p, k);
        } else if let Some(b) = base_of(m, l, c) {
            if exists|j: nat| nearest(m, l, b, p, j) {
                let j = choose|j: nat| nearest(m, l, b, p, j);
                lemma_ancestor_shift(m, l, c, j);
                assert(nearest(m, l, c, p, j + 1)) by {
                    assert forall|i: nat| i < j + 1 implies (#[trigger] ancestor(
                        m,
                        l,
                        c,
                        i,
                    ) matches Some(y) && !p(y)) by {
                        if i > 0 {
                            lemma_ancestor_shift(m, l, c, (i - 1) as nat);
                            assert(ancestor(m, l, b, (i - 1) as nat) matches Some(y) && !p(y));
                        }
                    }
                }
            }
        }
    }
}

/// A class has its own fields and, where it has none of that name, those of its
/// base class.
pub proof fn law_field_inherited(rt: Il2CppRuntime<'_>, class: Class, name: Seq<char>)
    ensures
        rt.field_of(class, name) == (match own_field(rt.mem@, rt.l, class.0 as int, name) {
            Some(f) => Some(f),
            None => match memory::ptr_val(rt.mem@, class.0 + rt.l.c_parent) {
                Some(b) if b != class.0 && b <= u64::MAX => rt.field_of(Class(b as u64), name),
                _ => None,
            },
        }),
{
    law_nearest_inherits(rt.mem@, rt.l, class.0 as int, has_field(rt.mem@, rt.l, name));
    memory::lemma_widths(rt.mem@, class.0 + rt.l.c_parent);
}

// ── dumps ────────────────────────────────────────────────────────────────────

/// The named fields below entry `n` of a class, each with its offset, or -1
/// where that cannot be read.
pub open spec fn own_fields(m: Map<int, u8>, l: Layout, c: int, n: nat) -> Seq<(Seq<char>, int)>
    decreases n,
{
    if n == 0 {
        Seq::empty()
    } else {
        let before = own_fields(m, l, c, (n - 1) as nat);
        match field_entry(m, l, c, n - 1) {
            Some(e) => if text_or_empty(m, e + l.f_name).len() > 0 {
                before.push(
                    (
                        text_or_empty(m, e + l.f_name),
                        match memory::int_val(m, e + l.f_offset) {
                            Some(v) => v,
                            None => -1,
                        },
                    ),
                )
            } else {
                before
            },
            None => before,
        }
    }
}

/// The named fields of a class and of the base classes above it, `n` classes at
/// most.
pub open spec fn all_fields(m: Map<int, u8>, l: Layout, c: int, n: nat) -> Seq<(Seq<char>, int)>
    decreases n,
{
    let own = own_fields(m, l, c, field_total(m, l, c));
    if n <= 1 {
        own
    } else {
        match base_of(m, l, c) {
            Some(b) => own + all_fields(m, l, b, (n - 1) as nat),
            None => own,
        }
    }
}

pub open spec fn fields_val(s: Seq<(String, i32)>) -> Seq<(Seq<char>, int)> {
    s.map_values(|x: (String, i32)| (x.0@, x.1 as int))
}

/// The named methods below record `n` of a class, each with its number of
/// arguments, whether it is static, and its code, or 0 where there is none.
pub open spec fn own_methods(m: Map<int, u8>, l: Layout, c: int, n: nat) -> Seq<
    (Seq<char>, nat, bool, nat),
>
    decreases n,
{
    if n == 0 {
        Seq::empty()
    } else {
        let before = own_methods(m, l, c, (n - 1) as nat);
        match il2cpp_abi::method_at(m, slots(l), c, n - 1) {
            Some(x) => if method_name(m, l, x as int).len() > 0 {
                before.push(
                    (
                        method_name(m, l, x as int),
                        method_argc(m, l, x as int),
                        method_is_static(m, l, x as int),
                        match memory::ptr_val(m, x + l.m_ptr) {
                            Some(p) => p,
                            None => 0,
                        },
                    ),
                )
            } else {
                before
            },
            None => before,
        }
    }
}

pub open spec fn all_methods(m: Map<int, u8>, l: Layout, c: int, n: nat) -> Seq<
    (Seq<char>, nat, bool, nat),
>
    decreases n,
{
    let own = own_methods(m, l, c, method_total(m, l, c));
    if n <= 1 {
        own
    } else {
        match base_of(m, l, c) {
            Some(b) => own + all_methods(m, l, b, (n - 1) as nat),
            None => own,
        }
    }
}

pub open spec fn methods_val(s: Seq<(String, u32, bool, u64)>) -> Seq<(Seq<char>, nat, bool, nat)> {
    s.map_values(|x: (String, u32, bool, u64)| (x.0@, x.1 as nat, x.2, x.3 as nat))
}

/// How many classes a dump goes through.
pub const DUMP_DEPTH: u64 = 32;

// ── strings ──────────────────────────────────────────────────────────────────

/// The text that a list of 16-bit units encodes; none where a surrogate stands
/// alone.
pub open spec fn decoded(u: Seq<u16>) -> Option<Seq<char>>
    decreases u.len(),
{
    if u.len() == 0 {
        Some(Seq::empty())
    } else if u[0] < 0xD800 || u[0] >= 0xE000 {
        match decoded(u.skip(1)) {
            Some(rest) => Some(seq![u[0] as char] + rest),
            None => None,
        }
    } else if u[0] < 0xDC00 && u.len() >= 2 && 0xDC00 <= u[1] < 0xE000 {
        match decoded(u.skip(2)) {
            Some(rest) => Some(
                seq![(0x1_0000 + (u[0] - 0xD800) * 0x400 + (u[1] - 0xDC00)) as char] + rest,
            ),
            None => None,
        }
    } else {
        None
    }
}

/// The units from `a` on, where all are readable.
pub open spec fn units(m: Map<int, u8>, a: int, n: nat) -> Option<Seq<u16>>
    decreases n,
{
    if n == 0 {
        Some(Seq::empty())
    } else {
        match (units(m, a, (n - 1) as nat), memory::val(m, a + 2 * (n - 1), 2)) {
            (Some(before), Some(v)) => Some(before.push(v as u16)),
            _ => None,
        }
    }
}

/// The text of a string object.
pub open spec fn string_val(m: Map<int, u8>, p: int, s_len: int, s_chars: int) -> Option<Seq<char>> {
    match memory::int_val(m, p + s_len) {
        Some(n) => if 0 <= n < 0x1_0000 {
            match units(m, p + s_chars, n as nat) {
                Some(u) => decoded(u),
                None => None,
            }
        } else {
            None
        },
        None => None,
    }
}

/// Decodes 16-bit units.
pub fn decode(u: &Vec<u16>) -> (r: Option<String>)
    ensures
        il2cpp::opt_text(r) == decoded(u@),
{
    let mut s = String::new();
    let mut i: usize = 0;
    assert(u@.skip(0) =~= u@);
    assert(match decoded(u@) {
        Some(x) => Seq::<char>::empty() + x =~= x,
        None => true,
    });
    while i < u.len()
        invariant
            i <= u.len(),
            decoded(u@) == (match decoded(u@.skip(i as int)) {
                Some(x) => Some(s@ + x),
                None => None,
            }),
        decreases u.len() - i,
    {
        let ghost rest = u@.skip(i as int);
        let a: u16 = u[i];
        assert(rest[0] == a);
        if a < 0xD800 || a >= 0xE000 {
            let ghost s0 = s@;
            match char::from_u32(a as u32) {
                Some(c) => {
                    s.push(c);
                    proof {
                        assert(rest.skip(1) =~= u@.skip(i + 1));
                        assert(c == a as char);
                        if let Some(x) = decoded(rest.skip(1)) {
                            assert(s0 + (seq![c] + x) =~= s@ + x);
                        }
                    }
                },
                None => {
                    return None;
                },
            }
            i = i + 1;
        } else if a < 0xDC00 && u.len() - i >= 2 && 0xDC00 <= u[i + 1] && u[i + 1] < 0xE000 {
            let ghost s0 = s@;
            let b: u16 = u[i + 1];
            assert(rest[1] == b);
            let v: u32 = 0x1_0000 + (a as u32 - 0xD800) * 0x400 + (b as u32 - 0xDC00);
            match char::from_u32(v) {
                Some(c) => {
                    s.push(c);
                    proof {
                        assert(rest.skip(2) =~= u@.skip(i + 2));
                        assert(c == v as char);
                        if let Some(x) = decoded(rest.skip(2)) {
                            assert(s0 + (seq![c] + x) =~= s@ + x);
                        }
                    }
                },
                None => {
                    return None;
                },
            }
            i = i + 2;
        } else {
            proof {
                if rest.len() >= 2 {
                    assert(rest[1] == u@[i + 1]);
                }
            }
            return None;
        }
    }
    proof {
        assert(u@.skip(i as int).len() == 0);
        assert(s@ + Seq::<char>::empty() =~= s@);
    }
    Some(s)
}

impl<'a> Il2CppRuntime<'a> {
    /// The name of a class; empty where it cannot be read.
    pub fn class_name(&self, class: Class) -> (r: String)
        requires
            self.wf(),
        ensures
            r@ == text_or_empty(self.mem@, class.0 + self.l.c_name),
    {
        self.text_at(class.0, self.l.c_name)
    }

    /// Builds, or keeps, the index of one image. `aborted` is asked now and then;
    /// where it says yes, nothing is indexed.
    pub fn index_of<G: Fn() -> bool>(&mut self, image: Image, aborted: &G) -> (r: bool)
        requires
            old(self).wf(),
            call_requires(aborted, ()),
        ensures
            final(self).wf(),
            *final(self) == (Il2CppRuntime { indexes: final(self).indexes, ..*old(self) }),
            index_for(old(self).indexes@, image) is Some ==> r && final(self).indexes
                == old(self).indexes,
            !r ==> call_ensures(aborted, (), true) && final(self).indexes == old(self).indexes,
            index_for(old(self).indexes@, image) is None && classes_in(
                old(self).lists@,
                image,
            ).len() > 0 && (forall|b: bool| call_ensures(aborted, (), b) ==> b) ==> !r,
            r && index_for(old(self).indexes@, image) is None ==> index_for(
                final(self).indexes@,
                image,
            ) == Some(index_val(old(self).mem@, old(self).l, classes_in(old(self).lists@, image))),
            forall|other: Image|
                other != image ==> #[trigger] index_for(final(self).indexes@, other) == index_for(
                    old(self).indexes@,
                    other,
                ),
            r && !old(self).stopped ==> forall|other: Image, namespace: Seq<char>, name: Seq<char>| #[trigger]
                final(self).class_of(other, namespace, name) == old(self).class_of(
                    other,
                    namespace,
                    name,
                ),
    {
        if self.is_indexed(image) {
            return true;
        }
        let k: usize = self.list_at(image);
        let n: usize = if k < self.lists.len() {
            self.lists[k].classes.len()
        } else {
            0
        };
        let ghost m = self.mem@;
        let ghost l = self.l;
        let ghost classes = classes_in(self.lists@, image);
        let mut entries: Vec<ClassEntry> = Vec::new();
        let mut i: usize = 0;
        let mut until: usize = 0;
        assert(entries_val(entries@) =~= index_val(m, l, classes.take(0)));
        while i < n
            invariant
                i <= n,
                n == classes.len(),
                n > 0 ==> k < self.lists@.len() && self.lists@[k as int].classes@ == classes,
                *self == *old(self),
                i == 0 ==> until == 0,
                i > 0 ==> !(forall|b: bool| call_ensures(aborted, (), b) ==> b),
                index_for(old(self).indexes@, image) is None,
                self.wf(),
                m == self.mem@,
                l == self.l,
                call_requires(aborted, ()),
                entries_val(entries@) == index_val(m, l, classes.take(i as int)),
            decreases n - i,
        {
            if until == 0 {
                if aborted() {
                    return false;
                }
                until = 512;
            }
            until = until - 1;
            let c: u64 = self.lists[k].classes[i];
            assert(classes.take(i + 1).drop_last() =~= classes.take(i as int));
            if self.mem.readable(c, 0x40) {
                let name: String = self.text_at(c, self.l.c_name);
                if !crate::text::is_blank(name.as_str()) {
                    let namespace: String = self.text_at(c, self.l.c_namespace);
                    let ghost e0 = entries@;
                    entries.push(ClassEntry { namespace, name, class: c });
                    assert(entries_val(entries@) =~= entries_val(e0).push(
                        (namespace@, name@, c),
                    ));
                }
            }
            i = i + 1;
        }
        assert(classes.take(i as int) =~= classes);
        let ghost ix0 = self.indexes@;
        self.indexes.push(ImageIndex { image, entries });
        proof {
            assert(self.indexes@.drop_last() =~= ix0);
        }
        true
    }

    /// Where the classes of an image are listed; past the end where they are not.
    fn list_at(&self, image: Image) -> (k: usize)
        ensures
            k <= self.lists@.len(),
            k < self.lists@.len() <==> list_for(self.lists@, image) is Some,
            k < self.lists@.len() ==> list_for(self.lists@, image) == Some(
                self.lists@[k as int].classes@,
            ),
    {
        let ghost all = self.lists@;
        let mut k: usize = 0;
        while k < self.lists.len()
            invariant
                k <= self.lists.len(),
                all == self.lists@,
                list_for(all.take(k as int), image) is None,
            decreases self.lists.len() - k,
        {
            assert(all.take(k + 1).drop_last() =~= all.take(k as int));
            if self.lists[k].image.0 == image.0 {
                proof {
                    lemma_list_prefix(all, k + 1, image);
                }
                return k;
            }
            k = k + 1;
        }
        assert(all.take(k as int) =~= all);
        k
    }

    /// Whether the classes of an image are listed.
    pub fn is_listed(&self, image: Image) -> (r: bool)
        ensures
            r == (list_for(self.lists@, image) is Some),
    {
        self.list_at(image) < self.lists.len()
    }

    /// Notes the classes of an image; what was noted first stays.
    pub fn list_classes(&mut self, image: Image, classes: Vec<u64>)
        ensures
            *final(self) == (Il2CppRuntime { lists: final(self).lists, ..*old(self) }),
            list_for(final(self).lists@, image) == match list_for(old(self).lists@, image) {
                Some(c) => Some(c),
                None => Some(classes@),
            },
            forall|other: Image|
                other != image ==> #[trigger] list_for(final(self).lists@, other) == list_for(
                    old(self).lists@,
                    other,
                ),
    {
        if !self.is_listed(image) {
            let ghost before = self.lists@;
            self.lists.push(ImageClasses { image, classes });
            assert(self.lists@.drop_last() =~= before);
        }
    }

    /// A class of an image that was not indexed: the first of its classes with
    /// that namespace and name, which is what its index would give.
    fn class_unindexed(&self, image: Image, namespace: &str, name: &str) -> (r: Option<Class>)
        requires
            self.wf(),
            index_for(self.indexes@, image) is None,
        ensures
            r == self.class_of(image, namespace@, name@),
    {
        let k: usize = self.list_at(image);
        if k >= self.lists.len() {
            return None;
        }
        let ghost classes = self.lists@[k as int].classes@;
        if self.stopped && self.lists[k].classes.len() > 0 {
            return None;
        }
        let ghost p = class_named(self.mem@, self.l, namespace@, name@);
        let f = |c: u64| -> (b: bool)
            requires
                self.wf(),
            ensures
                b == p(c),
            { self.is_named(c, namespace, name) };
        proof {
            law_index_exact(self.mem@, self.l, classes, namespace@, name@);
        }
        match search::find_where(&self.lists[k].classes, f, Ghost(p)) {
            Some(c) => Some(Class(c)),
            None => None,
        }
    }

    fn is_named(&self, c: u64, namespace: &str, name: &str) -> (r: bool)
        requires
            self.wf(),
        ensures
            r == class_named(self.mem@, self.l, namespace@, name@)(c),
    {
        if !self.mem.readable(c, 0x40) {
            return false;
        }
        let n: String = self.text_at(c, self.l.c_name);
        if crate::text::is_blank(n.as_str()) || !same(n.as_str(), name) {
            return false;
        }
        same(self.text_at(c, self.l.c_namespace).as_str(), namespace)
    }

    /// Whether an image was indexed.
    pub fn is_indexed(&self, image: Image) -> (r: bool)
        ensures
            r == (index_for(self.indexes@, image) is Some),
    {
        let ghost all = self.indexes@;
        let mut i: usize = 0;
        while i < self.indexes.len()
            invariant
                i <= self.indexes.len(),
                all == self.indexes@,
                index_for(all.take(i as int), image) is None,
            decreases self.indexes.len() - i,
        {
            assert(all.take(i + 1).drop_last() =~= all.take(i as int));
            if self.indexes[i].image.0 == image.0 {
                proof {
                    lemma_index_prefix(all, i + 1, image);
                }
                return true;
            }
            i = i + 1;
        }
        assert(all.take(i as int) =~= all);
        false
    }

    fn base(&self, c: u64) -> (r: Option<u64>)
        requires
            self.wf(),
        ensures
            search::opt_int(r) == base_of(self.mem@, self.l, c as int),
    {
        match self.mem.read_ptr(c, self.l.c_parent) {
            Some(p) => if p == c {
                None
            } else {
                Some(p)
            },
            None => None,
        }
    }

    fn push_fields(&self, c: u64, out: &mut Vec<(String, i32)>)
        requires
            self.wf(),
        ensures
            fields_val(final(out)@) == fields_val(old(out)@) + own_fields(
                self.mem@,
                self.l,
                c as int,
                field_total(self.mem@, self.l, c as int),
            ),
    {
        let n: u64 = self.u16_or_zero(c, self.l.c_field_count) as u64;
        let ghost o = fields_val(out@);
        let ghost m = self.mem@;
        let ghost l = self.l;
        let mut i: u64 = 0;
        assert(o + own_fields(m, l, c as int, 0) =~= o);
        while i < n
            invariant
                i <= n <= 0xffff,
                self.wf(),
                m == self.mem@,
                l == self.l,
                fields_val(out@) == o + own_fields(m, l, c as int, i as nat),
            decreases n - i,
        {
            match self.field_at(c, i) {
                Some(e) => {
                    let name: String = self.text_at(e, self.l.f_name);
                    if !crate::text::is_blank(name.as_str()) {
                        let off: i32 = match self.mem.read_i32(e, self.l.f_offset) {
                            Some(v) => v,
                            None => -1,
                        };
                        let ghost o1 = out@;
                        out.push((name, off));
                        assert(fields_val(out@) =~= fields_val(o1).push((name@, off as int)));
                        assert(fields_val(out@) =~= o + own_fields(
                            m,
                            l,
                            c as int,
                            (i + 1) as nat,
                        ));
                    }
                },
                None => {},
            }
            i = i + 1;
        }
    }

    /// The named fields of a class and of its base classes.
    pub fn dump_fields(&self, class: Class) -> (out: Vec<(String, i32)>)
        requires
            self.wf(),
        ensures
            fields_val(out@) == all_fields(self.mem@, self.l, class.0 as int, DUMP_DEPTH as nat),
    {
        let mut out: Vec<(String, i32)> = Vec::new();
        let mut c: u64 = class.0;
        let mut left: u64 = DUMP_DEPTH;
        let ghost m = self.mem@;
        let ghost l = self.l;
        let ghost want = all_fields(m, l, class.0 as int, DUMP_DEPTH as nat);
        assert(fields_val(out@) + want =~= want);
        while left > 0
            invariant_except_break
                1 <= left <= DUMP_DEPTH,
                fields_val(out@) + all_fields(m, l, c as int, left as nat) == want,
            invariant
                self.wf(),
                m == self.mem@,
                l == self.l,
            ensures
                fields_val(out@) == want,
            decreases left,
        {
            let ghost o0 = fields_val(out@);
            self.push_fields(c, &mut out);
            let b: u64 = match self.base(c) {
                Some(b) => b,
                None => {
                    break ;
                },
            };
            if left == 1 {
                break ;
            }
            proof {
                let own = own_fields(m, l, c as int, field_total(m, l, c as int));
                let rest = all_fields(m, l, b as int, (left - 1) as nat);
                assert(o0 + (own + rest) =~= (o0 + own) + rest);
            }
            c = b;
            left = left - 1;
        }
        out
    }

    fn push_methods(&self, c: u64, out: &mut Vec<(String, u32, bool, u64)>)
        requires
            self.wf(),
        ensures
            methods_val(final(out)@) == methods_val(old(out)@) + own_methods(
                self.mem@,
                self.l,
                c as int,
                method_total(self.mem@, self.l, c as int),
            ),
    {
        let n: u64 = self.u16_or_zero(c, self.l.c_method_count) as u64;
        let ghost o = methods_val(out@);
        let ghost m = self.mem@;
        let ghost l = self.l;
        let mut i: u64 = 0;
        assert(o + own_methods(m, l, c as int, 0) =~= o);
        while i < n
            invariant
                i <= n <= 0xffff,
                self.wf(),
                m == self.mem@,
                l == self.l,
                methods_val(out@) == o + own_methods(m, l, c as int, i as nat),
            decreases n - i,
        {
            match self.slots().at(&self.mem, c, i) {
                Some(x) => {
                    let name: String = self.text_at(x, self.l.m_name);
                    if !crate::text::is_blank(name.as_str()) {
                        let argc: u32 = self.u8_or_zero(x, self.l.m_param_count) as u32;
                        let stat: bool = is_static(self.u16_or_zero(x, self.l.m_flags));
                        let code: u64 = match self.mem.read_ptr(x, self.l.m_ptr) {
                            Some(p) => p,
                            None => 0,
                        };
                        let ghost o1 = out@;
                        out.push((name, argc, stat, code));
                        assert(methods_val(out@) =~= methods_val(o1).push(
                            (name@, argc as nat, stat, code as nat),
                        ));
                        assert(methods_val(out@) =~= o + own_methods(
                            m,
                            l,
                            c as int,
                            (i + 1) as nat,
                        ));
                    }
                },
                None => {},
            }
            i = i + 1;
        }
    }

    /// The named methods of a class and of its base classes.
    pub fn dump_methods(&self, class: Class) -> (out: Vec<(String, u32, bool, u64)>)
        requires
            self.wf(),
        ensures
            methods_val(out@) == all_methods(self.mem@, self.l, class.0 as int, DUMP_DEPTH as nat),
    {
        let mut out: Vec<(String, u32, bool, u64)> = Vec::new();
        let mut c: u64 = class.0;
        let mut left: u64 = DUMP_DEPTH;
        let ghost m = self.mem@;
        let ghost l = self.l;
        let ghost want = all_methods(m, l, class.0 as int, DUMP_DEPTH as nat);
        assert(methods_val(out@) + want =~= want);
        while left > 0
            invariant_except_break
                1 <= left <= DUMP_DEPTH,
                methods_val(out@) + all_methods(m, l, c as int, left as nat) == want,
            invariant
                self.wf(),
                m == self.mem@,
                l == self.l,
            ensures
                methods_val(out@) == want,
            decreases left,
        {
            let ghost o0 = methods_val(out@);
            self.push_methods(c, &mut out);
            let b: u64 = match self.base(c) {
                Some(b) => b,
                None => {
                    break ;
                },
            };
            if left == 1 {
                break ;
            }
            proof {
                let own = own_methods(m, l, c as int, method_total(m, l, c as int));
                let rest = all_methods(m, l, b as int, (left - 1) as nat);
                assert(o0 + (own + rest) =~= (o0 + own) + rest);
            }
            c = b;
            left = left - 1;
        }
        out
    }

    /// The text of a string object.
    pub fn string_to_rust(&self, obj: Object) -> (r: Option<String>)
        requires
            self.wf(),
        ensures
            il2cpp::opt_text(r) == string_val(
                self.mem@,
                obj.0 as int,
                self.s_len as int,
                self.s_chars as int,
            ),
    {
        let len: i32 = match self.mem.read_i32(obj.0, self.s_len) {
            Some(v) => v,
            None => {
                return None;
            },
        };
        if len < 0 || len >= 0x1_0000 {
            return None;
        }
        let n: u64 = len as u64;
        let ghost m = self.mem@;
        let ghost a = obj.0 + self.s_chars;
        let mut u: Vec<u16> = Vec::new();
        let mut i: u64 = 0;
        while i < n
            invariant
                i <= n < 0x1_0000,
                self.wf(),
                m == self.mem@,
                a == obj.0 + self.s_chars,
                units(m, a, i as nat) == Some(u@),
                memory::int_val(m, obj.0 + self.s_len) == Some(n as int),
            decreases n - i,
        {
            if self.s_chars > u64::MAX - i * 2 {
                proof {
                    self.mem.lemma_no_value(a + i * 2, 2);
                    lemma_units_none(m, a, (i + 1) as nat, n as nat);
                }
                return None;
            }
            match self.mem.read_u16(obj.0, self.s_chars + i * 2) {
                Some(v) => {
                    u.push(v);
                },
                None => {
                    proof {
                        lemma_units_none(m, a, (i + 1) as nat, n as nat);
                    }
                    return None;
                },
            }
            i = i + 1;
        }
        decode(&u)
    }
}

proof fn lemma_units_none(m: Map<int, u8>, a: int, i: nat, n: nat)
    requires
        i <= n,
        units(m, a, i) is None,
    ensures
        units(m, a, n) is None,
    decreases n,
{
    if i < n {
        lemma_units_none(m, a, i, (n - 1) as nat);
    }
}

// ── starting up ──────────────────────────────────────────────────────────────

/// The text of the string whose layout is probed.
pub const PROBE: &'static str = "il2cppProbe";

/// The string at `s` has its length at `off` and its text after it.
pub open spec fn string_fits(m: Map<int, u8>, s: int) -> spec_fn(int) -> bool {
    |off: int|
        {
            &&& memory::int_val(m, s + off) == Some(PROBE@.len() as int)
            &&& forall|i: int|
                0 <= i < PROBE@.len() ==> memory::val(m, s + off + 4 + 2 * i, 2) == Some(
                    (#[trigger] PROBE@[i]) as u32 as nat,
                )
        }
}

fn fits_string(mem: &Memory, s: u64, want: &Vec<char>, off: u64) -> (r: bool)
    requires
        mem.wf(),
        want@ == PROBE@,
        off <= 0x30,
        want.len() <= 0x1000,
    ensures
        r == string_fits(mem@, s as int)(off as int),
{
    let n: usize = want.len();
    let fits: bool = match mem.read_i32(s, off) {
        Some(v) => v as i64 == n as i64,
        None => false,
    };
    if !fits {
        return false;
    }
    let mut i: usize = 0;
    while i < n
        invariant
            i <= n <= 0x1000,
            n == want@.len(),
            mem.wf(),
            want@ == PROBE@,
            off <= 0x30,
            forall|j: int|
                0 <= j < i ==> memory::val(mem@, s + off + 4 + 2 * j, 2) == Some(
                    (#[trigger] PROBE@[j]) as u32 as nat,
                ),
        decreases n - i,
    {
        assert(PROBE@[i as int] == want@[i as int]);
        match mem.read_u16(s, off + 4 + 2 * (i as u64)) {
            Some(v) => if v as u32 != want[i] as u32 {
                return false;
            },
            None => {
                return false;
            },
        }
        i = i + 1;
    }
    true
}

/// Where a string has its length and its first character, found on a string
/// object with the text `PROBE`.
pub fn probe_string_layout(mem: &Memory, s: Object) -> (r: Option<(u64, u64)>)
    requires
        mem.wf(),
    ensures
        s.0 == 0 ==> r is None,
        s.0 != 0 ==> match search::first_from(string_fits(mem@, s.0 as int), 0x08, 4, 0x30) {
            Some(off) => r == Some((off as u64, (off + 4) as u64)),
            None => r is None,
        },
        r matches Some(x) ==> 0x08 <= x.0 < 0x30 && x.1 == x.0 + 4,
{
    if s.is_null() {
        return None;
    }
    let want: Vec<char> = chars_of(PROBE);
    proof {
        reveal_strlit("il2cppProbe");
        search::law_first_from(string_fits(mem@, s.0 as int), 0x08, 4, 0x30);
    }
    let w = &want;
    let p = s.0;
    let ghost q = string_fits(mem@, s.0 as int);
    let f = |off: u64| -> (b: bool)
        requires
            mem.wf(),
            w@ == PROBE@,
            w.len() <= 0x1000,
            off < 0x30,
        ensures
            b == q(off as int),
        { fits_string(mem, p, w, off) };
    match first_where(0x08, 4, 0x30, f, Ghost(q)) {
        Some(off) => Some((off, off + 4)),
        None => None,
    }
}

/// The longest array that is asked for.
pub const ARRAY_MAX: u64 = 0x1_0000;

/// Whether an array of that length may be asked for.
pub fn may_make_array(has_array_new: bool, len: u64) -> (r: bool)
    ensures
        r == (has_array_new && len <= ARRAY_MAX),
{
    has_array_new && len <= ARRAY_MAX
}

/// The array that was made, where it says the length that was asked for.
pub fn new_array(mem: &Memory, a: Object, len: u64) -> (r: Option<Object>)
    requires
        mem.wf(),
    ensures
        r is Some <==> a.0 != 0 && memory::val(
            mem@,
            a.0 + crate::runtime::ARRAY_COUNT_OFF,
            8,
        ) == Some(len as nat),
        r matches Some(o) ==> o == a,
{
    if a.is_null() {
        return None;
    }
    match crate::runtime::array_len(mem, a) {
        Some(n) => if n == len {
            Some(a)
        } else {
            None
        },
        None => None,
    }
}

/// An offset that no instance field has: negative, large, or not a multiple of
/// four.
pub fn suspicious_offset(v: i32) -> (r: bool)
    ensures
        r == (v < 0 || v > 0x1_0000 || v % 4 != 0),
{
    v < 0 || v > 0x1_0000 || v % 4 != 0
}

/// What to do while the runtime may still be starting.
#[derive(Copy, Clone, PartialEq, Eq, Debug, Structural)]
pub enum Readiness {
    Ready,
    Aborted,
    TimedOut,
    Sleep,
}

/// The core library has enough classes to be complete, or what else ends the
/// wait.
pub fn readiness(domain: u64, corlib: u64, class_count: u64, aborted: bool, late: bool) -> (r:
    Readiness)
    ensures
        r is Ready <==> domain != 0 && corlib != 0 && class_count > 32,
        r is Aborted <==> !(domain != 0 && corlib != 0 && class_count > 32) && aborted,
        r is TimedOut <==> !(domain != 0 && corlib != 0 && class_count > 32) && !aborted && late,
{
    if domain != 0 && corlib != 0 && class_count > 32 {
        Readiness::Ready
    } else if aborted {
        Readiness::Aborted
    } else if late {
        Readiness::TimedOut
    } else {
        Readiness::Sleep
    }
}

} // verus!
