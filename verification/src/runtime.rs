//! What the trainer asks of a scripting backend, and how it reads the objects
//! the backend hands out.
//!
//! Objects are read out of a view of memory; a place that cannot be read gives
//! `None`. A write is returned as the bytes to be stored, and the caller stores
//! them.

use vstd::prelude::*;

use crate::memory;
use crate::memory::Memory;

verus! {

/// Application domain.
#[derive(Copy, Clone, PartialEq, Eq, Debug, Structural)]
pub struct Domain(pub u64);

/// One loaded assembly's metadata image.
#[derive(Copy, Clone, PartialEq, Eq, Debug, Structural)]
pub struct Image(pub u64);

/// A managed type.
#[derive(Copy, Clone, PartialEq, Eq, Debug, Structural)]
pub struct Class(pub u64);

/// A managed method.
#[derive(Copy, Clone, PartialEq, Eq, Debug, Structural)]
pub struct Method(pub u64);

/// A field descriptor, used to get an offset.
#[derive(Copy, Clone, PartialEq, Eq, Debug, Structural)]
pub struct Field(pub u64);

/// A live managed object instance.
#[derive(Copy, Clone, PartialEq, Eq, Debug, Structural)]
pub struct Object(pub u64);

impl Object {
    pub fn is_null(self) -> (r: bool)
        ensures
            r == (self.0 == 0),
    {
        self.0 == 0
    }
}

/// Which scripting backend the process runs on.
#[derive(Copy, Clone, PartialEq, Eq, Debug, Structural)]
pub enum Backend {
    Mono,
    Il2Cpp,
}

impl Backend {
    pub fn name(self) -> (r: &'static str)
        ensures
            self is Mono ==> r@ == "Mono"@,
            self is Il2Cpp ==> r@ == "IL2CPP"@,
    {
        match self {
            Backend::Mono => "Mono",
            Backend::Il2Cpp => "IL2CPP",
        }
    }
}

/// What a backend can look up. The `_of` functions say what is in the metadata;
/// every lookup returns exactly that.
pub trait ScriptRuntime {
    /// The metadata can be read.
    spec fn ready(&self) -> bool;

    spec fn image_of(&self, assembly: Seq<char>) -> Option<Image>;

    spec fn class_of(&self, image: Image, namespace: Seq<char>, name: Seq<char>) -> Option<Class>;

    spec fn field_of(&self, class: Class, name: Seq<char>) -> Option<Field>;

    spec fn offset_of(&self, field: Field) -> i32;

    spec fn method_of(&self, class: Class, name: Seq<char>, argc: int) -> Option<Method>;

    spec fn exact_of(&self, class: Class, name: Seq<char>, argc: nat) -> Option<Method>;

    spec fn native_of(&self, method: Method) -> Option<u64>;

    fn backend(&self) -> Backend;

    /// The image of an assembly, by its name without path or suffix.
    fn image(&self, assembly: &str) -> (r: Option<Image>)
        requires
            self.ready(),
        ensures
            r == self.image_of(assembly@),
    ;

    fn class(&self, image: Image, namespace: &str, name: &str) -> (r: Option<Class>)
        requires
            self.ready(),
        ensures
            r == self.class_of(image, namespace@, name@),
    ;

    /// A field of the class or of one of its base classes.
    fn field(&self, class: Class, name: &str) -> (r: Option<Field>)
        requires
            self.ready(),
        ensures
            r == self.field_of(class, name@),
    ;

    fn field_offset(&self, field: Field) -> (r: i32)
        requires
            self.ready(),
        ensures
            r == self.offset_of(field),
    ;

    /// A method of the class or of one of its base classes; a negative `argc`
    /// fits every number of arguments.
    fn method(&self, class: Class, name: &str, argc: i32) -> (r: Option<Method>)
        requires
            self.ready(),
        ensures
            r == self.method_of(class, name@, argc as int),
    ;

    /// A method of the class itself, with that many arguments and no type
    /// parameter.
    fn method_exact(&self, class: Class, name: &str, argc: u32) -> (r: Option<Method>)
        requires
            self.ready(),
        ensures
            r == self.exact_of(class, name@, argc as nat),
    ;

    /// The code of a method.
    fn native_ptr(&self, method: Method) -> (r: Option<u64>)
        requires
            self.ready(),
        ensures
            r == self.native_of(method),
    ;
}

// ── reading objects ──────────────────────────────────────────────────────────

/// Where an array has its length.
pub const ARRAY_COUNT_OFF: u64 = 0x18;

/// Where an array has its first element.
pub const ARRAY_DATA_OFF: u64 = 0x20;

/// Where an engine object has the pointer to its native half.
pub const UNITY_CACHED_PTR_OFF: u64 = 0x10;

/// Where a boxed value starts.
pub const BOX_OFF: u64 = 0x10;

/// Where a list has its array.
pub const LIST_ITEMS_OFF: u64 = 0x10;

/// Where a list has its length.
pub const LIST_SIZE_OFF: u64 = 0x18;

/// A number read out of memory, as an unsigned one.
pub open spec fn opt_nat(r: Option<u64>) -> Option<nat> {
    match r {
        Some(v) => Some(v as nat),
        None => None,
    }
}

/// The address of a field, where it is one.
fn field_addr(object: Object, offset: i32) -> (r: Option<u64>)
    ensures
        r matches Some(a) ==> a == object.0 + offset,
        r is None ==> !(0 <= object.0 + offset <= u64::MAX),
{
    if offset >= 0 {
        let d: u64 = offset as u64;
        if d > u64::MAX - object.0 {
            None
        } else {
            Some(object.0 + d)
        }
    } else {
        let d: u64 = (-(offset as i64)) as u64;
        if d > object.0 {
            None
        } else {
            Some(object.0 - d)
        }
    }
}

/// A pointer-sized field.
pub fn read_field(mem: &Memory, object: Object, offset: i32) -> (r: Option<u64>)
    requires
        mem.wf(),
    ensures
        opt_nat(r) == memory::val(mem@, object.0 + offset, 8),
{
    match field_addr(object, offset) {
        Some(a) => mem.read_u64(a, 0),
        None => {
            proof {
                mem.lemma_no_value(object.0 + offset, 8);
            }
            None
        },
    }
}

/// A field of one byte.
pub fn read_field_u8(mem: &Memory, object: Object, offset: i32) -> (r: Option<u8>)
    requires
        mem.wf(),
    ensures
        r matches Some(v) ==> memory::val(mem@, object.0 + offset, 1) == Some(v as nat),
        r is None ==> memory::val(mem@, object.0 + offset, 1) is None,
{
    match field_addr(object, offset) {
        Some(a) => mem.read_u8(a, 0),
        None => {
            proof {
                mem.lemma_no_value(object.0 + offset, 1);
            }
            None
        },
    }
}

/// A field of four bytes.
pub fn read_field_u32(mem: &Memory, object: Object, offset: i32) -> (r: Option<u32>)
    requires
        mem.wf(),
    ensures
        r matches Some(v) ==> memory::val(mem@, object.0 + offset, 4) == Some(v as nat),
        r is None ==> memory::val(mem@, object.0 + offset, 4) is None,
{
    match field_addr(object, offset) {
        Some(a) => mem.read_u32(a, 0),
        None => {
            proof {
                mem.lemma_no_value(object.0 + offset, 4);
            }
            None
        },
    }
}

/// The length of an array; 0 for null.
pub fn array_len(mem: &Memory, arr: Object) -> (r: Option<u64>)
    requires
        mem.wf(),
    ensures
        arr.0 == 0 ==> r == Some(0u64),
        arr.0 != 0 ==> opt_nat(r) == memory::val(mem@, arr.0 + ARRAY_COUNT_OFF, 8),
{
    if arr.is_null() {
        return Some(0);
    }
    mem.read_u64(arr.0, ARRAY_COUNT_OFF)
}

/// Element `i` of an array of references.
pub fn array_get(mem: &Memory, arr: Object, i: u64) -> (r: Option<Object>)
    requires
        mem.wf(),
    ensures
        r matches Some(o) ==> memory::val(mem@, arr.0 + ARRAY_DATA_OFF + i * 8, 8) == Some(
            o.0 as nat,
        ),
        r is None ==> memory::val(mem@, arr.0 + ARRAY_DATA_OFF + i * 8, 8) is None,
{
    if i > 0x1fff_ffff_ffff_fffb {
        proof {
            mem.lemma_no_value(arr.0 + ARRAY_DATA_OFF + i * 8, 8);
        }
        return None;
    }
    match mem.read_u64(arr.0, ARRAY_DATA_OFF + i * 8) {
        Some(v) => Some(Object(v)),
        None => None,
    }
}

/// Whether an engine object still has its native half: one that was destroyed
/// keeps its managed half for a while.
pub fn is_alive(mem: &Memory, obj: Object) -> (r: Option<bool>)
    requires
        mem.wf(),
    ensures
        obj.0 == 0 ==> r == Some(false),
        obj.0 != 0 ==> {
            &&& r matches Some(b) ==> (memory::val(
                mem@,
                obj.0 + UNITY_CACHED_PTR_OFF,
                8,
            ) matches Some(v) && b == (v != 0))
            &&& r is None ==> memory::val(mem@, obj.0 + UNITY_CACHED_PTR_OFF, 8) is None
        },
{
    if obj.is_null() {
        return Some(false);
    }
    match mem.read_u64(obj.0, UNITY_CACHED_PTR_OFF) {
        Some(v) => Some(v != 0),
        None => None,
    }
}

/// A boxed number.
pub fn unbox_i32(mem: &Memory, boxed: Object) -> (r: Option<i32>)
    requires
        mem.wf(),
    ensures
        r matches Some(v) ==> boxed.0 != 0 && memory::int_val(mem@, boxed.0 + BOX_OFF) == Some(
            v as int,
        ),
        r is None ==> boxed.0 == 0 || memory::int_val(mem@, boxed.0 + BOX_OFF) is None,
{
    if boxed.is_null() {
        return None;
    }
    mem.read_i32(boxed.0, BOX_OFF)
}

/// A boxed truth value.
pub fn unbox_bool(mem: &Memory, boxed: Object) -> (r: Option<bool>)
    requires
        mem.wf(),
    ensures
        r matches Some(b) ==> boxed.0 != 0 && (memory::val(mem@, boxed.0 + BOX_OFF, 1) matches Some(
            v,
        ) && b == (v != 0)),
        r is None ==> boxed.0 == 0 || memory::val(mem@, boxed.0 + BOX_OFF, 1) is None,
{
    if boxed.is_null() {
        return None;
    }
    match mem.read_u8(boxed.0, BOX_OFF) {
        Some(v) => Some(v != 0),
        None => None,
    }
}

/// The bits of the three coordinates of a boxed vector.
pub fn unbox_vec3(mem: &Memory, boxed: Object) -> (r: Option<(u32, u32, u32)>)
    requires
        mem.wf(),
    ensures
        r matches Some(v) ==> {
            &&& boxed.0 != 0
            &&& memory::val(mem@, boxed.0 + BOX_OFF, 4) == Some(v.0 as nat)
            &&& memory::val(mem@, boxed.0 + BOX_OFF + 4, 4) == Some(v.1 as nat)
            &&& memory::val(mem@, boxed.0 + BOX_OFF + 8, 4) == Some(v.2 as nat)
        },
        r is None ==> {
            ||| boxed.0 == 0
            ||| memory::val(mem@, boxed.0 + BOX_OFF, 4) is None
            ||| memory::val(mem@, boxed.0 + BOX_OFF + 4, 4) is None
            ||| memory::val(mem@, boxed.0 + BOX_OFF + 8, 4) is None
        },
{
    if boxed.is_null() {
        return None;
    }
    match (
        mem.read_u32(boxed.0, BOX_OFF),
        mem.read_u32(boxed.0, BOX_OFF + 4),
        mem.read_u32(boxed.0, BOX_OFF + 8),
    ) {
        (Some(x), Some(y), Some(z)) => Some((x, y, z)),
        _ => None,
    }
}

/// The length that a list holds; 0 for a negative one.
pub open spec fn count_in(m: Map<int, u8>, list: int) -> Option<nat> {
    match memory::int_val(m, list + LIST_SIZE_OFF) {
        Some(v) => Some(
            if v < 0 {
                0
            } else {
                v as nat
            },
        ),
        None => None,
    }
}

/// The array of a list; null for null and for an empty list, and none where the
/// length or the array cannot be read.
pub open spec fn items_in(m: Map<int, u8>, list: int) -> Option<nat> {
    if list == 0 {
        Some(0)
    } else {
        match count_in(m, list) {
            Some(n) => if n == 0 {
                Some(0)
            } else {
                memory::val(m, list + LIST_ITEMS_OFF, 8)
            },
            None => None,
        }
    }
}

/// The array of a list; null if the list is null or empty.
pub fn list_items(mem: &Memory, list: Object) -> (r: Option<Object>)
    requires
        mem.wf(),
    ensures
        r matches Some(o) ==> items_in(mem@, list.0 as int) == Some(o.0 as nat),
        r is None ==> items_in(mem@, list.0 as int) is None,
        list.0 == 0 ==> r == Some(Object(0)),
        list.0 != 0 && count_in(mem@, list.0 as int) == Some(0nat) ==> r == Some(Object(0)),
{
    if list.is_null() {
        return Some(Object(0));
    }
    match list_count(mem, list) {
        Some(n) => {
            if n == 0 {
                return Some(Object(0));
            }
        },
        None => {
            return None;
        },
    }
    match mem.read_u64(list.0, LIST_ITEMS_OFF) {
        Some(v) => Some(Object(v)),
        None => None,
    }
}

/// The length of a list; 0 for null and for a negative one.
pub fn list_count(mem: &Memory, list: Object) -> (r: Option<u64>)
    requires
        mem.wf(),
    ensures
        list.0 == 0 ==> r == Some(0u64),
        list.0 != 0 ==> {
            &&& r matches Some(n) ==> count_in(mem@, list.0 as int) == Some(n as nat)
            &&& r is None ==> count_in(mem@, list.0 as int) is None
        },
{
    if list.is_null() {
        return Some(0);
    }
    match mem.read_i32(list.0, LIST_SIZE_OFF) {
        Some(v) => Some(
            if v < 0 {
                0
            } else {
                v as u64
            },
        ),
        None => None,
    }
}

// ── writing objects ──────────────────────────────────────────────────────────

/// Bytes to be stored: the lowest `width` bytes of `value`, lowest first.
#[derive(Copy, Clone, PartialEq, Eq, Debug, Structural)]
pub struct Store {
    pub addr: u64,
    pub width: u8,
    pub value: u64,
}

/// Memory after a store.
pub open spec fn stored(m: Map<int, u8>, s: Store) -> Map<int, u8> {
    Map::new(
        |a: int| m.dom().contains(a),
        |a: int|
            if s.addr <= a < s.addr + s.width {
                ((s.value as nat / memory::pow256((a - s.addr) as nat)) % 256) as u8
            } else {
                m[a]
            },
    )
}

/// The store of a four-byte field.
pub fn write_field(object: Object, offset: i32, bits: u32) -> (r: Option<Store>)
    ensures
        r matches Some(s) ==> s == (Store {
            addr: (object.0 + offset) as u64,
            width: 4,
            value: bits as u64,
        }) && 0 <= object.0 + offset <= u64::MAX,
        r is None ==> !(0 <= object.0 + offset <= u64::MAX),
{
    match field_addr(object, offset) {
        Some(addr) => Some(Store { addr, width: 4, value: bits as u64 }),
        None => None,
    }
}

/// The store of element `i` of an array of references.
pub fn array_set(arr: Object, i: u64, val: Object) -> (r: Option<Store>)
    ensures
        r matches Some(s) ==> s == (Store {
            addr: (arr.0 + ARRAY_DATA_OFF + i * 8) as u64,
            width: 8,
            value: val.0,
        }) && arr.0 + ARRAY_DATA_OFF + i * 8 <= u64::MAX,
        r is None ==> arr.0 + ARRAY_DATA_OFF + i * 8 > u64::MAX,
{
    if i > 0x1fff_ffff_ffff_fffb {
        return None;
    }
    let d: u64 = ARRAY_DATA_OFF + i * 8;
    if d > u64::MAX - arr.0 {
        return None;
    }
    Some(Store { addr: arr.0 + d, width: 8, value: val.0 })
}

/// The bytes from `k` on, read back after a store.
proof fn lemma_le_stored(m: Map<int, u8>, s: Store, k: nat)
    requires
        k <= s.width,
        memory::has(m, s.addr as int, s.width as int),
    ensures
        memory::le(stored(m, s), s.addr + k, (s.width - k) as nat) == (s.value as nat
            / memory::pow256(k)) % memory::pow256((s.width - k) as nat),
    decreases s.width - k,
{
    let n = (s.width - k) as nat;
    let v = s.value as nat / memory::pow256(k);
    memory::lemma_pow256_positive(k);
    if n > 0 {
        lemma_le_stored(m, s, k + 1);
        memory::lemma_pow256_positive((n - 1) as nat);
        let p = memory::pow256(k) as int;
        let q = memory::pow256((n - 1) as nat) as int;
        assert(memory::pow256(k + 1) == 256 * p);
        assert(memory::pow256(n) == 256 * q);
        assert((s.value as int) / (256 * p) == ((s.value as int) / p) / 256) by {
            vstd::arithmetic::div_mod::lemma_div_denominator(s.value as int, p, 256);
            assert(p * 256 == 256 * p);
        }
        assert((v as int) % (256 * q) == (v as int) % 256 + 256 * (((v as int) / 256) % q)) by {
            vstd::arithmetic::div_mod::lemma_mod_breakdown(v as int, 256, q);
        }
        let a = s.addr + k;
        assert(m.dom().contains(a)) by {
            assert(memory::has(m, s.addr as int, s.width as int));
        }
        assert(stored(m, s)[a] == (v % 256) as u8);
    } else {
        assert(v % 1 == 0);
    }
}

/// What was stored is read back, and nothing else changes.
pub proof fn law_store(m: Map<int, u8>, s: Store)
    requires
        s.width == 4 || s.width == 8,
        s.width == 4 ==> s.value < 0x1_0000_0000,
        memory::has(m, s.addr as int, s.width as int),
    ensures
        memory::val(stored(m, s), s.addr as int, s.width as nat) == Some(s.value as nat),
        stored(m, s).dom() =~= m.dom(),
        forall|a: int|
            m.dom().contains(a) && !(s.addr <= a < s.addr + s.width) ==> #[trigger] stored(m, s)[a]
                == m[a],
{
    lemma_le_stored(m, s, 0);
    memory::lemma_pow256_values();
    assert(memory::has(stored(m, s), s.addr as int, s.width as int)) by {
        assert(stored(m, s).dom() =~= m.dom());
    }
    vstd::arithmetic::div_mod::lemma_small_mod(s.value as nat, memory::pow256(s.width as nat));
}

} // verus!
