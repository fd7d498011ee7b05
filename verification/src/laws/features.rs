//! The laws of the toggles and of infinite stamina.

use vstd::prelude::*;

use crate::features;
use crate::features::StaminaOffsets;
use crate::memory;
use crate::runtime;
use crate::runtime::{ScriptRuntime, Store};
use crate::symbols;
use crate::symbols::FieldSpec;

verus! {

/// A field is found where its class is in the image of its assembly and has a
/// field of that name, and its offset is taken where it lies behind the header
/// and below 64 KiB.
pub proof fn law_field_offset<R: ScriptRuntime>(
    rt: &R,
    assembly: Seq<char>,
    namespace: Seq<char>,
    class: Seq<char>,
    name: Seq<char>,
    o: i32,
)
    ensures
        features::plausible_offset(rt, (assembly, namespace, class), name) == Some(o) <==> {
            &&& 1 <= o <= 0xffff
            &&& rt.image_of(assembly) matches Some(image)
            &&& rt.class_of(image, namespace, class) matches Some(k)
            &&& rt.field_of(k, name) matches Some(f)
            &&& rt.offset_of(f) == o
        },
{
}

/// The field of a class lies at that offset.
pub open spec fn lies_at<R: ScriptRuntime>(
    rt: &R,
    namespace: Seq<char>,
    class: Seq<char>,
    name: Seq<char>,
    o: i32,
) -> bool {
    &&& rt.image_of("Assembly-CSharp"@) matches Some(image)
    &&& rt.class_of(image, namespace, class) matches Some(k)
    &&& rt.field_of(k, name) matches Some(f)
    &&& rt.offset_of(f) == o
    &&& 0 < o < 0x1_0000
}

/// The way to the stamina value is found exactly where all its fields are: the
/// player of the world, the player's physical state, its stamina, and of that
/// the current value and the total capacity, each under its own name.
pub proof fn law_stamina_fields<R: ScriptRuntime>(rt: &R, c: StaminaOffsets)
    ensures
        features::stamina_offsets(rt) == Some(c) <==> {
            &&& lies_at(rt, "EFT"@, "GameWorld"@, "MainPlayer"@, c.off_main_player)
            &&& lies_at(rt, "EFT"@, "Player"@, "Physical"@, c.off_physical)
            &&& lies_at(rt, ""@, "PhysicalBase"@, "Stamina"@, c.off_stamina)
            &&& lies_at(rt, ""@, "Stamina"@, "Current"@, c.off_current)
            &&& lies_at(rt, ""@, "Stamina"@, "TotalCapacity"@, c.off_capacity)
        },
{
}

/// What a tick stores, from the names of the fields to the bytes: at the field
/// `Current` of the stamina of the world's player, the four bytes that the field
/// `TotalCapacity` of the same object holds. It is stored exactly where the world
/// and the player live, every link leads on, and the capacity is a finite number
/// above 0.
pub proof fn law_stamina_store<R: ScriptRuntime>(
    rt: &R,
    m: Map<int, u8>,
    c: StaminaOffsets,
    world: int,
    player: nat,
    physical: nat,
    stamina: nat,
    capacity: nat,
    current: i32,
    total: i32,
)
    requires
        features::stamina_offsets(rt) == Some(c),
        lies_at(rt, ""@, "Stamina"@, "Current"@, current),
        lies_at(rt, ""@, "Stamina"@, "TotalCapacity"@, total),
        world != 0,
        memory::val(m, world + 0x10, 8) matches Some(v) && v != 0,
        memory::val(m, world + c.off_main_player, 8) == Some(player),
        player != 0,
        memory::val(m, player + 0x10int, 8) matches Some(v) && v != 0,
        memory::val(m, player + c.off_physical, 8) == Some(physical),
        physical != 0,
        memory::val(m, physical + c.off_stamina, 8) == Some(stamina),
        stamina != 0,
        memory::has(m, stamina as int, 64),
        memory::val(m, stamina + total, 4) == Some(capacity),
        0 < capacity < 0x7f80_0000,
        stamina + current <= u64::MAX,
    ensures
        features::pinned(m, c, world) == Some(
            Store { addr: (stamina + current) as u64, width: 4, value: capacity as u64 },
        ),
        memory::has(m, stamina + current, 4) ==> memory::val(
            runtime::stored(m, features::pinned(m, c, world)->0),
            stamina + current,
            4,
        ) == Some(capacity),
{
    law_stamina_fields(rt, c);
    if memory::has(m, stamina + current, 4) {
        runtime::law_store(m, features::pinned(m, c, world)->0);
    }
}

/// Nothing is stored without a living world, a living player in it, and a
/// capacity that is a finite number above 0; and what is stored is four bytes
/// wide and holds what `TotalCapacity` holds.
pub proof fn law_stamina_needs(m: Map<int, u8>, c: StaminaOffsets, world: int)
    ensures
        features::pinned(m, c, world) matches Some(s) ==> {
            &&& world != 0
            &&& memory::val(m, world + 0x10, 8) matches Some(w)
            &&& w != 0
            &&& memory::val(m, world + c.off_main_player, 8) matches Some(player)
            &&& player != 0
            &&& memory::val(m, player + 0x10int, 8) matches Some(p)
            &&& p != 0
            &&& memory::val(m, player + c.off_physical, 8) matches Some(physical)
            &&& physical != 0
            &&& memory::val(m, physical + c.off_stamina, 8) matches Some(stamina)
            &&& stamina != 0
            &&& memory::has(m, stamina as int, 64)
            &&& memory::val(m, stamina + c.off_capacity, 4) matches Some(capacity)
            &&& 0 < capacity < 0x7f80_0000
            &&& s.addr == stamina + c.off_current
            &&& s.width == 4
            &&& s.value == capacity
        },
{
    memory::lemma_widths(m, features::stamina_object(m, c, world)->0 + c.off_capacity);
}

/// The multiplier that is set is the one nearest to what was asked for, of those
/// from 1.0 to 1.4; the bits of a float that is not negative are ordered as the
/// floats are. What is negative, or no number, gives 1.0.
pub proof fn law_nearest_multiplier(bits: u32, other: u32)
    requires
        0x3f80_0000 <= other <= 0x3fb3_3333,
    ensures
        0x3f80_0000 <= features::clamped(bits) <= 0x3fb3_3333,
        bits <= 0x7f80_0000 && bits <= other ==> features::clamped(bits) <= other,
        bits <= 0x7f80_0000 && bits >= other ==> features::clamped(bits) >= other,
        bits > 0x7f80_0000 ==> features::clamped(bits) == 0x3f80_0000,
        0x3f80_0000 <= bits <= 0x3fb3_3333 ==> features::clamped(bits) == bits,
{
}

/// A step is 0.05, towards the side that was asked for, cut off at the end of
/// the range.
pub proof fn law_step(bits: u32)
    requires
        0x3f80_0000 <= bits <= 0x3fb3_3333,
    ensures
        features::stepped(bits, true) == if bits + 419430 > 0x3fb3_3333 {
            0x3fb3_3333
        } else {
            bits + 419430
        },
        features::stepped(bits, false) == if bits - 419430 < 0x3f80_0000 {
            0x3f80_0000
        } else {
            bits - 419430
        },
        bits < 0x3fb3_3333 ==> features::stepped(bits, true) > bits,
        bits > 0x3f80_0000 ==> features::stepped(bits, false) < bits,
{
}

/// The resolved offsets have a key exactly where some field under that key is
/// found, and under it the offset of the last such field.
pub proof fn law_resolved_fields<R: ScriptRuntime>(rt: &R, specs: Seq<FieldSpec>, key: Seq<char>)
    ensures
        symbols::resolved(rt, specs).dom().contains(key) <==> exists|i: int|
            0 <= i < specs.len() && (#[trigger] specs[i]).key@ == key && found(rt, specs[i]) is Some,
        forall|i: int|
            0 <= i < specs.len() && (#[trigger] specs[i]).key@ == key && found(rt, specs[i]) is Some
                && (forall|j: int|
                i < j < specs.len() && (#[trigger] specs[j]).key@ == key ==> found(rt, specs[j]) is None)
                ==> symbols::resolved(rt, specs)[key] == found(rt, specs[i])->0,
    decreases specs.len(),
{
    if specs.len() > 0 {
        let d = specs.drop_last();
        let n = specs.len() - 1;
        law_resolved_fields(rt, d, key);
        assert(forall|i: int| 0 <= i < n ==> d[i] == specs[i]);
        assert(specs.last() == specs[n]);
        assert(symbols::offset_in(rt, &specs[n]) == found(rt, specs[n]));
        if exists|i: int|
            0 <= i < specs.len() && (#[trigger] specs[i]).key@ == key && found(rt, specs[i]) is Some {
            let i = choose|i: int|
                0 <= i < specs.len() && (#[trigger] specs[i]).key@ == key && found(rt, specs[i]) is Some;
            if i < n {
                assert(d[i].key@ == key);
            }
        }
        if symbols::resolved(rt, d).dom().contains(key) {
            let i = choose|i: int|
                0 <= i < d.len() && (#[trigger] d[i]).key@ == key && found(rt, d[i]) is Some;
            assert(specs[i].key@ == key);
        }
        assert forall|i: int|
            0 <= i < specs.len() && (#[trigger] specs[i]).key@ == key && found(rt, specs[i]) is Some
                && (forall|j: int|
                i < j < specs.len() && (#[trigger] specs[j]).key@ == key ==> found(rt, specs[j]) is None)
            implies symbols::resolved(rt, specs)[key] == found(rt, specs[i])->0 by {
            if i < n {
                assert(specs[n].key@ == key ==> found(rt, specs[n]) is None);
                assert(d[i].key@ == key);
                assert forall|j: int| i < j < d.len() && (#[trigger] d[j]).key@ == key implies found(
                    rt,
                    d[j],
                ) is None by {
                    assert(specs[j].key@ == key);
                }
            }
        }
    }
}

/// The offset of a field, by the names in its description.
pub open spec fn found<R: ScriptRuntime>(rt: &R, f: FieldSpec) -> Option<i32> {
    match rt.image_of(f.class.assembly@) {
        Some(image) => match rt.class_of(image, f.class.namespace@, f.class.name@) {
            Some(k) => match rt.field_of(k, f.field@) {
                Some(x) => Some(rt.offset_of(x)),
                None => None,
            },
            None => None,
        },
        None => None,
    }
}

} // verus!
