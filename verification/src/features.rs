//! The feature switches, and what infinite stamina stores.
//!
//! The speed multiplier is kept as the bits of a 32-bit float. Non-negative
//! floats are ordered as their bits are, and between 1 and 2 one unit of the
//! last place is one bit, so that clamping and stepping are exact on the bits.

use vstd::prelude::*;

use crate::memory;
use crate::memory::Memory;
use crate::runtime;
use crate::runtime::{
    is_alive, read_field, read_field_u32, write_field, Object, ScriptRuntime, Store,
};
use crate::symbols;
use crate::symbols::{eft, find_class, ClassRef};

verus! {

/// The bits of 1.0.
pub const SPEED_MIN: u32 = 0x3f80_0000;

/// The bits of 1.4.
pub const SPEED_MAX: u32 = 0x3fb3_3333;

/// How many units of the last place 0.05 is, between 1 and 2.
pub const SPEED_STEP: u32 = 419430;

/// The bits of infinity.
pub const INFINITY: u32 = 0x7f80_0000;

/// Bits that are no number.
pub open spec fn nan(bits: u32) -> bool {
    bits % 0x8000_0000 > INFINITY
}

pub fn is_nan(bits: u32) -> (r: bool)
    ensures
        r == nan(bits),
{
    bits % 0x8000_0000 > INFINITY
}

/// A multiplier kept between 1.0 and 1.4; what is no number counts as 1.0.
pub open spec fn clamped(bits: u32) -> u32 {
    if nan(bits) || bits >= 0x8000_0000 || bits < SPEED_MIN {
        SPEED_MIN
    } else if bits > SPEED_MAX {
        SPEED_MAX
    } else {
        bits
    }
}

/// A multiplier one step up or down.
pub open spec fn stepped(bits: u32, up: bool) -> u32 {
    if up {
        clamped((bits + SPEED_STEP) as u32)
    } else {
        clamped((bits - SPEED_STEP) as u32)
    }
}

/// Where the fields on the way to the stamina value lie.
#[derive(Copy, Clone, PartialEq, Eq, Debug, Structural)]
pub struct StaminaOffsets {
    pub off_main_player: i32,
    pub off_physical: i32,
    pub off_stamina: i32,
    pub off_current: i32,
    pub off_capacity: i32,
}

pub struct Features {
    pub stamina: bool,
    pub speed: bool,
    /// The bits of the multiplier.
    pub mult: u32,
    /// The offsets, once they were looked for.
    pub cache: Option<Option<StaminaOffsets>>,
}

impl Features {
    /// The multiplier is in its range.
    pub open spec fn wf(&self) -> bool {
        SPEED_MIN <= self.mult <= SPEED_MAX
    }

    pub fn new() -> (f: Self)
        ensures
            f.wf(),
            !f.stamina,
            !f.speed,
            f.mult == SPEED_MIN,
            f.cache is None,
    {
        Features { stamina: false, speed: false, mult: SPEED_MIN, cache: None }
    }
}

pub fn set_inf_stamina(f: &mut Features, on: bool)
    ensures
        *final(f) == (Features { stamina: on, ..*old(f) }),
{
    f.stamina = on;
}

pub fn inf_stamina(f: &Features) -> (r: bool)
    ensures
        r == f.stamina,
{
    f.stamina
}

/// Switches infinite stamina over and returns what it is then.
pub fn toggle_inf_stamina(f: &mut Features) -> (r: bool)
    ensures
        *final(f) == (Features { stamina: !old(f).stamina, ..*old(f) }),
        r == !old(f).stamina,
{
    f.stamina = !f.stamina;
    f.stamina
}

pub fn set_speed_on(f: &mut Features, on: bool)
    ensures
        *final(f) == (Features { speed: on, ..*old(f) }),
{
    f.speed = on;
}

pub fn speed_on(f: &Features) -> (r: bool)
    ensures
        r == f.speed,
{
    f.speed
}

/// Switches the speed feature over and returns what it is then.
pub fn toggle_speed(f: &mut Features) -> (r: bool)
    ensures
        *final(f) == (Features { speed: !old(f).speed, ..*old(f) }),
        r == !old(f).speed,
{
    f.speed = !f.speed;
    f.speed
}

/// The bits of the multiplier.
pub fn speed_mult(f: &Features) -> (r: u32)
    ensures
        r == f.mult,
{
    f.mult
}

/// Sets the multiplier, kept in its range.
pub fn set_speed_mult(f: &mut Features, bits: u32)
    ensures
        *final(f) == (Features { mult: clamped(bits), ..*old(f) }),
        SPEED_MIN <= final(f).mult <= SPEED_MAX,
        final(f).wf(),
{
    if is_nan(bits) || bits >= 0x8000_0000 || bits < SPEED_MIN {
        f.mult = SPEED_MIN;
    } else if bits > SPEED_MAX {
        f.mult = SPEED_MAX;
    } else {
        f.mult = bits;
    }
}

/// Moves the multiplier one step.
pub fn bump_speed(f: &mut Features, up: bool)
    requires
        old(f).wf(),
    ensures
        *final(f) == (Features { mult: stepped(old(f).mult, up), ..*old(f) }),
        final(f).wf(),
{
    let next: u32 = if up {
        f.mult + SPEED_STEP
    } else {
        f.mult - SPEED_STEP
    };
    set_speed_mult(f, next);
}

/// A step up and a step down bring a multiplier back, unless one of them was
/// cut off at an end of the range.
pub proof fn law_steps_undo(bits: u32)
    requires
        SPEED_MIN <= bits <= SPEED_MAX,
    ensures
        bits + SPEED_STEP <= SPEED_MAX ==> stepped(stepped(bits, true), false) == bits,
        bits - SPEED_STEP >= SPEED_MIN ==> stepped(stepped(bits, false), true) == bits,
        SPEED_MIN <= stepped(bits, true) <= SPEED_MAX,
        SPEED_MIN <= stepped(bits, false) <= SPEED_MAX,
{
}

/// Whatever is set, the multiplier is between 1.0 and 1.4: a value in the range
/// is kept, one below it becomes 1.0 and one above it 1.4.
pub proof fn law_clamped(bits: u32)
    ensures
        SPEED_MIN <= clamped(bits) <= SPEED_MAX,
        SPEED_MIN <= bits <= SPEED_MAX ==> clamped(bits) == bits,
        SPEED_MAX <= bits <= INFINITY ==> clamped(bits) == SPEED_MAX,
        bits <= SPEED_MIN ==> clamped(bits) == SPEED_MIN,
        0x8000_0000 <= bits <= 0x8000_0000 + INFINITY ==> clamped(bits) == SPEED_MIN,
        clamped(clamped(bits)) == clamped(bits),
{
}

// ── infinite stamina ─────────────────────────────────────────────────────────

/// Where a field lies, if that is plausible.
pub open spec fn plausible_offset<R: ScriptRuntime>(
    rt: &R,
    c: (Seq<char>, Seq<char>, Seq<char>),
    name: Seq<char>,
) -> Option<i32> {
    match symbols::class_in(rt, c) {
        Some(class) => match rt.field_of(class, name) {
            Some(field) => if 0 < rt.offset_of(field) < 0x1_0000 {
                Some(rt.offset_of(field))
            } else {
                None
            },
            None => None,
        },
        None => None,
    }
}

pub fn find_offset<R: ScriptRuntime>(rt: &R, c: ClassRef, name: &str) -> (r: Option<i32>)
    requires
        rt.ready(),
    ensures
        r == plausible_offset(rt, c@, name@),
{
    match find_class(rt, c) {
        Some(class) => match rt.field(class, name) {
            Some(field) => {
                let o: i32 = rt.field_offset(field);
                if o > 0 && o < 0x1_0000 {
                    Some(o)
                } else {
                    None
                }
            },
            None => None,
        },
        None => None,
    }
}

/// The offsets of the whole way, where each is found.
pub open spec fn stamina_offsets<R: ScriptRuntime>(rt: &R) -> Option<StaminaOffsets> {
    let game = symbols::assembly::GAME@;
    let world = (game, symbols::ns::EFT@, "GameWorld"@);
    let player = (game, symbols::ns::EFT@, "Player"@);
    let physical = (game, symbols::ns::GLOBAL@, "PhysicalBase"@);
    let stamina = (game, symbols::ns::GLOBAL@, "Stamina"@);
    match (
        plausible_offset(rt, world, "MainPlayer"@),
        plausible_offset(rt, player, "Physical"@),
        plausible_offset(rt, physical, "Stamina"@),
        plausible_offset(rt, stamina, "Current"@),
        plausible_offset(rt, stamina, "TotalCapacity"@),
    ) {
        (Some(a), Some(b), Some(c), Some(d), Some(e)) => Some(
            StaminaOffsets {
                off_main_player: a,
                off_physical: b,
                off_stamina: c,
                off_current: d,
                off_capacity: e,
            },
        ),
        _ => None,
    }
}

pub fn resolve<R: ScriptRuntime>(rt: &R) -> (r: Option<StaminaOffsets>)
    requires
        rt.ready(),
    ensures
        r == stamina_offsets(rt),
{
    let off_main_player: i32 = match find_offset(rt, eft::game_world(), "MainPlayer") {
        Some(o) => o,
        None => {
            return None;
        },
    };
    let off_physical: i32 = match find_offset(rt, eft::player(), "Physical") {
        Some(o) => o,
        None => {
            return None;
        },
    };
    let off_stamina: i32 = match find_offset(rt, eft::physical_base(), "Stamina") {
        Some(o) => o,
        None => {
            return None;
        },
    };
    let off_current: i32 = match find_offset(rt, eft::stamina(), "Current") {
        Some(o) => o,
        None => {
            return None;
        },
    };
    let off_capacity: i32 = match find_offset(rt, eft::stamina(), "TotalCapacity") {
        Some(o) => o,
        None => {
            return None;
        },
    };
    Some(
        StaminaOffsets { off_main_player, off_physical, off_stamina, off_current, off_capacity },
    )
}

/// The object has its native half.
pub open spec fn alive(m: Map<int, u8>, o: int) -> bool {
    o != 0 && (memory::val(m, o + 0x10, 8) matches Some(v) && v != 0)
}

/// The stamina object of the player in the world, where every link of the way
/// is there.
pub open spec fn stamina_object(m: Map<int, u8>, c: StaminaOffsets, world: int) -> Option<nat> {
    if !alive(m, world) {
        None
    } else {
        match memory::ptr_val(m, world + c.off_main_player) {
            Some(player) => if !alive(m, player as int) {
                None
            } else {
                match memory::ptr_val(m, player + c.off_physical) {
                    Some(physical) => match memory::ptr_val(m, physical + c.off_stamina) {
                        Some(s) => if memory::has(m, s as int, 0x40) {
                            Some(s)
                        } else {
                            None
                        },
                        None => None,
                    },
                    None => None,
                }
            },
            None => None,
        }
    }
}

/// A finite number above 0.
pub open spec fn positive(bits: nat) -> bool {
    0 < bits < INFINITY
}

/// What pins the current stamina to its capacity.
pub open spec fn pinned(m: Map<int, u8>, c: StaminaOffsets, world: int) -> Option<Store> {
    match stamina_object(m, c, world) {
        Some(s) => match memory::val(m, s + c.off_capacity, 4) {
            Some(cap) => if positive(cap) && 0 <= s + c.off_current <= u64::MAX {
                Some(Store { addr: (s + c.off_current) as u64, width: 4, value: cap as u64 })
            } else {
                None
            },
            None => None,
        },
        None => None,
    }
}

/// Whether an object has its native half.
pub fn alive_here(mem: &Memory, o: Object) -> (r: bool)
    requires
        mem.wf(),
    ensures
        r == alive(mem@, o.0 as int),
{
    match is_alive(mem, o) {
        Some(b) => b,
        None => false,
    }
}

/// The object that a field refers to.
pub fn link(mem: &Memory, o: Object, off: i32) -> (r: Option<Object>)
    requires
        mem.wf(),
    ensures
        r matches Some(x) ==> memory::ptr_val(mem@, o.0 + off) == Some(x.0 as nat),
        r is None ==> memory::ptr_val(mem@, o.0 + off) is None,
{
    match read_field(mem, o, off) {
        Some(v) => if v == 0 {
            None
        } else {
            Some(Object(v))
        },
        None => None,
    }
}

/// Follows the way from the world to the stamina value, fresh every time, and
/// returns what pins it; nothing where a link is missing.
pub fn apply_stamina(mem: &Memory, c: &StaminaOffsets, world: Object) -> (r: Option<Store>)
    requires
        mem.wf(),
    ensures
        r == pinned(mem@, *c, world.0 as int),
{
    if !alive_here(mem, world) {
        return None;
    }
    let player: Object = match link(mem, world, c.off_main_player) {
        Some(o) => o,
        None => {
            return None;
        },
    };
    if !alive_here(mem, player) {
        return None;
    }
    let physical: Object = match link(mem, player, c.off_physical) {
        Some(o) => o,
        None => {
            return None;
        },
    };
    let stamina: Object = match link(mem, physical, c.off_stamina) {
        Some(o) => o,
        None => {
            return None;
        },
    };
    if !mem.readable(stamina.0, 0x40) {
        return None;
    }
    let cap: u32 = match read_field_u32(mem, stamina, c.off_capacity) {
        Some(v) => v,
        None => {
            return None;
        },
    };
    if 0 < cap && cap < INFINITY {
        write_field(stamina, c.off_current, cap)
    } else {
        None
    }
}

/// Every frame: nothing unless infinite stamina is on; the offsets are looked
/// for the first time it is.
pub fn tick<R: ScriptRuntime>(f: &mut Features, rt: &R, mem: &Memory, world: Object) -> (r: Option<
    Store,
>)
    requires
        rt.ready(),
        mem.wf(),
    ensures
        !old(f).stamina ==> *final(f) == *old(f) && r is None,
        old(f).stamina ==> {
            &&& final(f).cache == Some(
                match old(f).cache {
                    Some(c) => c,
                    None => stamina_offsets(rt),
                },
            )
            &&& *final(f) == (Features { cache: final(f).cache, ..*old(f) })
            &&& r == match final(f).cache->0 {
                Some(c) => pinned(mem@, c, world.0 as int),
                None => None,
            }
        },
{
    if !f.stamina {
        return None;
    }
    let c: Option<StaminaOffsets> = match f.cache {
        Some(c) => c,
        None => resolve(rt),
    };
    f.cache = Some(c);
    match c {
        Some(c) => apply_stamina(mem, &c, world),
        None => None,
    }
}

/// After the store the current stamina is the capacity, wherever the current
/// value can be read.
pub proof fn law_stamina_pinned(m: Map<int, u8>, c: StaminaOffsets, world: int)
    requires
        pinned(m, c, world) is Some,
        memory::has(m, stamina_object(m, c, world)->0 + c.off_current, 4),
    ensures
        memory::val(
            runtime::stored(m, pinned(m, c, world)->0),
            stamina_object(m, c, world)->0 + c.off_current,
            4,
        ) == memory::val(m, stamina_object(m, c, world)->0 + c.off_capacity, 4),
{
    let s = stamina_object(m, c, world)->0;
    memory::lemma_widths(m, s + c.off_capacity);
    runtime::law_store(m, pinned(m, c, world)->0);
}

} // verus!
