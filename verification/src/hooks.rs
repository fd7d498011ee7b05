//! The per-frame driver: which method of the game is hooked, who is inside the
//! hook, and when it is safe to unload.

use vstd::prelude::*;

use crate::runtime::{Class, Method, Object, ScriptRuntime};
use crate::symbols;
use crate::symbols::{eft, find_class};

verus! {

#[derive(Copy, Clone, PartialEq, Eq, Debug, Structural)]
pub struct Hooks {
    /// The world of the frame that ran last.
    pub world: Object,
    pub unload: bool,
    /// How many calls are inside the hook.
    pub inside: u64,
}

impl Hooks {
    pub fn new() -> (h: Self)
        ensures
            h == (Hooks { world: Object(0), unload: false, inside: 0 }),
    {
        Hooks { world: Object(0), unload: false, inside: 0 }
    }
}

pub fn game_world(h: &Hooks) -> (r: Object)
    ensures
        r == h.world,
{
    h.world
}

pub fn unload_requested(h: &Hooks) -> (r: bool)
    ensures
        r == h.unload,
{
    h.unload
}

/// A call enters the hook.
pub fn driver_enter(h: &mut Hooks)
    ensures
        *final(h) == (Hooks { inside: old(h).inside.wrapping_add(1), ..*old(h) }),
{
    h.inside = h.inside.wrapping_add(1);
}

/// The game's own update is done: the frame belongs to that world.
pub fn driver_world(h: &mut Hooks, this: Object)
    ensures
        *final(h) == (Hooks { world: this, ..*old(h) }),
{
    h.world = this;
}

/// A call leaves the hook; `keep_going` is what the frame said.
pub fn driver_leave(h: &mut Hooks, keep_going: bool)
    ensures
        *final(h) == (Hooks {
            inside: old(h).inside.wrapping_sub(1),
            unload: old(h).unload || !keep_going,
            ..*old(h)
        }),
{
    if !keep_going {
        h.unload = true;
    }
    h.inside = h.inside.wrapping_sub(1);
}

/// Where the wait for the last call stands.
#[derive(Copy, Clone, PartialEq, Eq, Debug, Structural)]
pub enum Drain {
    Safe,
    Unsafe,
    Wait,
}

/// Whether the code can go: the hook could be taken out and no call is inside
/// it. After the timeout it is given up.
pub fn shutdown(disabled: bool, inside: u64, late: bool) -> (r: Drain)
    ensures
        r is Safe <==> disabled && inside == 0,
        r is Unsafe <==> !disabled || (inside != 0 && late),
{
    if !disabled {
        Drain::Unsafe
    } else if inside == 0 {
        Drain::Safe
    } else if late {
        Drain::Unsafe
    } else {
        Drain::Wait
    }
}

/// The code of a method without arguments, where the class has one.
pub open spec fn driver_code<R: ScriptRuntime>(rt: &R, class: Class, name: Seq<char>) -> Option<u64> {
    match rt.exact_of(class, name, 0) {
        Some(method) => rt.native_of(method),
        None => None,
    }
}

/// What is tried, in this order: the methods that have code.
pub open spec fn driver_targets<R: ScriptRuntime>(rt: &R) -> Seq<(Seq<char>, u64)> {
    match symbols::class_in(
        rt,
        (symbols::assembly::GAME@, symbols::ns::EFT@, "GameWorld"@),
    ) {
        Some(class) => {
            let a = with_target(rt, class, Seq::empty(), "LateUpdate"@);
            let b = with_target(rt, class, a, "Update"@);
            with_target(rt, class, b, "DoWorldTick"@)
        },
        None => Seq::empty(),
    }
}

pub open spec fn with_target<R: ScriptRuntime>(
    rt: &R,
    class: Class,
    before: Seq<(Seq<char>, u64)>,
    name: Seq<char>,
) -> Seq<(Seq<char>, u64)> {
    match driver_code(rt, class, name) {
        Some(p) => before.push((name, p)),
        None => before,
    }
}

/// What a list of targets says.
pub open spec fn targets_val(s: Seq<(&'static str, u64)>) -> Seq<(Seq<char>, u64)> {
    s.map_values(|x: (&'static str, u64)| (x.0@, x.1))
}

/// The methods of the world that can drive the trainer, best first, each with
/// its code. The first that can be hooked is.
pub fn install_driver_hook<R: ScriptRuntime>(rt: &R) -> (out: Vec<(&'static str, u64)>)
    requires
        rt.ready(),
    ensures
        targets_val(out@) == driver_targets(rt),
{
    let mut out: Vec<(&'static str, u64)> = Vec::new();
    assert(targets_val(out@) =~= Seq::empty());
    let class: Class = match find_class(rt, eft::game_world()) {
        Some(c) => c,
        None => {
            return out;
        },
    };
    let names: Vec<&'static str> = eft::driver_methods();
    try_target(rt, class, names[0], &mut out);
    try_target(rt, class, names[1], &mut out);
    try_target(rt, class, names[2], &mut out);
    out
}

fn try_target<R: ScriptRuntime>(
    rt: &R,
    class: Class,
    name: &'static str,
    out: &mut Vec<(&'static str, u64)>,
)
    requires
        rt.ready(),
    ensures
        targets_val(final(out)@) == with_target(rt, class, targets_val(old(out)@), name@),
{
    let method: Method = match rt.method_exact(class, name, 0) {
        Some(x) => x,
        None => {
            return ;
        },
    };
    match rt.native_ptr(method) {
        Some(p) => {
            out.push((name, p));
            assert(targets_val(out@) =~= targets_val(old(out)@).push((name@, p)));
        },
        None => {},
    }
}

} // verus!
