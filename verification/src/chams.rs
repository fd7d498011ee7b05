//! Players drawn through walls in one shared material: the switches, which
//! renderers are touched and what they had before, and how the material is set
//! up.
//!
//! Every touched renderer refers to one material, so that a change of style or
//! colour is one change to it. What a renderer had before is kept, and given
//! back when the feature is switched off.
//!
//! The engine's own calls are made by the caller, between the steps here.

use std::collections::{HashMap, HashSet};

use vstd::prelude::*;

use crate::features::{find_offset, link};
use crate::memory;
use crate::memory::Memory;
use crate::runtime::{
    array_get, array_len, array_set, is_alive, list_count, list_items, unbox_i32, Class, Method,
    Object, ScriptRuntime, Store,
};
use crate::symbols;
use crate::symbols::{eft, find_class, unity};
use crate::text;
use crate::text::{has_text, to_lower};

verus! {

broadcast use vstd::std_specs::hash::group_hash_axioms;

pub const STYLE_FLAT: usize = 0;

pub const STYLE_GLOW: usize = 1;

pub const STYLE_MESH: usize = 2;

pub const STYLES: usize = 3;

pub const SCHEMES: usize = 6;

/// The time between two passes, in nanoseconds.
pub const TICK_INTERVAL: u64 = 500_000_000;

pub const MAX_SUBMESHES: u64 = 64;

pub const MAX_RENDERERS_PER_PLAYER: u64 = 4096;

pub const MAX_PLAYERS: u64 = 4096;

/// The base shader, decided once; `rim` for one that lights the outline.
#[derive(Copy, Clone, PartialEq, Eq, Debug, Structural)]
pub struct ShaderChoice {
    pub shader: u64,
    pub rim: bool,
}

/// What a list of pairs says.
pub open spec fn pairs_map(s: Seq<(u64, u64)>) -> Map<u64, u64>
    decreases s.len(),
{
    if s.len() == 0 {
        Map::empty()
    } else {
        pairs_map(s.drop_last()).insert(s.last().0, s.last().1)
    }
}

pub open spec fn keys_differ(s: Seq<(u64, u64)>) -> bool {
    forall|i: int, j: int| 0 <= i < j < s.len() ==> (#[trigger] s[i]).0 != (#[trigger] s[j]).0
}

proof fn lemma_pairs_map(s: Seq<(u64, u64)>)
    requires
        keys_differ(s),
    ensures
        forall|k: u64| #[trigger]
            pairs_map(s).dom().contains(k) <==> exists|i: int|
                0 <= i < s.len() && (#[trigger] s[i]).0 == k,
        forall|i: int| 0 <= i < s.len() ==> pairs_map(s)[(#[trigger] s[i]).0] == s[i].1,
    decreases s.len(),
{
    if s.len() > 0 {
        let d = s.drop_last();
        let last = s.len() - 1;
        assert(keys_differ(d)) by {
            assert forall|i: int, j: int| 0 <= i < j < d.len() implies (#[trigger] d[i]).0 != (
            #[trigger] d[j]).0 by {
                assert(s[i].0 != s[j].0);
            }
        }
        lemma_pairs_map(d);
        assert forall|k: u64| #[trigger] pairs_map(s).dom().contains(k) <==> exists|i: int|
            0 <= i < s.len() && (#[trigger] s[i]).0 == k by {
            if pairs_map(d).dom().contains(k) {
                let i = choose|i: int| 0 <= i < d.len() && (#[trigger] d[i]).0 == k;
                assert(s[i].0 == k);
            }
            if exists|i: int| 0 <= i < s.len() && (#[trigger] s[i]).0 == k {
                let i = choose|i: int| 0 <= i < s.len() && (#[trigger] s[i]).0 == k;
                if i < last {
                    assert(d[i].0 == k);
                }
            }
            if k == s[last].0 {
                assert(s[last].0 == k);
            }
        }
        assert forall|i: int| 0 <= i < s.len() implies pairs_map(s)[(#[trigger] s[i]).0]
            == s[i].1 by {
            if i < last {
                assert(d[i] == s[i]);
                assert(s[i].0 != s[last].0);
            }
        }
    }
}

pub struct Chams {
    pub enabled: bool,
    pub scheme: usize,
    pub style: usize,
    /// The style or the scheme was changed.
    pub apply: bool,
    /// The shared material; 0 where there is none.
    pub material: u64,
    pub shader: Option<ShaderChoice>,
    /// The touched renderers, each with the array of materials it had.
    pub originals: HashMap<u64, u64>,
    pub last_world: u64,
    /// When the last pass was.
    pub last_tick: Option<u64>,
    /// The renderers found under each walked player, once and for good.
    pub walks: HashMap<u64, Vec<u64>>,
}

impl Chams {
    /// The indexes are in their ranges.
    pub open spec fn wf(&self) -> bool {
        self.scheme < SCHEMES && self.style < STYLES
    }

    pub fn new() -> (c: Self)
        ensures
            c.wf(),
            !c.enabled,
            c.scheme == 0,
            c.style == STYLE_FLAT,
            !c.apply,
            c.material == 0,
            c.shader is None,
            c.originals@ == Map::<u64, u64>::empty(),
            c.last_world == 0,
            c.last_tick is None,
            c.walks@ == Map::<u64, Vec<u64>>::empty(),
    {
        Chams {
            enabled: false,
            scheme: 0,
            style: STYLE_FLAT,
            apply: false,
            material: 0,
            shader: None,
            originals: HashMap::new(),
            last_world: 0,
            last_tick: None,
            walks: HashMap::new(),
        }
    }
}

// ── the switches ─────────────────────────────────────────────────────────────

/// Switches over and returns what it is then.
pub fn toggle(c: &mut Chams) -> (r: bool)
    ensures
        r == !old(c).enabled,
        *final(c) == (Chams { enabled: !old(c).enabled, ..*old(c) }),
{
    c.enabled = !c.enabled;
    c.enabled
}

pub fn set_enabled(c: &mut Chams, on: bool)
    ensures
        *final(c) == (Chams { enabled: on, ..*old(c) }),
{
    c.enabled = on;
}

/// The next scheme, the first after the last.
pub fn cycle_scheme(c: &mut Chams)
    requires
        old(c).wf(),
    ensures
        *final(c) == (Chams {
            scheme: ((old(c).scheme + 1) % (SCHEMES as int)) as usize,
            apply: true,
            ..*old(c)
        }),
        final(c).wf(),
{
    let n: usize = c.scheme + 1;
    set_scheme(c, n);
}

/// Selects a scheme by its number, which wraps.
pub fn set_scheme(c: &mut Chams, n: usize)
    ensures
        *final(c) == (Chams { scheme: n % SCHEMES, apply: true, ..*old(c) }),
        old(c).wf() ==> final(c).wf(),
{
    c.scheme = n % SCHEMES;
    c.apply = true;
}

/// The next style, the first after the last.
pub fn cycle_style(c: &mut Chams)
    requires
        old(c).wf(),
    ensures
        *final(c) == (Chams {
            style: ((old(c).style + 1) % (STYLES as int)) as usize,
            apply: true,
            ..*old(c)
        }),
        final(c).wf(),
{
    let n: usize = c.style + 1;
    set_style(c, n);
}

/// Selects a style by its number, which wraps.
pub fn set_style(c: &mut Chams, n: usize)
    ensures
        *final(c) == (Chams { style: n % STYLES, apply: true, ..*old(c) }),
        old(c).wf() ==> final(c).wf(),
{
    c.style = n % STYLES;
    c.apply = true;
}

pub open spec fn style_text(n: usize) -> Seq<char> {
    if n == STYLE_FLAT {
        "flat"@
    } else if n == STYLE_GLOW {
        "glow"@
    } else {
        "mesh"@
    }
}

pub fn style_name(c: &Chams) -> (r: &'static str)
    requires
        c.wf(),
    ensures
        r@ == style_text(c.style),
{
    if c.style == STYLE_FLAT {
        "flat"
    } else if c.style == STYLE_GLOW {
        "glow"
    } else {
        "mesh"
    }
}

/// A colour in hundredths.
#[derive(Copy, Clone, PartialEq, Eq, Debug, Structural)]
pub struct Rgba {
    pub r: u8,
    pub g: u8,
    pub b: u8,
    pub a: u8,
}

/// The colours of a scheme: of what is in sight, and of what is behind
/// something.
pub struct Scheme {
    pub name: &'static str,
    pub vis: Rgba,
    pub occ: Rgba,
}

pub open spec fn rgb(r: u8, g: u8, b: u8) -> Rgba {
    Rgba { r, g, b, a: 100 }
}

pub open spec fn scheme_text(n: usize) -> Seq<char> {
    if n == 0 {
        "plasma"@
    } else if n == 1 {
        "molten"@
    } else if n == 2 {
        "toxic"@
    } else if n == 3 {
        "void"@
    } else if n == 4 {
        "ice"@
    } else {
        "ember"@
    }
}

pub open spec fn scheme_vis(n: usize) -> Rgba {
    if n == 0 {
        rgb(55, 100, 100)
    } else if n == 1 {
        rgb(100, 60, 25)
    } else if n == 2 {
        rgb(65, 100, 35)
    } else if n == 3 {
        rgb(80, 45, 100)
    } else if n == 4 {
        rgb(60, 85, 100)
    } else {
        rgb(100, 45, 40)
    }
}

pub open spec fn scheme_occ(n: usize) -> Rgba {
    if n == 0 {
        rgb(0, 95, 100)
    } else if n == 1 {
        rgb(100, 35, 0)
    } else if n == 2 {
        rgb(25, 100, 0)
    } else if n == 3 {
        rgb(65, 0, 100)
    } else if n == 4 {
        rgb(0, 55, 100)
    } else {
        rgb(100, 5, 0)
    }
}

fn col(r: u8, g: u8, b: u8) -> (c: Rgba)
    ensures
        c == rgb(r, g, b),
{
    Rgba { r, g, b, a: 100 }
}

/// Scheme `n`.
pub fn scheme(n: usize) -> (s: Scheme)
    requires
        n < SCHEMES,
    ensures
        s.name@ == scheme_text(n),
        s.vis == scheme_vis(n),
        s.occ == scheme_occ(n),
{
    if n == 0 {
        Scheme { name: "plasma", vis: col(55, 100, 100), occ: col(0, 95, 100) }
    } else if n == 1 {
        Scheme { name: "molten", vis: col(100, 60, 25), occ: col(100, 35, 0) }
    } else if n == 2 {
        Scheme { name: "toxic", vis: col(65, 100, 35), occ: col(25, 100, 0) }
    } else if n == 3 {
        Scheme { name: "void", vis: col(80, 45, 100), occ: col(65, 0, 100) }
    } else if n == 4 {
        Scheme { name: "ice", vis: col(60, 85, 100), occ: col(0, 55, 100) }
    } else {
        Scheme { name: "ember", vis: col(100, 45, 40), occ: col(100, 5, 0) }
    }
}

pub fn scheme_name(c: &Chams) -> (r: &'static str)
    requires
        c.wf(),
    ensures
        r@ == scheme_text(c.scheme),
{
    scheme(c.scheme).name
}

pub fn is_on(c: &Chams) -> (r: bool)
    ensures
        r == c.enabled,
{
    c.enabled
}

/// (enabled, scheme, its name, how many there are, name of the style).
pub fn status(c: &Chams) -> (r: (bool, usize, &'static str, usize, &'static str))
    requires
        c.wf(),
    ensures
        r.0 == c.enabled,
        r.1 == c.scheme,
        r.2@ == scheme_text(c.scheme),
        r.3 == SCHEMES,
        r.4@ == style_text(c.style),
{
    (c.enabled, c.scheme, scheme_name(c), SCHEMES, style_name(c))
}

/// A number after `k` steps round a circle of `size`.
pub open spec fn after_steps(n: int, k: nat, size: int) -> int
    decreases k,
{
    if k == 0 {
        n
    } else {
        (after_steps(n, (k - 1) as nat, size) + 1) % size
    }
}

/// Any number of steps adds up, round the circle: after as many steps as there
/// are styles, or schemes, the first is back, and not before.
pub proof fn law_cycles(n: int, k: nat, size: int)
    requires
        0 <= n < size,
    ensures
        after_steps(n, k, size) == (n + k) % size,
        after_steps(n, k, size) == n <==> (k as int) % size == 0,
        0 < k < size ==> after_steps(n, k, size) != n,
{
    lemma_steps_add(n, k, size);
    vstd::arithmetic::div_mod::lemma_small_mod(n as nat, size as nat);
    vstd::arithmetic::div_mod::lemma_mod_equivalence(n + k, n, size);
    if 0 < k < size {
        vstd::arithmetic::div_mod::lemma_small_mod(k, size as nat);
    }
}

proof fn lemma_steps_add(n: int, k: nat, size: int)
    requires
        0 <= n < size,
    ensures
        after_steps(n, k, size) == (n + k) % size,
    decreases k,
{
    if k == 0 {
        vstd::arithmetic::div_mod::lemma_small_mod(n as nat, size as nat);
    } else {
        lemma_steps_add(n, (k - 1) as nat, size);
        vstd::arithmetic::div_mod::lemma_add_mod_noop_right(1, n + k - 1, size);
    }
}

// ── the pass ─────────────────────────────────────────────────────────────────

/// What a frame has to do.
pub enum Tick {
    /// Nothing.
    Idle,
    /// Give these renderers back what they had.
    Restore(Vec<(u64, u64)>),
    /// Set the material up anew where the flag says so, then touch the
    /// renderers that were not touched yet.
    Pass(bool),
}

/// A pass is due.
pub open spec fn due(last: Option<u64>, now: u64) -> bool {
    match last {
        Some(t) => now - t >= TICK_INTERVAL,
        None => true,
    }
}

/// What is to be given back is what is captured, each renderer once, in any
/// order.
pub open spec fn restores(list: Seq<(u64, u64)>, originals: Map<u64, u64>) -> bool {
    &&& keys_differ(list)
    &&& pairs_map(list) == originals
}

/// The start of every frame. `resolved` says whether everything that the
/// feature needs was found; `now` is the time in nanoseconds.
///
/// Switched off, what was captured is given back once, and everything made for
/// it is dropped. Switched on, a pass is made every `TICK_INTERVAL`; in another
/// world than before, nothing of the old one is kept.
pub fn tick(c: &mut Chams, resolved: bool, now: u64, world: Object) -> (r: Tick)
    requires
        old(c).wf(),
    ensures
        final(c).wf(),
        !resolved ==> r is Idle && *final(c) == (Chams { enabled: false, ..*old(c) }),
        resolved && !old(c).enabled && old(c).originals@ == Map::<u64, u64>::empty() ==> r is Idle
            && *final(c) == *old(c),
        resolved && !old(c).enabled && old(c).originals@ != Map::<u64, u64>::empty() ==> {
            &&& r matches Tick::Restore(list)
            &&& restores(list@, old(c).originals@)
            &&& final(c).originals@ == Map::<u64, u64>::empty()
            &&& final(c).walks@ == Map::<u64, Vec<u64>>::empty()
            &&& *final(c) == (Chams {
                originals: final(c).originals,
                walks: final(c).walks,
                material: 0,
                ..*old(c)
            })
        },
        resolved && old(c).enabled && !due(old(c).last_tick, now) ==> r is Idle && *final(c)
            == *old(c),
        resolved && old(c).enabled && due(old(c).last_tick, now) ==> {
            &&& r == Tick::Pass(old(c).apply)
            &&& final(c).last_tick == Some(now)
            &&& final(c).last_world == world.0
            &&& !final(c).apply
            &&& world.0 == old(c).last_world ==> *final(c) == (Chams {
                last_tick: Some(now),
                apply: false,
                ..*old(c)
            })
            &&& world.0 != old(c).last_world ==> {
                &&& final(c).originals@ == Map::<u64, u64>::empty()
                &&& final(c).walks@ == Map::<u64, Vec<u64>>::empty()
                &&& *final(c) == (Chams {
                    last_tick: Some(now),
                    last_world: world.0,
                    apply: false,
                    material: 0,
                    originals: final(c).originals,
                    walks: final(c).walks,
                    ..*old(c)
                })
            }
        },
{
    if !resolved {
        c.enabled = false;
        return Tick::Idle;
    }
    if !c.enabled {
        if c.originals.is_empty() {
            assert(c.originals@ =~= Map::<u64, u64>::empty());
            return Tick::Idle;
        }
        let list = take_originals(c);
        c.walks = HashMap::new();
        c.material = 0;
        return Tick::Restore(list);
    }
    match c.last_tick {
        Some(t) => if now < t || now - t < TICK_INTERVAL {
            return Tick::Idle;
        },
        None => {},
    }
    c.last_tick = Some(now);
    if world.0 != c.last_world {
        c.last_world = world.0;
        c.originals = HashMap::new();
        c.material = 0;
        c.walks = HashMap::new();
    }
    let apply: bool = c.apply;
    c.apply = false;
    Tick::Pass(apply)
}

/// What comes out of a map walked from end to end is what it holds.
proof fn lemma_restores(list: Seq<(u64, u64)>, m: Map<u64, u64>, all: Seq<(&u64, &u64)>)
    requires
        all.no_duplicates(),
        list.len() == all.len(),
        forall|i: int| 0 <= i < all.len() ==> #[trigger] list[i] == (*all[i].0, *all[i].1),
        forall|i: int|
            0 <= i < all.len() ==> m.contains_key(*(#[trigger] all[i]).0) && m[*all[i].0]
                == *all[i].1,
        forall|k: u64| #[trigger] m.contains_key(k) ==> all.contains((&k, &m[k])),
    ensures
        restores(list, m),
{
    assert forall|i: int, j: int| 0 <= i < j < list.len() implies (#[trigger] list[i]).0 != (
    #[trigger] list[j]).0 by {
        assert(all[i] != all[j]);
        assert(m[*all[i].0] == *all[i].1 && m[*all[j].0] == *all[j].1);
    }
    lemma_pairs_map(list);
    assert forall|k: u64| #[trigger] pairs_map(list).dom().contains(k) <==> m.dom().contains(k) by {
        if m.contains_key(k) {
            let i = choose|i: int| 0 <= i < all.len() && all[i] == (&k, &m[k]);
            assert(list[i].0 == k);
        }
        if pairs_map(list).dom().contains(k) {
            let i = choose|i: int| 0 <= i < list.len() && (#[trigger] list[i]).0 == k;
            assert(m.contains_key(*all[i].0));
        }
    }
    assert forall|k: u64| m.dom().contains(k) implies #[trigger] pairs_map(list)[k] == m[k] by {
        assert(pairs_map(list).dom().contains(k));
        let i = choose|i: int| 0 <= i < list.len() && (#[trigger] list[i]).0 == k;
        assert(m[*all[i].0] == *all[i].1);
    }
    assert(pairs_map(list) =~= m);
}

/// What was captured, which is forgotten.
fn take_originals(c: &mut Chams) -> (list: Vec<(u64, u64)>)
    requires
        old(c).wf(),
    ensures
        restores(list@, old(c).originals@),
        final(c).originals@ == Map::<u64, u64>::empty(),
        *final(c) == (Chams { originals: final(c).originals, ..*old(c) }),
{
    let mut list: Vec<(u64, u64)> = Vec::new();
    let ghost m = c.originals@;
    let ghost all = vstd::std_specs::iter::IteratorSpec::remaining(&c.originals.iter());
    for pair in it: c.originals.iter()
        invariant
            m == c.originals@,
            *c == *old(c),
            it.seq() == all,
            all.no_duplicates(),
            list@.len() == it.index(),
            forall|i: int|
                0 <= i < it.index() ==> #[trigger] list@[i] == (*all[i].0, *all[i].1),
    {
        list.push((*pair.0, *pair.1));
    }
    proof {
        lemma_restores(list@, m, all);
    }
    c.originals = HashMap::new();
    list
}

/// When the trainer goes: what was captured is given back, and the feature is
/// off.
pub fn on_unload(c: &mut Chams) -> (list: Vec<(u64, u64)>)
    requires
        old(c).wf(),
    ensures
        final(c).wf(),
        restores(list@, old(c).originals@),
        final(c).originals@ == Map::<u64, u64>::empty(),
        *final(c) == (Chams { enabled: false, originals: final(c).originals, ..*old(c) }),
{
    let list = take_originals(c);
    c.enabled = false;
    list
}

/// The object can be read and has its native half.
pub open spec fn usable(m: Map<int, u8>, o: int) -> bool {
    &&& o != 0
    &&& memory::has(m, o, 0x18)
    &&& memory::val(m, o + 0x10, 8) matches Some(v)
    &&& v != 0
}

/// Whether an object that was kept is still there.
pub fn alive(mem: &Memory, o: Object) -> (r: bool)
    requires
        mem.wf(),
    ensures
        r == usable(mem@, o.0 as int),
{
    if o.is_null() || !mem.readable(o.0, 0x18) {
        return false;
    }
    match is_alive(mem, o) {
        Some(b) => b,
        None => false,
    }
}

/// Whether a renderer is given its materials back: it had some, and is still
/// there.
pub fn restorable(mem: &Memory, renderer: u64, array: u64) -> (r: bool)
    requires
        mem.wf(),
    ensures
        r == (array != 0 && usable(mem@, renderer as int)),
{
    array != 0 && alive(mem, Object(renderer))
}

/// The material to be set up anew, where there is one; a handle to one that is
/// gone is dropped.
pub fn apply_style(c: &mut Chams, mem: &Memory) -> (r: Option<Object>)
    requires
        mem.wf(),
    ensures
        old(c).material == 0 ==> r is None && *final(c) == *old(c),
        old(c).material != 0 && usable(mem@, old(c).material as int) ==> r == Some(
            Object(old(c).material),
        ) && *final(c) == *old(c),
        old(c).material != 0 && !usable(mem@, old(c).material as int) ==> r is None && *final(c)
            == (Chams { material: 0, ..*old(c) }),
{
    if c.material == 0 {
        return None;
    }
    let mat = Object(c.material);
    if !alive(mem, mat) {
        c.material = 0;
        return None;
    }
    Some(mat)
}

/// The material that is there, where it still is; otherwise one must be built.
pub fn ensure_material(c: &mut Chams, mem: &Memory) -> (r: Option<u64>)
    requires
        mem.wf(),
    ensures
        old(c).material != 0 && usable(mem@, old(c).material as int) ==> r == Some(
            old(c).material,
        ) && *final(c) == *old(c),
        !(old(c).material != 0 && usable(mem@, old(c).material as int)) ==> r is None && *final(c)
            == (Chams { material: 0, ..*old(c) }),
{
    match apply_style(c, mem) {
        Some(o) => Some(o.0),
        None => None,
    }
}

/// Keeps the material that was built.
pub fn material_built(c: &mut Chams, material: u64)
    ensures
        *final(c) == (Chams { material, ..*old(c) }),
{
    c.material = material;
}

// ── the material ─────────────────────────────────────────────────────────────

/// One setting of a material.
#[derive(Copy, Clone, Debug)]
pub enum MatOp {
    Int(&'static str, i32),
    Color(&'static str, Rgba),
    /// A number in hundredths.
    Float(&'static str, i32),
    Queue(i32),
}

/// A setting, with its name as text: (kind, name, number, colour).
pub open spec fn op_val(o: MatOp) -> (int, Seq<char>, int, Rgba) {
    match o {
        MatOp::Int(name, v) => (0, name@, v as int, rgb(0, 0, 0)),
        MatOp::Color(name, c) => (1, name@, 0, c),
        MatOp::Float(name, v) => (2, name@, v as int, rgb(0, 0, 0)),
        MatOp::Queue(v) => (3, Seq::empty(), v as int, rgb(0, 0, 0)),
    }
}

pub open spec fn ops_val(s: Seq<MatOp>) -> Seq<(int, Seq<char>, int, Rgba)> {
    s.map_values(|o: MatOp| op_val(o))
}

pub open spec fn int_op(name: Seq<char>, v: int) -> (int, Seq<char>, int, Rgba) {
    (0, name, v, rgb(0, 0, 0))
}

pub open spec fn color_op(name: Seq<char>, c: Rgba) -> (int, Seq<char>, int, Rgba) {
    (1, name, 0, c)
}

/// How strong the rim is, in hundredths.
pub const RIM_POWER: i32 = 220;

/// Drawn through everything, both faces, after everything else.
pub open spec fn common_ops() -> Seq<(int, Seq<char>, int, Rgba)> {
    seq![
        int_op("_ZTest"@, 8),
        int_op("_Cull"@, 0),
        (3int, Seq::<char>::empty(), 4000int, rgb(0, 0, 0)),
    ]
}

/// How the colour is laid over the picture: added to it (glow), mixed with it
/// (mesh), or in its place (flat).
pub open spec fn blend_ops(style: usize, vis: Rgba, occ: Rgba) -> Seq<(int, Seq<char>, int, Rgba)> {
    if style == STYLE_GLOW {
        seq![
            int_op("_SrcBlend"@, 1),
            int_op("_DstBlend"@, 1),
            int_op("_ZWrite"@, 0),
            color_op("_Color"@, occ),
        ]
    } else if style == STYLE_MESH {
        seq![
            int_op("_SrcBlend"@, 5),
            int_op("_DstBlend"@, 10),
            int_op("_ZWrite"@, 0),
            color_op("_Color"@, Rgba { a: 45, ..vis }),
        ]
    } else {
        seq![
            int_op("_SrcBlend"@, 1),
            int_op("_DstBlend"@, 0),
            int_op("_ZWrite"@, 1),
            color_op("_Color"@, occ),
        ]
    }
}

/// The rim, under every name that shaders have for it.
pub open spec fn rim_ops(c: Rgba) -> Seq<(int, Seq<char>, int, Rgba)> {
    seq![
        color_op("_RimColor"@, c),
        color_op("_RimLightColor"@, c),
        color_op("_FresnelColor"@, c),
        color_op("_OutlineColor"@, c),
        (2int, "_RimPower"@, 220int, rgb(0, 0, 0)),
        (2int, "_RimLightPower"@, 220int, rgb(0, 0, 0)),
        (2int, "_FresnelPower"@, 220int, rgb(0, 0, 0)),
        (2int, "_RimIntensity"@, 220int, rgb(0, 0, 0)),
    ]
}

/// Everything that is set on the material.
pub open spec fn material_ops(style: usize, scheme: usize, rim: bool) -> Seq<
    (int, Seq<char>, int, Rgba),
> {
    let vis = scheme_vis(scheme);
    let occ = scheme_occ(scheme);
    common_ops() + blend_ops(style, vis, occ) + if rim {
        rim_ops(
            if style == STYLE_MESH {
                vis
            } else {
                occ
            },
        )
    } else {
        Seq::empty()
    }
}

/// The settings of the material for the style and scheme that are chosen. They
/// are the same when it is built and on every change.
pub fn configure_material(c: &Chams) -> (ops: Vec<MatOp>)
    requires
        c.wf(),
    ensures
        ops_val(ops@) == material_ops(
            c.style,
            c.scheme,
            c.shader matches Some(s) && s.rim,
        ),
{
    let s = scheme(c.scheme);
    let mut ops: Vec<MatOp> = Vec::new();
    ops.push(MatOp::Int(unity::PROP_ZTEST, unity::ZTEST_ALWAYS));
    ops.push(MatOp::Int(unity::PROP_CULL, unity::CULL_OFF));
    ops.push(MatOp::Queue(4000));
    assert(ops_val(ops@) =~= common_ops());
    if c.style == STYLE_GLOW {
        ops.push(MatOp::Int(unity::PROP_SRC_BLEND, unity::BLEND_ONE));
        ops.push(MatOp::Int(unity::PROP_DST_BLEND, unity::BLEND_ONE));
        ops.push(MatOp::Int(unity::PROP_ZWRITE, 0));
        ops.push(MatOp::Color(unity::PROP_COLOR, s.occ));
    } else if c.style == STYLE_MESH {
        let tint = Rgba { r: s.vis.r, g: s.vis.g, b: s.vis.b, a: 45 };
        ops.push(MatOp::Int(unity::PROP_SRC_BLEND, unity::BLEND_SRC_ALPHA));
        ops.push(MatOp::Int(unity::PROP_DST_BLEND, unity::BLEND_ONE_MINUS_SRC_ALPHA));
        ops.push(MatOp::Int(unity::PROP_ZWRITE, 0));
        ops.push(MatOp::Color(unity::PROP_COLOR, tint));
    } else {
        ops.push(MatOp::Int(unity::PROP_SRC_BLEND, unity::BLEND_ONE));
        ops.push(MatOp::Int(unity::PROP_DST_BLEND, unity::BLEND_ZERO));
        ops.push(MatOp::Int(unity::PROP_ZWRITE, 1));
        ops.push(MatOp::Color(unity::PROP_COLOR, s.occ));
    }
    assert(ops_val(ops@) =~= common_ops() + blend_ops(c.style, s.vis, s.occ));
    let rim: bool = match c.shader {
        Some(ch) => ch.rim,
        None => false,
    };
    if rim {
        let tint: Rgba = if c.style == STYLE_MESH {
            s.vis
        } else {
            s.occ
        };
        let colors: Vec<&'static str> = unity::rim_color_props();
        let powers: Vec<&'static str> = unity::rim_power_props();
        ops.push(MatOp::Color(colors[0], tint));
        ops.push(MatOp::Color(colors[1], tint));
        ops.push(MatOp::Color(colors[2], tint));
        ops.push(MatOp::Color(colors[3], tint));
        ops.push(MatOp::Float(powers[0], RIM_POWER));
        ops.push(MatOp::Float(powers[1], RIM_POWER));
        ops.push(MatOp::Float(powers[2], RIM_POWER));
        ops.push(MatOp::Float(powers[3], RIM_POWER));
        assert(ops_val(ops@) =~= common_ops() + blend_ops(c.style, s.vis, s.occ) + rim_ops(tint));
    }
    assert(ops_val(ops@) =~= material_ops(c.style, c.scheme, rim));
    ops
}

/// Whatever the style and scheme, the material is drawn through everything.
pub proof fn law_material_always_on_top(style: usize, scheme: usize, rim: bool)
    ensures
        material_ops(style, scheme, rim).contains(int_op("_ZTest"@, 8)),
{
    assert(material_ops(style, scheme, rim)[0] == int_op("_ZTest"@, 8));
}

/// The shaders that are looked for, best first: those with a rim, then plain
/// ones.
pub fn shader_candidates() -> (v: Vec<&'static str>)
    ensures
        v.len() == 7,
        v@[0]@ == "Custom/Rim"@,
        v@[1]@ == "Hidden/Rim"@,
        v@[2]@ == "Unlit/Rim"@,
        v@[3]@ == "Hidden/Internal-Colored"@,
        v@[4]@ == "Sprites/Default"@,
        v@[5]@ == "UI/Default"@,
        v@[6]@ == "Unlit/Color"@,
{
    let mut v: Vec<&'static str> = unity::rim_shader_candidates();
    v.push("Hidden/Internal-Colored");
    v.push("Sprites/Default");
    v.push("UI/Default");
    v.push("Unlit/Color");
    v
}

/// The first handle that is not null.
pub open spec fn first_handle(found: Seq<u64>, i: nat) -> Option<nat>
    decreases found.len() - i,
{
    if i >= found.len() {
        None
    } else if found[i as int] != 0 {
        Some(i)
    } else {
        first_handle(found, i + 1)
    }
}

/// Decides on the first candidate that was found, once; `found` are the handles
/// of the candidates that were tried, in their order, null where there is no
/// such shader.
pub fn choose_shader(c: &mut Chams, found: &Vec<u64>) -> (r: Option<ShaderChoice>)
    ensures
        *final(c) == (Chams { shader: r, ..*old(c) }),
        r == match old(c).shader {
            Some(ch) => Some(ch),
            None => match first_handle(found@, 0) {
                Some(i) => Some(ShaderChoice { shader: found@[i as int], rim: i < 3 }),
                None => None,
            },
        },
{
    match c.shader {
        Some(ch) => {
            return Some(ch);
        },
        None => {},
    }
    let mut i: usize = 0;
    while i < found.len()
        invariant
            i <= found.len(),
            *c == *old(c),
            c.shader is None,
            first_handle(found@, 0) == first_handle(found@, i as nat),
        decreases found.len() - i,
    {
        if found[i] != 0 {
            c.shader = Some(ShaderChoice { shader: found[i], rim: i < 3 });
            return c.shader;
        }
        i = i + 1;
    }
    None
}

// ── players and renderers ────────────────────────────────────────────────────

/// The elements below `n` of an array that are neither null nor unreadable.
pub open spec fn elements(m: Map<int, u8>, arr: int, n: nat) -> Seq<u64>
    decreases n,
{
    if n == 0 {
        Seq::empty()
    } else {
        let before = elements(m, arr, (n - 1) as nat);
        match memory::ptr_val(m, arr + 0x20 + (n - 1) * 8) {
            Some(p) => before.push(p as u64),
            None => before,
        }
    }
}

/// The length of an array; 0 for null and where it cannot be read.
pub open spec fn length_of(m: Map<int, u8>, arr: int) -> nat {
    if arr == 0 {
        0
    } else {
        match memory::val(m, arr + 0x18, 8) {
            Some(n) => n,
            None => 0,
        }
    }
}

/// The length of an array.
pub fn length(mem: &Memory, arr: Object) -> (r: u64)
    requires
        mem.wf(),
    ensures
        r == length_of(mem@, arr.0 as int),
{
    match array_len(mem, arr) {
        Some(n) => n,
        None => 0,
    }
}

/// The elements below `n` of an array that there are.
pub fn collect(mem: &Memory, arr: Object, n: u64) -> (out: Vec<u64>)
    requires
        mem.wf(),
    ensures
        out@ == elements(mem@, arr.0 as int, n as nat),
{
    let mut out: Vec<u64> = Vec::new();
    let mut i: u64 = 0;
    while i < n
        invariant
            mem.wf(),
            i <= n,
            out@ == elements(mem@, arr.0 as int, i as nat),
        decreases n - i,
    {
        match array_get(mem, arr, i) {
            Some(o) => if !o.is_null() {
                out.push(o.0);
            },
            None => {},
        }
        i = i + 1;
    }
    out
}

/// All elements of an array, where it has some and at most `most`.
pub open spec fn all_elements(m: Map<int, u8>, arr: int, most: nat) -> Seq<u64> {
    if 0 < length_of(m, arr) <= most {
        elements(m, arr, length_of(m, arr))
    } else {
        Seq::empty()
    }
}

/// The elements of an array that is not too long.
pub fn array_elements(mem: &Memory, arr: Object, most: u64) -> (out: Vec<u64>)
    requires
        mem.wf(),
    ensures
        out@ == all_elements(mem@, arr.0 as int, most as nat),
{
    let n: u64 = length(mem, arr);
    if n == 0 || n > most {
        return Vec::new();
    }
    collect(mem, arr, n)
}

/// The number in a list; 0 where it cannot be read.
pub open spec fn list_len(m: Map<int, u8>, list: int) -> int {
    match memory::int_val(m, list + 0x18) {
        Some(v) => if v < 0 {
            0
        } else {
            v
        },
        None => 0,
    }
}

/// The players that the world lists.
pub open spec fn listed_players(m: Map<int, u8>, off: Option<i32>, world: int) -> Seq<u64> {
    match off {
        Some(off) => if !crate::features::alive(m, world) {
            Seq::empty()
        } else {
            match memory::ptr_val(m, world + off) {
                Some(list) => match memory::ptr_val(m, list as int + 0x10) {
                    Some(items) => if 0 < list_len(m, list as int) <= MAX_PLAYERS {
                        elements(
                            m,
                            items as int,
                            if list_len(m, list as int) < length_of(m, items as int) {
                                list_len(m, list as int) as nat
                            } else {
                                length_of(m, items as int)
                            },
                        )
                    } else {
                        Seq::empty()
                    },
                    None => Seq::empty(),
                },
                None => Seq::empty(),
            }
        },
        None => Seq::empty(),
    }
}

/// The players in the world's own list.
pub fn enumerate_players(mem: &Memory, off: Option<i32>, world: Object) -> (out: Vec<u64>)
    requires
        mem.wf(),
    ensures
        out@ == listed_players(mem@, off, world.0 as int),
{
    let off: i32 = match off {
        Some(o) => o,
        None => {
            return Vec::new();
        },
    };
    let there: bool = match is_alive(mem, world) {
        Some(b) => b,
        None => false,
    };
    if !there {
        return Vec::new();
    }
    let list: Object = match link(mem, world, off) {
        Some(o) => o,
        None => {
            return Vec::new();
        },
    };
    let items: Object = match list_items(mem, list) {
        Some(o) => o,
        None => {
            return Vec::new();
        },
    };
    let n: u64 = match list_count(mem, list) {
        Some(n) => n,
        None => 0,
    };
    if items.is_null() || n == 0 || n > MAX_PLAYERS {
        return Vec::new();
    }
    let len: u64 = length(mem, items);
    let cap: u64 = if n < len {
        n
    } else {
        len
    };
    collect(mem, items, cap)
}

/// Whether all players have to be searched for: where a world is loaded that
/// lists none.
pub fn must_search(mem: &Memory, world: Object, listed: &Vec<u64>) -> (r: bool)
    requires
        mem.wf(),
    ensures
        r == (crate::features::alive(mem@, world.0 as int) && listed@.len() == 0),
{
    let there: bool = match is_alive(mem, world) {
        Some(b) => b,
        None => false,
    };
    there && listed.len() == 0
}

/// The players of a pass, with `m` the memory around the world and `around` that
/// around what a search found: those that the world lists and, where it lists
/// none, those that were found, if they are not too many. None at all where no
/// world is loaded.
pub open spec fn pass_players(
    m: Map<int, u8>,
    world: int,
    listed: Seq<u64>,
    around: Map<int, u8>,
    found: Option<Object>,
) -> Seq<u64> {
    if !crate::features::alive(m, world) {
        Seq::empty()
    } else if listed.len() > 0 {
        listed
    } else {
        match found {
            Some(arr) => all_elements(around, arr.0 as int, MAX_PLAYERS as nat),
            None => Seq::empty(),
        }
    }
}

pub fn choose_players(
    mem: &Memory,
    world: Object,
    listed: Vec<u64>,
    around: &Memory,
    found: Option<Object>,
) -> (out: Vec<u64>)
    requires
        mem.wf(),
        around.wf(),
    ensures
        out@ == pass_players(mem@, world.0 as int, listed@, around@, found),
{
    if must_search(mem, world, &listed) {
        return match found {
            Some(arr) => array_elements(around, arr, MAX_PLAYERS),
            None => Vec::new(),
        };
    }
    let there: bool = match is_alive(mem, world) {
        Some(b) => b,
        None => false,
    };
    if there {
        listed
    } else {
        Vec::new()
    }
}

/// Without a world there are no players, whatever is listed or found.
pub proof fn law_no_world_no_players(
    m: Map<int, u8>,
    off: Option<i32>,
    world: int,
    around: Map<int, u8>,
    found: Option<Object>,
)
    requires
        !crate::features::alive(m, world),
    ensures
        listed_players(m, off, world).len() == 0,
        pass_players(m, world, listed_players(m, off, world), around, found).len() == 0,
{
}

/// The renderers in the player's own array.
pub open spec fn own_renderers(m: Map<int, u8>, off: Option<i32>, player: int) -> Seq<u64> {
    match off {
        Some(off) => match memory::ptr_val(m, player + off) {
            Some(arr) => all_elements(m, arr as int, MAX_RENDERERS_PER_PLAYER as nat),
            None => Seq::empty(),
        },
        None => Seq::empty(),
    }
}

pub fn player_renderers(mem: &Memory, off: Option<i32>, player: Object) -> (out: Vec<u64>)
    requires
        mem.wf(),
    ensures
        out@ == own_renderers(mem@, off, player.0 as int),
{
    match off {
        Some(off) => match link(mem, player, off) {
            Some(arr) => array_elements(mem, arr, MAX_RENDERERS_PER_PLAYER),
            None => Vec::new(),
        },
        None => Vec::new(),
    }
}

/// The player whose world it is, where that is known.
pub open spec fn local_player(m: Map<int, u8>, off: Option<i32>, world: int) -> Option<nat> {
    match off {
        Some(off) => if crate::features::alive(m, world) {
            memory::ptr_val(m, world + off)
        } else {
            None
        },
        None => None,
    }
}

/// Whether the player's transforms are walked: only those of the local player,
/// or everyone's where that one is not known.
pub fn walk_this(mem: &Memory, off: Option<i32>, world: Object, player: u64) -> (r: bool)
    requires
        mem.wf(),
    ensures
        r == match local_player(mem@, off, world.0 as int) {
            Some(p) => p == player,
            None => true,
        },
{
    let off: i32 = match off {
        Some(o) => o,
        None => {
            return true;
        },
    };
    let there: bool = match is_alive(mem, world) {
        Some(b) => b,
        None => false,
    };
    if !there {
        return true;
    }
    match link(mem, world, off) {
        Some(p) => p.0 == player,
        None => true,
    }
}

/// A walk over the transforms under a player, the deepest first. The engine is
/// asked for each node's renderer and children between the steps.
pub struct TreeWalk {
    pub stack: Vec<u64>,
    pub visited: u64,
    pub out: Vec<u64>,
}

impl TreeWalk {
    /// Nothing null is kept, and no more nodes were visited than may be.
    pub open spec fn wf(&self) -> bool {
        &&& self.visited <= MAX_RENDERERS_PER_PLAYER
        &&& forall|i: int| 0 <= i < self.stack@.len() ==> #[trigger] self.stack@[i] != 0
        &&& forall|i: int| 0 <= i < self.out@.len() ==> #[trigger] self.out@[i] != 0
    }

    /// Starts at a root, which may be null.
    pub fn new(root: Object) -> (w: Self)
        ensures
            w.wf(),
            w.stack@ == if root.0 == 0 {
                Seq::empty()
            } else {
                seq![root.0]
            },
            w.visited == 0,
            w.out@.len() == 0,
    {
        let mut stack: Vec<u64> = Vec::new();
        if !root.is_null() {
            stack.push(root.0);
        }
        TreeWalk { stack, visited: 0, out: Vec::new() }
    }

    /// The node to be visited next; none when there is none left, or when
    /// enough were visited.
    pub fn next(&mut self) -> (r: Option<Object>)
        requires
            old(self).wf(),
        ensures
            final(self).wf(),
            final(self).out == old(self).out,
            r is None <==> old(self).stack@.len() == 0 || old(self).visited
                >= MAX_RENDERERS_PER_PLAYER,
            r matches Some(o) ==> {
                &&& o.0 == old(self).stack@.last()
                &&& final(self).stack@ == old(self).stack@.drop_last()
                &&& final(self).visited == old(self).visited + 1
            },
            r is None ==> final(self).visited == old(self).visited && final(self).stack@.len()
                == 0,
    {
        if self.visited >= MAX_RENDERERS_PER_PLAYER {
            self.stack = Vec::new();
            return None;
        }
        match self.stack.pop() {
            Some(t) => {
                self.visited = self.visited + 1;
                Some(Object(t))
            },
            None => None,
        }
    }

    /// Keeps a renderer that the node has.
    pub fn found(&mut self, r: Object)
        requires
            old(self).wf(),
        ensures
            final(self).wf(),
            final(self).stack == old(self).stack,
            final(self).visited == old(self).visited,
            final(self).out@ == if r.0 == 0 {
                old(self).out@
            } else {
                old(self).out@.push(r.0)
            },
    {
        if !r.is_null() {
            self.out.push(r.0);
        }
    }

    /// Keeps a child of the node for later.
    pub fn child(&mut self, c: Object)
        requires
            old(self).wf(),
        ensures
            final(self).wf(),
            final(self).out == old(self).out,
            final(self).visited == old(self).visited,
            final(self).stack@ == if c.0 == 0 {
                old(self).stack@
            } else {
                old(self).stack@.push(c.0)
            },
    {
        if !c.is_null() {
            self.stack.push(c.0);
        }
    }
}

/// How many children of a node are asked for: as many as the boxed number says,
/// none where it says something unlikely.
pub fn child_count(mem: &Memory, boxed: Object) -> (n: i32)
    requires
        mem.wf(),
    ensures
        n == match memory::int_val(mem@, boxed.0 + 0x10) {
            Some(v) => if boxed.0 != 0 && 0 < v <= 1024 {
                v
            } else {
                0
            },
            None => 0,
        },
{
    match unbox_i32(mem, boxed) {
        Some(n) => if n <= 0 || n > 1024 {
            0
        } else {
            n
        },
        None => 0,
    }
}

/// The frozen walk of a player.
pub open spec fn walk_of(ws: Map<u64, Vec<u64>>, player: u64) -> Option<Seq<u64>> {
    if ws.dom().contains(player) {
        Some(ws[player]@)
    } else {
        None
    }
}

/// The renderers found under a player before: walking again would pick up
/// whatever flies about.
pub fn cached_walk(c: &Chams, player: u64) -> (r: Option<&Vec<u64>>)
    ensures
        r matches Some(w) ==> walk_of(c.walks@, player) == Some(w@),
        r is None ==> walk_of(c.walks@, player) is None,
{
    c.walks.get(&player)
}

/// Keeps what was found under a player that was not walked before.
pub fn freeze_walk(c: &mut Chams, player: u64, renderers: Vec<u64>)
    requires
        old(c).wf(),
        walk_of(old(c).walks@, player) is None,
    ensures
        final(c).wf(),
        walk_of(final(c).walks@, player) == Some(renderers@),
        forall|other: u64|
            other != player ==> #[trigger] walk_of(final(c).walks@, other) == walk_of(
                old(c).walks@,
                other,
            ),
        *final(c) == (Chams { walks: final(c).walks, ..*old(c) }),
{
    c.walks.insert(player, renderers);
}

/// The entries of a list, each once, in the order of their first occurrence.
pub open spec fn distinct(s: Seq<u64>) -> Seq<u64>
    decreases s.len(),
{
    if s.len() == 0 {
        Seq::empty()
    } else {
        let before = distinct(s.drop_last());
        if before.contains(s.last()) {
            before
        } else {
            before.push(s.last())
        }
    }
}

proof fn lemma_set_grows(s: Seq<u64>, x: u64)
    ensures
        s.push(x).to_set() == s.to_set().insert(x),
{
    assert forall|y: u64| s.push(x).to_set().contains(y) <==> s.to_set().insert(x).contains(y) by {
        if s.contains(y) {
            let i = choose|i: int| 0 <= i < s.len() && s[i] == y;
            assert(s.push(x)[i] == y);
        }
        if y == x {
            assert(s.push(x)[s.len() as int] == x);
        }
    }
    assert(s.push(x).to_set() =~= s.to_set().insert(x));
}

fn push_distinct(
    out: &mut Vec<u64>,
    seen: &mut HashSet<u64>,
    s: &Vec<u64>,
    Ghost(base): Ghost<Seq<u64>>,
)
    requires
        old(out)@ == distinct(base),
        old(seen)@ == base.to_set(),
    ensures
        final(out)@ == distinct(base + s@),
        final(seen)@ == (base + s@).to_set(),
{
    let mut i: usize = 0;
    assert(base + s@.take(0) =~= base);
    while i < s.len()
        invariant
            i <= s.len(),
            out@ == distinct(base + s@.take(i as int)),
            seen@ == (base + s@.take(i as int)).to_set(),
        decreases s.len() - i,
    {
        proof {
            law_distinct(base + s@.take(i as int));
            lemma_set_grows(base + s@.take(i as int), s@[i as int]);
        }
        assert((base + s@.take(i as int)).push(s@[i as int]) =~= base + s@.take(i + 1));
        assert((base + s@.take(i + 1)).drop_last() =~= base + s@.take(i as int));
        assert((base + s@.take(i + 1)).last() == s@[i as int]);
        if seen.insert(s[i]) {
            out.push(s[i]);
        }
        i = i + 1;
    }
    assert(s@.take(i as int) =~= s@);
}

/// The player's own renderers, then those found by walking, each once.
pub fn union_renderers(own: &Vec<u64>, walked: &Vec<u64>) -> (out: Vec<u64>)
    ensures
        out@ == distinct(own@ + walked@),
{
    let mut out: Vec<u64> = Vec::new();
    let mut seen: HashSet<u64> = HashSet::new();
    assert(Seq::<u64>::empty().to_set() =~= Set::<u64>::empty());
    push_distinct(&mut out, &mut seen, own, Ghost(Seq::empty()));
    assert(Seq::<u64>::empty() + own@ =~= own@);
    push_distinct(&mut out, &mut seen, walked, Ghost(own@));
    out
}

/// Nothing is lost by leaving duplicates out, nothing is added, and nothing is
/// there twice.
pub proof fn law_distinct(s: Seq<u64>)
    ensures
        distinct(s).no_duplicates(),
        forall|x: u64| #[trigger] distinct(s).contains(x) <==> s.contains(x),
    decreases s.len(),
{
    if s.len() > 0 {
        law_distinct(s.drop_last());
        let d = distinct(s.drop_last());
        assert forall|x: u64| #[trigger] distinct(s).contains(x) <==> s.contains(x) by {
            if s.contains(x) {
                let i = choose|i: int| 0 <= i < s.len() && s[i] == x;
                if i < s.len() - 1 {
                    assert(s.drop_last()[i] == x);
                    assert(d.contains(x));
                    let j = choose|j: int| 0 <= j < d.len() && d[j] == x;
                    assert(distinct(s)[j] == x);
                } else if !d.contains(x) {
                    assert(distinct(s)[d.len() as int] == x);
                }
            }
            if distinct(s).contains(x) {
                let j = choose|j: int| 0 <= j < distinct(s).len() && distinct(s)[j] == x;
                if j < d.len() {
                    assert(d[j] == x);
                    assert(d.contains(x));
                    let i = choose|i: int|
                        0 <= i < s.drop_last().len() && s.drop_last()[i] == x;
                    assert(s[i] == x);
                } else {
                    assert(s[s.len() - 1] == x);
                }
            }
        }
        if !d.contains(s.last()) {
            assert forall|i: int, j: int|
                0 <= i < distinct(s).len() && 0 <= j < distinct(s).len() && i != j implies distinct(
                s,
            )[i] != distinct(s)[j] by {
                if i == d.len() {
                    assert(d.contains(d[j]));
                } else if j == d.len() {
                    assert(d.contains(d[i]));
                }
            }
        }
    }
}

// ── one renderer ─────────────────────────────────────────────────────────────

/// A renderer is there, and was not touched yet.
pub open spec fn untouched(m: Map<int, u8>, originals: Map<u64, u64>, renderer: u64) -> bool {
    crate::features::alive(m, renderer as int) && !originals.dom().contains(renderer)
}

/// Whether a renderer is to be touched.
pub fn wants_cham(c: &Chams, mem: &Memory, renderer: Object) -> (r: bool)
    requires
        c.wf(),
        mem.wf(),
    ensures
        r == untouched(mem@, c.originals@, renderer.0),
{
    let there: bool = match is_alive(mem, renderer) {
        Some(b) => b,
        None => false,
    };
    there && !c.originals.contains_key(&renderer.0)
}

/// How many materials a renderer has and the first of them that there is, where
/// their number is plausible.
pub open spec fn template_in(m: Map<int, u8>, shared: int) -> Option<(nat, u64)> {
    if 0 < length_of(m, shared) <= MAX_SUBMESHES && elements(
        m,
        shared,
        length_of(m, shared),
    ).len() > 0 {
        Some((length_of(m, shared), elements(m, shared, length_of(m, shared))[0]))
    } else {
        None
    }
}

pub fn template_of(mem: &Memory, shared: Object) -> (r: Option<(u64, Object)>)
    requires
        mem.wf(),
    ensures
        r matches Some(x) ==> template_in(mem@, shared.0 as int) == Some((x.0 as nat, x.1.0)),
        r is None ==> template_in(mem@, shared.0 as int) is None,
{
    let n: u64 = length(mem, shared);
    if n == 0 || n > MAX_SUBMESHES {
        return None;
    }
    let all: Vec<u64> = collect(mem, shared, n);
    if all.len() == 0 {
        None
    } else {
        Some((n, Object(all[0])))
    }
}

/// Keeps what a renderer had, before it is touched.
pub fn capture(c: &mut Chams, renderer: Object, shared: Object)
    requires
        old(c).wf(),
        !old(c).originals@.dom().contains(renderer.0),
    ensures
        final(c).wf(),
        final(c).originals@ == old(c).originals@.insert(renderer.0, shared.0),
        *final(c) == (Chams { originals: final(c).originals, ..*old(c) }),
{
    c.originals.insert(renderer.0, shared.0);
}

/// What comes next for a renderer.
#[derive(Copy, Clone, PartialEq, Eq, Debug, Structural)]
pub enum RendererStep {
    /// Nothing.
    Skip,
    /// The material must be there first, cloned from this one.
    Build(Object),
    /// What it had is kept: it can be given the material, this often.
    Assign(u64, u64),
}

/// One renderer and the array of materials that it has. `fill` is the material,
/// where it was seen in this pass. What the renderer had is kept before anything
/// is assigned.
pub fn cham_renderer(
    c: &mut Chams,
    mem: &Memory,
    renderer: Object,
    shared: Object,
    fill: Option<u64>,
) -> (r: RendererStep)
    requires
        old(c).wf(),
        mem.wf(),
    ensures
        final(c).wf(),
        r is Skip <==> !untouched(mem@, old(c).originals@, renderer.0) || template_in(
            mem@,
            shared.0 as int,
        ) is None,
        !(r is Skip) && fill is None ==> r == RendererStep::Build(
            Object((template_in(mem@, shared.0 as int)->0).1),
        ),
        !(r is Skip) && fill is Some ==> r == RendererStep::Assign(
            fill->0,
            (template_in(mem@, shared.0 as int)->0).0 as u64,
        ),
        r is Assign ==> {
            &&& final(c).originals@ == old(c).originals@.insert(renderer.0, shared.0)
            &&& *final(c) == (Chams { originals: final(c).originals, ..*old(c) })
        },
        !(r is Assign) ==> *final(c) == *old(c),
{
    if !wants_cham(c, mem, renderer) {
        return RendererStep::Skip;
    }
    match template_of(mem, shared) {
        Some((n, template)) => match fill {
            Some(f) => {
                capture(c, renderer, shared);
                RendererStep::Assign(f, n)
            },
            None => RendererStep::Build(template),
        },
        None => RendererStep::Skip,
    }
}

/// Whether a renderer can be given the material at all.
pub fn can_assign(fill: u64, n: u64) -> (r: bool)
    ensures
        r == (fill != 0 && 0 < n <= MAX_SUBMESHES),
{
    fill != 0 && n != 0 && n <= MAX_SUBMESHES
}

/// The stores that put the material into the first `n` elements of an array.
pub open spec fn fill_of(arr: int, fill: u64, n: nat) -> Seq<Store> {
    Seq::new(
        n,
        |i: int| Store { addr: (arr + 0x20 + i * 8) as u64, width: 8, value: fill },
    )
}

/// What gives a renderer the material in all its slots; none where it cannot be
/// given, or the array lies outside the address space.
pub fn assign_fill(arr: Object, fill: u64, n: u64) -> (r: Option<Vec<Store>>)
    ensures
        r is Some <==> fill != 0 && 0 < n <= MAX_SUBMESHES && arr.0 + 0x20 + (n - 1) * 8
            <= u64::MAX,
        r matches Some(v) ==> v@ == fill_of(arr.0 as int, fill, n as nat),
{
    if !can_assign(fill, n) {
        return None;
    }
    let mut out: Vec<Store> = Vec::new();
    let mut i: u64 = 0;
    while i < n
        invariant
            i <= n <= MAX_SUBMESHES,
            i == 0 || arr.0 + 0x20 + (i - 1) * 8 <= u64::MAX,
            out@ == fill_of(arr.0 as int, fill, i as nat),
        decreases n - i,
    {
        match array_set(arr, i, Object(fill)) {
            Some(s) => {
                out.push(s);
            },
            None => {
                return None;
            },
        }
        i = i + 1;
        assert(out@ =~= fill_of(arr.0 as int, fill, i as nat));
    }
    Some(out)
}

/// The next step of giving a renderer the material.
pub enum AssignStep {
    /// It cannot be given.
    Refuse,
    /// Make an array for so many materials.
    Make(u64),
    /// Ask for the array that the renderer instances.
    Ask,
    /// Do the stores, then hand the array over: as shared materials, or as the
    /// renderer's own.
    Hand { arr: Object, shared: bool, stores: Vec<Store> },
}

/// How it begins: with an array of its own, where arrays can be made.
pub fn assign_start(dual_ok: bool, fill: u64, n: u64) -> (r: AssignStep)
    ensures
        r is Refuse <==> !(fill != 0 && 0 < n <= MAX_SUBMESHES),
        !(r is Refuse) ==> r == if dual_ok {
            AssignStep::Make(n)
        } else {
            AssignStep::Ask
        },
{
    if !can_assign(fill, n) {
        AssignStep::Refuse
    } else if dual_ok {
        AssignStep::Make(n)
    } else {
        AssignStep::Ask
    }
}

/// The array is handed over with the material in its first `n` elements, unless
/// it cannot be filled.
pub open spec fn handed(r: AssignStep, arr: Object, shared: bool, fill: u64, n: u64) -> bool {
    if fill != 0 && 0 < n <= MAX_SUBMESHES && arr.0 + 0x20 + (n - 1) * 8 <= u64::MAX {
        r matches AssignStep::Hand { arr: a, shared: b, stores } && a == arr && b == shared
            && stores@ == fill_of(arr.0 as int, fill, n as nat)
    } else {
        r is Refuse
    }
}

fn hand_over(arr: Object, shared: bool, fill: u64, n: u64) -> (r: AssignStep)
    ensures
        handed(r, arr, shared, fill, n),
{
    match assign_fill(arr, fill, n) {
        Some(stores) => AssignStep::Hand { arr, shared, stores },
        None => AssignStep::Refuse,
    }
}

/// Once an array was asked for: it is shared by all renderers. Where none was
/// made, the renderer's own has to do.
pub fn assign_made(made: Option<Object>, fill: u64, n: u64) -> (r: AssignStep)
    ensures
        made matches Some(arr) ==> handed(r, arr, true, fill, n),
        made is None ==> r is Ask,
{
    match made {
        Some(arr) => hand_over(arr, true, fill, n),
        None => AssignStep::Ask,
    }
}

/// Once the renderer's own array was asked for: all of it is filled.
pub fn assign_own(mem: &Memory, own: Option<Object>, fill: u64) -> (r: AssignStep)
    requires
        mem.wf(),
    ensures
        own matches Some(arr) ==> handed(
            r,
            arr,
            false,
            fill,
            length_of(mem@, arr.0 as int) as u64,
        ),
        own is None ==> r is Refuse,
{
    match own {
        Some(arr) => hand_over(arr, false, fill, length(mem, arr)),
        None => AssignStep::Refuse,
    }
}

/// Whether a new array is as it must be: two elements, both null.
pub fn self_test_array_new(mem: &Memory, arr: Object) -> (r: bool)
    requires
        mem.wf(),
    ensures
        r == (length_of(mem@, arr.0 as int) == 2 && memory::val(mem@, arr.0 + 0x20, 8) == Some(0nat)
            && memory::val(mem@, arr.0 + 0x28, 8) == Some(0nat)),
{
    if length(mem, arr) != 2 {
        return false;
    }
    let a: bool = match array_get(mem, arr, 0) {
        Some(o) => o.is_null(),
        None => false,
    };
    let b: bool = match array_get(mem, arr, 1) {
        Some(o) => o.is_null(),
        None => false,
    };
    a && b
}

/// How many of the loaded shaders are looked at, for their names; none where
/// their number is not plausible.
pub fn shaders_listed(n: u64) -> (r: Option<u64>)
    ensures
        r is None <==> n == 0 || n > 8192,
        r matches Some(k) ==> k == if n < 400 {
            n
        } else {
            400
        },
{
    if n == 0 || n > 8192 {
        None
    } else if n < 400 {
        Some(n)
    } else {
        Some(400)
    }
}

/// Whether the name of a shader hints at a rim.
pub fn rim_name(s: &str) -> (r: bool)
    ensures
        r == (text::contains_text(text::lowercase(s@), "rim"@) || text::contains_text(
            text::lowercase(s@),
            "fresnel"@,
        ) || text::contains_text(text::lowercase(s@), "outline"@) || text::contains_text(
            text::lowercase(s@),
            "glow"@,
        )),
{
    let l = to_lower(s);
    is_rim(l.as_str())
}

/// The same of a name in lower case.
pub fn is_rim(l: &str) -> (r: bool)
    ensures
        r == (text::contains_text(l@, "rim"@) || text::contains_text(l@, "fresnel"@)
            || text::contains_text(l@, "outline"@) || text::contains_text(l@, "glow"@)),
{
    has_text(l, "rim") || has_text(l, "fresnel") || has_text(l, "outline") || has_text(l, "glow")
}

// ── resolution ───────────────────────────────────────────────────────────────

/// A class of the engine's core.
pub open spec fn engine(name: Seq<char>) -> (Seq<char>, Seq<char>, Seq<char>) {
    (symbols::assembly::UNITY_CORE@, symbols::ns::UNITY@, name)
}

/// A class of the game.
pub open spec fn game(name: Seq<char>) -> (Seq<char>, Seq<char>, Seq<char>) {
    (symbols::assembly::GAME@, symbols::ns::EFT@, name)
}

/// The class's own method.
pub open spec fn exact_in<R: ScriptRuntime>(
    rt: &R,
    c: (Seq<char>, Seq<char>, Seq<char>),
    name: Seq<char>,
    argc: nat,
) -> Option<Method> {
    match symbols::class_in(rt, c) {
        Some(k) => rt.exact_of(k, name, argc),
        None => None,
    }
}

/// A method of the class or of a base class.
pub open spec fn method_in<R: ScriptRuntime>(
    rt: &R,
    c: (Seq<char>, Seq<char>, Seq<char>),
    name: Seq<char>,
    argc: int,
) -> Option<Method> {
    match symbols::class_in(rt, c) {
        Some(k) => rt.method_of(k, name, argc),
        None => None,
    }
}

/// The type objects that were made, null where one could not be.
#[derive(Copy, Clone, PartialEq, Eq, Debug, Structural)]
pub struct TypeObjects {
    pub player: Object,
    pub renderer: Object,
    pub skinned: Object,
    pub shader: Object,
}

/// Everything that the feature calls, looked up once.
#[derive(Copy, Clone, PartialEq, Eq, Debug, Structural)]
pub struct Cache {
    pub ty_player: Object,
    pub ty_renderer: Object,
    pub ty_skinned: Object,
    pub ty_shader: Object,
    pub mat_class: Class,
    pub find_objects: Method,
    pub find_objects_argc: u32,
    /// Null where there is none.
    pub find_objects_all: Method,
    /// Null where there is none.
    pub get_name: Method,
    pub instantiate: Method,
    pub shader_find: Method,
    pub comp_get_transform: Method,
    pub comp_get_component: Method,
    pub tf_child_count: Method,
    pub tf_get_child: Method,
    pub r_get_materials: Method,
    pub r_get_shared_materials: Method,
    pub r_set_materials: Method,
    pub r_set_shared_materials: Method,
    pub m_set_shader: Method,
    pub m_set_color: Method,
    pub m_set_int: Method,
    pub m_set_float: Method,
    pub m_set_render_queue: Method,
    /// Arrays can be made, so that a renderer can share the material.
    pub dual_ok: bool,
    pub gw_players_off: Option<i32>,
    pub player_renderers_off: Option<i32>,
    pub main_player_off: Option<i32>,
}

/// The search for all objects of a type, with the number of its arguments.
pub open spec fn search_in<R: ScriptRuntime>(rt: &R) -> Option<(Method, u32)> {
    match exact_in(rt, engine("Object"@), unity::FIND_OBJECTS_OF_TYPE@, 1) {
        Some(m) => Some((m, 1)),
        None => match exact_in(rt, engine("Object"@), unity::FIND_OBJECTS_OF_TYPE@, 2) {
            Some(m) => Some((m, 2)),
            None => None,
        },
    }
}

pub open spec fn or_null(m: Option<Method>) -> Method {
    match m {
        Some(m) => m,
        None => Method(0),
    }
}

/// Where the world has its list of players.
pub open spec fn players_field<R: ScriptRuntime>(rt: &R) -> Option<i32> {
    match crate::features::plausible_offset(rt, game("GameWorld"@), "RegisteredPlayers"@) {
        Some(o) => Some(o),
        None => crate::features::plausible_offset(rt, game("GameWorld"@), "AllAlivePlayersList"@),
    }
}

/// Everything that the feature cannot do without is there.
pub open spec fn complete<R: ScriptRuntime>(rt: &R, ty: TypeObjects) -> bool {
    &&& ty.player.0 != 0
    &&& ty.renderer.0 != 0
    &&& search_in(rt) is Some
    &&& exact_in(rt, engine("Object"@), unity::INSTANTIATE@, 1) is Some
    &&& exact_in(rt, engine("Shader"@), unity::SHADER_FIND@, 1) is Some
    &&& method_in(rt, engine("Component"@), unity::GET_TRANSFORM@, 0) is Some
    &&& exact_in(rt, engine("Component"@), unity::GET_COMPONENT@, 1) is Some
    &&& method_in(rt, engine("Transform"@), unity::GET_CHILD_COUNT@, 0) is Some
    &&& exact_in(rt, engine("Transform"@), unity::GET_CHILD@, 1) is Some
    &&& method_in(rt, engine("Renderer"@), unity::GET_MATERIALS@, 0) is Some
    &&& method_in(rt, engine("Renderer"@), unity::GET_SHARED_MATERIALS@, 0) is Some
    &&& method_in(rt, engine("Renderer"@), unity::SET_MATERIALS@, 1) is Some
    &&& method_in(rt, engine("Renderer"@), unity::SET_SHARED_MATERIALS@, 1) is Some
    &&& method_in(rt, engine("Material"@), unity::MAT_SET_SHADER@, 1) is Some
    &&& exact_in(rt, engine("Material"@), unity::MAT_SET_COLOR@, 2) is Some
    &&& exact_in(rt, engine("Material"@), unity::MAT_SET_INT@, 2) is Some
    &&& exact_in(rt, engine("Material"@), unity::MAT_SET_FLOAT@, 2) is Some
    &&& method_in(rt, engine("Material"@), unity::MAT_SET_RENDER_QUEUE@, 1) is Some
}

pub open spec fn cache_of<R: ScriptRuntime>(rt: &R, ty: TypeObjects, dual_ok: bool) -> Option<Cache> {
    if complete(rt, ty) {
        Some(
            Cache {
                ty_player: ty.player,
                ty_renderer: ty.renderer,
                ty_skinned: if ty.skinned.0 != 0 {
                    ty.skinned
                } else {
                    ty.renderer
                },
                ty_shader: ty.shader,
                mat_class: symbols::class_in(rt, engine("Material"@))->0,
                find_objects: (search_in(rt)->0).0,
                find_objects_argc: (search_in(rt)->0).1,
                find_objects_all: or_null(
                    exact_in(rt, engine("Object"@), unity::FIND_OBJECTS_OF_TYPE_ALL@, 1),
                ),
                get_name: or_null(method_in(rt, engine("Object"@), unity::GET_NAME@, 0)),
                instantiate: exact_in(rt, engine("Object"@), unity::INSTANTIATE@, 1)->0,
                shader_find: exact_in(rt, engine("Shader"@), unity::SHADER_FIND@, 1)->0,
                comp_get_transform: method_in(rt, engine("Component"@), unity::GET_TRANSFORM@, 0)->0,
                comp_get_component: exact_in(rt, engine("Component"@), unity::GET_COMPONENT@, 1)->0,
                tf_child_count: method_in(rt, engine("Transform"@), unity::GET_CHILD_COUNT@, 0)->0,
                tf_get_child: exact_in(rt, engine("Transform"@), unity::GET_CHILD@, 1)->0,
                r_get_materials: method_in(rt, engine("Renderer"@), unity::GET_MATERIALS@, 0)->0,
                r_get_shared_materials: method_in(rt, engine("Renderer"@), unity::GET_SHARED_MATERIALS@, 0)->0,
                r_set_materials: method_in(rt, engine("Renderer"@), unity::SET_MATERIALS@, 1)->0,
                r_set_shared_materials: method_in(rt, engine("Renderer"@), unity::SET_SHARED_MATERIALS@, 1)->0,
                m_set_shader: method_in(rt, engine("Material"@), unity::MAT_SET_SHADER@, 1)->0,
                m_set_color: exact_in(rt, engine("Material"@), unity::MAT_SET_COLOR@, 2)->0,
                m_set_int: exact_in(rt, engine("Material"@), unity::MAT_SET_INT@, 2)->0,
                m_set_float: exact_in(rt, engine("Material"@), unity::MAT_SET_FLOAT@, 2)->0,
                m_set_render_queue: method_in(rt, engine("Material"@), unity::MAT_SET_RENDER_QUEUE@, 1)->0,
                dual_ok,
                gw_players_off: players_field(rt),
                player_renderers_off: crate::features::plausible_offset(
                    rt,
                    game("Player"@),
                    "_renderers"@,
                ),
                main_player_off: crate::features::plausible_offset(
                    rt,
                    game("GameWorld"@),
                    "MainPlayer"@,
                ),
            },
        )
    } else {
        None
    }
}

fn resolve_players_field<R: ScriptRuntime>(rt: &R) -> (r: Option<i32>)
    requires
        rt.ready(),
    ensures
        r == players_field(rt),
{
    let names: Vec<&'static str> = eft::player_list_fields();
    match find_offset(rt, eft::game_world(), names[0]) {
        Some(o) => Some(o),
        None => find_offset(rt, eft::game_world(), names[1]),
    }
}

/// Looks everything up; nothing where one thing is missing that cannot be done
/// without. `dual_ok` says whether arrays can be made.
pub fn resolve<R: ScriptRuntime>(rt: &R, ty: TypeObjects, dual_ok: bool) -> (r: Option<Cache>)
    requires
        rt.ready(),
    ensures
        r == cache_of(rt, ty, dual_ok),
{
    if ty.player.is_null() || ty.renderer.is_null() {
        return None;
    }
    let obj: Class = match find_class(rt, unity::object()) {
        Some(k) => k,
        None => {
            return None;
        },
    };
    let comp: Class = match find_class(rt, unity::component()) {
        Some(k) => k,
        None => {
            return None;
        },
    };
    let rend: Class = match find_class(rt, unity::renderer()) {
        Some(k) => k,
        None => {
            return None;
        },
    };
    let mat: Class = match find_class(rt, unity::material()) {
        Some(k) => k,
        None => {
            return None;
        },
    };
    let shader: Class = match find_class(rt, unity::shader()) {
        Some(k) => k,
        None => {
            return None;
        },
    };
    let tf: Class = match find_class(rt, unity::transform()) {
        Some(k) => k,
        None => {
            return None;
        },
    };
    let (find_objects, find_objects_argc): (Method, u32) = match rt.method_exact(
        obj,
        unity::FIND_OBJECTS_OF_TYPE,
        1,
    ) {
        Some(m) => (m, 1),
        None => match rt.method_exact(obj, unity::FIND_OBJECTS_OF_TYPE, 2) {
            Some(m) => (m, 2),
            None => {
                return None;
            },
        },
    };
    let find_objects_all: Method = match rt.method_exact(
        obj,
        unity::FIND_OBJECTS_OF_TYPE_ALL,
        1,
    ) {
        Some(m) => m,
        None => Method(0),
    };
    let get_name: Method = match rt.method(obj, unity::GET_NAME, 0) {
        Some(m) => m,
        None => Method(0),
    };
    let instantiate: Method = match rt.method_exact(obj, unity::INSTANTIATE, 1) {
        Some(m) => m,
        None => {
            return None;
        },
    };
    let shader_find: Method = match rt.method_exact(shader, unity::SHADER_FIND, 1) {
        Some(m) => m,
        None => {
            return None;
        },
    };
    let comp_get_transform: Method = match rt.method(comp, unity::GET_TRANSFORM, 0) {
        Some(m) => m,
        None => {
            return None;
        },
    };
    let comp_get_component: Method = match rt.method_exact(comp, unity::GET_COMPONENT, 1) {
        Some(m) => m,
        None => {
            return None;
        },
    };
    let tf_child_count: Method = match rt.method(tf, unity::GET_CHILD_COUNT, 0) {
        Some(m) => m,
        None => {
            return None;
        },
    };
    let tf_get_child: Method = match rt.method_exact(tf, unity::GET_CHILD, 1) {
        Some(m) => m,
        None => {
            return None;
        },
    };
    let r_get_materials: Method = match rt.method(rend, unity::GET_MATERIALS, 0) {
        Some(m) => m,
        None => {
            return None;
        },
    };
    let r_get_shared_materials: Method = match rt.method(rend, unity::GET_SHARED_MATERIALS, 0) {
        Some(m) => m,
        None => {
            return None;
        },
    };
    let r_set_materials: Method = match rt.method(rend, unity::SET_MATERIALS, 1) {
        Some(m) => m,
        None => {
            return None;
        },
    };
    let r_set_shared_materials: Method = match rt.method(rend, unity::SET_SHARED_MATERIALS, 1) {
        Some(m) => m,
        None => {
            return None;
        },
    };
    let m_set_shader: Method = match rt.method(mat, unity::MAT_SET_SHADER, 1) {
        Some(m) => m,
        None => {
            return None;
        },
    };
    let m_set_color: Method = match rt.method_exact(mat, unity::MAT_SET_COLOR, 2) {
        Some(m) => m,
        None => {
            return None;
        },
    };
    let m_set_int: Method = match rt.method_exact(mat, unity::MAT_SET_INT, 2) {
        Some(m) => m,
        None => {
            return None;
        },
    };
    let m_set_float: Method = match rt.method_exact(mat, unity::MAT_SET_FLOAT, 2) {
        Some(m) => m,
        None => {
            return None;
        },
    };
    let m_set_render_queue: Method = match rt.method(mat, unity::MAT_SET_RENDER_QUEUE, 1) {
        Some(m) => m,
        None => {
            return None;
        },
    };
    let ty_skinned: Object = if ty.skinned.is_null() {
        ty.renderer
    } else {
        ty.skinned
    };
    Some(
        Cache {
            ty_player: ty.player,
            ty_renderer: ty.renderer,
            ty_skinned,
            ty_shader: ty.shader,
            mat_class: mat,
            find_objects,
            find_objects_argc,
            find_objects_all,
            get_name,
            instantiate,
            shader_find,
            comp_get_transform,
            comp_get_component,
            tf_child_count,
            tf_get_child,
            r_get_materials,
            r_get_shared_materials,
            r_set_materials,
            r_set_shared_materials,
            m_set_shader,
            m_set_color,
            m_set_int,
            m_set_float,
            m_set_render_queue,
            dual_ok,
            gw_players_off: resolve_players_field(rt),
            player_renderers_off: find_offset(rt, eft::player(), eft::PLAYER_RENDERERS_FIELD),
            main_player_off: find_offset(rt, eft::game_world(), "MainPlayer"),
        },
    )
}

/// Once captured, a renderer is not touched again, and no other is affected.
pub proof fn law_touched_once(
    m: Map<int, u8>,
    originals: Map<u64, u64>,
    renderer: u64,
    array: u64,
    other: u64,
)
    ensures
        untouched(m, originals.insert(renderer, array), other) <==> other != renderer && untouched(
            m,
            originals,
            other,
        ),
{
}

/// What is given back is exactly what was captured: every captured renderer
/// occurs, once, with the materials it was captured with.
pub proof fn law_restore_exact(list: Seq<(u64, u64)>, originals: Map<u64, u64>)
    requires
        restores(list, originals),
    ensures
        forall|r: u64| #[trigger]
            originals.dom().contains(r) <==> exists|i: int|
                0 <= i < list.len() && (#[trigger] list[i]).0 == r,
        forall|i: int| 0 <= i < list.len() ==> (#[trigger] list[i]).1 == originals[list[i].0],
        forall|i: int, j: int|
            0 <= i < j < list.len() ==> (#[trigger] list[i]).0 != (#[trigger] list[j]).0,
{
    lemma_pairs_map(list);
}

} // verus!
