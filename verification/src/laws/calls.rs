//! The laws of calls: what a call leaves behind, and how one call relates to
//! another.

use vstd::prelude::*;

use crate::chams;
use crate::chams::{AssignStep, Chams, ShaderChoice, Tick, TreeWalk};
use crate::console;
use crate::console::Console;
use crate::crash;
use crate::crash::Crash;
use crate::features;
use crate::features::Features;
use crate::hooks;
use crate::hooks::{Drain, Hooks};
use crate::http;
use crate::il2cpp;
use crate::il2cpp::{LoadWait, RegionInfo, Regions};
use crate::input;
use crate::input::{Capture, Pointer, RawEvent, Route};
use crate::memory;
use crate::memory::Memory;
use crate::menu;
use crate::menu::{Control, Keys, Menu, Next};
use crate::mono;
use crate::mono::Lookup;
use crate::runtime::{Domain, Object, ScriptRuntime, Store};
use crate::session;
use crate::session::{StatusChange, WorkerPlan};
use crate::text;
use crate::world;
use crate::world::{Entry, World};

verus! {

// ── chams ────────────────────────────────────────────────────────────────────

/// Switched over twice, the chams are as they were; each time the answer is what
/// they are then.
pub proof fn law_toggle_twice(c: &mut Chams, d: &mut Chams, r: bool, s: bool)
    requires
        call_ensures(chams::toggle, (c,), r),
        *old(d) == *final(c),
        call_ensures(chams::toggle, (d,), s),
    ensures
        r == !old(c).enabled,
        r == final(c).enabled,
        s == old(c).enabled,
        *final(d) == *old(c),
{
}

/// The next scheme is the one after, of six, and the next style, of three; both
/// have the material set up anew and touch nothing else.
pub proof fn law_next(c: &mut Chams, d: &mut Chams)
    requires
        old(c).scheme < 6,
        old(d).style < 3,
        call_ensures(chams::cycle_scheme, (c,), ()),
        call_ensures(chams::cycle_style, (d,), ()),
    ensures
        final(c).scheme == (if old(c).scheme == 5 {
            0
        } else {
            old(c).scheme + 1
        }),
        final(c).style == old(c).style,
        final(c).apply,
        final(c).enabled == old(c).enabled,
        final(c).originals == old(c).originals,
        final(d).style == (if old(d).style == 2 {
            0
        } else {
            old(d).style + 1
        }),
        final(d).scheme == old(d).scheme,
        final(d).apply,
        final(d).enabled == old(d).enabled,
        final(d).originals == old(d).originals,
{
}

/// What was captured is given back: a renderer that was captured is among what
/// is restored when the trainer goes, with the materials it had, and so is
/// everything that was captured before; and the chams are off.
pub proof fn law_captured_given_back(
    c: &mut Chams,
    d: &mut Chams,
    renderer: Object,
    shared: Object,
    list: Vec<(u64, u64)>,
    before: u64,
)
    requires
        !old(c).originals@.contains_key(renderer.0),
        call_ensures(chams::capture, (c, renderer, shared), ()),
        *old(d) == *final(c),
        call_ensures(chams::on_unload, (d,), list),
    ensures
        list@.contains((renderer.0, shared.0)),
        old(c).originals@.contains_key(before) ==> list@.contains(
            (before, old(c).originals@[before]),
        ),
        final(d).originals@.dom().is_empty(),
        !final(d).enabled,
{
    let all = old(d).originals@;
    chams::law_restore_exact(list@, all);
    assert(all.contains_key(renderer.0));
    let i = choose|i: int| 0 <= i < list@.len() && (#[trigger] list@[i]).0 == renderer.0;
    assert(list@[i] == (renderer.0, shared.0));
    if old(c).originals@.contains_key(before) {
        assert(all.contains_key(before));
        let j = choose|j: int| 0 <= j < list@.len() && (#[trigger] list@[j]).0 == before;
        assert(list@[j] == (before, old(c).originals@[before]));
    }
}

/// A frame of the chams: without everything they need they switch themselves
/// off; switched off, they give back what they captured, once; switched on, they
/// make a pass every half second, which keeps what was captured in the same
/// world and forgets it in another.
pub proof fn law_chams_frame(c: &mut Chams, resolved: bool, now: u64, world: Object, r: Tick)
    requires
        old(c).wf(),
        call_ensures(chams::tick, (c, resolved, now, world), r),
    ensures
        ({
            let due = old(c).last_tick matches Some(t) ==> now >= t + 500_000_000;
            &&& !resolved ==> r is Idle && !final(c).enabled && final(c).originals == old(c).originals
            &&& resolved && !old(c).enabled ==> {
                &&& r is Idle <==> old(c).originals@ == Map::<u64, u64>::empty()
                &&& final(c).originals@ == Map::<u64, u64>::empty()
                &&& r matches Tick::Restore(list) ==> forall|k: u64| #[trigger]
                    old(c).originals@.contains_key(k) ==> list@.contains(
                        (k, old(c).originals@[k]),
                    )
                &&& r is Restore ==> final(c).material == 0
            }
            &&& resolved && old(c).enabled && !due ==> r is Idle && *final(c) == *old(c)
            &&& resolved && old(c).enabled && due ==> {
                &&& r == Tick::Pass(old(c).apply)
                &&& !final(c).apply
                &&& final(c).enabled
                &&& final(c).last_tick == Some(now)
                &&& final(c).last_world == world.0
                &&& world.0 == old(c).last_world ==> final(c).originals == old(c).originals
                    && final(c).material == old(c).material && final(c).walks == old(c).walks
                &&& world.0 != old(c).last_world ==> final(c).originals@ == Map::<
                    u64,
                    u64,
                >::empty() && final(c).material == 0 && final(c).walks@ == Map::<
                    u64,
                    Vec<u64>,
                >::empty()
            }
        }),
{
    if let Tick::Restore(list) = r {
        if resolved && !old(c).enabled {
            let all = old(c).originals@;
            chams::law_restore_exact(list@, all);
            assert forall|k: u64| #[trigger] all.contains_key(k) implies list@.contains(
                (k, all[k]),
            ) by {
                assert(all.dom().contains(k));
                let i = choose|i: int| 0 <= i < list@.len() && (#[trigger] list@[i]).0 == k;
                assert(list@[i] == (k, all[k]));
            }
        }
    }
}

/// The shader is decided once, for the first candidate that there is; one of the
/// first three lights the rim.
pub proof fn law_shader_choice(c: &mut Chams, found: &Vec<u64>, r: Option<ShaderChoice>, k: int)
    requires
        call_ensures(chams::choose_shader, (c, found), r),
    ensures
        final(c).shader == r,
        old(c).shader is Some ==> r == old(c).shader,
        old(c).shader is None && 0 <= k < found@.len() && found@[k] != 0 && (forall|j: int|
            0 <= j < k ==> #[trigger] found@[j] == 0) ==> r == Some(
            ShaderChoice { shader: found@[k], rim: k < 3 },
        ),
        old(c).shader is None && (forall|j: int|
            0 <= j < found@.len() ==> #[trigger] found@[j] == 0) ==> r is None,
{
    crate::laws::chams::law_first_shader(found@, 0);
    if let Some(i) = chams::first_handle(found@, 0) {
        if 0 <= k < found@.len() && found@[k] != 0 && (forall|j: int|
            0 <= j < k ==> #[trigger] found@[j] == 0) {
            if i < k {
                assert(found@[i as int] == 0);
            } else if k < i {
                assert(found@[k] == 0);
            }
        }
    } else if 0 <= k < found@.len() {
        assert(found@[k] == 0);
    }
}

/// The candidates for the shader, those with a rim first.
pub proof fn law_shader_names(v: Vec<&'static str>)
    requires
        call_ensures(chams::shader_candidates, (), v),
    ensures
        v@.len() == 7,
        v@[0]@ == "Custom/Rim"@,
        v@[1]@ == "Hidden/Rim"@,
        v@[2]@ == "Unlit/Rim"@,
        v@[3]@ == "Hidden/Internal-Colored"@,
        v@[4]@ == "Sprites/Default"@,
        v@[5]@ == "UI/Default"@,
        v@[6]@ == "Unlit/Color"@,
{
}

/// A child that is kept is the next node to be visited, and what was there
/// before it comes after it; what is null is not kept.
pub proof fn law_walk_deepest_first(w: &mut TreeWalk, v: &mut TreeWalk, c: Object, r: Option<Object>)
    requires
        old(w).wf(),
        old(w).visited < 4096,
        c.0 != 0,
        call_ensures(TreeWalk::child, (w, c), ()),
        *old(v) == *final(w),
        call_ensures(TreeWalk::next, (v,), r),
    ensures
        r == Some(c),
        final(v).stack@ == old(w).stack@,
        final(v).visited == old(w).visited + 1,
        final(v).out == old(w).out,
{
    assert(old(v).stack@.drop_last() =~= old(w).stack@);
}

/// A walk visits 4096 nodes at most, and keeps each renderer that it finds.
pub proof fn law_walk(w: &mut TreeWalk, v: &mut TreeWalk, r: Option<Object>, found: Object)
    requires
        call_ensures(TreeWalk::next, (w,), r),
        call_ensures(TreeWalk::found, (v, found), ()),
    ensures
        old(w).visited >= 4096 || old(w).stack@.len() == 0 <==> r is None,
        found.0 != 0 ==> final(v).out@ == old(v).out@.push(found.0),
        found.0 == 0 ==> final(v).out@ == old(v).out@,
        final(v).stack == old(v).stack,
{
}

/// How many children of a node are asked for: what the boxed number says, from 1
/// to 1024, and none otherwise.
pub proof fn law_children(mem: &Memory<'_>, boxed: Object, n: i32, v: int)
    requires
        call_ensures(chams::child_count, (mem, boxed), n),
        memory::int_val(mem@, boxed.0 + 0x10) == Some(v),
    ensures
        boxed.0 != 0 && 1 <= v <= 1024 ==> n == v,
        boxed.0 == 0 || v < 1 || v > 1024 ==> n == 0,
{
}

/// How many shaders are looked at: all of them up to 400, where there are from 1
/// to 8192.
pub proof fn law_shaders(n: u64, r: Option<u64>)
    requires
        call_ensures(chams::shaders_listed, (n,), r),
    ensures
        1 <= n <= 400 ==> r == Some(n),
        400 < n <= 8192 ==> r == Some(400u64),
        n == 0 || n > 8192 ==> r is None,
{
}

/// A walk that was frozen is the one that is used from then on.
pub proof fn law_frozen(c: &mut Chams, d: &Chams, player: u64, renderers: Vec<u64>, r: Option<&Vec<u64>>)
    requires
        call_ensures(chams::freeze_walk, (c, player, renderers), ()),
        *d == *final(c),
        call_ensures(chams::cached_walk, (d, player), r),
    ensures
        r matches Some(w) && w@ == renderers@,
        final(c).originals == old(c).originals,
        final(c).enabled == old(c).enabled,
{
}

/// Only the transforms of the local player are walked, where it is known.
pub proof fn law_walked(mem: &Memory<'_>, off: i32, world: Object, player: u64, r: bool, p: nat)
    requires
        call_ensures(chams::walk_this, (mem, Some(off), world, player), r),
    ensures
        ({
            let lives = world.0 != 0 && (memory::val(mem@, world.0 + 0x10, 8) matches Some(v) && v
                != 0);
            &&& lives && memory::val(mem@, world.0 + off, 8) == Some(p) && p != 0 ==> r == (p
                == player)
            &&& !lives ==> r
            &&& memory::val(mem@, world.0 + off, 8) == Some(0nat) ==> r
        }),
{
}

/// Players are searched for where a world lives that lists none.
pub proof fn law_searched(mem: &Memory<'_>, world: Object, listed: &Vec<u64>, r: bool)
    requires
        call_ensures(chams::must_search, (mem, world, listed), r),
    ensures
        r <==> {
            &&& world.0 != 0
            &&& memory::val(mem@, world.0 + 0x10, 8) matches Some(v)
            &&& v != 0
            &&& listed@.len() == 0
        },
{
}

/// The material is used as long as it lives, and is otherwise built anew.
pub proof fn law_material_kept(c: &mut Chams, mem: &Memory<'_>, r: Option<u64>)
    requires
        call_ensures(chams::ensure_material, (c, mem), r),
    ensures
        ({
            let o = old(c).material as int;
            let lives = o != 0 && memory::has(mem@, o, 24) && (memory::val(mem@, o + 16, 8) matches Some(
                v,
            ) && v != 0);
            &&& lives ==> r == Some(old(c).material) && final(c).material == old(c).material
            &&& !lives ==> r is None && final(c).material == 0
            &&& final(c).originals == old(c).originals
        }),
{
}

/// A renderer is given its materials back where it had some and still lives.
pub proof fn law_restorable(mem: &Memory<'_>, renderer: u64, array: u64, r: bool)
    requires
        call_ensures(chams::restorable, (mem, renderer, array), r),
    ensures
        r <==> {
            &&& array != 0
            &&& renderer != 0
            &&& memory::has(mem@, renderer as int, 24)
            &&& memory::val(mem@, renderer + 16, 8) matches Some(v)
            &&& v != 0
        },
{
}

/// The stores that fill an array: one for each of its slots, from 1 to 64, each
/// of the material.
pub proof fn law_assign_fill(arr: Object, fill: u64, n: u64, r: Option<Vec<Store>>, i: int)
    requires
        call_ensures(chams::assign_fill, (arr, fill, n), r),
        arr.0 + 0x20 + n * 8 <= u64::MAX,
    ensures
        r is Some <==> fill != 0 && 1 <= n <= 64,
        r matches Some(v) ==> v@.len() == n && (0 <= i < n ==> v@[i] == (Store {
            addr: (arr.0 + 0x20 + i * 8) as u64,
            width: 8,
            value: fill,
        })),
{
}

/// The material is given by an array made for it where arrays can be made, by
/// the renderer's own otherwise, and not at all without a material or with more
/// than 64 slots.
pub proof fn law_assign_start(dual_ok: bool, fill: u64, n: u64, r: AssignStep)
    requires
        call_ensures(chams::assign_start, (dual_ok, fill, n), r),
    ensures
        fill == 0 || n == 0 || n > 64 ==> r is Refuse,
        fill != 0 && 1 <= n <= 64 && dual_ok ==> r == AssignStep::Make(n),
        fill != 0 && 1 <= n <= 64 && !dual_ok ==> r is Ask,
{
}

/// A made array is as it must be where it has two elements, both null.
pub proof fn law_array_test(mem: &Memory<'_>, arr: Object, r: bool)
    requires
        call_ensures(chams::self_test_array_new, (mem, arr), r),
    ensures
        r <==> {
            &&& arr.0 != 0
            &&& memory::val(mem@, arr.0 + 0x18, 8) == Some(2nat)
            &&& memory::val(mem@, arr.0 + 0x20, 8) == Some(0nat)
            &&& memory::val(mem@, arr.0 + 0x28, 8) == Some(0nat)
        },
{
}

/// A name hints at a rim where one of four words is in it.
pub proof fn law_rim_words(l: &str, r: bool)
    requires
        call_ensures(chams::is_rim, (l,), r),
    ensures
        r <==> text::contains_text(l@, "rim"@) || text::contains_text(l@, "fresnel"@)
            || text::contains_text(l@, "outline"@) || text::contains_text(l@, "glow"@),
{
}

// ── toggles ──────────────────────────────────────────────────────────────────

/// Switched over twice, a toggle is as it was, and the other one is not touched.
pub proof fn law_toggles(f: &mut Features, g: &mut Features, r: bool, s: bool)
    requires
        call_ensures(features::toggle_inf_stamina, (f,), r),
        call_ensures(features::toggle_speed, (g,), s),
    ensures
        r == !old(f).stamina && final(f).stamina == r,
        final(f).speed == old(f).speed && final(f).mult == old(f).mult,
        s == !old(g).speed && final(g).speed == s,
        final(g).stamina == old(g).stamina && final(g).mult == old(g).mult,
{
}

/// The multiplier that is set is what is read back, kept from 1.0 to 1.4; a step
/// up is 0.05 more and a step down 0.05 less, up to the ends.
pub proof fn law_multiplier(f: &mut Features, g: &mut Features, bits: u32, up: bool)
    requires
        0x3f80_0000 <= bits <= 0x3fb3_3333,
        call_ensures(features::set_speed_mult, (f, bits), ()),
        *old(g) == *final(f),
        call_ensures(features::bump_speed, (g, up), ()),
    ensures
        final(f).mult == bits,
        final(f).speed == old(f).speed,
        up ==> final(g).mult == if bits + 419430 > 0x3fb3_3333 {
            0x3fb3_3333
        } else {
            bits + 419430
        },
        !up ==> final(g).mult == if bits - 419430 < 0x3f80_0000 {
            0x3f80_0000
        } else {
            bits - 419430
        },
{
}

/// Infinite stamina looks its fields up once, the first time it is on, and
/// stores nothing while it is off.
pub proof fn law_stamina_tick<R: ScriptRuntime>(
    f: &mut Features,
    rt: &R,
    mem: &Memory<'_>,
    world: Object,
    r: Option<Store>,
)
    requires
        call_ensures(features::tick::<R>, (f, rt, mem, world), r),
    ensures
        !old(f).stamina ==> r is None && *final(f) == *old(f),
        old(f).stamina && old(f).cache is None ==> final(f).cache == Some(
            features::stamina_offsets(rt),
        ),
        old(f).stamina && old(f).cache is Some ==> final(f).cache == old(f).cache,
        old(f).stamina && final(f).cache == Some(None::<features::StaminaOffsets>) ==> r is None,
        old(f).stamina ==> (final(f).cache matches Some(Some(c)) ==> r == features::pinned(
            mem@,
            c,
            world.0 as int,
        )),
        final(f).stamina == old(f).stamina,
        final(f).mult == old(f).mult,
{
}

// ── the raid ─────────────────────────────────────────────────────────────────

/// A look is taken where the raid is looked at, everything was found, and a
/// quarter of a second has passed since the last one.
pub proof fn law_raid_frame(w: &mut World, resolved: bool, now: u64, r: bool)
    requires
        call_ensures(world::tick, (w, resolved, now), r),
    ensures
        r <==> old(w).enabled && resolved && (old(w).last_tick matches Some(t) ==> now >= t
            + 250_000_000),
        r ==> final(w).last_tick == Some(now),
        !r ==> final(w).last_tick == old(w).last_tick,
        final(w).entries == old(w).entries,
        final(w).enabled == old(w).enabled,
{
}

/// What is published is what a reader gets.
pub proof fn law_published(w: &mut World, v: &World, entries: Vec<Entry>, r: Vec<Entry>)
    requires
        call_ensures(world::publish, (w, entries), ()),
        *v == *final(w),
        call_ensures(world::snapshot, (v,), r),
    ensures
        r@ == entries@,
        final(w).enabled == old(w).enabled,
{
}

// ── the overlay ──────────────────────────────────────────────────────────────

/// A frame that is being processed is not entered again, until it is left.
pub proof fn law_frame_guard(m: &mut Menu, n: &mut Menu, o: &mut Menu, p: &mut Menu, a: bool, b: bool, d: bool, us: u64)
    requires
        !old(m).busy,
        call_ensures(menu::enter_frame, (m,), a),
        *old(n) == *final(m),
        call_ensures(menu::enter_frame, (n,), b),
        *old(o) == *final(n),
        call_ensures(menu::leave_frame, (o, us), ()),
        *old(p) == *final(o),
        call_ensures(menu::enter_frame, (p,), d),
    ensures
        a && !b && d,
        final(p).last_us == us,
        final(p).max_us >= us,
{
}

/// The costs of the frames that are told: the last, the longest, and what one
/// took on the average.
pub proof fn law_costs_told(m: &Menu, r: (u64, u64, u64))
    requires
        call_ensures(menu::onframe_us, (m,), r),
        m.frames > 0,
    ensures
        r.0 == m.last_us,
        r.1 == m.max_us,
        r.2 * m.frames <= m.total_us < (r.2 + 1) * m.frames,
{
    let (t, n) = (m.total_us as int, m.frames as int);
    assert((t / n) * n <= t < (t / n + 1) * n) by (nonlinear_arith)
        requires
            n > 0,
            t >= 0,
    ;
}

/// The frame rate is told every half second: how many frames there were since,
/// the present one included, and how long that was; the count starts anew then.
pub proof fn law_frame_rate(m: &mut Menu, now: u64, r: Option<(u32, u64)>, t: u64)
    requires
        old(m).fps_frames < u32::MAX,
        old(m).fps_since == Some(t),
        call_ensures(menu::tick_fps, (m, now), r),
    ensures
        now >= t + 500_000_000 ==> r == Some(((old(m).fps_frames + 1) as u32, (now - t) as u64))
            && final(m).fps_frames == 0 && final(m).fps_since == Some(now),
        now < t + 500_000_000 ==> r is None && final(m).fps_frames == old(m).fps_frames + 1
            && final(m).fps_since == Some(t),
        final(m).fps == old(m).fps,
{
}

/// The keys of a frame: what is open afterwards, whether it was closed, which tab
/// is the active one; and a key or button that is held does not act again.
pub proof fn law_press(
    m: &mut Menu,
    c: &mut Chams,
    f: &mut Features,
    k: Keys,
    r: (bool, bool),
    i: usize,
)
    requires
        call_ensures(menu::press, (m, c, f, k), r),
    ensures
        r.0 == (old(m).visible != (k.insert && !old(m).insert_held)),
        final(m).visible == r.0,
        r.1 <==> k.button && !old(m).button_held && r.0 && k.hits.close,
        menu::target_of(*old(m), k) == Some(Control::Tab(i)) ==> final(m).tab == i,
        !(menu::target_of(*old(m), k) is Some && menu::target_of(*old(m), k)->0 is Tab) ==> final(m).tab == old(m).tab,
        final(m).insert_held == k.insert,
        final(m).button_held == k.button,
        k.button && old(m).button_held ==> *final(c) == *old(c) && *final(f) == *old(f),
        !k.button ==> *final(c) == *old(c) && *final(f) == *old(f),
{
}

/// What comes next in a frame: the unloading before everything, then the close
/// box, which hides; the overlay is built once and drawn only where that
/// succeeded.
pub proof fn law_decide(m: &mut Menu, close: bool, r: Next)
    requires
        call_ensures(menu::decide, (m, close), r),
    ensures
        r is Unload <==> old(m).unload,
        !old(m).unload && close ==> r == Next::Hide(old(m).built) && !final(m).visible,
        !old(m).unload && !close ==> {
            &&& r is Build <==> !old(m).initialized
            &&& r is Disabled <==> old(m).initialized && !old(m).built
            &&& r is Redraw <==> old(m).initialized && old(m).built
            &&& final(m).visible == old(m).visible
        },
        final(m).tab == old(m).tab,
{
}

/// Building is tried once, and succeeds where everything was found and both
/// canvases were made.
pub proof fn law_built(m: &mut Menu, resolved: bool, root: bool, pointer: bool, ok: bool)
    requires
        call_ensures(menu::built, (m, resolved, root, pointer), ok),
    ensures
        ok <==> resolved && root && pointer,
        final(m).initialized,
        final(m).built == (old(m).built || ok),
        final(m).visible == old(m).visible,
        final(m).tab == old(m).tab,
{
}

/// The first domain stays; a status is new until it is looked at.
pub proof fn law_status(m: &mut Menu, n: &mut Menu, o: &mut Menu, s: String, a: bool, b: bool, d: Domain, p: &mut Menu)
    requires
        call_ensures(menu::set_status, (m, s), ()),
        *old(n) == *final(m),
        call_ensures(menu::status_dirty, (n,), a),
        *old(o) == *final(n),
        call_ensures(menu::status_dirty, (o,), b),
        call_ensures(menu::set_domain, (p, d), ()),
    ensures
        a && !b,
        final(o).status == s,
        old(p).domain is Some ==> final(p).domain == old(p).domain,
        old(p).domain is None ==> final(p).domain == Some(d),
{
}

// ── the driver and the worker ────────────────────────────────────────────────

/// A call of the driver that was entered and left counts for nothing; one that
/// said to stop has the unloading asked for, for good.
pub proof fn law_driver(h: &mut Hooks, g: &mut Hooks, keep_going: bool)
    requires
        old(h).inside < u64::MAX,
        call_ensures(hooks::driver_enter, (h,), ()),
        *old(g) == *final(h),
        call_ensures(hooks::driver_leave, (g, keep_going), ()),
    ensures
        final(h).inside == old(h).inside + 1,
        final(g).inside == old(h).inside,
        final(g).unload == (old(h).unload || !keep_going),
        final(g).world == old(h).world,
{
}

/// The hook is out where it was disabled and nobody is inside any more; it is
/// given up where it could not be disabled, or somebody is inside too long.
pub proof fn law_drain(disabled: bool, inside: u64, late: bool, r: Drain)
    requires
        call_ensures(hooks::shutdown, (disabled, inside, late), r),
    ensures
        r is Safe <==> disabled && inside == 0,
        r is Unsafe <==> !disabled || (inside > 0 && late),
        !(r is Safe) && !(r is Unsafe) <==> disabled && inside > 0 && !late,
{
}

/// The stamina is polled every half second.
pub proof fn law_poll(last: &mut u64, now: u64, r: bool)
    requires
        call_ensures(session::poll_due, (last, now), r),
    ensures
        r <==> now >= *old(last) + 500_000_000,
        r ==> *final(last) == now,
        !r ==> *final(last) == *old(last),
{
}

/// The status says the stamina where it changed, that it is gone once, and
/// nothing otherwise.
pub proof fn law_poll_status(last: &mut Option<u32>, reading: Option<u32>, r: StatusChange)
    requires
        call_ensures(session::poll_status, (last, reading), r),
    ensures
        reading is None ==> (r is Gone <==> *old(last) is Some) && *final(last) is None,
        reading is None && *old(last) is None ==> r is Same,
        reading is Some && *old(last) is None ==> r == StatusChange::Stamina(reading->0)
            && *final(last) == reading,
        reading is Some && *old(last) == reading && reading->0 <= 0x7f80_0000 ==> r is Same,
        reading is Some && *old(last) is Some && *old(last) != reading && 0 < reading->0
            < 0x8000_0000 ==> r == StatusChange::Stamina(reading->0) && *final(last) == reading,
{
}

/// The worker leaves where it was aborted, works where a session was begun, and
/// does neither otherwise.
pub proof fn law_worker(aborted: bool, session: bool, r: WorkerPlan)
    requires
        call_ensures(session::worker_main, (aborted, session), r),
    ensures
        r is Leave <==> aborted,
        r is Work <==> !aborted && session,
{
}

/// The module is waited for until it is there, it is too late, or the worker was
/// aborted.
pub proof fn law_load(found: bool, late: bool, aborted: bool, r: LoadWait)
    requires
        call_ensures(il2cpp::load_wait, (found, late, aborted), r),
    ensures
        found ==> r is Loaded,
        !found && (late || aborted) ==> r is GiveUp,
        !found && !late && !aborted ==> r is Sleep,
{
}

// ── faults, windows and lines ────────────────────────────────────────────────

/// The handler that was installed is the one that is taken out again, once.
pub proof fn law_fault_logger(
    c: &mut Crash,
    d: &mut Crash,
    e: &mut Crash,
    handle: u64,
    line: &'static str,
    r: Option<u64>,
    s: Option<u64>,
)
    requires
        handle != 0,
        call_ensures(crash::install, (c, handle), line),
        *old(d) == *final(c),
        call_ensures(crash::uninstall, (d,), r),
        *old(e) == *final(d),
        call_ensures(crash::uninstall, (e,), s),
    ensures
        r == Some(handle),
        s is None,
        line@ == "[crash] fault logger installed"@,
        !final(d).armed,
{
}

/// A phase is the one that faults are reported in.
pub proof fn law_phase(c: &mut Crash, p: usize, line: String)
    requires
        call_ensures(crash::phase, (c, p), line),
    ensures
        final(c).phase == p,
        final(c).armed == old(c).armed,
        line@ == "[crash] phase -> "@ + crash::phase_text(p),
{
}

/// The window is hooked once, and what is given back to it is the handler it had
/// before.
pub proof fn law_window_hook(
    c: &mut Capture,
    d: &mut Capture,
    e: &mut Capture,
    hwnd: u64,
    previous: u64,
    other: u64,
    a: bool,
    b: bool,
    r: Option<(u64, u64)>,
)
    requires
        !old(c).installed,
        hwnd != 0,
        previous != 0,
        call_ensures(input::ensure_installed, (c, hwnd, previous), a),
        *old(d) == *final(c),
        call_ensures(input::ensure_installed, (d, other, other), b),
        *old(e) == *final(d),
        call_ensures(input::uninstall, (e,), r),
    ensures
        a && b,
        r == Some((hwnd, previous)),
        !final(e).installed,
{
}

/// A message goes past the game where input is captured and it is the mouse's,
/// and to the game's own handler otherwise, where that is known.
pub proof fn law_message(captures: bool, msg: u32, raw_mouse: bool, original: u64, r: Route)
    requires
        call_ensures(input::wndproc, (captures, msg, raw_mouse, original), r),
    ensures
        !captures && original != 0 ==> r is Game,
        !captures && original == 0 ==> r is Default,
        captures && 0x0200 <= msg <= 0x020c ==> r is Swallow,
        captures && msg == 0x00ff ==> (r is Swallow <==> raw_mouse),
        captures && (msg < 0x00ff || 0x0100 <= msg < 0x0200 || msg > 0x020e) && original != 0
            ==> r is Game,
{
}

/// A relative movement of the mouse moves the pointer, and nothing else does.
pub proof fn law_raw_movement(p: &mut Pointer, ev: RawEvent, width: i32, height: i32, r: bool)
    requires
        width >= 1,
        height >= 1,
        call_ensures(input::accumulate_raw, (p, ev, width, height), r),
    ensures
        !(ev is Moved) ==> *final(p) == *old(p),
        ev matches RawEvent::Moved { dx, dy } ==> {
            &&& r
            &&& 0 <= old(p).x + dx < width && 0 <= old(p).y + dy < height ==> final(p).x == old(p).x + dx && final(p).y == old(p).y + dy
        },
{
}

/// A line that was pushed is the last one of what the console shows, and makes
/// it look again, once.
pub proof fn law_pushed_line(
    c: &mut Console,
    d: &mut Console,
    e: &mut Console,
    line: String,
    a: bool,
    b: bool,
)
    requires
        old(c).wf(),
        call_ensures(console::push, (c, line), ()),
        *old(d) == *final(c),
        call_ensures(console::take_dirty, (d,), a),
        *old(e) == *final(d),
        call_ensures(console::take_dirty, (e,), b),
    ensures
        final(e).lines().len() > 0,
        final(e).lines().last() == line@,
        final(e).lines().len() <= 64,
        old(c).lines().len() < 64 ==> final(e).lines() == old(c).lines().push(line@),
        a && !b,
{
}

// ── memory as it is now, and the other backend ───────────────────────────────

/// Bytes can be read where the table of readable ranges has all of them, or,
/// unless only the table is asked, where the system says so at this moment.
pub proof fn law_readable(regions: &Regions, p: u64, len: u64, live: Option<RegionInfo>, r: bool)
    requires
        call_ensures(il2cpp::readable, (regions, p, len, live), r),
    ensures
        p == 0 || len == 0 ==> !r,
        p != 0 && len != 0 && memory::covered(regions.table@, p as int, len as int) ==> r,
        p != 0 && len != 0 && !memory::covered(regions.table@, p as int, len as int)
            && regions.cache_only ==> !r,
        p != 0 && len != 0 && !memory::covered(regions.table@, p as int, len as int)
            && !regions.cache_only ==> r == il2cpp::live_ok(p, len, live),
{
}

/// A name is looked for in a class and, where it is not there, in the class
/// above it, until there is none.
pub proof fn law_lookup(class: u64, r: Lookup, answer: u64, parent: u64, s: Lookup)
    requires
        call_ensures(mono::lookup, (class,), r),
        call_ensures(mono::lookup_next, (answer, parent), s),
    ensures
        class != 0 ==> r == Lookup::Ask(class),
        class == 0 ==> r is Missing,
        answer != 0 ==> s == Lookup::Found(answer),
        answer == 0 && parent != 0 ==> s == Lookup::Ask(parent),
        answer == 0 && parent == 0 ==> s is Missing,
{
}

/// A request is complete where its head has ended, or where it is longer than 16
/// KiB.
pub proof fn law_request_complete(b: &Vec<u8>, r: bool, i: int)
    requires
        call_ensures(http::request_complete, (b,), r),
    ensures
        b@.len() > 16384 ==> r,
        0 <= i && i + 4 <= b@.len() && b@.subrange(i, i + 4) == seq![
            0x0du8,
            0x0au8,
            0x0du8,
            0x0au8,
        ] ==> r,
        r && b@.len() <= 16384 ==> exists|j: int| #[trigger] http::head_ends_at(b@, j),
{
    crate::laws::http::law_head_end(b@, i);
    if 0 <= i && i + 4 <= b@.len() && b@.subrange(i, i + 4) == seq![0x0du8, 0x0au8, 0x0du8, 0x0au8] {
        assert(http::head_ends_at(b@, i));
    }
}

} // verus!
