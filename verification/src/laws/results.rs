//! The laws of results: what comes back from a call, read off the memory and the
//! names that it was given.

use vstd::prelude::*;

use crate::chams;
use crate::chams::{AssignStep, Chams, MatOp, RendererStep};
use crate::console;
use crate::console::Console;
use crate::control;
use crate::control::Control;
use crate::crash;
use crate::crash::{Crash, ModuleRange};
use crate::features;
use crate::features::{Features, StaminaOffsets};
use crate::hooks;
use crate::hooks::Hooks;
use crate::http;
use crate::http::{Chain, Endpoint, Facts, Query};
use crate::il2cpp;
use crate::il2cpp::{Regions, Walk};
use crate::il2cpp_abi;
use crate::il2cpp_abi::{CalibrationError, Layout};
use crate::il2cpp_runtime;
use crate::il2cpp_runtime::{Il2CppRuntime, Readiness};
use crate::input;
use crate::input::Pointer;
use crate::laws::arrays;
use crate::laws::features as toggles;
use crate::laws::raid;
use crate::memory;
use crate::memory::Memory;
use crate::menu;
use crate::menu::{LRect, Menu};
use crate::mono;
use crate::runtime;
use crate::runtime::{Class, Image, Object, ScriptRuntime, Store};
use crate::search;
use crate::session;
use crate::symbols;
use crate::symbols::eft;
use crate::symbols::{FieldSpec, Offsets};
use crate::text;
use crate::world;
use crate::world::{Cache, Entry, Sight, World};

verus! {

// ── players and renderers ────────────────────────────────────────────────────

/// The renderers that come back of a player are what its array refers to: every
/// one of them, in the order of the array, where it has from 1 to 4096.
pub proof fn law_renderers_returned(
    mem: &Memory<'_>,
    off: i32,
    player: Object,
    out: Vec<u64>,
    arr: nat,
    n: nat,
    i: int,
)
    requires
        call_ensures(chams::player_renderers, (mem, Some(off), player), out),
        memory::val(mem@, player.0 + off, 8) == Some(arr),
        arr != 0,
        memory::val(mem@, arr + 0x18int, 8) == Some(n),
    ensures
        1 <= n <= 4096 ==> out@ == arrays::slots(mem@, arr as int, n).filter(|p: u64| p != 0),
        1 <= n <= 4096 && 0 <= i < n && arrays::slots(mem@, arr as int, n)[i] != 0
            ==> out@.contains(arrays::slots(mem@, arr as int, n)[i]),
        !(1 <= n <= 4096) ==> out@.len() == 0,
{
    crate::laws::chams::law_player_renderers(mem@, off, player.0 as int, arr, n);
}

/// The players that come back of a living world are those of its list, as far as
/// the list says.
pub proof fn law_players_returned(
    mem: &Memory<'_>,
    off: i32,
    world: Object,
    out: Vec<u64>,
    list: nat,
    items: nat,
    n: int,
    len: nat,
)
    requires
        call_ensures(chams::enumerate_players, (mem, Some(off), world), out),
        world.0 != 0,
        memory::val(mem@, world.0 + 0x10, 8) matches Some(v) && v != 0,
        memory::val(mem@, world.0 + off, 8) == Some(list),
        list != 0,
        memory::val(mem@, list + 0x10int, 8) == Some(items),
        items != 0,
        memory::int_val(mem@, list + 0x18int) == Some(n),
        memory::val(mem@, items + 0x18int, 8) == Some(len),
    ensures
        1 <= n <= 4096 && n <= len ==> out@ == arrays::slots(mem@, items as int, n as nat).filter(
            |p: u64| p != 0,
        ),
        1 <= n <= 4096 && n > len ==> out@ == arrays::slots(mem@, items as int, len).filter(
            |p: u64| p != 0,
        ),
        !(1 <= n <= 4096) ==> out@.len() == 0,
{
    let k = (if n < len {
        n
    } else {
        len as int
    }) as nat;
    if n >= 0 {
        crate::laws::chams::law_listed_players(
            mem@,
            off,
            world.0 as int,
            list,
            items,
            n,
            len,
            k,
        );
    }
}

/// A living world's own list wins over what was found, and without a living
/// world nobody comes back.
pub proof fn law_players_chosen(
    mem: &Memory<'_>,
    world: Object,
    listed: Vec<u64>,
    around: &Memory<'_>,
    found: Option<Object>,
    out: Vec<u64>,
)
    requires
        call_ensures(chams::choose_players, (mem, world, listed, around, found), out),
    ensures
        ({
            let lives = world.0 != 0 && (memory::val(mem@, world.0 + 0x10, 8) matches Some(v) && v
                != 0);
            &&& lives && listed@.len() > 0 ==> out@ == listed@
            &&& !lives ==> out@.len() == 0
            &&& listed@.len() == 0 && found is None ==> out@.len() == 0
        }),
{
    let f = match found {
        Some(o) => o,
        None => Object(0),
    };
    crate::laws::chams::law_pass_players(mem@, world.0 as int, listed@, around@, f, 0);
}

/// The renderers of two lists together: each that is in one of them, once.
pub proof fn law_renderers_together(own: &Vec<u64>, walked: &Vec<u64>, out: Vec<u64>, p: u64)
    requires
        call_ensures(chams::union_renderers, (own, walked), out),
    ensures
        out@.contains(p) <==> own@.contains(p) || walked@.contains(p),
        out@.no_duplicates(),
{
    let both = own@ + walked@;
    crate::laws::chams::law_first_occurrences(both);
    if own@.contains(p) {
        let i = choose|i: int| 0 <= i < own@.len() && own@[i] == p;
        assert(both[i] == p);
    }
    if walked@.contains(p) {
        let i = choose|i: int| 0 <= i < walked@.len() && walked@[i] == p;
        assert(both[own@.len() + i] == p);
    }
}

/// A renderer is taken where it lives and was not taken before: then it is
/// captured with the materials it has and given the shared material in each of
/// its slots, or, where there is no shared material yet, one is built on the
/// first of its own.
pub proof fn law_renderer_taken(
    c: &mut Chams,
    mem: &Memory<'_>,
    renderer: Object,
    shared: Object,
    fill: Option<u64>,
    r: RendererStep,
    n: nat,
    k: int,
)
    requires
        call_ensures(chams::cham_renderer, (c, mem, renderer, shared, fill), r),
        renderer.0 != 0,
        memory::val(mem@, renderer.0 + 0x10, 8) matches Some(v) && v != 0,
        shared.0 != 0,
        memory::val(mem@, shared.0 + 0x18, 8) == Some(n),
        1 <= n <= 64,
        0 <= k < n,
        arrays::slots(mem@, shared.0 as int, n)[k] != 0,
        forall|i: int| 0 <= i < k ==> #[trigger] arrays::slots(mem@, shared.0 as int, n)[i] == 0,
    ensures
        ({
            let taken = old(c).originals@.contains_key(renderer.0);
            &&& taken ==> r is Skip && *final(c) == *old(c)
            &&& !taken && fill is None ==> r == RendererStep::Build(
                Object(arrays::slots(mem@, shared.0 as int, n)[k]),
            ) && *final(c) == *old(c)
            &&& !taken ==> (fill matches Some(p) ==> {
                &&& r == RendererStep::Assign(p, n as u64)
                &&& final(c).originals@ == old(c).originals@.insert(renderer.0, shared.0)
            })
            &&& final(c).material == old(c).material
        }),
{
    crate::laws::chams::law_template(mem@, shared.0 as int, n, k);
}

/// What an array of the runtime gives the renderer: an array that was made, in
/// every slot filled with the material.
pub proof fn law_made_array(arr: Object, fill: u64, n: u64, r: AssignStep)
    requires
        call_ensures(chams::assign_made, (Some(arr), fill, n), r),
    ensures
        chams::handed(r, arr, true, fill, n),
{
}

/// Setting says what is on, which scheme and which style, from then on, and has
/// a new scheme or style applied.
pub proof fn law_chams_set(c: &mut Chams, d: &mut Chams, e: &mut Chams, on: bool, n: usize, k: usize)
    requires
        call_ensures(chams::set_enabled, (c, on), ()),
        call_ensures(chams::set_scheme, (d, n), ()),
        call_ensures(chams::set_style, (e, k), ()),
    ensures
        final(c).enabled == on,
        final(c).scheme == old(c).scheme && final(c).style == old(c).style,
        final(c).originals == old(c).originals,
        n < 6 ==> final(d).scheme == n,
        final(d).scheme < 6,
        final(d).apply && final(d).style == old(d).style && final(d).enabled == old(d).enabled,
        k < 3 ==> final(e).style == k,
        final(e).style < 3,
        final(e).apply && final(e).scheme == old(e).scheme && final(e).enabled == old(e).enabled,
{
}

/// The names that are told are those of the present scheme and style.
pub proof fn law_chams_told(c: &Chams, a: &'static str, b: &'static str, on: bool)
    requires
        c.wf(),
        call_ensures(chams::scheme_name, (c,), a),
        call_ensures(chams::style_name, (c,), b),
        call_ensures(chams::is_on, (c,), on),
    ensures
        a@ == chams::scheme_text(c.scheme),
        b@ == chams::style_text(c.style),
        on == c.enabled,
{
}

/// A material that was built is the one that is styled from then on, as long as
/// it lives.
pub proof fn law_material_styled(
    c: &mut Chams,
    d: &mut Chams,
    material: u64,
    mem: &Memory<'_>,
    r: Option<Object>,
)
    requires
        material != 0,
        call_ensures(chams::material_built, (c, material), ()),
        *old(d) == *final(c),
        call_ensures(chams::apply_style, (d, mem), r),
    ensures
        memory::has(mem@, material as int, 24) && (memory::val(mem@, material + 16, 8) matches Some(
            v,
        ) && v != 0) ==> r == Some(Object(material)) && *final(d) == *old(d),
        memory::val(mem@, material + 16, 8) == Some(0nat) ==> r is None && final(d).material == 0,
{
}

/// What is set on the material is what the present style, scheme and shader ask
/// for.
pub proof fn law_material_set(c: &Chams, ops: Vec<MatOp>)
    requires
        call_ensures(chams::configure_material, (c,), ops),
    ensures
        c.shader is None ==> chams::ops_val(ops@) == chams::material_ops(c.style, c.scheme, false),
        c.shader matches Some(s) ==> chams::ops_val(ops@) == chams::material_ops(
            c.style,
            c.scheme,
            s.rim,
        ),
{
}

/// An array comes back as what its slots refer to, null ones left out.
pub proof fn law_array_returned(mem: &Memory<'_>, arr: Object, n: u64, out: Vec<u64>)
    requires
        call_ensures(chams::collect, (mem, arr, n), out),
    ensures
        out@ == arrays::slots(mem@, arr.0 as int, n as nat).filter(|p: u64| p != 0),
{
    arrays::law_elements(mem@, arr.0 as int, n as nat);
}

// ── the raid ─────────────────────────────────────────────────────────────────

/// Every player is classified, in the order they came in: each by what was seen
/// of it and by its own bytes.
pub proof fn law_classified(
    mem: &Memory<'_>,
    c: &Cache,
    ps: &Vec<u64>,
    sights: &Vec<Sight>,
    out: Vec<Entry>,
    i: int,
)
    requires
        call_ensures(world::classify, (mem, c, ps, sights), out),
        0 <= i < ps@.len(),
    ensures
        out@.len() == ps@.len(),
        out@[i].ptr == ps@[i],
        out@[i].pos == sights@[i].pos,
        out@[i].screen == sights@[i].screen,
        out@[i].on_screen <==> 1 <= sights@[i].screen.z <= 0x7f80_0000,
        out@[i].is_local <==> (memory::val(mem@, ps@[i] + c.p_is_local_off, 1) matches Some(v) && v
            != 0),
        out@[i].is_bot ==> !out@[i].is_local,
        out@[i].is_local ==> out@[i].dist == sights@[i].dist,
{
    raid::law_entry(mem@, *c, ps@, sights@, i);
}

/// The local player is the first one that is marked as such.
pub proof fn law_local_found(mem: &Memory<'_>, c: &Cache, ps: &Vec<u64>, r: Option<u64>, i: int)
    requires
        call_ensures(world::find_local, (mem, c, ps), r),
    ensures
        ({
            let marked = |p: u64|
                memory::val(mem@, p + c.p_is_local_off, 1) matches Some(v) && v != 0;
            &&& 0 <= i < ps@.len() && marked(ps@[i]) && (forall|j: int|
                0 <= j < i ==> !marked(#[trigger] ps@[j])) ==> r == Some(ps@[i])
            &&& (forall|j: int| 0 <= j < ps@.len() ==> !marked(#[trigger] ps@[j])) ==> r is None
        }),
{
    let p = world::local_mark(mem@, *c);
    search::law_first_in(ps@, p);
}

/// What the raid shows is what was classified last, and nothing where there was
/// nobody to look at.
pub proof fn law_looked(
    w: &mut World,
    mem: &Memory<'_>,
    c: &Cache,
    ps: Option<Vec<u64>>,
    sights: &Vec<Sight>,
)
    requires
        call_ensures(world::look, (w, mem, c, ps, sights), ()),
    ensures
        ps matches Some(v) ==> final(w).entries@ == world::entries_of(mem@, *c, v@, sights@),
        ps is None ==> final(w).entries@.len() == 0,
        final(w).enabled == old(w).enabled,
        final(w).last_tick == old(w).last_tick,
{
}

/// The players of a raid come back as they are listed.
pub proof fn law_raid_returned(mem: &Memory<'_>, off: i32, world: Object, r: Option<Vec<u64>>)
    requires
        call_ensures(world::players, (mem, off, world), r),
    ensures
        r matches Some(v) ==> world::raid_players(mem@, off, world.0 as int) == Some(v@),
        r is None ==> world::raid_players(mem@, off, world.0 as int) is None,
        world.0 == 0 ==> r is None,
{
}

/// Switching the raid on and off leaves what it shows.
pub proof fn law_raid_switched(w: &mut World, v: &World, on: bool, r: bool)
    requires
        call_ensures(world::set_enabled, (w, on), ()),
        *v == *final(w),
        call_ensures(world::is_enabled, (v,), r),
    ensures
        r == on,
        final(w).entries == old(w).entries,
        final(w).last_tick == old(w).last_tick,
{
}

// ── stamina ──────────────────────────────────────────────────────────────────

/// The fields of the stamina come back each from its own name: what is stored to
/// is `Current`, what is stored is `TotalCapacity`.
pub proof fn law_stamina_resolved<R: ScriptRuntime>(
    rt: &R,
    r: Option<StaminaOffsets>,
    current: i32,
    total: i32,
)
    requires
        call_ensures(features::resolve::<R>, (rt,), r),
        toggles::lies_at(rt, ""@, "Stamina"@, "Current"@, current),
        toggles::lies_at(rt, ""@, "Stamina"@, "TotalCapacity"@, total),
    ensures
        r matches Some(c) ==> {
            &&& c.off_current == current
            &&& c.off_capacity == total
            &&& toggles::lies_at(rt, "EFT"@, "GameWorld"@, "MainPlayer"@, c.off_main_player)
            &&& toggles::lies_at(rt, "EFT"@, "Player"@, "Physical"@, c.off_physical)
            &&& toggles::lies_at(rt, ""@, "PhysicalBase"@, "Stamina"@, c.off_stamina)
        },
{
    if let Some(c) = r {
        toggles::law_stamina_fields(rt, c);
    }
}

/// A store to the stamina holds what its capacity holds, four bytes wide.
pub proof fn law_stamina_returned(
    mem: &Memory<'_>,
    c: &StaminaOffsets,
    world: Object,
    r: Option<Store>,
)
    requires
        call_ensures(features::apply_stamina, (mem, c, world), r),
    ensures
        r == features::pinned(mem@, *c, world.0 as int),
        r matches Some(s) ==> s.width == 4 && memory::val(
            mem@,
            s.addr - c.off_current + c.off_capacity,
            4,
        ) == Some(s.value as nat),
{
    toggles::law_stamina_needs(mem@, *c, world.0 as int);
}

/// What is set of the toggles is what is read back.
pub proof fn law_toggles_set(
    f: &mut Features,
    g: &Features,
    h: &mut Features,
    i: &Features,
    a: bool,
    b: bool,
    ra: bool,
    rb: bool,
    m: u32,
)
    requires
        call_ensures(features::set_inf_stamina, (f, a), ()),
        *g == *final(f),
        call_ensures(features::inf_stamina, (g,), ra),
        call_ensures(features::set_speed_on, (h, b), ()),
        *i == *final(h),
        call_ensures(features::speed_on, (i,), rb),
        call_ensures(features::speed_mult, (i,), m),
    ensures
        ra == a && rb == b,
        final(f).speed == old(f).speed && final(f).mult == old(f).mult,
        final(h).stamina == old(h).stamina && m == old(h).mult,
{
}

// ── calibration and metadata ─────────────────────────────────────────────────

/// Where nothing asks it to stop, calibration comes back with the layout that
/// the metadata has, or with the reason why there is none.
pub proof fn law_calibrated<G: Fn() -> bool>(
    mem: &Memory<'_>,
    corlib: u64,
    classes: &Vec<u64>,
    base: u64,
    s_len: i32,
    s_chars: i32,
    aborted: &G,
    r: Result<Layout, CalibrationError>,
)
    requires
        call_ensures(
            il2cpp_abi::calibrate::<G>,
            (mem, corlib, classes, base, s_len, s_chars, aborted),
            r,
        ),
        forall|b: bool| call_ensures(aborted, (), b) ==> !b,
    ensures
        r == il2cpp_abi::calibrated(mem@, corlib, classes@, base, s_len, s_chars),
        corlib == 0 ==> r == Err::<Layout, CalibrationError>(CalibrationError::NoCorlib),
        corlib != 0 && classes@.len() < 32 ==> r == Err::<Layout, CalibrationError>(
            CalibrationError::TooFewClasses,
        ),
{
    crate::laws::calibration::law_calibration_needs(
        mem@,
        corlib,
        classes@,
        base,
        s_len,
        s_chars,
    );
}

/// The dumps list what the class and the classes above it have, 32 at most.
pub proof fn law_dumped(
    rt: &Il2CppRuntime<'_>,
    class: Class,
    fs: Vec<(String, i32)>,
    ms: Vec<(String, u32, bool, u64)>,
)
    requires
        call_ensures(Il2CppRuntime::dump_fields, (rt, class), fs),
        call_ensures(Il2CppRuntime::dump_methods, (rt, class), ms),
    ensures
        il2cpp_runtime::fields_val(fs@) == il2cpp_runtime::all_fields(
            rt.mem@,
            rt.l,
            class.0 as int,
            32,
        ),
        il2cpp_runtime::methods_val(ms@) == il2cpp_runtime::all_methods(
            rt.mem@,
            rt.l,
            class.0 as int,
            32,
        ),
{
}

/// A string comes back as the text that its units hold, and null as nothing.
pub proof fn law_string_returned(rt: &Il2CppRuntime<'_>, obj: Object, r: Option<String>)
    requires
        call_ensures(Il2CppRuntime::string_to_rust, (rt, obj), r),
    ensures
        il2cpp::opt_text(r) == il2cpp_runtime::string_val(
            rt.mem@,
            obj.0 as int,
            rt.s_len as int,
            rt.s_chars as int,
        ),
{
}

/// The handle of a type is where the record in its class lies, which must say a
/// known element type.
pub proof fn law_type_handle(rt: &Il2CppRuntime<'_>, class: Class, r: Option<u64>)
    requires
        call_ensures(Il2CppRuntime::type_handle, (rt, class), r),
    ensures
        r matches Some(h) ==> h == class.0 + rt.l.c_byval,
        r is Some <==> (il2cpp_abi::element_of(
            rt.mem@,
            class.0 as int,
            rt.l.c_byval as int,
        ) matches Some(t) && 1 <= t <= 32),
{
}

/// The classes of an image that were listed first stay, and those of another
/// image are not touched.
pub proof fn law_listed_once(
    a: &mut Il2CppRuntime<'_>,
    b: &mut Il2CppRuntime<'_>,
    image: Image,
    first: Vec<u64>,
    second: Vec<u64>,
    other: Image,
)
    requires
        il2cpp_runtime::list_for(old(a).lists@, image) is None,
        call_ensures(Il2CppRuntime::list_classes, (a, image, first), ()),
        *old(b) == *final(a),
        call_ensures(Il2CppRuntime::list_classes, (b, image, second), ()),
    ensures
        il2cpp_runtime::list_for(final(b).lists@, image) == Some(first@),
        other != image ==> il2cpp_runtime::list_for(final(b).lists@, other)
            == il2cpp_runtime::list_for(old(a).lists@, other),
        final(b).l == old(a).l,
        final(b).indexes == old(a).indexes,
{
}

/// An array is made where the runtime can make arrays, of 65536 elements at most,
/// and is taken where it has as many elements as were asked for.
pub proof fn law_array_made(
    has: bool,
    len: u64,
    may: bool,
    mem: &Memory<'_>,
    a: Object,
    r: Option<Object>,
)
    requires
        call_ensures(il2cpp_runtime::may_make_array, (has, len), may),
        call_ensures(il2cpp_runtime::new_array, (mem, a, len), r),
    ensures
        may <==> has && len <= 65536,
        r == Some(a) <==> a.0 != 0 && memory::val(mem@, a.0 + 0x18, 8) == Some(len as nat),
        r is Some ==> r == Some(a),
{
}

/// An offset is odd where it is negative, above 64 KiB, or not a multiple of 4.
pub proof fn law_odd_offset(v: i32, r: bool, k: int)
    requires
        call_ensures(il2cpp_runtime::suspicious_offset, (v,), r),
    ensures
        v == 4 * k ==> (r <==> v < 0 || v > 65536),
        v == 4 * k + 1 || v == 4 * k + 2 || v == 4 * k + 3 ==> r,
{
}

/// The runtime is ready where there are a domain, a core library and more than
/// 32 classes; only until then does an abort or the time matter, the abort first.
pub proof fn law_ready(
    domain: u64,
    corlib: u64,
    count: u64,
    aborted: bool,
    late: bool,
    r: Readiness,
)
    requires
        call_ensures(il2cpp_runtime::readiness, (domain, corlib, count, aborted, late), r),
    ensures
        domain != 0 && corlib != 0 && count >= 33 ==> r is Ready,
        r is Ready ==> domain != 0 && corlib != 0 && count >= 33,
        !(r is Ready) && aborted ==> r is Aborted,
        !(r is Ready) && !aborted && late ==> r is TimedOut,
        !aborted && !late ==> !(r is Aborted) && !(r is TimedOut),
{
}

// ── reading memory ───────────────────────────────────────────────────────────

/// A number is read where all of its bytes can be, and is what they hold.
pub proof fn law_numbers_read(
    mem: &Memory<'_>,
    p: u64,
    off: u64,
    a: Option<u8>,
    b: Option<u16>,
    c: Option<u32>,
    d: Option<u64>,
    e: Option<i32>,
    f: Option<u64>,
)
    requires
        call_ensures(Memory::read_u8, (mem, p, off), a),
        call_ensures(Memory::read_u16, (mem, p, off), b),
        call_ensures(Memory::read_u32, (mem, p, off), c),
        call_ensures(Memory::read_u64, (mem, p, off), d),
        call_ensures(Memory::read_i32, (mem, p, off), e),
        call_ensures(Memory::read_ptr, (mem, p, off), f),
    ensures
        (a matches Some(v) ==> memory::val(mem@, p + off, 1) == Some(v as nat)),
        (b matches Some(v) ==> memory::val(mem@, p + off, 2) == Some(v as nat)),
        (c matches Some(v) ==> memory::val(mem@, p + off, 4) == Some(v as nat)),
        (d matches Some(v) ==> memory::val(mem@, p + off, 8) == Some(v as nat)),
        (e matches Some(v) ==> memory::int_val(mem@, p + off) == Some(v as int)),
        (f matches Some(v) ==> v != 0 && memory::val(mem@, p + off, 8) == Some(v as nat)),
        a is None ==> memory::val(mem@, p + off, 1) is None,
        b is None ==> memory::val(mem@, p + off, 2) is None,
        c is None ==> memory::val(mem@, p + off, 4) is None,
        d is None ==> memory::val(mem@, p + off, 8) is None,
        e is None ==> memory::int_val(mem@, p + off) is None,
        f is None ==> !(memory::val(mem@, p + off, 8) matches Some(v) && v != 0),
{
}

/// The layout of the runtime's values: the number of elements of an array 24
/// bytes in and its elements from 32 on, the native half of an object 16 bytes
/// in, and so what is boxed.
pub proof fn law_runtime_read(
    mem: &Memory<'_>,
    o: Object,
    i: u64,
    len: Option<u64>,
    at: Option<Object>,
    lives: Option<bool>,
    n: Option<i32>,
    b: Option<bool>,
    v: Option<(u32, u32, u32)>,
)
    requires
        o.0 != 0,
        call_ensures(runtime::array_len, (mem, o), len),
        call_ensures(runtime::array_get, (mem, o, i), at),
        call_ensures(runtime::is_alive, (mem, o), lives),
        call_ensures(runtime::unbox_i32, (mem, o), n),
        call_ensures(runtime::unbox_bool, (mem, o), b),
        call_ensures(runtime::unbox_vec3, (mem, o), v),
    ensures
        (len matches Some(x) ==> memory::val(mem@, o.0 + 24, 8) == Some(x as nat)),
        len is None ==> memory::val(mem@, o.0 + 24, 8) is None,
        (at matches Some(x) ==> memory::val(mem@, o.0 + 32 + 8 * i, 8) == Some(x.0 as nat)),
        at is None ==> memory::val(mem@, o.0 + 32 + 8 * i, 8) is None,
        (lives matches Some(x) ==> (memory::val(mem@, o.0 + 16, 8) matches Some(w) && x == (w
            != 0))),
        lives is None ==> memory::val(mem@, o.0 + 16, 8) is None,
        (n matches Some(x) ==> memory::int_val(mem@, o.0 + 16) == Some(x as int)),
        n is None ==> memory::int_val(mem@, o.0 + 16) is None,
        (b matches Some(x) ==> (memory::val(mem@, o.0 + 16, 1) matches Some(w) && x == (w != 0))),
        b is None ==> memory::val(mem@, o.0 + 16, 1) is None,
        (v matches Some(x) ==> memory::val(mem@, o.0 + 16, 4) == Some(x.0 as nat) && memory::val(
            mem@,
            o.0 + 20,
            4,
        ) == Some(x.1 as nat) && memory::val(mem@, o.0 + 24, 4) == Some(x.2 as nat)),
{
}

/// Null has no elements, no life, and nothing boxed in it.
pub proof fn law_null_read(
    mem: &Memory<'_>,
    len: Option<u64>,
    lives: Option<bool>,
    n: Option<i32>,
    count: Option<u64>,
    items: Option<Object>,
)
    requires
        call_ensures(runtime::array_len, (mem, Object(0)), len),
        call_ensures(runtime::is_alive, (mem, Object(0)), lives),
        call_ensures(runtime::unbox_i32, (mem, Object(0)), n),
        call_ensures(runtime::list_count, (mem, Object(0)), count),
        call_ensures(runtime::list_items, (mem, Object(0)), items),
    ensures
        len == Some(0u64),
        lives == Some(false),
        n is None,
        count == Some(0u64),
        items == Some(Object(0)),
{
}

/// Memory that was added can be read, byte by byte, beside what was there.
pub proof fn law_added<'a>(mem: &mut Memory<'a>, base: u64, bytes: &'a [u8], r: bool, a: int)
    requires
        call_ensures(Memory::<'a>::add, (mem, base, bytes), r),
    ensures
        r && base <= a < base + bytes@.len() ==> final(mem)@.contains_key(a) && final(mem)@[a]
            == bytes@[a - base],
        r && !(base <= a < base + bytes@.len()) ==> final(mem)@.contains_key(a) == old(mem)@.contains_key(a),
        r && !(base <= a < base + bytes@.len()) && old(mem)@.contains_key(a) ==> final(mem)@[a]
            == old(mem)@[a],
        !r ==> *final(mem) == *old(mem),
        bytes@.len() == 0 ==> !r,
{
}

/// A refreshed table is the one that was walked, and a guard over it has only
/// the table asked, until it is left.
pub proof fn law_regions(
    r: &mut Regions,
    w: Walk,
    n: usize,
    s: &mut Regions,
    g: il2cpp::CacheOnly,
    t: &mut Regions,
)
    requires
        call_ensures(il2cpp::refresh_regions, (r, w), n),
        *old(s) == *final(r),
        call_ensures(il2cpp::CacheOnly::enter, (s,), g),
        *old(t) == *final(s),
        call_ensures(il2cpp::CacheOnly::leave, (g, t), ()),
    ensures
        n == w.table@.len(),
        final(r).table == w.table,
        final(r).cache_only == old(r).cache_only,
        final(s).cache_only && final(s).table == w.table,
        !final(t).cache_only && final(t).table == w.table,
{
}

// ── answers ──────────────────────────────────────────────────────────────────

/// A request for the fields of a class that is found is answered with all of
/// them that pass the filter, and changes nothing.
pub proof fn law_fields_answered(
    rt: &Il2CppRuntime<'_>,
    q: &Query,
    r: (&'static str, &'static str, String),
    c: Class,
)
    requires
        call_ensures(http::ep_fields, (Some(rt), q), r),
        http::class_asked(rt, q@) == Ok::<Class, Seq<char>>(c),
    ensures
        r.0@ == "200 OK"@,
        r.2@ == "["@ + text::join(
            http::fields_json(
                il2cpp_runtime::all_fields(rt.mem@, rt.l, c.0 as int, 32),
                http::filter_in(q@),
            ),
            ","@,
        ) + "]"@,
{
    crate::laws::http::law_dump_answers(rt, q@, c);
}

/// A request for the methods of a class likewise.
pub proof fn law_methods_answered(
    rt: &Il2CppRuntime<'_>,
    q: &Query,
    r: (&'static str, &'static str, String),
    c: Class,
)
    requires
        call_ensures(http::ep_methods, (Some(rt), q), r),
        http::class_asked(rt, q@) == Ok::<Class, Seq<char>>(c),
    ensures
        r.0@ == "200 OK"@,
        r.2@ == "["@ + text::join(
            http::methods_json(
                il2cpp_runtime::all_methods(rt.mem@, rt.l, c.0 as int, 32),
                http::filter_in(q@),
            ),
            ","@,
        ) + "]"@,
{
    crate::laws::http::law_dump_answers(rt, q@, c);
}

/// A request changes only what its endpoint is for, and is answered with the
/// state as it is then.
pub proof fn law_request(
    e: Endpoint,
    q: &Query,
    x: &Facts<'_, '_>,
    m: &mut Menu,
    c: &mut Chams,
    f: &mut Features,
    w: &mut World,
    r: (&'static str, &'static str, String),
)
    requires
        call_ensures(http::respond, (e, q, x, m, c, f, w), r),
    ensures
        !(e is Menu) ==> *final(m) == *old(m),
        !(e is Chams) ==> *final(c) == *old(c),
        !(e is Stamina) && !(e is Speed) ==> *final(f) == *old(f),
        !(e is Raid) ==> *final(w) == *old(w),
        e is Menu ==> http::answer(r) == http::ok_answer(http::visible_json(*final(m))),
        e is Chams ==> http::answer(r) == http::ok_answer(http::chams_json(*final(c))),
        e is Stamina ==> http::answer(r) == http::ok_answer(http::stamina_json(*final(f))),
        e is Stamina ==> final(f).speed == old(f).speed && final(f).mult == old(f).mult,
        e is Speed ==> final(f).stamina == old(f).stamina,
        e is Raid ==> final(w).entries == old(w).entries,
        e is Unknown ==> http::answer(r) == http::err_answer(
            "unknown endpoint (GET / for help)"@,
        ),
        e is Fields ==> http::answer(r) == http::fields_answer(x.rt, q@),
        e is Methods ==> http::answer(r) == http::methods_answer(x.rt, q@),
        e is Class ==> http::answer(r) == http::class_answer(x.rt, q@),
        e is Module ==> http::answer(r) == http::module_answer(q@, x.module),
        e is Players ==> http::answer(r) == http::players_answer(x.rt, x.mem@, x.world),
{
}

// ── the rest ─────────────────────────────────────────────────────────────────

/// An armed logger reports, line by line, and an abort that was requested is
/// seen.
pub proof fn law_armed(c: &mut Crash, k: &mut Control, l: &Control, r: bool)
    requires
        call_ensures(crash::arm, (c,), ()),
        call_ensures(control::request_abort, (k,), ()),
        *l == *final(k),
        call_ensures(control::aborted, (l,), r),
    ensures
        final(c).armed,
        final(c).phase == old(c).phase && final(c).handle == old(c).handle,
        r,
{
}

/// Where an address lies is told by the module that has it.
pub proof fn law_address_told(a: u64, ms: &Vec<ModuleRange>, r: String)
    requires
        call_ensures(crash::module_of, (a, ms), r),
    ensures
        r@ == crash::place_text(a, ms@),
{
}

/// The world that the driver was called on is the one that is told.
pub proof fn law_world_told(h: &mut Hooks, g: &Hooks, this: Object, r: Object, u: bool)
    requires
        call_ensures(hooks::driver_world, (h, this), ()),
        *g == *final(h),
        call_ensures(hooks::game_world, (g,), r),
        call_ensures(hooks::unload_requested, (g,), u),
    ensures
        r == this,
        u == old(h).unload,
        final(h).inside == old(h).inside,
{
}

/// The console shows its last lines, each on a line of its own: all of them where
/// there are no more than asked for.
pub proof fn law_console_shown(c: &Console, n: usize, r: String)
    requires
        call_ensures(console::snapshot_tail, (c, n), r),
    ensures
        c.lines().len() <= n ==> r@ == text::join(c.lines(), "\n"@),
        c.lines().len() > n ==> r@ == text::join(c.lines().skip(c.lines().len() - n), "\n"@),
{
}

/// The pointer is where it was put.
pub proof fn law_pointer_put(p: &mut Pointer, q: &Pointer, x: i32, y: i32, r: (i32, i32))
    requires
        call_ensures(input::seed_cursor, (p, x, y), ()),
        *q == *final(p),
        call_ensures(input::virtual_cursor, (q,), r),
    ensures
        r == (x, y),
{
}

/// A library that is loaded is taken, however late; one that is not is waited
/// for until the time is over.
pub proof fn law_library_waited(loaded: bool, waited: u64, most: u64, r: mono::LoadWait)
    requires
        call_ensures(mono::load_with_retry, (loaded, waited, most), r),
    ensures
        loaded ==> r is Loaded,
        !loaded && waited >= most ==> r is GiveUp,
        !loaded && waited < most ==> !(r is Loaded) && !(r is GiveUp),
{
}

/// What the overlay is told stays: that it is shown, the frame rate, that it is
/// to unload; and each frame is counted.
pub proof fn law_overlay_told(
    a: &mut Menu,
    b: &mut Menu,
    c: &mut Menu,
    d: &mut Menu,
    on: bool,
    rate: u32,
    shown: &Menu,
    v: bool,
)
    requires
        call_ensures(menu::set_visible, (a, on), ()),
        *shown == *final(a),
        call_ensures(menu::is_visible, (shown,), v),
        call_ensures(menu::set_fps, (b, rate), ()),
        call_ensures(menu::request_unload, (c,), ()),
        old(d).frames < u64::MAX,
        call_ensures(menu::count_frame, (d,), ()),
    ensures
        v == on,
        final(a).tab == old(a).tab,
        final(b).fps == rate && final(b).visible == old(b).visible,
        final(c).unload && final(c).visible == old(c).visible,
        final(d).frames == old(d).frames + 1,
        final(d).total_us == old(d).total_us,
{
}

/// The overlay is redrawn every 33 milliseconds at most.
pub proof fn law_throttled(m: &mut Menu, now: u64, r: bool)
    requires
        call_ensures(menu::throttle_ok, (m, now), r),
    ensures
        r <==> (old(m).last_redraw matches Some(t) ==> now >= t + 33_000_000),
        r ==> final(m).last_redraw == Some(now),
        !r ==> *final(m) == *old(m),
{
}

// ── requests as they come in ─────────────────────────────────────────────────

/// A parameter that was put in is what is got out, and the others stay.
pub proof fn law_parameter(
    q: &mut Query,
    p: &Query,
    name: String,
    value: String,
    asked: &str,
    r: Option<&String>,
)
    requires
        call_ensures(Query::insert, (q, name, value), ()),
        *p == *final(q),
        call_ensures(Query::get, (p, asked), r),
    ensures
        asked@ == name@ ==> (r matches Some(s) && s@ == value@),
        asked@ != name@ && old(q)@.contains_key(asked@) ==> (r matches Some(s) && s@ == old(q)@[asked@]),
        asked@ != name@ && !old(q)@.contains_key(asked@) ==> r is None,
{
}

/// What a request is taken apart into: its path and its query, the parameters of
/// the query, and the endpoint of the path.
pub proof fn law_request_read(
    req: &str,
    t: (String, String),
    query: &str,
    q: Query,
    path: &str,
    e: Endpoint,
)
    requires
        call_ensures(http::request_target, (req,), t),
        call_ensures(http::parse_query, (query,), q),
        call_ensures(http::route, (path,), e),
    ensures
        (t.0@, t.1@) == http::target_in(req@),
        q@ == http::query_of(text::split(query@, '&')),
        path@ == "/"@ ==> e is Help,
        e == http::endpoint_of(path@),
{
    crate::laws::http::law_endpoint_paths(path@);
}

/// Numbers are taken as they are written, and what is no number as none.
pub proof fn law_number_read(s: &str, a: Option<u64>, b: Option<i64>)
    requires
        call_ensures(http::parse_usize, (s,), a),
        call_ensures(http::parse_i64, (s,), b),
    ensures
        (a matches Some(v) ==> http::number_of(s@) == Some(v as nat)),
        a is None ==> http::number_of(s@) is None,
        (b matches Some(v) ==> http::signed_number_of(s@) == Some(v as int)),
        b is None ==> http::signed_number_of(s@) is None,
{
}

/// A text is escaped and a string is shown as they are to be.
pub proof fn law_text_shown(s: &str, out: String, u: String)
    requires
        call_ensures(http::jstr, (s,), out),
        call_ensures(http::url_decode, (s,), u),
    ensures
        out@ == http::json_text(s@),
        u@ == http::url_text(s@),
{
}

/// What is to be read, followed and searched for is what the query asks for.
pub proof fn law_asked(
    mem: &Memory<'_>,
    q: &Query,
    a: Result<(u64, u64), &'static str>,
    b: Result<Chain, &'static str>,
    f32_bits: Option<u32>,
    f64_bits: Option<u64>,
    c: Result<Vec<u8>, &'static str>,
    module: Option<(u64, u64)>,
    d: Result<(u64, u64, u64), &'static str>,
)
    requires
        call_ensures(http::read_window, (mem, q), a),
        call_ensures(http::start_chain, (q,), b),
        call_ensures(http::build_needle, (q, f32_bits, f64_bits), c),
        call_ensures(http::scan_bounds, (q, module), d),
    ensures
        (a matches Ok(x) ==> http::read_asked(mem@, q@) == Ok::<(nat, nat), Seq<char>>(
            (x.0 as nat, x.1 as nat),
        )),
        a is Err ==> http::read_asked(mem@, q@) is Err,
        (b matches Ok(x) ==> http::chain_asked(q@) == Ok::<(u64, Seq<u64>), Seq<char>>(
            (x.cur, x.offs@),
        )),
        b is Err ==> http::chain_asked(q@) is Err,
        (c matches Ok(x) ==> http::needle_asked(q@, f32_bits, f64_bits) == Ok::<
            Seq<u8>,
            Seq<char>,
        >(x@)),
        c is Err ==> http::needle_asked(q@, f32_bits, f64_bits) is Err,
        (d matches Ok(x) ==> http::scan_asked(q@, module) == Ok::<(nat, nat, nat), Seq<char>>(
            (x.0 as nat, x.1 as nat, x.2 as nat),
        )),
        d is Err ==> http::scan_asked(q@, module) is Err,
{
}

/// The class that is asked for is the one that comes back.
pub proof fn law_class_returned<R: ScriptRuntime>(rt: &R, q: &Query, r: Result<Class, String>)
    requires
        call_ensures(http::resolve_class::<R>, (rt, q), r),
    ensures
        (r matches Ok(c) ==> http::class_asked(rt, q@) == Ok::<Class, Seq<char>>(c)),
        (r matches Err(e) ==> http::class_asked(rt, q@) == Err::<Class, Seq<char>>(e@)),
{
}

// ── text ─────────────────────────────────────────────────────────────────────

/// What is written is put behind what was there: a number in decimal or in
/// hexadecimal, a byte, a truth value.
pub proof fn law_written(
    a: &mut String,
    b: &mut String,
    c: &mut String,
    d: &mut String,
    e: &mut String,
    n: u64,
    i: i64,
    x: u8,
    t: bool,
)
    requires
        call_ensures(text::push_decimal, (a, n), ()),
        call_ensures(text::push_signed, (b, i), ()),
        call_ensures(text::push_hex, (c, n), ()),
        call_ensures(text::push_byte, (d, x), ()),
        call_ensures(text::push_bool, (e, t), ()),
    ensures
        final(a)@ == old(a)@ + text::decimal_text(n as int),
        final(b)@ == old(b)@ + text::decimal_text(i as int),
        final(c)@ == old(c)@ + text::hex_text(n as nat),
        final(d)@ == old(d)@ + text::byte_text(x),
        final(e)@ == old(e)@ + (if t {
            "true"@
        } else {
            "false"@
        }),
{
}

/// A text begins with its head, contains its parts, and is blank where it has
/// nothing in it.
pub proof fn law_text_tests(s: &str, part: &str, a: bool, b: bool, c: bool, d: bool)
    requires
        call_ensures(text::has_text, (s, part), a),
        call_ensures(text::starts_with, (s, part), b),
        call_ensures(text::is_blank, (s,), c),
        call_ensures(text::same, (s, part), d),
    ensures
        a <==> exists|x: Seq<char>, y: Seq<char>| s@ == #[trigger] (x + part@ + y),
        b ==> a,
        b <==> part@.len() <= s@.len() && s@.take(part@.len() as int) == part@,
        c <==> s@ == Seq::<char>::empty(),
        d <==> s@ == part@,
        d ==> a && b,
{
    crate::laws::text::law_contains(s@, part@);
    if part@.len() <= s@.len() && s@.take(part@.len() as int) == part@ {
        assert(s@ =~= Seq::<char>::empty() + part@ + s@.skip(part@.len() as int));
    }
    if d {
        assert(s@.take(part@.len() as int) =~= part@);
    }
    if c {
        assert(s@ =~= Seq::<char>::empty());
    }
}

/// The pieces of a text are joined to that text again.
pub proof fn law_split_joined(s: &str, c: char, r: Vec<String>)
    requires
        call_ensures(text::split_at_char, (s, c), r),
    ensures
        text::texts(r@) == text::split(s@, c),
{
}

// ── names and places ─────────────────────────────────────────────────────────

/// The path of an assembly is in the folder of the managed ones.
pub proof fn law_assembly_path(folder: &str, name: &str, r: String)
    requires
        call_ensures(crate::mono_runtime::assembly_path, (folder, name), r),
    ensures
        r@ == folder@ + "\\"@ + name@ + ".dll"@,
{
}

/// The fields of the stamina that the session reads, in the order of the way to
/// them.
pub proof fn law_stamina_way(v: Vec<FieldSpec>)
    requires
        call_ensures(symbols::stamina_chain, (), v),
    ensures
        v@.len() == 4,
        ({
            let game = "Assembly-CSharp"@;
            &&& v@[0].class@ == (game, "EFT"@, "GameWorld"@) && v@[0].field@ == "MainPlayer"@
            &&& v@[1].class@ == (game, "EFT"@, "Player"@) && v@[1].field@ == "Physical"@
            &&& v@[2].class@ == (game, ""@, "PhysicalBase"@) && v@[2].field@ == "Stamina"@
            &&& v@[3].class@ == (game, ""@, "Stamina"@) && v@[3].field@ == "Current"@
        }),
{
}

/// The stamina that is polled is what lies at the end of the way to it.
pub proof fn law_stamina_polled(mem: &Memory<'_>, offsets: &Offsets, world: Object, r: Option<u32>)
    requires
        call_ensures(session::read_stamina, (mem, offsets, world), r),
    ensures
        (r matches Some(v) ==> session::stamina_bits(mem@, offsets@, world.0 as int) == Some(
            v as nat,
        )),
        r is None ==> session::stamina_bits(mem@, offsets@, world.0 as int) is None,
{
}

/// The methods of the driver that are tried, and the lists of players, each in
/// the order in which they are tried.
pub proof fn law_names_tried(a: Vec<&'static str>, b: Vec<&'static str>)
    requires
        call_ensures(eft::driver_methods, (), a),
        call_ensures(eft::player_list_fields, (), b),
    ensures
        a@.len() == 3 && b@.len() == 2,
        a@[0]@ == "LateUpdate"@ && a@[1]@ == "Update"@ && a@[2]@ == "DoWorldTick"@,
        b@[0]@ == "RegisteredPlayers"@ && b@[1]@ == "AllAlivePlayersList"@,
{
}

/// Where a control is drawn and where it is clicked come back from its place.
pub proof fn law_places_told(c: menu::Control, i: usize, a: LRect, b: LRect, d: LRect)
    requires
        menu::valid(c),
        i < 4,
        call_ensures(menu::place_rect, (c,), a),
        call_ensures(menu::hit_rect, (c,), b),
        call_ensures(menu::tab_rect, (i,), d),
    ensures
        a == menu::place_of(c),
        b == menu::hit_of(c),
        d == menu::place_of(menu::Control::Tab(i)),
{
}

} // verus!
