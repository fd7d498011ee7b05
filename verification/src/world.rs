//! The raid: which players there are, which of them is the local one and which
//! are bots. What it finds is published without handles, so that any thread can
//! read it.
//!
//! Positions and their projection are the engine's, and distances are floating
//! point: they are handed in as the bits of floats.

use vstd::prelude::*;

use crate::chams;
use crate::chams::{collect, length};
use crate::features;
use crate::features::{alive_here, find_offset, link, INFINITY};
use crate::memory;
use crate::memory::Memory;
use crate::runtime::{
    list_count, list_items, read_field, read_field_u8, Class, Method, Object, ScriptRuntime,
};
use crate::search;
use crate::search::keep_where;
use crate::symbols;
use crate::symbols::{eft, find_class, unity};

verus! {

/// The time between two looks, in nanoseconds.
pub const TICK_INTERVAL: u64 = 250_000_000;

pub const MAX_PLAYERS: u64 = 1024;

/// How much of a player is read.
pub const PLAYER_READ_SPAN: u64 = 0xc00;

/// Three floats, as their bits.
#[derive(Copy, Clone, PartialEq, Eq, Debug, Structural)]
pub struct Vec3 {
    pub x: u32,
    pub y: u32,
    pub z: u32,
}

/// One player.
#[derive(Copy, Clone, PartialEq, Eq, Debug, Structural)]
pub struct Entry {
    pub ptr: u64,
    pub is_local: bool,
    pub is_bot: bool,
    /// The position in the world, in metres.
    pub pos: Vec3,
    /// The position on the screen, from the bottom left; the last is the depth.
    pub screen: Vec3,
    /// In front of the camera.
    pub on_screen: bool,
    /// The distance from the local player, in metres.
    pub dist: u32,
}

/// Where things lie, and what is called.
#[derive(Copy, Clone, PartialEq, Eq, Debug, Structural)]
pub struct Cache {
    pub gw_registered_off: i32,
    pub p_is_local_off: i32,
    pub p_aidata_off: Option<i32>,
    /// Null where there is none, as the next two.
    pub m_get_position: Method,
    pub m_cam_main: Method,
    pub m_w2s: Method,
}

pub struct World {
    pub enabled: bool,
    pub last_tick: Option<u64>,
    pub entries: Vec<Entry>,
}

impl World {
    pub fn new() -> (w: Self)
        ensures
            !w.enabled,
            w.last_tick is None,
            w.entries@.len() == 0,
    {
        World { enabled: false, last_tick: None, entries: Vec::new() }
    }
}

pub fn set_enabled(w: &mut World, on: bool)
    ensures
        *final(w) == (World { enabled: on, ..*old(w) }),
{
    w.enabled = on;
}

pub fn is_enabled(w: &World) -> (r: bool)
    ensures
        r == w.enabled,
{
    w.enabled
}

/// A copy of what was published last.
pub fn snapshot(w: &World) -> (r: Vec<Entry>)
    ensures
        r@ == w.entries@,
{
    let mut r: Vec<Entry> = Vec::new();
    let mut i: usize = 0;
    while i < w.entries.len()
        invariant
            i <= w.entries@.len(),
            r@ == w.entries@.take(i as int),
        decreases w.entries@.len() - i,
    {
        r.push(w.entries[i]);
        i = i + 1;
    }
    assert(r@ =~= w.entries@);
    r
}

/// Where everything lies, where what cannot be done without is there: a list of
/// players, and the mark of the local one.
pub open spec fn cache_of<R: ScriptRuntime>(rt: &R) -> Option<Cache> {
    let player = chams::game("Player"@);
    let camera = chams::engine("Camera"@);
    match (
        symbols::class_in(rt, camera),
        chams::players_field(rt),
        features::plausible_offset(rt, player, eft::PLAYER_IS_LOCAL_FIELD@),
    ) {
        (Some(_), Some(list), Some(local)) => Some(
            Cache {
                gw_registered_off: list,
                p_is_local_off: local,
                p_aidata_off: features::plausible_offset(rt, player, eft::PLAYER_AIDATA_FIELD@),
                m_get_position: chams::or_null(
                    chams::method_in(rt, player, eft::PLAYER_GET_POSITION@, 0),
                ),
                m_cam_main: chams::or_null(
                    chams::method_in(rt, camera, unity::CAMERA_GET_MAIN@, 0),
                ),
                m_w2s: chams::or_null(
                    chams::exact_in(rt, camera, unity::CAMERA_WORLD_TO_SCREEN@, 1),
                ),
            },
        ),
        _ => None,
    }
}

pub fn resolve<R: ScriptRuntime>(rt: &R) -> (r: Option<Cache>)
    requires
        rt.ready(),
    ensures
        r == cache_of(rt),
{
    let camera: Class = match find_class(rt, unity::camera()) {
        Some(k) => k,
        None => {
            return None;
        },
    };
    let names: Vec<&'static str> = eft::player_list_fields();
    let gw_registered_off: i32 = match find_offset(rt, eft::game_world(), names[0]) {
        Some(o) => o,
        None => match find_offset(rt, eft::game_world(), names[1]) {
            Some(o) => o,
            None => {
                return None;
            },
        },
    };
    let p_is_local_off: i32 = match find_offset(rt, eft::player(), eft::PLAYER_IS_LOCAL_FIELD) {
        Some(o) => o,
        None => {
            return None;
        },
    };
    let m_get_position: Method = match find_class(rt, eft::player()) {
        Some(k) => match rt.method(k, eft::PLAYER_GET_POSITION, 0) {
            Some(m) => m,
            None => Method(0),
        },
        None => Method(0),
    };
    let m_cam_main: Method = match rt.method(camera, unity::CAMERA_GET_MAIN, 0) {
        Some(m) => m,
        None => Method(0),
    };
    let m_w2s: Method = match rt.method_exact(camera, unity::CAMERA_WORLD_TO_SCREEN, 1) {
        Some(m) => m,
        None => Method(0),
    };
    Some(
        Cache {
            gw_registered_off,
            p_is_local_off,
            p_aidata_off: find_offset(rt, eft::player(), eft::PLAYER_AIDATA_FIELD),
            m_get_position,
            m_cam_main,
            m_w2s,
        },
    )
}

/// A look is due.
pub open spec fn due(last: Option<u64>, now: u64) -> bool {
    match last {
        Some(t) => now - t >= TICK_INTERVAL,
        None => true,
    }
}

/// The start of every frame: whether this one takes a look. `resolved` says
/// whether everything was found.
pub fn tick(w: &mut World, resolved: bool, now: u64) -> (r: bool)
    ensures
        r == (old(w).enabled && resolved && due(old(w).last_tick, now)),
        r ==> *final(w) == (World { last_tick: Some(now), ..*old(w) }),
        !r ==> *final(w) == *old(w),
{
    if !w.enabled || !resolved {
        return false;
    }
    match w.last_tick {
        Some(t) => if now < t || now - t < TICK_INTERVAL {
            return false;
        },
        None => {},
    }
    w.last_tick = Some(now);
    true
}

/// A player that can be read and has its native half.
pub open spec fn readable_player(m: Map<int, u8>) -> spec_fn(u64) -> bool {
    |p: u64|
        p != 0 && memory::has(m, p as int, PLAYER_READ_SPAN as int) && features::alive(m, p as int)
}

/// The players in the world's list; none at all where the world, or a plausible
/// list, is not there.
pub open spec fn raid_players(m: Map<int, u8>, off: i32, world: int) -> Option<Seq<u64>> {
    if !features::alive(m, world) {
        None
    } else {
        match memory::ptr_val(m, world + off) {
            Some(list) => match memory::ptr_val(m, list as int + 0x10) {
                Some(items) => {
                    let n = chams::list_len(m, list as int);
                    let len = chams::length_of(m, items as int);
                    if 0 < n <= MAX_PLAYERS {
                        Some(
                            chams::elements(
                                m,
                                items as int,
                                if n < len {
                                    n as nat
                                } else {
                                    len
                                },
                            ).filter(readable_player(m)),
                        )
                    } else {
                        None
                    }
                },
                None => None,
            },
            None => None,
        }
    }
}

pub fn players(mem: &Memory, off: i32, world: Object) -> (r: Option<Vec<u64>>)
    requires
        mem.wf(),
    ensures
        r matches Some(v) ==> raid_players(mem@, off, world.0 as int) == Some(v@),
        r is None ==> raid_players(mem@, off, world.0 as int) is None,
{
    if !alive_here(mem, world) {
        return None;
    }
    let list: Object = match link(mem, world, off) {
        Some(o) => o,
        None => {
            return None;
        },
    };
    let items: Object = match list_items(mem, list) {
        Some(o) => o,
        None => {
            return None;
        },
    };
    let n: u64 = match list_count(mem, list) {
        Some(n) => n,
        None => 0,
    };
    if items.is_null() || n == 0 || n > MAX_PLAYERS {
        return None;
    }
    let len: u64 = length(mem, items);
    let all: Vec<u64> = collect(
        mem,
        items,
        if n < len {
            n
        } else {
            len
        },
    );
    let ghost p = readable_player(mem@);
    let f = |x: u64| -> (b: bool)
        requires
            mem.wf(),
        ensures
            b == p(x),
        { x != 0 && mem.readable(x, PLAYER_READ_SPAN) && alive_here(mem, Object(x)) };
    let r = keep_where(&all, all.len(), f, Ghost(p));
    assert(all@.take(all@.len() as int) =~= all@);
    Some(r)
}

/// The mark of the local player.
pub open spec fn local_mark(m: Map<int, u8>, c: Cache) -> spec_fn(u64) -> bool {
    |p: u64| memory::val(m, p + c.p_is_local_off, 1) matches Some(v) && v != 0
}

/// Not the local player, and with the data of a bot.
pub open spec fn bot_mark(m: Map<int, u8>, c: Cache, p: u64) -> bool {
    &&& !local_mark(m, c)(p)
    &&& c.p_aidata_off matches Some(off)
    &&& memory::ptr_val(m, p + off) is Some
}

pub fn is_local(mem: &Memory, c: &Cache, p: u64) -> (r: bool)
    requires
        mem.wf(),
    ensures
        r == local_mark(mem@, *c)(p),
{
    match read_field_u8(mem, Object(p), c.p_is_local_off) {
        Some(v) => v != 0,
        None => false,
    }
}

pub fn is_bot(mem: &Memory, c: &Cache, p: u64) -> (r: bool)
    requires
        mem.wf(),
    ensures
        r == bot_mark(mem@, *c, p),
{
    if is_local(mem, c, p) {
        return false;
    }
    match c.p_aidata_off {
        Some(off) => match read_field(mem, Object(p), off) {
            Some(v) => v != 0,
            None => false,
        },
        None => false,
    }
}

/// The local player, the first that is marked as such.
pub fn find_local(mem: &Memory, c: &Cache, ps: &Vec<u64>) -> (r: Option<u64>)
    requires
        mem.wf(),
    ensures
        r == search::first_in(ps@, local_mark(mem@, *c)),
{
    let ghost p = local_mark(mem@, *c);
    let f = |x: u64| -> (b: bool)
        requires
            mem.wf(),
        ensures
            b == p(x),
        { is_local(mem, c, x) };
    search::find_where(ps, f, Ghost(p))
}

/// Nobody is both.
pub proof fn law_local_is_no_bot(m: Map<int, u8>, c: Cache, p: u64)
    ensures
        !(local_mark(m, c)(p) && bot_mark(m, c, p)),
{
}

/// What the engine said of a player, and how far away the player is.
#[derive(Copy, Clone, PartialEq, Eq, Debug, Structural)]
pub struct Sight {
    pub pos: Vec3,
    pub screen: Vec3,
    pub dist: u32,
}

/// A number above 0, infinity included.
pub open spec fn above_zero(bits: u32) -> bool {
    0 < bits <= INFINITY
}

/// What a player is listed as. The distance is 0 where no local player is
/// `known`.
pub open spec fn entry_of(m: Map<int, u8>, c: Cache, p: u64, s: Sight, known: bool) -> Entry {
    Entry {
        ptr: p,
        is_local: local_mark(m, c)(p),
        is_bot: bot_mark(m, c, p),
        pos: s.pos,
        screen: s.screen,
        on_screen: above_zero(s.screen.z),
        dist: if known {
            s.dist
        } else {
            0
        },
    }
}

/// The entries of the players, in their order.
pub open spec fn entries_of(m: Map<int, u8>, c: Cache, ps: Seq<u64>, sights: Seq<Sight>) -> Seq<
    Entry,
> {
    let known = search::first_in(ps, local_mark(m, c)) is Some;
    Seq::new(ps.len(), |i: int| entry_of(m, c, ps[i], sights[i], known))
}

/// The entries of the players, in their order.
pub fn classify(mem: &Memory, c: &Cache, ps: &Vec<u64>, sights: &Vec<Sight>) -> (out: Vec<Entry>)
    requires
        mem.wf(),
        sights.len() == ps.len(),
    ensures
        out@ == entries_of(mem@, *c, ps@, sights@),
{
    let known: bool = find_local(mem, c, ps).is_some();
    let mut out: Vec<Entry> = Vec::new();
    let mut i: usize = 0;
    while i < ps.len()
        invariant
            mem.wf(),
            i <= ps.len(),
            sights.len() == ps.len(),
            known == (search::first_in(ps@, local_mark(mem@, *c)) is Some),
            out@.len() == i,
            forall|j: int|
                0 <= j < i ==> #[trigger] out@[j] == entry_of(
                    mem@,
                    *c,
                    ps@[j],
                    sights@[j],
                    known,
                ),
        decreases ps.len() - i,
    {
        let s = sights[i];
        out.push(
            Entry {
                ptr: ps[i],
                is_local: is_local(mem, c, ps[i]),
                is_bot: is_bot(mem, c, ps[i]),
                pos: s.pos,
                screen: s.screen,
                on_screen: 0 < s.screen.z && s.screen.z <= INFINITY,
                dist: if known {
                    s.dist
                } else {
                    0
                },
            },
        );
        i = i + 1;
    }
    assert(out@ =~= entries_of(mem@, *c, ps@, sights@));
    out
}

/// What a look publishes: the entries of the players, and nothing where there is
/// no list of them.
pub open spec fn looked(
    m: Map<int, u8>,
    c: Cache,
    ps: Option<Seq<u64>>,
    sights: Seq<Sight>,
) -> Seq<Entry> {
    match ps {
        Some(ps) => entries_of(m, c, ps, sights),
        None => Seq::empty(),
    }
}

/// The end of a look: publishes what was seen of the players.
pub fn look(w: &mut World, mem: &Memory, c: &Cache, ps: Option<Vec<u64>>, sights: &Vec<Sight>)
    requires
        mem.wf(),
        ps matches Some(v) ==> sights.len() == v.len(),
    ensures
        *final(w) == (World { entries: final(w).entries, ..*old(w) }),
        final(w).entries@ == looked(
            mem@,
            *c,
            match ps {
                Some(v) => Some(v@),
                None => None,
            },
            sights@,
        ),
{
    match ps {
        Some(v) => {
            let entries = classify(mem, c, &v, sights);
            publish(w, entries);
        },
        None => {
            publish(w, Vec::new());
        },
    }
}

/// A look publishes one entry for each player in the world's list, in the order
/// of the list: none without an address, none that is both local and a
/// bot, on the screen exactly where its depth is above 0, and all at distance 0
/// where none is the local one. Without a list it publishes nothing.
pub proof fn law_look(m: Map<int, u8>, c: Cache, world: int, sights: Seq<Sight>, i: int)
    ensures
        raid_players(m, c.gw_registered_off, world) is None ==> looked(
            m,
            c,
            raid_players(m, c.gw_registered_off, world),
            sights,
        ).len() == 0,
        raid_players(m, c.gw_registered_off, world) matches Some(ps) ==> {
            let entries = looked(m, c, Some(ps), sights);
            &&& entries.len() == ps.len()
            &&& 0 <= i < entries.len() ==> {
                &&& entries[i].ptr == ps[i]
                &&& entries[i].ptr != 0
                &&& !(entries[i].is_local && entries[i].is_bot)
                &&& entries[i].on_screen == above_zero(entries[i].screen.z)
                &&& search::first_in(ps, local_mark(m, c)) is None ==> entries[i].dist == 0
            }
        },
{
    broadcast use vstd::seq_lib::group_filter_ensures;

    if let Some(ps) = raid_players(m, c.gw_registered_off, world) {
        if 0 <= i < ps.len() {
            assert(readable_player(m)(ps[i]));
        }
    }
}

/// Publishes what was found.
pub fn publish(w: &mut World, entries: Vec<Entry>)
    ensures
        *final(w) == (World { entries, ..*old(w) }),
{
    w.entries = entries;
}

} // verus!
