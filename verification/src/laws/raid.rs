//! The laws of the raid snapshot.

use vstd::prelude::*;

use crate::laws::arrays;
use crate::laws::features as toggles;
use crate::memory;
use crate::runtime::{Method, ScriptRuntime};
use crate::search;
use crate::world;
use crate::world::{Cache, Sight};

verus! {

/// One entry of a look says of a player what was read and seen of it: its
/// address; where it is in the world and on the screen, each from its own
/// sighting; that it is in front of the camera exactly where its depth is above
/// 0; how far away it is, where a local player is among them; whether the byte
/// that marks the local player is set; and whether it is another one with the
/// data of a bot.
pub proof fn law_entry(m: Map<int, u8>, c: Cache, ps: Seq<u64>, sights: Seq<Sight>, i: int)
    requires
        0 <= i < ps.len(),
    ensures
        ({
            let e = world::entries_of(m, c, ps, sights)[i];
            let marked = |p: u64|
                memory::val(m, p + c.p_is_local_off, 1) matches Some(v) && v != 0;
            &&& world::entries_of(m, c, ps, sights).len() == ps.len()
            &&& e.ptr == ps[i]
            &&& e.pos == sights[i].pos
            &&& e.screen == sights[i].screen
            &&& e.on_screen <==> 1 <= sights[i].screen.z <= 0x7f80_0000
            &&& e.is_local <==> marked(ps[i])
            &&& e.is_bot <==> !marked(ps[i]) && (c.p_aidata_off matches Some(off) && memory::val(
                m,
                ps[i] + off,
                8,
            ) matches Some(v) && v != 0)
            &&& (exists|j: int| 0 <= j < ps.len() && marked(#[trigger] ps[j])) ==> e.dist
                == sights[i].dist
            &&& (forall|j: int| 0 <= j < ps.len() ==> !marked(#[trigger] ps[j])) ==> e.dist == 0
        }),
{
    let p = world::local_mark(m, c);
    search::law_first_in(ps, p);
}

/// The players of a raid are those that the world's list refers to, in the order
/// of the list, of which enough can be read and which have their native half:
/// every such one, and no other. They are known where the world lives and the
/// list has from 1 to 1024 entries.
pub proof fn law_raid_players(
    m: Map<int, u8>,
    off: i32,
    world: int,
    list: nat,
    items: nat,
    n: int,
    len: nat,
    k: nat,
)
    requires
        world != 0,
        memory::val(m, world + 0x10, 8) matches Some(v) && v != 0,
        memory::val(m, world + off, 8) == Some(list),
        list != 0,
        memory::val(m, list + 0x10int, 8) == Some(items),
        items != 0,
        memory::int_val(m, list + 0x18int) == Some(n),
        memory::val(m, items + 0x18int, 8) == Some(len),
        k == if n < len {
            n
        } else {
            len as int
        },
    ensures
        1 <= n <= 1024 ==> world::raid_players(m, off, world) == Some(
            arrays::slots(m, items as int, k).filter(|p: u64| p != 0).filter(
                |p: u64|
                    memory::has(m, p as int, 0xc00) && (memory::val(m, p + 0x10, 8) matches Some(
                        v,
                    ) && v != 0),
            ),
        ),
        !(1 <= n <= 1024) ==> world::raid_players(m, off, world) is None,
{
    broadcast use vstd::seq_lib::group_filter_ensures;

    if 1 <= n <= 1024 {
        arrays::law_elements(m, items as int, k);
        let f = |p: u64| p != 0;
        let g = |p: u64|
            memory::has(m, p as int, 0xc00) && (memory::val(m, p + 0x10, 8) matches Some(v) && v
                != 0);
        let s = arrays::slots(m, items as int, k).filter(f);
        lemma_filter_same(s, world::readable_player(m), g);
    }
}

/// Two tests that agree on the entries of a list keep the same of it.
pub proof fn lemma_filter_same(s: Seq<u64>, f: spec_fn(u64) -> bool, g: spec_fn(u64) -> bool)
    requires
        forall|i: int| 0 <= i < s.len() ==> f(#[trigger] s[i]) == g(s[i]),
    ensures
        s.filter(f) == s.filter(g),
    decreases s.len(),
{
    reveal(Seq::filter);
    if s.len() > 0 {
        assert(forall|i: int| 0 <= i < s.len() - 1 ==> #[trigger] s.drop_last()[i] == s[i]);
        lemma_filter_same(s.drop_last(), f, g);
    }
}

/// Without a living world, or a list in it, there are no players.
pub proof fn law_no_list(m: Map<int, u8>, off: i32, world: int)
    ensures
        !(world != 0 && (memory::val(m, world + 0x10, 8) matches Some(v) && v != 0))
            ==> world::raid_players(m, off, world) is None,
        !(memory::val(m, world + off, 8) matches Some(v) && v != 0) ==> world::raid_players(
            m,
            off,
            world,
        ) is None,
{
}

/// A method of a class of the engine or the game, under its name: its own one
/// with that many arguments, or one that it has or inherits.
pub open spec fn named_method<R: ScriptRuntime>(
    rt: &R,
    c: (Seq<char>, Seq<char>, Seq<char>),
    name: Seq<char>,
    argc: int,
    own: bool,
) -> Option<Method> {
    match rt.image_of(c.0) {
        Some(image) => match rt.class_of(image, c.1, c.2) {
            Some(k) => if own {
                rt.exact_of(k, name, argc as nat)
            } else {
                rt.method_of(k, name, argc)
            },
            None => None,
        },
        None => None,
    }
}

pub open spec fn method_or_null(m: Option<Method>) -> Method {
    match m {
        Some(m) => m,
        None => Method(0),
    }
}

/// What the raid needs is found by name: the list of players that the world
/// registers, or else that of those alive; the marks of the local player and of
/// a bot; and what asks for a position, for the camera and for a point on the
/// screen. Without a list, the mark of the local player or the camera there is
/// nothing.
pub proof fn law_raid_names<R: ScriptRuntime>(rt: &R, c: Cache)
    ensures
        ({
            let camera = ("UnityEngine.CoreModule"@, "UnityEngine"@, "Camera"@);
            let player = ("Assembly-CSharp"@, "EFT"@, "Player"@);
            let registered = |o: i32|
                toggles::lies_at(rt, "EFT"@, "GameWorld"@, "RegisteredPlayers"@, o);
            let living = |o: i32|
                toggles::lies_at(rt, "EFT"@, "GameWorld"@, "AllAlivePlayersList"@, o);
            let bot = |o: i32|
                toggles::lies_at(rt, "EFT"@, "Player"@, "<AIData>k__BackingField"@, o);
            world::cache_of(rt) == Some(c) <==> {
                &&& rt.image_of(camera.0) matches Some(i) && rt.class_of(i, camera.1, camera.2) is Some
                &&& registered(c.gw_registered_off) || (living(c.gw_registered_off) && forall|o: i32|
                    !#[trigger] registered(o))
                &&& toggles::lies_at(
                    rt,
                    "EFT"@,
                    "Player"@,
                    "<IsYourPlayer>k__BackingField"@,
                    c.p_is_local_off,
                )
                &&& c.p_aidata_off matches Some(o) ==> bot(o)
                &&& c.p_aidata_off is None ==> forall|o: i32| !#[trigger] bot(o)
                &&& c.m_get_position == method_or_null(
                    named_method(rt, player, "get_Position"@, 0, false),
                )
                &&& c.m_cam_main == method_or_null(named_method(rt, camera, "get_main"@, 0, false))
                &&& c.m_w2s == method_or_null(
                    named_method(rt, camera, "WorldToScreenPoint"@, 1, true),
                )
            }
        }),
{
    let camera = ("UnityEngine.CoreModule"@, "UnityEngine"@, "Camera"@);
    let registered = |o: i32| toggles::lies_at(rt, "EFT"@, "GameWorld"@, "RegisteredPlayers"@, o);
    let bot = |o: i32| toggles::lies_at(rt, "EFT"@, "Player"@, "<AIData>k__BackingField"@, o);
    let game = ("Assembly-CSharp"@, "EFT"@, "GameWorld"@);
    let player = ("Assembly-CSharp"@, "EFT"@, "Player"@);
    if let Some(o) = crate::features::plausible_offset(rt, game, "RegisteredPlayers"@) {
        assert(registered(o));
    }
    if let Some(o) = crate::features::plausible_offset(rt, player, "<AIData>k__BackingField"@) {
        assert(bot(o));
    }
}

/// A look is taken every quarter of a second, and at once where none was taken.
pub proof fn law_look_due(last: u64, now: u64)
    ensures
        world::due(None, now),
        world::due(Some(last), now) <==> now >= last + 250_000_000,
{
}

} // verus!
