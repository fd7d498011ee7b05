//! The laws of loading, unloading and everything around it.

use vstd::prelude::*;

use crate::console;
use crate::crash;
use crate::crash::{Crash, Fault, ModuleRange};
use crate::hooks;
use crate::input;
use crate::input::WindowInfo;
use crate::laws::raid::named_method;
use crate::memory;
use crate::mono;
use crate::mono::MethodInfo;
use crate::runtime::ScriptRuntime;
use crate::session;
use crate::session::{Event, Stage, Supervisor};
use crate::text;

verus! {

// ── unloading ────────────────────────────────────────────────────────────────

/// Watching: a request, by the key or by the driver, starts the unloading once;
/// it goes on at once where the driver answered, and otherwise when three
/// seconds have passed since. The worker then has five seconds.
pub proof fn law_watch(s: Supervisor, end_key: bool, acked: bool, now: u64)
    requires
        s.stage is Watch,
        now <= 18_446_744_068_709_551_615u64,
    ensures
        ({
            let (n, t) = session::next_state(s, Event::Poll { end_key, acked }, now);
            let asked = end_key || acked;
            let late = s.deadline matches Some(d) && now >= d;
            &&& s.deadline is None && asked ==> n.deadline == Some((now + 3_000_000_000) as u64)
            &&& !(s.deadline is None && asked) ==> n.deadline == s.deadline
            &&& acked || late ==> n.stage == Stage::WorkerWait((now + 5_000_000_000) as u64)
            &&& !(acked || late) ==> n.stage is Watch
            &&& t is Begin <==> s.deadline is None && end_key && !acked
            &&& t is BeginAndAwaitWorker <==> s.deadline is None && acked
            &&& t is AwaitWorker <==> s.deadline is Some && (acked || late)
            &&& t is Wait <==> !(acked || late) && (s.deadline is Some || !asked)
        }),
{
}

/// Waiting for the worker: when it is finished the hook is taken out; when its
/// time is over it is watched again, with three more seconds for an answer.
pub proof fn law_worker_wait(until: u64, deadline: Option<u64>, finished: bool, now: u64)
    requires
        now <= 18_446_744_068_709_551_615u64,
    ensures
        ({
            let s = Supervisor { stage: Stage::WorkerWait(until), deadline };
            let (n, t) = session::next_state(s, Event::Worker { finished }, now);
            &&& finished ==> n.stage is HookShutdown && n.deadline == deadline && t is ShutHooks
            &&& !finished && now >= until ==> n.stage is Watch && n.deadline == Some(
                (now + 3_000_000_000) as u64,
            ) && t is RetryWorker
            &&& !finished && now < until ==> n == s && t is AwaitWorker
        }),
{
}

/// Taking the hook out: where that is safe the code is freed, and otherwise it
/// is all watched again as if nothing had been asked.
pub proof fn law_hook_shutdown(deadline: Option<u64>, safe: bool, now: u64)
    ensures
        ({
            let s = Supervisor { stage: Stage::HookShutdown, deadline };
            let (n, t) = session::next_state(s, Event::Hooks { safe }, now);
            &&& safe ==> n.stage is Free && t is Free
            &&& !safe ==> n == (Supervisor { stage: Stage::Watch, deadline: None })
                && t is RetryHooks
        }),
{
}

/// The code is freed at no other point, whatever happens in whatever stage.
pub proof fn law_freed_only_there(s: Supervisor, e: Event, now: u64)
    ensures
        session::next_state(s, e, now).1 is Free <==> s.stage is Free || (s.stage is HookShutdown
            && e == (Event::Hooks { safe: true })),
        session::next_state(s, e, now).0.stage is Free <==> session::next_state(s, e, now).1 is Free,
        session::next_state(s, e, now).1 is ShutHooks <==> s.stage is WorkerWait && e == (
        Event::Worker { finished: true }),
{
}

/// The stamina that is polled is the four bytes of the field `Current`, along
/// the way from a living world over its player.
pub proof fn law_polled_stamina(
    m: Map<int, u8>,
    offsets: Map<Seq<char>, i32>,
    world: int,
    player: nat,
    physical: nat,
    stamina: nat,
)
    requires
        world != 0,
        memory::val(m, world + 0x10, 8) matches Some(v) && v != 0,
        offsets.contains_key("GameWorld.MainPlayer"@),
        memory::val(m, world + offsets["GameWorld.MainPlayer"@], 8) == Some(player),
        player != 0,
        offsets.contains_key("Player.Physical"@),
        memory::val(m, player + offsets["Player.Physical"@], 8) == Some(physical),
        physical != 0,
        offsets.contains_key("PhysicalBase.Stamina"@),
        memory::val(m, physical + offsets["PhysicalBase.Stamina"@], 8) == Some(stamina),
        stamina != 0,
    ensures
        offsets.contains_key("Stamina.Current"@) ==> session::stamina_bits(m, offsets, world)
            == memory::val(m, stamina + offsets["Stamina.Current"@], 4),
        !offsets.contains_key("Stamina.Current"@) ==> session::stamina_bits(m, offsets, world) is None,
{
}

/// Without a living world, or a player in it, no stamina is read.
pub proof fn law_no_stamina(m: Map<int, u8>, offsets: Map<Seq<char>, i32>, world: int)
    ensures
        world == 0 || !(memory::val(m, world + 0x10, 8) matches Some(v) && v != 0)
            ==> session::stamina_bits(m, offsets, world) is None,
        !offsets.contains_key("GameWorld.MainPlayer"@) ==> session::stamina_bits(m, offsets, world) is None,
        offsets.contains_key("GameWorld.MainPlayer"@) && memory::val(
            m,
            world + offsets["GameWorld.MainPlayer"@],
            8,
        ) == Some(0nat) ==> session::stamina_bits(m, offsets, world) is None,
{
}

/// Two floats are the same reading where their bits are and they are numbers, or
/// where both are zero, whatever its sign.
pub proof fn law_same_reading(a: u32, b: u32)
    ensures
        session::float_eq(a, b) == session::float_eq(b, a),
        a <= 0x7f80_0000 ==> session::float_eq(a, a),
        0x7f80_0000 < a < 0x8000_0000 ==> !session::float_eq(a, b),
        0xff80_0000 < a ==> !session::float_eq(a, b),
        session::float_eq(a, b) && a != b ==> (a == 0 || a == 0x8000_0000) && (b == 0 || b
            == 0x8000_0000),
        session::float_eq(0, 0x8000_0000),
{
}

// ── the driver ───────────────────────────────────────────────────────────────

/// The driver goes onto the first of these methods of the world, in this order,
/// that has code of its own: `LateUpdate`, `Update`, `DoWorldTick`.
pub proof fn law_driver_targets<R: ScriptRuntime>(rt: &R)
    ensures
        ({
            let world = ("Assembly-CSharp"@, "EFT"@, "GameWorld"@);
            let code = |name: Seq<char>|
                match named_method(rt, world, name, 0, true) {
                    Some(m) => rt.native_of(m),
                    None => None,
                };
            let targets = hooks::driver_targets(rt);
            let (a, b, c) = (code("LateUpdate"@), code("Update"@), code("DoWorldTick"@));
            &&& targets.len() == (if a is Some {
                1int
            } else {
                0
            }) + (if b is Some {
                1int
            } else {
                0
            }) + (if c is Some {
                1int
            } else {
                0
            })
            &&& a is Some ==> targets[0] == ("LateUpdate"@, a->0)
            &&& a is None && b is Some ==> targets[0] == ("Update"@, b->0)
            &&& a is Some && b is Some ==> targets[1] == ("Update"@, b->0)
            &&& c is Some ==> targets.last() == ("DoWorldTick"@, c->0)
        }),
{
}

// ── faults ───────────────────────────────────────────────────────────────────

/// The phases of the unloading, by number and by name.
pub proof fn law_phases(p: usize)
    ensures
        p < 7 ==> crash::phase_text(p) == seq![
            "idle"@,
            "unload-begin"@,
            "chams-restore"@,
            "menu-teardown"@,
            "worker-wait"@,
            "hook-shutdown"@,
            "free-library"@,
        ][p as int],
        p >= 7 ==> crash::phase_text(p) == "idle"@,
{
}

/// The place of an address is the first module that it lies in, with how far
/// into it; outside of all of them it is elsewhere.
pub proof fn law_place(a: u64, ms: Seq<ModuleRange>, k: int)
    requires
        a != 0,
    ensures
        0 <= k < ms.len() && ms[k].start <= a < ms[k].end && (forall|j: int|
            0 <= j < k ==> !((#[trigger] ms[j]).start <= a < ms[j].end)) ==> crash::place_text(a, ms)
            == ms[k].name@ + "+"@ + text::hex_text((a - ms[k].start) as nat),
        (forall|j: int| 0 <= j < ms.len() ==> !((#[trigger] ms[j]).start <= a < ms[j].end))
            ==> crash::place_text(a, ms) == "other"@,
        crash::place_text(0, ms) == "null"@,
    decreases ms.len(),
{
    if ms.len() > 0 && !(ms[0].start <= a < ms[0].end) {
        let r = ms.skip(1);
        law_place(a, r, k - 1);
        assert(forall|j: int| 0 <= j < r.len() ==> #[trigger] r[j] == ms[j + 1]);
        if 0 < k < ms.len() && (forall|j: int|
            0 <= j < k ==> !((#[trigger] ms[j]).start <= a < ms[j].end)) {
            assert forall|j: int| 0 <= j < k - 1 implies !((#[trigger] r[j]).start <= a < r[j].end) by {
                assert(!(ms[j + 1].start <= a < ms[j + 1].end));
            }
            assert(r[k - 1] == ms[k]);
        }
        if forall|j: int| 0 <= j < ms.len() ==> !((#[trigger] ms[j]).start <= a < ms[j].end) {
            assert forall|j: int| 0 <= j < r.len() implies !((#[trigger] r[j]).start <= a < r[j].end) by {
                assert(!(ms[j + 1].start <= a < ms[j + 1].end));
            }
        }
    } else if ms.len() > 0 && 0 < k < ms.len() {
        assert(ms[0].start <= a < ms[0].end);
    }
}

/// A fault is reported where the unloading has begun and memory was accessed
/// that must not be: in which phase, what was done, to which address and from
/// where, each with its place. Nothing else is reported.
pub proof fn law_report(c: Crash, f: Fault, ms: Seq<ModuleRange>)
    ensures
        ({
            let lines = crash::report(c, f, ms);
            let target = if f.detailed {
                f.target
            } else {
                0
            };
            let what = if !f.detailed {
                "?"@
            } else if f.op == 0 {
                "read"@
            } else if f.op == 1 {
                "write"@
            } else if f.op == 8 {
                "exec"@
            } else {
                "?"@
            };
            &&& !(c.armed && f.code == 0xC000_0005) ==> lines.len() == 0
            &&& c.armed && f.code == 0xC000_0005 ==> {
                &&& lines.len() == 3
                &&& lines[0] == "[crash] ACCESS_VIOLATION during "@ + crash::phase_text(c.phase)
                    + ": "@ + what + " "@ + text::hex_text(target as nat)
                &&& lines[1] == "[crash]   ip "@ + text::hex_text(f.ip as nat) + " in "@
                    + crash::place_text(f.ip, ms)
                &&& lines[2] == "[crash]   target "@ + text::hex_text(target as nat) + " in "@
                    + crash::place_text(target, ms)
            }
        }),
{
}

// ── the pointer and the window ───────────────────────────────────────────────

/// A movement takes the pointer as far as it says, and no further than the edge
/// of the screen on either side.
pub proof fn law_pointer_moves(at: i32, d: i32, size: i32)
    requires
        size >= 1,
    ensures
        0 <= at + d < size ==> input::moved(at, d, size) == at + d,
        at + d < 0 ==> input::moved(at, d, size) == 0,
        at + d >= size ==> input::moved(at, d, size) == size - 1,
{
}

/// The messages of a mouse: its movement, its buttons going down and up, twice
/// and once, and its two wheels.
pub proof fn law_mouse_messages(msg: u32)
    ensures
        input::mouse_msg(msg) <==> {
            ||| msg == 0x0200
            ||| msg == 0x0201 || msg == 0x0202 || msg == 0x0203
            ||| msg == 0x0204 || msg == 0x0205 || msg == 0x0206
            ||| msg == 0x0207 || msg == 0x0208 || msg == 0x0209
            ||| msg == 0x020a
            ||| msg == 0x020b || msg == 0x020c
            ||| msg == 0x020e
        },
{
}

/// The game's window is the first of the largest that belong to the process, can
/// be seen and have known edges.
pub proof fn law_game_window(ws: Seq<WindowInfo>, pid: u32, k: int)
    requires
        0 <= k < ws.len(),
        ws[k].pid == pid && ws[k].visible && ws[k].known,
        (ws[k].right - ws[k].left) * (ws[k].bottom - ws[k].top) > 0,
        forall|j: int|
            0 <= j < ws.len() && (#[trigger] ws[j]).pid == pid && ws[j].visible && ws[j].known ==> {
                let a = (ws[j].right - ws[j].left) * (ws[j].bottom - ws[j].top);
                let b = (ws[k].right - ws[k].left) * (ws[k].bottom - ws[k].top);
                a <= b && (j < k ==> a < b)
            },
    ensures
        input::largest(ws, pid) == (
            (ws[k].right - ws[k].left) * (ws[k].bottom - ws[k].top),
            ws[k].hwnd,
        ),
    decreases ws.len(),
{
    let d = ws.drop_last();
    let n = ws.len() - 1;
    let b = (ws[k].right - ws[k].left) * (ws[k].bottom - ws[k].top);
    assert(forall|j: int| 0 <= j < d.len() ==> #[trigger] d[j] == ws[j]);
    if k < n {
        law_game_window(d, pid, k);
        assert(ws[n] == ws.last());
    } else {
        assert(ws.last() == ws[k]);
        lemma_smaller(d, pid, b);
    }
}

proof fn lemma_smaller(ws: Seq<WindowInfo>, pid: u32, b: int)
    requires
        b > 0,
        forall|j: int|
            0 <= j < ws.len() && (#[trigger] ws[j]).pid == pid && ws[j].visible && ws[j].known ==> (
            ws[j].right - ws[j].left) * (ws[j].bottom - ws[j].top) < b,
    ensures
        input::largest(ws, pid).0 < b,
    decreases ws.len(),
{
    if ws.len() > 0 {
        assert(forall|j: int| 0 <= j < ws.len() - 1 ==> #[trigger] ws.drop_last()[j] == ws[j]);
        lemma_smaller(ws.drop_last(), pid, b);
        assert(ws[ws.len() - 1] == ws.last());
    }
}

// ── the console ──────────────────────────────────────────────────────────────

/// The last lines are those at the end, in their order: all of them where there
/// are no more than asked for.
pub proof fn law_tail(a: Seq<Seq<char>>, b: Seq<Seq<char>>, n: nat)
    ensures
        b.len() == n ==> console::tail(a + b, n) == b,
        b.len() <= n ==> console::tail(b, n) == b,
{
    if b.len() == n {
        assert((a + b).skip((a + b).len() - n) =~= b);
        if a.len() == 0 {
            assert(a + b =~= b);
        }
    }
}

/// Of all the lines ever pushed, in their order, the console keeps the last 64.
pub open spec fn pushed(lines: Seq<Seq<char>>) -> Seq<Seq<char>>
    decreases lines.len(),
{
    if lines.len() == 0 {
        Seq::empty()
    } else {
        console::tail(pushed(lines.drop_last()).push(lines.last()), console::MAX_LINES as nat)
    }
}

pub proof fn law_console_keeps(lines: Seq<Seq<char>>)
    ensures
        lines.len() <= 64 ==> pushed(lines) == lines,
        lines.len() > 64 ==> pushed(lines) == lines.skip(lines.len() - 64),
    decreases lines.len(),
{
    if lines.len() > 0 {
        law_console_keeps(lines.drop_last());
        if lines.len() <= 64 {
            assert(pushed(lines) =~= lines);
        } else {
            assert(pushed(lines) =~= lines.skip(lines.len() - 64));
        }
    }
}

// ── the other backend ────────────────────────────────────────────────────────

/// Of a class's methods the first is taken that has the name, that number of
/// parameters, and no type parameter.
pub proof fn law_first_exact(ms: Seq<MethodInfo>, name: Seq<char>, n: u32, i: nat, k: int)
    requires
        i <= k < ms.len(),
        ms[k].name@ == name,
        !ms[k].generic,
        ms[k].params == Some(n),
        forall|j: int|
            i <= j < k ==> !((#[trigger] ms[j]).name@ == name && !ms[j].generic && ms[j].params
                == Some(n)),
    ensures
        mono::exact_from(ms, name, n, i) == Some(ms[k].method),
    decreases k - i,
{
    if i < k {
        assert(!(ms[i as int].name@ == name && !ms[i as int].generic && ms[i as int].params == Some(
            n,
        )));
        law_first_exact(ms, name, n, i + 1, k);
    }
}

pub proof fn law_no_exact(ms: Seq<MethodInfo>, name: Seq<char>, n: u32, i: nat)
    requires
        forall|j: int|
            i <= j < ms.len() ==> !((#[trigger] ms[j]).name@ == name && !ms[j].generic
                && ms[j].params == Some(n)),
    ensures
        mono::exact_from(ms, name, n, i) is None,
    decreases ms.len() - i,
{
    if i < ms.len() {
        assert(!(ms[i as int].name@ == name && !ms[i as int].generic && ms[i as int].params == Some(
            n,
        )));
        law_no_exact(ms, name, n, i + 1);
    }
}

} // verus!
