//! The life of the trainer: the worker's poll, and the handshake that unloads
//! it.
//!
//! Unloading happens in steps, and skipping one would crash the game: the worker
//! unwinds and the overlay is taken down, the hook is taken out and drained, and
//! only then is the code freed.

use vstd::prelude::*;

use crate::features;
use crate::features::{alive_here, is_nan, link};
use crate::memory;
use crate::memory::Memory;
use crate::runtime::{read_field_u32, Object};
use crate::symbols::{key, Offsets};

verus! {

// ── the stamina that is shown ────────────────────────────────────────────────

/// The object that a field with a known offset refers to.
pub open spec fn step_to(m: Map<int, u8>, offsets: Map<Seq<char>, i32>, o: int, k: Seq<char>) -> Option<
    nat,
> {
    if offsets.dom().contains(k) {
        memory::ptr_val(m, o + offsets[k])
    } else {
        None
    }
}

/// The bits of the current stamina, where every link of the way is there.
pub open spec fn stamina_bits(m: Map<int, u8>, offsets: Map<Seq<char>, i32>, world: int) -> Option<
    nat,
> {
    if !features::alive(m, world) {
        None
    } else {
        match step_to(m, offsets, world, key::MAIN_PLAYER@) {
            Some(player) => match step_to(m, offsets, player as int, key::PHYSICAL@) {
                Some(physical) => match step_to(m, offsets, physical as int, key::STAMINA@) {
                    Some(s) => if offsets.dom().contains(key::STAMINA_CURRENT@) {
                        memory::val(m, s + offsets[key::STAMINA_CURRENT@], 4)
                    } else {
                        None
                    },
                    None => None,
                },
                None => None,
            },
            None => None,
        }
    }
}

fn step(mem: &Memory, offsets: &Offsets, o: Object, k: &str) -> (r: Option<Object>)
    requires
        mem.wf(),
        offsets.wf(),
    ensures
        r matches Some(x) ==> step_to(mem@, offsets@, o.0 as int, k@) == Some(x.0 as nat),
        r is None ==> step_to(mem@, offsets@, o.0 as int, k@) is None,
{
    match offsets.get(k) {
        Some(off) => link(mem, o, off),
        None => None,
    }
}

/// Reads the stamina; nothing where no world is loaded, which is normal.
pub fn read_stamina(mem: &Memory, offsets: &Offsets, world: Object) -> (r: Option<u32>)
    requires
        mem.wf(),
        offsets.wf(),
    ensures
        r matches Some(v) ==> stamina_bits(mem@, offsets@, world.0 as int) == Some(v as nat),
        r is None ==> stamina_bits(mem@, offsets@, world.0 as int) is None,
{
    if !alive_here(mem, world) {
        return None;
    }
    let player: Object = match step(mem, offsets, world, key::MAIN_PLAYER) {
        Some(o) => o,
        None => {
            return None;
        },
    };
    let physical: Object = match step(mem, offsets, player, key::PHYSICAL) {
        Some(o) => o,
        None => {
            return None;
        },
    };
    let stamina: Object = match step(mem, offsets, physical, key::STAMINA) {
        Some(o) => o,
        None => {
            return None;
        },
    };
    match offsets.get(key::STAMINA_CURRENT) {
        Some(off) => read_field_u32(mem, stamina, off),
        None => None,
    }
}

/// Two floats are equal: the same bits, or both zero; what is no number is equal
/// to nothing.
pub open spec fn float_eq(a: u32, b: u32) -> bool {
    !features::nan(a) && !features::nan(b) && (a == b || (a % 0x8000_0000 == 0 && b % 0x8000_0000
        == 0))
}

/// What the status line says next.
#[derive(Copy, Clone, PartialEq, Eq, Debug, Structural)]
pub enum StatusChange {
    Same,
    /// The stamina, by its bits.
    Stamina(u32),
    /// There is no world any more.
    Gone,
}

/// Compares a reading with the one before; `last` is what the status line says.
pub fn poll_status(last: &mut Option<u32>, reading: Option<u32>) -> (r: StatusChange)
    ensures
        match reading {
            Some(v) => if *old(last) matches Some(l) && float_eq(v, l) {
                r is Same && *final(last) == *old(last)
            } else {
                r == StatusChange::Stamina(v) && *final(last) == Some(v)
            },
            None => if *old(last) is Some {
                r is Gone && *final(last) is None
            } else {
                r is Same && *final(last) == *old(last)
            },
        },
{
    match reading {
        Some(v) => {
            let unchanged: bool = match *last {
                Some(l) => !is_nan(v) && !is_nan(l) && (v == l || (v % 0x8000_0000 == 0 && l
                    % 0x8000_0000 == 0)),
                None => false,
            };
            if unchanged {
                StatusChange::Same
            } else {
                *last = Some(v);
                StatusChange::Stamina(v)
            }
        },
        None => {
            if last.is_some() {
                *last = None;
                StatusChange::Gone
            } else {
                StatusChange::Same
            }
        },
    }
}

/// The time between two readings, in nanoseconds.
pub const POLL_INTERVAL: u64 = 500_000_000;

/// Whether a reading is due; if so, the time is noted.
pub fn poll_due(last: &mut u64, now: u64) -> (r: bool)
    ensures
        r == (now - *old(last) >= POLL_INTERVAL),
        *final(last) == if r {
            now
        } else {
            *old(last)
        },
{
    if now >= *last && now - *last >= POLL_INTERVAL {
        *last = now;
        true
    } else {
        false
    }
}

/// What the worker does once it was set up.
#[derive(Copy, Clone, PartialEq, Eq, Debug, Structural)]
pub enum WorkerPlan {
    /// Leave: the trainer is unloading.
    Leave,
    /// Wait for the unloading: there is no runtime to work on.
    Idle,
    /// Hook the driver, serve requests and poll.
    Work,
}

pub fn worker_main(aborted: bool, session: bool) -> (r: WorkerPlan)
    ensures
        r is Leave <==> aborted,
        r is Work <==> !aborted && session,
{
    if aborted {
        WorkerPlan::Leave
    } else if session {
        WorkerPlan::Work
    } else {
        WorkerPlan::Idle
    }
}

// ── unloading ────────────────────────────────────────────────────────────────

/// One second, in nanoseconds.
pub const SECOND: u64 = 1_000_000_000;

/// Where the unloading stands.
#[derive(Copy, Clone, PartialEq, Eq, Debug, Structural)]
pub enum Stage {
    /// Waiting for a request, and then for its acknowledgement.
    Watch,
    /// Waiting for the worker, until then.
    WorkerWait(u64),
    /// The worker is gone; the hook is to be taken out.
    HookShutdown,
    /// Nothing runs any more: the code can be freed.
    Free,
}

/// What happens.
#[derive(Copy, Clone, PartialEq, Eq, Debug, Structural)]
pub enum Event {
    /// The key is down; the last frame asked for the unloading.
    Poll { end_key: bool, acked: bool },
    /// Whether the worker is finished.
    Worker { finished: bool },
    /// Whether the hook was taken out and drained.
    Hooks { safe: bool },
}

/// What to do next.
#[derive(Copy, Clone, PartialEq, Eq, Debug, Structural)]
pub enum Todo {
    /// Ask again after a short while.
    Wait,
    /// Start the unloading: arm the fault logger, abort the worker and ask the
    /// overlay to go; then ask again.
    Begin,
    /// Look whether the worker is finished.
    AwaitWorker,
    /// Start the unloading, and look at once whether the worker is finished.
    BeginAndAwaitWorker,
    /// Take the hook out.
    ShutHooks,
    /// Not now: watch again after one second.
    RetryWorker,
    /// Not now: watch again after two seconds.
    RetryHooks,
    /// Free the code.
    Free,
}

#[derive(Copy, Clone, PartialEq, Eq, Debug, Structural)]
pub struct Supervisor {
    pub stage: Stage,
    /// When an unanswered request is taken as answered.
    pub deadline: Option<u64>,
}

/// A request is new.
pub open spec fn begins(s: Supervisor, end_key: bool, acked: bool) -> bool {
    (end_key || acked) && s.deadline is None
}

pub open spec fn deadline_after(s: Supervisor, end_key: bool, acked: bool, now: u64) -> Option<u64> {
    if begins(s, end_key, acked) {
        Some((now + 3 * SECOND) as u64)
    } else {
        s.deadline
    }
}

/// The next state and what to do.
pub open spec fn next_state(s: Supervisor, e: Event, now: u64) -> (Supervisor, Todo) {
    match (s.stage, e) {
        (Stage::Watch, Event::Poll { end_key, acked }) => {
            let d = deadline_after(s, end_key, acked, now);
            let late = d matches Some(t) && now >= t;
            let begin = begins(s, end_key, acked);
            if acked || late {
                (
                    Supervisor { stage: Stage::WorkerWait((now + 5 * SECOND) as u64), deadline: d },
                    if begin {
                        Todo::BeginAndAwaitWorker
                    } else {
                        Todo::AwaitWorker
                    },
                )
            } else {
                (
                    Supervisor { stage: Stage::Watch, deadline: d },
                    if begin {
                        Todo::Begin
                    } else {
                        Todo::Wait
                    },
                )
            }
        },
        (Stage::WorkerWait(until), Event::Worker { finished }) => if finished {
            (Supervisor { stage: Stage::HookShutdown, ..s }, Todo::ShutHooks)
        } else if now >= until {
            (
                Supervisor { stage: Stage::Watch, deadline: Some((now + 3 * SECOND) as u64) },
                Todo::RetryWorker,
            )
        } else {
            (s, Todo::AwaitWorker)
        },
        (Stage::HookShutdown, Event::Hooks { safe }) => if safe {
            (Supervisor { stage: Stage::Free, ..s }, Todo::Free)
        } else {
            (Supervisor { stage: Stage::Watch, deadline: None }, Todo::RetryHooks)
        },
        (Stage::Free, _) => (s, Todo::Free),
        _ => (s, Todo::Wait),
    }
}

impl Supervisor {
    pub fn new() -> (s: Self)
        ensures
            s == (Supervisor { stage: Stage::Watch, deadline: None }),
    {
        Supervisor { stage: Stage::Watch, deadline: None }
    }

    /// Takes an event at a time in nanoseconds.
    pub fn step(&mut self, e: Event, now: u64) -> (r: Todo)
        requires
            now <= u64::MAX - 5 * SECOND,
        ensures
            (*final(self), r) == next_state(*old(self), e, now),
    {
        match (self.stage, e) {
            (Stage::Watch, Event::Poll { end_key, acked }) => {
                let begin: bool = (end_key || acked) && self.deadline.is_none();
                if begin {
                    self.deadline = Some(now + 3 * SECOND);
                }
                let late: bool = match self.deadline {
                    Some(t) => now >= t,
                    None => false,
                };
                if acked || late {
                    self.stage = Stage::WorkerWait(now + 5 * SECOND);
                    if begin {
                        Todo::BeginAndAwaitWorker
                    } else {
                        Todo::AwaitWorker
                    }
                } else if begin {
                    Todo::Begin
                } else {
                    Todo::Wait
                }
            },
            (Stage::WorkerWait(until), Event::Worker { finished }) => {
                if finished {
                    self.stage = Stage::HookShutdown;
                    Todo::ShutHooks
                } else if now >= until {
                    self.stage = Stage::Watch;
                    self.deadline = Some(now + 3 * SECOND);
                    Todo::RetryWorker
                } else {
                    Todo::AwaitWorker
                }
            },
            (Stage::HookShutdown, Event::Hooks { safe }) => {
                if safe {
                    self.stage = Stage::Free;
                    Todo::Free
                } else {
                    self.stage = Stage::Watch;
                    self.deadline = None;
                    Todo::RetryHooks
                }
            },
            (Stage::Free, _) => Todo::Free,
            _ => Todo::Wait,
        }
    }
}

/// The state after a list of events, each with its time.
pub open spec fn run(s: Supervisor, es: Seq<(Event, u64)>) -> Supervisor
    decreases es.len(),
{
    if es.len() == 0 {
        s
    } else {
        next_state(run(s, es.drop_last()), es.last().0, es.last().1).0
    }
}

/// The code is freed only after the worker was seen to be finished and, after
/// that, the hook was taken out and drained.
pub proof fn law_free_is_safe(es: Seq<(Event, u64)>)
    requires
        run(Supervisor { stage: Stage::Watch, deadline: None }, es).stage is Free,
    ensures
        exists|i: int, j: int|
            0 <= i < j < es.len() && (#[trigger] es[i]).0 == (Event::Worker { finished: true }) && (
            #[trigger] es[j]).0 == (Event::Hooks { safe: true }),
{
    lemma_free_is_safe(es);
}

proof fn lemma_free_is_safe(es: Seq<(Event, u64)>)
    ensures
        run(Supervisor { stage: Stage::Watch, deadline: None }, es).stage is Free ==> exists|
            i: int,
            j: int,
        |
            0 <= i < j < es.len() && (#[trigger] es[i]).0 == (Event::Worker { finished: true }) && (
            #[trigger] es[j]).0 == (Event::Hooks { safe: true }),
        run(Supervisor { stage: Stage::Watch, deadline: None }, es).stage is HookShutdown ==> exists|
            i: int,
        |
            0 <= i < es.len() && (#[trigger] es[i]).0 == (Event::Worker { finished: true }),
    decreases es.len(),
{
    if es.len() > 0 {
        let start = Supervisor { stage: Stage::Watch, deadline: None };
        let d = es.drop_last();
        let last = es.len() - 1;
        lemma_free_is_safe(d);
        let before = run(start, d);
        let after = run(start, es);
        if after.stage is HookShutdown {
            if before.stage is HookShutdown {
                let i = choose|i: int|
                    0 <= i < d.len() && (#[trigger] d[i]).0 == (Event::Worker { finished: true });
                assert(es[i].0 == d[i].0);
            } else {
                assert(es[last].0 == (Event::Worker { finished: true }));
            }
        }
        if after.stage is Free {
            if before.stage is Free {
                let (i, j) = choose|i: int, j: int|
                    0 <= i < j < d.len() && (#[trigger] d[i]).0 == (Event::Worker { finished: true })
                        && (#[trigger] d[j]).0 == (Event::Hooks { safe: true });
                assert(es[i].0 == d[i].0);
                assert(es[j].0 == d[j].0);
            } else {
                let i = choose|i: int|
                    0 <= i < d.len() && (#[trigger] d[i]).0 == (Event::Worker { finished: true });
                assert(es[i].0 == d[i].0);
                assert(es[last].0 == (Event::Hooks { safe: true }));
            }
        }
    }
}

/// Both ways of asking start the unloading, each only once.
pub proof fn law_request_begins_once(s: Supervisor, end_key: bool, acked: bool, now: u64)
    requires
        s.stage is Watch,
        now <= u64::MAX - 5 * SECOND,
    ensures
        ({
            let (n, t) = next_state(s, Event::Poll { end_key, acked }, now);
            let begun = t is Begin || t is BeginAndAwaitWorker;
            &&& begun <==> (end_key || acked) && s.deadline is None
            &&& begun ==> n.deadline is Some
        }),
{
}

/// Once asked for, unloading goes through when the worker is done and the hook
/// drained: by the key after three seconds without an answer of the driver, and
/// at once where the driver has answered.
pub proof fn law_unload_completes(t0: u64, t1: u64, t2: u64, t3: u64)
    requires
        t0 <= u64::MAX - 5 * SECOND,
        t1 <= u64::MAX - 5 * SECOND,
        t0 + 3 * SECOND <= t1,
    ensures
        ({
            let s0 = Supervisor { stage: Stage::Watch, deadline: None };
            let (s1, a1) = next_state(s0, Event::Poll { end_key: true, acked: false }, t0);
            let (s2, a2) = next_state(s1, Event::Poll { end_key: false, acked: false }, t1);
            let (s3, a3) = next_state(s2, Event::Worker { finished: true }, t2);
            let (s4, a4) = next_state(s3, Event::Hooks { safe: true }, t3);
            &&& a1 is Begin && a2 is AwaitWorker && a3 is ShutHooks && a4 is Free
            &&& s4.stage is Free
        }),
        ({
            let s0 = Supervisor { stage: Stage::Watch, deadline: None };
            let (s1, a1) = next_state(s0, Event::Poll { end_key: false, acked: true }, t0);
            let (s2, a2) = next_state(s1, Event::Worker { finished: true }, t2);
            let (s3, a3) = next_state(s2, Event::Hooks { safe: true }, t3);
            &&& a1 is BeginAndAwaitWorker && a2 is ShutHooks && a3 is Free
            &&& s3.stage is Free
        }),
{
}

} // verus!
