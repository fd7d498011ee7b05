//! What the fault logger writes. It is armed only while the trainer unloads.

use vstd::prelude::*;

use crate::text;
use crate::text::{copy_of, push_hex};

verus! {

pub const IDLE: usize = 0;

pub const UNLOAD_BEGIN: usize = 1;

pub const CHAMS_RESTORE: usize = 2;

pub const MENU_TEARDOWN: usize = 3;

pub const WORKER_WAIT: usize = 4;

pub const HOOK_SHUTDOWN: usize = 5;

pub const FREE: usize = 6;

pub const ACCESS_VIOLATION: u32 = 0xC0000005;

/// The state of the logger; `handle` is its registration, 0 where it has none.
#[derive(Copy, Clone, PartialEq, Eq, Debug, Structural)]
pub struct Crash {
    pub armed: bool,
    pub phase: usize,
    pub handle: u64,
}

impl Crash {
    pub fn new() -> (c: Self)
        ensures
            c == (Crash { armed: false, phase: IDLE, handle: 0 }),
    {
        Crash { armed: false, phase: IDLE, handle: 0 }
    }
}

pub open spec fn phase_text(p: usize) -> Seq<char> {
    if p == UNLOAD_BEGIN {
        "unload-begin"@
    } else if p == CHAMS_RESTORE {
        "chams-restore"@
    } else if p == MENU_TEARDOWN {
        "menu-teardown"@
    } else if p == WORKER_WAIT {
        "worker-wait"@
    } else if p == HOOK_SHUTDOWN {
        "hook-shutdown"@
    } else if p == FREE {
        "free-library"@
    } else {
        "idle"@
    }
}

pub fn phase_name(p: usize) -> (r: &'static str)
    ensures
        r@ == phase_text(p),
{
    if p == UNLOAD_BEGIN {
        "unload-begin"
    } else if p == CHAMS_RESTORE {
        "chams-restore"
    } else if p == MENU_TEARDOWN {
        "menu-teardown"
    } else if p == WORKER_WAIT {
        "worker-wait"
    } else if p == HOOK_SHUTDOWN {
        "hook-shutdown"
    } else if p == FREE {
        "free-library"
    } else {
        "idle"
    }
}

/// Starts logging faults.
pub fn arm(c: &mut Crash)
    ensures
        *final(c) == (Crash { armed: true, ..*old(c) }),
{
    c.armed = true;
}

/// Notes where the unloading is, and returns the line that says so.
pub fn phase(c: &mut Crash, p: usize) -> (line: String)
    ensures
        *final(c) == (Crash { phase: p, ..*old(c) }),
        line@ == "[crash] phase -> "@ + phase_text(p),
{
    c.phase = p;
    let mut s = copy_of("[crash] phase -> ");
    s.append(phase_name(p));
    s
}

/// Notes the logger's registration, and returns the line that says whether
/// there is one.
pub fn install(c: &mut Crash, handle: u64) -> (line: &'static str)
    ensures
        handle == 0 ==> *final(c) == *old(c) && line@ == "[crash] fault logger install FAILED"@,
        handle != 0 ==> *final(c) == (Crash { handle, ..*old(c) }) && line@
            == "[crash] fault logger installed"@,
{
    if handle == 0 {
        "[crash] fault logger install FAILED"
    } else {
        c.handle = handle;
        "[crash] fault logger installed"
    }
}

/// Disarms the logger and returns the registration to be given up, where there
/// is one.
pub fn uninstall(c: &mut Crash) -> (r: Option<u64>)
    ensures
        *final(c) == (Crash { armed: false, handle: 0, ..*old(c) }),
        r == if old(c).handle != 0 {
            Some(old(c).handle)
        } else {
            None
        },
{
    let h: u64 = c.handle;
    c.armed = false;
    c.handle = 0;
    if h != 0 {
        Some(h)
    } else {
        None
    }
}

/// A loaded module: from its first address to the one after its last.
pub struct ModuleRange {
    pub name: &'static str,
    pub start: u64,
    pub end: u64,
}

/// The place of an address: in the first of the modules that has it.
pub open spec fn place_text(a: u64, ms: Seq<ModuleRange>) -> Seq<char>
    decreases ms.len(),
{
    if a == 0 {
        "null"@
    } else if ms.len() == 0 {
        "other"@
    } else if ms[0].start <= a < ms[0].end {
        ms[0].name@ + "+"@ + text::hex_text((a - ms[0].start) as nat)
    } else {
        place_text(a, ms.skip(1))
    }
}

pub fn module_of(a: u64, ms: &Vec<ModuleRange>) -> (r: String)
    ensures
        r@ == place_text(a, ms@),
{
    if a == 0 {
        return copy_of("null");
    }
    let mut i: usize = 0;
    assert(ms@.skip(0) =~= ms@);
    while i < ms.len()
        invariant
            i <= ms.len(),
            a != 0,
            place_text(a, ms@) == place_text(a, ms@.skip(i as int)),
        decreases ms.len() - i,
    {
        let ghost rest = ms@.skip(i as int);
        assert(rest[0] == ms@[i as int]);
        assert(rest.skip(1) =~= ms@.skip(i + 1));
        if a >= ms[i].start && a < ms[i].end {
            let mut s = copy_of(ms[i].name);
            s.append("+");
            push_hex(&mut s, a - ms[i].start);
            return s;
        }
        i = i + 1;
    }
    assert(ms@.skip(i as int).len() == 0);
    copy_of("other")
}

/// A fault, as the system reports it; `op` and `target` only where it says them.
pub struct Fault {
    pub code: u32,
    pub ip: u64,
    pub detailed: bool,
    pub op: u64,
    pub target: u64,
}

pub open spec fn op_text(f: Fault) -> Seq<char> {
    if f.detailed && f.op == 0 {
        "read"@
    } else if f.detailed && f.op == 1 {
        "write"@
    } else if f.detailed && f.op == 8 {
        "exec"@
    } else {
        "?"@
    }
}

pub open spec fn target_of(f: Fault) -> u64 {
    if f.detailed {
        f.target
    } else {
        0
    }
}

/// The lines on a fault.
pub open spec fn report(c: Crash, f: Fault, ms: Seq<ModuleRange>) -> Seq<Seq<char>> {
    if !c.armed || f.code != ACCESS_VIOLATION {
        Seq::empty()
    } else {
        seq![
            "[crash] ACCESS_VIOLATION during "@ + phase_text(c.phase) + ": "@ + op_text(f) + " "@
                + text::hex_text(target_of(f) as nat),
            "[crash]   ip "@ + text::hex_text(f.ip as nat) + " in "@ + place_text(f.ip, ms),
            "[crash]   target "@ + text::hex_text(target_of(f) as nat) + " in "@ + place_text(
                target_of(f),
                ms,
            ),
        ]
    }
}

/// What is logged of a fault: nothing unless the logger is armed and the fault
/// is an access violation.
pub fn veh(c: &Crash, f: &Fault, ms: &Vec<ModuleRange>) -> (lines: Vec<String>)
    ensures
        text::texts(lines@) == report(*c, *f, ms@),
{
    let mut lines: Vec<String> = Vec::new();
    if !c.armed || f.code != ACCESS_VIOLATION {
        assert(text::texts(lines@) =~= Seq::empty());
        return lines;
    }
    let ops: &'static str = if f.detailed && f.op == 0 {
        "read"
    } else if f.detailed && f.op == 1 {
        "write"
    } else if f.detailed && f.op == 8 {
        "exec"
    } else {
        "?"
    };
    let target: u64 = if f.detailed {
        f.target
    } else {
        0
    };
    let mut a = copy_of("[crash] ACCESS_VIOLATION during ");
    a.append(phase_name(c.phase));
    a.append(": ");
    a.append(ops);
    a.append(" ");
    push_hex(&mut a, target);
    let mut b = copy_of("[crash]   ip ");
    push_hex(&mut b, f.ip);
    b.append(" in ");
    b.append(module_of(f.ip, ms).as_str());
    let mut d = copy_of("[crash]   target ");
    push_hex(&mut d, target);
    d.append(" in ");
    d.append(module_of(target, ms).as_str());
    lines.push(a);
    lines.push(b);
    lines.push(d);
    assert(text::texts(lines@) =~= report(*c, *f, ms@));
    lines
}

} // verus!
