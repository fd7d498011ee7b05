//! Input capture: the pointer that the menu draws and tests clicks against, and
//! what becomes of each window message while the menu is open.
//!
//! Only mouse input is swallowed. A key whose release never reached the game
//! would stay pressed there, so the keyboard always passes.

use vstd::prelude::*;

verus! {

pub const WM_KEYDOWN: u32 = 0x0100;

pub const WM_KEYUP: u32 = 0x0101;

pub const WM_CHAR: u32 = 0x0102;

pub const WM_SYSKEYDOWN: u32 = 0x0104;

pub const WM_SYSKEYUP: u32 = 0x0105;

pub const WM_MOUSEMOVE: u32 = 0x0200;

pub const WM_LBUTTONDOWN: u32 = 0x0201;

pub const WM_LBUTTONUP: u32 = 0x0202;

pub const WM_LBUTTONDBLCLK: u32 = 0x0203;

pub const WM_RBUTTONDOWN: u32 = 0x0204;

pub const WM_RBUTTONUP: u32 = 0x0205;

pub const WM_RBUTTONDBLCLK: u32 = 0x0206;

pub const WM_MBUTTONDOWN: u32 = 0x0207;

pub const WM_MBUTTONUP: u32 = 0x0208;

pub const WM_MBUTTONDBLCLK: u32 = 0x0209;

pub const WM_MOUSEWHEEL: u32 = 0x020A;

pub const WM_XBUTTONDOWN: u32 = 0x020B;

pub const WM_XBUTTONUP: u32 = 0x020C;

pub const WM_MOUSEHWHEEL: u32 = 0x020E;

pub const WM_INPUT: u32 = 0x00FF;

/// The pointer, in screen pixels from the top left.
#[derive(Copy, Clone, PartialEq, Eq, Debug, Structural)]
pub struct Pointer {
    pub x: i32,
    pub y: i32,
}

/// Puts the pointer somewhere.
pub fn seed_cursor(p: &mut Pointer, x: i32, y: i32)
    ensures
        *final(p) == (Pointer { x, y }),
{
    p.x = x;
    p.y = y;
}

pub fn virtual_cursor(p: &Pointer) -> (r: (i32, i32))
    ensures
        r == (p.x, p.y),
{
    (p.x, p.y)
}

/// A raw input record.
#[derive(Copy, Clone, PartialEq, Eq, Debug, Structural)]
pub enum RawEvent {
    /// It could not be read.
    Unreadable,
    /// From a keyboard or another device.
    Other,
    /// From a mouse, with a position instead of a movement.
    Absolute,
    /// From a mouse.
    Moved { dx: i32, dy: i32 },
}

/// A coordinate after a movement, kept on a screen `size` wide or high.
pub open spec fn moved(at: i32, d: i32, size: i32) -> int {
    if at + d < 0 {
        0
    } else if at + d > size - 1 {
        size - 1
    } else {
        at + d
    }
}

fn shift(at: i32, d: i32, size: i32) -> (r: i32)
    requires
        size >= 1,
    ensures
        r == moved(at, d, size),
{
    let v: i64 = at as i64 + d as i64;
    if v < 0 {
        0
    } else if v > size as i64 - 1 {
        size - 1
    } else {
        v as i32
    }
}

/// Moves the pointer by a raw record, on a screen of that size. True where the
/// record came from a mouse, and so must not reach the game.
pub fn accumulate_raw(p: &mut Pointer, ev: RawEvent, width: i32, height: i32) -> (r: bool)
    requires
        width >= 1,
        height >= 1,
    ensures
        r == (ev is Absolute || ev is Moved),
        match ev {
            RawEvent::Moved { dx, dy } => if dx == 0 && dy == 0 {
                *final(p) == *old(p)
            } else {
                final(p).x == moved(old(p).x, dx, width) && final(p).y == moved(
                    old(p).y,
                    dy,
                    height,
                )
            },
            _ => *final(p) == *old(p),
        },
{
    match ev {
        RawEvent::Unreadable => false,
        RawEvent::Other => false,
        RawEvent::Absolute => true,
        RawEvent::Moved { dx, dy } => {
            if dx != 0 || dy != 0 {
                p.x = shift(p.x, dx, width);
                p.y = shift(p.y, dy, height);
            }
            true
        },
    }
}

/// A pointer that moves is on the screen, wherever it was.
pub proof fn law_pointer_on_screen(at: i32, d: i32, size: i32)
    requires
        size >= 1,
    ensures
        0 <= moved(at, d, size) < size,
        0 <= at + d < size ==> moved(at, d, size) == at + d,
{
}

/// The messages that a mouse sends.
pub open spec fn mouse_msg(msg: u32) -> bool {
    0x0200 <= msg <= 0x020C || msg == 0x020E
}

pub fn is_mouse_msg(msg: u32) -> (r: bool)
    ensures
        r == mouse_msg(msg),
{
    msg == WM_MOUSEMOVE || msg == WM_LBUTTONDOWN || msg == WM_LBUTTONUP || msg == WM_LBUTTONDBLCLK
        || msg == WM_RBUTTONDOWN || msg == WM_RBUTTONUP || msg == WM_RBUTTONDBLCLK || msg
        == WM_MBUTTONDOWN || msg == WM_MBUTTONUP || msg == WM_MBUTTONDBLCLK || msg
        == WM_XBUTTONDOWN || msg == WM_XBUTTONUP || msg == WM_MOUSEWHEEL || msg == WM_MOUSEHWHEEL
}

/// Input is captured while the menu is open.
pub fn capturing(visible: bool) -> (r: bool)
    ensures
        r == visible,
{
    visible
}

/// Where a window message goes.
#[derive(Copy, Clone, PartialEq, Eq, Debug, Structural)]
pub enum Route {
    /// To the system's default handling, past the game.
    Swallow,
    /// To the game's own handler.
    Game,
    /// To the system's default handling, since the game's handler is not known.
    Default,
}

/// `raw_mouse` says, of a raw input message, whether it came from a mouse;
/// `original` is the game's own handler.
pub fn wndproc(captures: bool, msg: u32, raw_mouse: bool, original: u64) -> (r: Route)
    ensures
        r is Swallow <==> captures && ((msg == WM_INPUT && raw_mouse) || mouse_msg(msg)),
        r is Game ==> original != 0,
        r is Default ==> original == 0,
{
    if captures {
        if msg == WM_INPUT {
            if raw_mouse {
                return Route::Swallow;
            }
        } else if is_mouse_msg(msg) {
            return Route::Swallow;
        }
    }
    if original != 0 {
        Route::Game
    } else {
        Route::Default
    }
}

/// With the menu closed nothing is swallowed, and keys never are.
pub proof fn law_keys_pass(msg: u32)
    requires
        msg == WM_KEYDOWN || msg == WM_KEYUP || msg == WM_CHAR || msg == WM_SYSKEYDOWN || msg
            == WM_SYSKEYUP,
    ensures
        !mouse_msg(msg),
        msg != WM_INPUT,
{
}

// ── the game's window ────────────────────────────────────────────────────────

/// A top-level window; its edges where they are known.
#[derive(Copy, Clone, PartialEq, Eq, Debug, Structural)]
pub struct WindowInfo {
    pub hwnd: u64,
    pub pid: u32,
    pub visible: bool,
    pub known: bool,
    pub left: i32,
    pub top: i32,
    pub right: i32,
    pub bottom: i32,
}

/// The area of a window that can be the game's; 0 for every other.
pub open spec fn area_of(w: WindowInfo, pid: u32) -> int {
    if w.pid == pid && w.visible && w.known {
        (w.right - w.left) * (w.bottom - w.top)
    } else {
        0
    }
}

/// The first of the largest windows so far, with its area.
pub open spec fn largest(ws: Seq<WindowInfo>, pid: u32) -> (int, u64)
    decreases ws.len(),
{
    if ws.len() == 0 {
        (0, 0)
    } else {
        let b = largest(ws.drop_last(), pid);
        if area_of(ws.last(), pid) > b.0 {
            (area_of(ws.last(), pid), ws.last().hwnd)
        } else {
            b
        }
    }
}

/// The largest visible window of the process.
pub fn find_game_window(ws: &Vec<WindowInfo>, pid: u32) -> (r: Option<u64>)
    ensures
        r == if largest(ws@, pid).1 == 0 {
            None
        } else {
            Some(largest(ws@, pid).1)
        },
{
    let mut best: u64 = 0;
    let mut area: i128 = 0;
    let mut i: usize = 0;
    while i < ws.len()
        invariant
            i <= ws.len(),
            area >= 0,
            largest(ws@.take(i as int), pid) == (area as int, best),
        decreases ws.len() - i,
    {
        assert(ws@.take(i + 1).drop_last() =~= ws@.take(i as int));
        let w = ws[i];
        if w.pid == pid && w.visible && w.known {
            let dx: i128 = w.right as i128 - w.left as i128;
            let dy: i128 = w.bottom as i128 - w.top as i128;
            assert(-0x2_0000_0000_0000_0000 <= dx * dy <= 0x2_0000_0000_0000_0000)
                by (nonlinear_arith)
                requires
                    -0x1_0000_0000 <= dx <= 0x1_0000_0000,
                    -0x1_0000_0000 <= dy <= 0x1_0000_0000,
            ;
            let a: i128 = dx * dy;
            if a > area {
                area = a;
                best = w.hwnd;
            }
        }
        i = i + 1;
    }
    assert(ws@.take(i as int) =~= ws@);
    if best == 0 {
        None
    } else {
        Some(best)
    }
}

/// No window of the process is larger than the one that is found.
pub proof fn law_largest(ws: Seq<WindowInfo>, pid: u32, i: int)
    requires
        0 <= i < ws.len(),
    ensures
        area_of(ws[i], pid) <= largest(ws, pid).0,
        largest(ws, pid).0 > 0 ==> exists|j: int|
            0 <= j < ws.len() && (#[trigger] ws[j]).hwnd == largest(ws, pid).1 && area_of(
                ws[j],
                pid,
            ) == largest(ws, pid).0,
    decreases ws.len(),
{
    let d = ws.drop_last();
    let last = ws.len() - 1;
    assert(ws[last] == ws.last());
    if d.len() > 0 {
        let k = if i < last {
            i
        } else {
            0
        };
        law_largest(d, pid, k);
        assert(d[k] == ws[k]);
        if area_of(ws[last], pid) > largest(d, pid).0 {
            assert(ws[last].hwnd == largest(ws, pid).1);
        } else if largest(ws, pid).0 > 0 {
            let j = choose|j: int|
                0 <= j < d.len() && (#[trigger] d[j]).hwnd == largest(d, pid).1 && area_of(
                    d[j],
                    pid,
                ) == largest(d, pid).0;
            assert(ws[j] == d[j]);
        }
    } else {
        assert(largest(d, pid) == (0int, 0u64));
        assert(ws[last].hwnd == ws.last().hwnd);
    }
}

/// The hooked window and the handler it had.
#[derive(Copy, Clone, PartialEq, Eq, Debug, Structural)]
pub struct Capture {
    pub installed: bool,
    pub hwnd: u64,
    pub original: u64,
}

impl Capture {
    pub fn new() -> (c: Self)
        ensures
            c == (Capture { installed: false, hwnd: 0, original: 0 }),
    {
        Capture { installed: false, hwnd: 0, original: 0 }
    }
}

/// Notes the handler that the window had before ours; none means that the hook
/// failed, and it is tried again.
pub fn ensure_installed(c: &mut Capture, hwnd: u64, previous: u64) -> (r: bool)
    ensures
        old(c).installed ==> r && *final(c) == *old(c),
        !old(c).installed && previous == 0 ==> !r && *final(c) == *old(c),
        !old(c).installed && previous != 0 ==> r && *final(c) == (Capture {
            installed: true,
            hwnd,
            original: previous,
        }),
{
    if c.installed {
        return true;
    }
    if previous == 0 {
        return false;
    }
    c.original = previous;
    c.hwnd = hwnd;
    c.installed = true;
    true
}

/// Forgets the hook and returns the window and the handler to give back to it.
pub fn uninstall(c: &mut Capture) -> (r: Option<(u64, u64)>)
    ensures
        !old(c).installed ==> r is None && *final(c) == *old(c),
        old(c).installed ==> {
            &&& *final(c) == (Capture { installed: false, hwnd: 0, original: 0 })
            &&& r == if old(c).hwnd != 0 && old(c).original != 0 {
                Some((old(c).hwnd, old(c).original))
            } else {
                None
            }
        },
{
    if !c.installed {
        return None;
    }
    let hwnd: u64 = c.hwnd;
    let original: u64 = c.original;
    c.installed = false;
    c.hwnd = 0;
    c.original = 0;
    if hwnd != 0 && original != 0 {
        Some((hwnd, original))
    } else {
        None
    }
}

} // verus!
