//! The log, the unload handshake, input capture, toggles and the raid snapshot.

use eft_trainer::console::{push, snapshot_tail, take_dirty, Console};
use eft_trainer::crash::{
    arm, install, module_of, phase, phase_name, uninstall as uninstall_handler, veh, Crash, Fault,
    ModuleRange, ACCESS_VIOLATION, FREE, HOOK_SHUTDOWN, WORKER_WAIT,
};
use eft_trainer::features::{
    apply_stamina, bump_speed, inf_stamina, is_nan, set_inf_stamina, set_speed_mult, set_speed_on,
    speed_mult, speed_on, toggle_inf_stamina, toggle_speed, Features, StaminaOffsets, SPEED_MAX,
    SPEED_MIN,
};
use eft_trainer::hooks::{
    driver_enter, driver_leave, driver_world, game_world, shutdown, unload_requested, Drain, Hooks,
};
use eft_trainer::input::{
    accumulate_raw, capturing, ensure_installed, find_game_window, is_mouse_msg, seed_cursor,
    uninstall, virtual_cursor, wndproc, Capture, Pointer, RawEvent, Route, WindowInfo, WM_INPUT,
    WM_KEYUP, WM_LBUTTONDOWN, WM_MOUSEHWHEEL, WM_MOUSEWHEEL,
};
use eft_trainer::memory::Memory;
use eft_trainer::mono::{
    find_method_exact, load_with_retry, lookup, lookup_next, LoadWait, Lookup, MethodInfo,
};
use eft_trainer::mono_runtime::{assembly_path, class_raw, obj_raw};
use eft_trainer::runtime::{Class, Method, Object, Store};
use eft_trainer::session::{
    poll_due, poll_status, read_stamina, worker_main, Event, Stage, StatusChange, Supervisor, Todo,
    WorkerPlan, SECOND,
};
use eft_trainer::symbols::{stamina_chain, Offsets};
use eft_trainer::world::{
    classify, find_local, is_bot, is_enabled, is_local, look, players, publish, set_enabled, snapshot,
    tick, Cache, Entry, Sight, Vec3, World,
};

fn put(b: &mut Vec<u8>, at: usize, v: u64) {
    b[at..at + 8].copy_from_slice(&v.to_le_bytes());
}

#[test]
fn the_log_keeps_its_newest_lines() {
    let mut c: Console = Console::new();
    for i in 0..70 {
        push(&mut c, format!("line {}", i));
    }
    assert_eq!(snapshot_tail(&c, 2), "line 68\nline 69");
    let all: String = snapshot_tail(&c, 1000);
    assert_eq!(all.lines().count(), 64);
    assert!(all.starts_with("line 6\n"));
    assert_eq!(snapshot_tail(&c, 0), "");
}

#[test]
fn a_change_of_the_log_is_reported_once() {
    let mut c: Console = Console::new();
    assert!(take_dirty(&mut c));
    assert!(!take_dirty(&mut c));
    push(&mut c, "x".to_string());
    assert!(take_dirty(&mut c));
    assert!(!take_dirty(&mut c));
    assert_eq!(snapshot_tail(&c, 5), "x");
}

#[test]
fn the_multiplier_steps_as_floats_do() {
    let mut f: Features = Features::new();
    let mut x: f32 = 1.0;
    assert_eq!(speed_mult(&f), x.to_bits());
    let moves: [bool; 24] = [
        true, true, true, false, true, true, true, true, true, true, true, true, false, false,
        false, false, false, false, false, false, false, false, true, false,
    ];
    for up in moves {
        bump_speed(&mut f, up);
        x = (x + if up { 0.05f32 } else { -0.05f32 }).clamp(1.0, 1.4);
        assert_eq!(speed_mult(&f), x.to_bits());
    }
}

#[test]
fn a_step_up_and_down_comes_back() {
    let mut f: Features = Features::new();
    set_speed_mult(&mut f, 1.2f32.to_bits());
    bump_speed(&mut f, true);
    assert_eq!(speed_mult(&f), (1.2f32 + 0.05).to_bits());
    bump_speed(&mut f, false);
    assert_eq!(speed_mult(&f), 1.2f32.to_bits());
}

#[test]
fn the_multiplier_is_clamped_as_floats_are() {
    let mut f: Features = Features::new();
    for x in [0.0f32, -0.0, -3.0, 0.99, 1.0, 1.1, 1.4, 1.41, 1e30, f32::INFINITY, -f32::INFINITY] {
        set_speed_mult(&mut f, x.to_bits());
        assert_eq!(speed_mult(&f), x.clamp(1.0, 1.4).to_bits());
    }
    assert_eq!(SPEED_MIN, 1.0f32.to_bits());
    assert_eq!(SPEED_MAX, 1.4f32.to_bits());
    assert!(is_nan(f32::NAN.to_bits()));
    assert!(!is_nan(f32::INFINITY.to_bits()));
    // What is no number counts as the least.
    for bits in [f32::NAN.to_bits(), 0xFFC0_0000, 0x7F80_0001, u32::MAX] {
        set_speed_mult(&mut f, 1.3f32.to_bits());
        set_speed_mult(&mut f, bits);
        assert_eq!(speed_mult(&f), SPEED_MIN);
        bump_speed(&mut f, true);
        assert_eq!(speed_mult(&f), (1.0f32 + 0.05).to_bits());
    }
}

#[test]
fn toggles_flip_and_report() {
    let mut f: Features = Features::new();
    assert!(toggle_inf_stamina(&mut f));
    assert!(inf_stamina(&f));
    assert!(!toggle_inf_stamina(&mut f));
    set_inf_stamina(&mut f, true);
    assert!(inf_stamina(&f));
    assert!(toggle_speed(&mut f));
    set_speed_on(&mut f, false);
    assert!(!speed_on(&f));
}

/// World, player, physical and stamina at 0x1000, 0x2000, 0x3000 and 0x4000,
/// each in a block of 0x100 bytes.
fn chain(cap: f32) -> Vec<Vec<u8>> {
    let mut v: Vec<Vec<u8>> = vec![vec![0; 0x100]; 4];
    put(&mut v[0], 0x10, 1);
    put(&mut v[0], 0x40, 0x2000);
    put(&mut v[1], 0x10, 1);
    put(&mut v[1], 0x48, 0x3000);
    put(&mut v[2], 0x50, 0x4000);
    v[3][0x20..0x24].copy_from_slice(&12.5f32.to_bits().to_le_bytes());
    v[3][0x24..0x28].copy_from_slice(&cap.to_bits().to_le_bytes());
    v
}

fn view(v: &Vec<Vec<u8>>) -> Memory<'_> {
    let mut mem: Memory = Memory::new();
    for k in 0..v.len() {
        assert!(mem.add(0x1000 * (k as u64 + 1), &v[k]));
    }
    mem
}

const OFFS: StaminaOffsets = StaminaOffsets {
    off_main_player: 0x40,
    off_physical: 0x48,
    off_stamina: 0x50,
    off_current: 0x20,
    off_capacity: 0x24,
};

#[test]
fn stamina_is_pinned_to_its_capacity() {
    let v: Vec<Vec<u8>> = chain(104.0);
    let store: Store = apply_stamina(&view(&v), &OFFS, Object(0x1000)).unwrap();
    assert_eq!(store, Store { addr: 0x4020, width: 4, value: 104.0f32.to_bits() as u64 });
    for bad in [0.0f32, -1.0, f32::INFINITY, f32::NAN] {
        let w: Vec<Vec<u8>> = chain(bad);
        assert_eq!(apply_stamina(&view(&w), &OFFS, Object(0x1000)), None);
    }
    // Every missing link ends the way.
    assert_eq!(apply_stamina(&view(&v), &OFFS, Object(0)), None);
    let mut dead: Vec<Vec<u8>> = chain(104.0);
    put(&mut dead[1], 0x10, 0);
    assert_eq!(apply_stamina(&view(&dead), &OFFS, Object(0x1000)), None);
    let mut cut: Vec<Vec<u8>> = chain(104.0);
    put(&mut cut[2], 0x50, 0x9000);
    assert_eq!(apply_stamina(&view(&cut), &OFFS, Object(0x1000)), None);
}

#[test]
fn the_chain_without_offsets_reads_nothing() {
    let v: Vec<Vec<u8>> = chain(104.0);
    let o: Offsets = Offsets::new();
    assert_eq!(o.len(), 0);
    assert_eq!(read_stamina(&view(&v), &o, Object(0x1000)), None);
    let names: Vec<&str> = stamina_chain().iter().map(|s| s.field).collect();
    assert_eq!(names, vec!["MainPlayer", "Physical", "Stamina", "Current"]);
}

#[test]
fn the_pointer_stays_on_the_screen() {
    let mut p: Pointer = Pointer { x: 0, y: 0 };
    seed_cursor(&mut p, 100, 50);
    assert!(accumulate_raw(&mut p, RawEvent::Moved { dx: -30, dy: 20 }, 1920, 1080));
    assert_eq!(virtual_cursor(&p), (70, 70));
    assert!(accumulate_raw(&mut p, RawEvent::Moved { dx: i32::MIN, dy: i32::MAX }, 1920, 1080));
    assert_eq!(virtual_cursor(&p), (0, 1079));
    assert!(accumulate_raw(&mut p, RawEvent::Absolute, 1920, 1080));
    assert!(!accumulate_raw(&mut p, RawEvent::Other, 1920, 1080));
    assert!(!accumulate_raw(&mut p, RawEvent::Unreadable, 1920, 1080));
    assert_eq!(virtual_cursor(&p), (0, 1079));
}

#[test]
fn only_the_mouse_is_kept_from_the_game() {
    assert!(capturing(true));
    assert!(matches!(wndproc(true, WM_LBUTTONDOWN, false, 7), Route::Swallow));
    assert!(matches!(wndproc(true, WM_INPUT, true, 7), Route::Swallow));
    assert!(matches!(wndproc(true, WM_INPUT, false, 7), Route::Game));
    assert!(matches!(wndproc(true, WM_KEYUP, false, 7), Route::Game));
    assert!(matches!(wndproc(false, WM_LBUTTONDOWN, false, 7), Route::Game));
    assert!(matches!(wndproc(false, WM_INPUT, true, 0), Route::Default));
    assert!(is_mouse_msg(WM_MOUSEWHEEL));
    assert!(is_mouse_msg(WM_MOUSEHWHEEL));
    assert!(!is_mouse_msg(WM_INPUT));
    assert!(!is_mouse_msg(0x020D));
}

fn window(hwnd: u64, pid: u32, w: i32, h: i32) -> WindowInfo {
    WindowInfo { hwnd, pid, visible: true, known: true, left: 0, top: 0, right: w, bottom: h }
}

#[test]
fn the_largest_visible_window_is_the_games() {
    let mut ws: Vec<WindowInfo> = vec![
        window(1, 9, 3000, 3000),
        window(2, 5, 10, 10),
        window(3, 5, 100, 100),
        window(4, 5, 100, 100),
        window(5, 5, 500, 500),
        window(6, 5, 600, 600),
    ];
    ws[4].visible = false;
    ws[5].known = false;
    assert_eq!(find_game_window(&ws, 5), Some(3));
    assert_eq!(find_game_window(&ws, 7), None);
    assert_eq!(find_game_window(&vec![window(1, 5, 0, 100)], 5), None);
}

#[test]
fn capture_is_taken_once_and_given_back() {
    let mut c: Capture = Capture::new();
    assert!(!ensure_installed(&mut c, 11, 0));
    assert!(ensure_installed(&mut c, 11, 22));
    assert!(ensure_installed(&mut c, 33, 44));
    assert_eq!(uninstall(&mut c), Some((11, 22)));
    assert_eq!(uninstall(&mut c), None);
}

#[test]
fn a_fault_is_logged_once_armed() {
    let ms: Vec<ModuleRange> =
        vec![ModuleRange { name: "GameAssembly.dll", start: 0x1000, end: 0x2000 }];
    let f: Fault =
        Fault { code: ACCESS_VIOLATION, ip: 0x1234, detailed: true, op: 1, target: 0x9000 };
    let mut c: Crash = Crash::new();
    assert!(veh(&c, &f, &ms).is_empty());
    arm(&mut c);
    assert_eq!(phase(&mut c, WORKER_WAIT), "[crash] phase -> worker-wait");
    assert_eq!(
        veh(&c, &f, &ms),
        vec![
            "[crash] ACCESS_VIOLATION during worker-wait: write 0x9000",
            "[crash]   ip 0x1234 in GameAssembly.dll+0x234",
            "[crash]   target 0x9000 in other",
        ]
    );
    let bare: Fault = Fault { detailed: false, ..f };
    assert_eq!(
        veh(&c, &bare, &ms)[0],
        "[crash] ACCESS_VIOLATION during worker-wait: ? 0x0"
    );
    assert!(veh(&c, &Fault { code: 0x8000_0003, ..bare }, &ms).is_empty());
    assert_eq!(module_of(0, &ms), "null");
    assert_eq!(module_of(0x2000, &ms), "other");
}

#[test]
fn the_fault_logger_is_removed_before_the_code_goes() {
    let mut c: Crash = Crash::new();
    assert_eq!(install(&mut c, 0), "[crash] fault logger install FAILED");
    assert_eq!(uninstall_handler(&mut c), None);
    assert_eq!(install(&mut c, 5), "[crash] fault logger installed");
    arm(&mut c);
    assert_eq!(uninstall_handler(&mut c), Some(5));
    assert!(!c.armed);
    assert_eq!(uninstall_handler(&mut c), None);
    assert_eq!(phase_name(FREE), "free-library");
    assert_eq!(phase_name(HOOK_SHUTDOWN), "hook-shutdown");
    assert_eq!(phase_name(77), "idle");
}

#[test]
fn the_detour_is_counted_in_and_out() {
    let mut h: Hooks = Hooks::new();
    assert!(game_world(&h).is_null());
    driver_enter(&mut h);
    driver_enter(&mut h);
    driver_world(&mut h, Object(0x77));
    assert_eq!(game_world(&h), Object(0x77));
    driver_leave(&mut h, true);
    assert!(!unload_requested(&h));
    driver_leave(&mut h, false);
    assert!(unload_requested(&h));
    assert_eq!(h.inside, 0);
    assert!(matches!(shutdown(true, 0, true), Drain::Safe));
    assert!(matches!(shutdown(true, 1, false), Drain::Wait));
    assert!(matches!(shutdown(true, 1, true), Drain::Unsafe));
    assert!(matches!(shutdown(false, 0, false), Drain::Unsafe));
}

#[test]
fn unloading_waits_for_worker_and_hook() {
    let mut s: Supervisor = Supervisor::new();
    let idle: Event = Event::Poll { end_key: false, acked: false };
    let end: Event = Event::Poll { end_key: true, acked: false };
    assert!(matches!(s.step(idle, 0), Todo::Wait));
    assert!(matches!(s.step(end, SECOND), Todo::Begin));
    // The key is still down: the request has begun already.
    assert!(matches!(s.step(end, 2 * SECOND), Todo::Wait));
    assert!(matches!(s.step(idle, 4 * SECOND - 1), Todo::Wait));
    // No answer from the driver after three seconds.
    assert!(matches!(s.step(idle, 4 * SECOND), Todo::AwaitWorker));
    assert!(matches!(s.step(Event::Worker { finished: false }, 5 * SECOND), Todo::AwaitWorker));
    assert!(matches!(s.step(Event::Worker { finished: false }, 9 * SECOND), Todo::RetryWorker));
    assert!(matches!(s.step(idle, 10 * SECOND), Todo::Wait));
    assert!(matches!(s.step(idle, 12 * SECOND), Todo::AwaitWorker));
    assert!(matches!(s.step(Event::Worker { finished: true }, 13 * SECOND), Todo::ShutHooks));
    assert!(matches!(s.step(Event::Hooks { safe: false }, 14 * SECOND), Todo::RetryHooks));
    assert!(s.deadline.is_none());
    // The acknowledged request is a new one.
    let ack: Event = Event::Poll { end_key: false, acked: true };
    assert!(matches!(s.step(ack, 15 * SECOND), Todo::BeginAndAwaitWorker));
    assert!(matches!(s.step(Event::Worker { finished: true }, 15 * SECOND), Todo::ShutHooks));
    assert!(matches!(s.step(Event::Hooks { safe: true }, 15 * SECOND), Todo::Free));
    assert!(matches!(s.stage, Stage::Free));
    assert!(matches!(s.step(idle, 99 * SECOND), Todo::Free));
}

#[test]
fn the_worker_polls_every_half_second() {
    let mut last: u64 = 1_000_000_000;
    assert!(!poll_due(&mut last, 1_499_999_999));
    assert_eq!(last, 1_000_000_000);
    assert!(poll_due(&mut last, 1_500_000_000));
    assert_eq!(last, 1_500_000_000);
    assert!(matches!(worker_main(true, true), WorkerPlan::Leave));
    assert!(matches!(worker_main(false, false), WorkerPlan::Idle));
    assert!(matches!(worker_main(false, true), WorkerPlan::Work));
}

#[test]
fn the_status_row_changes_with_the_reading() {
    let mut last: Option<u32> = None;
    let a: u32 = 50.0f32.to_bits();
    assert!(matches!(poll_status(&mut last, None), StatusChange::Same));
    assert!(matches!(poll_status(&mut last, Some(a)), StatusChange::Stamina(v) if v == a));
    assert!(matches!(poll_status(&mut last, Some(a)), StatusChange::Same));
    assert!(matches!(poll_status(&mut last, None), StatusChange::Gone));
    assert!(matches!(poll_status(&mut last, None), StatusChange::Same));
    // 0.0 and -0.0 are equal as numbers.
    assert!(matches!(poll_status(&mut last, Some(0)), StatusChange::Stamina(0)));
    assert!(matches!(poll_status(&mut last, Some(0x8000_0000)), StatusChange::Same));
    // What is no number is equal to nothing, itself among it.
    let nan: u32 = f32::NAN.to_bits();
    assert!(matches!(poll_status(&mut last, Some(nan)), StatusChange::Stamina(_)));
    assert!(matches!(poll_status(&mut last, Some(nan)), StatusChange::Stamina(_)));
}

const RAID: Cache = Cache {
    gw_registered_off: 0x20,
    p_is_local_off: 0x80,
    p_aidata_off: Some(0x88),
    m_get_position: Method(0),
    m_cam_main: Method(0),
    m_w2s: Method(0),
};

/// A world at 0x1000, its list at 0x1100, the array at 0x1200; three players
/// from 0x10000 on, the second of which is dead.
fn raid() -> (Vec<u8>, Vec<Vec<u8>>) {
    let mut w: Vec<u8> = vec![0; 0x400];
    put(&mut w, 0x10, 1);
    put(&mut w, 0x20, 0x1100);
    put(&mut w, 0x110, 0x1200);
    put(&mut w, 0x118, 3);
    put(&mut w, 0x218, 4);
    put(&mut w, 0x220, 0x1_0000);
    put(&mut w, 0x228, 0x2_0000);
    put(&mut w, 0x230, 0x3_0000);
    put(&mut w, 0x238, 0x4_0000);
    let mut ps: Vec<Vec<u8>> = vec![vec![0; 0xc00]; 3];
    put(&mut ps[0], 0x10, 1);
    put(&mut ps[0], 0x88, 5);
    put(&mut ps[2], 0x10, 1);
    put(&mut ps[2], 0x88, 5);
    ps[2][0x80] = 1;
    (w, ps)
}

fn raid_view<'a>(w: &'a Vec<u8>, ps: &'a Vec<Vec<u8>>) -> Memory<'a> {
    let mut mem: Memory<'a> = Memory::new();
    assert!(mem.add(0x1000, w));
    for k in 0..ps.len() {
        assert!(mem.add(0x1_0000 * (k as u64 + 1), &ps[k]));
    }
    mem
}

#[test]
fn players_are_listed_and_told_apart() {
    let (w, ps) = raid();
    let mem: Memory = raid_view(&w, &ps);
    let list: Vec<u64> = players(&mem, 0x20, Object(0x1000)).unwrap();
    assert_eq!(list, vec![0x1_0000, 0x3_0000]);
    assert!(is_bot(&mem, &RAID, 0x1_0000));
    assert!(!is_local(&mem, &RAID, 0x1_0000));
    // The local player has the data of a bot, and is none.
    assert!(is_local(&mem, &RAID, 0x3_0000));
    assert!(!is_bot(&mem, &RAID, 0x3_0000));
    assert_eq!(find_local(&mem, &RAID, &list), Some(0x3_0000));
    assert_eq!(players(&mem, 0x28, Object(0x1000)), None);
    assert_eq!(players(&mem, 0x20, Object(0)), None);
    let zero: Vec3 = Vec3 { x: 0, y: 0, z: 0 };
    let ahead: Vec3 = Vec3 { x: 0, y: 0, z: 2.0f32.to_bits() };
    let behind: Vec3 = Vec3 { x: 0, y: 0, z: (-2.0f32).to_bits() };
    let sights: Vec<Sight> = vec![
        Sight { pos: zero, screen: ahead, dist: 3.0f32.to_bits() },
        Sight { pos: zero, screen: behind, dist: 0 },
    ];
    let out: Vec<Entry> = classify(&mem, &RAID, &list, &sights);
    assert_eq!(out.len(), 2);
    assert!(out[0].on_screen && out[0].is_bot && out[0].ptr == 0x1_0000);
    assert!(!out[1].on_screen && out[1].is_local);
    assert_eq!(out[0].dist, 3.0f32.to_bits());
    let mut wd: World = World::new();
    publish(&mut wd, out);
    assert_eq!(snapshot(&wd).len(), 2);
}

#[test]
fn a_look_publishes_what_was_seen() {
    let (w, ps) = raid();
    let mem: Memory = raid_view(&w, &ps);
    let zero: Vec3 = Vec3 { x: 0, y: 0, z: 0 };
    let sight: Sight = Sight { pos: zero, screen: zero, dist: 3.0f32.to_bits() };
    let mut wd: World = World::new();
    set_enabled(&mut wd, true);
    look(&mut wd, &mem, &RAID, Some(vec![0x1_0000, 0x3_0000]), &vec![sight, sight]);
    let seen: Vec<(u64, u32)> = snapshot(&wd).iter().map(|e| (e.ptr, e.dist)).collect();
    assert_eq!(seen, vec![(0x1_0000, 3.0f32.to_bits()), (0x3_0000, 3.0f32.to_bits())]);
    // Nobody is the local player: nothing is known of the distance.
    look(&mut wd, &mem, &RAID, Some(vec![0x1_0000]), &vec![sight]);
    let seen: Vec<(u64, u32)> = snapshot(&wd).iter().map(|e| (e.ptr, e.dist)).collect();
    assert_eq!(seen, vec![(0x1_0000, 0)]);
    // No list: nothing is left.
    look(&mut wd, &mem, &RAID, None, &Vec::new());
    assert!(snapshot(&wd).is_empty());
    assert!(is_enabled(&wd));
}

#[test]
fn the_raid_snapshot_is_taken_at_intervals() {
    let mut w: World = World::new();
    assert!(!tick(&mut w, true, 5));
    set_enabled(&mut w, true);
    assert!(is_enabled(&w));
    assert!(!tick(&mut w, false, 5));
    assert!(tick(&mut w, true, 5));
    assert!(!tick(&mut w, true, 250_000_004));
    assert!(tick(&mut w, true, 250_000_005));
}

fn mono_method(method: u64, name: &str, generic: bool, params: Option<u32>) -> MethodInfo {
    MethodInfo { method, name: name.to_string(), generic, params }
}

#[test]
fn mono_overloads_are_told_apart() {
    let ms: Vec<MethodInfo> = vec![
        mono_method(1, "Find", true, Some(1)),
        mono_method(2, "Find", false, Some(2)),
        mono_method(3, "Find", false, None),
        mono_method(4, "Find", false, Some(1)),
    ];
    assert_eq!(find_method_exact(&ms, "Find", 1), Some(4));
    assert_eq!(find_method_exact(&ms, "Find", 2), Some(2));
    assert_eq!(find_method_exact(&ms, "find", 1), None);
    assert!(matches!(lookup(5), Lookup::Ask(5)));
    assert!(matches!(lookup(0), Lookup::Missing));
    assert!(matches!(lookup_next(9, 6), Lookup::Found(9)));
    assert!(matches!(lookup_next(0, 6), Lookup::Ask(6)));
    assert!(matches!(lookup_next(0, 0), Lookup::Missing));
    assert!(matches!(load_with_retry(true, 9, 1), LoadWait::Loaded));
    assert!(matches!(load_with_retry(false, 1, 1), LoadWait::GiveUp));
    assert!(matches!(load_with_retry(false, 0, 1), LoadWait::Sleep));
    assert_eq!(assembly_path("C:\\M", "Assembly-CSharp"), "C:\\M\\Assembly-CSharp.dll");
    assert_eq!(class_raw(Class(3)), 3);
    assert_eq!(obj_raw(Object(4)), 4);
}
