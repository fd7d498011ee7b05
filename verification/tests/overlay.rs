//! The overlay's layout, clicks and redraws, and the chams state machine.

use eft_trainer::chams::{
    array_elements, assign_fill, assign_made, assign_own, assign_start, cached_walk, can_assign,
    capture, cham_renderer, child_count, choose_players, choose_shader,
    configure_material, cycle_scheme, cycle_style, ensure_material, enumerate_players, freeze_walk,
    material_built, must_search, on_unload, restorable, rim_name, scheme, scheme_name, self_test_array_new,
    set_enabled, set_scheme, set_style, shader_candidates, shaders_listed, status, style_name, template_of, tick,
    toggle, union_renderers, walk_this, wants_cham, AssignStep, Chams, MatOp, RendererStep, Rgba, Tick, TreeWalk, SCHEMES,
    STYLES, STYLE_GLOW, STYLE_MESH,
};
use eft_trainer::console::{push, Console};
use eft_trainer::features::Features;
use eft_trainer::input::Pointer;
use eft_trainer::memory::Memory;
use eft_trainer::menu::{
    build_ui, built, count_frame, cursor, decide, enter_frame, fps, frame_count, hit_rect,
    is_visible, leave_frame, onframe_us, place_rect, press, redraw, request_unload, set_domain,
    set_fps, set_status, set_visible, status_dirty, status_snapshot, tab_rect, tab_tone, throttle_ok,
    tick_fps, tone, Act, Action, Control, FrameFacts, Hits, Keys, Kind, LRect, Menu, Next, Part, Place,
    Tone, UiPlan, CONTENT_H, CONTENT_W, CONTENT_X, CONTENT_Y, N_TABS, WIN_H, WIN_W,
};
use eft_trainer::runtime::{Domain, Object, Store};

fn put(b: &mut Vec<u8>, at: usize, v: u64) {
    b[at..at + 8].copy_from_slice(&v.to_le_bytes());
}

fn controls() -> Vec<Control> {
    let mut v: Vec<Control> = vec![Control::Close];
    for i in 0..N_TABS {
        v.push(Control::Tab(i));
    }
    v.push(Control::Chams);
    v.push(Control::Style);
    v.push(Control::Scheme);
    v.push(Control::Stamina);
    v.push(Control::Speed);
    v.push(Control::SpeedMinus);
    v.push(Control::SpeedPlus);
    v.push(Control::Config);
    v
}

#[test]
fn every_control_lies_in_the_window() {
    for c in controls() {
        let r: LRect = hit_rect(c);
        assert!(r.x >= 0 && r.y >= 0 && r.x + r.w <= WIN_W && r.y + r.h <= WIN_H);
    }
    assert_eq!(tab_rect(2), LRect { x: 174, y: 20, w: 84, h: 22 });
    assert_eq!(place_rect(Control::Close), LRect { x: 500, y: 2, w: 18, h: 18 });
    assert_eq!(hit_rect(Control::Close), place_rect(Control::Close));
    // What stands on a content is hit with the offset of the content.
    assert_eq!(place_rect(Control::Chams), LRect { x: 14, y: 16, w: 240, h: 18 });
    assert_eq!(hit_rect(Control::Chams), LRect { x: 17, y: 58, w: 240, h: 18 });
    assert_eq!(hit_rect(Control::SpeedPlus), LRect { x: 235, y: 84, w: 24, h: 22 });
    assert_eq!((CONTENT_X, CONTENT_Y, CONTENT_W, CONTENT_H), (3, 42, 514, 336));
}

#[test]
fn controls_of_one_tab_do_not_overlap() {
    let misc: [Control; 5] = [
        Control::Stamina,
        Control::Speed,
        Control::SpeedMinus,
        Control::SpeedPlus,
        Control::Config,
    ];
    for i in 0..misc.len() {
        for j in 0..i {
            let a: LRect = hit_rect(misc[i]);
            let b: LRect = hit_rect(misc[j]);
            let apart: bool =
                a.x + a.w < b.x || b.x + b.w < a.x || a.y + a.h < b.y || b.y + b.h < a.y;
            assert!(apart);
        }
    }
}

#[test]
fn the_tree_is_built_parents_first() {
    let plan: UiPlan = build_ui(1);
    let (nodes, h) = (&plan.nodes, plan.handles);
    assert_eq!(nodes.len(), 42);
    for i in 1..nodes.len() {
        assert!(nodes[i].parent < i);
    }
    assert_eq!(nodes[h.fps].label, "-- fps");
    assert_eq!(nodes[h.style].label, "Style: flat");
    assert_eq!(nodes[h.scheme].label, "Scheme: plasma");
    assert_eq!(nodes[h.speed_value].label, "x1.00");
    assert_eq!(nodes[h.tabs + 3].label, "Visuals");
    assert_eq!(nodes[h.contents + 1].name, "content");
    // A checkbox stands where a click on it lands.
    let b = &nodes[h.chams_check - 1];
    assert!(matches!(b.place, Place::At(LRect { x: 14, y: 18, w: 14, h: 14 })));
    assert_eq!(tone(Tone::Navy), (0, 0, 502));
    assert_eq!(tone(Tone::Face), (753, 753, 753));
    assert!(matches!(tab_tone(true), Tone::Face));
    assert!(matches!(tab_tone(false), Tone::TabOff));
}

#[test]
fn the_pointer_has_a_canvas_of_its_own() {
    let plan: UiPlan = build_ui(0);
    assert_eq!((plan.root.name, plan.root.order), ("eftMenu_canvas", 999));
    assert_eq!((plan.pointer_canvas.name, plan.pointer_canvas.order), ("eftMenu_cursorcv", 1000));
    let p: Vec<(&str, usize, Place)> =
        plan.pointer_nodes.iter().map(|n| (n.name, n.parent, n.place)).collect();
    assert_eq!(
        p,
        vec![
            ("cursor", 0, Place::Corner(0, 0)),
            ("cur_h", 0, Place::Centre(18, 2)),
            ("cur_v", 0, Place::Centre(2, 18)),
        ]
    );
    assert!(matches!(plan.pointer_nodes[0].kind, Kind::Panel { shown: false, .. }));
    assert!(matches!(plan.pointer_nodes[1].tone, Tone::Pointer));
}

#[test]
fn the_active_tab_is_shown_from_the_start() {
    for (tab, want) in [(0usize, 0usize), (2, 2), (3, 3), (9, 3), (usize::MAX, 3)] {
        let plan: UiPlan = build_ui(tab);
        assert_eq!(plan.tabs.len(), N_TABS);
        for (i, t) in plan.tabs.iter().enumerate() {
            assert_eq!(t.active, i == want);
            assert_eq!(t.tone, tab_tone(i == want));
        }
    }
}

fn no_hits() -> Hits {
    Hits {
        close: false,
        tab0: false,
        tab1: false,
        tab2: false,
        tab3: false,
        chams: false,
        style: false,
        scheme: false,
        stamina: false,
        speed: false,
        minus: false,
        plus: false,
        config: false,
    }
}

fn keys(insert: bool, button: bool, hits: Hits) -> Keys {
    Keys { insert, button, hits }
}

#[test]
fn insert_toggles_once_per_press() {
    let mut m: Menu = Menu::new();
    let mut c: Chams = Chams::new();
    let mut f: Features = Features::new();
    assert!(is_visible(&m));
    assert_eq!(press(&mut m, &mut c, &mut f, keys(true, false, no_hits())), (false, false));
    assert_eq!(press(&mut m, &mut c, &mut f, keys(true, false, no_hits())), (false, false));
    assert_eq!(press(&mut m, &mut c, &mut f, keys(false, false, no_hits())), (false, false));
    assert_eq!(press(&mut m, &mut c, &mut f, keys(true, false, no_hits())), (true, false));
    assert!(is_visible(&m));
}

#[test]
fn a_click_acts_on_one_control() {
    let mut m: Menu = Menu::new();
    let mut c: Chams = Chams::new();
    let mut f: Features = Features::new();
    // The active tab is that of the visuals.
    let both: Hits = Hits { chams: true, stamina: true, ..no_hits() };
    press(&mut m, &mut c, &mut f, keys(false, true, both));
    assert!(c.enabled);
    assert!(!f.stamina);
    // Held down it acts no more.
    press(&mut m, &mut c, &mut f, keys(false, true, both));
    assert!(c.enabled);
    press(&mut m, &mut c, &mut f, keys(false, false, no_hits()));
    // A tab goes before the controls.
    press(&mut m, &mut c, &mut f, keys(false, true, Hits { tab2: true, stamina: true, ..no_hits() }));
    assert_eq!(m.tab, 2);
    assert!(!f.stamina);
    press(&mut m, &mut c, &mut f, keys(false, false, no_hits()));
    press(&mut m, &mut c, &mut f, keys(false, true, both));
    assert!(f.stamina);
    assert!(c.enabled);
    press(&mut m, &mut c, &mut f, keys(false, false, no_hits()));
    press(&mut m, &mut c, &mut f, keys(false, true, Hits { plus: true, ..no_hits() }));
    assert_eq!(f.mult, (1.0f32 + 0.05).to_bits());
    press(&mut m, &mut c, &mut f, keys(false, false, no_hits()));
    // The close box goes before everything.
    let r: (bool, bool) =
        press(&mut m, &mut c, &mut f, keys(false, true, Hits { close: true, tab0: true, ..no_hits() }));
    assert_eq!(r, (true, true));
    assert_eq!(m.tab, 2);
}

#[test]
fn a_closed_overlay_takes_no_click() {
    let mut m: Menu = Menu::new();
    let mut c: Chams = Chams::new();
    let mut f: Features = Features::new();
    set_visible(&mut m, false);
    press(&mut m, &mut c, &mut f, keys(false, true, Hits { chams: true, close: true, ..no_hits() }));
    assert!(!c.enabled);
}

#[test]
fn a_frame_unloads_before_it_hides_or_builds() {
    let mut m: Menu = Menu::new();
    assert!(matches!(decide(&mut m, false), Next::Build));
    assert!(built(&mut m, true, true, true));
    assert!(matches!(decide(&mut m, false), Next::Redraw));
    assert!(matches!(decide(&mut m, true), Next::Hide(true)));
    assert!(!is_visible(&m));
    request_unload(&mut m);
    assert!(matches!(decide(&mut m, true), Next::Unload));
    let mut n: Menu = Menu::new();
    assert!(matches!(decide(&mut n, true), Next::Hide(false)));
    assert!(!built(&mut n, false, false, false));
    assert!(matches!(decide(&mut n, false), Next::Disabled));
    // One canvas is not enough.
    for (root, pointer) in [(false, true), (true, false)] {
        let mut k: Menu = Menu::new();
        assert!(!built(&mut k, true, root, pointer));
        assert!(matches!(decide(&mut k, false), Next::Disabled));
    }
}

#[test]
fn the_cost_of_frames_is_kept() {
    let mut m: Menu = Menu::new();
    assert_eq!(onframe_us(&m), (0, 0, 0));
    for us in [30u64, 10, 20] {
        assert!(enter_frame(&mut m));
        assert!(!enter_frame(&mut m));
        count_frame(&mut m);
        leave_frame(&mut m, us);
    }
    assert_eq!(frame_count(&m), 3);
    assert_eq!(onframe_us(&m), (20, 30, 20));
    set_domain(&mut m, Domain(5));
    set_domain(&mut m, Domain(6));
    assert_eq!(m.domain, Some(Domain(5)));
    assert_eq!(cursor(&Pointer { x: 3, y: 4 }), (3, 4));
}

#[test]
fn frames_are_counted_per_half_second() {
    let mut m: Menu = Menu::new();
    assert_eq!(tick_fps(&mut m, 1_000_000_000), None);
    assert_eq!(tick_fps(&mut m, 1_200_000_000), None);
    assert_eq!(tick_fps(&mut m, 1_500_000_000), Some((3, 500_000_000)));
    assert_eq!(tick_fps(&mut m, 1_600_000_000), None);
    set_fps(&mut m, 6);
    assert_eq!(fps(&m), 6);
    assert!(throttle_ok(&mut m, 5));
    assert!(!throttle_ok(&mut m, 33_000_004));
    assert!(throttle_ok(&mut m, 33_000_005));
}

#[test]
fn the_status_row_is_taken_once() {
    let mut m: Menu = Menu::new();
    assert!(!status_dirty(&mut m));
    set_status(&mut m, "stamina  50.0".to_string());
    assert_eq!(status_snapshot(&m), "stamina  50.0");
    assert!(status_dirty(&mut m));
    assert!(!status_dirty(&mut m));
}

fn facts(visible: bool, now: u64, at: (i32, i32)) -> FrameFacts {
    FrameFacts { visible, pointer: at, now, speed: "x1.00".to_string(), can_hide: true }
}

#[test]
fn a_redraw_touches_only_what_changed() {
    let mut m: Menu = Menu::new();
    let mut c: Chams = Chams::new();
    let f: Features = Features::new();
    let mut con: Console = Console::new();
    push(&mut con, "hello".to_string());
    let first: Vec<Action> = redraw(&mut m, &c, &f, &mut con, facts(true, 0, (5, 6)));
    let acts: Vec<Act> = first.iter().map(|a| a.act).collect();
    assert_eq!(acts[0], Act::Active(Part::Root, true));
    assert_eq!(acts[1], Act::Active(Part::PointerCanvas, true));
    assert_eq!(acts[2], Act::Seed);
    assert_eq!(acts[3], Act::Pointer(5, 6));
    assert_eq!(acts[4], Act::HideSystemPointer);
    let texts: Vec<(Act, &str)> =
        first.iter().filter(|a| !a.text.is_empty()).map(|a| (a.act, a.text.as_str())).collect();
    assert_eq!(
        texts,
        vec![
            (Act::Label(Part::Fps), "0 fps"),
            (Act::Label(Part::Style), "Style: flat"),
            (Act::Label(Part::Scheme), "Scheme: plasma"),
            (Act::Label(Part::SpeedValue), "x1.00"),
            (Act::Label(Part::Console), "hello"),
        ]
    );
    // Nothing moved, nothing changed: only the system's pointer is kept away.
    let quiet: Vec<Action> = redraw(&mut m, &c, &f, &mut con, facts(true, 40_000_000, (5, 6)));
    assert_eq!(quiet.len(), 1);
    assert_eq!(quiet[0].act, Act::HideSystemPointer);
    // Within the interval only the pointer is drawn.
    toggle(&mut c);
    let soon: Vec<Action> = redraw(&mut m, &c, &f, &mut con, facts(true, 50_000_000, (7, 6)));
    assert_eq!(soon.len(), 2);
    assert_eq!(soon[0].act, Act::Pointer(7, 6));
    let later: Vec<Action> = redraw(&mut m, &c, &f, &mut con, facts(true, 80_000_000, (7, 6)));
    assert_eq!(later.len(), 2);
    assert_eq!(later[1].act, Act::Check(Part::Chams, true));
    // Closed, it is hidden once and then left alone.
    let hidden: Vec<Action> = redraw(&mut m, &c, &f, &mut con, facts(false, 90_000_000, (9, 9)));
    assert_eq!(hidden.len(), 2);
    assert!(redraw(&mut m, &c, &f, &mut con, facts(false, 200_000_000, (1, 1))).is_empty());
}

#[test]
fn styles_and_schemes_go_round() {
    let mut c: Chams = Chams::new();
    assert_eq!(style_name(&c), "flat");
    cycle_style(&mut c);
    assert_eq!(style_name(&c), "glow");
    assert!(c.apply);
    for _ in 1..STYLES {
        cycle_style(&mut c);
    }
    assert_eq!(style_name(&c), "flat");
    for _ in 0..SCHEMES {
        cycle_scheme(&mut c);
    }
    assert_eq!(scheme_name(&c), "plasma");
    set_scheme(&mut c, 2 * SCHEMES + 3);
    set_style(&mut c, STYLES + 2);
    assert_eq!(status(&c), (false, 3, "void", 6, "mesh"));
    assert_eq!(scheme(1).vis, Rgba { r: 100, g: 60, b: 25, a: 100 });
}

#[test]
fn the_material_follows_style_and_scheme() {
    let mut c: Chams = Chams::new();
    let flat: Vec<MatOp> = configure_material(&c);
    assert_eq!(flat.len(), 7);
    assert!(matches!(flat[0], MatOp::Int("_ZTest", 8)));
    assert!(matches!(flat[2], MatOp::Queue(4000)));
    assert!(matches!(flat[6], MatOp::Color("_Color", Rgba { r: 0, g: 95, b: 100, a: 100 })));
    set_style(&mut c, STYLE_MESH);
    let mesh: Vec<MatOp> = configure_material(&c);
    assert!(matches!(mesh[6], MatOp::Color("_Color", Rgba { r: 55, g: 100, b: 100, a: 45 })));
    set_style(&mut c, STYLE_GLOW);
    assert!(matches!(configure_material(&c)[4], MatOp::Int("_DstBlend", 1)));
    // With a rim shader the rim is set under every name.
    assert_eq!(shader_candidates()[1], "Hidden/Rim");
    let ch = choose_shader(&mut c, &vec![0, 7, 9]).unwrap();
    assert!(ch.rim && ch.shader == 7);
    assert_eq!(configure_material(&c).len(), 15);
    assert_eq!(choose_shader(&mut c, &vec![5]).unwrap().shader, 7);
    let mut d: Chams = Chams::new();
    assert!(choose_shader(&mut d, &vec![0, 0]).is_none());
    assert!(!choose_shader(&mut d, &vec![0, 0, 0, 4]).unwrap().rim);
}

#[test]
fn shader_names_are_known_whatever_their_case() {
    assert!(rim_name("Custom/RIM Light"));
    assert!(rim_name("FX/Fresnel"));
    assert!(rim_name("OutLine"));
    assert!(rim_name("AutoGlow"));
    assert!(!rim_name("Unlit/Color"));
}

#[test]
fn what_was_captured_is_given_back_once() {
    let mut c: Chams = Chams::new();
    set_enabled(&mut c, true);
    assert!(matches!(tick(&mut c, true, 10, Object(0x1000)), Tick::Pass(false)));
    capture(&mut c, Object(0x50), Object(0x60));
    capture(&mut c, Object(0x51), Object(0x61));
    assert!(matches!(tick(&mut c, true, 20, Object(0x1000)), Tick::Idle));
    set_enabled(&mut c, false);
    match tick(&mut c, true, 30, Object(0x1000)) {
        Tick::Restore(mut list) => {
            // In no particular order.
            list.sort();
            assert_eq!(list, vec![(0x50, 0x60), (0x51, 0x61)]);
        },
        _ => {
            panic!("nothing is given back");
        },
    }
    assert!(matches!(tick(&mut c, true, 40, Object(0x1000)), Tick::Idle));
    assert!(on_unload(&mut c).is_empty());
}

#[test]
fn another_world_starts_anew() {
    let mut c: Chams = Chams::new();
    set_enabled(&mut c, true);
    cycle_style(&mut c);
    assert!(matches!(tick(&mut c, true, 0, Object(0x1000)), Tick::Pass(true)));
    capture(&mut c, Object(0x50), Object(0x60));
    material_built(&mut c, 0x70);
    freeze_walk(&mut c, 0x80, vec![1, 2]);
    assert_eq!(cached_walk(&c, 0x80), Some(&vec![1, 2]));
    assert!(matches!(tick(&mut c, true, 500_000_000, Object(0x2000)), Tick::Pass(false)));
    assert_eq!(c.material, 0);
    assert_eq!(cached_walk(&c, 0x80), None);
    assert!(c.originals.is_empty());
    capture(&mut c, Object(0x52), Object(0x62));
    assert_eq!(on_unload(&mut c), vec![(0x52, 0x62)]);
    assert!(!c.enabled);
    // Without what it needs the feature switches itself off.
    set_enabled(&mut c, true);
    assert!(matches!(tick(&mut c, false, 600_000_000, Object(0x2000)), Tick::Idle));
    assert!(!c.enabled);
}

/// Renderers at 0x1000 (alive) and 0x1100 (not), an array of three at 0x1200.
fn scene() -> Vec<u8> {
    let mut b: Vec<u8> = vec![0; 0x400];
    put(&mut b, 0x10, 1);
    put(&mut b, 0x218, 3);
    put(&mut b, 0x220, 0x1000);
    put(&mut b, 0x230, 0x1100);
    b
}

#[test]
fn only_living_renderers_are_touched() {
    let b: Vec<u8> = scene();
    let mut mem: Memory = Memory::new();
    assert!(mem.add(0x1000, &b));
    let mut c: Chams = Chams::new();
    assert!(wants_cham(&c, &mem, Object(0x1000)));
    assert!(!wants_cham(&c, &mem, Object(0x1100)));
    assert!(!wants_cham(&c, &mem, Object(0)));
    capture(&mut c, Object(0x1000), Object(0x1200));
    assert!(!wants_cham(&c, &mem, Object(0x1000)));
    assert!(restorable(&mem, 0x1000, 0x1200));
    assert!(!restorable(&mem, 0x1000, 0));
    assert!(!restorable(&mem, 0x1100, 0x1200));
    assert_eq!(array_elements(&mem, Object(0x1200), 10), vec![0x1000, 0x1100]);
    assert_eq!(array_elements(&mem, Object(0x1200), 2), Vec::<u64>::new());
    assert_eq!(template_of(&mem, Object(0x1200)), Some((3, Object(0x1000))));
    assert_eq!(template_of(&mem, Object(0)), None);
    material_built(&mut c, 0x1000);
    assert_eq!(ensure_material(&mut c, &mem), Some(0x1000));
    material_built(&mut c, 0x1100);
    assert_eq!(ensure_material(&mut c, &mem), None);
    assert_eq!(c.material, 0);
}

#[test]
fn what_a_renderer_had_is_kept_before_it_is_touched() {
    let b: Vec<u8> = scene();
    let mut mem: Memory = Memory::new();
    assert!(mem.add(0x1000, &b));
    let mut c: Chams = Chams::new();
    let r: Object = Object(0x1000);
    let had: Object = Object(0x1200);
    assert_eq!(cham_renderer(&mut c, &mem, r, had, None), RendererStep::Build(Object(0x1000)));
    assert!(c.originals.is_empty());
    assert_eq!(cham_renderer(&mut c, &mem, r, had, Some(9)), RendererStep::Assign(9, 3));
    assert!(c.originals.contains_key(&0x1000));
    // It is touched once.
    assert_eq!(cham_renderer(&mut c, &mem, r, had, Some(9)), RendererStep::Skip);
    assert_eq!(cham_renderer(&mut c, &mem, Object(0x1100), had, Some(9)), RendererStep::Skip);
    let mut d: Chams = Chams::new();
    assert_eq!(cham_renderer(&mut d, &mem, r, Object(0), Some(9)), RendererStep::Skip);
    assert_eq!(on_unload(&mut c), vec![(0x1000, 0x1200)]);
}

#[test]
fn every_slot_gets_the_fill() {
    assert!(can_assign(1, 64));
    assert!(!can_assign(1, 65));
    assert!(!can_assign(1, 0));
    assert!(!can_assign(0, 2));
    assert_eq!(
        assign_fill(Object(0x1000), 0x77, 2),
        Some(vec![
            Store { addr: 0x1020, width: 8, value: 0x77 },
            Store { addr: 0x1028, width: 8, value: 0x77 },
        ])
    );
    assert_eq!(assign_fill(Object(u64::MAX - 8), 0x77, 2), None);
    assert_eq!(assign_fill(Object(0x1000), 0, 2), None);
    assert_eq!(assign_fill(Object(0x1000), 0x77, 65), None);
    assert_eq!(assign_fill(Object(0x1000), 0x77, 0), None);
    let mut b: Vec<u8> = vec![0; 0x40];
    put(&mut b, 0x18, 2);
    let mut mem: Memory = Memory::new();
    assert!(mem.add(0x1000, &b));
    assert!(self_test_array_new(&mem, Object(0x1000)));
    let mut d: Vec<u8> = b.clone();
    d[0x28] = 1;
    let mut other: Memory = Memory::new();
    assert!(other.add(0x1000, &d));
    assert!(!self_test_array_new(&other, Object(0x1000)));
}

#[test]
fn renderers_are_listed_once_in_order() {
    assert_eq!(union_renderers(&vec![3, 1, 3], &vec![2, 1, 4]), vec![3, 1, 2, 4]);
    let mut w: TreeWalk = TreeWalk::new(Object(9));
    assert_eq!(w.next(), Some(Object(9)));
    w.found(Object(100));
    w.found(Object(0));
    w.child(Object(10));
    w.child(Object(11));
    w.child(Object(0));
    assert_eq!(w.next(), Some(Object(11)));
    assert_eq!(w.next(), Some(Object(10)));
    assert_eq!(w.next(), None);
    assert_eq!(w.out, vec![100]);
    assert_eq!(TreeWalk::new(Object(0)).next(), None);
    let mut capped: TreeWalk = TreeWalk { stack: vec![1, 2], visited: 4096, out: Vec::new() };
    assert_eq!(capped.next(), None);
}

#[test]
fn the_local_player_is_walked() {
    // A world at 0x1000: its player list at 0x20, its main player at 0x28.
    let mut b: Vec<u8> = vec![0; 0x400];
    put(&mut b, 0x10, 1);
    put(&mut b, 0x20, 0x1100);
    put(&mut b, 0x28, 0x9000);
    put(&mut b, 0x110, 0x1200);
    put(&mut b, 0x118, 2);
    put(&mut b, 0x218, 8);
    put(&mut b, 0x220, 0x9000);
    put(&mut b, 0x228, 0x9100);
    let mut mem: Memory = Memory::new();
    assert!(mem.add(0x1000, &b));
    assert_eq!(enumerate_players(&mem, Some(0x20), Object(0x1000)), vec![0x9000, 0x9100]);
    assert_eq!(enumerate_players(&mem, None, Object(0x1000)), Vec::<u64>::new());
    assert!(walk_this(&mem, Some(0x28), Object(0x1000), 0x9000));
    assert!(!walk_this(&mem, Some(0x28), Object(0x1000), 0x9100));
    assert!(walk_this(&mem, None, Object(0x1000), 0x9100));
    let mut n: Vec<u8> = vec![0; 0x20];
    n[0x10] = 7;
    let mut boxed: Memory = Memory::new();
    assert!(boxed.add(0x1000, &n));
    assert_eq!(child_count(&boxed, Object(0x1000)), 7);
}

#[test]
fn players_are_searched_for_only_where_none_are_listed() {
    let mut b: Vec<u8> = vec![0; 0x40];
    put(&mut b, 0x18, 2);
    put(&mut b, 0x20, 0x77);
    put(&mut b, 0x28, 0x78);
    let mut around: Memory = Memory::new();
    assert!(around.add(0x1000, &b));
    let mut w: Vec<u8> = vec![0; 0x40];
    put(&mut w, 0x10, 1);
    let mut mem: Memory = Memory::new();
    assert!(mem.add(0x2000, &w));
    let (here, gone): (Object, Object) = (Object(0x2000), Object(0x2008));
    assert!(!must_search(&mem, here, &vec![5]));
    assert!(must_search(&mem, here, &Vec::new()));
    assert!(!must_search(&mem, gone, &Vec::new()));
    let found: Option<Object> = Some(Object(0x1000));
    assert_eq!(choose_players(&mem, here, vec![5], &around, found), vec![5]);
    assert_eq!(choose_players(&mem, here, Vec::new(), &around, found), vec![0x77, 0x78]);
    assert!(choose_players(&mem, here, Vec::new(), &around, Some(Object(0))).is_empty());
    assert!(choose_players(&mem, here, Vec::new(), &around, None).is_empty());
    // No world is loaded: nobody is there.
    assert!(choose_players(&mem, gone, Vec::new(), &around, found).is_empty());
    assert!(choose_players(&mem, Object(0), vec![5], &around, found).is_empty());
}

#[test]
fn the_material_goes_into_a_new_array_or_the_renderers_own() {
    assert!(matches!(assign_start(true, 0, 2), AssignStep::Refuse));
    assert!(matches!(assign_start(true, 7, 0), AssignStep::Refuse));
    assert!(matches!(assign_start(true, 7, 2), AssignStep::Make(2)));
    assert!(matches!(assign_start(false, 7, 2), AssignStep::Ask));
    assert!(matches!(assign_made(None, 7, 2), AssignStep::Ask));
    match assign_made(Some(Object(0x5000)), 7, 2) {
        AssignStep::Hand { arr, shared, stores } => {
            assert_eq!(arr, Object(0x5000));
            assert!(shared);
            let at: Vec<(u64, u64)> = stores.iter().map(|s: &Store| (s.addr, s.value)).collect();
            assert_eq!(at, vec![(0x5020, 7), (0x5028, 7)]);
        }
        _ => panic!("no array is handed over"),
    }
    let mut b: Vec<u8> = vec![0; 0x40];
    put(&mut b, 0x18, 1);
    let mut mem: Memory = Memory::new();
    assert!(mem.add(0x1000, &b));
    match assign_own(&mem, Some(Object(0x1000)), 7) {
        AssignStep::Hand { shared, stores, .. } => {
            assert!(!shared);
            assert_eq!(stores.len(), 1);
        }
        _ => panic!("no array is handed over"),
    }
    assert!(matches!(assign_own(&mem, Some(Object(0)), 7), AssignStep::Refuse));
    assert!(matches!(assign_own(&mem, None, 7), AssignStep::Refuse));
}

#[test]
fn only_a_plausible_number_of_shaders_is_looked_at() {
    let want: [(u64, Option<u64>); 7] = [
        (0, None),
        (1, Some(1)),
        (399, Some(399)),
        (400, Some(400)),
        (401, Some(400)),
        (8192, Some(400)),
        (8193, None),
    ];
    for (n, r) in want {
        assert_eq!(shaders_listed(n), r);
    }
}

#[test]
fn the_average_stays_below_the_longest_though_the_total_wraps() {
    let mut m: Menu = Menu::new();
    for us in [u64::MAX, 7, 9] {
        assert!(enter_frame(&mut m));
        count_frame(&mut m);
        leave_frame(&mut m, us);
    }
    assert_eq!(onframe_us(&m), (9, u64::MAX, 5));
}
