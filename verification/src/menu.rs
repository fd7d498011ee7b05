//! The overlay: a window with tabs, its layout, what a click does, and what is
//! redrawn.
//!
//! Every clickable region is a rectangle in pixels, from the top left of the
//! window or of its content. The same rectangle places the widget and is tested
//! against the click, so that the two cannot drift.
//!
//! The engine's own calls are made by the caller: it builds the nodes listed
//! here and carries out the actions returned here.

use vstd::prelude::*;

use crate::chams;
use crate::chams::Chams;
use crate::console;
use crate::console::Console;
use crate::features;
use crate::features::Features;
use crate::input::Pointer;
use crate::runtime::{Class, Domain, Method, Object, ScriptRuntime};
use crate::symbols;
use crate::symbols::{find_class, unity};
use crate::text;
use crate::text::{copy_of, push_decimal, same};

verus! {

// ── resolution ───────────────────────────────────────────────────────────────

/// A class of the engine's user interface.
pub open spec fn ui_class(name: Seq<char>) -> (Seq<char>, Seq<char>, Seq<char>) {
    (symbols::assembly::UNITY_UI@, symbols::ns::UNITY_UI@, name)
}

/// What was made on the way, null where it could not be.
#[derive(Copy, Clone, PartialEq, Eq, Debug, Structural)]
pub struct UiObjects {
    pub ty_canvas: Object,
    pub ty_image: Object,
    pub ty_text: Object,
    pub ty_rect_tf: Object,
    pub font: Object,
}

/// Everything that the overlay calls, looked up once; a method that is missing
/// is null, and calling it does nothing.
#[derive(Copy, Clone, PartialEq, Eq, Debug, Structural)]
pub struct Methods {
    pub go_cls: Class,
    pub go_ctor_name: Method,
    pub go_add_comp: Method,
    pub go_get_comp: Method,
    pub go_set_active: Method,
    pub go_dont_destroy: Method,
    pub obj_destroy: Method,
    pub tf_set_parent: Method,
    pub rt_anc_min: Method,
    pub rt_anc_max: Method,
    pub rt_anc_pos: Method,
    pub rt_size_delta: Method,
    pub rt_off_min: Method,
    pub rt_off_max: Method,
    pub rt_pivot: Method,
    pub cv_render_mode: Method,
    pub cv_sort_order: Method,
    pub gr_color: Method,
    pub gr_raycast: Method,
    pub tx_text: Method,
    pub tx_font: Method,
    pub tx_font_size: Method,
    pub tx_alignment: Method,
    pub tx_horiz: Method,
    pub tx_vert: Method,
    pub cur_set_visible: Method,
    pub made: UiObjects,
}

/// The classes that the overlay is built of are all there.
pub open spec fn ui_classes<R: ScriptRuntime>(rt: &R) -> bool {
    &&& symbols::class_in(rt, chams::engine("GameObject"@)) is Some
    &&& symbols::class_in(rt, chams::engine("Object"@)) is Some
    &&& symbols::class_in(rt, chams::engine("Transform"@)) is Some
    &&& symbols::class_in(rt, chams::engine("RectTransform"@)) is Some
    &&& symbols::class_in(rt, (symbols::assembly::UNITY_UI_MODULE@, symbols::ns::UNITY@, "Canvas"@)) is Some
    &&& symbols::class_in(rt, ui_class("Graphic"@)) is Some
    &&& symbols::class_in(rt, ui_class("Text"@)) is Some
}

/// What the overlay cannot be built without.
pub open spec fn buildable<R: ScriptRuntime>(rt: &R, made: UiObjects) -> bool {
    &&& ui_classes(rt)
    &&& made.ty_canvas.0 != 0
    &&& made.ty_image.0 != 0
    &&& made.ty_text.0 != 0
    &&& made.ty_rect_tf.0 != 0
    &&& methods_of(rt, made).go_ctor_name.0 != 0
    &&& methods_of(rt, made).go_add_comp.0 != 0
    &&& methods_of(rt, made).go_get_comp.0 != 0
    &&& methods_of(rt, made).tf_set_parent.0 != 0
}

pub open spec fn methods_of<R: ScriptRuntime>(rt: &R, made: UiObjects) -> Methods {
    Methods {
        go_cls: symbols::class_in(rt, chams::engine("GameObject"@))->0,
        go_ctor_name: chams::or_null(chams::exact_in(rt, chams::engine("GameObject"@), unity::CTOR@, 1)),
        go_add_comp: chams::or_null(chams::exact_in(rt, chams::engine("GameObject"@), unity::ADD_COMPONENT@, 1)),
        go_get_comp: chams::or_null(chams::exact_in(rt, chams::engine("GameObject"@), unity::GET_COMPONENT@, 1)),
        go_set_active: chams::or_null(chams::method_in(rt, chams::engine("GameObject"@), unity::SET_ACTIVE@, 1)),
        go_dont_destroy: chams::or_null(chams::method_in(rt, chams::engine("Object"@), unity::DONT_DESTROY_ON_LOAD@, 1)),
        obj_destroy: chams::or_null(chams::exact_in(rt, chams::engine("Object"@), unity::DESTROY@, 1)),
        tf_set_parent: chams::or_null(chams::exact_in(rt, chams::engine("Transform"@), unity::SET_PARENT@, 2)),
        rt_anc_min: chams::or_null(chams::exact_in(rt, chams::engine("RectTransform"@), unity::SET_ANCHOR_MIN@, 1)),
        rt_anc_max: chams::or_null(chams::exact_in(rt, chams::engine("RectTransform"@), unity::SET_ANCHOR_MAX@, 1)),
        rt_anc_pos: chams::or_null(chams::exact_in(rt, chams::engine("RectTransform"@), unity::SET_ANCHORED_POSITION@, 1)),
        rt_size_delta: chams::or_null(chams::exact_in(rt, chams::engine("RectTransform"@), unity::SET_SIZE_DELTA@, 1)),
        rt_off_min: chams::or_null(chams::exact_in(rt, chams::engine("RectTransform"@), unity::SET_OFFSET_MIN@, 1)),
        rt_off_max: chams::or_null(chams::exact_in(rt, chams::engine("RectTransform"@), unity::SET_OFFSET_MAX@, 1)),
        rt_pivot: chams::or_null(chams::exact_in(rt, chams::engine("RectTransform"@), unity::SET_PIVOT@, 1)),
        cv_render_mode: chams::or_null(chams::exact_in(rt, (symbols::assembly::UNITY_UI_MODULE@, symbols::ns::UNITY@, "Canvas"@), unity::SET_RENDER_MODE@, 1)),
        cv_sort_order: chams::or_null(chams::exact_in(rt, (symbols::assembly::UNITY_UI_MODULE@, symbols::ns::UNITY@, "Canvas"@), unity::SET_SORTING_ORDER@, 1)),
        gr_color: chams::or_null(chams::exact_in(rt, ui_class("Graphic"@), unity::SET_COLOR@, 1)),
        gr_raycast: chams::or_null(chams::exact_in(rt, ui_class("Graphic"@), unity::SET_RAYCAST_TARGET@, 1)),
        tx_text: chams::or_null(chams::exact_in(rt, ui_class("Text"@), unity::SET_TEXT@, 1)),
        tx_font: chams::or_null(chams::exact_in(rt, ui_class("Text"@), unity::SET_FONT@, 1)),
        tx_font_size: chams::or_null(chams::exact_in(rt, ui_class("Text"@), unity::SET_FONT_SIZE@, 1)),
        tx_alignment: chams::or_null(chams::exact_in(rt, ui_class("Text"@), unity::SET_ALIGNMENT@, 1)),
        tx_horiz: chams::or_null(chams::exact_in(rt, ui_class("Text"@), unity::SET_HORIZONTAL_OVERFLOW@, 1)),
        tx_vert: chams::or_null(chams::exact_in(rt, ui_class("Text"@), unity::SET_VERTICAL_OVERFLOW@, 1)),
        cur_set_visible: chams::or_null(
            chams::exact_in(rt, chams::engine("Cursor"@), unity::CURSOR_SET_VISIBLE@, 1),
        ),
        made,
    }
}

fn need_exact<R: ScriptRuntime>(rt: &R, class: Class, name: &str, argc: u32) -> (r: Method)
    requires
        rt.ready(),
    ensures
        r == chams::or_null(rt.exact_of(class, name@, argc as nat)),
{
    match rt.method_exact(class, name, argc) {
        Some(m) => m,
        None => Method(0),
    }
}

fn need_walk<R: ScriptRuntime>(rt: &R, class: Class, name: &str, argc: i32) -> (r: Method)
    requires
        rt.ready(),
    ensures
        r == chams::or_null(rt.method_of(class, name@, argc as int)),
{
    match rt.method(class, name, argc) {
        Some(m) => m,
        None => Method(0),
    }
}

/// Looks up what the overlay calls.
pub fn resolve_methods<R: ScriptRuntime>(rt: &R, made: UiObjects) -> (r: Option<Methods>)
    requires
        rt.ready(),
    ensures
        r == if buildable(rt, made) {
            Some(methods_of(rt, made))
        } else {
            None
        },
{
    let go: Class = match find_class(rt, unity::game_object()) {
        Some(k) => k,
        None => {
            return None;
        },
    };
    let obj: Class = match find_class(rt, unity::object()) {
        Some(k) => k,
        None => {
            return None;
        },
    };
    let tf: Class = match find_class(rt, unity::transform()) {
        Some(k) => k,
        None => {
            return None;
        },
    };
    let rect: Class = match find_class(rt, unity::rect_transform()) {
        Some(k) => k,
        None => {
            return None;
        },
    };
    let canvas: Class = match find_class(rt, unity::canvas()) {
        Some(k) => k,
        None => {
            return None;
        },
    };
    let graphic: Class = match find_class(rt, unity::graphic()) {
        Some(k) => k,
        None => {
            return None;
        },
    };
    let label: Class = match find_class(rt, unity::text()) {
        Some(k) => k,
        None => {
            return None;
        },
    };
    let cur_set_visible: Method = match find_class(rt, unity::cursor()) {
        Some(k) => need_exact(rt, k, unity::CURSOR_SET_VISIBLE, 1),
        None => Method(0),
    };
    let m = Methods {
        go_cls: go,
        go_ctor_name: need_exact(rt, go, unity::CTOR, 1),
        go_add_comp: need_exact(rt, go, unity::ADD_COMPONENT, 1),
        go_get_comp: need_exact(rt, go, unity::GET_COMPONENT, 1),
        go_set_active: need_walk(rt, go, unity::SET_ACTIVE, 1),
        go_dont_destroy: need_walk(rt, obj, unity::DONT_DESTROY_ON_LOAD, 1),
        obj_destroy: need_exact(rt, obj, unity::DESTROY, 1),
        tf_set_parent: need_exact(rt, tf, unity::SET_PARENT, 2),
        rt_anc_min: need_exact(rt, rect, unity::SET_ANCHOR_MIN, 1),
        rt_anc_max: need_exact(rt, rect, unity::SET_ANCHOR_MAX, 1),
        rt_anc_pos: need_exact(rt, rect, unity::SET_ANCHORED_POSITION, 1),
        rt_size_delta: need_exact(rt, rect, unity::SET_SIZE_DELTA, 1),
        rt_off_min: need_exact(rt, rect, unity::SET_OFFSET_MIN, 1),
        rt_off_max: need_exact(rt, rect, unity::SET_OFFSET_MAX, 1),
        rt_pivot: need_exact(rt, rect, unity::SET_PIVOT, 1),
        cv_render_mode: need_exact(rt, canvas, unity::SET_RENDER_MODE, 1),
        cv_sort_order: need_exact(rt, canvas, unity::SET_SORTING_ORDER, 1),
        gr_color: need_exact(rt, graphic, unity::SET_COLOR, 1),
        gr_raycast: need_exact(rt, graphic, unity::SET_RAYCAST_TARGET, 1),
        tx_text: need_exact(rt, label, unity::SET_TEXT, 1),
        tx_font: need_exact(rt, label, unity::SET_FONT, 1),
        tx_font_size: need_exact(rt, label, unity::SET_FONT_SIZE, 1),
        tx_alignment: need_exact(rt, label, unity::SET_ALIGNMENT, 1),
        tx_horiz: need_exact(rt, label, unity::SET_HORIZONTAL_OVERFLOW, 1),
        tx_vert: need_exact(rt, label, unity::SET_VERTICAL_OVERFLOW, 1),
        cur_set_visible,
        made,
    };
    if made.ty_canvas.is_null() || made.ty_image.is_null() || made.ty_text.is_null()
        || made.ty_rect_tf.is_null() {
        return None;
    }
    if m.go_ctor_name.0 == 0 || m.go_add_comp.0 == 0 || m.go_get_comp.0 == 0 || m.tf_set_parent.0
        == 0 {
        return None;
    }
    Some(m)
}

// ── layout ───────────────────────────────────────────────────────────────────

pub const WIN_W: i32 = 520;

pub const WIN_H: i32 = 400;

pub const TITLE_H: i32 = 20;

pub const CLOSE_SZ: i32 = 18;

pub const FPS_W: i32 = 66;

pub const STATUS_H: i32 = 16;

pub const PAD: i32 = 3;

pub const TAB_Y: i32 = 20;

pub const TAB_H: i32 = 22;

pub const TAB_W: i32 = 84;

pub const TAB_GAP: i32 = 1;

pub const TAB_X0: i32 = 4;

pub const N_TABS: usize = 4;

pub const CONTENT_X: i32 = 3;

pub const CONTENT_Y: i32 = 42;

pub const CONTENT_W: i32 = 514;

pub const CONTENT_H: i32 = 336;

pub const STATUS_Y: i32 = 381;

/// How many rows the console shows.
pub const CONSOLE_LINES: usize = 22;

/// A rectangle in pixels; `y` goes down.
#[derive(Copy, Clone, PartialEq, Eq, Debug, Structural)]
pub struct LRect {
    pub x: i32,
    pub y: i32,
    pub w: i32,
    pub h: i32,
}

pub open spec fn rect(x: int, y: int, w: int, h: int) -> LRect {
    LRect { x: x as i32, y: y as i32, w: w as i32, h: h as i32 }
}

fn lr(x: i32, y: i32, w: i32, h: i32) -> (r: LRect)
    ensures
        r == (LRect { x, y, w, h }),
{
    LRect { x, y, w, h }
}

/// What can be clicked.
#[derive(Copy, Clone, PartialEq, Eq, Debug, Structural)]
pub enum Control {
    Close,
    Tab(usize),
    Chams,
    Style,
    Scheme,
    Stamina,
    Speed,
    SpeedMinus,
    SpeedPlus,
    Config,
}

/// The tab that a control is on; none for those of the window itself.
pub open spec fn tab_of(c: Control) -> Option<usize> {
    match c {
        Control::Close => None,
        Control::Tab(i) => None,
        Control::Chams => Some(1),
        Control::Style => Some(1),
        Control::Scheme => Some(1),
        Control::Stamina => Some(2),
        Control::Speed => Some(2),
        Control::SpeedMinus => Some(2),
        Control::SpeedPlus => Some(2),
        Control::Config => Some(2),
    }
}

pub open spec fn valid(c: Control) -> bool {
    match c {
        Control::Tab(i) => i < N_TABS,
        _ => true,
    }
}

/// Where a control is placed: from the top left of the window, or of the content
/// for one that is on a tab.
pub open spec fn place_of(c: Control) -> LRect {
    match c {
        Control::Close => rect(WIN_W - CLOSE_SZ - 2, 2, CLOSE_SZ as int, CLOSE_SZ as int),
        Control::Tab(i) => rect(
            TAB_X0 + i * (TAB_W + TAB_GAP),
            TAB_Y as int,
            TAB_W as int,
            TAB_H as int,
        ),
        Control::Chams => rect(14, 16, 240, 18),
        Control::Style => rect(14, 42, 210, 22),
        Control::Scheme => rect(14, 70, 210, 22),
        Control::Stamina => rect(14, 16, 240, 18),
        Control::Speed => rect(14, 44, 130, 18),
        Control::SpeedMinus => rect(150, 42, 24, 22),
        Control::SpeedPlus => rect(232, 42, 24, 22),
        Control::Config => rect(14, 78, 210, 22),
    }
}

/// Where a control is clicked, from the top left of the window.
pub open spec fn hit_of(c: Control) -> LRect {
    let p = place_of(c);
    if tab_of(c) is None {
        p
    } else {
        rect(p.x + CONTENT_X, p.y + CONTENT_Y, p.w as int, p.h as int)
    }
}

pub fn place_rect(c: Control) -> (r: LRect)
    requires
        valid(c),
    ensures
        r == place_of(c),
{
    match c {
        Control::Close => lr(WIN_W - CLOSE_SZ - 2, 2, CLOSE_SZ, CLOSE_SZ),
        Control::Tab(i) => tab_rect(i),
        Control::Chams => lr(14, 16, 240, 18),
        Control::Style => lr(14, 42, 210, 22),
        Control::Scheme => lr(14, 70, 210, 22),
        Control::Stamina => lr(14, 16, 240, 18),
        Control::Speed => lr(14, 44, 130, 18),
        Control::SpeedMinus => lr(150, 42, 24, 22),
        Control::SpeedPlus => lr(232, 42, 24, 22),
        Control::Config => lr(14, 78, 210, 22),
    }
}

pub fn tab_rect(i: usize) -> (r: LRect)
    requires
        i < N_TABS,
    ensures
        r == place_of(Control::Tab(i)),
{
    let step: i32 = TAB_W + TAB_GAP;
    let k: i32 = i as i32;
    assert(0 <= k * step <= 255) by (nonlinear_arith)
        requires
            0 <= k <= 3,
            step == 85,
    ;
    lr(TAB_X0 + k * step, TAB_Y, TAB_W, TAB_H)
}

/// The rectangle, from the top left of the window, that a click is tested
/// against.
pub fn hit_rect(c: Control) -> (r: LRect)
    requires
        valid(c),
    ensures
        r == hit_of(c),
{
    let p = place_rect(c);
    match c {
        Control::Close => p,
        Control::Tab(_) => p,
        _ => lr(p.x + CONTENT_X, p.y + CONTENT_Y, p.w, p.h),
    }
}

/// Two rectangles have no point in common, edges included.
pub open spec fn apart(a: LRect, b: LRect) -> bool {
    ||| a.x + a.w < b.x
    ||| b.x + b.w < a.x
    ||| a.y + a.h < b.y
    ||| b.y + b.h < a.y
}

/// One rectangle lies in another.
pub open spec fn within(a: LRect, b: LRect) -> bool {
    &&& b.x <= a.x
    &&& b.y <= a.y
    &&& a.x + a.w <= b.x + b.w
    &&& a.y + a.h <= b.y + b.h
}

/// Two controls that can be clicked at the same time have no point in common:
/// those of one tab, and those of a tab and the tabs themselves.
pub proof fn law_controls_apart(a: Control, b: Control)
    requires
        valid(a),
        valid(b),
        a != b,
        tab_of(a) is None || tab_of(b) is None || tab_of(a) == tab_of(b),
    ensures
        apart(hit_of(a), hit_of(b)),
{
    if let (Control::Tab(i), Control::Tab(j)) = (a, b) {
        if i < j {
            assert(i + 1 <= j);
        } else {
            assert(j + 1 <= i);
        }
    }
}

/// Every control lies in the window, and one on a tab in the content.
pub proof fn law_controls_inside(c: Control)
    requires
        valid(c),
    ensures
        within(hit_of(c), rect(0, 0, WIN_W as int, WIN_H as int)),
        tab_of(c) is Some ==> within(
            hit_of(c),
            rect(CONTENT_X as int, CONTENT_Y as int, CONTENT_W as int, CONTENT_H as int),
        ),
{
}

/// The content lies between the tabs and the status line, and that in the
/// window.
pub proof fn law_layout_adds_up()
    ensures
        CONTENT_Y == TAB_Y + TAB_H,
        CONTENT_W == WIN_W - CONTENT_X * 2,
        CONTENT_H == WIN_H - CONTENT_Y - STATUS_H - PAD * 2,
        STATUS_Y == CONTENT_Y + CONTENT_H + PAD,
        STATUS_Y + STATUS_H <= WIN_H,
{
}

// ── the nodes of the overlay ─────────────────────────────────────────────────

/// A colour of the theme.
#[derive(Copy, Clone, PartialEq, Eq, Debug, Structural)]
pub enum Tone {
    Face,
    Light,
    Shadow,
    Dark,
    Navy,
    Field,
    TabOff,
    Check,
    ConsoleField,
    ConsoleText,
    StatusText,
    Pointer,
}

/// A colour in thousandths of red, green and blue.
pub open spec fn tone_of(t: Tone) -> (u16, u16, u16) {
    match t {
        Tone::Face => (753, 753, 753),
        Tone::Light => (1000, 1000, 1000),
        Tone::Shadow => (500, 500, 500),
        Tone::Dark => (0, 0, 0),
        Tone::Navy => (0, 0, 502),
        Tone::Field => (1000, 1000, 1000),
        Tone::TabOff => (660, 660, 660),
        Tone::Check => (0, 0, 502),
        Tone::ConsoleField => (90, 90, 90),
        Tone::ConsoleText => (0, 870, 0),
        Tone::StatusText => (900, 900, 350),
        Tone::Pointer => (100, 1000, 900),
    }
}

pub fn tone(t: Tone) -> (r: (u16, u16, u16))
    ensures
        r == tone_of(t),
{
    match t {
        Tone::Face => (753, 753, 753),
        Tone::Light => (1000, 1000, 1000),
        Tone::Shadow => (500, 500, 500),
        Tone::Dark => (0, 0, 0),
        Tone::Navy => (0, 0, 502),
        Tone::Field => (1000, 1000, 1000),
        Tone::TabOff => (660, 660, 660),
        Tone::Check => (0, 0, 502),
        Tone::ConsoleField => (90, 90, 90),
        Tone::ConsoleText => (0, 870, 0),
        Tone::StatusText => (900, 900, 350),
        Tone::Pointer => (100, 1000, 900),
    }
}

/// Where a node lies in its parent.
#[derive(Copy, Clone, PartialEq, Eq, Debug, Structural)]
pub enum Place {
    /// The window itself, centred on its anchor.
    Window,
    /// From the parent's top left.
    At(LRect),
    /// All of the parent but for an even border.
    Fill(i32),
    /// Centred on the parent's lower left corner, with its width and height.
    Corner(i32, i32),
    /// Centred on the parent's centre, with its width and height.
    Centre(i32, i32),
}

/// The edges of a panel.
#[derive(Copy, Clone, PartialEq, Eq, Debug, Structural)]
pub enum Edge {
    Flat,
    Raised,
    Sunken,
}

/// What is text in a node, or that it is none.
#[derive(Copy, Clone, PartialEq, Eq, Debug, Structural)]
pub enum Kind {
    Panel { shown: bool, edge: Edge },
    Text { size: i32, align: i32, vert: i32 },
}

/// A node of the overlay. Its parent is the node of that number, and the canvas
/// where that is its own.
#[derive(Copy, Clone, Debug)]
pub struct UiNode {
    pub name: &'static str,
    pub parent: usize,
    pub label: &'static str,
    pub tone: Tone,
    pub place: Place,
    pub kind: Kind,
}

/// A node, with its texts as such.
pub open spec fn node_val(n: UiNode) -> (Seq<char>, nat, Seq<char>, Tone, Place, Kind) {
    (n.name@, n.parent as nat, n.label@, n.tone, n.place, n.kind)
}

pub open spec fn nodes_val(s: Seq<UiNode>) -> Seq<(Seq<char>, nat, Seq<char>, Tone, Place, Kind)> {
    s.map_values(|n: UiNode| node_val(n))
}

pub open spec fn panel_node(
    name: Seq<char>,
    parent: nat,
    tone: Tone,
    place: Place,
    edge: Edge,
) -> (Seq<char>, nat, Seq<char>, Tone, Place, Kind) {
    (name, parent, Seq::empty(), tone, place, Kind::Panel { shown: true, edge })
}

pub open spec fn text_node(
    name: Seq<char>,
    parent: nat,
    label: Seq<char>,
    size: i32,
    tone: Tone,
    align: i32,
    place: Place,
) -> (Seq<char>, nat, Seq<char>, Tone, Place, Kind) {
    (name, parent, label, tone, place, Kind::Text { size, align, vert: unity::WRAP_TRUNCATE })
}

fn add_node(out: &mut Vec<UiNode>, n: UiNode) -> (i: usize)
    requires
        old(out).len() < 1000,
    ensures
        i == old(out).len(),
        nodes_val(final(out)@) == nodes_val(old(out)@).push(node_val(n)),
        final(out).len() == old(out).len() + 1,
{
    let i: usize = out.len();
    out.push(n);
    assert(nodes_val(out@) =~= nodes_val(old(out)@).push(node_val(n)));
    i
}

fn add_panel(
    out: &mut Vec<UiNode>,
    name: &'static str,
    parent: usize,
    tone: Tone,
    place: Place,
    edge: Edge,
) -> (i: usize)
    requires
        old(out).len() < 1000,
    ensures
        i == old(out).len(),
        nodes_val(final(out)@) == nodes_val(old(out)@).push(
            panel_node(name@, parent as nat, tone, place, edge),
        ),
        final(out).len() == old(out).len() + 1,
{
    proof {
        reveal_strlit("");
        assert(""@ =~= Seq::<char>::empty());
    }
    add_node(
        out,
        UiNode { name, parent, label: "", tone, place, kind: Kind::Panel { shown: true, edge } },
    )
}

fn add_text(
    out: &mut Vec<UiNode>,
    name: &'static str,
    parent: usize,
    label: &'static str,
    size: i32,
    tone: Tone,
    align: i32,
    place: Place,
) -> (i: usize)
    requires
        old(out).len() < 1000,
    ensures
        i == old(out).len(),
        nodes_val(final(out)@) == nodes_val(old(out)@).push(
            text_node(name@, parent as nat, label@, size, tone, align, place),
        ),
        final(out).len() == old(out).len() + 1,
{
    add_node(
        out,
        UiNode {
            name,
            parent,
            label,
            tone,
            place,
            kind: Kind::Text { size, align, vert: unity::WRAP_TRUNCATE },
        },
    )
}

/// A raised panel with a label that fills it.
pub open spec fn with_button(
    s: Seq<(Seq<char>, nat, Seq<char>, Tone, Place, Kind)>,
    parent: nat,
    name: Seq<char>,
    label: Seq<char>,
    tone: Tone,
    label_name: Seq<char>,
    r: LRect,
) -> Seq<(Seq<char>, nat, Seq<char>, Tone, Place, Kind)> {
    s.push(panel_node(name, parent, tone, Place::At(r), Edge::Raised)).push(
        text_node(
            label_name,
            s.len(),
            label,
            11,
            Tone::Dark,
            unity::ANCHOR_MIDDLE_CENTER,
            Place::Fill(1),
        ),
    )
}

/// Returns the number of the label.
fn make_button(
    out: &mut Vec<UiNode>,
    parent: usize,
    name: &'static str,
    label: &'static str,
    tone: Tone,
    label_name: &'static str,
    r: LRect,
) -> (i: usize)
    requires
        old(out).len() < 900,
    ensures
        i == old(out).len() + 1,
        nodes_val(final(out)@) == with_button(
            nodes_val(old(out)@),
            parent as nat,
            name@,
            label@,
            tone,
            label_name@,
            r,
        ),
        final(out).len() == old(out).len() + 2,
{
    let p: usize = add_panel(out, name, parent, tone, Place::At(r), Edge::Raised);
    add_text(
        out,
        label_name,
        p,
        label,
        11,
        Tone::Dark,
        unity::ANCHOR_MIDDLE_CENTER,
        Place::Fill(1),
    )
}

/// A sunken box with a square in it, hidden until the box is checked, and a label
/// to the right of it.
pub open spec fn with_checkbox(
    s: Seq<(Seq<char>, nat, Seq<char>, Tone, Place, Kind)>,
    parent: nat,
    name: Seq<char>,
    label: Seq<char>,
    r: LRect,
) -> Seq<(Seq<char>, nat, Seq<char>, Tone, Place, Kind)> {
    s.push(
        panel_node(
            name,
            parent,
            Tone::Field,
            Place::At(rect(r.x as int, r.y + 2, 14, 14)),
            Edge::Sunken,
        ),
    ).push(
        (
            name,
            s.len(),
            Seq::<char>::empty(),
            Tone::Check,
            Place::Fill(3),
            Kind::Panel { shown: false, edge: Edge::Flat },
        ),
    ).push(
        text_node(
            name,
            parent,
            label,
            11,
            Tone::Dark,
            unity::ANCHOR_MIDDLE_LEFT,
            Place::At(rect(r.x + 20, r.y as int, r.w - 20, r.h as int)),
        ),
    )
}

/// Returns the number of the square.
fn make_checkbox(
    out: &mut Vec<UiNode>,
    parent: usize,
    name: &'static str,
    label: &'static str,
    r: LRect,
) -> (i: usize)
    requires
        old(out).len() < 900,
        0 <= r.x <= 1000,
        0 <= r.y <= 1000,
        20 <= r.w <= 1000,
    ensures
        i == old(out).len() + 1,
        nodes_val(final(out)@) == with_checkbox(
            nodes_val(old(out)@),
            parent as nat,
            name@,
            label@,
            r,
        ),
        final(out).len() == old(out).len() + 3,
{
    proof {
        reveal_strlit("");
        assert(""@ =~= Seq::<char>::empty());
    }
    let b: usize = add_panel(
        out,
        name,
        parent,
        Tone::Field,
        Place::At(lr(r.x, r.y + 2, 14, 14)),
        Edge::Sunken,
    );
    let f: usize = add_node(
        out,
        UiNode {
            name,
            parent: b,
            label: "",
            tone: Tone::Check,
            place: Place::Fill(3),
            kind: Kind::Panel { shown: false, edge: Edge::Flat },
        },
    );
    let _ = add_text(
        out,
        name,
        parent,
        label,
        11,
        Tone::Dark,
        unity::ANCHOR_MIDDLE_LEFT,
        Place::At(lr(r.x + 20, r.y, r.w - 20, r.h)),
    );
    f
}

/// The overlay, node by node.
pub open spec fn ui_nodes() -> Seq<(Seq<char>, nat, Seq<char>, Tone, Place, Kind)> {
    let s: Seq<(Seq<char>, nat, Seq<char>, Tone, Place, Kind)> = Seq::empty();
    let s = s.push(panel_node("eftMenu_window"@, 0, Tone::Face, Place::Window, Edge::Raised));
    let s = s.push(panel_node("eftMenu_title"@, 0, Tone::Navy, Place::At(rect(2, 2, 516, 18)), Edge::Flat));
    let s = s.push(text_node("titletxt"@, 0, "eftTrainer"@, 11, Tone::Light, unity::ANCHOR_MIDDLE_LEFT, Place::At(rect(7, 2, 418, 18))));
    let s = s.push(text_node("fps"@, 0, "-- fps"@, 11, Tone::Light, unity::ANCHOR_MIDDLE_RIGHT, Place::At(rect(430, 2, 66, 18))));
    let s = with_button(s, 0, "close"@, "x"@, Tone::Face, "close"@, place_of(Control::Close));
    let s = with_button(s, 0, "tab"@, "Weapon"@, Tone::TabOff, "tablbl"@, place_of(Control::Tab(0)));
    let s = with_button(s, 0, "tab"@, "Visuals"@, Tone::TabOff, "tablbl"@, place_of(Control::Tab(1)));
    let s = with_button(s, 0, "tab"@, "Misc"@, Tone::TabOff, "tablbl"@, place_of(Control::Tab(2)));
    let s = with_button(s, 0, "tab"@, "Console"@, Tone::TabOff, "tablbl"@, place_of(Control::Tab(3)));
    let s = s.push(panel_node("content"@, 0, Tone::Face, Place::At(rect(CONTENT_X as int, CONTENT_Y as int, CONTENT_W as int, CONTENT_H as int)), Edge::Raised));
    let s = s.push(panel_node("content"@, 0, Tone::Face, Place::At(rect(CONTENT_X as int, CONTENT_Y as int, CONTENT_W as int, CONTENT_H as int)), Edge::Raised));
    let s = s.push(panel_node("content"@, 0, Tone::Face, Place::At(rect(CONTENT_X as int, CONTENT_Y as int, CONTENT_W as int, CONTENT_H as int)), Edge::Raised));
    let s = s.push(panel_node("content"@, 0, Tone::Face, Place::At(rect(CONTENT_X as int, CONTENT_Y as int, CONTENT_W as int, CONTENT_H as int)), Edge::Raised));
    let s = s.push(text_node("weap"@, 14, "No weapon features yet."@, 12, Tone::Shadow, unity::ANCHOR_MIDDLE_CENTER, Place::Fill(0)));
    let s = with_checkbox(s, 15, "chams"@, "Chams"@, place_of(Control::Chams));
    let s = with_button(s, 15, "style"@, "Style: flat"@, Tone::Face, "style"@, place_of(Control::Style));
    let s = with_button(s, 15, "scheme"@, "Scheme: plasma"@, Tone::Face, "scheme"@, place_of(Control::Scheme));
    let s = with_checkbox(s, 16, "stam"@, "Infinite Stamina"@, place_of(Control::Stamina));
    let s = with_checkbox(s, 16, "speed"@, "Speedhack"@, place_of(Control::Speed));
    let s = with_button(s, 16, "spdminus"@, "-"@, Tone::Face, "spdminus"@, place_of(Control::SpeedMinus));
    let s = s.push(text_node("spdval"@, 16, "x1.00"@, 11, Tone::Dark, unity::ANCHOR_MIDDLE_CENTER, Place::At(rect(178, 44, 52, 18))));
    let s = with_button(s, 16, "spdplus"@, "+"@, Tone::Face, "spdplus"@, place_of(Control::SpeedPlus));
    let s = with_button(s, 16, "config"@, "Config Template"@, Tone::Face, "config"@, place_of(Control::Config));
    let s = s.push(panel_node("confield"@, 17, Tone::ConsoleField, Place::Fill(6), Edge::Sunken));
    let s = s.push(("contxt"@, 39, ""@, Tone::ConsoleText, Place::Fill(3), Kind::Text { size: 10, align: unity::ANCHOR_UPPER_LEFT, vert: unity::WRAP_OVERFLOW }));
    let s = s.push(text_node("status"@, 0, ""@, 11, Tone::StatusText, unity::ANCHOR_MIDDLE_LEFT, Place::At(rect(8, 381, 504, 16))));
    s
}

/// The numbers of the nodes that change later.
#[derive(Copy, Clone, PartialEq, Eq, Debug, Structural)]
pub struct Handles {
    pub window: usize,
    pub fps: usize,
    pub status: usize,
    pub console_text: usize,
    pub chams_check: usize,
    pub style: usize,
    pub scheme: usize,
    pub stamina_check: usize,
    pub speed_check: usize,
    pub speed_value: usize,
    /// The first tab; each takes two nodes.
    pub tabs: usize,
    /// The first content; they follow each other.
    pub contents: usize,
}

pub open spec fn handles() -> Handles {
    Handles {
        window: 0,
        fps: 3,
        status: 41,
        console_text: 40,
        chams_check: 20,
        style: 23,
        scheme: 25,
        stamina_check: 27,
        speed_check: 30,
        speed_value: 34,
        tabs: 6,
        contents: 14,
    }
}

/// A canvas over the whole screen; the one with the higher order is in front.
#[derive(Copy, Clone, Debug)]
pub struct CanvasPlan {
    pub name: &'static str,
    pub order: i32,
}

/// How a tab starts: whether its content is active, and how the tab is painted.
#[derive(Copy, Clone, PartialEq, Eq, Debug, Structural)]
pub struct TabState {
    pub active: bool,
    pub tone: Tone,
}

/// Everything that is built. The first of the nodes is a child of the root
/// canvas, the first of the pointer's nodes one of the pointer's own canvas, so
/// that moving the pointer does not rebuild the window.
pub struct UiPlan {
    pub root: CanvasPlan,
    pub nodes: Vec<UiNode>,
    pub handles: Handles,
    pub pointer_canvas: CanvasPlan,
    pub pointer_nodes: Vec<UiNode>,
    pub tabs: Vec<TabState>,
}

/// The pointer: an invisible spot, and a cross on it.
pub open spec fn pointer_nodes() -> Seq<(Seq<char>, nat, Seq<char>, Tone, Place, Kind)> {
    seq![
        (
            "cursor"@,
            0nat,
            Seq::<char>::empty(),
            Tone::Dark,
            Place::Corner(0, 0),
            Kind::Panel { shown: false, edge: Edge::Flat },
        ),
        panel_node("cur_h"@, 0, Tone::Pointer, Place::Centre(18, 2), Edge::Flat),
        panel_node("cur_v"@, 0, Tone::Pointer, Place::Centre(2, 18), Edge::Flat),
    ]
}

/// The theme of a tab: like the window while it is the active one.
pub open spec fn tone_when(active: bool) -> Tone {
    if active {
        Tone::Face
    } else {
        Tone::TabOff
    }
}

/// How the tabs start where `tab` is the active one.
pub open spec fn tab_states(tab: usize) -> Seq<TabState> {
    Seq::new(
        N_TABS as nat,
        |i: int| TabState { active: i == shown_tab(tab), tone: tone_when(i == shown_tab(tab)) },
    )
}

/// The overlay and its pointer, as they are built while `tab` is the active
/// tab.
pub fn build_ui(tab: usize) -> (r: UiPlan)
    ensures
        r.root.name@ == "eftMenu_canvas"@,
        r.root.order == 999,
        nodes_val(r.nodes@) == ui_nodes(),
        r.nodes.len() == 42,
        r.handles == handles(),
        r.pointer_canvas.name@ == "eftMenu_cursorcv"@,
        r.pointer_canvas.order == 1000,
        nodes_val(r.pointer_nodes@) == pointer_nodes(),
        r.tabs@ == tab_states(tab),
{
    let (nodes, handles) = window_nodes();
    let mut pointer: Vec<UiNode> = Vec::new();
    proof {
        reveal_strlit("");
        assert(""@ =~= Seq::<char>::empty());
        assert(nodes_val(pointer@) =~= Seq::empty());
    }
    let spot: usize = add_node(
        &mut pointer,
        UiNode {
            name: "cursor",
            parent: 0,
            label: "",
            tone: Tone::Dark,
            place: Place::Corner(0, 0),
            kind: Kind::Panel { shown: false, edge: Edge::Flat },
        },
    );
    let _across: usize = add_panel(
        &mut pointer,
        "cur_h",
        spot,
        Tone::Pointer,
        Place::Centre(18, 2),
        Edge::Flat,
    );
    let _down: usize = add_panel(
        &mut pointer,
        "cur_v",
        spot,
        Tone::Pointer,
        Place::Centre(2, 18),
        Edge::Flat,
    );
    assert(nodes_val(pointer@) =~= pointer_nodes());
    let active: usize = if tab < N_TABS {
        tab
    } else {
        N_TABS - 1
    };
    let mut tabs: Vec<TabState> = Vec::new();
    let mut i: usize = 0;
    while i < N_TABS
        invariant
            i <= N_TABS,
            active == shown_tab(tab),
            tabs@.len() == i,
            forall|j: int| 0 <= j < i ==> #[trigger] tabs@[j] == tab_states(tab)[j],
        decreases N_TABS - i,
    {
        tabs.push(TabState { active: i == active, tone: tab_tone(i == active) });
        i = i + 1;
    }
    assert(tabs@ =~= tab_states(tab));
    UiPlan {
        root: CanvasPlan { name: "eftMenu_canvas", order: 999 },
        nodes,
        handles,
        pointer_canvas: CanvasPlan { name: "eftMenu_cursorcv", order: 1000 },
        pointer_nodes: pointer,
        tabs,
    }
}

/// Exactly one content is active at the start, and its tab alone is painted as
/// the active one.
pub proof fn law_one_tab_active(tab: usize, i: int, j: int)
    requires
        0 <= i < N_TABS,
        0 <= j < N_TABS,
    ensures
        tab_states(tab)[shown_tab(tab) as int].active,
        tab_states(tab)[i].active && tab_states(tab)[j].active ==> i == j,
        tab_states(tab)[i].active == (tab_states(tab)[i].tone == Tone::Face),
{
}

/// The nodes of the window, in the order in which they are built, and those of
/// them that change later.
#[verifier::rlimit(40)]
fn window_nodes() -> (r: (Vec<UiNode>, Handles))
    ensures
        nodes_val((r.0)@) == ui_nodes(),
        r.0.len() == 42,
        r.1 == handles(),
{
    let mut out: Vec<UiNode> = Vec::new();
    assert(nodes_val(out@) =~= Seq::empty());
    let window: usize = add_panel(&mut out, "eftMenu_window", 0, Tone::Face, Place::Window, Edge::Raised);
    let _title: usize = add_panel(&mut out, "eftMenu_title", window, Tone::Navy, Place::At(lr(2, 2, 516, 18)), Edge::Flat);
    let _caption: usize = add_text(&mut out, "titletxt", window, "eftTrainer", 11, Tone::Light, unity::ANCHOR_MIDDLE_LEFT, Place::At(lr(7, 2, 418, 18)));
    let fps: usize = add_text(&mut out, "fps", window, "-- fps", 11, Tone::Light, unity::ANCHOR_MIDDLE_RIGHT, Place::At(lr(430, 2, 66, 18)));
    let _close: usize = make_button(&mut out, window, "close", "x", Tone::Face, "close", place_rect(Control::Close));
    let tab0: usize = make_button(&mut out, window, "tab", "Weapon", Tone::TabOff, "tablbl", place_rect(Control::Tab(0)));
    let tab1: usize = make_button(&mut out, window, "tab", "Visuals", Tone::TabOff, "tablbl", place_rect(Control::Tab(1)));
    let tab2: usize = make_button(&mut out, window, "tab", "Misc", Tone::TabOff, "tablbl", place_rect(Control::Tab(2)));
    let tab3: usize = make_button(&mut out, window, "tab", "Console", Tone::TabOff, "tablbl", place_rect(Control::Tab(3)));
    let content0: usize = add_panel(&mut out, "content", window, Tone::Face, Place::At(lr(CONTENT_X, CONTENT_Y, CONTENT_W, CONTENT_H)), Edge::Raised);
    let content1: usize = add_panel(&mut out, "content", window, Tone::Face, Place::At(lr(CONTENT_X, CONTENT_Y, CONTENT_W, CONTENT_H)), Edge::Raised);
    let content2: usize = add_panel(&mut out, "content", window, Tone::Face, Place::At(lr(CONTENT_X, CONTENT_Y, CONTENT_W, CONTENT_H)), Edge::Raised);
    let content3: usize = add_panel(&mut out, "content", window, Tone::Face, Place::At(lr(CONTENT_X, CONTENT_Y, CONTENT_W, CONTENT_H)), Edge::Raised);
    let _weapon: usize = add_text(&mut out, "weap", content0, "No weapon features yet.", 12, Tone::Shadow, unity::ANCHOR_MIDDLE_CENTER, Place::Fill(0));
    let chams_check: usize = make_checkbox(&mut out, content1, "chams", "Chams", place_rect(Control::Chams));
    let style: usize = make_button(&mut out, content1, "style", "Style: flat", Tone::Face, "style", place_rect(Control::Style));
    let scheme: usize = make_button(&mut out, content1, "scheme", "Scheme: plasma", Tone::Face, "scheme", place_rect(Control::Scheme));
    let stamina_check: usize = make_checkbox(&mut out, content2, "stam", "Infinite Stamina", place_rect(Control::Stamina));
    let speed_check: usize = make_checkbox(&mut out, content2, "speed", "Speedhack", place_rect(Control::Speed));
    let _minus: usize = make_button(&mut out, content2, "spdminus", "-", Tone::Face, "spdminus", place_rect(Control::SpeedMinus));
    let speed_value: usize = add_text(&mut out, "spdval", content2, "x1.00", 11, Tone::Dark, unity::ANCHOR_MIDDLE_CENTER, Place::At(lr(178, 44, 52, 18)));
    let _plus: usize = make_button(&mut out, content2, "spdplus", "+", Tone::Face, "spdplus", place_rect(Control::SpeedPlus));
    let _config: usize = make_button(&mut out, content2, "config", "Config Template", Tone::Face, "config", place_rect(Control::Config));
    let field: usize = add_panel(&mut out, "confield", content3, Tone::ConsoleField, Place::Fill(6), Edge::Sunken);
    let console_text: usize = add_node(&mut out, UiNode { name: "contxt", parent: field, label: "", tone: Tone::ConsoleText, place: Place::Fill(3), kind: Kind::Text { size: 10, align: unity::ANCHOR_UPPER_LEFT, vert: unity::WRAP_OVERFLOW } });
    let status: usize = add_text(&mut out, "status", window, "", 11, Tone::StatusText, unity::ANCHOR_MIDDLE_LEFT, Place::At(lr(8, 381, 504, 16)));
    let h = Handles {
        window,
        fps,
        status,
        console_text,
        chams_check,
        style,
        scheme,
        stamina_check,
        speed_check,
        speed_value,
        tabs: tab0 - 1,
        contents: content0,
    };
    (out, h)
}

/// The theme of a tab.
pub fn tab_tone(active: bool) -> (r: Tone)
    ensures
        r == tone_when(active),
{
    if active {
        Tone::Face
    } else {
        Tone::TabOff
    }
}

/// The node that draws a control; of a checkbox its box.
pub open spec fn node_of(c: Control) -> int {
    match c {
        Control::Close => 4,
        Control::Tab(i) => 6 + 2 * i,
        Control::Chams => 19,
        Control::Style => 22,
        Control::Scheme => 24,
        Control::Stamina => 26,
        Control::Speed => 29,
        Control::SpeedMinus => 32,
        Control::SpeedPlus => 35,
        Control::Config => 37,
    }
}

pub open spec fn is_checkbox(c: Control) -> bool {
    c is Chams || c is Stamina || c is Speed
}

/// Every control is drawn where it is clicked: a button or tab in exactly its
/// rectangle, the box and the label of a checkbox inside it. One on a tab is a
/// child of that tab's content, which lies where the content's offset says.
pub proof fn law_placed_where_hit(c: Control)
    requires
        valid(c),
    ensures
        ({
            let nodes = ui_nodes();
            let n = nodes[node_of(c)];
            &&& nodes.len() == 42
            &&& n.1 == match tab_of(c) {
                Some(t) => (14 + t) as nat,
                None => 0,
            }
            &&& tab_of(c) matches Some(t) ==> nodes[14 + t].4 == Place::At(
                rect(CONTENT_X as int, CONTENT_Y as int, CONTENT_W as int, CONTENT_H as int),
            ) && nodes[14 + t].1 == 0
            &&& !is_checkbox(c) ==> n.4 == Place::At(place_of(c))
            &&& is_checkbox(c) ==> {
                &&& n.4 matches Place::At(r)
                &&& within(r, place_of(c))
                &&& nodes[node_of(c) + 2].1 == n.1
                &&& nodes[node_of(c) + 2].4 matches Place::At(q)
                &&& within(q, place_of(c))
            }
        }),
{
}

// ── the frame ────────────────────────────────────────────────────────────────

/// The parts that change while the overlay is open.
#[derive(Copy, Clone, PartialEq, Eq, Debug, Structural)]
pub enum Part {
    /// The canvas of the window.
    Root,
    /// The canvas of the pointer.
    PointerCanvas,
    Content(usize),
    Tab(usize),
    Fps,
    Status,
    Chams,
    Style,
    Scheme,
    Stamina,
    Speed,
    SpeedValue,
    Console,
}

/// One change to the overlay.
#[derive(Copy, Clone, PartialEq, Eq, Debug, Structural)]
pub enum Act {
    /// Show or hide a part.
    Active(Part, bool),
    /// Put the pointer in the middle of the window.
    Seed,
    /// Draw the pointer there.
    Pointer(i32, i32),
    /// Hide the system's own pointer.
    HideSystemPointer,
    /// Paint a tab as the active one, or not.
    Paint(Part, bool),
    /// Show a checkbox as checked, or not.
    Check(Part, bool),
    /// Set the text of a part.
    Label(Part),
}

/// A change, and the text where it sets one.
pub struct Action {
    pub act: Act,
    pub text: String,
}

pub open spec fn actions_val(s: Seq<Action>) -> Seq<(Act, Seq<char>)> {
    s.map_values(|a: Action| (a.act, a.text@))
}

pub open spec fn plain(a: Act) -> (Act, Seq<char>) {
    (a, Seq::empty())
}

/// What the overlay shows.
pub struct Shown {
    pub text: String,
    pub fps: u32,
    pub status: String,
    pub tab: Option<usize>,
    pub chams_on: Option<bool>,
    pub style: String,
    pub scheme: String,
    pub stamina: Option<bool>,
    pub speed_on: Option<bool>,
    /// The bits of the multiplier.
    pub speed: Option<u32>,
    pub pointer: Option<(i32, i32)>,
}

impl Shown {
    /// Nothing is shown yet.
    pub fn new() -> (s: Self)
        ensures
            s.text@.len() == 0,
            s.fps == u32::MAX,
            s.status@.len() == 0,
            s.tab is None,
            s.chams_on is None,
            s.style@.len() == 0,
            s.scheme@.len() == 0,
            s.stamina is None,
            s.speed_on is None,
            s.speed is None,
            s.pointer is None,
    {
        Shown {
            text: String::new(),
            fps: u32::MAX,
            status: String::new(),
            tab: None,
            chams_on: None,
            style: String::new(),
            scheme: String::new(),
            stamina: None,
            speed_on: None,
            speed: None,
            pointer: None,
        }
    }
}

/// The time between two redraws, in nanoseconds.
pub const REDRAW_INTERVAL: u64 = 33_000_000;

/// The time over which the frame rate is measured, in nanoseconds.
pub const FPS_INTERVAL: u64 = 500_000_000;

pub struct Menu {
    pub visible: bool,
    pub tab: usize,
    pub frames: u64,
    /// How long the last frame took, the longest one, and all together, in
    /// microseconds.
    pub last_us: u64,
    pub max_us: u64,
    pub total_us: u64,
    /// A frame is being processed.
    pub busy: bool,
    pub domain: Option<Domain>,
    pub status: String,
    pub status_new: bool,
    pub unload: bool,
    /// Building was tried.
    pub initialized: bool,
    /// Building succeeded.
    pub built: bool,
    pub last_redraw: Option<u64>,
    pub fps: u32,
    pub fps_frames: u32,
    pub fps_since: Option<u64>,
    pub insert_held: bool,
    pub button_held: bool,
    /// Whether the overlay was last shown or hidden.
    pub applied: Option<bool>,
    pub shown: Shown,
}

impl Menu {
    pub fn new() -> (m: Self)
        ensures
            m.visible,
            m.tab == 1,
            m.frames == 0,
            m.last_us == 0,
            m.max_us == 0,
            m.total_us == 0,
            !m.busy,
            m.domain is None,
            m.status@.len() == 0,
            !m.status_new,
            !m.unload,
            !m.initialized,
            !m.built,
            m.last_redraw is None,
            m.fps == 0,
            m.fps_frames == 0,
            m.fps_since is None,
            !m.insert_held,
            !m.button_held,
            m.applied is None,
            costs_fit(m),
    {
        Menu {
            visible: true,
            tab: 1,
            frames: 0,
            last_us: 0,
            max_us: 0,
            total_us: 0,
            busy: false,
            domain: None,
            status: String::new(),
            status_new: false,
            unload: false,
            initialized: false,
            built: false,
            last_redraw: None,
            fps: 0,
            fps_frames: 0,
            fps_since: None,
            insert_held: false,
            button_held: false,
            applied: None,
            shown: Shown::new(),
        }
    }
}

pub fn frame_count(m: &Menu) -> (r: u64)
    ensures
        r == m.frames,
{
    m.frames
}

pub fn is_visible(m: &Menu) -> (r: bool)
    ensures
        r == m.visible,
{
    m.visible
}

/// The overlay follows on the next frame.
pub fn set_visible(m: &mut Menu, on: bool)
    ensures
        *final(m) == (Menu { visible: on, ..*old(m) }),
{
    m.visible = on;
}

pub fn fps(m: &Menu) -> (r: u32)
    ensures
        r == m.fps,
{
    m.fps
}

/// No frame took longer than the longest, and so neither did the last one nor
/// all of them together.
pub open spec fn costs_fit(m: Menu) -> bool {
    m.last_us <= m.max_us && m.total_us <= m.frames * m.max_us
}

proof fn lemma_average_fits(total: int, frames: int, max: int)
    requires
        0 <= total <= frames * max,
        0 <= frames,
        0 <= max,
    ensures
        frames > 0 ==> total / frames <= max,
        frames == 0 ==> total == 0,
{
    if frames > 0 {
        assert(total / frames <= max) by (nonlinear_arith)
            requires
                0 < frames,
                0 <= total,
                total <= frames * max,
        ;
    } else {
        assert(frames * max == 0) by (nonlinear_arith)
            requires
                frames == 0,
        ;
    }
}

/// (last, longest, average) time of a frame in microseconds.
pub fn onframe_us(m: &Menu) -> (r: (u64, u64, u64))
    ensures
        r.0 == m.last_us,
        r.1 == m.max_us,
        m.frames == 0 ==> r.2 == m.total_us,
        m.frames > 0 ==> r.2 == m.total_us / m.frames,
        costs_fit(*m) ==> r.0 <= r.1 && r.2 <= r.1,
{
    let n: u64 = if m.frames == 0 {
        1
    } else {
        m.frames
    };
    proof {
        if costs_fit(*m) {
            lemma_average_fits(m.total_us as int, m.frames as int, m.max_us as int);
        }
    }
    (m.last_us, m.max_us, m.total_us / n)
}

pub fn cursor(p: &Pointer) -> (r: (i32, i32))
    ensures
        r == (p.x, p.y),
{
    crate::input::virtual_cursor(p)
}

/// The first domain that is set stays.
pub fn set_domain(m: &mut Menu, domain: Domain)
    ensures
        *final(m) == (Menu {
            domain: match old(m).domain {
                Some(d) => Some(d),
                None => Some(domain),
            },
            ..*old(m)
        }),
{
    if m.domain.is_none() {
        m.domain = Some(domain);
    }
}

pub fn set_status(m: &mut Menu, s: String)
    ensures
        *final(m) == (Menu { status: s, status_new: true, ..*old(m) }),
{
    m.status = s;
    m.status_new = true;
}

/// True once since the status was set, and cleared by it.
pub fn status_dirty(m: &mut Menu) -> (r: bool)
    ensures
        r == old(m).status_new,
        *final(m) == (Menu { status_new: false, ..*old(m) }),
{
    let r = m.status_new;
    m.status_new = false;
    r
}

pub fn status_snapshot(m: &Menu) -> (r: String)
    ensures
        r@ == m.status@,
{
    copy_of(m.status.as_str())
}

/// The trainer unloads at the end of the next frame.
pub fn request_unload(m: &mut Menu)
    ensures
        *final(m) == (Menu { unload: true, ..*old(m) }),
{
    m.unload = true;
}

/// That time has passed.
pub open spec fn passed(since: Option<u64>, now: u64, interval: u64) -> bool {
    match since {
        Some(t) => now - t >= interval,
        None => true,
    }
}

/// Whether it is time to redraw; if so, the time is noted.
pub fn throttle_ok(m: &mut Menu, now: u64) -> (r: bool)
    ensures
        r == passed(old(m).last_redraw, now, REDRAW_INTERVAL),
        *final(m) == (Menu {
            last_redraw: if r {
                Some(now)
            } else {
                old(m).last_redraw
            },
            ..*old(m)
        }),
{
    match m.last_redraw {
        Some(t) => if now < t || now - t < REDRAW_INTERVAL {
            return false;
        },
        None => {},
    }
    m.last_redraw = Some(now);
    true
}

/// Counts a frame. At the end of every interval the frames of it and its length
/// are returned, for the rate to be computed from.
pub fn tick_fps(m: &mut Menu, now: u64) -> (r: Option<(u32, u64)>)
    requires
        old(m).fps_frames < u32::MAX,
    ensures
        old(m).fps_since is None ==> r is None && *final(m) == (Menu {
            fps_frames: (old(m).fps_frames + 1) as u32,
            fps_since: Some(now),
            ..*old(m)
        }),
        old(m).fps_since matches Some(t) ==> {
            &&& now - t >= FPS_INTERVAL ==> r == Some(
                ((old(m).fps_frames + 1) as u32, (now - t) as u64),
            ) && *final(m) == (Menu { fps_frames: 0, fps_since: Some(now), ..*old(m) })
            &&& now - t < FPS_INTERVAL ==> r is None && *final(m) == (Menu {
                fps_frames: (old(m).fps_frames + 1) as u32,
                ..*old(m)
            })
        },
{
    m.fps_frames = m.fps_frames + 1;
    let start: u64 = match m.fps_since {
        Some(t) => t,
        None => {
            m.fps_since = Some(now);
            return None;
        },
    };
    if now >= start && now - start >= FPS_INTERVAL {
        let n: u32 = m.fps_frames;
        m.fps_frames = 0;
        m.fps_since = Some(now);
        return Some((n, now - start));
    }
    None
}

/// Notes the frame rate.
pub fn set_fps(m: &mut Menu, fps: u32)
    ensures
        *final(m) == (Menu { fps, ..*old(m) }),
{
    m.fps = fps;
}

/// A frame begins; not inside another one.
pub fn enter_frame(m: &mut Menu) -> (r: bool)
    ensures
        r == !old(m).busy,
        *final(m) == (Menu { busy: true, ..*old(m) }),
{
    if m.busy {
        return false;
    }
    m.busy = true;
    true
}

/// Counts a frame that began.
pub fn count_frame(m: &mut Menu)
    ensures
        *final(m) == (Menu { frames: old(m).frames.wrapping_add(1), ..*old(m) }),
{
    m.frames = m.frames.wrapping_add(1);
}

/// A frame ends after that many microseconds.
pub fn leave_frame(m: &mut Menu, us: u64)
    ensures
        *final(m) == (Menu {
            last_us: us,
            max_us: if us > old(m).max_us {
                us
            } else {
                old(m).max_us
            },
            total_us: old(m).total_us.wrapping_add(us),
            busy: false,
            ..*old(m)
        }),
{
    m.last_us = us;
    if us > m.max_us {
        m.max_us = us;
    }
    m.total_us = m.total_us.wrapping_add(us);
    m.busy = false;
}

/// The menu after a frame of that many microseconds was counted and ended.
pub open spec fn after_frame(m: Menu, us: u64) -> Menu {
    Menu {
        frames: m.frames.wrapping_add(1),
        last_us: us,
        max_us: if us > m.max_us {
            us
        } else {
            m.max_us
        },
        total_us: m.total_us.wrapping_add(us),
        busy: false,
        ..m
    }
}

/// Of the times that are kept, the last and the average are at most the
/// longest, and the longest never falls, as long as the count of frames does not
/// wrap; the total may.
pub proof fn law_frame_costs(m: Menu, us: u64)
    requires
        costs_fit(m),
        m.frames < u64::MAX,
    ensures
        costs_fit(after_frame(m, us)),
        costs_fit(Menu { frames: m.frames.wrapping_add(1), ..m }),
        after_frame(m, us).last_us == us,
        m.max_us <= after_frame(m, us).max_us,
        after_frame(m, us).total_us / after_frame(m, us).frames <= after_frame(m, us).max_us,
{
    let n = after_frame(m, us);
    let (f, old_max, max) = (m.frames as int, m.max_us as int, n.max_us as int);
    assert(f * old_max <= f * max) by (nonlinear_arith)
        requires
            0 <= f,
            old_max <= max,
    ;
    assert((f + 1) * max == f * max + max) by (nonlinear_arith);
    assert((f + 1) * old_max == f * old_max + old_max) by (nonlinear_arith);
    assert(f * max >= 0) by (nonlinear_arith)
        requires
            0 <= f,
            0 <= max,
    ;
    lemma_average_fits(n.total_us as int, n.frames as int, max);
}

/// Which controls the pointer is on.
#[derive(Copy, Clone, PartialEq, Eq, Debug, Structural)]
pub struct Hits {
    pub close: bool,
    pub tab0: bool,
    pub tab1: bool,
    pub tab2: bool,
    pub tab3: bool,
    pub chams: bool,
    pub style: bool,
    pub scheme: bool,
    pub stamina: bool,
    pub speed: bool,
    pub minus: bool,
    pub plus: bool,
    pub config: bool,
}

/// The keys of a frame.
#[derive(Copy, Clone, PartialEq, Eq, Debug, Structural)]
pub struct Keys {
    /// The key that opens and closes the overlay is down.
    pub insert: bool,
    /// The mouse button is down.
    pub button: bool,
    pub hits: Hits,
}

/// Whether the overlay is open once the key is taken into account: it acts when
/// it goes down.
pub open spec fn visible_after(m: Menu, k: Keys) -> bool {
    if k.insert && !m.insert_held {
        !m.visible
    } else {
        m.visible
    }
}

/// The tab that is hit, the first of them.
pub open spec fn tab_hit(h: Hits) -> Option<usize> {
    if h.tab0 {
        Some(0)
    } else if h.tab1 {
        Some(1)
    } else if h.tab2 {
        Some(2)
    } else if h.tab3 {
        Some(3)
    } else {
        None
    }
}

/// What a click acts on: the close box before the tabs, the tabs before the
/// controls of the active one. A click is the mouse button going down while the
/// overlay is open.
pub open spec fn target_of(m: Menu, k: Keys) -> Option<Control> {
    let h = k.hits;
    if !k.button || m.button_held || !visible_after(m, k) {
        None
    } else if h.close {
        Some(Control::Close)
    } else if let Some(i) = tab_hit(h) {
        Some(Control::Tab(i))
    } else if m.tab == 1 {
        if h.chams {
            Some(Control::Chams)
        } else if h.style {
            Some(Control::Style)
        } else if h.scheme {
            Some(Control::Scheme)
        } else {
            None
        }
    } else if m.tab == 2 {
        if h.stamina {
            Some(Control::Stamina)
        } else if h.speed {
            Some(Control::Speed)
        } else if h.minus {
            Some(Control::SpeedMinus)
        } else if h.plus {
            Some(Control::SpeedPlus)
        } else if h.config {
            Some(Control::Config)
        } else {
            None
        }
    } else {
        None
    }
}

/// What a click does to the one feature.
pub open spec fn chams_after(c: Chams, t: Option<Control>) -> Chams {
    match t {
        Some(Control::Chams) => Chams { enabled: !c.enabled, ..c },
        Some(Control::Style) => Chams {
            style: ((c.style + 1) % (chams::STYLES as int)) as usize,
            apply: true,
            ..c
        },
        Some(Control::Scheme) => Chams {
            scheme: ((c.scheme + 1) % (chams::SCHEMES as int)) as usize,
            apply: true,
            ..c
        },
        _ => c,
    }
}

/// What a click does to the other features.
pub open spec fn features_after(f: Features, t: Option<Control>) -> Features {
    match t {
        Some(Control::Stamina) => Features { stamina: !f.stamina, ..f },
        Some(Control::Speed) => Features { speed: !f.speed, ..f },
        Some(Control::SpeedMinus) => Features { mult: features::stepped(f.mult, false), ..f },
        Some(Control::SpeedPlus) => Features { mult: features::stepped(f.mult, true), ..f },
        _ => f,
    }
}

fn find_target(tab: usize, h: &Hits) -> (r: Option<Control>)
    ensures
        forall|m: Menu, k: Keys| #![trigger target_of(m, k)]
            m.tab == tab && k.hits == *h && k.button && !m.button_held && visible_after(m, k)
                ==> r == target_of(m, k),
{
    if h.close {
        Some(Control::Close)
    } else if h.tab0 {
        Some(Control::Tab(0))
    } else if h.tab1 {
        Some(Control::Tab(1))
    } else if h.tab2 {
        Some(Control::Tab(2))
    } else if h.tab3 {
        Some(Control::Tab(3))
    } else if tab == 1 {
        if h.chams {
            Some(Control::Chams)
        } else if h.style {
            Some(Control::Style)
        } else if h.scheme {
            Some(Control::Scheme)
        } else {
            None
        }
    } else if tab == 2 {
        if h.stamina {
            Some(Control::Stamina)
        } else if h.speed {
            Some(Control::Speed)
        } else if h.minus {
            Some(Control::SpeedMinus)
        } else if h.plus {
            Some(Control::SpeedPlus)
        } else if h.config {
            Some(Control::Config)
        } else {
            None
        }
    } else {
        None
    }
}

/// Takes the keys of a frame: returns whether the overlay is open, and whether
/// its close box was clicked. That is acted upon later in the frame.
pub fn press(m: &mut Menu, c: &mut Chams, f: &mut Features, k: Keys) -> (r: (bool, bool))
    requires
        old(c).wf(),
        old(f).wf(),
    ensures
        r.0 == visible_after(*old(m), k),
        r.1 == (target_of(*old(m), k) == Some(Control::Close)),
        *final(m) == (Menu {
            visible: visible_after(*old(m), k),
            insert_held: k.insert,
            button_held: k.button,
            tab: match target_of(*old(m), k) {
                Some(Control::Tab(i)) => i,
                _ => old(m).tab,
            },
            ..*old(m)
        }),
        *final(c) == chams_after(*old(c), target_of(*old(m), k)),
        final(c).wf(),
        *final(f) == features_after(*old(f), target_of(*old(m), k)),
        final(f).wf(),
{
    let edge: bool = k.insert && !m.insert_held;
    m.insert_held = k.insert;
    if edge {
        m.visible = !m.visible;
    }
    let clicked: bool = k.button && !m.button_held;
    m.button_held = k.button;
    let visible: bool = m.visible;
    if !clicked || !visible {
        return (visible, false);
    }
    let t: Option<Control> = find_target(m.tab, &k.hits);
    assert(t == target_of(*old(m), k));
    match t {
        Some(Control::Close) => {
            return (visible, true);
        },
        Some(Control::Tab(i)) => {
            m.tab = i;
        },
        Some(Control::Chams) => {
            let _ = chams::toggle(c);
        },
        Some(Control::Style) => {
            chams::cycle_style(c);
        },
        Some(Control::Scheme) => {
            chams::cycle_scheme(c);
        },
        Some(Control::Stamina) => {
            let _ = features::toggle_inf_stamina(f);
        },
        Some(Control::Speed) => {
            let _ = features::toggle_speed(f);
        },
        Some(Control::SpeedMinus) => {
            features::bump_speed(f, false);
        },
        Some(Control::SpeedPlus) => {
            features::bump_speed(f, true);
        },
        Some(Control::Config) => {},
        None => {},
    }
    (visible, false)
}

/// A key that is held acts once, however many frames it is held for.
pub proof fn law_held_key_acts_once(m: Menu, k: Keys)
    ensures
        m.insert_held ==> visible_after(m, k) == m.visible,
        m.button_held ==> target_of(m, k) is None,
        !k.insert ==> visible_after(m, k) == m.visible,
{
}

/// Releasing and pressing the key again opens what it closed.
pub proof fn law_key_reopens(m: Menu, k: Keys)
    requires
        k.insert,
        !m.insert_held,
    ensures
        ({
            let closed = Menu { visible: visible_after(m, k), insert_held: true, ..m };
            let released = Menu { insert_held: false, ..closed };
            visible_after(released, k) == m.visible
        }),
{
}

/// What the rest of a frame does.
#[derive(Copy, Clone, PartialEq, Eq, Debug, Structural)]
pub enum Next {
    /// Take everything down; this was the last frame.
    Unload,
    /// Hide the overlay, where it was built.
    Hide(bool),
    /// Build the overlay.
    Build,
    /// Nothing: building failed.
    Disabled,
    /// Bring the overlay up to date.
    Redraw,
}

/// After the features had their turn. The close box only hides the overlay; only
/// a request to unload ends the trainer.
pub fn decide(m: &mut Menu, close: bool) -> (r: Next)
    ensures
        old(m).unload ==> r is Unload && *final(m) == *old(m),
        !old(m).unload && close ==> r == Next::Hide(old(m).built) && *final(m) == (Menu {
            visible: false,
            ..*old(m)
        }),
        !old(m).unload && !close ==> *final(m) == *old(m) && r == if !old(m).initialized {
            Next::Build
        } else if !old(m).built {
            Next::Disabled
        } else {
            Next::Redraw
        },
{
    if m.unload {
        return Next::Unload;
    }
    if close {
        m.visible = false;
        return Next::Hide(m.built);
    }
    if !m.initialized {
        return Next::Build;
    }
    if !m.built {
        return Next::Disabled;
    }
    Next::Redraw
}

/// Building is tried once. It succeeds if and only if the methods were found and
/// both canvases were made; nothing is shown yet then.
pub fn built(m: &mut Menu, resolved: bool, root: bool, pointer: bool) -> (ok: bool)
    ensures
        ok == (resolved && root && pointer),
        *final(m) == (Menu {
            initialized: true,
            built: ok || old(m).built,
            shown: final(m).shown,
            ..*old(m)
        }),
        !ok ==> final(m).shown == old(m).shown,
        ok ==> {
            &&& final(m).shown.text@.len() == 0
            &&& final(m).shown.fps == u32::MAX
            &&& final(m).shown.status@.len() == 0
            &&& final(m).shown.tab is None
            &&& final(m).shown.chams_on is None
            &&& final(m).shown.style@.len() == 0
            &&& final(m).shown.scheme@.len() == 0
            &&& final(m).shown.stamina is None
            &&& final(m).shown.speed_on is None
            &&& final(m).shown.speed is None
            &&& final(m).shown.pointer is None
        },
{
    let ok: bool = resolved && root && pointer;
    m.initialized = true;
    if ok {
        m.built = true;
        m.shown = Shown::new();
    }
    ok
}

// ── bringing the overlay up to date ──────────────────────────────────────────

/// Show or hide the overlay, where that is not how it is; opened, the pointer
/// starts in its middle.
#[verifier::opaque]
pub open spec fn reconcile_acts(applied: Option<bool>, visible: bool) -> Seq<(Act, Seq<char>)> {
    if applied == Some(visible) {
        Seq::empty()
    } else {
        seq![
            plain(Act::Active(Part::Root, visible)),
            plain(Act::Active(Part::PointerCanvas, visible)),
        ] + if visible {
            seq![plain(Act::Seed)]
        } else {
            Seq::empty()
        }
    }
}

/// The pointer where it moved, and never the system's own.
#[verifier::opaque]
pub open spec fn pointer_acts(
    last: Option<(i32, i32)>,
    at: (i32, i32),
    can_hide: bool,
) -> Seq<(Act, Seq<char>)> {
    (if last == Some(at) {
        Seq::empty()
    } else {
        seq![plain(Act::Pointer(at.0, at.1))]
    }) + if can_hide {
        seq![plain(Act::HideSystemPointer)]
    } else {
        Seq::empty()
    }
}

pub open spec fn tab_acts(last: Option<usize>, active: usize) -> Seq<(Act, Seq<char>)> {
    if last == Some(active) {
        Seq::empty()
    } else {
        seq![
            plain(Act::Active(Part::Content(0), active == 0)),
            plain(Act::Paint(Part::Tab(0), active == 0)),
            plain(Act::Active(Part::Content(1), active == 1)),
            plain(Act::Paint(Part::Tab(1), active == 1)),
            plain(Act::Active(Part::Content(2), active == 2)),
            plain(Act::Paint(Part::Tab(2), active == 2)),
            plain(Act::Active(Part::Content(3), active == 3)),
            plain(Act::Paint(Part::Tab(3), active == 3)),
        ]
    }
}

/// A text that changed.
pub open spec fn label_acts(
    last: Seq<char>,
    now: Seq<char>,
    part: Part,
    label: Seq<char>,
) -> Seq<(Act, Seq<char>)> {
    if last == now {
        Seq::empty()
    } else {
        seq![(Act::Label(part), label)]
    }
}

/// A checkbox that changed.
pub open spec fn check_acts(last: Option<bool>, now: bool, part: Part) -> Seq<(Act, Seq<char>)> {
    if last == Some(now) {
        Seq::empty()
    } else {
        seq![plain(Act::Check(part, now))]
    }
}

pub open spec fn fps_acts(last: u32, now: u32) -> Seq<(Act, Seq<char>)> {
    if last == now {
        Seq::empty()
    } else {
        seq![(Act::Label(Part::Fps), text::decimal_text(now as int) + " fps"@)]
    }
}

/// The multiplier where it changed.
pub open spec fn speed_acts(last: Option<u32>, now: u32, label: Seq<char>) -> Seq<
    (Act, Seq<char>),
> {
    if last == Some(now) {
        Seq::empty()
    } else {
        seq![(Act::Label(Part::SpeedValue), label)]
    }
}

fn act(out: &mut Vec<Action>, a: Act)
    ensures
        actions_val(final(out)@) == actions_val(old(out)@).push(plain(a)),
{
    let t = String::new();
    assert(t@ =~= Seq::<char>::empty());
    out.push(Action { act: a, text: t });
    assert(actions_val(out@) =~= actions_val(old(out)@).push(plain(a)));
}

fn label(out: &mut Vec<Action>, part: Part, text: String)
    ensures
        actions_val(final(out)@) == actions_val(old(out)@).push((Act::Label(part), text@)),
{
    out.push(Action { act: Act::Label(part), text });
    assert(actions_val(out@) =~= actions_val(old(out)@).push((Act::Label(part), text@)));
}

fn relabel(out: &mut Vec<Action>, last: &mut String, now: &str, part: Part, prefix: &str)
    ensures
        final(last)@ == now@,
        actions_val(final(out)@) == actions_val(old(out)@) + label_acts(
            old(last)@,
            now@,
            part,
            prefix@ + now@,
        ),
{
    if !same(last.as_str(), now) {
        let mut s = copy_of(prefix);
        s.append(now);
        label(out, part, s);
        *last = copy_of(now);
        assert(actions_val(out@) =~= actions_val(old(out)@) + seq![
            (Act::Label(part), prefix@ + now@),
        ]);
    } else {
        assert(actions_val(out@) =~= actions_val(old(out)@) + Seq::empty());
    }
}

fn recheck(out: &mut Vec<Action>, last: &mut Option<bool>, now: bool, part: Part)
    ensures
        *final(last) == Some(now),
        actions_val(final(out)@) == actions_val(old(out)@) + check_acts(*old(last), now, part),
{
    let unchanged: bool = match *last {
        Some(b) => b == now,
        None => false,
    };
    if !unchanged {
        act(out, Act::Check(part, now));
        *last = Some(now);
        assert(actions_val(out@) =~= actions_val(old(out)@) + seq![
            plain(Act::Check(part, now)),
        ]);
    } else {
        assert(actions_val(out@) =~= actions_val(old(out)@) + Seq::empty());
    }
}

fn reconcile(out: &mut Vec<Action>, applied: &mut Option<bool>, visible: bool)
    ensures
        *final(applied) == Some(visible),
        actions_val(final(out)@) == actions_val(old(out)@) + reconcile_acts(*old(applied), visible),
{
    proof {
        reveal(reconcile_acts);
    }
    let unchanged: bool = match *applied {
        Some(b) => b == visible,
        None => false,
    };
    *applied = Some(visible);
    if unchanged {
        assert(actions_val(out@) =~= actions_val(old(out)@) + Seq::empty());
        return ;
    }
    act(out, Act::Active(Part::Root, visible));
    act(out, Act::Active(Part::PointerCanvas, visible));
    if visible {
        act(out, Act::Seed);
    }
    assert(actions_val(out@) =~= actions_val(old(out)@) + reconcile_acts(*old(applied), visible));
}

fn redraw_pointer(
    out: &mut Vec<Action>,
    last: &mut Option<(i32, i32)>,
    at: (i32, i32),
    can_hide: bool,
)
    ensures
        *final(last) == Some(at),
        actions_val(final(out)@) == actions_val(old(out)@) + pointer_acts(*old(last), at, can_hide),
{
    proof {
        reveal(pointer_acts);
    }
    let unchanged: bool = match *last {
        Some(p) => p.0 == at.0 && p.1 == at.1,
        None => false,
    };
    if !unchanged {
        act(out, Act::Pointer(at.0, at.1));
        *last = Some(at);
    }
    if can_hide {
        act(out, Act::HideSystemPointer);
    }
    assert(actions_val(out@) =~= actions_val(old(out)@) + pointer_acts(*old(last), at, can_hide));
}

fn retab(out: &mut Vec<Action>, last: &mut Option<usize>, active: usize)
    ensures
        *final(last) == Some(active),
        actions_val(final(out)@) == actions_val(old(out)@) + tab_acts(*old(last), active),
{
    let unchanged: bool = match *last {
        Some(t) => t == active,
        None => false,
    };
    *last = Some(active);
    if unchanged {
        assert(actions_val(out@) =~= actions_val(old(out)@) + Seq::empty());
        return ;
    }
    act(out, Act::Active(Part::Content(0), active == 0));
    act(out, Act::Paint(Part::Tab(0), active == 0));
    act(out, Act::Active(Part::Content(1), active == 1));
    act(out, Act::Paint(Part::Tab(1), active == 1));
    act(out, Act::Active(Part::Content(2), active == 2));
    act(out, Act::Paint(Part::Tab(2), active == 2));
    act(out, Act::Active(Part::Content(3), active == 3));
    act(out, Act::Paint(Part::Tab(3), active == 3));
    assert(actions_val(out@) =~= actions_val(old(out)@) + tab_acts(*old(last), active));
}

/// What a frame gives to the redraw: whether the overlay is open, where the
/// pointer is, the time, the text of the multiplier, and whether the system's
/// pointer can be hidden.
pub struct FrameFacts {
    pub visible: bool,
    pub pointer: (i32, i32),
    pub now: u64,
    pub speed: String,
    pub can_hide: bool,
}

/// The active tab, which there is.
pub open spec fn shown_tab(tab: usize) -> usize {
    if tab < N_TABS {
        tab
    } else {
        (N_TABS - 1) as usize
    }
}

/// The tabs, the frame rate and the status line.
#[verifier::opaque]
pub open spec fn head_acts(m: Menu) -> Seq<(Act, Seq<char>)> {
    tab_acts(m.shown.tab, shown_tab(m.tab)) + fps_acts(m.shown.fps, m.fps) + (if m.status_new {
        label_acts(m.shown.status@, m.status@, Part::Status, m.status@)
    } else {
        Seq::empty()
    })
}

/// The features' widgets.
#[verifier::opaque]
pub open spec fn feature_acts(s: Shown, c: Chams, f: Features, speed: Seq<char>) -> Seq<
    (Act, Seq<char>),
> {
    check_acts(s.chams_on, c.enabled, Part::Chams) + label_acts(
        s.style@,
        chams::style_text(c.style),
        Part::Style,
        "Style: "@ + chams::style_text(c.style),
    ) + label_acts(
        s.scheme@,
        chams::scheme_text(c.scheme),
        Part::Scheme,
        "Scheme: "@ + chams::scheme_text(c.scheme),
    ) + check_acts(s.stamina, f.stamina, Part::Stamina) + check_acts(
        s.speed_on,
        f.speed,
        Part::Speed,
    ) + speed_acts(s.speed, f.mult, speed)
}

/// What the console shows.
pub open spec fn console_text(con: Console) -> Seq<char> {
    text::join(console::tail(con.lines(), CONSOLE_LINES as nat), "\n"@)
}

/// The console, where a line is new.
#[verifier::opaque]
pub open spec fn console_acts(last: Seq<char>, con: Console) -> Seq<(Act, Seq<char>)> {
    if con.dirty() {
        label_acts(last, console_text(con), Part::Console, console_text(con))
    } else {
        Seq::empty()
    }
}

/// Everything but the pointer that a redraw changes.
pub open spec fn content_acts(m: Menu, c: Chams, f: Features, con: Console, speed: Seq<char>) -> Seq<
    (Act, Seq<char>),
> {
    head_acts(m) + feature_acts(m.shown, c, f, speed) + console_acts(m.shown.text@, con)
}

/// All changes of a redraw. Of a closed overlay nothing is brought up to date;
/// of an open one only the pointer until `REDRAW_INTERVAL` has passed.
pub open spec fn redraw_acts(m: Menu, c: Chams, f: Features, con: Console, x: FrameFacts) -> Seq<
    (Act, Seq<char>),
> {
    let a = reconcile_acts(m.applied, x.visible);
    if !x.visible {
        a
    } else {
        let b = a + pointer_acts(m.shown.pointer, x.pointer, x.can_hide);
        if !passed(m.last_redraw, x.now, REDRAW_INTERVAL) {
            b
        } else {
            b + content_acts(m, c, f, con, x.speed@)
        }
    }
}

fn extend(out: &mut Vec<Action>, more: Vec<Action>)
    ensures
        actions_val(final(out)@) == actions_val(old(out)@) + actions_val(more@),
{
    let mut rest = more;
    out.append(&mut rest);
    assert(actions_val(out@) =~= actions_val(old(out)@) + actions_val(more@));
}

fn redraw_head(m: &mut Menu) -> (out: Vec<Action>)
    ensures
        actions_val(out@) == head_acts(*old(m)),
        *final(m) == (Menu {
            status_new: false,
            shown: Shown {
                tab: Some(shown_tab(old(m).tab)),
                fps: old(m).fps,
                status: final(m).shown.status,
                ..old(m).shown
            },
            ..*old(m)
        }),
        final(m).shown.status@ == if old(m).status_new {
            old(m).status@
        } else {
            old(m).shown.status@
        },
{
    proof {
        reveal(head_acts);
    }
    let mut out: Vec<Action> = Vec::new();
    let ghost m0 = *m;
    let active: usize = if m.tab < N_TABS {
        m.tab
    } else {
        N_TABS - 1
    };
    retab(&mut out, &mut m.shown.tab, active);
    let ghost a1 = tab_acts(m0.shown.tab, active);
    assert(actions_val(out@) =~= a1);
    if m.fps != m.shown.fps {
        let mut s = String::new();
        push_decimal(&mut s, m.fps as u64);
        s.append(" fps");
        assert(s@ =~= text::decimal_text(m.fps as int) + " fps"@);
        label(&mut out, Part::Fps, s);
        m.shown.fps = m.fps;
    }
    let ghost a2 = a1 + fps_acts(m0.shown.fps, m0.fps);
    assert(actions_val(out@) =~= a2);
    if status_dirty(m) {
        relabel(&mut out, &mut m.shown.status, m.status.as_str(), Part::Status, "");
        proof {
            reveal_strlit("");
            assert(""@ + m0.status@ =~= m0.status@);
        }
    } else {
        assert(a2 + Seq::<(Act, Seq<char>)>::empty() =~= a2);
    }
    out
}

fn redraw_features(s: &mut Shown, c: &Chams, f: &Features, speed: &str) -> (out: Vec<Action>)
    requires
        c.wf(),
    ensures
        actions_val(out@) == feature_acts(*old(s), *c, *f, speed@),
        *final(s) == (Shown {
            chams_on: Some(c.enabled),
            style: final(s).style,
            scheme: final(s).scheme,
            stamina: Some(f.stamina),
            speed_on: Some(f.speed),
            speed: Some(f.mult),
            ..*old(s)
        }),
        final(s).style@ == chams::style_text(c.style),
        final(s).scheme@ == chams::scheme_text(c.scheme),
{
    proof {
        reveal(feature_acts);
    }
    let mut out: Vec<Action> = Vec::new();
    let ghost s0 = *s;
    recheck(&mut out, &mut s.chams_on, chams::is_on(c), Part::Chams);
    assert(actions_val(out@) =~= check_acts(s0.chams_on, c.enabled, Part::Chams));
    relabel(&mut out, &mut s.style, chams::style_name(c), Part::Style, "Style: ");
    relabel(&mut out, &mut s.scheme, chams::scheme_name(c), Part::Scheme, "Scheme: ");
    recheck(&mut out, &mut s.stamina, features::inf_stamina(f), Part::Stamina);
    recheck(&mut out, &mut s.speed_on, features::speed_on(f), Part::Speed);
    respeed(&mut out, &mut s.speed, features::speed_mult(f), speed);
    out
}

fn respeed(out: &mut Vec<Action>, last: &mut Option<u32>, bits: u32, speed: &str)
    ensures
        *final(last) == Some(bits),
        actions_val(final(out)@) == actions_val(old(out)@) + speed_acts(*old(last), bits, speed@),
{
    let unchanged: bool = match *last {
        Some(v) => v == bits,
        None => false,
    };
    if !unchanged {
        label(out, Part::SpeedValue, copy_of(speed));
        *last = Some(bits);
    }
    assert(actions_val(out@) =~= actions_val(old(out)@) + speed_acts(*old(last), bits, speed@));
}

fn redraw_console(last: &mut String, con: &mut Console) -> (out: Vec<Action>)
    ensures
        actions_val(out@) == console_acts(old(last)@, *old(con)),
        final(con).lines() == old(con).lines(),
        !final(con).dirty(),
        final(last)@ == if old(con).dirty() {
            console_text(*old(con))
        } else {
            old(last)@
        },
{
    proof {
        reveal(console_acts);
    }
    let mut out: Vec<Action> = Vec::new();
    assert(actions_val(out@) =~= Seq::empty());
    if console::take_dirty(con) {
        let snap = console::snapshot_tail(con, CONSOLE_LINES);
        relabel(&mut out, last, snap.as_str(), Part::Console, "");
        proof {
            reveal_strlit("");
            assert(""@ + snap@ =~= snap@);
            assert(actions_val(out@) =~= console_acts(old(last)@, *old(con)));
        }
    }
    out
}

/// Brings the overlay up to date: only what changed is returned.
pub fn redraw(m: &mut Menu, c: &Chams, f: &Features, con: &mut Console, x: FrameFacts) -> (out: Vec<
    Action,
>)
    requires
        c.wf(),
    ensures
        actions_val(out@) == redraw_acts(*old(m), *c, *f, *old(con), x),
        final(con).lines() == old(con).lines(),
        final(m).applied == Some(x.visible),
        !x.visible ==> *final(m) == (Menu { applied: Some(x.visible), ..*old(m) }) && *final(con)
            == *old(con),
        x.visible ==> final(m).shown.pointer == Some(x.pointer),
        x.visible && !passed(old(m).last_redraw, x.now, REDRAW_INTERVAL) ==> *final(con) == *old(
            con,
        ) && *final(m) == (Menu {
            applied: Some(x.visible),
            shown: Shown { pointer: Some(x.pointer), ..old(m).shown },
            ..*old(m)
        }),
        x.visible && passed(old(m).last_redraw, x.now, REDRAW_INTERVAL) ==> {
            &&& !final(con).dirty()
            &&& *final(m) == (Menu {
                applied: Some(x.visible),
                last_redraw: Some(x.now),
                status_new: false,
                shown: final(m).shown,
                ..*old(m)
            })
            &&& up_to_date(*final(m), *c, *f)
            &&& old(m).status_new ==> final(m).shown.status@ == old(m).status@
            &&& !old(m).status_new ==> final(m).shown.status@ == old(m).shown.status@
            &&& old(con).dirty() ==> final(m).shown.text@ == console_text(*old(con))
            &&& !old(con).dirty() ==> final(m).shown.text@ == old(m).shown.text@
        },
{
    let mut out: Vec<Action> = Vec::new();
    assert(actions_val(out@) =~= Seq::empty());
    let ghost c0 = *con;
    reconcile(&mut out, &mut m.applied, x.visible);
    if !x.visible {
        assert(actions_val(out@) =~= reconcile_acts(old(m).applied, x.visible));
        return out;
    }
    redraw_pointer(&mut out, &mut m.shown.pointer, x.pointer, x.can_hide);
    let ghost b = reconcile_acts(old(m).applied, x.visible) + pointer_acts(
        old(m).shown.pointer,
        x.pointer,
        x.can_hide,
    );
    assert(actions_val(out@) =~= b);
    if !throttle_ok(m, x.now) {
        return out;
    }
    assert(head_acts(*m) == head_acts(*old(m))) by {
        reveal(head_acts);
    }
    let head = redraw_head(m);
    assert(feature_acts(m.shown, *c, *f, x.speed@) == feature_acts(
        old(m).shown,
        *c,
        *f,
        x.speed@,
    )) by {
        reveal(feature_acts);
    }
    let feats = redraw_features(&mut m.shown, c, f, x.speed.as_str());
    let cons = redraw_console(&mut m.shown.text, con);
    extend(&mut out, head);
    extend(&mut out, feats);
    extend(&mut out, cons);
    proof {
        let h = head_acts(*old(m));
        let g = feature_acts(old(m).shown, *c, *f, x.speed@);
        let k = console_acts(old(m).shown.text@, c0);
        assert(b + (h + g + k) =~= b + h + g + k);
    }
    out
}

/// The overlay shows what is.
pub open spec fn up_to_date(m: Menu, c: Chams, f: Features) -> bool {
    &&& m.shown.tab == Some(shown_tab(m.tab))
    &&& m.shown.fps == m.fps
    &&& m.shown.chams_on == Some(c.enabled)
    &&& m.shown.style@ == chams::style_text(c.style)
    &&& m.shown.scheme@ == chams::scheme_text(c.scheme)
    &&& m.shown.stamina == Some(f.stamina)
    &&& m.shown.speed_on == Some(f.speed)
    &&& m.shown.speed == Some(f.mult)
}

/// Where the overlay shows what is, no line and no status is new, and the
/// pointer did not move, a redraw changes nothing.
pub proof fn law_quiet_redraw(m: Menu, c: Chams, f: Features, con: Console, x: FrameFacts)
    requires
        x.visible,
        m.applied == Some(true),
        m.shown.pointer == Some(x.pointer),
        !x.can_hide,
        up_to_date(m, c, f),
        !m.status_new,
        !con.dirty(),
    ensures
        redraw_acts(m, c, f, con, x).len() == 0,
{
    reveal(head_acts);
    reveal(feature_acts);
    reveal(console_acts);
    reveal(reconcile_acts);
    reveal(pointer_acts);
}

} // verus!
