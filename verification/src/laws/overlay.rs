//! The laws of the overlay: what a click does, what a redraw changes, and what
//! the window is made of.

use vstd::prelude::*;

use crate::chams::Chams;
use crate::console;
use crate::console::Console;
use crate::features::Features;
use crate::laws::raid::{method_or_null, named_method};
use crate::menu;
use crate::menu::{
    Act, Control, Edge, FrameFacts, Keys, Kind, LRect, Menu, Methods, Part, Place, Tone, UiObjects,
};
use crate::runtime::ScriptRuntime;
use crate::text;

verus! {

/// The mouse button goes down on an open overlay; the key that opens and closes
/// it counts first.
pub open spec fn clicked(m: Menu, k: Keys) -> bool {
    let open = if k.insert && !m.insert_held {
        !m.visible
    } else {
        m.visible
    };
    k.button && !m.button_held && open
}

/// A click acts on what it hits: the close box before everything, then the tabs,
/// the first that is hit; and the controls of a tab only while that tab is the
/// active one.
pub proof fn law_click(m: Menu, k: Keys)
    ensures
        ({
            let h = k.hits;
            let t = menu::target_of(m, k);
            let on_tabs = h.tab0 || h.tab1 || h.tab2 || h.tab3;
            let free = clicked(m, k) && !h.close && !on_tabs;
            &&& !clicked(m, k) ==> t is None
            &&& t == Some(Control::Close) <==> clicked(m, k) && h.close
            &&& t == Some(Control::Tab(0)) <==> clicked(m, k) && !h.close && h.tab0
            &&& t == Some(Control::Tab(1)) <==> clicked(m, k) && !h.close && !h.tab0 && h.tab1
            &&& t == Some(Control::Tab(2)) <==> clicked(m, k) && !h.close && !h.tab0 && !h.tab1
                && h.tab2
            &&& t == Some(Control::Tab(3)) <==> clicked(m, k) && !h.close && !h.tab0 && !h.tab1
                && !h.tab2 && h.tab3
            &&& t == Some(Control::Chams) <==> free && m.tab == 1 && h.chams
            &&& t == Some(Control::Style) <==> free && m.tab == 1 && !h.chams && h.style
            &&& t == Some(Control::Scheme) <==> free && m.tab == 1 && !h.chams && !h.style
                && h.scheme
            &&& t == Some(Control::Stamina) <==> free && m.tab == 2 && h.stamina
            &&& t == Some(Control::Speed) <==> free && m.tab == 2 && !h.stamina && h.speed
            &&& t == Some(Control::SpeedMinus) <==> free && m.tab == 2 && !h.stamina && !h.speed
                && h.minus
            &&& t == Some(Control::SpeedPlus) <==> free && m.tab == 2 && !h.stamina && !h.speed
                && !h.minus && h.plus
            &&& t == Some(Control::Config) <==> free && m.tab == 2 && !h.stamina && !h.speed
                && !h.minus && !h.plus && h.config
        }),
{
}

/// What a click does: each control does its own thing, and only that.
pub proof fn law_click_acts(c: Chams, f: Features, t: Option<Control>)
    requires
        c.scheme < 6,
        c.style < 3,
        0x3f80_0000 <= f.mult <= 0x3fb3_3333,
    ensures
        ({
            let d = menu::chams_after(c, t);
            let g = menu::features_after(f, t);
            &&& d.enabled == if t == Some(Control::Chams) {
                !c.enabled
            } else {
                c.enabled
            }
            &&& d.style == if t == Some(Control::Style) {
                (c.style + 1) % 3
            } else {
                c.style as int
            }
            &&& d.scheme == if t == Some(Control::Scheme) {
                (c.scheme + 1) % 6
            } else {
                c.scheme as int
            }
            &&& d.apply == (c.apply || t == Some(Control::Style) || t == Some(Control::Scheme))
            &&& d.material == c.material && d.originals == c.originals && d.shader == c.shader
            &&& g.stamina == if t == Some(Control::Stamina) {
                !f.stamina
            } else {
                f.stamina
            }
            &&& g.speed == if t == Some(Control::Speed) {
                !f.speed
            } else {
                f.speed
            }
            &&& t == Some(Control::SpeedPlus) ==> g.mult == if f.mult + 419430 > 0x3fb3_3333 {
                0x3fb3_3333
            } else {
                f.mult + 419430
            }
            &&& t == Some(Control::SpeedMinus) ==> g.mult == if f.mult - 419430 < 0x3f80_0000 {
                0x3f80_0000
            } else {
                f.mult - 419430
            }
            &&& t != Some(Control::SpeedPlus) && t != Some(Control::SpeedMinus) ==> g.mult == f.mult
            &&& g.cache == f.cache
        }),
{
}

/// The key opens what is closed and closes what is open, when it goes down.
pub proof fn law_key(m: Menu, k: Keys)
    ensures
        menu::visible_after(m, k) == (m.visible != (k.insert && !m.insert_held)),
{
}

/// A frame that ends is counted, with what it cost: the last, the longest and all
/// together.
pub proof fn law_frame_counted(m: Menu, us: u64)
    requires
        m.frames < u64::MAX,
        m.total_us + us <= u64::MAX,
    ensures
        ({
            let n = menu::after_frame(m, us);
            &&& n.frames == m.frames + 1
            &&& n.last_us == us
            &&& n.max_us >= us && n.max_us >= m.max_us
            &&& n.max_us == us || n.max_us == m.max_us
            &&& n.total_us == m.total_us + us
            &&& !n.busy
        }),
{
}

/// Time has passed where that much lies between, or where it was never set.
pub proof fn law_passed(since: u64, now: u64, interval: u64)
    ensures
        menu::passed(None, now, interval),
        menu::passed(Some(since), now, interval) <==> now >= since + interval,
        menu::REDRAW_INTERVAL == 33_000_000,
        menu::FPS_INTERVAL == 500_000_000,
{
}

// ── redraws ──────────────────────────────────────────────────────────────────

/// A change makes the overlay show what is.
pub open spec fn truthful(
    a: (Act, Seq<char>),
    m: Menu,
    c: Chams,
    f: Features,
    con: Console,
    x: FrameFacts,
) -> bool {
    let tab = if m.tab < 4 {
        m.tab
    } else {
        3
    };
    match a.0 {
        Act::Active(Part::Root, on) => on == x.visible,
        Act::Active(Part::PointerCanvas, on) => on == x.visible,
        Act::Active(Part::Content(i), on) => i < 4 && on == (i == tab),
        Act::Paint(Part::Tab(i), on) => i < 4 && on == (i == tab),
        Act::Seed => x.visible,
        Act::Pointer(px, py) => x.visible && (px, py) == x.pointer,
        Act::HideSystemPointer => x.visible && x.can_hide,
        Act::Check(Part::Chams, on) => on == c.enabled,
        Act::Check(Part::Stamina, on) => on == f.stamina,
        Act::Check(Part::Speed, on) => on == f.speed,
        Act::Label(Part::Fps) => a.1 == text::decimal_text(m.fps as int) + " fps"@,
        Act::Label(Part::Status) => a.1 == m.status@,
        Act::Label(Part::Style) => a.1 == "Style: "@ + seq!["flat"@, "glow"@, "mesh"@][c.style as int],
        Act::Label(Part::Scheme) => a.1 == "Scheme: "@ + seq![
            "plasma"@,
            "molten"@,
            "toxic"@,
            "void"@,
            "ice"@,
            "ember"@,
        ][c.scheme as int],
        Act::Label(Part::SpeedValue) => a.1 == x.speed@,
        Act::Label(Part::Console) => a.1 == text::join(console::tail(con.lines(), 22), "\n"@),
        _ => false,
    }
}

spec fn all_truthful(
    s: Seq<(Act, Seq<char>)>,
    m: Menu,
    c: Chams,
    f: Features,
    con: Console,
    x: FrameFacts,
) -> bool {
    forall|i: int| 0 <= i < s.len() ==> truthful(#[trigger] s[i], m, c, f, con, x)
}

proof fn lemma_both(
    s: Seq<(Act, Seq<char>)>,
    t: Seq<(Act, Seq<char>)>,
    m: Menu,
    c: Chams,
    f: Features,
    con: Console,
    x: FrameFacts,
)
    requires
        all_truthful(s, m, c, f, con, x),
        all_truthful(t, m, c, f, con, x),
    ensures
        all_truthful(s + t, m, c, f, con, x),
{
    assert forall|i: int| 0 <= i < (s + t).len() implies truthful(
        #[trigger] (s + t)[i],
        m,
        c,
        f,
        con,
        x,
    ) by {
        if i < s.len() {
            assert((s + t)[i] == s[i]);
        } else {
            assert((s + t)[i] == t[i - s.len()]);
        }
    }
}

/// Every change of a redraw makes the overlay show what is: no part is shown,
/// painted, checked or labelled otherwise than it should be.
pub proof fn law_redraw_truthful(m: Menu, c: Chams, f: Features, con: Console, x: FrameFacts, i: int)
    requires
        c.scheme < 6,
        c.style < 3,
        0 <= i < menu::redraw_acts(m, c, f, con, x).len(),
    ensures
        truthful(menu::redraw_acts(m, c, f, con, x)[i], m, c, f, con, x),
{
    reveal(menu::head_acts);
    reveal(menu::feature_acts);
    reveal(menu::console_acts);
    reveal(menu::reconcile_acts);
    reveal(menu::pointer_acts);
    let a = menu::reconcile_acts(m.applied, x.visible);
    assert(all_truthful(a, m, c, f, con, x));
    if x.visible {
        let p = menu::pointer_acts(m.shown.pointer, x.pointer, x.can_hide);
        assert(all_truthful(p, m, c, f, con, x));
        lemma_both(a, p, m, c, f, con, x);
        let h1 = menu::tab_acts(m.shown.tab, menu::shown_tab(m.tab));
        let h2 = menu::fps_acts(m.shown.fps, m.fps);
        let h3 = if m.status_new {
            menu::label_acts(m.shown.status@, m.status@, Part::Status, m.status@)
        } else {
            Seq::empty()
        };
        assert(all_truthful(h1, m, c, f, con, x));
        assert(all_truthful(h2, m, c, f, con, x));
        assert(all_truthful(h3, m, c, f, con, x));
        lemma_both(h1, h2, m, c, f, con, x);
        lemma_both(h1 + h2, h3, m, c, f, con, x);
        let s = m.shown;
        let f1 = menu::check_acts(s.chams_on, c.enabled, Part::Chams);
        let f2 = menu::label_acts(
            s.style@,
            crate::chams::style_text(c.style),
            Part::Style,
            "Style: "@ + crate::chams::style_text(c.style),
        );
        let f3 = menu::label_acts(
            s.scheme@,
            crate::chams::scheme_text(c.scheme),
            Part::Scheme,
            "Scheme: "@ + crate::chams::scheme_text(c.scheme),
        );
        let f4 = menu::check_acts(s.stamina, f.stamina, Part::Stamina);
        let f5 = menu::check_acts(s.speed_on, f.speed, Part::Speed);
        let f6 = menu::speed_acts(s.speed, f.mult, x.speed@);
        crate::laws::chams::law_names(c.scheme, c.style);
        assert(all_truthful(f1, m, c, f, con, x));
        assert(all_truthful(f2, m, c, f, con, x));
        assert(all_truthful(f3, m, c, f, con, x));
        assert(all_truthful(f4, m, c, f, con, x));
        assert(all_truthful(f5, m, c, f, con, x));
        assert(all_truthful(f6, m, c, f, con, x));
        lemma_both(f1, f2, m, c, f, con, x);
        lemma_both(f1 + f2, f3, m, c, f, con, x);
        lemma_both(f1 + f2 + f3, f4, m, c, f, con, x);
        lemma_both(f1 + f2 + f3 + f4, f5, m, c, f, con, x);
        lemma_both(f1 + f2 + f3 + f4 + f5, f6, m, c, f, con, x);
        let k = menu::console_acts(s.text@, con);
        assert(all_truthful(k, m, c, f, con, x));
        let h = h1 + h2 + h3;
        let g = f1 + f2 + f3 + f4 + f5 + f6;
        lemma_both(h, g, m, c, f, con, x);
        lemma_both(h + g, k, m, c, f, con, x);
        lemma_both(a + p, h + g + k, m, c, f, con, x);
    }
}

proof fn lemma_occurs(s: Seq<(Act, Seq<char>)>, t: Seq<(Act, Seq<char>)>, a: (Act, Seq<char>))
    requires
        s.contains(a) || t.contains(a),
    ensures
        (s + t).contains(a),
{
    if s.contains(a) {
        let i = choose|i: int| 0 <= i < s.len() && s[i] == a;
        assert((s + t)[i] == a);
    } else {
        let i = choose|i: int| 0 <= i < t.len() && t[i] == a;
        assert((s + t)[s.len() + i] == a);
    }
}

/// A redraw of an open overlay is due.
pub open spec fn redraw_due(m: Menu, x: FrameFacts) -> bool {
    x.visible && (m.last_redraw matches Some(t) ==> x.now >= t + 33_000_000)
}

proof fn lemma_in_redraw(
    m: Menu,
    c: Chams,
    f: Features,
    con: Console,
    x: FrameFacts,
    t: (Act, Seq<char>),
)
    requires
        redraw_due(m, x),
        menu::head_acts(m).contains(t) || menu::feature_acts(m.shown, c, f, x.speed@).contains(t)
            || menu::console_acts(m.shown.text@, con).contains(t),
    ensures
        menu::redraw_acts(m, c, f, con, x).contains(t),
{
    let a = menu::reconcile_acts(m.applied, x.visible);
    let p = menu::pointer_acts(m.shown.pointer, x.pointer, x.can_hide);
    let h = menu::head_acts(m);
    let g = menu::feature_acts(m.shown, c, f, x.speed@);
    let k = menu::console_acts(m.shown.text@, con);
    if h.contains(t) || g.contains(t) {
        lemma_occurs(h, g, t);
    }
    lemma_occurs(h + g, k, t);
    lemma_occurs(a + p, h + g + k, t);
}

proof fn lemma_in_features(m: Menu, c: Chams, f: Features, speed: Seq<char>, t: (Act, Seq<char>), k: int)
    requires
        ({
            let s = m.shown;
            let style = crate::chams::style_text(c.style);
            let scheme = crate::chams::scheme_text(c.scheme);
            ||| k == 1 && menu::check_acts(s.chams_on, c.enabled, Part::Chams).contains(t)
            ||| k == 2 && menu::label_acts(s.style@, style, Part::Style, "Style: "@ + style).contains(t)
            ||| k == 3 && menu::label_acts(
                s.scheme@,
                scheme,
                Part::Scheme,
                "Scheme: "@ + scheme,
            ).contains(t)
            ||| k == 4 && menu::check_acts(s.stamina, f.stamina, Part::Stamina).contains(t)
            ||| k == 5 && menu::check_acts(s.speed_on, f.speed, Part::Speed).contains(t)
            ||| k == 6 && menu::speed_acts(s.speed, f.mult, speed).contains(t)
        }),
    ensures
        menu::feature_acts(m.shown, c, f, speed).contains(t),
{
    reveal(menu::feature_acts);
    let s = m.shown;
    let style = crate::chams::style_text(c.style);
    let scheme = crate::chams::scheme_text(c.scheme);
    let f1 = menu::check_acts(s.chams_on, c.enabled, Part::Chams);
    let f2 = menu::label_acts(s.style@, style, Part::Style, "Style: "@ + style);
    let f3 = menu::label_acts(s.scheme@, scheme, Part::Scheme, "Scheme: "@ + scheme);
    let f4 = menu::check_acts(s.stamina, f.stamina, Part::Stamina);
    let f5 = menu::check_acts(s.speed_on, f.speed, Part::Speed);
    let f6 = menu::speed_acts(s.speed, f.mult, speed);
    if k <= 2 {
        lemma_occurs(f1, f2, t);
    }
    if k <= 3 {
        lemma_occurs(f1 + f2, f3, t);
    }
    if k <= 4 {
        lemma_occurs(f1 + f2 + f3, f4, t);
    }
    if k <= 5 {
        lemma_occurs(f1 + f2 + f3 + f4, f5, t);
    }
    lemma_occurs(f1 + f2 + f3 + f4 + f5, f6, t);
}

/// Whatever an open overlay shows of the features that is no longer so is
/// brought up to date by the next redraw that is due.
pub proof fn law_redraw_features(m: Menu, c: Chams, f: Features, con: Console, x: FrameFacts)
    requires
        c.scheme < 6,
        c.style < 3,
        redraw_due(m, x),
    ensures
        ({
            let acts = menu::redraw_acts(m, c, f, con, x);
            let none = Seq::<char>::empty();
            let style = seq!["flat"@, "glow"@, "mesh"@][c.style as int];
            let scheme = seq!["plasma"@, "molten"@, "toxic"@, "void"@, "ice"@, "ember"@][c.scheme as int];
            &&& m.shown.chams_on != Some(c.enabled) ==> acts.contains(
                (Act::Check(Part::Chams, c.enabled), none),
            )
            &&& m.shown.stamina != Some(f.stamina) ==> acts.contains(
                (Act::Check(Part::Stamina, f.stamina), none),
            )
            &&& m.shown.speed_on != Some(f.speed) ==> acts.contains(
                (Act::Check(Part::Speed, f.speed), none),
            )
            &&& m.shown.speed != Some(f.mult) ==> acts.contains((Act::Label(Part::SpeedValue), x.speed@))
            &&& m.shown.style@ != style ==> acts.contains((Act::Label(Part::Style), "Style: "@ + style))
            &&& m.shown.scheme@ != scheme ==> acts.contains(
                (Act::Label(Part::Scheme), "Scheme: "@ + scheme),
            )
        }),
{
    crate::laws::chams::law_names(c.scheme, c.style);
    let style = crate::chams::style_text(c.style);
    let scheme = crate::chams::scheme_text(c.scheme);
    let s = m.shown;
    let none = Seq::<char>::empty();
    if s.chams_on != Some(c.enabled) {
        let t = (Act::Check(Part::Chams, c.enabled), none);
        assert(menu::check_acts(s.chams_on, c.enabled, Part::Chams)[0] == t);
        lemma_in_features(m, c, f, x.speed@, t, 1);
        lemma_in_redraw(m, c, f, con, x, t);
    }
    if s.style@ != style {
        let t = (Act::Label(Part::Style), "Style: "@ + style);
        assert(menu::label_acts(s.style@, style, Part::Style, "Style: "@ + style)[0] == t);
        lemma_in_features(m, c, f, x.speed@, t, 2);
        lemma_in_redraw(m, c, f, con, x, t);
    }
    if s.scheme@ != scheme {
        let t = (Act::Label(Part::Scheme), "Scheme: "@ + scheme);
        assert(menu::label_acts(s.scheme@, scheme, Part::Scheme, "Scheme: "@ + scheme)[0] == t);
        lemma_in_features(m, c, f, x.speed@, t, 3);
        lemma_in_redraw(m, c, f, con, x, t);
    }
    if s.stamina != Some(f.stamina) {
        let t = (Act::Check(Part::Stamina, f.stamina), none);
        assert(menu::check_acts(s.stamina, f.stamina, Part::Stamina)[0] == t);
        lemma_in_features(m, c, f, x.speed@, t, 4);
        lemma_in_redraw(m, c, f, con, x, t);
    }
    if s.speed_on != Some(f.speed) {
        let t = (Act::Check(Part::Speed, f.speed), none);
        assert(menu::check_acts(s.speed_on, f.speed, Part::Speed)[0] == t);
        lemma_in_features(m, c, f, x.speed@, t, 5);
        lemma_in_redraw(m, c, f, con, x, t);
    }
    if s.speed != Some(f.mult) {
        let t = (Act::Label(Part::SpeedValue), x.speed@);
        assert(menu::speed_acts(s.speed, f.mult, x.speed@)[0] == t);
        lemma_in_features(m, c, f, x.speed@, t, 6);
        lemma_in_redraw(m, c, f, con, x, t);
    }
}

proof fn lemma_in_head(m: Menu, t: (Act, Seq<char>), k: int)
    requires
        ({
            ||| k == 1 && menu::tab_acts(m.shown.tab, menu::shown_tab(m.tab)).contains(t)
            ||| k == 2 && menu::fps_acts(m.shown.fps, m.fps).contains(t)
            ||| k == 3 && m.status_new && menu::label_acts(
                m.shown.status@,
                m.status@,
                Part::Status,
                m.status@,
            ).contains(t)
        }),
    ensures
        menu::head_acts(m).contains(t),
{
    reveal(menu::head_acts);
    let h1 = menu::tab_acts(m.shown.tab, menu::shown_tab(m.tab));
    let h2 = menu::fps_acts(m.shown.fps, m.fps);
    let h3 = if m.status_new {
        menu::label_acts(m.shown.status@, m.status@, Part::Status, m.status@)
    } else {
        Seq::empty()
    };
    if k <= 2 {
        lemma_occurs(h1, h2, t);
    }
    lemma_occurs(h1 + h2, h3, t);
}

/// The same of the tabs, of which one content is shown and one tab painted as
/// the active one, of the frame rate, of the status line and of the console.
pub proof fn law_redraw_window(
    m: Menu,
    c: Chams,
    f: Features,
    con: Console,
    x: FrameFacts,
    j: usize,
)
    requires
        redraw_due(m, x),
        j < 4,
    ensures
        ({
            let acts = menu::redraw_acts(m, c, f, con, x);
            let none = Seq::<char>::empty();
            let lines = text::join(console::tail(con.lines(), 22), "\n"@);
            &&& m.tab < 4 && m.shown.tab != Some(m.tab) ==> {
                &&& acts.contains((Act::Active(Part::Content(j), j == m.tab), none))
                &&& acts.contains((Act::Paint(Part::Tab(j), j == m.tab), none))
            }
            &&& m.shown.fps != m.fps ==> acts.contains(
                (Act::Label(Part::Fps), text::decimal_text(m.fps as int) + " fps"@),
            )
            &&& m.status_new && m.shown.status@ != m.status@ ==> acts.contains(
                (Act::Label(Part::Status), m.status@),
            )
            &&& con.dirty() && m.shown.text@ != lines ==> acts.contains(
                (Act::Label(Part::Console), lines),
            )
        }),
{
    let s = m.shown;
    let none = Seq::<char>::empty();
    if m.tab < 4 && s.tab != Some(m.tab) {
        let h = menu::tab_acts(s.tab, menu::shown_tab(m.tab));
        let i = j as int;
        let t = (Act::Active(Part::Content(j), j == m.tab), none);
        let u = (Act::Paint(Part::Tab(j), j == m.tab), none);
        assert(h.len() == 8);
        assert(h[2 * i] == t);
        assert(h[2 * i + 1] == u);
        lemma_in_head(m, t, 1);
        lemma_in_head(m, u, 1);
        lemma_in_redraw(m, c, f, con, x, t);
        lemma_in_redraw(m, c, f, con, x, u);
    }
    if s.fps != m.fps {
        let t = (Act::Label(Part::Fps), text::decimal_text(m.fps as int) + " fps"@);
        assert(menu::fps_acts(s.fps, m.fps)[0] == t);
        lemma_in_head(m, t, 2);
        lemma_in_redraw(m, c, f, con, x, t);
    }
    if m.status_new && s.status@ != m.status@ {
        let t = (Act::Label(Part::Status), m.status@);
        assert(menu::label_acts(s.status@, m.status@, Part::Status, m.status@)[0] == t);
        lemma_in_head(m, t, 3);
        lemma_in_redraw(m, c, f, con, x, t);
    }
    if con.dirty() && s.text@ != menu::console_text(con) {
        reveal(menu::console_acts);
        let t = (Act::Label(Part::Console), menu::console_text(con));
        assert(menu::console_acts(s.text@, con)[0] == t);
        lemma_in_redraw(m, c, f, con, x, t);
    }
}

/// An overlay that was not shown is shown, with the pointer put on it; and the
/// pointer is drawn where it is, in every frame, due or not.
pub proof fn law_redraw_pointer(m: Menu, c: Chams, f: Features, con: Console, x: FrameFacts)
    requires
        x.visible,
    ensures
        ({
            let acts = menu::redraw_acts(m, c, f, con, x);
            let none = Seq::<char>::empty();
            &&& m.applied != Some(true) ==> {
                &&& acts.contains((Act::Active(Part::Root, true), none))
                &&& acts.contains((Act::Active(Part::PointerCanvas, true), none))
                &&& acts.contains((Act::Seed, none))
            }
            &&& m.shown.pointer != Some(x.pointer) ==> acts.contains(
                (Act::Pointer(x.pointer.0, x.pointer.1), none),
            )
            &&& x.can_hide ==> acts.contains((Act::HideSystemPointer, none))
        }),
{
    let a = menu::reconcile_acts(m.applied, x.visible);
    let p = menu::pointer_acts(m.shown.pointer, x.pointer, x.can_hide);
    let k = menu::content_acts(m, c, f, con, x.speed@);
    let none = Seq::<char>::empty();
    let all = menu::redraw_acts(m, c, f, con, x);
    assert(all == a + p || all == a + p + k);
    assert forall|t: (Act, Seq<char>)| a.contains(t) || p.contains(t) implies all.contains(t) by {
        lemma_occurs(a, p, t);
        lemma_occurs(a + p, k, t);
    }
    if m.applied != Some(true) {
        reveal(menu::reconcile_acts);
        assert(a[0] == (Act::Active(Part::Root, true), none));
        assert(a[1] == (Act::Active(Part::PointerCanvas, true), none));
        assert(a[2] == (Act::Seed, none));
        assert(a.contains(a[0]) && a.contains(a[1]) && a.contains(a[2]));
    }
    reveal(menu::pointer_acts);
    if m.shown.pointer != Some(x.pointer) {
        assert(p[0] == (Act::Pointer(x.pointer.0, x.pointer.1), none));
        assert(p.contains(p[0]));
    }
    if x.can_hide {
        assert(p[p.len() - 1] == (Act::HideSystemPointer, none));
        assert(p.contains(p[p.len() - 1]));
    }
}

/// Of a closed overlay only that it is closed is shown.
pub proof fn law_closed_redraw(m: Menu, c: Chams, f: Features, con: Console, x: FrameFacts)
    requires
        !x.visible,
    ensures
        m.applied == Some(false) ==> menu::redraw_acts(m, c, f, con, x).len() == 0,
        m.applied != Some(false) ==> menu::redraw_acts(m, c, f, con, x) == seq![
            (Act::Active(Part::Root, false), Seq::<char>::empty()),
            (Act::Active(Part::PointerCanvas, false), Seq::<char>::empty()),
        ],
{
    reveal(menu::reconcile_acts);
    if m.applied != Some(false) {
        assert(menu::redraw_acts(m, c, f, con, x) =~= seq![
            (Act::Active(Part::Root, false), Seq::<char>::empty()),
            (Act::Active(Part::PointerCanvas, false), Seq::<char>::empty()),
        ]);
    }
}

// ── what it is made of ───────────────────────────────────────────────────────

/// What changes later is found again: each handle is that of the node with its
/// name, each label that of its control, and the contents and tabs follow one
/// another.
pub proof fn law_handles(i: int)
    requires
        0 <= i < 4,
    ensures
        ({
            let n = menu::ui_nodes();
            let h = menu::handles();
            &&& n[h.window as int].0 == "eftMenu_window"@
            &&& n[h.fps as int].0 == "fps"@
            &&& n[h.status as int].0 == "status"@
            &&& n[h.console_text as int].0 == "contxt"@
            &&& n[h.speed_value as int].0 == "spdval"@
            &&& n[h.style as int].0 == "style"@ && n[h.style as int].2 == "Style: flat"@
            &&& n[h.scheme as int].0 == "scheme"@ && n[h.scheme as int].2 == "Scheme: plasma"@
            &&& n[h.chams_check as int].0 == "chams"@
            &&& n[h.stamina_check as int].0 == "stam"@
            &&& n[h.speed_check as int].0 == "speed"@
            &&& n[h.tabs + 2 * i].0 == "tab"@
            &&& n[h.tabs + 2 * i + 1].2 == seq!["Weapon"@, "Visuals"@, "Misc"@, "Console"@][i]
            &&& n[h.tabs + 2 * i + 1].1 == h.tabs + 2 * i
            &&& n[h.contents + i].0 == "content"@
        }),
{
}

/// Where the controls are, from the top left of the window or of its content.
pub proof fn law_places(i: usize)
    requires
        i < 4,
    ensures
        ({
            let at = |c: Control, x: int, y: int, w: int, h: int|
                {
                    let r = menu::place_of(c);
                    r.x == x && r.y == y && r.w == w && r.h == h
                };
            &&& at(Control::Close, 500, 2, 18, 18)
            &&& at(Control::Tab(i), 4 + 85 * i, 20, 84, 22)
            &&& at(Control::Chams, 14, 16, 240, 18)
            &&& at(Control::Style, 14, 42, 210, 22)
            &&& at(Control::Scheme, 14, 70, 210, 22)
            &&& at(Control::Stamina, 14, 16, 240, 18)
            &&& at(Control::Speed, 14, 44, 130, 18)
            &&& at(Control::SpeedMinus, 150, 42, 24, 22)
            &&& at(Control::SpeedPlus, 232, 42, 24, 22)
            &&& at(Control::Config, 14, 78, 210, 22)
        }),
{
}

/// Everything that the overlay calls is found by name; a method that is missing
/// is null.
pub proof fn law_overlay_names<R: ScriptRuntime>(rt: &R, made: UiObjects)
    ensures
        ({
            let m: Methods = menu::methods_of(rt, made);
            let of = |k: Seq<char>| ("UnityEngine.CoreModule"@, "UnityEngine"@, k);
            let ui = |k: Seq<char>| ("UnityEngine.UI"@, "UnityEngine.UI"@, k);
            let canvas = ("UnityEngine.UIModule"@, "UnityEngine"@, "Canvas"@);
            let own = |c: (Seq<char>, Seq<char>, Seq<char>), name: Seq<char>, argc: int|
                method_or_null(named_method(rt, c, name, argc, true));
            let any = |c: (Seq<char>, Seq<char>, Seq<char>), name: Seq<char>, argc: int|
                method_or_null(named_method(rt, c, name, argc, false));
            &&& m.go_ctor_name == own(of("GameObject"@), ".ctor"@, 1)
            &&& m.go_add_comp == own(of("GameObject"@), "AddComponent"@, 1)
            &&& m.go_get_comp == own(of("GameObject"@), "GetComponent"@, 1)
            &&& m.go_set_active == any(of("GameObject"@), "SetActive"@, 1)
            &&& m.go_dont_destroy == any(of("Object"@), "DontDestroyOnLoad"@, 1)
            &&& m.obj_destroy == own(of("Object"@), "Destroy"@, 1)
            &&& m.tf_set_parent == own(of("Transform"@), "SetParent"@, 2)
            &&& m.rt_anc_min == own(of("RectTransform"@), "set_anchorMin"@, 1)
            &&& m.rt_anc_max == own(of("RectTransform"@), "set_anchorMax"@, 1)
            &&& m.rt_anc_pos == own(of("RectTransform"@), "set_anchoredPosition"@, 1)
            &&& m.rt_size_delta == own(of("RectTransform"@), "set_sizeDelta"@, 1)
            &&& m.rt_off_min == own(of("RectTransform"@), "set_offsetMin"@, 1)
            &&& m.rt_off_max == own(of("RectTransform"@), "set_offsetMax"@, 1)
            &&& m.rt_pivot == own(of("RectTransform"@), "set_pivot"@, 1)
            &&& m.cv_render_mode == own(canvas, "set_renderMode"@, 1)
            &&& m.cv_sort_order == own(canvas, "set_sortingOrder"@, 1)
            &&& m.gr_color == own(ui("Graphic"@), "set_color"@, 1)
            &&& m.gr_raycast == own(ui("Graphic"@), "set_raycastTarget"@, 1)
            &&& m.tx_text == own(ui("Text"@), "set_text"@, 1)
            &&& m.tx_font == own(ui("Text"@), "set_font"@, 1)
            &&& m.tx_font_size == own(ui("Text"@), "set_fontSize"@, 1)
            &&& m.tx_alignment == own(ui("Text"@), "set_alignment"@, 1)
            &&& m.tx_horiz == own(ui("Text"@), "set_horizontalOverflow"@, 1)
            &&& m.tx_vert == own(ui("Text"@), "set_verticalOverflow"@, 1)
            &&& m.cur_set_visible == own(of("Cursor"@), "set_visible"@, 1)
            &&& m.made == made
        }),
{
}

/// The overlay can be built where its classes, its types and the four methods
/// are there that it cannot be built without.
pub proof fn law_overlay_found<R: ScriptRuntime>(rt: &R, made: UiObjects)
    ensures
        ({
            let there = |a: Seq<char>, ns: Seq<char>, k: Seq<char>|
                rt.image_of(a) matches Some(i) && rt.class_of(i, ns, k) is Some;
            let m = menu::methods_of(rt, made);
            let (engine, ui) = ("UnityEngine.CoreModule"@, "UnityEngine.UI"@);
            menu::buildable(rt, made) <==> {
                &&& there(engine, "UnityEngine"@, "GameObject"@)
                &&& there(engine, "UnityEngine"@, "Object"@)
                &&& there(engine, "UnityEngine"@, "Transform"@)
                &&& there(engine, "UnityEngine"@, "RectTransform"@)
                &&& there("UnityEngine.UIModule"@, "UnityEngine"@, "Canvas"@)
                &&& there(ui, ui, "Graphic"@)
                &&& there(ui, ui, "Text"@)
                &&& made.ty_canvas.0 != 0
                &&& made.ty_image.0 != 0
                &&& made.ty_text.0 != 0
                &&& made.ty_rect_tf.0 != 0
                &&& m.go_ctor_name.0 != 0
                &&& m.go_add_comp.0 != 0
                &&& m.go_get_comp.0 != 0
                &&& m.tf_set_parent.0 != 0
            }
        }),
{
}

/// The colours of the overlay, in thousandths.
pub proof fn law_tones()
    ensures
        ({
            let t = |t: Tone| menu::tone_of(t);
            let grey = |v: u16| (v, v, v);
            &&& t(Tone::Face) == grey(753)
            &&& t(Tone::Light) == grey(1000)
            &&& t(Tone::Shadow) == grey(500)
            &&& t(Tone::Dark) == grey(0)
            &&& t(Tone::Field) == grey(1000)
            &&& t(Tone::TabOff) == grey(660)
            &&& t(Tone::ConsoleField) == grey(90)
            &&& t(Tone::Navy) == (0u16, 0u16, 502u16) && t(Tone::Check) == t(Tone::Navy)
            &&& t(Tone::ConsoleText) == (0u16, 870u16, 0u16)
            &&& t(Tone::StatusText) == (900u16, 900u16, 350u16)
            &&& t(Tone::Pointer) == (100u16, 1000u16, 900u16)
        }),
{
}

/// What the controls say: each has its own label, next to its box or on its
/// button.
pub proof fn law_labels()
    ensures
        ({
            let n = menu::ui_nodes();
            let label = |c: Control|
                if menu::is_checkbox(c) {
                    n[menu::node_of(c) + 2].2
                } else {
                    n[menu::node_of(c) + 1].2
                };
            &&& label(Control::Close) == "x"@
            &&& label(Control::Chams) == "Chams"@
            &&& label(Control::Style) == "Style: flat"@
            &&& label(Control::Scheme) == "Scheme: plasma"@
            &&& label(Control::Stamina) == "Infinite Stamina"@
            &&& label(Control::Speed) == "Speedhack"@
            &&& label(Control::SpeedMinus) == "-"@
            &&& label(Control::SpeedPlus) == "+"@
            &&& label(Control::Config) == "Config Template"@
            &&& n[2].2 == "eftTrainer"@
            &&& n[3].2 == "-- fps"@
            &&& n[34].2 == "x1.00"@
        }),
{
}

/// Where a control is clicked is where it is drawn: on a tab, from the top left
/// of the content, which lies 3 and 42 into the window.
pub proof fn law_hits(c: Control)
    requires
        menu::valid(c),
    ensures
        ({
            let p = menu::place_of(c);
            let h = menu::hit_of(c);
            let on_window = c is Close || c is Tab;
            &&& h.w == p.w && h.h == p.h
            &&& on_window ==> h.x == p.x && h.y == p.y
            &&& !on_window ==> h.x == p.x + 3 && h.y == p.y + 42
            &&& menu::tab_of(c) == match c {
                Control::Close | Control::Tab(_) => None,
                Control::Chams | Control::Style | Control::Scheme => Some(1usize),
                _ => Some(2usize),
            }
        }),
{
}

/// How a control is drawn: a button is a raised panel at its place, with its
/// label all over it; a check box is a sunken square of 14, 2 further down, with
/// a mark in it that is hidden at first, and its label 20 to the right of it.
pub proof fn law_controls_drawn(c: Control)
    requires
        menu::valid(c),
    ensures
        ({
            let n = menu::ui_nodes();
            let k = menu::node_of(c) as int;
            let p = menu::place_of(c);
            let parent: nat = match c {
                Control::Close | Control::Tab(_) => 0,
                Control::Chams | Control::Style | Control::Scheme => 15,
                _ => 16,
            };
            let middle = Kind::Text { size: 11, align: 4, vert: 0 };
            let left = Kind::Text { size: 11, align: 3, vert: 0 };
            &&& n[k].1 == parent
            &&& n[k + 1].1 == k
            &&& !menu::is_checkbox(c) ==> {
                &&& n[k].4 == Place::At(p)
                &&& n[k].5 == (Kind::Panel { shown: true, edge: Edge::Raised })
                &&& n[k].3 == if c is Tab {
                    Tone::TabOff
                } else {
                    Tone::Face
                }
                &&& n[k + 1].4 == Place::Fill(1)
                &&& n[k + 1].5 == middle
                &&& n[k + 1].3 == Tone::Dark
            }
            &&& menu::is_checkbox(c) ==> {
                &&& n[k].4 == Place::At(LRect { x: p.x, y: (p.y + 2) as i32, w: 14, h: 14 })
                &&& n[k].5 == (Kind::Panel { shown: true, edge: Edge::Sunken })
                &&& n[k].3 == Tone::Field
                &&& n[k + 1].4 == Place::Fill(3)
                &&& n[k + 1].5 == (Kind::Panel { shown: false, edge: Edge::Flat })
                &&& n[k + 1].3 == Tone::Check
                &&& n[k + 2].1 == parent
                &&& n[k + 2].4 == Place::At(
                    LRect { x: (p.x + 20) as i32, y: p.y, w: (p.w - 20) as i32, h: p.h },
                )
                &&& n[k + 2].5 == left
                &&& n[k + 2].3 == Tone::Dark
            }
        }),
{
}

/// What is drawn besides the controls: the window, its title, the frame rate, the
/// contents of the four tabs, all at one place, the console and the status.
pub proof fn law_window_drawn(i: int)
    requires
        0 <= i < 4,
    ensures
        ({
            let n = menu::ui_nodes();
            let at = |x: i32, y: i32, w: i32, h: i32| Place::At(LRect { x, y, w, h });
            let left = Kind::Text { size: 11, align: 3, vert: 0 };
            &&& n.len() == 42
            &&& n[0].4 == Place::Window && n[0].3 == Tone::Face
            &&& n[1].4 == at(2, 2, 516, 18) && n[1].3 == Tone::Navy
            &&& n[2].4 == at(7, 2, 418, 18) && n[2].5 == left && n[2].3 == Tone::Light
            &&& n[3].4 == at(430, 2, 66, 18) && n[3].3 == Tone::Light
            &&& n[3].5 == (Kind::Text { size: 11, align: 5, vert: 0 })
            &&& n[14 + i].4 == at(3, 42, 514, 336) && n[14 + i].3 == Tone::Face && n[14 + i].1
                == 0
            &&& n[18].2 == "No weapon features yet."@ && n[18].1 == 14
            &&& n[34].4 == at(178, 44, 52, 18) && n[34].1 == 16
            &&& n[39].4 == Place::Fill(6) && n[39].1 == 17 && n[39].3 == Tone::ConsoleField
            &&& n[40].4 == Place::Fill(3) && n[40].1 == 39 && n[40].3 == Tone::ConsoleText
            &&& n[40].5 == (Kind::Text { size: 10, align: 0, vert: 1 })
            &&& n[41].4 == at(8, 381, 504, 16) && n[41].5 == left && n[41].3 == Tone::StatusText
        }),
{
}

/// The pointer is a cross of 18 by 2 and 2 by 18 on a spot that is not seen.
pub proof fn law_pointer_drawn()
    ensures
        ({
            let n = menu::pointer_nodes();
            let seen = Kind::Panel { shown: true, edge: Edge::Flat };
            &&& n.len() == 3
            &&& n[0].4 == Place::Corner(0, 0)
            &&& n[0].5 == (Kind::Panel { shown: false, edge: Edge::Flat })
            &&& n[1].4 == Place::Centre(18, 2) && n[1].1 == 0 && n[1].3 == Tone::Pointer
            &&& n[1].5 == seen
            &&& n[2].4 == Place::Centre(2, 18) && n[2].1 == 0 && n[2].3 == Tone::Pointer
            &&& n[2].5 == seen
        }),
{
}

} // verus!
