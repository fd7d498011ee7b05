//! The laws of the control server: what a request asks for, and what the answer
//! to it says.

use vstd::prelude::*;

use crate::chams::Chams;
use crate::features::Features;
use crate::http;
use crate::http::{Endpoint, Facts, RaidTexts};
use crate::il2cpp;
use crate::il2cpp_runtime;
use crate::il2cpp_runtime::Il2CppRuntime;
use crate::input::Pointer;
use crate::laws::arrays;
use crate::memory;
use crate::menu::Menu;
use crate::runtime::{Backend, Class, Object, ScriptRuntime};
use crate::text;
use crate::world::{Entry, World};

verus! {

// ── lists of a class ─────────────────────────────────────────────────────────

/// The answer on fields has one item for each field whose name in lower case
/// contains the filter in lower case, or for each field where there is no
/// filter, in their order: its name, its offset, and the offset's 32 bits in
/// hexadecimal.
pub proof fn law_fields_listed(fs: Seq<(Seq<char>, int)>, filter: Option<Seq<char>>)
    ensures
        http::fields_json(fs, filter) == fs.filter(
            |f: (Seq<char>, int)|
                filter matches Some(t) ==> exists|a: Seq<char>, b: Seq<char>|
                    text::lowercase(f.0) == #[trigger] (a + t + b),
        ).map_values(
            |f: (Seq<char>, int)|
                "{\"name\":"@ + http::json_text(f.0) + ",\"offset\":"@ + text::decimal_text(f.1)
                    + ",\"offset_hex\":"@ + ("\""@ + text::hex_text(
                    (f.1 + if f.1 < 0 {
                        0x1_0000_0000int
                    } else {
                        0
                    }) as nat,
                ) + "\""@) + "}"@,
        ),
        filter is None ==> http::fields_json(fs, filter).len() == fs.len(),
    decreases fs.len(),
{
    let keep = |f: (Seq<char>, int)|
        filter matches Some(t) ==> exists|a: Seq<char>, b: Seq<char>|
            text::lowercase(f.0) == #[trigger] (a + t + b);
    let show = |f: (Seq<char>, int)|
        "{\"name\":"@ + http::json_text(f.0) + ",\"offset\":"@ + text::decimal_text(f.1)
            + ",\"offset_hex\":"@ + ("\""@ + text::hex_text(
            (f.1 + if f.1 < 0 {
                0x1_0000_0000int
            } else {
                0
            }) as nat,
        ) + "\""@) + "}"@;
    reveal(Seq::filter);
    if fs.len() > 0 {
        let f = fs.last();
        law_fields_listed(fs.drop_last(), filter);
        if let Some(t) = filter {
            crate::laws::text::law_contains(text::lowercase(f.0), t);
        }
        assert(http::passes(text::lowercase(f.0), filter) == keep(f));
        assert(http::field_json(f) == show(f));
        assert(fs.filter(keep) == if keep(f) {
            fs.drop_last().filter(keep).push(f)
        } else {
            fs.drop_last().filter(keep)
        });
    }
    assert(http::fields_json(fs, filter) =~= fs.filter(keep).map_values(show));
}

/// The answer on methods likewise: the name, the number of arguments, whether it
/// is static, and its code.
pub proof fn law_methods_listed(
    ms: Seq<(Seq<char>, nat, bool, nat)>,
    filter: Option<Seq<char>>,
)
    ensures
        http::methods_json(ms, filter) == ms.filter(
            |f: (Seq<char>, nat, bool, nat)|
                filter matches Some(t) ==> exists|a: Seq<char>, b: Seq<char>|
                    text::lowercase(f.0) == #[trigger] (a + t + b),
        ).map_values(
            |f: (Seq<char>, nat, bool, nat)|
                "{\"name\":"@ + http::json_text(f.0) + ",\"argc\":"@ + text::decimal_text(
                    f.1 as int,
                ) + ",\"static\":"@ + (if f.2 {
                    "true"@
                } else {
                    "false"@
                }) + ",\"ptr\":"@ + ("\""@ + text::hex_text(f.3) + "\""@) + "}"@,
        ),
        filter is None ==> http::methods_json(ms, filter).len() == ms.len(),
    decreases ms.len(),
{
    let keep = |f: (Seq<char>, nat, bool, nat)|
        filter matches Some(t) ==> exists|a: Seq<char>, b: Seq<char>|
            text::lowercase(f.0) == #[trigger] (a + t + b);
    let show = |f: (Seq<char>, nat, bool, nat)|
        "{\"name\":"@ + http::json_text(f.0) + ",\"argc\":"@ + text::decimal_text(f.1 as int)
            + ",\"static\":"@ + (if f.2 {
            "true"@
        } else {
            "false"@
        }) + ",\"ptr\":"@ + ("\""@ + text::hex_text(f.3) + "\""@) + "}"@;
    reveal(Seq::filter);
    if ms.len() > 0 {
        let f = ms.last();
        law_methods_listed(ms.drop_last(), filter);
        if let Some(t) = filter {
            crate::laws::text::law_contains(text::lowercase(f.0), t);
        }
        assert(http::passes(text::lowercase(f.0), filter) == keep(f));
        assert(http::method_json(f) == show(f));
        assert(ms.filter(keep) == if keep(f) {
            ms.drop_last().filter(keep).push(f)
        } else {
            ms.drop_last().filter(keep)
        });
    }
    assert(http::methods_json(ms, filter) =~= ms.filter(keep).map_values(show));
}

/// The filter is the parameter `q`, in lower case.
pub proof fn law_filter(q: Map<Seq<char>, Seq<char>>)
    ensures
        q.contains_key("q"@) ==> http::filter_in(q) == Some(text::lowercase(q["q"@])),
        !q.contains_key("q"@) ==> http::filter_in(q) is None,
{
}

/// A list is its items in their order, with commas between them and brackets
/// around them.
pub proof fn law_list_answer(items: Seq<Seq<char>>, item: Seq<char>)
    ensures
        http::list_json(Seq::empty()) == "["@ + "]"@,
        http::list_json(seq![item]) == "["@ + item + "]"@,
        items.len() > 0 ==> http::list_json(items.push(item)) == "["@ + (text::join(items, ","@)
            + ","@ + item) + "]"@,
{
    crate::laws::text::law_join(items, item, ","@);
    assert("["@ + Seq::<char>::empty() =~= "["@);
}

/// A class is asked for by its address, under `class`, or else by `asm`, `ns`
/// and `name`, where a missing `ns` is the empty one; what is missing or not
/// found is said in words.
pub proof fn law_class_asked<R: ScriptRuntime>(rt: &R, q: Map<Seq<char>, Seq<char>>, a: nat)
    ensures
        q.contains_key("class"@) && http::number_of(q["class"@]) == Some(a) ==> http::class_asked(
            rt,
            q,
        ) == Ok::<Class, Seq<char>>(Class(a as u64)),
        !q.contains_key("class"@) && !q.contains_key("asm"@) ==> http::class_asked(rt, q) == Err::<
            Class,
            Seq<char>,
        >("need asm= or class="@),
        !q.contains_key("class"@) && q.contains_key("asm"@) && !q.contains_key("name"@)
            ==> http::class_asked(rt, q) == Err::<Class, Seq<char>>("need name= or class="@),
        !q.contains_key("class"@) && q.contains_key("asm"@) && q.contains_key("name"@) ==> {
            let ns = if q.contains_key("ns"@) {
                q["ns"@]
            } else {
                ""@
            };
            &&& rt.image_of(q["asm"@]) is None ==> http::class_asked(rt, q) == Err::<
                Class,
                Seq<char>,
            >("assembly not found: "@ + q["asm"@])
            &&& rt.image_of(q["asm"@]) matches Some(i) ==> match rt.class_of(i, ns, q["name"@]) {
                Some(c) => http::class_asked(rt, q) == Ok::<Class, Seq<char>>(c),
                None => http::class_asked(rt, q) == Err::<Class, Seq<char>>(
                    "class not found: "@ + ns + "."@ + q["name"@],
                ),
            }
        },
{
}

// ── what a request asks for ──────────────────────────────────────────────────

proof fn lemma_index(s: Seq<char>, c: char, i: nat, k: int)
    requires
        i <= k < s.len(),
        s[k] == c,
        forall|j: int| i <= j < k ==> #[trigger] s[j] != c,
    ensures
        http::index_from(s, c, i) == Some(k as nat),
    decreases k - i,
{
    if i < k {
        assert(s[i as int] != c);
        lemma_index(s, c, i + 1, k);
    }
}

proof fn lemma_no_index(s: Seq<char>, c: char, i: nat)
    requires
        forall|j: int| i <= j < s.len() ==> #[trigger] s[j] != c,
    ensures
        http::index_from(s, c, i) is None,
    decreases s.len() - i,
{
    if i < s.len() {
        assert(s[i as int] != c);
        lemma_no_index(s, c, i + 1);
    }
}

/// A text cut at a character is what stands before its first occurrence, and
/// what stands after it; without an occurrence all of it stands before.
pub proof fn law_cut(a: Seq<char>, c: char, b: Seq<char>)
    requires
        !a.contains(c),
    ensures
        http::cut(a + seq![c] + b, c) == (a, b),
        http::cut(a, c) == (a, Seq::<char>::empty()),
{
    let s = a + seq![c] + b;
    assert forall|j: int| 0 <= j < a.len() implies #[trigger] s[j] != c by {
        assert(s[j] == a[j]);
    }
    lemma_index(s, c, 0, a.len() as int);
    assert(s.take(a.len() as int) =~= a);
    assert(s.skip(a.len() as int + 1) =~= b);
    lemma_no_index(a, c, 0);
}

proof fn lemma_word(w: Seq<char>, rest: Seq<char>)
    requires
        forall|i: int| 0 <= i < w.len() ==> !text::white(#[trigger] w[i]),
        rest.len() == 0 || text::white(rest[0]),
    ensures
        http::word(w + rest) == w,
        http::past_word(w + rest) == rest,
    decreases w.len(),
{
    let s = w + rest;
    if w.len() == 0 {
        assert(s =~= rest);
        assert(http::word(s) =~= w);
    } else {
        assert(s[0] == w[0]);
        assert(s.skip(1) =~= w.skip(1) + rest);
        assert forall|i: int| 0 <= i < w.skip(1).len() implies !text::white(
            #[trigger] w.skip(1)[i],
        ) by {
            assert(w.skip(1)[i] == w[i + 1]);
        }
        lemma_word(w.skip(1), rest);
        assert(seq![w[0]] + w.skip(1) =~= w);
    }
}

/// The first line of a request is a method, a target and a version: the target
/// is its path and, behind the first question mark, its query. What follows the
/// line does not matter.
pub proof fn law_target(
    method: Seq<char>,
    path: Seq<char>,
    query: Seq<char>,
    version: Seq<char>,
    rest: Seq<char>,
)
    requires
        method.len() > 0,
        path.len() > 0,
        forall|i: int| 0 <= i < method.len() ==> !text::white(#[trigger] method[i]),
        forall|i: int| 0 <= i < path.len() ==> !text::white(#[trigger] path[i]),
        forall|i: int| 0 <= i < query.len() ==> !text::white(#[trigger] query[i]),
        !path.contains('?'),
        !version.contains('\n'),
        version.len() == 0 || version.last() != '\r',
    ensures
        http::target_in(
            method + seq![' '] + (path + seq!['?'] + query) + seq![' '] + version + seq!['\r', '\n']
                + rest,
        ) == (path, query),
        http::target_in(
            method + seq![' '] + path + seq![' '] + version + seq!['\r', '\n'] + rest,
        ) == (path, Seq::<char>::empty()),
{
    let target = path + seq!['?'] + query;
    lemma_line(method, target, version, rest);
    lemma_line(method, path, version, rest);
    law_cut(path, '?', query);
}

proof fn lemma_line(
    method: Seq<char>,
    target: Seq<char>,
    version: Seq<char>,
    rest: Seq<char>,
)
    requires
        method.len() > 0,
        target.len() > 0,
        forall|i: int| 0 <= i < method.len() ==> !text::white(#[trigger] method[i]),
        forall|i: int| 0 <= i < target.len() ==> !text::white(#[trigger] target[i]),
        !version.contains('\n'),
        version.len() == 0 || version.last() != '\r',
    ensures
        http::second_word(
            http::first_line(
                method + seq![' '] + target + seq![' '] + version + seq!['\r', '\n'] + rest,
            ),
        ) == target,
{
    let line = method + seq![' '] + target + seq![' '] + version;
    let all = method + seq![' '] + target + seq![' '] + version + seq!['\r', '\n'] + rest;
    let cr = line + seq!['\r'];
    assert(all =~= cr + seq!['\n'] + rest);
    assert(!cr.contains('\n')) by {
        if cr.contains('\n') {
            let k = choose|k: int| 0 <= k < cr.len() && cr[k] == '\n';
            let m = method.len();
            let t = target.len();
            if k < m {
                assert(method[k] == '\n');
            } else if m < k < m + 1 + t {
                assert(target[k - m - 1] == '\n');
            } else if m + 1 + t < k < m + t + 2 + version.len() {
                assert(version[k - m - t - 2] == '\n');
            }
        }
    }
    law_cut(cr, '\n', rest);
    assert forall|j: int| 0 <= j < cr.len() implies #[trigger] all[j] != '\n' by {
        assert(all[j] == cr[j]);
    }
    lemma_index(all, '\n', 0, cr.len() as int);
    assert(cr.drop_last() =~= line);
    assert(http::first_line(all) == line);
    let tail = seq![' '] + version;
    let more = seq![' '] + (target + tail);
    assert(line =~= method + more);
    assert(line[0] == method[0]);
    assert(http::past_white(line) == line);
    lemma_word(method, more);
    assert(more.skip(1) =~= target + tail);
    assert((target + tail)[0] == target[0]);
    assert(http::past_white(more) == http::past_white(more.skip(1)));
    assert(http::past_white(target + tail) == target + tail);
    lemma_word(target, tail);
}

/// In a query a plus sign is a space, an escape is the byte that its two digits
/// say, whatever their case, and everything else is itself.
pub proof fn law_unescaped(b: Seq<u8>, x: u8, h: nat, l: nat)
    requires
        h < 16,
        l < 16,
    ensures
        http::unescaped(Seq::empty()) == Seq::<u8>::empty(),
        http::unescaped(seq![0x2bu8] + b) == seq![0x20u8] + http::unescaped(b),
        x != 0x2b && x != 0x25 ==> http::unescaped(seq![x] + b) == seq![x] + http::unescaped(b),
        forall|p: bool, q: bool|
            http::unescaped(
                seq![0x25u8, #[trigger] ascii_digit(h, p), #[trigger] ascii_digit(l, q)] + b,
            ) == seq![(h * 16 + l) as u8] + http::unescaped(b),
        b.len() < 2 || !is_ascii_digit(b[0]) || !is_ascii_digit(b[1]) ==> http::unescaped(
            seq![0x25u8] + b,
        ) == seq![0x25u8] + http::unescaped(b),
{
    assert((seq![0x2bu8] + b).skip(1) =~= b);
    assert((seq![x] + b).skip(1) =~= b);
    assert((seq![0x25u8] + b).skip(1) =~= b);
    assert forall|p: bool, q: bool|
        http::unescaped(
            seq![0x25u8, #[trigger] ascii_digit(h, p), #[trigger] ascii_digit(l, q)] + b,
        ) == seq![(h * 16 + l) as u8] + http::unescaped(b) by {
        let s = seq![0x25u8, ascii_digit(h, p), ascii_digit(l, q)] + b;
        assert(s.skip(3) =~= b);
        assert(http::nibble(ascii_digit(h, p)) == Some(h as u8));
        assert(http::nibble(ascii_digit(l, q)) == Some(l as u8));
        assert(s[0] == 0x25 && s[1] == ascii_digit(h, p) && s[2] == ascii_digit(l, q));
    }
    let s = seq![0x25u8] + b;
    if b.len() >= 2 {
        assert(s[1] == b[0] && s[2] == b[1]);
    }
}

/// The ASCII code of a hexadecimal digit.
pub open spec fn ascii_digit(d: nat, big: bool) -> u8 {
    (if d < 10 {
        0x30int + d
    } else if big {
        0x41 + (d - 10)
    } else {
        0x61 + (d - 10)
    }) as u8
}

pub open spec fn is_ascii_digit(b: u8) -> bool {
    0x30 <= b <= 0x39 || 0x41 <= b <= 0x46 || 0x61 <= b <= 0x66
}

/// A piece `name=value` of a query sets the parameter of that name, over what an
/// earlier piece set, and no other; a piece without `=` sets its name to
/// nothing, and an empty piece sets nothing.
pub proof fn law_query(
    pieces: Seq<Seq<char>>,
    name: Seq<char>,
    value: Seq<char>,
    other: Seq<char>,
)
    requires
        !name.contains('='),
    ensures
        ({
            let q = http::query_of(pieces.push(name + seq!['='] + value));
            &&& q.contains_key(http::url_text(name))
            &&& q[http::url_text(name)] == http::url_text(value)
            &&& other != http::url_text(name) ==> (q.contains_key(other) <==> http::query_of(
                pieces,
            ).contains_key(other)) && q[other] == http::query_of(pieces)[other]
        }),
        name.len() > 0 ==> http::query_of(pieces.push(name)) == http::query_of(pieces).insert(
            http::url_text(name),
            http::url_text(Seq::empty()),
        ),
        http::query_of(pieces.push(Seq::empty())) == http::query_of(pieces),
        http::query_of(Seq::empty()) == Map::<Seq<char>, Seq<char>>::empty(),
{
    let p = name + seq!['='] + value;
    law_cut(name, '=', value);
    assert(pieces.push(p).drop_last() =~= pieces);
    assert(pieces.push(name).drop_last() =~= pieces);
    assert(pieces.push(Seq::empty()).drop_last() =~= pieces);
}

/// Each path has its own endpoint, and every other path none.
pub proof fn law_endpoint_paths(path: Seq<char>)
    ensures
        http::endpoint_of("/"@) is Help,
        http::endpoint_of(path) is Help ==> path == "/"@,
        http::endpoint_of(path) is Status ==> path == "/status"@,
        http::endpoint_of(path) is Module ==> path == "/module"@,
        http::endpoint_of(path) is Class ==> path == "/class"@,
        http::endpoint_of(path) is Fields ==> path == "/fields"@,
        http::endpoint_of(path) is Methods ==> path == "/methods"@,
        http::endpoint_of(path) is Read ==> path == "/read"@,
        http::endpoint_of(path) is Chain ==> path == "/chain"@,
        http::endpoint_of(path) is Scan ==> path == "/scan"@,
        http::endpoint_of(path) is GameWorld ==> path == "/gameworld"@,
        http::endpoint_of(path) is Players ==> path == "/players"@,
        http::endpoint_of(path) is Chams ==> path == "/chams"@,
        http::endpoint_of(path) is Raid ==> path == "/raid"@,
        http::endpoint_of(path) is Stamina ==> path == "/stamina"@,
        http::endpoint_of(path) is Speed ==> path == "/speed"@,
        http::endpoint_of(path) is Menu ==> path == "/menu"@,
        http::endpoint_of(path) is Unknown ==> !{
            ||| path == "/"@
            ||| path == "/status"@
            ||| path == "/module"@
            ||| path == "/class"@
            ||| path == "/fields"@
            ||| path == "/methods"@
            ||| path == "/read"@
            ||| path == "/chain"@
            ||| path == "/scan"@
            ||| path == "/gameworld"@
            ||| path == "/players"@
            ||| path == "/chams"@
            ||| path == "/raid"@
            ||| path == "/stamina"@
            ||| path == "/speed"@
            ||| path == "/menu"@
        },
{
}

/// A switch is on after a request that says `1`, `true`, `on` or `yes`, off after
/// one that says anything else, and as it was after one that says nothing.
pub proof fn law_switch(q: Map<Seq<char>, Seq<char>>, name: Seq<char>, was: bool)
    ensures
        q.contains_key(name) ==> (http::switched(q, name, was) <==> {
            ||| q[name] == "1"@
            ||| q[name] == "true"@
            ||| q[name] == "on"@
            ||| q[name] == "yes"@
        }),
        !q.contains_key(name) ==> http::switched(q, name, was) == was,
{
}

/// What a request does to the chams: switches them, selects a scheme by its
/// number and a style by its number or its name, both round the circle, and has
/// the material set up anew where it selected one; what it does not name stays.
pub proof fn law_chams_request(c: Chams, q: Map<Seq<char>, Seq<char>>)
    ensures
        ({
            let d = http::chams_after(c, q);
            &&& d.enabled == http::switched(q, "on"@, c.enabled)
            &&& !q.contains_key("scheme"@) ==> d.scheme == c.scheme
            &&& q.contains_key("scheme"@) ==> match http::bare_number_of(q["scheme"@]) {
                Some(n) => d.scheme == n % 6 && d.apply,
                None => d.scheme == c.scheme,
            }
            &&& !q.contains_key("style"@) ==> d.style == c.style
            &&& q.contains_key("style"@) ==> d.apply && match http::bare_number_of(q["style"@]) {
                Some(n) => d.style == n % 3,
                None => d.style == if q["style"@] == "glow"@ {
                    1int
                } else if q["style"@] == "mesh"@ {
                    2
                } else {
                    0
                },
            }
            &&& !q.contains_key("style"@) && !q.contains_key("scheme"@) ==> d.apply == c.apply
            &&& d.material == c.material
            &&& d.originals == c.originals
            &&& d.shader == c.shader
            &&& d.walks == c.walks
            &&& d.last_world == c.last_world
            &&& d.last_tick == c.last_tick
        }),
{
}

/// What a request does to the toggles: only that of stamina switches stamina,
/// only that of speed switches speed and sets the multiplier, to the nearest one
/// from 1.0 to 1.4.
pub proof fn law_features_request(
    e: Endpoint,
    q: Map<Seq<char>, Seq<char>>,
    mult: Option<u32>,
    f: Features,
)
    ensures
        ({
            let g = http::features_after(e, q, mult, f);
            &&& g.stamina == if e is Stamina {
                http::switched(q, "on"@, f.stamina)
            } else {
                f.stamina
            }
            &&& g.speed == if e is Speed {
                http::switched(q, "on"@, f.speed)
            } else {
                f.speed
            }
            &&& !(e is Speed && mult is Some) ==> g.mult == f.mult
            &&& e is Speed && mult is Some ==> {
                &&& 0x3f80_0000 <= g.mult <= 0x3fb3_3333
                &&& 0x3f80_0000 <= mult->0 <= 0x3fb3_3333 ==> g.mult == mult->0
                &&& mult->0 < 0x3f80_0000 ==> g.mult == 0x3f80_0000
                &&& 0x3fb3_3333 < mult->0 <= 0x7f80_0000 ==> g.mult == 0x3fb3_3333
                &&& mult->0 > 0x7f80_0000 ==> g.mult == 0x3f80_0000
            }
            &&& g.cache == f.cache
        }),
{
}

/// Only its own request switches the overlay, or the raid framework.
pub proof fn law_switched_by(e: Endpoint, q: Map<Seq<char>, Seq<char>>, m: Menu, w: World)
    ensures
        e is Menu ==> http::menu_after(e, q, m).visible == http::switched(q, "visible"@, m.visible),
        !(e is Menu) ==> http::menu_after(e, q, m) == m,
        http::menu_after(e, q, m).frames == m.frames,
        http::menu_after(e, q, m).fps == m.fps,
        e is Raid ==> http::world_after(e, q, w).enabled == http::switched(q, "on"@, w.enabled),
        !(e is Raid) ==> http::world_after(e, q, w) == w,
        http::world_after(e, q, w).entries == w.entries,
{
}

// ── reading memory ───────────────────────────────────────────────────────────

/// How many bytes a read asks for: what `len` says, from 1 to 4096; 64 without
/// it.
pub proof fn law_asked_len(q: Map<Seq<char>, Seq<char>>, n: nat)
    ensures
        1 <= http::asked_len(q) <= 4096,
        !q.contains_key("len"@) ==> http::asked_len(q) == 64,
        q.contains_key("len"@) && http::number_of(q["len"@]) == Some(n) ==> {
            &&& 1 <= n <= 4096 ==> http::asked_len(q) == n
            &&& n < 1 ==> http::asked_len(q) == 1
            &&& n > 4096 ==> http::asked_len(q) == 4096
        },
        q.contains_key("len"@) && http::number_of(q["len"@]) is None ==> http::asked_len(q) == 64,
{
}

/// What can be read is read whole; otherwise the length is halved until it can,
/// and nothing longer among the halves can.
pub proof fn law_readable_len(m: Map<int, u8>, addr: int, len: nat)
    ensures
        http::readable_len(m, addr, len) <= len,
        http::readable_len(m, addr, len) > 0 ==> memory::has(
            m,
            addr,
            http::readable_len(m, addr, len) as int,
        ),
        memory::has(m, addr, len as int) ==> http::readable_len(m, addr, len) == len,
        len > 0 && !memory::has(m, addr, len as int) ==> http::readable_len(m, addr, len)
            == http::readable_len(m, addr, len / 2),
        len > 0 && addr != 0 && m.dom().contains(addr) ==> http::readable_len(m, addr, len) > 0,
        len > 0 && !(addr != 0 && m.dom().contains(addr)) ==> http::readable_len(m, addr, len) == 0,
    decreases len,
{
    if len > 0 && !memory::has(m, addr, len as int) {
        law_readable_len(m, addr, len / 2);
        if len == 1 && m.dom().contains(addr) && addr != 0 {
            assert forall|x: int| addr <= x < addr + 1 implies #[trigger] m.dom().contains(x) by {
                assert(x == addr);
            }
        }
    } else if len > 0 {
        assert(m.dom().contains(addr));
    }
}

/// A read is of the address that `addr` says; without it, or where not one byte
/// can be read there, the answer says so.
pub proof fn law_read_asked(m: Map<int, u8>, q: Map<Seq<char>, Seq<char>>, a: nat)
    ensures
        !q.contains_key("addr"@) ==> http::read_asked(m, q) == Err::<(nat, nat), Seq<char>>(
            "need addr="@,
        ),
        q.contains_key("addr"@) && http::number_of(q["addr"@]) == Some(a) ==> {
            &&& a != 0 && m.dom().contains(a as int) ==> http::read_asked(m, q) == Ok::<
                (nat, nat),
                Seq<char>,
            >((a, http::readable_len(m, a as int, http::asked_len(q))))
            &&& !(a != 0 && m.dom().contains(a as int)) ==> http::read_asked(m, q) == Err::<
                (nat, nat),
                Seq<char>,
            >("address not readable"@)
        },
{
    law_asked_len(q, 0);
    law_readable_len(m, a as int, http::asked_len(q));
}

/// The bytes of a read in hexadecimal: two digits each, in their order; and as
/// characters, one each, a dot for what is not printable.
pub proof fn law_bytes_shown(m: Map<int, u8>, addr: int, n: nat, i: int)
    requires
        0 <= i < n,
    ensures
        ({
            let b = http::bytes_of(m, addr, n);
            let x = m[addr + i];
            let digits = crate::laws::text::sixteen(true);
            &&& b.len() == n
            &&& b[i] == x
            &&& http::hex_of(b).len() == 2 * n
            &&& http::hex_of(b)[2 * i] == digits[x as int / 16]
            &&& http::hex_of(b)[2 * i + 1] == digits[x as int % 16]
            &&& http::ascii_of(b).len() == n
            &&& http::ascii_of(b)[i] == if 0x20 <= x <= 0x7e {
                x as char
            } else {
                '.'
            }
        }),
{
    let b = http::bytes_of(m, addr, n);
    lemma_hex_of(b, i);
}

proof fn lemma_hex_of(b: Seq<u8>, i: int)
    ensures
        http::hex_of(b).len() == 2 * b.len(),
        0 <= i < b.len() ==> http::hex_of(b)[2 * i] == crate::laws::text::sixteen(
            true,
        )[b[i] as int / 16] && http::hex_of(b)[2 * i + 1] == crate::laws::text::sixteen(
            true,
        )[b[i] as int % 16],
    decreases b.len(),
{
    if b.len() > 0 {
        lemma_hex_of(b.drop_last(), i);
        crate::laws::text::law_byte_text(b.last());
        if i < b.len() - 1 {
            assert(b.drop_last()[i] == b[i] || i < 0);
        }
    }
}

/// The first bytes of a read as numbers: four of them signed and unsigned where
/// there are four, eight where there are eight.
pub proof fn law_read_answer(
    m: Map<int, u8>,
    addr: nat,
    len: nat,
    f32_text: Seq<char>,
    f64_text: Seq<char>,
    v4: nat,
    v8: nat,
)
    requires
        len >= 4 ==> memory::val(m, addr as int, 4) == Some(v4),
        len >= 8 ==> memory::val(m, addr as int, 8) == Some(v8),
    ensures
        ({
            let b = http::bytes_of(m, addr as int, len);
            let signed4 = if v4 < 0x8000_0000 {
                v4 as int
            } else {
                v4 - 0x1_0000_0000
            };
            let signed8 = if v8 < 0x8000_0000_0000_0000 {
                v8 as int
            } else {
                v8 - 0x1_0000_0000_0000_0000
            };
            let four = if len >= 4 {
                ",\"i32\":"@ + text::decimal_text(signed4) + ",\"u32\":"@ + text::decimal_text(
                    v4 as int,
                ) + ",\"f32\":"@ + f32_text
            } else {
                Seq::empty()
            };
            let eight = if len >= 8 {
                ",\"i64\":"@ + text::decimal_text(signed8) + ",\"u64\":"@ + text::decimal_text(
                    v8 as int,
                ) + ",\"f64\":"@ + f64_text + ",\"ptr\":"@ + ("\""@ + text::hex_text(v8) + "\""@)
            } else {
                Seq::empty()
            };
            http::read_json(m, addr, len, f32_text, f64_text) == "{\"addr\":"@ + ("\""@
                + text::hex_text(addr) + "\""@) + ",\"len\":"@ + text::decimal_text(len as int)
                + ",\"hex\":"@ + http::json_text(http::hex_of(b)) + ",\"ascii\":"@
                + http::json_text(http::ascii_of(b)) + (four + eight) + "}"@
        }),
{
}

/// A step of a chain takes its offset from where the chain stands, round the
/// address space, and reads eight and four bytes there; the chain goes on where
/// the eight bytes say, and ends where they cannot be read.
pub proof fn law_chain_step(m: Map<int, u8>, cur: u64, off: u64)
    ensures
        ({
            let s = http::step_from(m, cur, off);
            let at = if cur + off >= 0x1_0000_0000_0000_0000 {
                cur + off - 0x1_0000_0000_0000_0000
            } else {
                cur + off
            };
            &&& s.off == off
            &&& s.at == at
            &&& s.ptr is Some <==> memory::has(m, at, 8)
            &&& s.ptr matches Some(p) ==> memory::val(m, at, 8) == Some(p as nat)
            &&& s.bits is Some <==> memory::has(m, at, 4)
            &&& s.bits matches Some(b) ==> memory::val(m, at, 4) == Some(b as nat)
        }),
{
    let at = if cur + off >= 0x1_0000_0000_0000_0000 {
        cur + off - 0x1_0000_0000_0000_0000
    } else {
        cur + off
    };
    assert(at == http::wrapped(cur + off)) by {
        if cur + off >= 0x1_0000_0000_0000_0000 {
            vstd::arithmetic::div_mod::lemma_mod_add_multiples_vanish(at, 0x1_0000_0000_0000_0000);
            vstd::arithmetic::div_mod::lemma_small_mod(at as nat, 0x1_0000_0000_0000_0000);
        } else {
            vstd::arithmetic::div_mod::lemma_small_mod(at as nat, 0x1_0000_0000_0000_0000);
        }
    }
    memory::lemma_widths(m, at);
}

/// The offsets of a path are those of its pieces, between commas, that are
/// numbers, in their order.
pub proof fn law_path(pieces: Seq<Seq<char>>, piece: Seq<char>, n: nat)
    ensures
        http::path_of(Seq::empty()) == Seq::<u64>::empty(),
        http::number_of(piece) == Some(n) ==> http::path_of(pieces.push(piece)) == http::path_of(
            pieces,
        ).push(n as u64),
        http::number_of(piece) is None ==> http::path_of(pieces.push(piece)) == http::path_of(pieces),
{
    assert(pieces.push(piece).drop_last() =~= pieces);
}

/// A chain is asked for by where it starts and by its path; what is missing is
/// said in words.
pub proof fn law_chain_request(q: Map<Seq<char>, Seq<char>>, a: nat)
    ensures
        !q.contains_key("addr"@) ==> http::chain_asked(q) == Err::<(u64, Seq<u64>), Seq<char>>(
            "need addr="@,
        ),
        q.contains_key("addr"@) && http::number_of(q["addr"@]) == Some(a) ==> {
            &&& !q.contains_key("path"@) ==> http::chain_asked(q) == Err::<
                (u64, Seq<u64>),
                Seq<char>,
            >("need path=0x10,0x8,.."@)
            &&& q.contains_key("path"@) ==> {
                let offs = http::path_of(text::split(q["path"@], ','));
                http::chain_asked(q) == if offs.len() == 0 {
                    Err::<(u64, Seq<u64>), Seq<char>>("empty path"@)
                } else {
                    Ok::<(u64, Seq<u64>), Seq<char>>((a as u64, offs))
                }
            }
        },
{
}

/// A chain is shown step by step, in its order, with where it ended.
pub proof fn law_chain_shown(
    steps: Seq<http::ChainStep>,
    end: u64,
    floats: Seq<String>,
    i: int,
)
    requires
        0 <= i < steps.len(),
    ensures
        ({
            let items = Seq::new(
                steps.len(),
                |i: int| http::step_json(steps[i], floats[i]@),
            );
            let s = steps[i];
            let quoted = |n: u64| "\""@ + text::hex_text(n as nat) + "\""@;
            &&& http::chain_json(steps, end, floats) == "{\"final\":"@ + quoted(end)
                + ",\"steps\":"@ + ("["@ + text::join(items, ","@) + "]"@) + "}"@
            &&& items[i] == "{\"off\":"@ + quoted(s.off) + ",\"at\":"@ + quoted(s.at)
                + ",\"ptr\":"@ + (if s.ptr is Some {
                quoted(s.ptr->0)
            } else {
                "null"@
            }) + ",\"i64\":"@ + (if s.ptr is Some {
                text::decimal_text(
                    if s.ptr->0 < 0x8000_0000_0000_0000 {
                        s.ptr->0 as int
                    } else {
                        s.ptr->0 - 0x1_0000_0000_0000_0000
                    },
                )
            } else {
                "null"@
            }) + ",\"f32\":"@ + (if s.bits is Some {
                floats[i]@
            } else {
                "null"@
            }) + "}"@
        }),
{
    let items = Seq::new(steps.len(), |i: int| http::step_json(steps[i], floats[i]@));
    assert(items =~= Seq::new(steps.len(), |i: int| http::step_json(steps[i], floats[i]@)));
}

// ── what is searched for ─────────────────────────────────────────────────────

/// The bytes of a number, laid into memory lowest first, are read as the number
/// again, as far as they reach.
pub proof fn law_needle_bytes(v: nat, n: nat, m: Map<int, u8>, a: int)
    requires
        forall|i: int| 0 <= i < n ==> m[a + i] == #[trigger] http::le_bytes(v, n)[i],
    ensures
        http::le_bytes(v, n).len() == n,
        memory::le(m, a, n) == v % memory::pow256(n),
    decreases n,
{
    let b = http::le_bytes(v, n);
    if n > 0 {
        let w = http::le_bytes(v / 256, (n - 1) as nat);
        assert(b =~= seq![(v % 256) as u8] + w);
        lemma_le_len(v / 256, (n - 1) as nat);
        assert forall|i: int| 0 <= i < n - 1 implies m[(a + 1) + i] == #[trigger] w[i] by {
            assert(b[i + 1] == w[i]);
        }
        assert(m[a + 0] == b[0]);
        law_needle_bytes(v / 256, (n - 1) as nat, m, a + 1);
        memory::lemma_pow256_positive((n - 1) as nat);
        vstd::arithmetic::div_mod::lemma_mod_breakdown(
            v as int,
            256,
            memory::pow256((n - 1) as nat) as int,
        );
    } else {
        assert(v % 1 == 0);
    }
}

proof fn lemma_le_len(v: nat, n: nat)
    ensures
        http::le_bytes(v, n).len() == n,
    decreases n,
{
    if n > 0 {
        lemma_le_len(v / 256, (n - 1) as nat);
    }
}

/// A text of 16-bit units has one for a character of the first plane, its code,
/// and two for another: a high and a low surrogate that together say its code.
/// Each unit is two bytes, the low one first.
pub proof fn law_units(s: Seq<char>, c: char)
    ensures
        http::units_of(Seq::empty()) == Seq::<u16>::empty(),
        (c as u32) < 0x1_0000 ==> http::units_of(s.push(c)) == http::units_of(s).push(
            c as u32 as u16,
        ),
        (c as u32) >= 0x1_0000 ==> {
            let u = http::units_of(s.push(c));
            let n = http::units_of(s).len() as int;
            &&& u.len() == n + 2
            &&& u.take(n) == http::units_of(s)
            &&& 0xD800 <= u[n] < 0xDC00
            &&& 0xDC00 <= u[n + 1] < 0xE000
            &&& c as int == 0x1_0000 + (u[n] - 0xD800) * 0x400 + (u[n + 1] - 0xDC00)
        },
{
    assert(s.push(c).drop_last() =~= s);
    let u = http::units_of(s.push(c));
    let n = http::units_of(s).len() as int;
    if (c as u32) < 0x1_0000 {
        assert(u =~= http::units_of(s).push(c as u32 as u16));
    } else {
        assert(u.take(n) =~= http::units_of(s));
    }
}

pub proof fn law_unit_bytes(u: Seq<u16>, i: int)
    ensures
        http::unit_bytes(u).len() == 2 * u.len(),
        0 <= i < u.len() ==> http::unit_bytes(u)[2 * i] + 0x100 * http::unit_bytes(u)[2 * i + 1]
            == u[i],
    decreases u.len(),
{
    if u.len() > 0 {
        law_unit_bytes(u.drop_last(), i);
        if 0 <= i < u.len() - 1 {
            assert(u.drop_last()[i] == u[i]);
        }
    }
}

/// The bytes of a pattern in hexadecimal are what its pairs of digits say, in
/// either case: the digits of any bytes say those bytes.
pub proof fn law_hex_pattern(b: Seq<u8>, cases: Seq<(bool, bool)>)
    requires
        cases.len() == b.len(),
    ensures
        http::hex_bytes(digit_pairs(b, cases)) == Some(b),
    decreases b.len(),
{
    let d = digit_pairs(b, cases);
    if b.len() == 0 {
        assert(http::hex_bytes(d)->0 =~= b);
    } else {
        let n = b.len() - 1;
        let e = digit_pairs(b.drop_last(), cases.drop_last());
        law_hex_pattern(b.drop_last(), cases.drop_last());
        assert(d.take(d.len() - 2) =~= e);
        let (h, l) = (b[n] as nat / 16, b[n] as nat % 16);
        assert(d[2 * n] == ascii_digit(h, cases[n].0));
        assert(d[2 * n + 1] == ascii_digit(l, cases[n].1));
        assert(http::nibble(ascii_digit(h, cases[n].0)) == Some(h as u8));
        assert(http::nibble(ascii_digit(l, cases[n].1)) == Some(l as u8));
        assert(b.drop_last().push(b[n]) =~= b);
    }
}

/// Bytes as pairs of digits, in either case.
pub open spec fn digit_pairs(b: Seq<u8>, cases: Seq<(bool, bool)>) -> Seq<u8> {
    Seq::new(
        2 * b.len(),
        |i: int|
            if i % 2 == 0 {
                ascii_digit(b[i / 2] as nat / 16, cases[i / 2].0)
            } else {
                ascii_digit(b[i / 2] as nat % 16, cases[i / 2].1)
            },
    )
}

/// What is searched for is the first of these that a query has: bytes, a text, a
/// text of 16-bit units, a signed or an unsigned number of four or of eight
/// bytes, a float of four or of eight.
pub proof fn law_needle(
    q: Map<Seq<char>, Seq<char>>,
    f32_bits: Option<u32>,
    f64_bits: Option<u64>,
    v: int,
    n: nat,
)
    requires
        q.contains_key("i32"@) ==> http::signed_number_of(q["i32"@]) is Some,
        q.contains_key("u32"@) ==> http::number_of(q["u32"@]) is Some,
        q.contains_key("i64"@) ==> http::signed_number_of(q["i64"@]) is Some,
        q.contains_key("u64"@) ==> http::number_of(q["u64"@]) is Some,
    ensures
        ({
            let found = http::needle_asked(q, f32_bits, f64_bits);
            let h = q.contains_key("hex"@);
            let t = h || q.contains_key("str"@);
            let u = t || q.contains_key("utf16"@);
            let i4 = u || q.contains_key("i32"@);
            let u4 = i4 || q.contains_key("u32"@);
            let long = u4 || q.contains_key("i64"@);
            let any = long || q.contains_key("u64"@);
            let modulo = |x: int|
                (x + if x < 0 {
                    0x1_0000_0000_0000_0000int
                } else {
                    0
                }) as nat;
            &&& q.contains_key("hex"@) ==> found == http::hex_needle(q["hex"@])
            &&& !h && q.contains_key("str"@) ==> found == Ok::<Seq<u8>, Seq<char>>(
                vstd::utf8::encode_utf8(q["str"@]),
            )
            &&& !t && q.contains_key("utf16"@) ==> found == Ok::<
                Seq<u8>,
                Seq<char>,
            >(http::unit_bytes(http::units_of(q["utf16"@])))
            &&& !u && q.contains_key("i32"@)
                && http::signed_number_of(q["i32"@]) == Some(v) ==> found == Ok::<
                Seq<u8>,
                Seq<char>,
            >(http::le_bytes(modulo(v), 4))
            &&& !i4 && q.contains_key("u32"@)
                && http::number_of(q["u32"@]) == Some(n) ==> found == Ok::<Seq<u8>, Seq<char>>(
                http::le_bytes(n, 4),
            )
            &&& !u4 && q.contains_key("i64"@)
                && http::signed_number_of(q["i64"@]) == Some(v) ==> found == Ok::<
                Seq<u8>,
                Seq<char>,
            >(http::le_bytes(modulo(v), 8))
            &&& !long && q.contains_key(
                "u64"@,
            ) && http::number_of(q["u64"@]) == Some(n) ==> found == Ok::<Seq<u8>, Seq<char>>(
                http::le_bytes(n, 8),
            )
            &&& !any ==> {
                &&& f32_bits matches Some(x) ==> found == Ok::<Seq<u8>, Seq<char>>(
                    http::le_bytes(x as nat, 4),
                )
                &&& f32_bits is None && f64_bits is Some ==> found == Ok::<Seq<u8>, Seq<char>>(
                    http::le_bytes(f64_bits->0 as nat, 8),
                )
                &&& f32_bits is None && f64_bits is None ==> found is Err
            }
        }),
{
}

/// A search looks through the module that is named, or from `start`, the least
/// address without it, to `end`, the end of what a process may map; and stops at
/// `max` hits, 64 without it.
pub proof fn law_scan_range(q: Map<Seq<char>, Seq<char>>, module: Option<(u64, u64)>, n: nat)
    ensures
        ({
            let r = http::scan_asked(q, module);
            &&& q.contains_key("mod"@) && module is None ==> r == Err::<
                (nat, nat, nat),
                Seq<char>,
            >("module not loaded"@)
            &&& q.contains_key("mod"@) && module is Some ==> r is Ok && (r->Ok_0).0
                == (module->0).0 && (r->Ok_0).1 == (module->0).1
            &&& !q.contains_key("mod"@) ==> {
                &&& r is Ok
                &&& !q.contains_key("start"@) ==> (r->Ok_0).0 == 0
                &&& !q.contains_key("end"@) ==> (r->Ok_0).1 == 0x7FFF_FFFF_0000
                &&& q.contains_key("start"@) && http::number_of(q["start"@]) == Some(n) ==> (
                r->Ok_0).0 == n
                &&& q.contains_key("end"@) && http::number_of(q["end"@]) == Some(n) ==> (
                r->Ok_0).1 == n
            }
            &&& r is Ok && !q.contains_key("max"@) ==> (r->Ok_0).2 == 64
            &&& r is Ok && q.contains_key("max"@) && http::number_of(q["max"@]) == Some(n) ==> (
            r->Ok_0).2 == n
        }),
{
}

/// What was found is counted and listed, every hit in its order.
pub proof fn law_scan_shown(needle: nat, hits: Seq<u64>)
    ensures
        ({
            let items = Seq::new(
                hits.len(),
                |i: int| "\""@ + text::hex_text(hits[i] as nat) + "\""@,
            );
            http::scan_json(needle, hits) == "{\"needle_len\":"@ + text::decimal_text(
                needle as int,
            ) + ",\"count\":"@ + text::decimal_text(hits.len() as int) + ",\"hits\":"@ + ("["@
                + text::join(items, ","@) + "]"@) + "}"@
        }),
{
    lemma_addresses(hits);
}

proof fn lemma_addresses(v: Seq<u64>)
    ensures
        http::addresses_json(v) == "["@ + text::join(
            Seq::new(v.len(), |i: int| "\""@ + text::hex_text(v[i] as nat) + "\""@),
            ","@,
        ) + "]"@,
{
    assert(v.map_values(|a: u64| http::quoted_hex(a as nat)) =~= Seq::new(
        v.len(),
        |i: int| "\""@ + text::hex_text(v[i] as nat) + "\""@,
    ));
}

// ── the other answers ────────────────────────────────────────────────────────

/// An answer in full: the status and the type that go with it, the length of
/// the body in bytes, and the body behind an empty line.
pub proof fn law_response(status: Seq<char>, ctype: Seq<char>, body: Seq<char>)
    ensures
        ({
            let r = http::response_text(status, ctype, body);
            &&& exists|head: Seq<char>| r == #[trigger] (head + body) && text::begins(
                head,
                "HTTP/1.1 "@ + status,
            )
            &&& r == "HTTP/1.1 "@ + status + "\r\nContent-Type: "@ + ctype
                + "\r\nContent-Length: "@ + text::decimal_text(
                vstd::utf8::encode_utf8(body).len() as int,
            ) + "\r\nConnection: close\r\nAccess-Control-Allow-Origin: *\r\n\r\n"@ + body
        }),
{
    let first = "HTTP/1.1 "@ + status;
    let rest = "\r\nContent-Type: "@ + ctype + "\r\nContent-Length: "@ + text::decimal_text(
        vstd::utf8::encode_utf8(body).len() as int,
    ) + "\r\nConnection: close\r\nAccess-Control-Allow-Origin: *\r\n\r\n"@;
    let head = first + rest;
    assert(http::response_text(status, ctype, body) =~= head + body);
    crate::laws::text::law_contains(head, first);
}

/// An error is a bad request with its message; everything else is fine.
pub proof fn law_outcomes(body: Seq<char>, msg: Seq<char>)
    ensures
        http::ok_answer(body) == ("200 OK"@, "application/json"@, body),
        http::err_answer(msg) == (
            "400 Bad Request"@,
            "application/json"@,
            "{\"error\":"@ + http::json_text(msg) + "}"@,
        ),
{
}

/// Where a module lies: its name, where it begins and ends, and how long it is.
pub proof fn law_module_answer(q: Map<Seq<char>, Seq<char>>, base: u64, end: u64)
    requires
        base <= end,
    ensures
        !q.contains_key("name"@) ==> http::module_answer(q, Some((base, end))) == http::err_answer(
            "need name="@,
        ),
        q.contains_key("name"@) ==> http::module_answer(q, None) == http::err_answer(
            "module not loaded"@,
        ),
        q.contains_key("name"@) ==> http::module_answer(q, Some((base, end))) == http::ok_answer(
            "{\"name\":"@ + http::json_text(q["name"@]) + ",\"base\":"@ + ("\""@ + text::hex_text(
                base as nat,
            ) + "\""@) + ",\"end\":"@ + ("\""@ + text::hex_text(end as nat) + "\""@)
                + ",\"size\":"@ + text::decimal_text(end - base) + "}"@,
        ),
{
}

/// The status: the backend, the domain, the two modules, the overlay with its
/// frame costs, and the chams.
pub proof fn law_status_answer(
    backend: Backend,
    domain: u64,
    game: (u64, u64),
    m: Menu,
    p: Pointer,
    c: Chams,
)
    requires
        m.frames > 0,
        c.scheme < 6,
        c.style < 3,
    ensures
        ({
            let quoted = |n: u64| "\""@ + text::hex_text(n as nat) + "\""@;
            let number = |n: int| text::decimal_text(n);
            let flag = |b: bool|
                if b {
                    "true"@
                } else {
                    "false"@
                };
            let overlay = "{\"visible\":"@ + flag(m.visible) + ",\"frames\":"@ + number(
                m.frames as int,
            ) + ",\"fps\":"@ + number(m.fps as int) + ",\"cursor\":["@ + number(p.x as int) + ","@
                + number(p.y as int) + "],\"onframe_us\":{\"last\":"@ + number(m.last_us as int)
                + ",\"max\":"@ + number(m.max_us as int) + ",\"avg\":"@ + number(
                m.total_us as int / m.frames as int,
            ) + "}}"@;
            let look = "{\"on\":"@ + flag(c.enabled) + ",\"scheme\":"@ + number(c.scheme as int)
                + ",\"name\":"@ + http::json_text(
                seq!["plasma"@, "molten"@, "toxic"@, "void"@, "ice"@, "ember"@][c.scheme as int],
            ) + ",\"count\":"@ + number(6) + ",\"style\":"@ + http::json_text(
                seq!["flat"@, "glow"@, "mesh"@][c.style as int],
            ) + "}"@;
            &&& http::status_json(Some(backend), domain, Some(game), None, m, p, c)
                == "{\"backend\":"@ + http::json_text(
                if backend is Mono {
                    "Mono"@
                } else {
                    "IL2CPP"@
                },
            ) + ",\"domain\":"@ + quoted(domain) + ",\"gameassembly\":"@ + ("{\"base\":"@ + quoted(
                game.0,
            ) + ",\"end\":"@ + quoted(game.1) + "}"@) + ",\"unityplayer\":"@ + "null"@
                + ",\"menu\":"@ + overlay + ",\"chams\":"@ + look + "}"@
            &&& http::chams_json(c) == look
        }),
{
}

/// The players that the endpoint lists: what the world's list refers to, in its
/// order, up to 4096 of them.
pub proof fn law_players_listed(
    m: Map<int, u8>,
    off: i32,
    world: int,
    list: nat,
    items: nat,
    n: int,
    len: nat,
    k: nat,
)
    requires
        memory::val(m, world + off, 8) == Some(list),
        list != 0,
        memory::val(m, list + 0x10int, 8) == Some(items),
        items != 0,
        memory::int_val(m, list + 0x18int) == Some(n),
        memory::val(m, items + 0x18int, 8) == Some(len),
        k == if n < 0 {
            0
        } else if n < len {
            n
        } else {
            len as int
        },
    ensures
        n <= 4096 ==> http::players_in(m, world, off) == arrays::slots(m, items as int, k).filter(
            |p: u64| p != 0,
        ),
        n > 4096 ==> http::players_in(m, world, off).len() == 0,
{
    if n <= 4096 {
        arrays::law_elements(m, items as int, k);
    }
}

/// The answer on players: the field that lists them, where it lies, and every
/// one of them; none without a living world.
pub proof fn law_players_answer<R: ScriptRuntime>(rt: &R, m: Map<int, u8>, world: Object, o: i32)
    ensures
        ({
            let lives = world.0 != 0 && (memory::val(m, world.0 + 0x10, 8) matches Some(v) && v
                != 0);
            let class = match rt.image_of("Assembly-CSharp"@) {
                Some(i) => rt.class_of(i, "EFT"@, "GameWorld"@),
                None => None,
            };
            let shown = |name: Seq<char>|
                {
                    let ps = http::players_in(m, world.0 as int, o);
                    "{\"gameworld\":"@ + ("\""@ + text::hex_text(world.0 as nat) + "\""@)
                        + ",\"field\":"@ + http::json_text(name) + ",\"field_off\":"@ + ("\""@
                        + text::hex_text(
                        (o + if o < 0 {
                            0x1_0000_0000int
                        } else {
                            0
                        }) as nat,
                    ) + "\""@) + ",\"count\":"@ + text::decimal_text(ps.len() as int)
                        + ",\"players\":"@ + http::addresses_json(ps) + "}"@
                };
            &&& !lives ==> http::players_answer(Some(rt), m, world) == http::ok_answer(
                "{\"gameworld\":null,\"players\":[]}"@,
            )
            &&& lives && class is None ==> http::players_answer(Some(rt), m, world)
                == http::err_answer("GameWorld class not found"@)
            &&& lives && class is Some ==> match (
                rt.field_of(class->0, "RegisteredPlayers"@),
                rt.field_of(class->0, "AllAlivePlayersList"@),
            ) {
                (Some(f), _) => rt.offset_of(f) == o ==> http::players_answer(Some(rt), m, world)
                    == http::ok_answer(shown("RegisteredPlayers"@)),
                (None, Some(f)) => rt.offset_of(f) == o ==> http::players_answer(
                    Some(rt),
                    m,
                    world,
                ) == http::ok_answer(shown("AllAlivePlayersList"@)),
                (None, None) => http::players_answer(Some(rt), m, world) == http::err_answer(
                    "no player-list field on GameWorld"@,
                ),
            }
        }),
{
}

/// The answer on the raid: whether it is looked at, and every player that was
/// published, in the order of the list.
pub proof fn law_raid_answer(w: World, texts: Seq<RaidTexts>, i: int)
    requires
        0 <= i < w.entries@.len(),
    ensures
        ({
            let items = Seq::new(w.entries@.len(), |i: int| http::raid_json(w.entries@[i], texts[i]));
            let e: Entry = w.entries@[i];
            let t = texts[i];
            let flag = |b: bool|
                if b {
                    "true"@
                } else {
                    "false"@
                };
            let triple = |x: (String, String, String)|
                "["@ + x.0@ + ","@ + x.1@ + ","@ + x.2@ + "]"@;
            &&& http::raid_list_json(w, texts) == "{\"enabled\":"@ + flag(w.enabled)
                + ",\"count\":"@ + text::decimal_text(w.entries@.len() as int) + ",\"players\":"@
                + ("["@ + text::join(items, ","@) + "]"@) + "}"@
            &&& items[i] == "{\"ptr\":"@ + ("\""@ + text::hex_text(e.ptr as nat) + "\""@)
                + ",\"local\":"@ + flag(e.is_local) + ",\"bot\":"@ + flag(e.is_bot) + ",\"pos\":"@
                + triple(t.pos) + ",\"screen\":"@ + triple(t.screen) + ",\"on_screen\":"@ + flag(
                e.on_screen,
            ) + ",\"dist\":"@ + t.dist@ + "}"@
        }),
{
    let items = Seq::new(w.entries@.len(), |i: int| http::raid_json(w.entries@[i], texts[i]));
    assert(items =~= Seq::new(w.entries@.len(), |i: int| http::raid_json(w.entries@[i], texts[i])));
}

/// The short answers: the world and whether it lives, and the switches as they
/// are after the request.
pub proof fn law_short_answers(
    m: Map<int, u8>,
    world: Object,
    f: Features,
    mult: Seq<char>,
    menu: Menu,
)
    ensures
        ({
            let lives = world.0 != 0 && (memory::val(m, world.0 + 0x10, 8) matches Some(v) && v
                != 0);
            let flag = |b: bool|
                if b {
                    "true"@
                } else {
                    "false"@
                };
            &&& http::world_json(m, world) == "{\"ptr\":"@ + ("\""@ + text::hex_text(world.0 as nat)
                + "\""@) + ",\"alive\":"@ + flag(lives) + "}"@
            &&& http::stamina_json(f) == "{\"inf_stamina\":"@ + flag(f.stamina) + "}"@
            &&& http::speed_json(f, mult) == "{\"on\":"@ + flag(f.speed) + ",\"mult\":"@ + mult + "}"@
            &&& http::visible_json(menu) == "{\"visible\":"@ + flag(menu.visible) + "}"@
        }),
{
}

/// A JSON string is the text in quotes, with a backslash before a quote and a
/// backslash, the short forms for the ends of lines and the tabulator, and four
/// hexadecimal digits for any other control character.
pub proof fn law_json_string(s: Seq<char>, c: char)
    ensures
        http::json_text(s) == seq!['"'] + http::escaped(s) + seq!['"'],
        http::escaped(Seq::empty()) == Seq::<char>::empty(),
        http::escaped(s.push(c)) == http::escaped(s) + (if c == '"' || c == '\\' {
            seq!['\\', c]
        } else if c == '\n' {
            seq!['\\', 'n']
        } else if c == '\r' {
            seq!['\\', 'r']
        } else if c == '\t' {
            seq!['\\', 't']
        } else if (c as u32) < 0x20 {
            seq![
                '\\',
                'u',
                '0',
                '0',
                if (c as u32) < 0x10 {
                    '0'
                } else {
                    '1'
                },
                crate::laws::text::sixteen(false)[(c as u32 % 16) as int],
            ]
        } else {
            seq![c]
        }),
{
    assert(s.push(c).drop_last() =~= s);
    crate::laws::text::law_digits((c as u32 % 16) as nat, c);
    crate::laws::text::law_digits((c as u32 / 16) as nat, c);
}

/// The answer on a class: where it lies, its name, and how many fields and
/// methods there are of it and of the classes above it.
pub proof fn law_class_answer(rt: &Il2CppRuntime<'_>, q: Map<Seq<char>, Seq<char>>, c: Class)
    ensures
        http::class_asked(rt, q) == Ok::<Class, Seq<char>>(c) ==> http::class_answer(Some(rt), q)
            == http::ok_answer(
            "{\"ptr\":"@ + ("\""@ + text::hex_text(c.0 as nat) + "\""@) + ",\"name\":"@
                + http::json_text(
                match il2cpp::str_val(rt.mem@, c.0 + rt.l.c_name) {
                    Some(t) => t,
                    None => Seq::empty(),
                },
            ) + ",\"fields\":"@ + text::decimal_text(
                il2cpp_runtime::all_fields(rt.mem@, rt.l, c.0 as int, 32).len() as int,
            ) + ",\"methods\":"@ + text::decimal_text(
                il2cpp_runtime::all_methods(rt.mem@, rt.l, c.0 as int, 32).len() as int,
            ) + "}"@,
        ),
        http::class_answer(None, q) == http::err_answer("runtime not ready"@),
{
}

/// The answers on fields and methods list those of the class and of the classes
/// above it, 32 at most, that pass the filter.
pub proof fn law_dump_answers(rt: &Il2CppRuntime<'_>, q: Map<Seq<char>, Seq<char>>, c: Class)
    requires
        http::class_asked(rt, q) == Ok::<Class, Seq<char>>(c),
    ensures
        http::fields_answer(Some(rt), q) == http::ok_answer(
            "["@ + text::join(
                http::fields_json(
                    il2cpp_runtime::all_fields(rt.mem@, rt.l, c.0 as int, 32),
                    http::filter_in(q),
                ),
                ","@,
            ) + "]"@,
        ),
        http::methods_answer(Some(rt), q) == http::ok_answer(
            "["@ + text::join(
                http::methods_json(
                    il2cpp_runtime::all_methods(rt.mem@, rt.l, c.0 as int, 32),
                    http::filter_in(q),
                ),
                ","@,
            ) + "]"@,
        ),
{
}

/// Each endpoint is answered with its own answer, on the state as it is after the
/// request.
pub proof fn law_each_answer(
    q: Map<Seq<char>, Seq<char>>,
    x: Facts<'_, '_>,
    m: Menu,
    c: Chams,
    f: Features,
    w: World,
)
    ensures
        ({
            let r = |e: Endpoint| http::reply(e, q, x, m, c, f, w);
            &&& r(Endpoint::Help) == (
                "200 OK"@,
                "text/plain; charset=utf-8"@,
                http::HELP_TITLE@ + http::HELP@,
            )
            &&& r(Endpoint::Status) == http::ok_answer(
                http::status_json(x.backend, x.domain, x.game, x.player, m, *x.pointer, c),
            )
            &&& r(Endpoint::Module) == http::module_answer(q, x.module)
            &&& r(Endpoint::Class) == http::class_answer(x.rt, q)
            &&& r(Endpoint::Fields) == http::fields_answer(x.rt, q)
            &&& r(Endpoint::Methods) == http::methods_answer(x.rt, q)
            &&& http::read_asked(x.mem@, q) matches Ok(a) ==> r(Endpoint::Read) == http::ok_answer(
                http::read_json(x.mem@, a.0, a.1, x.f32_text@, x.f64_text@),
            )
            &&& http::read_asked(x.mem@, q) matches Err(e) ==> r(Endpoint::Read)
                == http::err_answer(e)
            &&& http::chain_asked(q) is Ok ==> r(Endpoint::Chain) == http::ok_answer(
                http::chain_json((x.chain->0).steps@, (x.chain->0).cur, x.chain_texts@),
            )
            &&& http::chain_asked(q) matches Err(e) ==> r(Endpoint::Chain) == http::err_answer(e)
            &&& http::needle_asked(q, x.f32_bits, x.f64_bits) matches Err(e) ==> r(Endpoint::Scan)
                == http::err_answer(e)
            &&& http::needle_asked(q, x.f32_bits, x.f64_bits) matches Ok(n) ==> match http::scan_asked(
                q,
                x.module,
            ) {
                Ok(_) => r(Endpoint::Scan) == http::ok_answer(
                    http::scan_json(n.len(), (x.scan->0).hits@),
                ),
                Err(e) => r(Endpoint::Scan) == http::err_answer(e),
            }
            &&& r(Endpoint::GameWorld) == http::ok_answer(http::world_json(x.mem@, x.world))
            &&& r(Endpoint::Players) == http::players_answer(x.rt, x.mem@, x.world)
            &&& r(Endpoint::Chams) == http::ok_answer(http::chams_json(c))
            &&& r(Endpoint::Raid) == http::ok_answer(http::raid_list_json(w, x.raid_texts@))
            &&& r(Endpoint::Stamina) == http::ok_answer(http::stamina_json(f))
            &&& r(Endpoint::Speed) == http::ok_answer(http::speed_json(f, x.mult_text@))
            &&& r(Endpoint::Menu) == http::ok_answer(http::visible_json(m))
            &&& r(Endpoint::Unknown) == http::err_answer("unknown endpoint (GET / for help)"@)
        }),
{
}

/// The bytes that end the head of a request are two ends of lines.
pub proof fn law_head_end(b: Seq<u8>, i: int)
    ensures
        http::head_ends_at(b, i) <==> 0 <= i && i + 4 <= b.len() && b.subrange(i, i + 4) == seq![
            0x0du8,
            0x0au8,
            0x0du8,
            0x0au8,
        ],
{
    let end = seq![0x0du8, 0x0au8, 0x0du8, 0x0au8];
    if 0 <= i && i + 4 <= b.len() {
        let t = b.subrange(i, i + 4);
        if http::head_ends_at(b, i) {
            assert(t =~= end);
        }
        if t == end {
            assert(t[0] == b[i] && t[1] == b[i + 1] && t[2] == b[i + 2] && t[3] == b[i + 3]);
        }
    }
}

/// How a number is written: in hexadecimal behind `0x` or `0X`, in decimal
/// otherwise, and with white space around it only where that is said.
pub proof fn law_number_written(t: Seq<char>, s: Seq<char>)
    ensures
        http::bare_number_of(seq!['0', 'x'] + t) == text::unsigned_of(t, 16),
        http::bare_number_of(seq!['0', 'X'] + t) == text::unsigned_of(t, 16),
        t.len() < 2 || t[0] != '0' || (t[1] != 'x' && t[1] != 'X') ==> http::bare_number_of(t)
            == text::unsigned_of(t, 10),
        http::number_of(s) == http::bare_number_of(text::trimmed(s)),
        text::trimmed(s) == seq!['0', 'x'] + t ==> http::signed_number_of(s) == text::signed_of(
            t,
            16,
        ),
        text::trimmed(s) == seq!['0', 'X'] + t ==> http::signed_number_of(s) == text::signed_of(
            t,
            16,
        ),
        text::trimmed(s) == t && (t.len() < 2 || t[0] != '0' || (t[1] != 'x' && t[1] != 'X'))
            ==> http::signed_number_of(s) == text::signed_of(t, 10),
{
    assert((seq!['0', 'x'] + t).skip(2) =~= t);
    assert((seq!['0', 'X'] + t).skip(2) =~= t);
}

/// What the backends are called.
pub proof fn law_backends()
    ensures
        http::backend_text(Some(Backend::Mono)) == "Mono"@,
        http::backend_text(Some(Backend::Il2Cpp)) == "IL2CPP"@,
        http::backend_text(None) == "none"@,
{
}

} // verus!
