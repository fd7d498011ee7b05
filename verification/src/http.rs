//! The control server's requests and answers: how a request is read, which
//! endpoint it asks for, and the JSON that answers it.
//!
//! Sockets, and what only the process can tell, are the caller's; floats are
//! handed in as bits or as text.

use vstd::prelude::*;

use crate::chams;
use crate::chams::Chams;
use crate::features;
use crate::features::{alive_here, link, Features};
use crate::il2cpp;
use crate::il2cpp::{RegionInfo, Scan};
use crate::il2cpp_runtime;
use crate::il2cpp_runtime::Il2CppRuntime;
use crate::input::Pointer;
use crate::memory;
use crate::memory::Memory;
use crate::menu;
use crate::menu::Menu;
use crate::runtime::{list_count, list_items, Backend, Class, Object, ScriptRuntime};
use crate::symbols;
use crate::symbols::{eft, find_class};
use crate::text;
use crate::text::{
    chars_of, copy_of, digit_char, has_text, is_white, join_from, lossy, low32, parse_signed,
    parse_unsigned, push_bool, push_byte, push_decimal, push_hex, push_signed, same, split_at_char,
    string_of, to_lower, trim,
};
use crate::world;
use crate::world::World;

verus! {

// ── reading a request ────────────────────────────────────────────────────────

/// The most of a request that is read.
pub const MAX_REQUEST: usize = 16384;

/// The four bytes that end the head of a request stand at `i`.
pub open spec fn head_ends_at(b: Seq<u8>, i: int) -> bool {
    0 <= i && i + 4 <= b.len() && b[i] == 13 && b[i + 1] == 10 && b[i + 2] == 13 && b[i + 3] == 10
}

/// Whether enough of a request was read.
pub fn request_complete(b: &Vec<u8>) -> (r: bool)
    ensures
        r == (b.len() > MAX_REQUEST || exists|i: int| head_ends_at(b@, i)),
{
    if b.len() > MAX_REQUEST {
        return true;
    }
    let mut i: usize = 0;
    while i < b.len()
        invariant
            i <= b.len(),
            forall|j: int| 0 <= j < i ==> !head_ends_at(b@, j),
        decreases b.len() - i,
    {
        if b.len() - i >= 4 && b[i] == 13 && b[i + 1] == 10 && b[i + 2] == 13 && b[i + 3] == 10 {
            assert(head_ends_at(b@, i as int));
            return true;
        }
        i = i + 1;
    }
    false
}

/// The first place of a character, from `i` on.
pub open spec fn index_from(s: Seq<char>, c: char, i: nat) -> Option<nat>
    decreases s.len() - i,
{
    if i >= s.len() {
        None
    } else if s[i as int] == c {
        Some(i)
    } else {
        index_from(s, c, i + 1)
    }
}

/// A text before and after the first `c`; all of it before, where there is none.
pub open spec fn cut(s: Seq<char>, c: char) -> (Seq<char>, Seq<char>) {
    match index_from(s, c, 0) {
        Some(i) => (s.take(i as int), s.skip(i as int + 1)),
        None => (s, Seq::empty()),
    }
}

fn split_once(s: &str, c: char) -> (r: (String, String))
    ensures
        (r.0@, r.1@) == cut(s@, c),
{
    let v = chars_of(s);
    let mut i: usize = 0;
    while i < v.len()
        invariant
            i <= v.len(),
            v@ == s@,
            index_from(s@, c, 0) == index_from(s@, c, i as nat),
        decreases v.len() - i,
    {
        if v[i] == c {
            let a = string_of(&v, 0, i);
            let b = string_of(&v, i + 1, v.len());
            assert(a@ =~= s@.take(i as int));
            assert(b@ =~= s@.skip(i + 1));
            return (a, b);
        }
        i = i + 1;
    }
    let b = String::new();
    assert(b@ =~= Seq::<char>::empty());
    (copy_of(s), b)
}

/// The first line, without its end.
pub open spec fn first_line(s: Seq<char>) -> Seq<char> {
    let l = cut(s, '\n').0;
    if index_from(s, '\n', 0) is Some && l.len() > 0 && l.last() == '\r' {
        l.drop_last()
    } else {
        l
    }
}

/// What is left of a text after white space.
pub open spec fn past_white(s: Seq<char>) -> Seq<char>
    decreases s.len(),
{
    if s.len() > 0 && text::white(s[0]) {
        past_white(s.skip(1))
    } else {
        s
    }
}

/// The characters before the first white space.
pub open spec fn word(s: Seq<char>) -> Seq<char>
    decreases s.len(),
{
    if s.len() == 0 || text::white(s[0]) {
        Seq::empty()
    } else {
        seq![s[0]] + word(s.skip(1))
    }
}

/// What is left of a text after its first word.
pub open spec fn past_word(s: Seq<char>) -> Seq<char>
    decreases s.len(),
{
    if s.len() == 0 || text::white(s[0]) {
        s
    } else {
        past_word(s.skip(1))
    }
}

/// The second word of a text; a slash where there is none.
pub open spec fn second_word(s: Seq<char>) -> Seq<char> {
    let w = word(past_white(past_word(past_white(s))));
    if w.len() == 0 {
        "/"@
    } else {
        w
    }
}

/// The path and the query that a request asks for.
pub open spec fn target_in(req: Seq<char>) -> (Seq<char>, Seq<char>) {
    cut(second_word(first_line(req)), '?')
}

fn skip_white(v: &Vec<char>, from: usize) -> (at: usize)
    requires
        from <= v.len(),
    ensures
        from <= at <= v.len(),
        v@.skip(at as int) == past_white(v@.skip(from as int)),
{
    let mut i: usize = from;
    while i < v.len() && is_white(v[i])
        invariant
            from <= i <= v.len(),
            past_white(v@.skip(from as int)) == past_white(v@.skip(i as int)),
        decreases v.len() - i,
    {
        assert(v@.skip(i as int).skip(1) =~= v@.skip(i + 1));
        i = i + 1;
    }
    i
}

fn skip_word(v: &Vec<char>, from: usize) -> (at: usize)
    requires
        from <= v.len(),
    ensures
        from <= at <= v.len(),
        v@.skip(at as int) == past_word(v@.skip(from as int)),
        v@.subrange(from as int, at as int) == word(v@.skip(from as int)),
{
    let mut i: usize = from;
    assert(v@.subrange(from as int, from as int) + word(v@.skip(from as int)) =~= word(
        v@.skip(from as int),
    ));
    while i < v.len() && !is_white(v[i])
        invariant
            from <= i <= v.len(),
            past_word(v@.skip(from as int)) == past_word(v@.skip(i as int)),
            word(v@.skip(from as int)) == v@.subrange(from as int, i as int) + word(
                v@.skip(i as int),
            ),
        decreases v.len() - i,
    {
        let ghost rest = v@.skip(i as int);
        assert(rest.skip(1) =~= v@.skip(i + 1));
        assert(rest[0] == v@[i as int]);
        assert(v@.subrange(from as int, i as int) + (seq![rest[0]] + word(rest.skip(1)))
            =~= v@.subrange(from as int, i + 1) + word(v@.skip(i + 1)));
        i = i + 1;
    }
    assert(word(v@.skip(i as int)) =~= Seq::<char>::empty());
    assert(v@.subrange(from as int, i as int) + Seq::<char>::empty() =~= v@.subrange(
        from as int,
        i as int,
    ));
    i
}

/// The path and the query of a request.
pub fn request_target(req: &str) -> (r: (String, String))
    ensures
        (r.0@, r.1@) == target_in(req@),
{
    let v = chars_of(req);
    let mut end: usize = 0;
    let mut found: bool = false;
    while end < v.len() && !found
        invariant
            end <= v.len(),
            v@ == req@,
            !found ==> index_from(req@, '\n', 0) == index_from(req@, '\n', end as nat),
            found ==> index_from(req@, '\n', 0) == Some(end as nat) && end < v.len(),
        decreases v.len() - end, if found {
            0int
        } else {
            1
        },
    {
        if v[end] == '\n' {
            found = true;
        } else {
            end = end + 1;
        }
    }
    if found && end > 0 && v[end - 1] == '\r' {
        end = end - 1;
    }
    let line = string_of(&v, 0, end);
    assert(line@ =~= first_line(req@));
    let l = chars_of(line.as_str());
    let a: usize = skip_white(&l, 0);
    assert(l@.skip(0) =~= l@);
    let b: usize = skip_word(&l, a);
    let c: usize = skip_white(&l, b);
    let d: usize = skip_word(&l, c);
    if d == c {
        assert(l@.subrange(c as int, d as int).len() == 0);
        split_once("/", '?')
    } else {
        let w = string_of(&l, c, d);
        assert(w@.len() > 0);
        split_once(w.as_str(), '?')
    }
}

/// The path and the query of a request as it was read.
pub fn parse_request(b: &Vec<u8>) -> (r: (String, String))
    ensures
        (r.0@, r.1@) == target_in(text::lossy_text(b@)),
{
    let req = lossy(b.as_slice());
    request_target(req.as_str())
}

/// The whole answer: head and body.
pub open spec fn response_text(status: Seq<char>, ctype: Seq<char>, body: Seq<char>) -> Seq<char> {
    "HTTP/1.1 "@ + status + "\r\nContent-Type: "@ + ctype + "\r\nContent-Length: "@
        + text::decimal_text(vstd::utf8::encode_utf8(body).len() as int)
        + "\r\nConnection: close\r\nAccess-Control-Allow-Origin: *\r\n\r\n"@ + body
}

/// Frames an answer; the length it says is that of the body in bytes.
pub fn response(status: &str, ctype: &str, body: &str) -> (r: String)
    ensures
        r@ == response_text(status@, ctype@, body@),
{
    let n: usize = body.as_bytes().len();
    let mut s = copy_of("HTTP/1.1 ");
    s.append(status);
    s.append("\r\nContent-Type: ");
    s.append(ctype);
    s.append("\r\nContent-Length: ");
    push_decimal(&mut s, n as u64);
    s.append("\r\nConnection: close\r\nAccess-Control-Allow-Origin: *\r\n\r\n");
    s.append(body);
    s
}

// ── queries ──────────────────────────────────────────────────────────────────

/// The value of a hexadecimal digit.
pub open spec fn nibble(c: u8) -> Option<u8> {
    if 48 <= c <= 57 {
        Some((c - 48) as u8)
    } else if 97 <= c <= 102 {
        Some((c - 87) as u8)
    } else if 65 <= c <= 70 {
        Some((c - 55) as u8)
    } else {
        None
    }
}

pub fn hex_nibble(c: u8) -> (r: Option<u8>)
    ensures
        r == nibble(c),
{
    if 48 <= c && c <= 57 {
        Some(c - 48)
    } else if 97 <= c && c <= 102 {
        Some(c - 87)
    } else if 65 <= c && c <= 70 {
        Some(c - 55)
    } else {
        None
    }
}

/// Bytes with `+` for a space and `%xx` for a byte undone; a `%` without two
/// digits behind it stays.
pub open spec fn unescaped(b: Seq<u8>) -> Seq<u8>
    decreases b.len(),
{
    if b.len() == 0 {
        Seq::empty()
    } else if b[0] == 43 {
        seq![32u8] + unescaped(b.skip(1))
    } else if b[0] == 37 && b.len() > 2 && nibble(b[1]) is Some && nibble(b[2]) is Some {
        seq![(nibble(b[1])->0 * 16 + nibble(b[2])->0) as u8] + unescaped(b.skip(3))
    } else {
        seq![b[0]] + unescaped(b.skip(1))
    }
}

/// The text that an escaped one stands for.
pub open spec fn url_text(s: Seq<char>) -> Seq<char> {
    text::lossy_text(unescaped(vstd::utf8::encode_utf8(s)))
}

/// Undoes the escapes in bytes.
pub fn url_bytes(b: &[u8]) -> (out: Vec<u8>)
    ensures
        out@ == unescaped(b@),
{
    let mut out: Vec<u8> = Vec::new();
    let mut i: usize = 0;
    assert(b@.skip(0) =~= b@);
    assert(out@ + unescaped(b@) =~= unescaped(b@));
    while i < b.len()
        invariant
            i <= b.len(),
            unescaped(b@) == out@ + unescaped(b@.skip(i as int)),
        decreases b.len() - i,
    {
        let ghost rest = b@.skip(i as int);
        let ghost o = out@;
        assert(rest[0] == b@[i as int]);
        let c: u8 = b[i];
        let mut step: usize = 1;
        let mut x: u8 = c;
        if c == 43 {
            x = 32;
        } else if c == 37 && b.len() - i > 2 {
            assert(rest[1] == b@[i + 1] && rest[2] == b@[i + 2]);
            match (hex_nibble(b[i + 1]), hex_nibble(b[i + 2])) {
                (Some(h), Some(l)) => {
                    x = h * 16 + l;
                    step = 3;
                },
                _ => {},
            }
        }
        out.push(x);
        proof {
            assert(rest.skip(step as int) =~= b@.skip(i + step));
            assert(unescaped(rest) =~= seq![x] + unescaped(b@.skip(i + step)));
            assert(o + (seq![x] + unescaped(b@.skip(i + step))) =~= out@ + unescaped(
                b@.skip(i + step),
            ));
        }
        i = i + step;
    }
    assert(unescaped(b@.skip(i as int)) =~= Seq::<u8>::empty());
    assert(out@ + Seq::<u8>::empty() =~= out@);
    out
}

pub fn url_decode(s: &str) -> (r: String)
    ensures
        r@ == url_text(s@),
        (forall|i: int|
            0 <= i < vstd::utf8::encode_utf8(s@).len() ==> #[trigger] vstd::utf8::encode_utf8(s@)[i] != 43 && vstd::utf8::encode_utf8(
                s@,
            )[i] != 37) ==> r@ == s@,
        forall|t: Seq<char>, cases: Seq<(bool, bool)>|
            s@ == #[trigger] percent_text(t, cases) ==> r@ == t,
{
    let out = url_bytes(s.as_bytes());
    let r = lossy(out.as_slice());
    proof {
        if forall|i: int|
            0 <= i < vstd::utf8::encode_utf8(s@).len() ==> #[trigger] vstd::utf8::encode_utf8(s@)[i] != 43 && vstd::utf8::encode_utf8(
                s@,
            )[i] != 37 {
            law_plain_bytes_stay(vstd::utf8::encode_utf8(s@));
            vstd::utf8::encode_utf8_valid_utf8(s@);
            vstd::utf8::encode_utf8_decode_utf8(s@);
        }
        assert forall|t: Seq<char>, cases: Seq<(bool, bool)>|
            s@ == #[trigger] percent_text(t, cases) implies r@ == t by {
            lemma_percent_text(t, cases);
            law_escapes_undone(vstd::utf8::encode_utf8(t), cases, Seq::empty());
            vstd::utf8::encode_utf8_valid_utf8(t);
            vstd::utf8::encode_utf8_decode_utf8(t);
        }
    }
    r
}

/// Bytes without `+` and `%` stand for themselves.
pub proof fn law_plain_bytes_stay(b: Seq<u8>)
    requires
        forall|i: int| 0 <= i < b.len() ==> #[trigger] b[i] != 43 && b[i] != 37,
    ensures
        unescaped(b) == b,
    decreases b.len(),
{
    if b.len() > 0 {
        assert forall|i: int| 0 <= i < b.skip(1).len() implies #[trigger] b.skip(1)[i] != 43
            && b.skip(1)[i] != 37 by {
            assert(b.skip(1)[i] == b[i + 1]);
        }
        law_plain_bytes_stay(b.skip(1));
        assert(seq![b[0]] + b.skip(1) =~= b);
    }
}

/// A hexadecimal digit as a byte, in either case.
pub open spec fn digit_byte(d: int, big: bool) -> u8 {
    if d < 10 {
        (48 + d) as u8
    } else if big {
        (55 + d) as u8
    } else {
        (87 + d) as u8
    }
}

/// Bytes, each written as an escape; `cases` says of both digits of each whether
/// they are in upper case.
pub open spec fn percent_bytes(b: Seq<u8>, cases: Seq<(bool, bool)>) -> Seq<u8>
    decreases b.len(),
{
    if b.len() == 0 {
        Seq::empty()
    } else {
        seq![37u8, digit_byte(b[0] as int / 16, cases[0].0), digit_byte(b[0] as int % 16, cases[0].1)]
            + percent_bytes(b.skip(1), cases.skip(1))
    }
}

/// A text, every byte of it written as an escape.
pub open spec fn percent_text(t: Seq<char>, cases: Seq<(bool, bool)>) -> Seq<char> {
    percent_bytes(vstd::utf8::encode_utf8(t), cases).map_values(|b: u8| b as char)
}

/// Escapes are undone, whatever the case of each digit is, and what follows them
/// is read as it would be without them.
pub proof fn law_escapes_undone(b: Seq<u8>, cases: Seq<(bool, bool)>, rest: Seq<u8>)
    ensures
        unescaped(percent_bytes(b, cases) + rest) == b + unescaped(rest),
        unescaped(percent_bytes(b, cases)) == b,
    decreases b.len(),
{
    let all = percent_bytes(b, cases);
    if b.len() == 0 {
        assert(all + rest =~= rest);
        assert(b + unescaped(rest) =~= unescaped(rest));
    } else {
        law_escapes_undone(b.skip(1), cases.skip(1), rest);
        let (h, l) = (b[0] as int / 16, b[0] as int % 16);
        assert(0 <= h < 16 && 0 <= l < 16 && h * 16 + l == b[0]);
        assert(nibble(digit_byte(h, cases[0].0)) == Some(h as u8));
        assert(nibble(digit_byte(l, cases[0].1)) == Some(l as u8));
        assert(all.skip(3) =~= percent_bytes(b.skip(1), cases.skip(1)));
        assert((all + rest).skip(3) =~= percent_bytes(b.skip(1), cases.skip(1)) + rest);
        assert((all + rest)[0] == 37 && (all + rest)[1] == digit_byte(h, cases[0].0) && (all + rest)[2]
            == digit_byte(l, cases[0].1));
        assert(seq![b[0]] + b.skip(1) =~= b);
        assert(seq![b[0]] + (b.skip(1) + unescaped(rest)) =~= b + unescaped(rest));
    }
}

proof fn lemma_percent_text(t: Seq<char>, cases: Seq<(bool, bool)>)
    ensures
        vstd::utf8::encode_utf8(percent_text(t, cases)) == percent_bytes(
            vstd::utf8::encode_utf8(t),
            cases,
        ),
{
    let b = percent_bytes(vstd::utf8::encode_utf8(t), cases);
    lemma_percent_small(vstd::utf8::encode_utf8(t), cases);
    vstd::utf8::is_ascii_chars_encode_utf8(percent_text(t, cases));
    assert(vstd::utf8::encode_utf8(percent_text(t, cases)) =~= b);
}

proof fn lemma_percent_small(b: Seq<u8>, cases: Seq<(bool, bool)>)
    ensures
        forall|i: int|
            0 <= i < percent_bytes(b, cases).len() ==> #[trigger] percent_bytes(b, cases)[i] < 128,
    decreases b.len(),
{
    if b.len() > 0 {
        lemma_percent_small(b.skip(1), cases.skip(1));
        let front = seq![37u8, digit_byte(b[0] as int / 16, cases[0].0), digit_byte(b[0] as int % 16, cases[0].1)];
        assert forall|i: int| 0 <= i < percent_bytes(b, cases).len() implies #[trigger] percent_bytes(
            b,
            cases,
        )[i] < 128 by {
            if i < 3 {
                assert(percent_bytes(b, cases)[i] == front[i]);
            } else {
                assert(percent_bytes(b, cases)[i] == percent_bytes(b.skip(1), cases.skip(1))[i - 3]);
            }
        }
    }
}

/// The parameters of a request, the later ones before the earlier.
pub struct Query {
    pub entries: Vec<(String, String)>,
}

/// What a list of names and values says.
pub open spec fn params(s: Seq<(Seq<char>, Seq<char>)>) -> Map<Seq<char>, Seq<char>>
    decreases s.len(),
{
    if s.len() == 0 {
        Map::empty()
    } else {
        params(s.drop_last()).insert(s.last().0, s.last().1)
    }
}

pub open spec fn entries_val(s: Seq<(String, String)>) -> Seq<(Seq<char>, Seq<char>)> {
    s.map_values(|e: (String, String)| (e.0@, e.1@))
}

impl View for Query {
    type V = Map<Seq<char>, Seq<char>>;

    open spec fn view(&self) -> Map<Seq<char>, Seq<char>> {
        params(entries_val(self.entries@))
    }
}

/// The value of a parameter.
pub open spec fn param(q: Map<Seq<char>, Seq<char>>, name: Seq<char>) -> Option<Seq<char>> {
    if q.dom().contains(name) {
        Some(q[name])
    } else {
        None
    }
}

pub open spec fn opt_str(s: Option<&String>) -> Option<Seq<char>> {
    match s {
        Some(s) => Some(s@),
        None => None,
    }
}

proof fn lemma_params_last(s: Seq<(Seq<char>, Seq<char>)>, i: int, name: Seq<char>)
    requires
        0 <= i <= s.len(),
        forall|j: int| i <= j < s.len() ==> (#[trigger] s[j]).0 != name,
    ensures
        param(params(s), name) == param(params(s.take(i)), name),
    decreases s.len(),
{
    if i == s.len() {
        assert(s.take(i) =~= s);
    } else {
        assert(s.drop_last().take(i) =~= s.take(i));
        assert forall|j: int| i <= j < s.drop_last().len() implies (#[trigger] s.drop_last()[j]).0
            != name by {
            assert(s[j].0 != name);
        }
        lemma_params_last(s.drop_last(), i, name);
        assert(s[s.len() - 1].0 != name);
    }
}

impl Query {
    pub fn new() -> (q: Self)
        ensures
            q@ == Map::<Seq<char>, Seq<char>>::empty(),
    {
        let q = Query { entries: Vec::new() };
        assert(entries_val(q.entries@) =~= Seq::empty());
        q
    }

    /// Sets a parameter.
    pub fn insert(&mut self, name: String, value: String)
        ensures
            final(self)@ == old(self)@.insert(name@, value@),
    {
        let ghost o = entries_val(self.entries@);
        self.entries.push((name, value));
        assert(entries_val(self.entries@).drop_last() =~= o);
        assert(entries_val(self.entries@).last() == (name@, value@));
    }

    pub fn get(&self, name: &str) -> (r: Option<&String>)
        ensures
            opt_str(r) == param(self@, name@),
    {
        let ghost all = entries_val(self.entries@);
        let mut i: usize = self.entries.len();
        while i > 0
            invariant
                i <= self.entries.len(),
                all == entries_val(self.entries@),
                forall|j: int| i <= j < all.len() ==> (#[trigger] all[j]).0 != name@,
            decreases i,
        {
            i = i - 1;
            assert(all[i as int] == (self.entries@[i as int].0@, self.entries@[i as int].1@));
            if same(self.entries[i].0.as_str(), name) {
                proof {
                    lemma_params_last(all, i + 1, name@);
                    assert(all.take(i + 1).last() == all[i as int]);
                }
                return Some(&self.entries[i].1);
            }
        }
        proof {
            lemma_params_last(all, 0, name@);
            assert(all.take(0) =~= Seq::empty());
        }
        None
    }
}

/// The parameters in the pieces of a query.
pub open spec fn query_of(pieces: Seq<Seq<char>>) -> Map<Seq<char>, Seq<char>>
    decreases pieces.len(),
{
    if pieces.len() == 0 {
        Map::empty()
    } else {
        let before = query_of(pieces.drop_last());
        let p = pieces.last();
        if p.len() == 0 {
            before
        } else {
            before.insert(url_text(cut(p, '=').0), url_text(cut(p, '=').1))
        }
    }
}

/// Reads a query: names and values between `&`, each undone; the last of several
/// values of a name counts.
pub fn parse_query(query: &str) -> (q: Query)
    ensures
        q@ == query_of(text::split(query@, '&')),
{
    let pieces: Vec<String> = split_at_char(query, '&');
    let ghost all = text::texts(pieces@);
    let mut q = Query::new();
    let mut i: usize = 0;
    assert(query_of(all.take(0)) =~= Map::<Seq<char>, Seq<char>>::empty());
    while i < pieces.len()
        invariant
            i <= pieces.len(),
            all == text::texts(pieces@),
            q@ == query_of(all.take(i as int)),
        decreases pieces.len() - i,
    {
        assert(all.take(i + 1).drop_last() =~= all.take(i as int));
        assert(all.take(i + 1).last() == pieces@[i as int]@);
        if !text::is_blank(pieces[i].as_str()) {
            let (k, v) = split_once(pieces[i].as_str(), '=');
            q.insert(url_decode(k.as_str()), url_decode(v.as_str()));
        }
        i = i + 1;
    }
    assert(all.take(i as int) =~= all);
    q
}

/// The digits behind `0x`, where that stands first.
pub open spec fn hex_digits(s: Seq<char>) -> Option<Seq<char>> {
    if s.len() >= 2 && s[0] == '0' && (s[1] == 'x' || s[1] == 'X') {
        Some(s.skip(2))
    } else {
        None
    }
}

/// A number, hexadecimal behind `0x`, decimal otherwise, with white space around
/// it.
pub open spec fn number_of(s: Seq<char>) -> Option<nat> {
    bare_number_of(text::trimmed(s))
}

/// A number with nothing around it.
pub open spec fn bare_number_of(s: Seq<char>) -> Option<nat> {
    match hex_digits(s) {
        Some(h) => text::unsigned_of(h, 16),
        None => text::unsigned_of(s, 10),
    }
}

pub open spec fn signed_number_of(s: Seq<char>) -> Option<int> {
    match hex_digits(text::trimmed(s)) {
        Some(h) => text::signed_of(h, 16),
        None => text::signed_of(text::trimmed(s), 10),
    }
}

/// A number that an answer holds, in hexadecimal or in decimal, is read back
/// from a query.
pub proof fn law_number_round_trip(n: u64, v: i64)
    ensures
        number_of(text::hex_text(n as nat)) == Some(n as nat),
        number_of(text::decimal_text(n as int)) == Some(n as nat),
        signed_number_of(text::decimal_text(v as int)) == Some(v as int),
{
    text::law_numeral(n as nat, 16);
    text::law_numeral(n as nat, 10);
    let h = text::hex_text(n as nat);
    let hex = text::numeral(n as nat, 16);
    assert(h.last() == hex.last());
    text::lemma_untrimmed(h);
    assert(h.skip(2) =~= hex);
    assert(text::digit_value(hex[0]) is Some);
    let d = text::decimal_text(n as int);
    assert(text::digit_value(d[0]) is Some);
    text::lemma_untrimmed(d);
    if d.len() >= 2 {
        assert(text::digit_value(d[1]) is Some);
    }
    let k = (if v < 0 {
        -(v as int)
    } else {
        v as int
    }) as nat;
    text::law_numeral(k, 10);
    let u = text::numeral(k, 10);
    let s = text::decimal_text(v as int);
    assert(s.last() == u.last());
    text::lemma_untrimmed(s);
    assert(text::digit_value(u[0]) is Some);
    if v < 0 {
        assert(s.skip(1) =~= u);
    } else if s.len() >= 2 {
        assert(text::digit_value(u[1]) is Some);
    }
}

/// A number is read whatever the case of each of its digits is, and with white
/// space around it.
pub proof fn law_number_forms(
    n: u64,
    v: i64,
    x: char,
    big: spec_fn(int) -> bool,
    before: Seq<char>,
    after: Seq<char>,
)
    requires
        x == 'x' || x == 'X',
        forall|i: int| 0 <= i < before.len() ==> text::white(#[trigger] before[i]),
        forall|i: int| 0 <= i < after.len() ==> text::white(#[trigger] after[i]),
    ensures
        number_of(before + (seq!['0', x] + text::cased(text::numeral(n as nat, 16), big)) + after)
            == Some(n as nat),
        number_of(before + text::decimal_text(n as int) + after) == Some(n as nat),
        signed_number_of(before + text::decimal_text(v as int) + after) == Some(v as int),
{
    law_number_round_trip(n, v);
    text::law_numeral(n as nat, 16);
    text::law_numeral(n as nat, 10);
    let hex = text::numeral(n as nat, 16);
    let digits = text::cased(hex, big);
    text::law_case_is_free(hex, 16, big);
    assert(digits.len() == hex.len());
    assert(text::digit_value(hex[0]) is Some);
    assert(text::digit_value(hex.last()) is Some);
    assert(digits[0] == hex[0] || digits[0] == text::raised(hex[0]));
    assert(digits.last() == hex.last() || digits.last() == text::raised(hex.last()));
    let h = seq!['0', x] + digits;
    assert(h.last() == digits.last());
    text::law_padding_trimmed(before, h, after);
    assert(h.skip(2) =~= digits);
    let d = text::decimal_text(n as int);
    assert(text::digit_value(d[0]) is Some && text::digit_value(d.last()) is Some);
    text::lemma_untrimmed(d);
    text::law_padding_trimmed(before, d, after);
    let k = (if v < 0 {
        -(v as int)
    } else {
        v as int
    }) as nat;
    text::law_numeral(k, 10);
    let u = text::numeral(k, 10);
    let s = text::decimal_text(v as int);
    assert(s.last() == u.last());
    assert(text::digit_value(u.last()) is Some && text::digit_value(u[0]) is Some);
    text::lemma_untrimmed(s);
    text::law_padding_trimmed(before, s, after);
}

pub open spec fn opt_nat(r: Option<u64>) -> Option<nat> {
    match r {
        Some(v) => Some(v as nat),
        None => None,
    }
}

pub fn parse_usize(s: &str) -> (r: Option<u64>)
    ensures
        opt_nat(r) == number_of(s@),
{
    let v = trim(s);
    parse_chars(&v)
}

fn parse_chars(v: &Vec<char>) -> (r: Option<u64>)
    ensures
        opt_nat(r) == bare_number_of(v@),
{
    if v.len() >= 2 && v[0] == '0' && (v[1] == 'x' || v[1] == 'X') {
        parse_unsigned(v, 2, 16)
    } else {
        assert(v@.skip(0) =~= v@);
        parse_unsigned(v, 0, 10)
    }
}

pub fn parse_i64(s: &str) -> (r: Option<i64>)
    ensures
        r matches Some(v) ==> signed_number_of(s@) == Some(v as int),
        r is None ==> signed_number_of(s@) is None,
{
    let v = trim(s);
    if v.len() >= 2 && v[0] == '0' && (v[1] == 'x' || v[1] == 'X') {
        parse_signed(&v, 2, 16)
    } else {
        assert(v@.skip(0) =~= v@);
        parse_signed(&v, 0, 10)
    }
}

// ── JSON ─────────────────────────────────────────────────────────────────────

/// A character as it stands in a JSON string.
pub open spec fn escaped_char(c: char) -> Seq<char> {
    if c == '"' {
        seq!['\\', '"']
    } else if c == '\\' {
        seq!['\\', '\\']
    } else if c == '\n' {
        seq!['\\', 'n']
    } else if c == '\r' {
        seq!['\\', 'r']
    } else if c == '\t' {
        seq!['\\', 't']
    } else if (c as u32) < 0x20 {
        seq![
            '\\',
            'u',
            '0',
            '0',
            text::digit((c as u32 / 16) as nat),
            text::digit((c as u32 % 16) as nat),
        ]
    } else {
        seq![c]
    }
}

pub open spec fn escaped(s: Seq<char>) -> Seq<char>
    decreases s.len(),
{
    if s.len() == 0 {
        Seq::empty()
    } else {
        escaped(s.drop_last()) + escaped_char(s.last())
    }
}

/// A JSON string.
pub open spec fn json_text(s: Seq<char>) -> Seq<char> {
    seq!['"'] + escaped(s) + seq!['"']
}

fn push_escaped(out: &mut String, c: char)
    ensures
        final(out)@ == old(out)@ + escaped_char(c),
{
    if c == '"' {
        out.push('\\');
        out.push('"');
    } else if c == '\\' {
        out.push('\\');
        out.push('\\');
    } else if c == '\n' {
        out.push('\\');
        out.push('n');
    } else if c == '\r' {
        out.push('\\');
        out.push('r');
    } else if c == '\t' {
        out.push('\\');
        out.push('t');
    } else if (c as u32) < 0x20 {
        let n: u8 = c as u8;
        out.push('\\');
        out.push('u');
        out.push('0');
        out.push('0');
        out.push(digit_char(n / 16));
        out.push(digit_char(n % 16));
    } else {
        out.push(c);
    }
    assert(out@ =~= old(out)@ + escaped_char(c));
}

/// A JSON string: quoted, with quotes, backslashes and control characters
/// escaped.
pub fn jstr(s: &str) -> (out: String)
    ensures
        out@ == json_text(s@),
{
    let v = chars_of(s);
    let mut out = String::new();
    out.push('"');
    let mut i: usize = 0;
    assert(out@ =~= seq!['"'] + escaped(s@.take(0)));
    while i < v.len()
        invariant
            i <= v.len(),
            v@ == s@,
            out@ == seq!['"'] + escaped(s@.take(i as int)),
        decreases v.len() - i,
    {
        assert(s@.take(i + 1).drop_last() =~= s@.take(i as int));
        let ghost o = out@;
        push_escaped(&mut out, v[i]);
        assert(out@ =~= seq!['"'] + (escaped(s@.take(i as int)) + escaped_char(s@[i as int])));
        i = i + 1;
    }
    assert(s@.take(i as int) =~= s@);
    out.push('"');
    assert(out@ =~= json_text(s@));
    out
}

/// Appends a text as a JSON string.
fn push_json(out: &mut String, s: &str)
    ensures
        final(out)@ == old(out)@ + json_text(s@),
{
    let j = jstr(s);
    out.append(j.as_str());
}

/// What the inside of a JSON string stands for; none where it is no such thing.
pub open spec fn json_value(t: Seq<char>) -> Option<Seq<char>>
    decreases t.len(),
{
    if t.len() == 0 {
        Some(Seq::empty())
    } else if t[0] == '\\' {
        if t.len() >= 2 && (t[1] == '"' || t[1] == '\\') {
            with_front(t[1], json_value(t.skip(2)))
        } else if t.len() >= 2 && t[1] == 'n' {
            with_front('\n', json_value(t.skip(2)))
        } else if t.len() >= 2 && t[1] == 'r' {
            with_front('\r', json_value(t.skip(2)))
        } else if t.len() >= 2 && t[1] == 't' {
            with_front('\t', json_value(t.skip(2)))
        } else if t.len() >= 6 && t[1] == 'u' && text::value_of(t.subrange(2, 6), 16) is Some {
            with_front(
                (text::value_of(t.subrange(2, 6), 16)->0) as u32 as char,
                json_value(t.skip(6)),
            )
        } else {
            None
        }
    } else if t[0] == '"' || (t[0] as u32) < 0x20 {
        None
    } else {
        with_front(t[0], json_value(t.skip(1)))
    }
}

pub open spec fn with_front(c: char, rest: Option<Seq<char>>) -> Option<Seq<char>> {
    match rest {
        Some(r) => Some(seq![c] + r),
        None => None,
    }
}

proof fn lemma_escaped_front(s: Seq<char>)
    requires
        s.len() > 0,
    ensures
        escaped(s) == escaped_char(s[0]) + escaped(s.skip(1)),
    decreases s.len(),
{
    if s.len() == 1 {
        assert(s.drop_last() =~= Seq::empty());
        assert(s.skip(1) =~= Seq::empty());
        assert(escaped_char(s[0]) + Seq::<char>::empty() =~= Seq::<char>::empty() + escaped_char(
            s[0],
        ));
    } else {
        lemma_escaped_front(s.drop_last());
        assert(s.drop_last().skip(1) =~= s.skip(1).drop_last());
        assert(escaped_char(s[0]) + escaped(s.skip(1).drop_last()) + escaped_char(s.last())
            =~= escaped_char(s[0]) + (escaped(s.skip(1).drop_last()) + escaped_char(s.last())));
    }
}

proof fn lemma_control_char(c: char, t: Seq<char>)
    requires
        (c as u32) < 0x20,
        t == seq!['0', '0', text::digit((c as u32 / 16) as nat), text::digit((c as u32 % 16) as nat)],
    ensures
        text::value_of(t, 16) == Some(c as u32 as nat),
{
    let hi = (c as u32 / 16) as nat;
    let lo = (c as u32 % 16) as nat;
    assert(text::digit_value(text::digit(hi)) == Some(hi));
    assert(text::digit_value(text::digit(lo)) == Some(lo));
    assert(text::digit_value('0') == Some(0nat));
    assert(t.drop_last() =~= seq!['0', '0', text::digit(hi)]);
    assert(t.drop_last().drop_last() =~= seq!['0', '0']);
    assert(t.drop_last().drop_last().drop_last() =~= seq!['0']);
    assert(t.drop_last().drop_last().drop_last().drop_last() =~= Seq::empty());
    reveal_with_fuel(text::value_of, 6);
}

/// A JSON string stands for the text that it was made of.
pub proof fn law_json_round_trip(s: Seq<char>)
    ensures
        json_value(escaped(s)) == Some(s),
    decreases s.len(),
{
    if s.len() > 0 {
        law_json_round_trip(s.skip(1));
        lemma_escaped_front(s);
        let c = s[0];
        let e = escaped_char(c);
        let rest = escaped(s.skip(1));
        let t = e + rest;
        assert(seq![c] + s.skip(1) =~= s);
        assert(t.skip(e.len() as int) =~= rest);
        if (c as u32) < 0x20 && c != '\n' && c != '\r' && c != '\t' {
            assert(t.subrange(2, 6) =~= seq![
                '0',
                '0',
                text::digit((c as u32 / 16) as nat),
                text::digit((c as u32 % 16) as nat),
            ]);
            lemma_control_char(c, t.subrange(2, 6));
            assert(t[0] == '\\' && t[1] == 'u');
            vstd::utf8::char_u32_cast(c, c as u32);
            assert((c as u32 as nat) as u32 as char == c);
            assert(json_value(t) == Some(s));
        } else if e.len() == 2 {
            assert(t[0] == '\\' && t[1] == e[1]);
            assert(json_value(t) == Some(s));
        } else {
            assert(t[0] == c);
            assert(json_value(t) == Some(s));
        }
    } else {
        assert(s =~= Seq::empty());
    }
}

// ── answers ──────────────────────────────────────────────────────────────────

/// An answer as texts: status, type and body.
pub open spec fn answer(r: (&'static str, &'static str, String)) -> (Seq<char>, Seq<char>, Seq<char>) {
    (r.0@, r.1@, r.2@)
}

pub open spec fn ok_answer(body: Seq<char>) -> (Seq<char>, Seq<char>, Seq<char>) {
    ("200 OK"@, "application/json"@, body)
}

pub open spec fn err_answer(msg: Seq<char>) -> (Seq<char>, Seq<char>, Seq<char>) {
    ("400 Bad Request"@, "application/json"@, "{\"error\":"@ + json_text(msg) + "}"@)
}

pub fn ok(body: String) -> (r: (&'static str, &'static str, String))
    ensures
        answer(r) == ok_answer(body@),
{
    ("200 OK", "application/json", body)
}

pub fn err(msg: &str) -> (r: (&'static str, &'static str, String))
    ensures
        answer(r) == err_answer(msg@),
{
    let mut s = copy_of("{\"error\":");
    push_json(&mut s, msg);
    s.append("}");
    ("400 Bad Request", "application/json", s)
}

/// What a path asks for.
#[derive(Copy, Clone, PartialEq, Eq, Debug, Structural)]
pub enum Endpoint {
    Help,
    Status,
    Module,
    Class,
    Fields,
    Methods,
    Read,
    Chain,
    Scan,
    GameWorld,
    Players,
    Chams,
    Raid,
    Stamina,
    Speed,
    Menu,
    Unknown,
}

pub open spec fn endpoint_of(path: Seq<char>) -> Endpoint {
    if path == "/"@ {
        Endpoint::Help
    } else if path == "/status"@ {
        Endpoint::Status
    } else if path == "/module"@ {
        Endpoint::Module
    } else if path == "/class"@ {
        Endpoint::Class
    } else if path == "/fields"@ {
        Endpoint::Fields
    } else if path == "/methods"@ {
        Endpoint::Methods
    } else if path == "/read"@ {
        Endpoint::Read
    } else if path == "/chain"@ {
        Endpoint::Chain
    } else if path == "/scan"@ {
        Endpoint::Scan
    } else if path == "/gameworld"@ {
        Endpoint::GameWorld
    } else if path == "/players"@ {
        Endpoint::Players
    } else if path == "/chams"@ {
        Endpoint::Chams
    } else if path == "/raid"@ {
        Endpoint::Raid
    } else if path == "/stamina"@ {
        Endpoint::Stamina
    } else if path == "/speed"@ {
        Endpoint::Speed
    } else if path == "/menu"@ {
        Endpoint::Menu
    } else {
        Endpoint::Unknown
    }
}

pub fn route(path: &str) -> (r: Endpoint)
    ensures
        r == endpoint_of(path@),
{
    if same(path, "/") {
        Endpoint::Help
    } else if same(path, "/status") {
        Endpoint::Status
    } else if same(path, "/module") {
        Endpoint::Module
    } else if same(path, "/class") {
        Endpoint::Class
    } else if same(path, "/fields") {
        Endpoint::Fields
    } else if same(path, "/methods") {
        Endpoint::Methods
    } else if same(path, "/read") {
        Endpoint::Read
    } else if same(path, "/chain") {
        Endpoint::Chain
    } else if same(path, "/scan") {
        Endpoint::Scan
    } else if same(path, "/gameworld") {
        Endpoint::GameWorld
    } else if same(path, "/players") {
        Endpoint::Players
    } else if same(path, "/chams") {
        Endpoint::Chams
    } else if same(path, "/raid") {
        Endpoint::Raid
    } else if same(path, "/stamina") {
        Endpoint::Stamina
    } else if same(path, "/speed") {
        Endpoint::Speed
    } else if same(path, "/menu") {
        Endpoint::Menu
    } else {
        Endpoint::Unknown
    }
}

pub const HELP_TITLE: &'static str = "eftTrainer HTTP control\n";

pub const HELP: &'static str = "/status\n\
/module?name=GameAssembly.dll\n\
/class?asm=Assembly-CSharp&ns=EFT&name=Player\n\
/fields?asm=Assembly-CSharp&ns=EFT&name=Player[&q=substr]\n\
/methods?asm=UnityEngine.CoreModule&ns=UnityEngine&name=Renderer[&q=substr]\n\
  (class=0x.. may replace asm/ns/name)\n\
/read?addr=0x..&len=64\n\
/chain?addr=0x..&path=0x230,0x9d8,0x68\n\
/scan?hex=DEADBEEF | i32= | u32= | i64= | u64= | f32= | f64= | str= | utf16=\n\
      [&mod=GameAssembly.dll | &start=0x..&end=0x..][&max=64]\n\
/gameworld                     live GameWorld pointer (main-thread captured)\n\
/players                       live player pointers from GameWorld\n\
/chams?on=1 | on=0 | scheme=2 | style=flat|glow|mesh\n\
/raid?on=1                     enable framework; returns players (local/bot/pos/screen/dist)\n\
/stamina?on=1 | on=0           infinite stamina\n\
/speed?on=1&mult=1.3           speedhack toggle + multiplier (1.0-1.4)\n\
/menu?visible=1 | visible=0     show/hide the overlay (drives the same toggle as INSERT)\n\
numbers accept 0x-hex or decimal\n";

pub fn ep_help() -> (r: (&'static str, &'static str, String))
    ensures
        answer(r) == ("200 OK"@, "text/plain; charset=utf-8"@, HELP_TITLE@ + HELP@),
{
    let mut s = copy_of(HELP_TITLE);
    s.append(HELP);
    ("200 OK", "text/plain; charset=utf-8", s)
}

pub fn ep_unknown() -> (r: (&'static str, &'static str, String))
    ensures
        answer(r) == err_answer("unknown endpoint (GET / for help)"@),
{
    err("unknown endpoint (GET / for help)")
}

// ── status and modules ───────────────────────────────────────────────────────

/// An address in quotes.
pub open spec fn quoted_hex(n: nat) -> Seq<char> {
    "\""@ + text::hex_text(n) + "\""@
}

fn push_quoted_hex(s: &mut String, n: u64)
    ensures
        final(s)@ == old(s)@ + quoted_hex(n as nat),
{
    s.append("\"");
    push_hex(s, n);
    s.append("\"");
    assert(s@ =~= old(s)@ + quoted_hex(n as nat));
}

/// Where a module lies.
pub open spec fn module_json(m: Option<(u64, u64)>) -> Seq<char> {
    match m {
        Some(b) => "{\"base\":"@ + quoted_hex(b.0 as nat) + ",\"end\":"@ + quoted_hex(b.1 as nat)
            + "}"@,
        None => "null"@,
    }
}

fn push_module(s: &mut String, m: Option<(u64, u64)>)
    ensures
        final(s)@ == old(s)@ + module_json(m),
{
    let ghost o = s@;
    match m {
        Some(b) => {
            s.append("{\"base\":");
            push_quoted_hex(s, b.0);
            s.append(",\"end\":");
            push_quoted_hex(s, b.1);
            s.append("}");
            assert(s@ =~= o + module_json(m));
        },
        None => {
            s.append("null");
        },
    }
}

pub open spec fn backend_text(b: Option<Backend>) -> Seq<char> {
    match b {
        Some(Backend::Mono) => "Mono"@,
        Some(Backend::Il2Cpp) => "IL2CPP"@,
        None => "none"@,
    }
}

pub open spec fn average(m: Menu) -> int {
    if m.frames == 0 {
        m.total_us as int
    } else {
        (m.total_us / m.frames) as int
    }
}

/// The overlay's part of the status.
pub open spec fn menu_json(m: Menu, p: Pointer) -> Seq<char> {
    "{\"visible\":"@ + text::bool_text(m.visible) + ",\"frames\":"@ + text::decimal_text(
        m.frames as int,
    ) + ",\"fps\":"@ + text::decimal_text(m.fps as int) + ",\"cursor\":["@ + text::decimal_text(
        p.x as int,
    ) + ","@ + text::decimal_text(p.y as int) + "],\"onframe_us\":{\"last\":"@ + text::decimal_text(
        m.last_us as int,
    ) + ",\"max\":"@ + text::decimal_text(m.max_us as int) + ",\"avg\":"@ + text::decimal_text(
        average(m),
    ) + "}}"@
}

fn menu_status(m: &Menu, p: &Pointer) -> (s: String)
    ensures
        s@ == menu_json(*m, *p),
{
    let (last, max, avg): (u64, u64, u64) = menu::onframe_us(m);
    let (x, y): (i32, i32) = menu::cursor(p);
    let mut s = copy_of("{\"visible\":");
    push_bool(&mut s, menu::is_visible(m));
    s.append(",\"frames\":");
    push_decimal(&mut s, menu::frame_count(m));
    s.append(",\"fps\":");
    push_decimal(&mut s, menu::fps(m) as u64);
    s.append(",\"cursor\":[");
    push_signed(&mut s, x as i64);
    s.append(",");
    push_signed(&mut s, y as i64);
    s.append("],\"onframe_us\":{\"last\":");
    push_decimal(&mut s, last);
    s.append(",\"max\":");
    push_decimal(&mut s, max);
    s.append(",\"avg\":");
    push_decimal(&mut s, avg);
    s.append("}}");
    s
}

/// The state of the chams.
pub open spec fn chams_json(c: Chams) -> Seq<char> {
    "{\"on\":"@ + text::bool_text(c.enabled) + ",\"scheme\":"@ + text::decimal_text(
        c.scheme as int,
    ) + ",\"name\":"@ + json_text(chams::scheme_text(c.scheme)) + ",\"count\":"@
        + text::decimal_text(chams::SCHEMES as int) + ",\"style\":"@ + json_text(
        chams::style_text(c.style),
    ) + "}"@
}

fn chams_status(c: &Chams) -> (s: String)
    requires
        c.wf(),
    ensures
        s@ == chams_json(*c),
{
    let (on, scheme, name, count, style): (bool, usize, &'static str, usize, &'static str) =
        chams::status(c);
    let mut s = copy_of("{\"on\":");
    push_bool(&mut s, on);
    s.append(",\"scheme\":");
    push_decimal(&mut s, scheme as u64);
    s.append(",\"name\":");
    push_json(&mut s, name);
    s.append(",\"count\":");
    push_decimal(&mut s, count as u64);
    s.append(",\"style\":");
    push_json(&mut s, style);
    s.append("}");
    s
}

pub open spec fn status_json(
    backend: Option<Backend>,
    domain: u64,
    game: Option<(u64, u64)>,
    player: Option<(u64, u64)>,
    m: Menu,
    p: Pointer,
    c: Chams,
) -> Seq<char> {
    "{\"backend\":"@ + json_text(backend_text(backend)) + ",\"domain\":"@ + quoted_hex(
        domain as nat,
    ) + ",\"gameassembly\":"@ + module_json(game) + ",\"unityplayer\":"@ + module_json(player)
        + ",\"menu\":"@ + menu_json(m, p) + ",\"chams\":"@ + chams_json(c) + "}"@
}

/// The state of everything; where the two modules lie is handed in.
pub fn ep_status(
    backend: Option<Backend>,
    domain: u64,
    game: Option<(u64, u64)>,
    player: Option<(u64, u64)>,
    m: &Menu,
    p: &Pointer,
    c: &Chams,
) -> (r: (&'static str, &'static str, String))
    requires
        c.wf(),
    ensures
        answer(r) == ok_answer(status_json(backend, domain, game, player, *m, *p, *c)),
{
    let name: &'static str = match backend {
        Some(b) => b.name(),
        None => "none",
    };
    let mut s = copy_of("{\"backend\":");
    push_json(&mut s, name);
    s.append(",\"domain\":");
    push_quoted_hex(&mut s, domain);
    s.append(",\"gameassembly\":");
    push_module(&mut s, game);
    s.append(",\"unityplayer\":");
    push_module(&mut s, player);
    s.append(",\"menu\":");
    s.append(menu_status(m, p).as_str());
    s.append(",\"chams\":");
    s.append(chams_status(c).as_str());
    s.append("}");
    ok(s)
}

pub open spec fn module_answer(q: Map<Seq<char>, Seq<char>>, bounds: Option<(u64, u64)>) -> (
    Seq<char>,
    Seq<char>,
    Seq<char>,
) {
    match (param(q, "name"@), bounds) {
        (None, _) => err_answer("need name="@),
        (Some(_), None) => err_answer("module not loaded"@),
        (Some(name), Some(b)) => ok_answer(
            "{\"name\":"@ + json_text(name) + ",\"base\":"@ + quoted_hex(b.0 as nat)
                + ",\"end\":"@ + quoted_hex(b.1 as nat) + ",\"size\":"@ + text::decimal_text(
                b.1 - b.0,
            ) + "}"@,
        ),
    }
}

/// Where a module lies; `bounds` are those of the module that the query names.
pub fn ep_module(q: &Query, bounds: Option<(u64, u64)>) -> (r: (&'static str, &'static str, String))
    requires
        bounds matches Some(b) ==> b.0 <= b.1,
    ensures
        answer(r) == module_answer(q@, bounds),
{
    let name: &String = match q.get("name") {
        Some(n) => n,
        None => {
            return err("need name=");
        },
    };
    match bounds {
        Some(b) => {
            let mut s = copy_of("{\"name\":");
            push_json(&mut s, name.as_str());
            s.append(",\"base\":");
            push_quoted_hex(&mut s, b.0);
            s.append(",\"end\":");
            push_quoted_hex(&mut s, b.1);
            s.append(",\"size\":");
            push_decimal(&mut s, b.1 - b.0);
            s.append("}");
            ok(s)
        },
        None => err("module not loaded"),
    }
}

// ── classes ──────────────────────────────────────────────────────────────────

/// The number in a parameter.
pub open spec fn number_in(q: Map<Seq<char>, Seq<char>>, name: Seq<char>) -> Option<nat> {
    match param(q, name) {
        Some(s) => number_of(s),
        None => None,
    }
}

fn number_param(q: &Query, name: &str) -> (r: Option<u64>)
    ensures
        opt_nat(r) == number_in(q@, name@),
{
    match q.get(name) {
        Some(s) => parse_usize(s.as_str()),
        None => None,
    }
}

/// The class that a query asks for: by address, or by assembly, namespace and
/// name.
pub open spec fn class_asked<R: ScriptRuntime>(rt: &R, q: Map<Seq<char>, Seq<char>>) -> Result<
    Class,
    Seq<char>,
> {
    match number_in(q, "class"@) {
        Some(p) => Ok(Class(p as u64)),
        None => match (param(q, "asm"@), param(q, "name"@)) {
            (None, _) => Err("need asm= or class="@),
            (Some(_), None) => Err("need name= or class="@),
            (Some(a), Some(name)) => {
                let ns = match param(q, "ns"@) {
                    Some(ns) => ns,
                    None => ""@,
                };
                match rt.image_of(a) {
                    Some(image) => match rt.class_of(image, ns, name) {
                        Some(c) => Ok(c),
                        None => Err("class not found: "@ + ns + "."@ + name),
                    },
                    None => Err("assembly not found: "@ + a),
                }
            },
        },
    }
}

pub open spec fn result_val(r: Result<Class, String>) -> Result<Class, Seq<char>> {
    match r {
        Ok(c) => Ok(c),
        Err(e) => Err(e@),
    }
}

pub fn resolve_class<R: ScriptRuntime>(rt: &R, q: &Query) -> (r: Result<Class, String>)
    requires
        rt.ready(),
    ensures
        result_val(r) == class_asked(rt, q@),
{
    match number_param(q, "class") {
        Some(p) => {
            return Ok(Class(p));
        },
        None => {},
    }
    let a: &String = match q.get("asm") {
        Some(s) => s,
        None => {
            return Err(copy_of("need asm= or class="));
        },
    };
    let name: &String = match q.get("name") {
        Some(s) => s,
        None => {
            return Err(copy_of("need name= or class="));
        },
    };
    let ns: &str = match q.get("ns") {
        Some(s) => s.as_str(),
        None => "",
    };
    match rt.image(a.as_str()) {
        Some(image) => match rt.class(image, ns, name.as_str()) {
            Some(c) => Ok(c),
            None => {
                let mut e = copy_of("class not found: ");
                e.append(ns);
                e.append(".");
                e.append(name.as_str());
                Err(e)
            },
        },
        None => {
            let mut e = copy_of("assembly not found: ");
            e.append(a.as_str());
            Err(e)
        },
    }
}

pub open spec fn class_json(rt: Il2CppRuntime<'_>, c: Class) -> Seq<char> {
    let m = rt.mem@;
    let n = il2cpp_runtime::DUMP_DEPTH as nat;
    "{\"ptr\":"@ + quoted_hex(c.0 as nat) + ",\"name\":"@ + json_text(
        il2cpp_runtime::text_or_empty(m, c.0 + rt.l.c_name),
    ) + ",\"fields\":"@ + text::decimal_text(
        il2cpp_runtime::all_fields(m, rt.l, c.0 as int, n).len() as int,
    ) + ",\"methods\":"@ + text::decimal_text(
        il2cpp_runtime::all_methods(m, rt.l, c.0 as int, n).len() as int,
    ) + "}"@
}

pub open spec fn class_answer(rt: Option<&Il2CppRuntime<'_>>, q: Map<Seq<char>, Seq<char>>) -> (
    Seq<char>,
    Seq<char>,
    Seq<char>,
) {
    match rt {
        None => err_answer("runtime not ready"@),
        Some(x) => match class_asked(x, q) {
            Ok(c) => ok_answer(class_json(*x, c)),
            Err(e) => err_answer(e),
        },
    }
}

/// A class: its address, its name, and how many fields and methods it has.
pub fn ep_class(rt: Option<&Il2CppRuntime<'_>>, q: &Query) -> (r: (
    &'static str,
    &'static str,
    String,
))
    requires
        rt matches Some(x) ==> x.wf(),
    ensures
        answer(r) == class_answer(rt, q@),
{
    let rt: &Il2CppRuntime<'_> = match rt {
        Some(x) => x,
        None => {
            return err("runtime not ready");
        },
    };
    let c: Class = match resolve_class(rt, q) {
        Ok(c) => c,
        Err(e) => {
            return err(e.as_str());
        },
    };
    let fields = rt.dump_fields(c);
    let methods = rt.dump_methods(c);
    let mut s = copy_of("{\"ptr\":");
    push_quoted_hex(&mut s, c.0);
    s.append(",\"name\":");
    push_json(&mut s, rt.class_name(c).as_str());
    s.append(",\"fields\":");
    push_decimal(&mut s, fields.len() as u64);
    s.append(",\"methods\":");
    push_decimal(&mut s, methods.len() as u64);
    s.append("}");
    proof {
        let m = rt.mem@;
        let n = il2cpp_runtime::DUMP_DEPTH as nat;
        assert(fields@.len() == il2cpp_runtime::fields_val(fields@).len());
        assert(methods@.len() == il2cpp_runtime::methods_val(methods@).len());
        assert(s@ =~= class_json(*rt, c));
    }
    ok(s)
}

/// A name passes a filter, both in lower case: it contains it.
pub open spec fn passes(lower: Seq<char>, filter: Option<Seq<char>>) -> bool {
    match filter {
        Some(f) => text::contains_text(lower, f),
        None => true,
    }
}

/// Whether a name in lower case passes a filter in lower case.
pub fn name_passes(lower: &str, filter: &Option<String>) -> (r: bool)
    ensures
        r == passes(lower@, crate::il2cpp::opt_text(*filter)),
{
    match filter {
        Some(f) => has_text(lower, f.as_str()),
        None => true,
    }
}

/// The filter of a query, in lower case.
pub open spec fn filter_in(q: Map<Seq<char>, Seq<char>>) -> Option<Seq<char>> {
    match param(q, "q"@) {
        Some(s) => Some(text::lowercase(s)),
        None => None,
    }
}

fn filter_param(q: &Query) -> (r: Option<String>)
    ensures
        crate::il2cpp::opt_text(r) == filter_in(q@),
{
    match q.get("q") {
        Some(s) => Some(to_lower(s.as_str())),
        None => None,
    }
}

/// One field.
pub open spec fn field_json(f: (Seq<char>, int)) -> Seq<char> {
    "{\"name\":"@ + json_text(f.0) + ",\"offset\":"@ + text::decimal_text(f.1)
        + ",\"offset_hex\":"@ + quoted_hex(text::bits32(f.1)) + "}"@
}

/// One field, as it is listed.
pub fn field_item(name: &str, off: i32) -> (s: String)
    ensures
        s@ == field_json((name@, off as int)),
{
    let mut s = copy_of("{\"name\":");
    push_json(&mut s, name);
    s.append(",\"offset\":");
    push_signed(&mut s, off as i64);
    s.append(",\"offset_hex\":");
    push_quoted_hex(&mut s, low32(off));
    s.append("}");
    s
}

/// The fields that pass a filter.
pub open spec fn fields_json(fs: Seq<(Seq<char>, int)>, filter: Option<Seq<char>>) -> Seq<Seq<char>>
    decreases fs.len(),
{
    if fs.len() == 0 {
        Seq::empty()
    } else {
        let before = fields_json(fs.drop_last(), filter);
        if passes(text::lowercase(fs.last().0), filter) {
            before.push(field_json(fs.last()))
        } else {
            before
        }
    }
}

/// A list.
pub open spec fn list_json(items: Seq<Seq<char>>) -> Seq<char> {
    "["@ + text::join(items, ","@) + "]"@
}

fn list_of(items: &Vec<String>) -> (s: String)
    ensures
        s@ == list_json(text::texts(items@)),
{
    let mut s = copy_of("[");
    s.append(join_from(items, 0, ",").as_str());
    s.append("]");
    assert(text::texts(items@).skip(0) =~= text::texts(items@));
    s
}

pub open spec fn fields_answer(rt: Option<&Il2CppRuntime<'_>>, q: Map<Seq<char>, Seq<char>>) -> (
    Seq<char>,
    Seq<char>,
    Seq<char>,
) {
    match rt {
        None => err_answer("runtime not ready"@),
        Some(x) => match class_asked(x, q) {
            Ok(c) => ok_answer(
                list_json(
                    fields_json(
                        il2cpp_runtime::all_fields(
                            x.mem@,
                            x.l,
                            c.0 as int,
                            il2cpp_runtime::DUMP_DEPTH as nat,
                        ),
                        filter_in(q),
                    ),
                ),
            ),
            Err(e) => err_answer(e),
        },
    }
}

/// The fields of a class and of its base classes, those whose name contains the
/// filter in either case.
pub fn ep_fields(rt: Option<&Il2CppRuntime<'_>>, q: &Query) -> (r: (
    &'static str,
    &'static str,
    String,
))
    requires
        rt matches Some(x) ==> x.wf(),
    ensures
        answer(r) == fields_answer(rt, q@),
{
    let rt: &Il2CppRuntime<'_> = match rt {
        Some(x) => x,
        None => {
            return err("runtime not ready");
        },
    };
    let c: Class = match resolve_class(rt, q) {
        Ok(c) => c,
        Err(e) => {
            return err(e.as_str());
        },
    };
    let filter: Option<String> = filter_param(q);
    let fields: Vec<(String, i32)> = rt.dump_fields(c);
    let ghost all = il2cpp_runtime::fields_val(fields@);
    let ghost flt = filter_in(q@);
    let mut items: Vec<String> = Vec::new();
    let mut i: usize = 0;
    assert(text::texts(items@) =~= fields_json(all.take(0), flt));
    while i < fields.len()
        invariant
            i <= fields.len(),
            all == il2cpp_runtime::fields_val(fields@),
            crate::il2cpp::opt_text(filter) == flt,
            text::texts(items@) == fields_json(all.take(i as int), flt),
        decreases fields.len() - i,
    {
        assert(all.take(i + 1).drop_last() =~= all.take(i as int));
        assert(all.take(i + 1).last() == (fields@[i as int].0@, fields@[i as int].1 as int));
        let lower = to_lower(fields[i].0.as_str());
        if name_passes(lower.as_str(), &filter) {
            let ghost before = text::texts(items@);
            let item = field_item(fields[i].0.as_str(), fields[i].1);
            let ghost it = item@;
            items.push(item);
            assert(text::texts(items@) =~= before.push(it));
        }
        i = i + 1;
    }
    assert(all.take(i as int) =~= all);
    ok(list_of(&items))
}

/// One method.
pub open spec fn method_json(f: (Seq<char>, nat, bool, nat)) -> Seq<char> {
    "{\"name\":"@ + json_text(f.0) + ",\"argc\":"@ + text::decimal_text(f.1 as int)
        + ",\"static\":"@ + text::bool_text(f.2) + ",\"ptr\":"@ + quoted_hex(f.3) + "}"@
}

/// One method, as it is listed.
pub fn method_item(name: &str, argc: u32, stat: bool, ptr: u64) -> (s: String)
    ensures
        s@ == method_json((name@, argc as nat, stat, ptr as nat)),
{
    let mut s = copy_of("{\"name\":");
    push_json(&mut s, name);
    s.append(",\"argc\":");
    push_decimal(&mut s, argc as u64);
    s.append(",\"static\":");
    push_bool(&mut s, stat);
    s.append(",\"ptr\":");
    push_quoted_hex(&mut s, ptr);
    s.append("}");
    s
}

/// The methods that pass a filter.
pub open spec fn methods_json(
    ms: Seq<(Seq<char>, nat, bool, nat)>,
    filter: Option<Seq<char>>,
) -> Seq<Seq<char>>
    decreases ms.len(),
{
    if ms.len() == 0 {
        Seq::empty()
    } else {
        let before = methods_json(ms.drop_last(), filter);
        if passes(text::lowercase(ms.last().0), filter) {
            before.push(method_json(ms.last()))
        } else {
            before
        }
    }
}

pub open spec fn methods_answer(rt: Option<&Il2CppRuntime<'_>>, q: Map<Seq<char>, Seq<char>>) -> (
    Seq<char>,
    Seq<char>,
    Seq<char>,
) {
    match rt {
        None => err_answer("runtime not ready"@),
        Some(x) => match class_asked(x, q) {
            Ok(c) => ok_answer(
                list_json(
                    methods_json(
                        il2cpp_runtime::all_methods(
                            x.mem@,
                            x.l,
                            c.0 as int,
                            il2cpp_runtime::DUMP_DEPTH as nat,
                        ),
                        filter_in(q),
                    ),
                ),
            ),
            Err(e) => err_answer(e),
        },
    }
}

/// The methods of a class and of its base classes, those whose name contains the
/// filter in either case.
pub fn ep_methods(rt: Option<&Il2CppRuntime<'_>>, q: &Query) -> (r: (
    &'static str,
    &'static str,
    String,
))
    requires
        rt matches Some(x) ==> x.wf(),
    ensures
        answer(r) == methods_answer(rt, q@),
{
    let rt: &Il2CppRuntime<'_> = match rt {
        Some(x) => x,
        None => {
            return err("runtime not ready");
        },
    };
    let c: Class = match resolve_class(rt, q) {
        Ok(c) => c,
        Err(e) => {
            return err(e.as_str());
        },
    };
    let filter: Option<String> = filter_param(q);
    let methods: Vec<(String, u32, bool, u64)> = rt.dump_methods(c);
    let ghost all = il2cpp_runtime::methods_val(methods@);
    let ghost flt = filter_in(q@);
    let mut items: Vec<String> = Vec::new();
    let mut i: usize = 0;
    assert(text::texts(items@) =~= methods_json(all.take(0), flt));
    while i < methods.len()
        invariant
            i <= methods.len(),
            all == il2cpp_runtime::methods_val(methods@),
            crate::il2cpp::opt_text(filter) == flt,
            text::texts(items@) == methods_json(all.take(i as int), flt),
        decreases methods.len() - i,
    {
        assert(all.take(i + 1).drop_last() =~= all.take(i as int));
        assert(all.take(i + 1).last() == (
            methods@[i as int].0@,
            methods@[i as int].1 as nat,
            methods@[i as int].2,
            methods@[i as int].3 as nat,
        ));
        let lower = to_lower(methods[i].0.as_str());
        if name_passes(lower.as_str(), &filter) {
            let ghost before = text::texts(items@);
            let item = method_item(
                methods[i].0.as_str(),
                methods[i].1,
                methods[i].2,
                methods[i].3,
            );
            let ghost it = item@;
            items.push(item);
            assert(text::texts(items@) =~= before.push(it));
        }
        i = i + 1;
    }
    assert(all.take(i as int) =~= all);
    ok(list_of(&items))
}

// ── memory ───────────────────────────────────────────────────────────────────

/// The most bytes of a read.
pub const MAX_READ_LEN: u64 = 4096;

/// How many bytes a query asks for.
pub open spec fn asked_len(q: Map<Seq<char>, Seq<char>>) -> nat {
    match number_in(q, "len"@) {
        Some(n) => if n < 1 {
            1
        } else if n > MAX_READ_LEN {
            MAX_READ_LEN as nat
        } else {
            n
        },
        None => 64,
    }
}

/// The first of `len`, `len / 2`, `len / 4`, .. that can be read; 0 where none
/// can.
pub open spec fn readable_len(m: Map<int, u8>, addr: int, len: nat) -> nat
    decreases len,
{
    if len == 0 || memory::has(m, addr, len as int) {
        len
    } else {
        readable_len(m, addr, len / 2)
    }
}

/// What a read comes to: address and length, or what is wrong with it.
pub open spec fn read_asked(m: Map<int, u8>, q: Map<Seq<char>, Seq<char>>) -> Result<
    (nat, nat),
    Seq<char>,
> {
    match number_in(q, "addr"@) {
        None => Err("need addr="@),
        Some(addr) => {
            let len = readable_len(m, addr as int, asked_len(q));
            if len == 0 {
                Err("address not readable"@)
            } else {
                Ok((addr, len))
            }
        },
    }
}

/// The address and the length of a read, no longer than what can be read.
pub fn read_window(mem: &Memory, q: &Query) -> (r: Result<(u64, u64), &'static str>)
    requires
        mem.wf(),
    ensures
        match r {
            Ok(x) => read_asked(mem@, q@) == Ok::<(nat, nat), Seq<char>>(
                (x.0 as nat, x.1 as nat),
            ) && memory::has(mem@, x.0 as int, x.1 as int) && x.1 <= MAX_READ_LEN,
            Err(e) => read_asked(mem@, q@) == Err::<(nat, nat), Seq<char>>(e@),
        },
{
    let addr: u64 = match number_param(q, "addr") {
        Some(a) => a,
        None => {
            return Err("need addr=");
        },
    };
    let mut len: u64 = match number_param(q, "len") {
        Some(n) => if n < 1 {
            1
        } else if n > MAX_READ_LEN {
            MAX_READ_LEN
        } else {
            n
        },
        None => 64,
    };
    while len > 0 && !mem.readable(addr, len)
        invariant
            mem.wf(),
            len <= MAX_READ_LEN,
            number_in(q@, "addr"@) == Some(addr as nat),
            readable_len(mem@, addr as int, asked_len(q@)) == readable_len(
                mem@,
                addr as int,
                len as nat,
            ),
        decreases len,
    {
        len = len / 2;
    }
    if len == 0 {
        return Err("address not readable");
    }
    Ok((addr, len))
}

/// The bytes of a read.
pub open spec fn bytes_of(m: Map<int, u8>, addr: int, n: nat) -> Seq<u8> {
    Seq::new(n, |i: int| m[addr + i])
}

/// Bytes in hexadecimal.
pub open spec fn hex_of(b: Seq<u8>) -> Seq<char>
    decreases b.len(),
{
    if b.len() == 0 {
        Seq::empty()
    } else {
        hex_of(b.drop_last()) + text::byte_text(b.last())
    }
}

/// A byte as a character, where it is a printable one.
pub open spec fn printable(b: u8) -> char {
    if 0x20 <= b < 0x7f {
        b as char
    } else {
        '.'
    }
}

pub open spec fn ascii_of(b: Seq<u8>) -> Seq<char> {
    b.map_values(|x: u8| printable(x))
}

/// The two's complement value of 64 bits.
pub open spec fn signed64(v: nat) -> int {
    if v < 0x8000_0000_0000_0000 {
        v as int
    } else {
        v - 0x1_0000_0000_0000_0000
    }
}

fn to_signed(v: u64) -> (r: i64)
    ensures
        r == signed64(v as nat),
{
    if v < 0x8000_0000_0000_0000 {
        v as i64
    } else if v == 0x8000_0000_0000_0000 {
        i64::MIN
    } else {
        -((u64::MAX - v) as i64) - 1
    }
}

/// What the first bytes are as numbers; the floats as texts.
pub open spec fn typed_json(m: Map<int, u8>, addr: int, len: nat, f32_text: Seq<char>, f64_text: Seq<
    char,
>) -> Seq<char> {
    (if len >= 4 {
        ",\"i32\":"@ + text::decimal_text(memory::signed32(memory::le(m, addr, 4))) + ",\"u32\":"@
            + text::decimal_text(memory::le(m, addr, 4) as int) + ",\"f32\":"@ + f32_text
    } else {
        Seq::empty()
    }) + (if len >= 8 {
        ",\"i64\":"@ + text::decimal_text(signed64(memory::le(m, addr, 8))) + ",\"u64\":"@
            + text::decimal_text(memory::le(m, addr, 8) as int) + ",\"f64\":"@ + f64_text
            + ",\"ptr\":"@ + quoted_hex(memory::le(m, addr, 8))
    } else {
        Seq::empty()
    })
}

fn typed(mem: &Memory, addr: u64, len: u64, f32_text: &str, f64_text: &str) -> (s: String)
    requires
        mem.wf(),
        memory::has(mem@, addr as int, len as int),
    ensures
        s@ == typed_json(mem@, addr as int, len as nat, f32_text@, f64_text@),
{
    let mut s = String::new();
    let ghost m = mem@;
    let ghost a = addr as int;
    assert(s@ =~= Seq::<char>::empty());
    if len >= 4 {
        match (mem.read_i32(addr, 0), mem.read_u32(addr, 0)) {
            (Some(i), Some(u)) => {
                s.append(",\"i32\":");
                push_signed(&mut s, i as i64);
                s.append(",\"u32\":");
                push_decimal(&mut s, u as u64);
                s.append(",\"f32\":");
                s.append(f32_text);
            },
            _ => {
                assert(memory::has(m, a, 4));
            },
        }
    }
    let ghost first = if len >= 4 {
        ",\"i32\":"@ + text::decimal_text(memory::signed32(memory::le(m, a, 4))) + ",\"u32\":"@
            + text::decimal_text(memory::le(m, a, 4) as int) + ",\"f32\":"@ + f32_text@
    } else {
        Seq::empty()
    };
    assert(s@ =~= first) by {
        if len >= 4 {
            assert(memory::has(m, a, 4));
        }
    }
    if len >= 8 {
        match mem.read_u64(addr, 0) {
            Some(v) => {
                s.append(",\"i64\":");
                push_signed(&mut s, to_signed(v));
                s.append(",\"u64\":");
                push_decimal(&mut s, v);
                s.append(",\"f64\":");
                s.append(f64_text);
                s.append(",\"ptr\":");
                push_quoted_hex(&mut s, v);
            },
            None => {
                assert(memory::has(m, a, 8));
            },
        }
    }
    assert(s@ =~= typed_json(m, a, len as nat, f32_text@, f64_text@)) by {
        if len >= 8 {
            assert(memory::has(m, a, 8));
        }
    }
    s
}

pub open spec fn read_json(
    m: Map<int, u8>,
    addr: nat,
    len: nat,
    f32_text: Seq<char>,
    f64_text: Seq<char>,
) -> Seq<char> {
    "{\"addr\":"@ + quoted_hex(addr) + ",\"len\":"@ + text::decimal_text(len as int)
        + ",\"hex\":"@ + json_text(hex_of(bytes_of(m, addr as int, len))) + ",\"ascii\":"@
        + json_text(ascii_of(bytes_of(m, addr as int, len))) + typed_json(
        m,
        addr as int,
        len,
        f32_text,
        f64_text,
    ) + "}"@
}

/// The bytes at an address that can be read; the texts are those of the floats
/// there.
pub fn ep_read(mem: &Memory, addr: u64, len: u64, f32_text: &str, f64_text: &str) -> (r: (
    &'static str,
    &'static str,
    String,
))
    requires
        mem.wf(),
        memory::has(mem@, addr as int, len as int),
        len <= MAX_READ_LEN,
    ensures
        answer(r) == ok_answer(read_json(mem@, addr as nat, len as nat, f32_text@, f64_text@)),
{
    let mut hex = String::new();
    let mut ascii = String::new();
    let ghost b = bytes_of(mem@, addr as int, len as nat);
    let mut i: u64 = 0;
    assert(hex@ =~= hex_of(b.take(0)));
    assert(ascii@ =~= ascii_of(b.take(0)));
    while i < len
        invariant
            mem.wf(),
            memory::has(mem@, addr as int, len as int),
            len <= MAX_READ_LEN,
            i <= len,
            b == bytes_of(mem@, addr as int, len as nat),
            hex@ == hex_of(b.take(i as int)),
            ascii@ == ascii_of(b.take(i as int)),
        decreases len - i,
    {
        proof {
            assert(mem@.dom().contains(addr + i));
            mem.lemma_below_top(addr + i);
            assert(b.take(i + 1).drop_last() =~= b.take(i as int));
            assert(b.take(i + 1).last() == mem@[addr + i]);
        }
        let x: u8 = match mem.byte(addr + i) {
            Some(x) => x,
            None => 0,
        };
        assert(x == b[i as int]);
        push_byte(&mut hex, x);
        let ghost o = ascii@;
        let ch: char = if 0x20 <= x && x < 0x7f {
            x as char
        } else {
            '.'
        };
        ascii.push(ch);
        assert(ascii@ =~= ascii_of(b.take(i + 1)));
        i = i + 1;
    }
    assert(b.take(i as int) =~= b);
    let mut s = copy_of("{\"addr\":");
    push_quoted_hex(&mut s, addr);
    s.append(",\"len\":");
    push_decimal(&mut s, len);
    s.append(",\"hex\":");
    push_json(&mut s, hex.as_str());
    s.append(",\"ascii\":");
    push_json(&mut s, ascii.as_str());
    s.append(typed(mem, addr, len, f32_text, f64_text).as_str());
    s.append("}");
    ok(s)
}

/// One step along a chain of pointers: the offset, the address it leads to, and
/// what is there.
#[derive(Copy, Clone, PartialEq, Eq, Debug, Structural)]
pub struct ChainStep {
    pub off: u64,
    pub at: u64,
    pub ptr: Option<u64>,
    /// The bits of the float that is there.
    pub bits: Option<u32>,
}

/// The offsets of a path: the pieces that are numbers.
pub open spec fn path_of(pieces: Seq<Seq<char>>) -> Seq<u64>
    decreases pieces.len(),
{
    if pieces.len() == 0 {
        Seq::empty()
    } else {
        let before = path_of(pieces.drop_last());
        match number_of(pieces.last()) {
            Some(n) => before.push(n as u64),
            None => before,
        }
    }
}

pub open spec fn wrapped(a: int) -> int {
    a % 0x1_0000_0000_0000_0000
}

/// The step from `cur` by `off`.
pub open spec fn step_from(m: Map<int, u8>, cur: u64, off: u64) -> ChainStep {
    let at = wrapped(cur + off);
    ChainStep {
        off,
        at: at as u64,
        ptr: match memory::val(m, at, 8) {
            Some(v) => Some(v as u64),
            None => None,
        },
        bits: match memory::val(m, at, 4) {
            Some(v) => Some(v as u32),
            None => None,
        },
    }
}

/// How far a chain was followed: its steps, where they led, and whether the last
/// of them led nowhere. This is one step on, where there is one, with `m` the
/// memory around its address.
pub open spec fn chain_on(
    now: (Seq<ChainStep>, u64, bool),
    offs: Seq<u64>,
    m: Map<int, u8>,
) -> (Seq<ChainStep>, u64, bool) {
    if now.2 || now.0.len() >= offs.len() {
        now
    } else {
        let s = step_from(m, now.1, offs[now.0.len() as int]);
        match s.ptr {
            Some(p) => (now.0.push(s), p, false),
            None => (now.0.push(s), now.1, true),
        }
    }
}

/// A chain followed from `start`, with the memory around each address.
pub open spec fn chain_after(start: u64, offs: Seq<u64>, mems: Seq<Map<int, u8>>) -> (
    Seq<ChainStep>,
    u64,
    bool,
)
    decreases mems.len(),
{
    if mems.len() == 0 {
        (Seq::empty(), start, false)
    } else {
        chain_on(chain_after(start, offs, mems.drop_last()), offs, mems.last())
    }
}

/// Where a chain starts and its offsets, or what is wrong with it.
pub open spec fn chain_asked(q: Map<Seq<char>, Seq<char>>) -> Result<(u64, Seq<u64>), Seq<char>> {
    match (number_in(q, "addr"@), param(q, "path"@)) {
        (None, _) => Err("need addr="@),
        (Some(_), None) => Err("need path=0x10,0x8,.."@),
        (Some(a), Some(path)) => {
            let offs = path_of(text::split(path, ','));
            if offs.len() == 0 {
                Err("empty path"@)
            } else {
                Ok((a as u64, offs))
            }
        },
    }
}

/// A chain of pointers that is being followed. What is around each address is
/// asked for when the step comes to it.
pub struct Chain {
    pub offs: Vec<u64>,
    pub cur: u64,
    pub steps: Vec<ChainStep>,
    pub broken: bool,
}

impl Chain {
    pub open spec fn wf(&self) -> bool {
        self.steps@.len() <= self.offs@.len()
    }

    pub open spec fn now(&self) -> (Seq<ChainStep>, u64, bool) {
        (self.steps@, self.cur, self.broken)
    }

    /// The address of the next step, where there is one.
    pub fn wants(&self) -> (r: Option<u64>)
        requires
            self.wf(),
        ensures
            r is None <==> self.broken || self.steps@.len() == self.offs@.len(),
            r matches Some(at) ==> at == wrapped(self.cur + self.offs@[self.steps@.len() as int]),
    {
        if self.broken || self.steps.len() >= self.offs.len() {
            None
        } else {
            Some(wrapping(self.cur, self.offs[self.steps.len()]))
        }
    }

    /// One step on; `mem` holds what is around its address.
    pub fn step(&mut self, mem: &Memory)
        requires
            old(self).wf(),
            mem.wf(),
        ensures
            final(self).wf(),
            final(self).offs == old(self).offs,
            final(self).now() == chain_on(old(self).now(), old(self).offs@, mem@),
    {
        if self.broken || self.steps.len() >= self.offs.len() {
            return;
        }
        let off: u64 = self.offs[self.steps.len()];
        let at: u64 = wrapping(self.cur, off);
        let ptr: Option<u64> = mem.read_u64(at, 0);
        let bits: Option<u32> = mem.read_u32(at, 0);
        let s = ChainStep { off, at, ptr, bits };
        assert(s == step_from(mem@, self.cur, off));
        self.steps.push(s);
        match ptr {
            Some(p) => {
                self.cur = p;
            },
            None => {
                self.broken = true;
            },
        }
    }
}

/// Every step of a chain starts where the one before it led, by the offset that
/// is its turn, and only the last one leads nowhere.
pub proof fn law_chain_links(start: u64, offs: Seq<u64>, mems: Seq<Map<int, u8>>, i: int)
    ensures
        ({
            let c = chain_after(start, offs, mems);
            &&& c.0.len() <= offs.len()
            &&& c.0.len() == 0 ==> c.1 == start && !c.2
            &&& c.0.len() > 0 ==> c.2 == (c.0.last().ptr is None)
            &&& c.0.len() > 0 && !c.2 ==> c.0.last().ptr == Some(c.1)
            &&& 0 <= i < c.0.len() ==> c.0[i].off == offs[i]
            &&& 0 <= i < c.0.len() - 1 ==> c.0[i].ptr is Some
            &&& 0 < i < c.0.len() ==> c.0[i].at == wrapped(c.0[i - 1].ptr->0 + offs[i])
            &&& 0 == i && c.0.len() > 0 ==> c.0[i].at == wrapped(start + offs[0])
        }),
    decreases mems.len(),
{
    if mems.len() > 0 {
        law_chain_links(start, offs, mems.drop_last(), i);
        law_chain_links(start, offs, mems.drop_last(), i - 1);
    }
}

fn path_offsets(path: &str) -> (offs: Vec<u64>)
    ensures
        offs@ == path_of(text::split(path@, ',')),
{
    let pieces: Vec<String> = split_at_char(path, ',');
    let ghost all = text::texts(pieces@);
    let mut offs: Vec<u64> = Vec::new();
    let mut i: usize = 0;
    assert(offs@ =~= path_of(all.take(0)));
    while i < pieces.len()
        invariant
            i <= pieces.len(),
            all == text::texts(pieces@),
            offs@ == path_of(all.take(i as int)),
        decreases pieces.len() - i,
    {
        assert(all.take(i + 1).drop_last() =~= all.take(i as int));
        assert(all.take(i + 1).last() == pieces@[i as int]@);
        match parse_usize(pieces[i].as_str()) {
            Some(n) => {
                offs.push(n);
            },
            None => {},
        }
        i = i + 1;
    }
    assert(all.take(i as int) =~= all);
    offs
}

fn wrapping(a: u64, b: u64) -> (r: u64)
    ensures
        r == wrapped(a + b),
{
    if b <= u64::MAX - a {
        a + b
    } else {
        b - (u64::MAX - a) - 1
    }
}

/// The chain that a query asks for, before its first step.
pub fn start_chain(q: &Query) -> (r: Result<Chain, &'static str>)
    ensures
        match r {
            Ok(c) => c.wf() && chain_asked(q@) == Ok::<(u64, Seq<u64>), Seq<char>>(
                (c.cur, c.offs@),
            ) && c.now() == chain_after(c.cur, c.offs@, Seq::empty()),
            Err(e) => chain_asked(q@) == Err::<(u64, Seq<u64>), Seq<char>>(e@),
        },
{
    let cur: u64 = match number_param(q, "addr") {
        Some(a) => a,
        None => {
            return Err("need addr=");
        },
    };
    let path: &String = match q.get("path") {
        Some(p) => p,
        None => {
            return Err("need path=0x10,0x8,..");
        },
    };
    let offs: Vec<u64> = path_offsets(path.as_str());
    if offs.len() == 0 {
        return Err("empty path");
    }
    Ok(Chain { offs, cur, steps: Vec::new(), broken: false })
}

/// One step as it is listed; the text is that of its float.
pub open spec fn step_json(s: ChainStep, f: Seq<char>) -> Seq<char> {
    "{\"off\":"@ + quoted_hex(s.off as nat) + ",\"at\":"@ + quoted_hex(s.at as nat) + ",\"ptr\":"@
        + (match s.ptr {
        Some(p) => quoted_hex(p as nat),
        None => "null"@,
    }) + ",\"i64\":"@ + (match s.ptr {
        Some(p) => text::decimal_text(signed64(p as nat)),
        None => "null"@,
    }) + ",\"f32\":"@ + (match s.bits {
        Some(_) => f,
        None => "null"@,
    }) + "}"@
}

pub fn step_item(s: &ChainStep, f: &str) -> (r: String)
    ensures
        r@ == step_json(*s, f@),
{
    let mut r = copy_of("{\"off\":");
    push_quoted_hex(&mut r, s.off);
    r.append(",\"at\":");
    push_quoted_hex(&mut r, s.at);
    r.append(",\"ptr\":");
    match s.ptr {
        Some(p) => {
            push_quoted_hex(&mut r, p);
        },
        None => {
            r.append("null");
        },
    }
    r.append(",\"i64\":");
    match s.ptr {
        Some(p) => {
            push_signed(&mut r, to_signed(p));
        },
        None => {
            r.append("null");
        },
    }
    r.append(",\"f32\":");
    match s.bits {
        Some(_) => {
            r.append(f);
        },
        None => {
            r.append("null");
        },
    }
    r.append("}");
    r
}

pub open spec fn chain_json(steps: Seq<ChainStep>, end: u64, floats: Seq<String>) -> Seq<char> {
    "{\"final\":"@ + quoted_hex(end as nat) + ",\"steps\":"@ + list_json(
        Seq::new(steps.len(), |i: int| step_json(steps[i], floats[i]@)),
    ) + "}"@
}

/// The steps of a chain; `floats` are the texts of their floats.
pub fn ep_chain(steps: &Vec<ChainStep>, end: u64, floats: &Vec<String>) -> (r: (
    &'static str,
    &'static str,
    String,
))
    requires
        floats.len() == steps.len(),
    ensures
        answer(r) == ok_answer(chain_json(steps@, end, floats@)),
{
    let mut items: Vec<String> = Vec::new();
    let mut i: usize = 0;
    while i < steps.len()
        invariant
            i <= steps.len(),
            floats.len() == steps.len(),
            items@.len() == i,
            forall|j: int| 0 <= j < i ==> (#[trigger] items@[j])@ == step_json(steps@[j], floats@[j]@),
        decreases steps.len() - i,
    {
        items.push(step_item(&steps[i], floats[i].as_str()));
        i = i + 1;
    }
    assert(text::texts(items@) =~= Seq::new(
        steps@.len(),
        |i: int| step_json(steps@[i], floats@[i]@),
    ));
    let mut s = copy_of("{\"final\":");
    push_quoted_hex(&mut s, end);
    s.append(",\"steps\":");
    s.append(list_of(&items).as_str());
    s.append("}");
    ok(s)
}

// ── searching ────────────────────────────────────────────────────────────────

/// The most bytes that a search looks at.
pub const DEFAULT_SCAN_BYTES: u64 = 0x4000_0000;

/// How many hits a search stops at.
pub const DEFAULT_SCAN_HITS: u64 = 64;

/// Where a search ends, if nothing else is said.
pub const DEFAULT_SCAN_END: u64 = 0x7FFF_FFFF_0000;

/// The `n` lowest bytes of a number, lowest first.
pub open spec fn le_bytes(v: nat, n: nat) -> Seq<u8>
    decreases n,
{
    if n == 0 {
        Seq::empty()
    } else {
        seq![(v % 256) as u8] + le_bytes(v / 256, (n - 1) as nat)
    }
}

fn low_bytes(v: u64, n: usize) -> (out: Vec<u8>)
    requires
        n <= 8,
    ensures
        out@ == le_bytes(v as nat, n as nat),
{
    let mut out: Vec<u8> = Vec::new();
    let mut x: u64 = v;
    let mut k: usize = n;
    assert(out@ + le_bytes(v as nat, n as nat) =~= le_bytes(v as nat, n as nat));
    while k > 0
        invariant
            le_bytes(v as nat, n as nat) == out@ + le_bytes(x as nat, k as nat),
        decreases k,
    {
        let ghost o = out@;
        let b: u8 = (x % 256) as u8;
        out.push(b);
        proof {
            let rest = le_bytes((x / 256) as nat, (k - 1) as nat);
            assert(o + (seq![b] + rest) =~= out@ + rest);
        }
        x = x / 256;
        k = k - 1;
    }
    assert(out@ + Seq::<u8>::empty() =~= out@);
    out
}

/// A signed number modulo 2^64.
pub open spec fn bits64(v: int) -> nat {
    if v < 0 {
        (v + 0x1_0000_0000_0000_0000) as nat
    } else {
        v as nat
    }
}

fn to_bits(v: i64) -> (r: u64)
    ensures
        r == bits64(v as int),
{
    if v < 0 {
        u64::MAX - ((-(v + 1)) as u64)
    } else {
        v as u64
    }
}

/// The 16-bit units of a text.
pub open spec fn units_of(s: Seq<char>) -> Seq<u16>
    decreases s.len(),
{
    if s.len() == 0 {
        Seq::empty()
    } else {
        units_of(s.drop_last()) + char_units(s.last())
    }
}

pub open spec fn char_units(c: char) -> Seq<u16> {
    let n = c as u32;
    if n < 0x1_0000 {
        seq![n as u16]
    } else {
        seq![(0xD800 + (n - 0x1_0000) / 0x400) as u16, (0xDC00 + (n - 0x1_0000) % 0x400) as u16]
    }
}

/// The bytes of 16-bit units, the low one of each first.
pub open spec fn unit_bytes(u: Seq<u16>) -> Seq<u8>
    decreases u.len(),
{
    if u.len() == 0 {
        Seq::empty()
    } else {
        unit_bytes(u.drop_last()) + seq![(u.last() % 256) as u8, (u.last() / 256) as u8]
    }
}

proof fn lemma_unit_bytes_add(a: Seq<u16>, b: Seq<u16>)
    ensures
        unit_bytes(a + b) == unit_bytes(a) + unit_bytes(b),
    decreases b.len(),
{
    if b.len() == 0 {
        assert(a + b =~= a);
        assert(unit_bytes(a) + Seq::<u8>::empty() =~= unit_bytes(a));
    } else {
        lemma_unit_bytes_add(a, b.drop_last());
        assert((a + b).drop_last() =~= a + b.drop_last());
        let t = seq![(b.last() % 256) as u8, (b.last() / 256) as u8];
        assert(unit_bytes(a) + unit_bytes(b.drop_last()) + t =~= unit_bytes(a) + (unit_bytes(
            b.drop_last(),
        ) + t));
    }
}

fn push_unit(out: &mut Vec<u8>, u: u16)
    ensures
        final(out)@ == old(out)@ + seq![(u % 256) as u8, (u / 256) as u8],
{
    out.push((u % 256) as u8);
    out.push((u / 256) as u8);
    assert(out@ =~= old(out)@ + seq![(u % 256) as u8, (u / 256) as u8]);
}

fn utf16_bytes(s: &str) -> (out: Vec<u8>)
    ensures
        out@ == unit_bytes(units_of(s@)),
{
    let v = chars_of(s);
    let mut out: Vec<u8> = Vec::new();
    let mut i: usize = 0;
    assert(out@ =~= unit_bytes(units_of(s@.take(0))));
    while i < v.len()
        invariant
            i <= v.len(),
            v@ == s@,
            out@ == unit_bytes(units_of(s@.take(i as int))),
        decreases v.len() - i,
    {
        let c: char = v[i];
        let n: u32 = c as u32;
        let ghost before = units_of(s@.take(i as int));
        proof {
            assert(s@.take(i + 1).drop_last() =~= s@.take(i as int));
            lemma_unit_bytes_add(before, char_units(c));
        }
        if n < 0x1_0000 {
            let u: u16 = n as u16;
            proof {
                assert(char_units(c) =~= seq![u]);
                reveal_with_fuel(unit_bytes, 2);
                assert(seq![u].drop_last() =~= Seq::empty());
                assert(unit_bytes(seq![u]) =~= seq![(u % 256) as u8, (u / 256) as u8]);
            }
            push_unit(&mut out, u);
        } else {
            proof {
                vstd::utf8::char_is_scalar(c);
            }
            let hi: u16 = (0xD800 + (n - 0x1_0000) / 0x400) as u16;
            let lo: u16 = (0xDC00 + (n - 0x1_0000) % 0x400) as u16;
            let ghost o = out@;
            push_unit(&mut out, hi);
            push_unit(&mut out, lo);
            proof {
                assert(char_units(c) =~= seq![hi, lo]);
                reveal_with_fuel(unit_bytes, 3);
                assert(seq![hi, lo].drop_last() =~= seq![hi]);
                assert(seq![hi].drop_last() =~= Seq::empty());
                let a = seq![(hi % 256) as u8, (hi / 256) as u8];
                let b = seq![(lo % 256) as u8, (lo / 256) as u8];
                assert(unit_bytes(seq![hi, lo]) =~= a + b);
                assert(out@ =~= o + (a + b));
            }
        }
        i = i + 1;
    }
    assert(s@.take(i as int) =~= s@);
    out
}

/// A text without its white space.
pub open spec fn no_white(s: Seq<char>) -> Seq<char> {
    s.filter(|c: char| !text::white(c))
}

fn strip_white(s: &str) -> (r: String)
    ensures
        r@ == no_white(s@),
{
    let v = chars_of(s);
    let mut r = String::new();
    let mut i: usize = 0;
    let ghost p = |c: char| !text::white(c);
    reveal(Seq::filter);
    assert(s@.take(0).filter(p) =~= Seq::<char>::empty());
    while i < v.len()
        invariant
            i <= v.len(),
            v@ == s@,
            p == (|c: char| !text::white(c)),
            r@ == s@.take(i as int).filter(p),
        decreases v.len() - i,
    {
        reveal(Seq::filter);
        assert(s@.take(i + 1).drop_last() =~= s@.take(i as int));
        if !is_white(v[i]) {
            r.push(v[i]);
        }
        i = i + 1;
    }
    assert(s@.take(i as int) =~= s@);
    r
}

/// The bytes that pairs of digits stand for; none where one is no digit.
pub open spec fn hex_bytes(b: Seq<u8>) -> Option<Seq<u8>>
    decreases b.len(),
{
    if b.len() < 2 {
        Some(Seq::empty())
    } else {
        match (hex_bytes(b.take(b.len() - 2)), nibble(b[b.len() - 2]), nibble(b[b.len() - 1])) {
            (Some(before), Some(h), Some(l)) => Some(before.push((h * 16 + l) as u8)),
            _ => None,
        }
    }
}

/// The bytes of a hexadecimal text, or what is wrong with it.
pub open spec fn hex_needle(s: Seq<char>) -> Result<Seq<u8>, Seq<char>> {
    let b = vstd::utf8::encode_utf8(no_white(s));
    if b.len() % 2 != 0 {
        Err("hex needs an even number of digits"@)
    } else {
        match hex_bytes(b) {
            Some(v) => Ok(v),
            None => Err("bad hex digit"@),
        }
    }
}

proof fn lemma_hex_none(b: Seq<u8>, i: int)
    requires
        0 <= i <= b.len(),
        i % 2 == 0,
        b.len() % 2 == 0,
        hex_bytes(b.take(i)) is None,
    ensures
        hex_bytes(b) is None,
    decreases b.len(),
{
    if i == b.len() {
        assert(b.take(i) =~= b);
    } else {
        let d = b.take(b.len() - 2);
        assert(d.take(i) =~= b.take(i));
        lemma_hex_none(d, i);
    }
}

fn parse_hex(s: &str) -> (r: Result<Vec<u8>, &'static str>)
    ensures
        match r {
            Ok(v) => hex_needle(s@) == Ok::<Seq<u8>, Seq<char>>(v@),
            Err(e) => hex_needle(s@) == Err::<Seq<u8>, Seq<char>>(e@),
        },
{
    let clean = strip_white(s);
    let b: &[u8] = clean.as_str().as_bytes();
    if b.len() % 2 != 0 {
        return Err("hex needs an even number of digits");
    }
    let mut out: Vec<u8> = Vec::new();
    let mut i: usize = 0;
    assert(b@.take(0).len() < 2);
    while i < b.len()
        invariant
            i <= b.len(),
            i % 2 == 0,
            b.len() % 2 == 0,
            b@ == vstd::utf8::encode_utf8(no_white(s@)),
            hex_bytes(b@.take(i as int)) == Some(out@),
        decreases b.len() - i,
    {
        let ghost t = b@.take(i + 2);
        proof {
            assert(t.take(t.len() - 2) =~= b@.take(i as int));
            assert(t[t.len() - 2] == b@[i as int] && t[t.len() - 1] == b@[i + 1]);
        }
        match (hex_nibble(b[i]), hex_nibble(b[i + 1])) {
            (Some(h), Some(l)) => {
                out.push(h * 16 + l);
            },
            _ => {
                proof {
                    lemma_hex_none(b@, i + 2);
                }
                return Err("bad hex digit");
            },
        }
        i = i + 2;
    }
    assert(b@.take(i as int) =~= b@);
    Ok(out)
}

/// The signed number in a parameter.
pub open spec fn signed_in(q: Map<Seq<char>, Seq<char>>, name: Seq<char>) -> Option<int> {
    match param(q, name) {
        Some(s) => signed_number_of(s),
        None => None,
    }
}

/// What is searched for, by the first of these that a query has: bytes, a text,
/// a text of 16-bit units, a number. `f32_bits` and `f64_bits` are the floats
/// that the query has.
pub open spec fn needle_asked(
    q: Map<Seq<char>, Seq<char>>,
    f32_bits: Option<u32>,
    f64_bits: Option<u64>,
) -> Result<Seq<u8>, Seq<char>> {
    if let Some(h) = param(q, "hex"@) {
        hex_needle(h)
    } else if let Some(s) = param(q, "str"@) {
        Ok(vstd::utf8::encode_utf8(s))
    } else if let Some(s) = param(q, "utf16"@) {
        Ok(unit_bytes(units_of(s)))
    } else if let Some(v) = signed_in(q, "i32"@) {
        Ok(le_bytes(bits64(v), 4))
    } else if let Some(v) = number_in(q, "u32"@) {
        Ok(le_bytes(v, 4))
    } else if let Some(v) = signed_in(q, "i64"@) {
        Ok(le_bytes(bits64(v), 8))
    } else if let Some(v) = number_in(q, "u64"@) {
        Ok(le_bytes(v, 8))
    } else if let Some(v) = f32_bits {
        Ok(le_bytes(v as nat, 4))
    } else if let Some(v) = f64_bits {
        Ok(le_bytes(v as nat, 8))
    } else {
        Err("need one of hex/str/utf16/i32/u32/i64/u64/f32/f64"@)
    }
}

fn signed_param(q: &Query, name: &str) -> (r: Option<i64>)
    ensures
        r matches Some(v) ==> signed_in(q@, name@) == Some(v as int),
        r is None ==> signed_in(q@, name@) is None,
{
    match q.get(name) {
        Some(s) => parse_i64(s.as_str()),
        None => None,
    }
}

pub fn build_needle(q: &Query, f32_bits: Option<u32>, f64_bits: Option<u64>) -> (r: Result<
    Vec<u8>,
    &'static str,
>)
    ensures
        match r {
            Ok(v) => needle_asked(q@, f32_bits, f64_bits) == Ok::<Seq<u8>, Seq<char>>(v@),
            Err(e) => needle_asked(q@, f32_bits, f64_bits) == Err::<Seq<u8>, Seq<char>>(e@),
        },
{
    if let Some(h) = q.get("hex") {
        return parse_hex(h.as_str());
    }
    if let Some(s) = q.get("str") {
        return Ok(vstd::slice::slice_to_vec(s.as_str().as_bytes()));
    }
    if let Some(s) = q.get("utf16") {
        return Ok(utf16_bytes(s.as_str()));
    }
    if let Some(v) = signed_param(q, "i32") {
        return Ok(low_bytes(to_bits(v), 4));
    }
    if let Some(v) = number_param(q, "u32") {
        return Ok(low_bytes(v, 4));
    }
    if let Some(v) = signed_param(q, "i64") {
        return Ok(low_bytes(to_bits(v), 8));
    }
    if let Some(v) = number_param(q, "u64") {
        return Ok(low_bytes(v, 8));
    }
    if let Some(v) = f32_bits {
        return Ok(low_bytes(v as u64, 4));
    }
    if let Some(v) = f64_bits {
        return Ok(low_bytes(v, 8));
    }
    Err("need one of hex/str/utf16/i32/u32/i64/u64/f32/f64")
}

/// Where a search looks: in the module that the query names, or between two
/// addresses; and how many hits it stops at.
pub open spec fn scan_asked(q: Map<Seq<char>, Seq<char>>, module: Option<(u64, u64)>) -> Result<
    (nat, nat, nat),
    Seq<char>,
> {
    let most = match number_in(q, "max"@) {
        Some(n) => n,
        None => DEFAULT_SCAN_HITS as nat,
    };
    if param(q, "mod"@) is Some {
        match module {
            Some(b) => Ok((b.0 as nat, b.1 as nat, most)),
            None => Err("module not loaded"@),
        }
    } else {
        Ok(
            (
                match number_in(q, "start"@) {
                    Some(n) => n,
                    None => 0,
                },
                match number_in(q, "end"@) {
                    Some(n) => n,
                    None => DEFAULT_SCAN_END as nat,
                },
                most,
            ),
        )
    }
}

/// The bounds of a search; `module` is where the module lies that the query
/// names.
pub fn scan_bounds(q: &Query, module: Option<(u64, u64)>) -> (r: Result<
    (u64, u64, u64),
    &'static str,
>)
    ensures
        match r {
            Ok(x) => scan_asked(q@, module) == Ok::<(nat, nat, nat), Seq<char>>(
                (x.0 as nat, x.1 as nat, x.2 as nat),
            ),
            Err(e) => scan_asked(q@, module) == Err::<(nat, nat, nat), Seq<char>>(e@),
        },
{
    let most: u64 = match number_param(q, "max") {
        Some(n) => n,
        None => DEFAULT_SCAN_HITS,
    };
    if q.get("mod").is_some() {
        return match module {
            Some(b) => Ok((b.0, b.1, most)),
            None => Err("module not loaded"),
        };
    }
    let start: u64 = match number_param(q, "start") {
        Some(n) => n,
        None => 0,
    };
    let end: u64 = match number_param(q, "end") {
        Some(n) => n,
        None => DEFAULT_SCAN_END,
    };
    Ok((start, end, most))
}

/// A list of addresses.
pub open spec fn addresses_json(v: Seq<u64>) -> Seq<char> {
    list_json(v.map_values(|a: u64| quoted_hex(a as nat)))
}

fn addresses(v: &Vec<u64>) -> (s: String)
    ensures
        s@ == addresses_json(v@),
{
    let mut items: Vec<String> = Vec::new();
    let mut i: usize = 0;
    while i < v.len()
        invariant
            i <= v.len(),
            items@.len() == i,
            forall|j: int| 0 <= j < i ==> (#[trigger] items@[j])@ == quoted_hex(v@[j] as nat),
        decreases v.len() - i,
    {
        let mut s = String::new();
        push_quoted_hex(&mut s, v[i]);
        assert(s@ =~= quoted_hex(v@[i as int] as nat));
        items.push(s);
        i = i + 1;
    }
    assert(text::texts(items@) =~= v@.map_values(|a: u64| quoted_hex(a as nat)));
    list_of(&items)
}

pub open spec fn scan_json(needle: nat, hits: Seq<u64>) -> Seq<char> {
    "{\"needle_len\":"@ + text::decimal_text(needle as int) + ",\"count\":"@
        + text::decimal_text(hits.len() as int) + ",\"hits\":"@ + addresses_json(hits) + "}"@
}

/// What a search found.
pub fn ep_scan(needle: usize, hits: &Vec<u64>) -> (r: (&'static str, &'static str, String))
    ensures
        answer(r) == ok_answer(scan_json(needle as nat, hits@)),
{
    let mut s = copy_of("{\"needle_len\":");
    push_decimal(&mut s, needle as u64);
    s.append(",\"count\":");
    push_decimal(&mut s, hits.len() as u64);
    s.append(",\"hits\":");
    s.append(addresses(hits).as_str());
    s.append("}");
    ok(s)
}

// ── the game ─────────────────────────────────────────────────────────────────

pub open spec fn world_json(m: Map<int, u8>, world: Object) -> Seq<char> {
    "{\"ptr\":"@ + quoted_hex(world.0 as nat) + ",\"alive\":"@ + text::bool_text(
        features::alive(m, world.0 as int),
    ) + "}"@
}

/// The world, and whether it is there.
pub fn ep_gameworld(mem: &Memory, world: Object) -> (r: (&'static str, &'static str, String))
    requires
        mem.wf(),
    ensures
        answer(r) == ok_answer(world_json(mem@, world)),
{
    let mut s = copy_of("{\"ptr\":");
    push_quoted_hex(&mut s, world.0);
    s.append(",\"alive\":");
    push_bool(&mut s, alive_here(mem, world));
    s.append("}");
    ok(s)
}

/// The first of the world's player lists, with its offset.
pub open spec fn list_field<R: ScriptRuntime>(rt: &R, c: Class) -> Option<(Seq<char>, i32)> {
    match rt.field_of(c, "RegisteredPlayers"@) {
        Some(f) => Some(("RegisteredPlayers"@, rt.offset_of(f))),
        None => match rt.field_of(c, "AllAlivePlayersList"@) {
            Some(f) => Some(("AllAlivePlayersList"@, rt.offset_of(f))),
            None => None,
        },
    }
}

/// The players in a list that is not too long.
pub open spec fn players_in(m: Map<int, u8>, world: int, off: i32) -> Seq<u64> {
    match memory::ptr_val(m, world + off) {
        Some(list) => match memory::ptr_val(m, list as int + 0x10) {
            Some(items) => {
                let n = chams::list_len(m, list as int);
                let len = chams::length_of(m, items as int);
                if n <= 4096 {
                    chams::elements(
                        m,
                        items as int,
                        if n < len {
                            n as nat
                        } else {
                            len
                        },
                    )
                } else {
                    Seq::empty()
                }
            },
            None => Seq::empty(),
        },
        None => Seq::empty(),
    }
}

fn find_players(mem: &Memory, world: Object, off: i32) -> (v: Vec<u64>)
    requires
        mem.wf(),
    ensures
        v@ == players_in(mem@, world.0 as int, off),
{
    let list: Object = match link(mem, world, off) {
        Some(o) => o,
        None => {
            return Vec::new();
        },
    };
    let items: Object = match list_items(mem, list) {
        Some(o) => o,
        None => {
            return Vec::new();
        },
    };
    let n: u64 = match list_count(mem, list) {
        Some(n) => n,
        None => 0,
    };
    if items.is_null() || n > 4096 {
        return Vec::new();
    }
    let len: u64 = chams::length(mem, items);
    chams::collect(
        mem,
        items,
        if n < len {
            n
        } else {
            len
        },
    )
}

pub open spec fn players_json(world: Object, name: Seq<char>, off: i32, ps: Seq<u64>) -> Seq<char> {
    "{\"gameworld\":"@ + quoted_hex(world.0 as nat) + ",\"field\":"@ + json_text(name)
        + ",\"field_off\":"@ + quoted_hex(text::bits32(off as int)) + ",\"count\":"@
        + text::decimal_text(ps.len() as int) + ",\"players\":"@ + addresses_json(ps) + "}"@
}

pub open spec fn players_answer<R: ScriptRuntime>(
    rt: Option<&R>,
    m: Map<int, u8>,
    world: Object,
) -> (
    Seq<char>,
    Seq<char>,
    Seq<char>,
) {
    match rt {
        None => err_answer("runtime not ready"@),
        Some(x) => if !features::alive(m, world.0 as int) {
            ok_answer("{\"gameworld\":null,\"players\":[]}"@)
        } else {
            match symbols::class_in(x, chams::game("GameWorld"@)) {
                None => err_answer("GameWorld class not found"@),
                Some(c) => match list_field(x, c) {
                    None => err_answer("no player-list field on GameWorld"@),
                    Some(f) => ok_answer(
                        players_json(world, f.0, f.1, players_in(m, world.0 as int, f.1)),
                    ),
                },
            }
        },
    }
}

/// The players in the world.
pub fn ep_players<R: ScriptRuntime>(rt: Option<&R>, mem: &Memory, world: Object) -> (r: (
    &'static str,
    &'static str,
    String,
))
    requires
        mem.wf(),
        rt matches Some(x) ==> x.ready(),
    ensures
        answer(r) == players_answer(rt, mem@, world),
{
    let rt: &R = match rt {
        Some(x) => x,
        None => {
            return err("runtime not ready");
        },
    };
    if !alive_here(mem, world) {
        return ok(copy_of("{\"gameworld\":null,\"players\":[]}"));
    }
    let c: Class = match find_class(rt, eft::game_world()) {
        Some(c) => c,
        None => {
            return err("GameWorld class not found");
        },
    };
    let names: Vec<&'static str> = eft::player_list_fields();
    let (name, off): (&'static str, i32) = match rt.field(c, names[0]) {
        Some(f) => (names[0], rt.field_offset(f)),
        None => match rt.field(c, names[1]) {
            Some(f) => (names[1], rt.field_offset(f)),
            None => {
                return err("no player-list field on GameWorld");
            },
        },
    };
    let ps: Vec<u64> = find_players(mem, world, off);
    let mut s = copy_of("{\"gameworld\":");
    push_quoted_hex(&mut s, world.0);
    s.append(",\"field\":");
    push_json(&mut s, name);
    s.append(",\"field_off\":");
    push_quoted_hex(&mut s, low32(off));
    s.append(",\"count\":");
    push_decimal(&mut s, ps.len() as u64);
    s.append(",\"players\":");
    s.append(addresses(&ps).as_str());
    s.append("}");
    ok(s)
}

// ── switches ─────────────────────────────────────────────────────────────────

/// A value that means yes.
pub open spec fn means_yes(v: Seq<char>) -> bool {
    v == "1"@ || v == "true"@ || v == "on"@ || v == "yes"@
}

fn is_yes(v: &str) -> (r: bool)
    ensures
        r == means_yes(v@),
{
    same(v, "1") || same(v, "true") || same(v, "on") || same(v, "yes")
}

/// A switch after a query: what its parameter says, where there is one.
pub open spec fn switched(q: Map<Seq<char>, Seq<char>>, name: Seq<char>, was: bool) -> bool {
    match param(q, name) {
        Some(v) => means_yes(v),
        None => was,
    }
}

/// The number in a parameter that takes no white space.
pub open spec fn choice_in(q: Map<Seq<char>, Seq<char>>, name: Seq<char>) -> Option<nat> {
    match param(q, name) {
        Some(s) => bare_number_of(s),
        None => None,
    }
}

fn choice_param(q: &Query, name: &str) -> (r: Option<u64>)
    ensures
        opt_nat(r) == choice_in(q@, name@),
{
    match q.get(name) {
        Some(s) => parse_chars(&chars_of(s.as_str())),
        None => None,
    }
}

/// The style that a query asks for, by number or by name.
pub open spec fn style_asked(q: Map<Seq<char>, Seq<char>>) -> Option<nat> {
    match param(q, "style"@) {
        Some(s) => match bare_number_of(s) {
            Some(n) => Some(n % (chams::STYLES as nat)),
            None => if s == "glow"@ {
                Some(1)
            } else if s == "mesh"@ {
                Some(2)
            } else {
                Some(0)
            },
        },
        None => None,
    }
}

/// The chams after a query.
pub open spec fn chams_after(c: Chams, q: Map<Seq<char>, Seq<char>>) -> Chams {
    Chams {
        enabled: switched(q, "on"@, c.enabled),
        scheme: match choice_in(q, "scheme"@) {
            Some(n) => (n % (chams::SCHEMES as nat)) as usize,
            None => c.scheme,
        },
        style: match style_asked(q) {
            Some(n) => n as usize,
            None => c.style,
        },
        apply: c.apply || choice_in(q, "scheme"@) is Some || style_asked(q) is Some,
        ..c
    }
}

/// Switches the chams, picks a scheme and a style; answers with what they are.
pub fn ep_chams(c: &mut Chams, q: &Query) -> (r: (&'static str, &'static str, String))
    requires
        old(c).wf(),
    ensures
        *final(c) == chams_after(*old(c), q@),
        final(c).wf(),
        answer(r) == ok_answer(chams_json(*final(c))),
{
    if let Some(v) = q.get("on") {
        chams::set_enabled(c, is_yes(v.as_str()));
    }
    if let Some(n) = choice_param(q, "scheme") {
        let k: u64 = n % (chams::SCHEMES as u64);
        chams::set_scheme(c, k as usize);
    }
    if let Some(s) = q.get("style") {
        match choice_param(q, "style") {
            Some(n) => {
                let k: u64 = n % (chams::STYLES as u64);
                chams::set_style(c, k as usize);
            },
            None => {
                if same(s.as_str(), "glow") {
                    chams::set_style(c, 1);
                } else if same(s.as_str(), "mesh") {
                    chams::set_style(c, 2);
                } else {
                    chams::set_style(c, 0);
                }
            },
        }
    }
    ok(chams_status(c))
}

/// The floats of a player, as texts.
pub struct RaidTexts {
    pub pos: (String, String, String),
    pub screen: (String, String, String),
    pub dist: String,
}

pub open spec fn triple_json(t: (String, String, String)) -> Seq<char> {
    "["@ + t.0@ + ","@ + t.1@ + ","@ + t.2@ + "]"@
}

pub open spec fn raid_json(e: world::Entry, t: RaidTexts) -> Seq<char> {
    "{\"ptr\":"@ + quoted_hex(e.ptr as nat) + ",\"local\":"@ + text::bool_text(e.is_local)
        + ",\"bot\":"@ + text::bool_text(e.is_bot) + ",\"pos\":"@ + triple_json(t.pos)
        + ",\"screen\":"@ + triple_json(t.screen) + ",\"on_screen\":"@ + text::bool_text(
        e.on_screen,
    ) + ",\"dist\":"@ + t.dist@ + "}"@
}

fn push_triple(s: &mut String, t: &(String, String, String))
    ensures
        final(s)@ == old(s)@ + triple_json(*t),
{
    s.append("[");
    s.append(t.0.as_str());
    s.append(",");
    s.append(t.1.as_str());
    s.append(",");
    s.append(t.2.as_str());
    s.append("]");
    assert(s@ =~= old(s)@ + triple_json(*t));
}

/// One player, as it is listed.
pub fn raid_item(e: &world::Entry, t: &RaidTexts) -> (s: String)
    ensures
        s@ == raid_json(*e, *t),
{
    let mut s = copy_of("{\"ptr\":");
    push_quoted_hex(&mut s, e.ptr);
    s.append(",\"local\":");
    push_bool(&mut s, e.is_local);
    s.append(",\"bot\":");
    push_bool(&mut s, e.is_bot);
    s.append(",\"pos\":");
    push_triple(&mut s, &t.pos);
    s.append(",\"screen\":");
    push_triple(&mut s, &t.screen);
    s.append(",\"on_screen\":");
    push_bool(&mut s, e.on_screen);
    s.append(",\"dist\":");
    s.append(t.dist.as_str());
    s.append("}");
    s
}

/// What the raid framework published, with the floats of the players.
pub open spec fn raid_list_json(w: World, texts: Seq<RaidTexts>) -> Seq<char> {
    "{\"enabled\":"@ + text::bool_text(w.enabled) + ",\"count\":"@ + text::decimal_text(
        w.entries@.len() as int,
    ) + ",\"players\":"@ + list_json(
        Seq::new(w.entries@.len(), |i: int| raid_json(w.entries@[i], texts[i])),
    ) + "}"@
}

/// Switches the raid framework; answers with what it published. `texts` are the
/// floats of the players.
pub fn ep_raid(w: &mut World, q: &Query, texts: &Vec<RaidTexts>) -> (r: (
    &'static str,
    &'static str,
    String,
))
    requires
        texts.len() == old(w).entries.len(),
    ensures
        *final(w) == (World { enabled: switched(q@, "on"@, old(w).enabled), ..*old(w) }),
        answer(r) == ok_answer(raid_list_json(*final(w), texts@)),
{
    if let Some(v) = q.get("on") {
        world::set_enabled(w, is_yes(v.as_str()));
    }
    let entries: Vec<world::Entry> = world::snapshot(w);
    let mut items: Vec<String> = Vec::new();
    let mut i: usize = 0;
    while i < entries.len()
        invariant
            i <= entries.len(),
            texts.len() == entries.len(),
            items@.len() == i,
            forall|j: int| 0 <= j < i ==> (#[trigger] items@[j])@ == raid_json(entries@[j], texts@[j]),
        decreases entries.len() - i,
    {
        items.push(raid_item(&entries[i], &texts[i]));
        i = i + 1;
    }
    assert(text::texts(items@) =~= Seq::new(
        old(w).entries@.len(),
        |i: int| raid_json(old(w).entries@[i], texts@[i]),
    ));
    let mut s = copy_of("{\"enabled\":");
    push_bool(&mut s, world::is_enabled(w));
    s.append(",\"count\":");
    push_decimal(&mut s, items.len() as u64);
    s.append(",\"players\":");
    s.append(list_of(&items).as_str());
    s.append("}");
    ok(s)
}

pub open spec fn stamina_json(f: Features) -> Seq<char> {
    "{\"inf_stamina\":"@ + text::bool_text(f.stamina) + "}"@
}

/// Switches infinite stamina; answers with what it is.
pub fn ep_stamina(f: &mut Features, q: &Query) -> (r: (&'static str, &'static str, String))
    ensures
        *final(f) == (Features { stamina: switched(q@, "on"@, old(f).stamina), ..*old(f) }),
        answer(r) == ok_answer(stamina_json(*final(f))),
{
    if let Some(v) = q.get("on") {
        features::set_inf_stamina(f, is_yes(v.as_str()));
    }
    let mut s = copy_of("{\"inf_stamina\":");
    push_bool(&mut s, features::inf_stamina(f));
    s.append("}");
    ok(s)
}

/// The speed feature after a query.
pub open spec fn speed_after(f: Features, q: Map<Seq<char>, Seq<char>>, mult: Option<u32>) -> Features {
    Features {
        speed: switched(q, "on"@, f.speed),
        mult: match mult {
            Some(m) => features::clamped(m),
            None => f.mult,
        },
        ..f
    }
}

/// Switches the speed feature and sets its multiplier; `mult` are the bits of
/// the one that the query has.
pub fn set_speed(f: &mut Features, q: &Query, mult: Option<u32>)
    requires
        old(f).wf(),
    ensures
        final(f).wf(),
        *final(f) == speed_after(*old(f), q@, mult),
{
    if let Some(v) = q.get("on") {
        features::set_speed_on(f, is_yes(v.as_str()));
    }
    if let Some(m) = mult {
        features::set_speed_mult(f, m);
    }
}

pub open spec fn speed_json(f: Features, mult: Seq<char>) -> Seq<char> {
    "{\"on\":"@ + text::bool_text(f.speed) + ",\"mult\":"@ + mult + "}"@
}

/// What the speed feature is; the text is that of the multiplier.
pub fn ep_speed(f: &Features, mult: &str) -> (r: (&'static str, &'static str, String))
    ensures
        answer(r) == ok_answer(speed_json(*f, mult@)),
{
    let mut s = copy_of("{\"on\":");
    push_bool(&mut s, features::speed_on(f));
    s.append(",\"mult\":");
    s.append(mult);
    s.append("}");
    ok(s)
}

pub open spec fn visible_json(m: Menu) -> Seq<char> {
    "{\"visible\":"@ + text::bool_text(m.visible) + "}"@
}

/// Shows or hides the overlay; answers with what it is.
pub fn ep_menu(m: &mut Menu, q: &Query) -> (r: (&'static str, &'static str, String))
    ensures
        *final(m) == (Menu { visible: switched(q@, "visible"@, old(m).visible), ..*old(m) }),
        answer(r) == ok_answer(visible_json(*final(m))),
{
    if let Some(v) = q.get("visible") {
        menu::set_visible(m, is_yes(v.as_str()));
    }
    let mut s = copy_of("{\"visible\":");
    push_bool(&mut s, menu::is_visible(m));
    s.append("}");
    ok(s)
}

// ── every request ────────────────────────────────────────────────────────────

/// What only the process can tell, gathered for one request. What the endpoint
/// does not ask for is left empty.
pub struct Facts<'a, 'm> {
    pub rt: Option<&'a Il2CppRuntime<'m>>,
    pub mem: &'a Memory<'m>,
    pub world: Object,
    pub backend: Option<Backend>,
    pub domain: u64,
    /// Where the game and the engine lie.
    pub game: Option<(u64, u64)>,
    pub player: Option<(u64, u64)>,
    /// Where the module lies that the query names.
    pub module: Option<(u64, u64)>,
    pub pointer: &'a Pointer,
    /// The floats at the address of a read, as texts.
    pub f32_text: String,
    pub f64_text: String,
    /// The chain that was followed, and the floats on it as texts.
    pub chain: Option<Chain>,
    pub chain_texts: Vec<String>,
    /// The floats of a search, as bits, and the search that was made.
    pub f32_bits: Option<u32>,
    pub f64_bits: Option<u64>,
    pub scan: Option<Scan>,
    /// The floats of the players that were published, as texts.
    pub raid_texts: Vec<RaidTexts>,
    /// The multiplier of the query, as bits, and the one after it as a text.
    pub mult: Option<u32>,
    pub mult_text: String,
}

/// The chain is the one that was asked for, followed to its end.
pub open spec fn chain_fits(c: Chain, start: u64, offs: Seq<u64>) -> bool {
    &&& c.offs@ == offs
    &&& exists|mems: Seq<Map<int, u8>>| c.now() == #[trigger] chain_after(start, offs, mems)
    &&& c.broken || c.steps@.len() == offs.len()
}

/// The search is the one that was asked for, and its hits are those of a scan
/// over some regions, or the first of them where it was cut short. So every hit
/// lies in the range that was asked for, and there are no more of them than
/// were.
pub open spec fn scan_fits(s: Scan, needle: Seq<u8>, bounds: (nat, nat, nat)) -> bool {
    &&& s.wf()
    &&& s.needle@ == needle
    &&& s.start == bounds.0
    &&& s.end == bounds.1
    &&& s.max_hits == bounds.2
    &&& s.max_bytes == DEFAULT_SCAN_BYTES
    &&& exists|answers: Seq<(RegionInfo, Seq<u8>)>|
        il2cpp::ints(s.hits@).is_prefix_of(#[trigger] il2cpp::scanned_over(s, answers).hits)
}

impl<'a, 'm> Facts<'a, 'm> {
    /// The facts are those that the endpoint asks for.
    pub open spec fn fit(&self, e: Endpoint, q: Map<Seq<char>, Seq<char>>, w: World) -> bool {
        &&& self.mem.wf()
        &&& self.rt matches Some(x) ==> x.wf()
        &&& self.module matches Some(b) ==> b.0 <= b.1
        &&& e is Chain ==> (chain_asked(q) matches Ok(asked) ==> {
            &&& self.chain matches Some(c)
            &&& chain_fits(c, asked.0, asked.1)
            &&& c.steps@.len() == self.chain_texts@.len()
        })
        &&& e is Scan ==> (needle_asked(q, self.f32_bits, self.f64_bits) matches Ok(n) ==> (
        scan_asked(q, self.module) matches Ok(b) ==> self.scan matches Some(s) && scan_fits(s, n, b)))
        &&& e is Raid ==> self.raid_texts@.len() == w.entries@.len()
    }
}

/// The multiplier after a query that has one, for its text.
pub fn next_mult(f: &Features, mult: Option<u32>) -> (r: u32)
    ensures
        forall|q: Map<Seq<char>, Seq<char>>| r == (#[trigger] speed_after(*f, q, mult)).mult,
{
    match mult {
        Some(m) => {
            let mut g = Features::new();
            features::set_speed_mult(&mut g, m);
            features::speed_mult(&g)
        },
        None => features::speed_mult(f),
    }
}

/// The answer of an endpoint, with the states as they are after the request.
pub open spec fn reply(
    e: Endpoint,
    q: Map<Seq<char>, Seq<char>>,
    x: Facts<'_, '_>,
    m: Menu,
    c: Chams,
    f: Features,
    w: World,
) -> (Seq<char>, Seq<char>, Seq<char>) {
    match e {
        Endpoint::Help => ("200 OK"@, "text/plain; charset=utf-8"@, HELP_TITLE@ + HELP@),
        Endpoint::Status => ok_answer(
            status_json(x.backend, x.domain, x.game, x.player, m, *x.pointer, c),
        ),
        Endpoint::Module => module_answer(q, x.module),
        Endpoint::Class => class_answer(x.rt, q),
        Endpoint::Fields => fields_answer(x.rt, q),
        Endpoint::Methods => methods_answer(x.rt, q),
        Endpoint::Read => match read_asked(x.mem@, q) {
            Ok(r) => ok_answer(read_json(x.mem@, r.0, r.1, x.f32_text@, x.f64_text@)),
            Err(e) => err_answer(e),
        },
        Endpoint::Chain => match chain_asked(q) {
            Ok(_) => ok_answer(chain_json((x.chain->0).steps@, (x.chain->0).cur, x.chain_texts@)),
            Err(e) => err_answer(e),
        },
        Endpoint::Scan => match needle_asked(q, x.f32_bits, x.f64_bits) {
            Ok(n) => match scan_asked(q, x.module) {
                Ok(_) => ok_answer(scan_json(n.len(), (x.scan->0).hits@)),
                Err(e) => err_answer(e),
            },
            Err(e) => err_answer(e),
        },
        Endpoint::GameWorld => ok_answer(world_json(x.mem@, x.world)),
        Endpoint::Players => players_answer(x.rt, x.mem@, x.world),
        Endpoint::Chams => ok_answer(chams_json(c)),
        Endpoint::Raid => ok_answer(raid_list_json(w, x.raid_texts@)),
        Endpoint::Stamina => ok_answer(stamina_json(f)),
        Endpoint::Speed => ok_answer(speed_json(f, x.mult_text@)),
        Endpoint::Menu => ok_answer(visible_json(m)),
        Endpoint::Unknown => err_answer("unknown endpoint (GET / for help)"@),
    }
}

/// The overlay after a request.
pub open spec fn menu_after(e: Endpoint, q: Map<Seq<char>, Seq<char>>, m: Menu) -> Menu {
    match e {
        Endpoint::Menu => Menu { visible: switched(q, "visible"@, m.visible), ..m },
        _ => m,
    }
}

/// The features after a request.
pub open spec fn features_after(
    e: Endpoint,
    q: Map<Seq<char>, Seq<char>>,
    mult: Option<u32>,
    f: Features,
) -> Features {
    match e {
        Endpoint::Stamina => Features { stamina: switched(q, "on"@, f.stamina), ..f },
        Endpoint::Speed => speed_after(f, q, mult),
        _ => f,
    }
}

/// The raid framework after a request.
pub open spec fn world_after(e: Endpoint, q: Map<Seq<char>, Seq<char>>, w: World) -> World {
    match e {
        Endpoint::Raid => World { enabled: switched(q, "on"@, w.enabled), ..w },
        _ => w,
    }
}

/// An answer is that of its endpoint: the status is one of two, only the help is
/// plain text, and an error says so in its body.
pub open spec fn proper(e: Endpoint, a: (Seq<char>, Seq<char>, Seq<char>)) -> bool {
    &&& a.0 == "200 OK"@ || a.0 == "400 Bad Request"@
    &&& a.1 == if e is Help {
        "text/plain; charset=utf-8"@
    } else {
        "application/json"@
    }
    &&& a.0 == "400 Bad Request"@ <==> text::begins(a.2, "{\"error\":"@)
}

/// Answers a request: with the endpoint's own answer, and the states changed as
/// that endpoint changes them and no other way.
pub fn respond(
    e: Endpoint,
    q: &Query,
    x: &Facts<'_, '_>,
    m: &mut Menu,
    c: &mut Chams,
    f: &mut Features,
    w: &mut World,
) -> (r: (&'static str, &'static str, String))
    requires
        x.fit(e, q@, *old(w)),
        old(c).wf(),
        old(f).wf(),
    ensures
        *final(m) == menu_after(e, q@, *old(m)),
        *final(c) == if e is Chams {
            chams_after(*old(c), q@)
        } else {
            *old(c)
        },
        *final(f) == features_after(e, q@, x.mult, *old(f)),
        *final(w) == world_after(e, q@, *old(w)),
        final(c).wf(),
        final(f).wf(),
        answer(r) == reply(e, q@, *x, *final(m), *final(c), *final(f), *final(w)),
        proper(e, answer(r)),
{
    proof {
        law_answers(
            e,
            q@,
            *x,
            menu_after(e, q@, *m),
            if e is Chams {
                chams_after(*c, q@)
            } else {
                *c
            },
            features_after(e, q@, x.mult, *f),
            world_after(e, q@, *w),
        );
    }
    match e {
        Endpoint::Help => ep_help(),
        Endpoint::Status => ep_status(x.backend, x.domain, x.game, x.player, m, x.pointer, c),
        Endpoint::Module => ep_module(q, x.module),
        Endpoint::Class => ep_class(x.rt, q),
        Endpoint::Fields => ep_fields(x.rt, q),
        Endpoint::Methods => ep_methods(x.rt, q),
        Endpoint::Read => match read_window(x.mem, q) {
            Ok((addr, len)) => ep_read(x.mem, addr, len, x.f32_text.as_str(), x.f64_text.as_str()),
            Err(e) => err(e),
        },
        Endpoint::Chain => match (start_chain(q), &x.chain) {
            (Err(e), _) => err(e),
            (Ok(_), Some(c)) => ep_chain(&c.steps, c.cur, &x.chain_texts),
            (Ok(_), None) => err("empty path"),
        },
        Endpoint::Scan => match build_needle(q, x.f32_bits, x.f64_bits) {
            Ok(n) => match scan_bounds(q, x.module) {
                Ok(_) => match &x.scan {
                    Some(s) => ep_scan(n.len(), &s.hits),
                    None => err("module not loaded"),
                },
                Err(e) => err(e),
            },
            Err(e) => err(e),
        },
        Endpoint::GameWorld => ep_gameworld(x.mem, x.world),
        Endpoint::Players => ep_players(x.rt, x.mem, x.world),
        Endpoint::Chams => ep_chams(c, q),
        Endpoint::Raid => ep_raid(w, q, &x.raid_texts),
        Endpoint::Stamina => ep_stamina(f, q),
        Endpoint::Speed => {
            set_speed(f, q, x.mult);
            ep_speed(f, x.mult_text.as_str())
        },
        Endpoint::Menu => ep_menu(m, q),
        Endpoint::Unknown => ep_unknown(),
    }
}

/// What a chain is answered with starts where it was asked to and keeps to the
/// path: each step takes its own offset, from where the one before it led.
pub proof fn law_chain_answer(
    q: Map<Seq<char>, Seq<char>>,
    x: Facts<'_, '_>,
    w: World,
    i: int,
)
    requires
        x.fit(Endpoint::Chain, q, w),
    ensures
        chain_asked(q) matches Ok(asked) ==> {
            let c = x.chain->0;
            &&& c.steps@.len() > 0
            &&& c.steps@.len() <= asked.1.len()
            &&& 0 <= i < c.steps@.len() ==> c.steps@[i].off == asked.1[i]
            &&& c.steps@[0].at == wrapped(asked.0 + asked.1[0])
            &&& 0 < i < c.steps@.len() ==> c.steps@[i].at == wrapped(
                c.steps@[i - 1].ptr->0 + asked.1[i],
            )
            &&& c.steps@.len() < asked.1.len() ==> c.steps@.last().ptr is None
            &&& c.steps@.last().ptr matches Some(p) ==> c.cur == p
        },
{
    if let Ok(asked) = chain_asked(q) {
        let c = x.chain->0;
        let mems = choose|mems: Seq<Map<int, u8>>|
            c.now() == #[trigger] chain_after(asked.0, asked.1, mems);
        law_chain_links(asked.0, asked.1, mems, i);
        law_chain_links(asked.0, asked.1, mems, 0);
    }
}

/// What a search is answered with lies in the range that was asked for, in no
/// more hits than were.
pub proof fn law_scan_answer(q: Map<Seq<char>, Seq<char>>, x: Facts<'_, '_>, w: World, i: int)
    requires
        x.fit(Endpoint::Scan, q, w),
    ensures
        needle_asked(q, x.f32_bits, x.f64_bits) is Ok ==> (scan_asked(q, x.module) matches Ok(b)
            ==> {
            let s = x.scan->0;
            &&& s.hits@.len() <= b.2
            &&& 0 <= i < s.hits@.len() ==> b.0 <= s.hits@[i] < b.1
        }),
{
}

/// A body that differs from an error's in one of the first characters is none.
proof fn lemma_no_error(body: Seq<char>, k: int)
    requires
        0 <= k < "{\"error\":"@.len(),
        k >= body.len() || body[k] != "{\"error\":"@[k],
    ensures
        !text::begins(body, "{\"error\":"@),
{
    let head = "{\"error\":"@;
    if text::begins(body, head) {
        assert(body[0 + k] == head[k]);
    }
}

/// An error says so.
proof fn lemma_error_proper(e: Endpoint, msg: Seq<char>)
    requires
        !(e is Help),
    ensures
        proper(e, err_answer(msg)),
{
    let head = "{\"error\":"@;
    let body = head + json_text(msg) + "}"@;
    assert(body.subrange(0, head.len() as int) =~= head);
}

/// A body that differs from an error's makes a proper answer.
proof fn lemma_ok_proper(e: Endpoint, body: Seq<char>, k: int)
    requires
        !(e is Help),
        0 <= k < 5,
        k >= body.len() || body[k] != seq!['{', '"', 'e', 'r', 'r'][k],
    ensures
        proper(e, ok_answer(body)),
{
    reveal_strlit("{\"error\":");
    reveal_strlit("200 OK");
    reveal_strlit("400 Bad Request");
    assert("200 OK"@.len() != "400 Bad Request"@.len());
    lemma_no_error(body, k);
}

/// Every answer is proper, whatever the request and the states are.
#[verifier::rlimit(50)]
pub proof fn law_answers(
    e: Endpoint,
    q: Map<Seq<char>, Seq<char>>,
    x: Facts<'_, '_>,
    m: Menu,
    c: Chams,
    f: Features,
    w: World,
)
    ensures
        proper(e, reply(e, q, x, m, c, f, w)),
{
    let r = reply(e, q, x, m, c, f, w);
    match e {
        Endpoint::Help => {
            reveal_strlit("{\"error\":");
            reveal_strlit("200 OK");
            reveal_strlit("400 Bad Request");
            reveal_strlit("eftTrainer HTTP control\n");
            assert(r.2[0] == 'e');
            assert("200 OK"@.len() != "400 Bad Request"@.len());
            lemma_no_error(r.2, 0);
        },
        Endpoint::Status => {
            reveal_strlit("{\"backend\":");
            assert(r.2[2] == 'b');
            lemma_ok_proper(e, r.2, 2);
        },
        Endpoint::Module => {
            if param(q, "name"@) is None {
                lemma_error_proper(e, "need name="@);
            } else if x.module is None {
                lemma_error_proper(e, "module not loaded"@);
            } else {
                reveal_strlit("{\"name\":");
                assert(r.2[2] == 'n');
                lemma_ok_proper(e, r.2, 2);
            }
        },
        Endpoint::Class => {
            match x.rt {
                None => {
                    lemma_error_proper(e, "runtime not ready"@);
                },
                Some(rt) => match class_asked(rt, q) {
                    Ok(k) => {
                        reveal_strlit("{\"ptr\":");
                        assert(r.2[2] == 'p');
                        lemma_ok_proper(e, r.2, 2);
                    },
                    Err(msg) => {
                        lemma_error_proper(e, msg);
                    },
                },
            }
        },
        Endpoint::Fields => {
            lemma_list_proper(e, x.rt, q, r);
        },
        Endpoint::Methods => {
            lemma_list_proper(e, x.rt, q, r);
        },
        Endpoint::Read => {
            match read_asked(x.mem@, q) {
                Ok(_) => {
                    reveal_strlit("{\"addr\":");
                    assert(r.2[2] == 'a');
                    lemma_ok_proper(e, r.2, 2);
                },
                Err(msg) => {
                    lemma_error_proper(e, msg);
                },
            }
        },
        Endpoint::Chain => {
            match chain_asked(q) {
                Ok(_) => {
                    reveal_strlit("{\"final\":");
                    assert(r.2[2] == 'f');
                    lemma_ok_proper(e, r.2, 2);
                },
                Err(msg) => {
                    lemma_error_proper(e, msg);
                },
            }
        },
        Endpoint::Scan => {
            match (needle_asked(q, x.f32_bits, x.f64_bits), scan_asked(q, x.module)) {
                (Ok(_), Ok(_)) => {
                    reveal_strlit("{\"needle_len\":");
                    assert(r.2[2] == 'n');
                    lemma_ok_proper(e, r.2, 2);
                },
                (Err(msg), _) => {
                    lemma_error_proper(e, msg);
                },
                (Ok(_), Err(msg)) => {
                    lemma_error_proper(e, msg);
                },
            }
        },
        Endpoint::GameWorld => {
            reveal_strlit("{\"ptr\":");
            assert(r.2[2] == 'p');
            lemma_ok_proper(e, r.2, 2);
        },
        Endpoint::Players => {
            lemma_players_proper(e, x, r);
        },
        Endpoint::Chams => {
            reveal_strlit("{\"on\":");
            assert(r.2[2] == 'o');
            lemma_ok_proper(e, r.2, 2);
        },
        Endpoint::Raid => {
            reveal_strlit("{\"enabled\":");
            assert(r.2[3] == 'n');
            lemma_ok_proper(e, r.2, 3);
        },
        Endpoint::Stamina => {
            reveal_strlit("{\"inf_stamina\":");
            assert(r.2[2] == 'i');
            lemma_ok_proper(e, r.2, 2);
        },
        Endpoint::Speed => {
            reveal_strlit("{\"on\":");
            assert(r.2[2] == 'o');
            lemma_ok_proper(e, r.2, 2);
        },
        Endpoint::Menu => {
            reveal_strlit("{\"visible\":");
            assert(r.2[2] == 'v');
            lemma_ok_proper(e, r.2, 2);
        },
        Endpoint::Unknown => {
            lemma_error_proper(e, "unknown endpoint (GET / for help)"@);
        },
    }
}

/// A path that is served.
pub open spec fn served(path: Seq<char>) -> bool {
    ||| path == "/"@
    ||| path == "/status"@
    ||| path == "/module"@
    ||| path == "/class"@
    ||| path == "/fields"@
    ||| path == "/methods"@
    ||| path == "/read"@
    ||| path == "/chain"@
    ||| path == "/scan"@
    ||| path == "/gameworld"@
    ||| path == "/players"@
    ||| path == "/chams"@
    ||| path == "/raid"@
    ||| path == "/stamina"@
    ||| path == "/speed"@
    ||| path == "/menu"@
}

/// Every path gets a proper answer, plain text only where it is the help's; a
/// path that is not served is answered with an error and changes nothing.
pub proof fn law_routes(
    path: Seq<char>,
    q: Map<Seq<char>, Seq<char>>,
    x: Facts<'_, '_>,
    m: Menu,
    c: Chams,
    f: Features,
    w: World,
)
    ensures
        ({
            let e = endpoint_of(path);
            let a = reply(e, q, x, m, c, f, w);
            &&& proper(e, a)
            &&& a.1 == "text/plain; charset=utf-8"@ <==> path == "/"@
            &&& a.1 == "application/json"@ <==> path != "/"@
            &&& !served(path) <==> e is Unknown
            &&& !served(path) ==> {
                &&& a.0 == "400 Bad Request"@
                &&& a.2 == "{\"error\":"@ + json_text("unknown endpoint (GET / for help)"@) + "}"@
                &&& menu_after(e, q, m) == m
                &&& features_after(e, q, x.mult, f) == f
                &&& world_after(e, q, w) == w
            }
        }),
{
    law_answers(endpoint_of(path), q, x, m, c, f, w);
    reveal_strlit("text/plain; charset=utf-8");
    reveal_strlit("application/json");
    assert("text/plain; charset=utf-8"@.len() != "application/json"@.len());
}

proof fn lemma_list_proper(
    e: Endpoint,
    rt: Option<&Il2CppRuntime<'_>>,
    q: Map<Seq<char>, Seq<char>>,
    r: (Seq<char>, Seq<char>, Seq<char>),
)
    requires
        e is Fields && r == fields_answer(rt, q) || e is Methods && r == methods_answer(rt, q),
    ensures
        proper(e, r),
{
    match rt {
        None => {
            lemma_error_proper(e, "runtime not ready"@);
        },
        Some(x) => match class_asked(x, q) {
            Ok(_) => {
                reveal_strlit("[");
                assert(r.2[0] == '[');
                lemma_ok_proper(e, r.2, 0);
            },
            Err(msg) => {
                lemma_error_proper(e, msg);
            },
        },
    }
}

proof fn lemma_players_proper(
    e: Endpoint,
    x: Facts<'_, '_>,
    r: (Seq<char>, Seq<char>, Seq<char>),
)
    requires
        e is Players,
        r == players_answer(x.rt, x.mem@, x.world),
    ensures
        proper(e, r),
{
    lemma_error_proper(e, "runtime not ready"@);
    lemma_error_proper(e, "GameWorld class not found"@);
    lemma_error_proper(e, "no player-list field on GameWorld"@);
    if r.0 == "200 OK"@ {
        reveal_strlit("{\"gameworld\":null,\"players\":[]}");
        reveal_strlit("{\"gameworld\":");
        reveal_strlit("200 OK");
        reveal_strlit("400 Bad Request");
        assert("200 OK"@.len() != "400 Bad Request"@.len());
        assert(r.2[2] == 'g');
        lemma_ok_proper(e, r.2, 2);
    }
}

} // verus!
