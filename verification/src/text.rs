//! Text as sequences of characters: comparison, numbers, trimming, joining.

use vstd::prelude::*;

verus! {

/// `String::push` appends one character.
pub assume_specification[ String::push ](s: &mut String, c: char)
    ensures
        final(s)@ == old(s)@.push(c),
;

/// `str` equality: equal exactly if the characters are.
pub assume_specification[ <str as PartialEq>::eq ](a: &str, b: &str) -> (r: bool)
    ensures
        r == (a@ == b@),
;

/// The characters of a string.
pub fn chars_of(s: &str) -> (v: Vec<char>)
    ensures
        v@ == s@,
{
    let mut v: Vec<char> = Vec::new();
    for c in it: s.chars()
        invariant
            v@ == it.seq().take(it.index() as int),
    {
        v.push(c);
        assert(it.seq().take(it.index() + 1) == it.seq().take(it.index() as int).push(c));
    }
    assert(v@ == s@);
    v
}

/// A string of the characters `from..to`.
pub fn string_of(v: &Vec<char>, from: usize, to: usize) -> (s: String)
    requires
        from <= to <= v.len(),
    ensures
        s@ == v@.subrange(from as int, to as int),
{
    let mut s = String::new();
    let mut i: usize = from;
    while i < to
        invariant
            from <= i <= to <= v.len(),
            s@ == v@.subrange(from as int, i as int),
        decreases to - i,
    {
        s.push(v[i]);
        i = i + 1;
        assert(v@.subrange(from as int, i as int) == v@.subrange(from as int, i - 1).push(v@[i - 1]));
    }
    s
}

/// Whether two strings have the same characters.
pub fn same(a: &str, b: &str) -> (r: bool)
    ensures
        r == (a@ == b@),
{
    *a == *b
}

/// A string of the given characters.
pub fn copy_of(s: &str) -> (r: String)
    ensures
        r@ == s@,
{
    s.to_owned()
}

/// The characters of each string of a list.
pub open spec fn texts(v: Seq<String>) -> Seq<Seq<char>> {
    v.map_values(|s: String| s@)
}

// -- numbers as text ---------------------------------------------------------

/// The digit `d` of any base up to sixteen, in lower case.
pub open spec fn digit(d: nat) -> char {
    if d < 10 {
        (48 + d) as char
    } else {
        (87 + d) as char
    }
}

/// The digit `d` of any base up to sixteen, in upper case.
pub open spec fn upper_digit(d: nat) -> char {
    if d < 10 {
        (48 + d) as char
    } else {
        (55 + d) as char
    }
}

/// `n` in base `radix`, without leading zeros.
pub open spec fn numeral(n: nat, radix: nat) -> Seq<char>
    decreases n,
{
    if radix < 2 || n < radix {
        seq![digit(n)]
    } else {
        proof {
            assert(n / radix < n) by (nonlinear_arith)
                requires
                    n >= radix,
                    radix >= 2,
            ;
        }
        numeral(n / radix, radix).push(digit(n % radix))
    }
}

/// `n` in decimal, with a minus sign where it is negative.
pub open spec fn decimal_text(n: int) -> Seq<char> {
    if n < 0 {
        seq!['-'] + numeral((-n) as nat, 10)
    } else {
        numeral(n as nat, 10)
    }
}

/// `n` in hexadecimal behind `0x`.
pub open spec fn hex_text(n: nat) -> Seq<char> {
    seq!['0', 'x'] + numeral(n, 16)
}

/// The 32 bits of a signed value, as an unsigned one.
pub open spec fn bits32(v: int) -> nat {
    if v < 0 {
        (v + 0x1_0000_0000) as nat
    } else {
        v as nat
    }
}

/// The two upper-case digits of a byte.
pub open spec fn byte_text(b: u8) -> Seq<char> {
    seq![upper_digit((b / 16) as nat), upper_digit((b % 16) as nat)]
}

pub open spec fn bool_text(b: bool) -> Seq<char> {
    if b {
        "true"@
    } else {
        "false"@
    }
}

/// The digit `d` in lower case.
pub fn digit_char(d: u8) -> (c: char)
    requires
        d < 16,
    ensures
        c == digit(d as nat),
{
    if d < 10 {
        (48 + d) as char
    } else {
        (87 + d) as char
    }
}

fn upper_digit_char(d: u8) -> (c: char)
    requires
        d < 16,
    ensures
        c == upper_digit(d as nat),
{
    if d < 10 {
        (48 + d) as char
    } else {
        (55 + d) as char
    }
}

fn push_numeral(s: &mut String, n: u64, radix: u64)
    requires
        2 <= radix <= 16,
    ensures
        final(s)@ == old(s)@ + numeral(n as nat, radix as nat),
    decreases n,
{
    if n < radix {
        s.push(digit_char(n as u8));
        assert(s@ == old(s)@ + numeral(n as nat, radix as nat));
    } else {
        assert(n / radix < n) by (nonlinear_arith)
            requires
                n >= radix,
                radix >= 2,
        ;
        assert(n % radix < radix) by (nonlinear_arith)
            requires
                radix >= 2,
        ;
        push_numeral(s, n / radix, radix);
        s.push(digit_char((n % radix) as u8));
        assert(s@ == old(s)@ + numeral(n as nat, radix as nat));
    }
}

/// Appends `n` in decimal.
pub fn push_decimal(s: &mut String, n: u64)
    ensures
        final(s)@ == old(s)@ + decimal_text(n as int),
{
    push_numeral(s, n, 10);
}

/// Appends a signed number in decimal.
pub fn push_signed(s: &mut String, n: i64)
    ensures
        final(s)@ == old(s)@ + decimal_text(n as int),
{
    if n < 0 {
        s.push('-');
        let m: u64 = (-(n + 1)) as u64 + 1;
        push_numeral(s, m, 10);
        assert(s@ == old(s)@ + decimal_text(n as int));
    } else {
        push_numeral(s, n as u64, 10);
    }
}

/// Appends `n` in hexadecimal behind `0x`.
pub fn push_hex(s: &mut String, n: u64)
    ensures
        final(s)@ == old(s)@ + hex_text(n as nat),
{
    s.push('0');
    s.push('x');
    push_numeral(s, n, 16);
    assert(s@ == old(s)@ + hex_text(n as nat));
}

/// The 32 bits of a signed value.
pub fn low32(v: i32) -> (r: u64)
    ensures
        r == bits32(v as int),
{
    if v < 0 {
        (v as i64 + 0x1_0000_0000) as u64
    } else {
        v as u64
    }
}

/// Appends the two upper-case digits of a byte.
pub fn push_byte(s: &mut String, b: u8)
    ensures
        final(s)@ == old(s)@ + byte_text(b),
{
    s.push(upper_digit_char(b / 16));
    s.push(upper_digit_char(b % 16));
    assert(s@ == old(s)@ + byte_text(b));
}

/// Appends `true` or `false`.
pub fn push_bool(s: &mut String, b: bool)
    ensures
        final(s)@ == old(s)@ + bool_text(b),
{
    if b {
        s.append("true");
    } else {
        s.append("false");
    }
}

// -- text as numbers ---------------------------------------------------------

/// The value of a digit of any base up to sixteen, in either case.
pub open spec fn digit_value(c: char) -> Option<nat> {
    if '0' <= c <= '9' {
        Some((c as nat - 48) as nat)
    } else if 'a' <= c <= 'f' {
        Some((c as nat - 87) as nat)
    } else if 'A' <= c <= 'F' {
        Some((c as nat - 55) as nat)
    } else {
        None
    }
}

/// The value of a run of digits; none where one of them is not of the base.
pub open spec fn value_of(s: Seq<char>, radix: nat) -> Option<nat>
    decreases s.len(),
{
    if s.len() == 0 {
        Some(0)
    } else {
        match (value_of(s.drop_last(), radix), digit_value(s.last())) {
            (Some(v), Some(d)) => if d < radix {
                Some(v * radix + d)
            } else {
                None
            },
            _ => None,
        }
    }
}

/// The text behind one leading plus sign.
pub open spec fn past_plus(s: Seq<char>) -> Seq<char> {
    if s.len() > 0 && s[0] == '+' {
        s.skip(1)
    } else {
        s
    }
}

/// An unsigned 64-bit number: an optional plus sign, then digits.
pub open spec fn unsigned_of(s: Seq<char>, radix: nat) -> Option<nat> {
    let d = past_plus(s);
    if d.len() == 0 {
        None
    } else {
        match value_of(d, radix) {
            Some(v) => if v <= u64::MAX {
                Some(v)
            } else {
                None
            },
            None => None,
        }
    }
}

/// A signed 64-bit number: an optional sign, then digits.
pub open spec fn signed_of(s: Seq<char>, radix: nat) -> Option<int> {
    let neg = s.len() > 0 && s[0] == '-';
    let d = if neg {
        s.skip(1)
    } else {
        past_plus(s)
    };
    if d.len() == 0 {
        None
    } else {
        match value_of(d, radix) {
            Some(v) => if neg && v <= 0x8000_0000_0000_0000 {
                Some(-(v as int))
            } else if !neg && v <= i64::MAX {
                Some(v as int)
            } else {
                None
            },
            None => None,
        }
    }
}

/// Digits that follow can only make a value larger.
proof fn lemma_value_grows(s: Seq<char>, i: int, radix: nat)
    requires
        0 <= i <= s.len(),
        radix >= 1,
        value_of(s, radix) is Some,
    ensures
        value_of(s.take(i), radix) is Some,
        value_of(s.take(i), radix)->0 <= value_of(s, radix)->0,
    decreases s.len(),
{
    if i == s.len() {
        assert(s.take(i) == s);
    } else {
        lemma_value_grows(s.drop_last(), i, radix);
        assert(s.drop_last().take(i) == s.take(i));
        let v = value_of(s.drop_last(), radix)->0;
        assert(v * radix >= v) by (nonlinear_arith)
            requires
                radix >= 1,
        ;
    }
}

/// The value of a digit in base sixteen.
pub fn hex_value(c: char) -> (r: Option<u8>)
    ensures
        r is Some == digit_value(c) is Some,
        r matches Some(d) ==> d < 16 && d as nat == digit_value(c)->0,
{
    if '0' <= c && c <= '9' {
        Some((c as u32 - 48) as u8)
    } else if 'a' <= c && c <= 'f' {
        Some((c as u32 - 87) as u8)
    } else if 'A' <= c && c <= 'F' {
        Some((c as u32 - 55) as u8)
    } else {
        None
    }
}

/// The value of the digits `from..`, where it fits 64 bits.
fn value(v: &Vec<char>, from: usize, radix: u64) -> (r: Option<u64>)
    requires
        from <= v.len(),
        2 <= radix <= 16,
    ensures
        ({
            let s = v@.skip(from as int);
            let w = value_of(s, radix as nat);
            &&& r is Some == (w is Some && w->0 <= u64::MAX)
            &&& r matches Some(n) ==> n == w->0
        }),
{
    let ghost s = v@.skip(from as int);
    let mut acc: u64 = 0;
    let mut i: usize = from;
    while i < v.len()
        invariant
            from <= i <= v.len(),
            2 <= radix <= 16,
            s == v@.skip(from as int),
            value_of(s.take(i - from), radix as nat) == Some(acc as nat),
        decreases v.len() - i,
    {
        let ghost k = i - from;
        let c = v[i];
        proof {
            assert(s.take(k + 1).drop_last() == s.take(k));
            assert(s.take(k + 1).last() == c);
            if value_of(s, radix as nat) is Some {
                lemma_value_grows(s, k + 1, radix as nat);
            }
        }
        match hex_value(c) {
            Some(d) => {
                if d as u64 >= radix {
                    return None;
                }
                match acc.checked_mul(radix) {
                    Some(m) => match m.checked_add(d as u64) {
                        Some(n) => {
                            acc = n;
                        },
                        None => {
                            return None;
                        },
                    },
                    None => {
                        return None;
                    },
                }
            },
            None => {
                return None;
            },
        }
        i = i + 1;
    }
    assert(s.take(i - from) == s);
    Some(acc)
}

/// Parses the characters `from..` as an unsigned number.
pub fn parse_unsigned(v: &Vec<char>, from: usize, radix: u64) -> (r: Option<u64>)
    requires
        from <= v.len(),
        2 <= radix <= 16,
    ensures
        ({
            let w = unsigned_of(v@.skip(from as int), radix as nat);
            &&& r is Some == w is Some
            &&& r matches Some(n) ==> n == w->0
        }),
{
    let ghost s = v@.skip(from as int);
    let mut at: usize = from;
    if at < v.len() && v[at] == '+' {
        at = at + 1;
        assert(s.skip(1) == v@.skip(at as int));
    }
    if at == v.len() {
        return None;
    }
    value(v, at, radix)
}

/// Parses the characters `from..` as a signed number.
pub fn parse_signed(v: &Vec<char>, from: usize, radix: u64) -> (r: Option<i64>)
    requires
        from <= v.len(),
        2 <= radix <= 16,
    ensures
        ({
            let w = signed_of(v@.skip(from as int), radix as nat);
            &&& r is Some == w is Some
            &&& r matches Some(n) ==> n == w->0
        }),
{
    let ghost s = v@.skip(from as int);
    let mut at: usize = from;
    let mut neg = false;
    if at < v.len() && (v[at] == '+' || v[at] == '-') {
        neg = v[at] == '-';
        at = at + 1;
        assert(s.skip(1) == v@.skip(at as int));
    }
    if at == v.len() {
        return None;
    }
    match value(v, at, radix) {
        Some(n) => if neg {
            if n == 0x8000_0000_0000_0000 {
                Some(i64::MIN)
            } else if n < 0x8000_0000_0000_0000 {
                Some(-(n as i64))
            } else {
                None
            }
        } else if n <= 0x7fff_ffff_ffff_ffff {
            Some(n as i64)
        } else {
            None
        },
        None => None,
    }
}

// -- shape -------------------------------------------------------------------

/// The characters with the Unicode property `White_Space`.
pub open spec fn white(c: char) -> bool {
    let n = c as u32;
    ||| 0x09 <= n <= 0x0d
    ||| n == 0x20
    ||| n == 0x85
    ||| n == 0xa0
    ||| n == 0x1680
    ||| 0x2000 <= n <= 0x200a
    ||| n == 0x2028
    ||| n == 0x2029
    ||| n == 0x202f
    ||| n == 0x205f
    ||| n == 0x3000
}

pub fn is_white(c: char) -> (r: bool)
    ensures
        r == white(c),
{
    let n: u32 = c as u32;
    (0x09 <= n && n <= 0x0d) || n == 0x20 || n == 0x85 || n == 0xa0 || n == 0x1680 || (0x2000 <= n
        && n <= 0x200a) || n == 0x2028 || n == 0x2029 || n == 0x202f || n == 0x205f || n == 0x3000
}

/// The text without white space in front.
pub open spec fn trim_front(s: Seq<char>) -> Seq<char>
    decreases s.len(),
{
    if s.len() > 0 && white(s[0]) {
        trim_front(s.skip(1))
    } else {
        s
    }
}

/// The text without white space behind.
pub open spec fn trim_back(s: Seq<char>) -> Seq<char>
    decreases s.len(),
{
    if s.len() > 0 && white(s.last()) {
        trim_back(s.drop_last())
    } else {
        s
    }
}

/// The text without white space at either end.
pub open spec fn trimmed(s: Seq<char>) -> Seq<char> {
    trim_back(trim_front(s))
}

/// A digit is read as what was written.
proof fn lemma_digit(d: nat)
    requires
        d < 16,
    ensures
        digit_value(digit(d)) == Some(d),
        !white(digit(d)),
{
}

/// A numeral is made of digits of its base, and its value is the number.
pub proof fn law_numeral(n: nat, radix: nat)
    requires
        2 <= radix <= 16,
    ensures
        numeral(n, radix).len() > 0,
        value_of(numeral(n, radix), radix) == Some(n),
        forall|i: int|
            0 <= i < numeral(n, radix).len() ==> digit_value(#[trigger] numeral(n, radix)[i])
                is Some && !white(numeral(n, radix)[i]),
    decreases n,
{
    let s = numeral(n, radix);
    if n < radix {
        lemma_digit(n);
        assert(s.drop_last() =~= Seq::<char>::empty());
        assert(s.last() == digit(n));
        assert(value_of(s.drop_last(), radix) == Some(0nat));
        assert(0 * radix == 0) by (nonlinear_arith);
    } else {
        assert(n / radix < n) by (nonlinear_arith)
            requires
                n >= radix,
                radix >= 2,
        ;
        assert(n % radix < radix && (n / radix) * radix + n % radix == n) by (nonlinear_arith)
            requires
                radix >= 2,
        ;
        law_numeral(n / radix, radix);
        lemma_digit(n % radix);
        assert(s.drop_last() =~= numeral(n / radix, radix));
        assert(value_of(s, radix) == Some((n / radix) * radix + n % radix));
    }
}

/// Text without white space at either end is not trimmed.
pub proof fn lemma_untrimmed(s: Seq<char>)
    requires
        s.len() > 0,
        !white(s[0]),
        !white(s.last()),
    ensures
        trimmed(s) == s,
{
}

proof fn lemma_trim_front(before: Seq<char>, s: Seq<char>)
    requires
        forall|i: int| 0 <= i < before.len() ==> white(#[trigger] before[i]),
    ensures
        trim_front(before + s) == trim_front(s),
    decreases before.len(),
{
    if before.len() == 0 {
        assert(before + s =~= s);
    } else {
        assert((before + s)[0] == before[0]);
        assert((before + s).skip(1) =~= before.skip(1) + s);
        assert forall|i: int| 0 <= i < before.skip(1).len() implies white(
            #[trigger] before.skip(1)[i],
        ) by {
            assert(before.skip(1)[i] == before[i + 1]);
        }
        lemma_trim_front(before.skip(1), s);
    }
}

proof fn lemma_trim_back(s: Seq<char>, after: Seq<char>)
    requires
        forall|i: int| 0 <= i < after.len() ==> white(#[trigger] after[i]),
    ensures
        trim_back(s + after) == trim_back(s),
    decreases after.len(),
{
    if after.len() == 0 {
        assert(s + after =~= s);
    } else {
        assert((s + after).last() == after[after.len() - 1]);
        assert((s + after).drop_last() =~= s + after.drop_last());
        lemma_trim_back(s, after.drop_last());
    }
}

/// White space around a text is all that is trimmed.
pub proof fn law_padding_trimmed(before: Seq<char>, s: Seq<char>, after: Seq<char>)
    requires
        s.len() > 0,
        !white(s[0]),
        !white(s.last()),
        forall|i: int| 0 <= i < before.len() ==> white(#[trigger] before[i]),
        forall|i: int| 0 <= i < after.len() ==> white(#[trigger] after[i]),
    ensures
        trimmed(before + s + after) == s,
{
    assert(before + s + after =~= before + (s + after));
    lemma_trim_front(before, s + after);
    assert((s + after)[0] == s[0]);
    lemma_trim_back(s, after);
    lemma_untrimmed(s);
}

/// A hexadecimal digit in upper case.
pub open spec fn raised(c: char) -> char {
    if 'a' <= c <= 'f' {
        ((c as u32) - 32) as char
    } else {
        c
    }
}

/// Digits, each in upper case where `big` says so.
pub open spec fn cased(s: Seq<char>, big: spec_fn(int) -> bool) -> Seq<char> {
    Seq::new(
        s.len(),
        |i: int|
            if big(i) {
                raised(s[i])
            } else {
                s[i]
            },
    )
}

/// The value of digits does not depend on their case.
pub proof fn law_case_is_free(s: Seq<char>, radix: nat, big: spec_fn(int) -> bool)
    ensures
        value_of(cased(s, big), radix) == value_of(s, radix),
    decreases s.len(),
{
    if s.len() > 0 {
        law_case_is_free(s.drop_last(), radix, big);
        assert(cased(s, big).drop_last() =~= cased(s.drop_last(), big));
        assert(cased(s, big).last() == s.last() || cased(s, big).last() == raised(s.last()));
        assert(digit_value(raised(s.last())) == digit_value(s.last()));
    } else {
        assert(cased(s, big) =~= s);
    }
}

/// The characters of a string without white space at either end.
pub fn trim(s: &str) -> (r: Vec<char>)
    ensures
        r@ == trimmed(s@),
{
    let v = chars_of(s);
    let mut a: usize = 0;
    assert(v@.skip(0) == v@);
    while a < v.len() && is_white(v[a])
        invariant
            a <= v.len(),
            trim_front(v@) == trim_front(v@.skip(a as int)),
        decreases v.len() - a,
    {
        assert(v@.skip(a as int).skip(1) == v@.skip(a + 1));
        a = a + 1;
    }
    let ghost f = v@.skip(a as int);
    assert(trim_front(v@) == f);
    let mut b: usize = v.len();
    assert(f.take(b - a) == f);
    while a < b && is_white(v[b - 1])
        invariant
            a <= b <= v.len(),
            f == v@.skip(a as int),
            trim_back(f) == trim_back(f.take(b - a)),
        decreases b,
    {
        assert(f.take(b - a).drop_last() == f.take(b - 1 - a));
        b = b - 1;
    }
    let mut r: Vec<char> = Vec::new();
    let mut i: usize = a;
    while i < b
        invariant
            a <= i <= b <= v.len(),
            f == v@.skip(a as int),
            r@ == f.take(i - a),
        decreases b - i,
    {
        r.push(v[i]);
        i = i + 1;
        assert(f.take(i - a) == f.take(i - 1 - a).push(v@[i - 1]));
    }
    r
}

/// The pieces of a text between the occurrences of `c`; one empty piece where
/// there is no text.
pub open spec fn split(s: Seq<char>, c: char) -> Seq<Seq<char>>
    decreases s.len(),
{
    if s.len() == 0 {
        seq![Seq::<char>::empty()]
    } else {
        let p = split(s.drop_last(), c);
        if s.last() == c {
            p.push(Seq::empty())
        } else {
            p.drop_last().push(p.last().push(s.last()))
        }
    }
}

/// Splits a string at every `c`.
pub fn split_at_char(s: &str, c: char) -> (r: Vec<String>)
    ensures
        texts(r@) == split(s@, c),
{
    let v = chars_of(s);
    let mut done: Vec<String> = Vec::new();
    let mut cur = String::new();
    let mut i: usize = 0;
    assert(split(v@.take(0), c) == texts(done@).push(cur@));
    while i < v.len()
        invariant
            i <= v.len(),
            split(v@.take(i as int), c) == texts(done@).push(cur@),
        decreases v.len() - i,
    {
        let ghost before = texts(done@);
        assert(v@.take(i + 1).drop_last() == v@.take(i as int));
        if v[i] == c {
            let ghost d0 = done@;
            done.push(cur);
            assert(texts(done@) == before.push(done@.last()@));
            cur = String::new();
        } else {
            let ghost c0 = cur@;
            cur.push(v[i]);
            assert(before.push(c0).drop_last() == before);
        }
        i = i + 1;
        assert(split(v@.take(i as int), c) == texts(done@).push(cur@));
    }
    assert(v@.take(i as int) == v@);
    let ghost before = texts(done@);
    let ghost last = cur@;
    done.push(cur);
    assert(texts(done@) == before.push(last));
    done
}

/// The pieces with `sep` between them.
pub open spec fn join(list: Seq<Seq<char>>, sep: Seq<char>) -> Seq<char>
    decreases list.len(),
{
    if list.len() == 0 {
        Seq::empty()
    } else if list.len() == 1 {
        list[0]
    } else {
        join(list.drop_last(), sep) + sep + list.last()
    }
}

/// Joins the strings `from..` with `sep` between them.
pub fn join_from(list: &Vec<String>, from: usize, sep: &str) -> (r: String)
    requires
        from <= list.len(),
    ensures
        r@ == join(texts(list@).skip(from as int), sep@),
{
    let mut r = String::new();
    let mut i: usize = from;
    let ghost t = texts(list@).skip(from as int);
    while i < list.len()
        invariant
            from <= i <= list.len(),
            t == texts(list@).skip(from as int),
            r@ == join(t.take(i - from), sep@),
        decreases list.len() - i,
    {
        let ghost k = i - from;
        assert(t.take(k + 1).drop_last() == t.take(k));
        if i > from {
            r.append(sep);
        } else {
            assert(r@ == Seq::<char>::empty());
        }
        r.append(list[i].as_str());
        i = i + 1;
        assert(r@ == join(t.take(i - from), sep@));
    }
    assert(t.take(i - from) == t);
    r
}

/// `part` occurs in `s` at `i`.
pub open spec fn occurs_at(s: Seq<char>, part: Seq<char>, i: int) -> bool {
    0 <= i && i + part.len() <= s.len() && s.subrange(i, i + part.len()) == part
}

/// `part` occurs somewhere in `s`.
pub open spec fn contains_text(s: Seq<char>, part: Seq<char>) -> bool {
    exists|i: int| occurs_at(s, part, i)
}

fn match_at(s: &Vec<char>, part: &Vec<char>, at: usize) -> (r: bool)
    ensures
        r == occurs_at(s@, part@, at as int),
{
    if s.len() < part.len() || at > s.len() - part.len() {
        return false;
    }
    let mut i: usize = 0;
    while i < part.len()
        invariant
            i <= part.len(),
            at + part.len() <= s.len(),
            forall|k: int| 0 <= k < i ==> s@[at + k] == part@[k],
        decreases part.len() - i,
    {
        if s[at + i] != part[i] {
            assert(s@.subrange(at as int, at + part.len())[i as int] != part@[i as int]);
            return false;
        }
        i = i + 1;
    }
    assert(s@.subrange(at as int, at + part.len()) == part@);
    true
}

/// Whether `part` occurs in `s`.
pub fn has_text(s: &str, part: &str) -> (r: bool)
    ensures
        r == contains_text(s@, part@),
{
    let v = chars_of(s);
    let p = chars_of(part);
    if v.len() < p.len() {
        return false;
    }
    let top: usize = v.len() - p.len();
    let mut i: usize = 0;
    loop
        invariant
            i <= top,
            top == v.len() - p.len(),
            v@ == s@,
            p@ == part@,
            forall|k: int| 0 <= k < i ==> !occurs_at(v@, p@, k),
        decreases top - i,
    {
        if match_at(&v, &p, i) {
            return true;
        }
        if i == top {
            return false;
        }
        i = i + 1;
    }
}

/// `s` begins with `head`.
pub open spec fn begins(s: Seq<char>, head: Seq<char>) -> bool {
    occurs_at(s, head, 0)
}

pub fn starts_with(s: &str, head: &str) -> (r: bool)
    ensures
        r == begins(s@, head@),
{
    let v = chars_of(s);
    let h = chars_of(head);
    match_at(&v, &h, 0)
}

/// `s` without one `tail` at its end, if it has one there.
pub open spec fn without_tail(s: Seq<char>, tail: Seq<char>) -> Seq<char> {
    if occurs_at(s, tail, s.len() - tail.len()) {
        s.take(s.len() - tail.len())
    } else {
        s
    }
}

pub fn strip_tail(s: &str, tail: &str) -> (r: String)
    ensures
        r@ == without_tail(s@, tail@),
{
    let v = chars_of(s);
    let t = chars_of(tail);
    if v.len() >= t.len() && match_at(&v, &t, v.len() - t.len()) {
        string_of(&v, 0, v.len() - t.len())
    } else {
        copy_of(s)
    }
}

/// The ASCII lower case of a character.
pub open spec fn ascii_lower(c: char) -> char {
    if 'A' <= c <= 'Z' {
        (c as u32 + 32) as char
    } else {
        c
    }
}

/// Equal up to ASCII case.
pub open spec fn same_but_case(a: Seq<char>, b: Seq<char>) -> bool {
    a.len() == b.len() && forall|i: int|
        0 <= i < a.len() ==> #[trigger] ascii_lower(a[i]) == ascii_lower(b[i])
}

fn lower(c: char) -> (r: char)
    ensures
        r == ascii_lower(c),
{
    if 'A' <= c && c <= 'Z' {
        (c as u8 + 32) as char
    } else {
        c
    }
}

pub fn eq_ignore_case(a: &str, b: &str) -> (r: bool)
    ensures
        r == same_but_case(a@, b@),
{
    let x = chars_of(a);
    let y = chars_of(b);
    if x.len() != y.len() {
        return false;
    }
    let mut i: usize = 0;
    while i < x.len()
        invariant
            i <= x.len(),
            x.len() == y.len(),
            x@ == a@,
            y@ == b@,
            forall|k: int| 0 <= k < i ==> #[trigger] ascii_lower(x@[k]) == ascii_lower(y@[k]),
        decreases x.len() - i,
    {
        if lower(x[i]) != lower(y[i]) {
            return false;
        }
        i = i + 1;
    }
    true
}

/// Whether a text is empty.
pub fn is_blank(s: &str) -> (r: bool)
    ensures
        r == (s@.len() == 0),
{
    for c in it: s.chars()
        invariant
            it.seq() == s@,
            it.index() == 0,
    {
        return false;
    }
    true
}

/// The lower case of a text.
pub uninterp spec fn lowercase(s: Seq<char>) -> Seq<char>;

/// `str::to_lowercase`: the lower case of every character by the Unicode
/// tables, whatever the locale. What it is beyond ASCII is only named; a text
/// of ASCII characters becomes the text of their ASCII lower cases.
#[verifier::external_body]
pub(crate) fn to_lower(s: &str) -> (r: String)
    ensures
        r@ == lowercase(s@),
        (forall|i: int| 0 <= i < s@.len() ==> (#[trigger] s@[i] as u32) < 128) ==> r@ == s@.map_values(
            |c: char| ascii_lower(c),
        ),
{
    s.to_lowercase()
}

/// The text of bytes that may not be valid.
pub uninterp spec fn lossy_text(b: Seq<u8>) -> Seq<char>;

/// `String::from_utf8_lossy`: valid bytes are decoded as they are; what takes
/// the place of invalid ones is only named.
#[verifier::external_body]
pub(crate) fn lossy(b: &[u8]) -> (r: String)
    ensures
        r@ == lossy_text(b@),
        vstd::utf8::valid_utf8(b@) ==> r@ == vstd::utf8::decode_utf8(b@),
{
    String::from_utf8_lossy(b).into_owned()
}

} // verus!
