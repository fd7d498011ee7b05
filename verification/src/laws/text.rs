//! The laws of texts and numerals.

use vstd::prelude::*;

use crate::text;

verus! {

/// The sixteen digits.
pub open spec fn sixteen(big: bool) -> Seq<char> {
    if big {
        seq!['0', '1', '2', '3', '4', '5', '6', '7', '8', '9', 'A', 'B', 'C', 'D', 'E', 'F']
    } else {
        seq!['0', '1', '2', '3', '4', '5', '6', '7', '8', '9', 'a', 'b', 'c', 'd', 'e', 'f']
    }
}

/// A digit stands for its place among the sixteen, in either case, and nothing
/// else does.
pub proof fn law_digits(d: nat, c: char)
    ensures
        d < 16 ==> text::digit(d) == sixteen(false)[d as int],
        d < 16 ==> text::upper_digit(d) == sixteen(true)[d as int],
        d < 16 ==> text::digit_value(sixteen(false)[d as int]) == Some(d),
        d < 16 ==> text::digit_value(sixteen(true)[d as int]) == Some(d),
        text::digit_value(c) matches Some(v) ==> v < 16 && (c == sixteen(false)[v as int] || c
            == sixteen(true)[v as int]),
{
    if let Some(v) = text::digit_value(c) {
        lemma_digit_chars(v);
    }
    if d < 16 {
        lemma_digit_chars(d);
    }
}

proof fn lemma_digit_chars(d: nat)
    requires
        d < 16,
    ensures
        text::digit(d) == sixteen(false)[d as int],
        text::upper_digit(d) == sixteen(true)[d as int],
        sixteen(false)[d as int] as nat == if d < 10 {
            48 + d
        } else {
            87 + d
        },
        sixteen(true)[d as int] as nat == if d < 10 {
            48 + d
        } else {
            55 + d
        },
{
}

/// A numeral says its number, digit by digit, without a zero in front; a
/// negative number has a minus sign before its opposite, and a hexadecimal one
/// `0x`.
pub proof fn law_numerals(n: nat, radix: nat)
    requires
        2 <= radix <= 16,
    ensures
        text::value_of(text::numeral(n, radix), radix) == Some(n),
        n > 0 ==> text::numeral(n, radix)[0] != '0',
        n < radix ==> text::numeral(n, radix) == seq![sixteen(false)[n as int]],
        n >= radix ==> text::numeral(n, radix) == text::numeral(n / radix, radix).push(
            sixteen(false)[(n % radix) as int],
        ),
        text::decimal_text(n as int) == text::numeral(n, 10),
        n > 0 ==> text::decimal_text(-n) == seq!['-'] + text::numeral(n, 10),
        text::hex_text(n) == seq!['0', 'x'] + text::numeral(n, 16),
    decreases n,
{
    text::law_numeral(n, radix);
    if n < radix {
        lemma_digit_chars(n);
    } else {
        assert(0 < n / radix < n && 0 <= n % radix < radix) by (nonlinear_arith)
            requires
                n >= radix,
                radix >= 2,
        ;
        lemma_digit_chars(n % radix);
        law_numerals(n / radix, radix);
        text::law_numeral(n / radix, radix);
    }
}

/// A byte is two digits in upper case, the high one first.
pub proof fn law_byte_text(b: u8)
    ensures
        text::byte_text(b) == seq![
            sixteen(true)[(b / 16) as int],
            sixteen(true)[(b % 16) as int],
        ],
{
    lemma_digit_chars((b / 16) as nat);
    lemma_digit_chars((b % 16) as nat);
}

/// A number is read where all of it is digits of the base behind an optional
/// plus sign, at least one, and it fits in 64 bits; a digit more is `radix`
/// times the number and the digit.
pub proof fn law_read_number(s: Seq<char>, c: char, d: nat, radix: nat)
    requires
        2 <= radix <= 16,
        text::digit_value(c) == Some(d),
    ensures
        text::unsigned_of(Seq::empty(), radix) is None,
        text::unsigned_of(seq!['+'], radix) is None,
        d < radix ==> text::unsigned_of(seq![c], radix) == Some(d),
        d >= radix ==> text::unsigned_of(s.push(c), radix) is None,
        d < radix && text::unsigned_of(s, radix) is Some ==> text::unsigned_of(s.push(c), radix)
            == if text::unsigned_of(s, radix)->0 * radix + d < 0x1_0000_0000_0000_0000 {
            Some((text::unsigned_of(s, radix)->0 * radix + d) as nat)
        } else {
            None
        },
        s.len() > 0 && s[0] != '+' && s[0] != '-' ==> text::unsigned_of(seq!['+'] + s, radix)
            == text::unsigned_of(s, radix),
        text::unsigned_of(seq!['-'] + s, radix) is None,
{
    assert(text::past_plus(seq!['+']) =~= Seq::empty());
    assert(seq![c].drop_last() =~= Seq::<char>::empty());
    assert(text::value_of(Seq::<char>::empty(), radix) == Some(0nat));
    assert(0 * radix == 0) by (nonlinear_arith);
    assert(text::value_of(seq![c], radix) == if d < radix {
        Some(d)
    } else {
        None
    });
    let t = s.push(c);
    if s.len() > 0 {
        if s[0] == '+' {
            assert(text::past_plus(t) =~= text::past_plus(s).push(c));
        } else {
            assert(text::past_plus(t) == t);
        }
    }
    assert(t.drop_last() =~= s);
    assert(text::past_plus(s).push(c).drop_last() =~= text::past_plus(s));
    assert((seq!['+'] + s).skip(1) =~= s);
    lemma_minus(seq!['-'] + s, radix);
}

proof fn lemma_minus(s: Seq<char>, radix: nat)
    requires
        s.len() > 0,
        text::digit_value(s[0]) is None,
    ensures
        text::value_of(s, radix) is None,
    decreases s.len(),
{
    if s.len() > 1 {
        assert(s.drop_last()[0] == s[0]);
        lemma_minus(s.drop_last(), radix);
    } else {
        assert(s.last() == s[0]);
    }
}

/// A signed number is read as the unsigned one, or its opposite behind a minus
/// sign, where that fits in 64 bits.
pub proof fn law_read_signed(s: Seq<char>, radix: nat, v: nat)
    requires
        text::value_of(s, radix) == Some(v),
        s.len() > 0,
        s[0] != '+',
        s[0] != '-',
    ensures
        v < 0x8000_0000_0000_0000 ==> text::signed_of(s, radix) == Some(v as int),
        v < 0x8000_0000_0000_0000 ==> text::signed_of(seq!['+'] + s, radix) == Some(v as int),
        v >= 0x8000_0000_0000_0000 ==> text::signed_of(s, radix) is None,
        v <= 0x8000_0000_0000_0000 ==> text::signed_of(seq!['-'] + s, radix) == Some(-v),
        v > 0x8000_0000_0000_0000 ==> text::signed_of(seq!['-'] + s, radix) is None,
{
    assert((seq!['+'] + s).skip(1) =~= s);
    assert((seq!['-'] + s).skip(1) =~= s);
}

/// A text trimmed has white space at neither end, and what was taken off is
/// white space.
pub proof fn law_trimmed(s: Seq<char>)
    ensures
        exists|a: int, b: int| #[trigger]
            s.subrange(a, b) == text::trimmed(s) && 0 <= a <= b <= s.len() && (forall|i: int|
                (0 <= i < a || b <= i < s.len()) ==> text::white(#[trigger] s[i])),
        text::trimmed(s).len() > 0 ==> !text::white(text::trimmed(s)[0]) && !text::white(
            text::trimmed(s).last(),
        ),
{
    let a = lemma_front(s);
    let t = text::trim_front(s);
    let b = lemma_back(t);
    assert(s.subrange(a, a + b) =~= t.take(b));
    assert forall|i: int| (0 <= i < a || a + b <= i < s.len()) implies text::white(
        #[trigger] s[i],
    ) by {
        if i >= a {
            assert(t[i - a] == s[i]);
        }
    }
    if b > 0 {
        assert(t.take(b)[0] == t[0]);
    }
}

proof fn lemma_front(s: Seq<char>) -> (a: int)
    ensures
        0 <= a <= s.len(),
        text::trim_front(s) == s.skip(a),
        forall|i: int| 0 <= i < a ==> text::white(#[trigger] s[i]),
        a < s.len() ==> !text::white(s[a]),
    decreases s.len(),
{
    if s.len() > 0 && text::white(s[0]) {
        let b = lemma_front(s.skip(1));
        assert(s.skip(1).skip(b) =~= s.skip(b + 1));
        assert forall|i: int| 0 <= i < b + 1 implies text::white(#[trigger] s[i]) by {
            if i > 0 {
                assert(s.skip(1)[i - 1] == s[i]);
            }
        }
        b + 1
    } else {
        assert(s.skip(0) =~= s);
        0
    }
}

proof fn lemma_back(s: Seq<char>) -> (b: int)
    ensures
        0 <= b <= s.len(),
        text::trim_back(s) == s.take(b),
        forall|i: int| b <= i < s.len() ==> text::white(#[trigger] s[i]),
        b > 0 ==> !text::white(s[b - 1]),
    decreases s.len(),
{
    if s.len() > 0 && text::white(s.last()) {
        let b = lemma_back(s.drop_last());
        assert(s.drop_last().take(b) =~= s.take(b));
        assert forall|i: int| b <= i < s.len() implies text::white(#[trigger] s[i]) by {
            if i < s.len() - 1 {
                assert(s.drop_last()[i] == s[i]);
            }
        }
        b
    } else {
        assert(s.take(s.len() as int) =~= s);
        s.len() as int
    }
}

/// The pieces of a text between the occurrences of a character hold it nowhere,
/// and put together with it they are the text again.
pub proof fn law_split(s: Seq<char>, c: char)
    ensures
        text::split(s, c).len() > 0,
        text::join(text::split(s, c), seq![c]) == s,
        forall|i: int|
            0 <= i < text::split(s, c).len() ==> !(#[trigger] text::split(s, c)[i]).contains(c),
    decreases s.len(),
{
    let p = text::split(s, c);
    if s.len() > 0 {
        let d = s.drop_last();
        let q = text::split(d, c);
        law_split(d, c);
        if s.last() == c {
            assert(p.drop_last() =~= q);
            assert(text::join(p, seq![c]) =~= s);
        } else {
            assert(p.drop_last() =~= q.drop_last());
            assert(p.last() == q.last().push(s.last()));
            assert(!q[q.len() - 1].contains(c));
            assert forall|i: int| 0 <= i < p.len() implies !(#[trigger] p[i]).contains(c) by {
                if i < p.len() - 1 {
                    assert(p[i] == q[i]);
                } else {
                    let x = q.last();
                    if p[i].contains(c) {
                        let k = choose|k: int| 0 <= k < p[i].len() && p[i][k] == c;
                        if k < x.len() {
                            assert(x[k] == c);
                        }
                    }
                }
            }
            if q.len() == 1 {
                assert(q[0] == q.last());
                assert(text::join(p, seq![c]) =~= s);
            } else {
                assert(text::join(p, seq![c]) =~= text::join(q, seq![c]).push(s.last()));
                assert(text::join(p, seq![c]) =~= s);
            }
        }
    } else {
        assert(text::join(p, seq![c]) =~= s);
    }
}

/// Joined, the pieces stand in their order with the separator between two of
/// them: nothing for none, the piece itself for one, and each further one behind
/// a separator.
pub proof fn law_join(list: Seq<Seq<char>>, piece: Seq<char>, sep: Seq<char>)
    ensures
        text::join(Seq::empty(), sep) == Seq::<char>::empty(),
        text::join(seq![piece], sep) == piece,
        list.len() > 0 ==> text::join(list.push(piece), sep) == text::join(list, sep) + sep + piece,
{
    assert(list.push(piece).drop_last() =~= list);
}

/// A text contains another where it is that one with something before it and
/// after it; it begins with it where nothing is before it.
pub proof fn law_contains(s: Seq<char>, part: Seq<char>)
    ensures
        text::contains_text(s, part) <==> exists|a: Seq<char>, b: Seq<char>|
            s == #[trigger] (a + part + b),
        text::begins(s, part) <==> exists|b: Seq<char>| s == #[trigger] (part + b),
{
    if text::contains_text(s, part) {
        let i = choose|i: int| text::occurs_at(s, part, i);
        assert(s =~= s.take(i) + part + s.skip(i + part.len()));
    }
    if exists|a: Seq<char>, b: Seq<char>| s == #[trigger] (a + part + b) {
        let (a, b) = choose|a: Seq<char>, b: Seq<char>| s == #[trigger] (a + part + b);
        assert(s.subrange(a.len() as int, (a.len() + part.len()) as int) =~= part);
        assert(text::occurs_at(s, part, a.len() as int));
    }
    if text::begins(s, part) {
        assert(s =~= part + s.skip(part.len() as int));
    }
    if exists|b: Seq<char>| s == #[trigger] (part + b) {
        let b = choose|b: Seq<char>| s == #[trigger] (part + b);
        assert(s.subrange(0, part.len() as int) =~= part);
    }
}

/// What ends in a tail is without it what stood before it; what does not stays.
pub proof fn law_without_tail(s: Seq<char>, tail: Seq<char>)
    ensures
        text::without_tail(s + tail, tail) == s,
        (forall|a: Seq<char>| s != #[trigger] (a + tail)) ==> text::without_tail(s, tail) == s,
{
    let t = s + tail;
    assert(t.subrange(t.len() - tail.len(), t.len() as int) =~= tail);
    assert(t.take(s.len() as int) =~= s);
    if text::occurs_at(s, tail, s.len() - tail.len()) {
        assert(s =~= s.take(s.len() - tail.len()) + tail);
    }
}

/// Two texts are the same but for case where they differ at most in the case of
/// ASCII letters.
pub proof fn law_same_but_case(a: Seq<char>, b: Seq<char>)
    ensures
        text::same_but_case(a, b) <==> a.len() == b.len() && forall|i: int|
            0 <= i < a.len() ==> {
                ||| #[trigger] a[i] == b[i]
                ||| 'A' <= a[i] <= 'Z' && b[i] as int == a[i] as int + 32
                ||| 'A' <= b[i] <= 'Z' && a[i] as int == b[i] as int + 32
            },
{
    if text::same_but_case(a, b) {
        assert forall|i: int| 0 <= i < a.len() implies {
            ||| #[trigger] a[i] == b[i]
            ||| 'A' <= a[i] <= 'Z' && b[i] as int == a[i] as int + 32
            ||| 'A' <= b[i] <= 'Z' && a[i] as int == b[i] as int + 32
        } by {
            assert(text::ascii_lower(a[i]) == text::ascii_lower(b[i]));
        }
    }
    if a.len() == b.len() && forall|i: int|
        0 <= i < a.len() ==> {
            ||| #[trigger] a[i] == b[i]
            ||| 'A' <= a[i] <= 'Z' && b[i] as int == a[i] as int + 32
            ||| 'A' <= b[i] <= 'Z' && a[i] as int == b[i] as int + 32
        } {
        assert forall|i: int| 0 <= i < a.len() implies #[trigger] text::ascii_lower(a[i])
            == text::ascii_lower(b[i]) by {
            let (x, y) = (a[i], b[i]);
            assert(x == y || ('A' <= x <= 'Z' && y as int == x as int + 32) || ('A' <= y <= 'Z'
                && x as int == y as int + 32));
        }
    }
}

} // verus!
