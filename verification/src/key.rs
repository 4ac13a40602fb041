//! Chunk keys: the canonical text form of a grid cell, and the proof that
//! distinct cells never share a key.

use vstd::prelude::*;
use vstd::string::StringExecFns;
use crate::coord::ChunkCoord;

verus! {

/// The character of a decimal digit.
pub open spec fn digit_char(d: int) -> char {
    if d == 0 {
        '0'
    } else if d == 1 {
        '1'
    } else if d == 2 {
        '2'
    } else if d == 3 {
        '3'
    } else if d == 4 {
        '4'
    } else if d == 5 {
        '5'
    } else if d == 6 {
        '6'
    } else if d == 7 {
        '7'
    } else if d == 8 {
        '8'
    } else {
        '9'
    }
}

/// The value of a decimal digit character; zero for any other character.
pub open spec fn digit_value(c: char) -> nat {
    if c == '1' {
        1
    } else if c == '2' {
        2
    } else if c == '3' {
        3
    } else if c == '4' {
        4
    } else if c == '5' {
        5
    } else if c == '6' {
        6
    } else if c == '7' {
        7
    } else if c == '8' {
        8
    } else if c == '9' {
        9
    } else {
        0
    }
}

pub open spec fn is_digit(c: char) -> bool {
    c == digit_char(digit_value(c) as int)
}

/// Decimal digits of a natural number, most significant first, without
/// leading zeros.
pub open spec fn digits(n: nat) -> Seq<char>
    decreases n,
{
    if n < 10 {
        seq![digit_char(n as int)]
    } else {
        digits(n / 10).push(digit_char((n % 10) as int))
    }
}

/// Decimal text of an integer: a minus sign for negative numbers, then the
/// digits of its magnitude.
pub open spec fn decimal(n: int) -> Seq<char> {
    if n < 0 {
        seq!['-'] + digits((-n) as nat)
    } else {
        digits(n as nat)
    }
}

/// The text every key starts with.
pub open spec fn key_prefix() -> Seq<char> {
    seq!['c', 'h', 'u', 'n', 'k', '_']
}

/// The key of a grid cell: the prefix, then the three axis values in
/// decimal, separated by underscores.
pub open spec fn key_text(c: ChunkCoord) -> Seq<char> {
    key_prefix() + (decimal(c.x as int) + (seq!['_'] + (decimal(c.y as int) + (seq!['_']
        + decimal(c.z as int)))))
}

/// The number a sequence of digit characters stands for.
pub open spec fn digits_value(s: Seq<char>) -> nat
    decreases s.len(),
{
    if s.len() == 0 {
        0
    } else {
        digits_value(s.drop_last()) * 10 + digit_value(s.last())
    }
}

/// The integer a decimal text stands for.
pub open spec fn decimal_value(s: Seq<char>) -> int {
    if s.len() > 0 && s[0] == '-' {
        -(digits_value(s.skip(1)) as int)
    } else {
        digits_value(s) as int
    }
}

/// No character of `s` is the separator.
pub open spec fn free_of_separator(s: Seq<char>) -> bool {
    forall|i: int| 0 <= i < s.len() ==> s[i] != '_'
}

proof fn lemma_digits_shape(n: nat)
    ensures
        digits(n).len() >= 1,
        forall|i: int| 0 <= i < digits(n).len() ==> is_digit(#[trigger] digits(n)[i]),
        digits_value(digits(n)) == n,
    decreases n,
{
    if n < 10 {
        let s = digits(n);
        assert(s.drop_last() =~= Seq::<char>::empty());
        assert(digits_value(s.drop_last()) == 0);
        assert(s.last() == digit_char(n as int));
    } else {
        lemma_digits_shape(n / 10);
        let s = digits(n);
        assert(s.drop_last() =~= digits(n / 10));
        assert(s.last() == digit_char((n % 10) as int));
        assert forall|i: int| 0 <= i < s.len() implies is_digit(#[trigger] s[i]) by {
            if i < s.len() - 1 {
                assert(s[i] == digits(n / 10)[i]);
            }
        }
    }
}

/// Decimal text is never empty, holds no separator, and reads back as the
/// number it was made from.
pub proof fn lemma_decimal_shape(n: int)
    ensures
        decimal(n).len() >= 1,
        free_of_separator(decimal(n)),
        decimal_value(decimal(n)) == n,
{
    if n < 0 {
        let m = (-n) as nat;
        lemma_digits_shape(m);
        let s = decimal(n);
        assert(s[0] == '-');
        assert(s.skip(1) =~= digits(m));
        assert forall|i: int| 0 <= i < s.len() implies s[i] != '_' by {
            if i > 0 {
                assert(s[i] == digits(m)[i - 1]);
                assert(is_digit(digits(m)[i - 1]));
            }
        }
    } else {
        lemma_digits_shape(n as nat);
        let s = decimal(n);
        assert(is_digit(s[0]));
        assert forall|i: int| 0 <= i < s.len() implies s[i] != '_' by {
            assert(is_digit(s[i]));
        }
    }
}

/// A text splits at its first separator in one way only.
proof fn lemma_split_unique(a: Seq<char>, b: Seq<char>, c: Seq<char>, d: Seq<char>)
    requires
        free_of_separator(a),
        free_of_separator(c),
        a + (seq!['_'] + b) == c + (seq!['_'] + d),
    ensures
        a == c,
        b == d,
{
    let s = a + (seq!['_'] + b);
    let t = c + (seq!['_'] + d);
    assert(s.len() == a.len() + 1 + b.len());
    assert(t.len() == c.len() + 1 + d.len());
    if a.len() < c.len() {
        assert(s[a.len() as int] == '_');
        assert(t[a.len() as int] == c[a.len() as int]);
        assert(false);
    }
    if c.len() < a.len() {
        assert(t[c.len() as int] == '_');
        assert(s[c.len() as int] == a[c.len() as int]);
        assert(false);
    }
    assert(a =~= c) by {
        assert forall|i: int| 0 <= i < a.len() implies a[i] == c[i] by {
            assert(s[i] == a[i]);
            assert(t[i] == c[i]);
        }
    }
    assert(b =~= d) by {
        assert forall|i: int| 0 <= i < b.len() implies b[i] == d[i] by {
            assert(s[a.len() + 1 + i] == b[i]);
            assert(t[c.len() + 1 + i] == d[i]);
        }
    }
}

/// Two grid cells have the same key exactly when they are the same cell.
pub proof fn lemma_key_injective(c1: ChunkCoord, c2: ChunkCoord)
    ensures
        key_text(c1) == key_text(c2) <==> c1 == c2,
{
    if key_text(c1) == key_text(c2) {
        let p = key_prefix();
        let r1 = decimal(c1.x as int) + (seq!['_'] + (decimal(c1.y as int) + (seq!['_'] + decimal(
            c1.z as int,
        ))));
        let r2 = decimal(c2.x as int) + (seq!['_'] + (decimal(c2.y as int) + (seq!['_'] + decimal(
            c2.z as int,
        ))));
        assert(r1 =~= r2) by {
            assert(r1.len() == r2.len()) by {
                assert((p + r1).len() == (p + r2).len());
            }
            assert forall|i: int| 0 <= i < r1.len() implies r1[i] == r2[i] by {
                assert((p + r1)[p.len() + i] == r1[i]);
                assert((p + r2)[p.len() + i] == r2[i]);
            }
        }
        lemma_decimal_shape(c1.x as int);
        lemma_decimal_shape(c1.y as int);
        lemma_decimal_shape(c1.z as int);
        lemma_decimal_shape(c2.x as int);
        lemma_decimal_shape(c2.y as int);
        lemma_decimal_shape(c2.z as int);
        lemma_split_unique(
            decimal(c1.x as int),
            decimal(c1.y as int) + (seq!['_'] + decimal(c1.z as int)),
            decimal(c2.x as int),
            decimal(c2.y as int) + (seq!['_'] + decimal(c2.z as int)),
        );
        lemma_split_unique(
            decimal(c1.y as int),
            decimal(c1.z as int),
            decimal(c2.y as int),
            decimal(c2.z as int),
        );
        assert(c1.x == c2.x);
        assert(c1.y == c2.y);
        assert(c1.z == c2.z);
    }
}

/// The one-character text of a decimal digit.
fn digit_text(d: u32) -> (t: &'static str)
    requires
        d < 10,
    ensures
        t@ == seq![digit_char(d as int)],
{
    proof {
        reveal_strlit("0");
        reveal_strlit("1");
        reveal_strlit("2");
        reveal_strlit("3");
        reveal_strlit("4");
        reveal_strlit("5");
        reveal_strlit("6");
        reveal_strlit("7");
        reveal_strlit("8");
        reveal_strlit("9");
    }
    let t = if d == 0 {
        "0"
    } else if d == 1 {
        "1"
    } else if d == 2 {
        "2"
    } else if d == 3 {
        "3"
    } else if d == 4 {
        "4"
    } else if d == 5 {
        "5"
    } else if d == 6 {
        "6"
    } else if d == 7 {
        "7"
    } else if d == 8 {
        "8"
    } else {
        "9"
    };
    assert(t@ =~= seq![digit_char(d as int)]);
    t
}

/// Appends the decimal digits of `n` to `out`.
fn push_digits(out: &mut String, n: u32)
    ensures
        final(out)@ == old(out)@ + digits(n as nat),
    decreases n,
{
    if n >= 10 {
        push_digits(out, n / 10);
    }
    out.append(digit_text(n % 10));
    assert(out@ =~= old(out)@ + digits(n as nat));
}

/// Appends the decimal text of `n` to `out`.
pub fn push_decimal(out: &mut String, n: i32)
    ensures
        final(out)@ == old(out)@ + decimal(n as int),
{
    if n < 0 {
        proof {
            reveal_strlit("-");
        }
        out.append("-");
        let m: u32 = (-(n as i64)) as u32;
        push_digits(out, m);
        assert(out@ =~= old(out)@ + decimal(n as int));
    } else {
        push_digits(out, n as u32);
    }
}

/// The key of a grid cell.
pub fn chunk_key(c: ChunkCoord) -> (key: String)
    ensures
        key@ == key_text(c),
{
    proof {
        reveal_strlit("chunk_");
        reveal_strlit("_");
    }
    let mut key = String::from_str("chunk_");
    push_decimal(&mut key, c.x);
    key.append("_");
    push_decimal(&mut key, c.y);
    key.append("_");
    push_decimal(&mut key, c.z);
    assert(key@ =~= key_text(c));
    key
}

} // verus!
