//! What an SGR escape says: the pen it was written for, and no other.

use vstd::prelude::*;

use crate::pane_handle::{sgr, sgr_color, Pen, RgbColor};
use crate::text::{decimal, digit};

verus! {

/// Whether a character is a decimal digit.
pub open spec fn is_digit(c: char) -> bool {
    '0' <= c <= '9'
}

/// A number is written in digits only, and no two numbers alike.
pub proof fn lemma_decimal(a: nat)
    ensures
        decimal(a).len() > 0,
        forall|i: int| 0 <= i < decimal(a).len() ==> is_digit(#[trigger] decimal(a)[i]),
    decreases a,
{
    if a >= 10 {
        lemma_decimal(a / 10);
    }
}

proof fn lemma_decimal_injective(a: nat, b: nat)
    requires
        decimal(a) == decimal(b),
    ensures
        a == b,
    decreases a,
{
    assert(decimal(a).last() == digit(a % 10)) by {
        if a < 10 {
            assert(a % 10 == a);
        }
    }
    assert(decimal(b).last() == digit(b % 10)) by {
        if b < 10 {
            assert(b % 10 == b);
        }
    }
    assert(a % 10 == b % 10);
    if a >= 10 {
        lemma_decimal(a / 10);
        if b >= 10 {
            assert(decimal(a).drop_last() =~= decimal(a / 10));
            assert(decimal(b).drop_last() =~= decimal(b / 10));
            lemma_decimal_injective(a / 10, b / 10);
        }
    } else if b >= 10 {
        lemma_decimal(b / 10);
    }
}

/// Where the digits of a number end can be seen, if no digit follows.
proof fn lemma_number_ends(a: nat, s: Seq<char>, b: nat, t: Seq<char>)
    requires
        decimal(a) + s == decimal(b) + t,
        s.len() > 0 && !is_digit(s[0]),
        t.len() > 0 && !is_digit(t[0]),
    ensures
        a == b,
        s == t,
{
    let x = decimal(a);
    let y = decimal(b);
    let u = x + s;
    let v = y + t;
    lemma_decimal(a);
    lemma_decimal(b);
    if x.len() < y.len() {
        assert(u[x.len() as int] == s[0]);
        assert(v[x.len() as int] == y[x.len() as int]);
    } else if y.len() < x.len() {
        assert(v[y.len() as int] == t[0]);
        assert(u[y.len() as int] == x[y.len() as int]);
    } else {
        assert(u.take(x.len() as int) =~= x);
        assert(v.take(x.len() as int) =~= y);
        assert(u.skip(x.len() as int) =~= s);
        assert(v.skip(x.len() as int) =~= t);
        lemma_decimal_injective(a, b);
    }
}

/// The `k`-th parameter, for an attribute that is on or off.
spec fn flag(k: nat) -> Seq<char> {
    if k == 1 {
        ";1"@
    } else if k == 2 {
        ";2"@
    } else if k == 3 {
        ";3"@
    } else if k == 4 {
        ";4"@
    } else if k == 5 {
        ";7"@
    } else {
        ";9"@
    }
}

/// The `k`-th parameter of a pen, or nothing.
spec fn parameter(p: Pen, k: nat) -> Seq<char> {
    if k <= 6 {
        crate::pane_handle::when(sets(p, k), flag(k))
    } else if k == 7 {
        sgr_color(";38;2;"@, p.fg)
    } else {
        sgr_color(";48;2;"@, p.bg)
    }
}

/// The part of an escape from its `k`-th parameter on.
spec fn tail(p: Pen, k: nat) -> Seq<char>
    decreases 9 - k,
{
    if k <= 8 {
        parameter(p, k) + tail(p, k + 1)
    } else {
        "m"@
    }
}

/// Which parameter a part of an escape starts with.
spec fn first_parameter(s: Seq<char>) -> int {
    if s.len() < 2 {
        9
    } else if s[1] == '1' {
        1
    } else if s[1] == '2' {
        2
    } else if s[1] == '3' {
        if s.len() > 2 && s[2] == '8' { 7 } else { 3 }
    } else if s[1] == '4' {
        if s.len() > 2 && s[2] == '8' { 8 } else { 4 }
    } else if s[1] == '7' {
        5
    } else {
        6
    }
}

/// Whether a pen sets the `k`-th parameter.
spec fn sets(p: Pen, k: nat) -> bool {
    if k == 1 {
        p.bold
    } else if k == 2 {
        p.faint
    } else if k == 3 {
        p.italic
    } else if k == 4 {
        p.underline
    } else if k == 5 {
        p.inverse
    } else if k == 6 {
        p.strike
    } else if k == 7 {
        p.fg is Some
    } else {
        p.bg is Some
    }
}

/// A part of an escape starts with its first parameter, if the pen sets it, and else with a
/// later one.
proof fn lemma_tail(p: Pen, k: nat)
    requires
        1 <= k <= 9,
    ensures
        tail(p, k).len() > 0,
        tail(p, k)[0] == ';' || tail(p, k)[0] == 'm',
        k <= 8 && sets(p, k) ==> first_parameter(tail(p, k)) == k,
        k <= 8 && !sets(p, k) ==> first_parameter(tail(p, k)) > k && tail(p, k) == tail(p, k + 1),
        first_parameter(tail(p, k)) >= k,
    decreases 9 - k,
{
    reveal_strlit(";1");
    reveal_strlit(";2");
    reveal_strlit(";3");
    reveal_strlit(";4");
    reveal_strlit(";7");
    reveal_strlit(";9");
    reveal_strlit(";38;2;");
    reveal_strlit(";48;2;");
    reveal_strlit("m");
    if k <= 8 {
        lemma_tail(p, k + 1);
        if !sets(p, k) {
            assert(tail(p, k) =~= tail(p, k + 1));
        } else if k <= 6 {
            assert(tail(p, k)[2] == tail(p, k + 1)[0]);
        } else {
            let c = if k == 7 { p.fg->Some_0 } else { p.bg->Some_0 };
            let lead = if k == 7 { ";38;2;"@ } else { ";48;2;"@ };
            assert(sgr_color(lead, Some(c)).take(6) =~= lead);
            assert(tail(p, k)[0] == lead[0] && tail(p, k)[1] == lead[1] && tail(p, k)[2] == lead[2]);
        }
    }
}

/// A color can be read back from its parameters.
proof fn lemma_color(lead: Seq<char>, c: RgbColor, s: Seq<char>, d: RgbColor, t: Seq<char>)
    requires
        sgr_color(lead, Some(c)) + s == sgr_color(lead, Some(d)) + t,
        s.len() > 0 && !is_digit(s[0]),
        t.len() > 0 && !is_digit(t[0]),
    ensures
        c == d,
        s == t,
{
    reveal_strlit(";");
    let c3 = decimal(c.b as nat) + s;
    let d3 = decimal(d.b as nat) + t;
    let c2 = decimal(c.g as nat) + (";"@ + c3);
    let d2 = decimal(d.g as nat) + (";"@ + d3);
    let c1 = decimal(c.r as nat) + (";"@ + c2);
    let d1 = decimal(d.r as nat) + (";"@ + d2);
    assert(sgr_color(lead, Some(c)) + s =~= lead + c1);
    assert(sgr_color(lead, Some(d)) + t =~= lead + d1);
    assert((lead + c1).skip(lead.len() as int) =~= c1);
    assert((lead + d1).skip(lead.len() as int) =~= d1);
    lemma_number_ends(c.r as nat, ";"@ + c2, d.r as nat, ";"@ + d2);
    assert((";"@ + c2).skip(1) =~= c2);
    assert((";"@ + d2).skip(1) =~= d2);
    lemma_number_ends(c.g as nat, ";"@ + c3, d.g as nat, ";"@ + d3);
    assert((";"@ + c3).skip(1) =~= c3);
    assert((";"@ + d3).skip(1) =~= d3);
    lemma_number_ends(c.b as nat, s, d.b as nat, t);
}

/// Pens whose escapes agree from the `k`-th parameter on agree in it, and from the next one
/// on.
proof fn lemma_peel(p: Pen, q: Pen, k: nat)
    requires
        1 <= k <= 8,
        tail(p, k) == tail(q, k),
    ensures
        sets(p, k) == sets(q, k),
        tail(p, k + 1) == tail(q, k + 1),
        k == 7 ==> p.fg == q.fg,
        k == 8 ==> p.bg == q.bg,
{
    lemma_tail(p, k);
    lemma_tail(q, k);
    lemma_tail(p, k + 1);
    lemma_tail(q, k + 1);
    if sets(p, k) {
        if k == 7 {
            lemma_color(
                ";38;2;"@,
                p.fg->Some_0,
                tail(p, 8),
                q.fg->Some_0,
                tail(q, 8),
            );
        } else if k == 8 {
            lemma_color(
                ";48;2;"@,
                p.bg->Some_0,
                tail(p, 9),
                q.bg->Some_0,
                tail(q, 9),
            );
        } else {
            lemma_rest(flag(k), tail(p, k + 1));
            lemma_rest(flag(k), tail(q, k + 1));
        }
    }
}

proof fn lemma_rest(a: Seq<char>, b: Seq<char>)
    ensures
        (a + b).skip(a.len() as int) == b,
{
    assert((a + b).skip(a.len() as int) =~= b);
}

proof fn lemma_regroup(a: Seq<char>, b: Seq<char>, c: Seq<char>)
    ensures
        a + b + c == a + (b + c),
{
    assert(a + b + c =~= a + (b + c));
}

/// Different pens have different escapes: what a terminal is told is the pen.
pub proof fn law_escape_tells_the_pen(p: Pen, q: Pen)
    requires
        sgr(p) == sgr(q),
    ensures
        p == q,
{
    lemma_sgr_tail(p);
    lemma_sgr_tail(q);
    lemma_rest("\x1b[0"@, tail(p, 1));
    lemma_rest("\x1b[0"@, tail(q, 1));
    lemma_peel(p, q, 1);
    lemma_peel(p, q, 2);
    lemma_peel(p, q, 3);
    lemma_peel(p, q, 4);
    lemma_peel(p, q, 5);
    lemma_peel(p, q, 6);
    lemma_peel(p, q, 7);
    lemma_peel(p, q, 8);
}

proof fn lemma_sgr_tail(p: Pen)
    ensures
        sgr(p) == "\x1b[0"@ + tail(p, 1),
{
    let s1 = "\x1b[0"@;
    let s2 = s1 + parameter(p, 1);
    let s3 = s2 + parameter(p, 2);
    let s4 = s3 + parameter(p, 3);
    let s5 = s4 + parameter(p, 4);
    let s6 = s5 + parameter(p, 5);
    let s7 = s6 + parameter(p, 6);
    let s8 = s7 + parameter(p, 7);
    lemma_regroup(s1, parameter(p, 1), tail(p, 2));
    lemma_regroup(s2, parameter(p, 2), tail(p, 3));
    lemma_regroup(s3, parameter(p, 3), tail(p, 4));
    lemma_regroup(s4, parameter(p, 4), tail(p, 5));
    lemma_regroup(s5, parameter(p, 5), tail(p, 6));
    lemma_regroup(s6, parameter(p, 6), tail(p, 7));
    lemma_regroup(s7, parameter(p, 7), tail(p, 8));
    lemma_regroup(s8, parameter(p, 8), tail(p, 9));
    assert(tail(p, 9) == "m"@);
}

} // verus!
