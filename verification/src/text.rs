//! Numbers as decimal text.
use vstd::prelude::*;
use vstd::string::*;

verus! {

/// The character that stands for a digit.
pub open spec fn digit_char(d: nat) -> char
    recommends
        d < 10,
{
    if d == 0 {
        '0'
    } else if d == 1 {
        '1'
    } else if d == 2 {
        '2'
    } else if d == 3 {
        '3'
    } else if d == 4 {
        '4'
    } else if d == 5 {
        '5'
    } else if d == 6 {
        '6'
    } else if d == 7 {
        '7'
    } else if d == 8 {
        '8'
    } else {
        '9'
    }
}

/// A number in decimal notation: no sign, no leading zero but for zero itself.
pub open spec fn decimal(x: nat) -> Seq<char>
    decreases x,
{
    if x < 10 {
        seq![digit_char(x)]
    } else {
        decimal(x / 10) + seq![digit_char(x % 10)]
    }
}

fn digit_text(d: u64) -> (text: &'static str)
    requires
        d < 10,
    ensures
        text@ == seq![digit_char(d as nat)],
{
    proof {
        reveal_strlit("0");
        reveal_strlit("1");
        reveal_strlit("2");
        reveal_strlit("3");
        reveal_strlit("4");
        reveal_strlit("5");
        reveal_strlit("6");
        reveal_strlit("7");
        reveal_strlit("8");
        reveal_strlit("9");
    }
    let text = if d == 0 {
        "0"
    } else if d == 1 {
        "1"
    } else if d == 2 {
        "2"
    } else if d == 3 {
        "3"
    } else if d == 4 {
        "4"
    } else if d == 5 {
        "5"
    } else if d == 6 {
        "6"
    } else if d == 7 {
        "7"
    } else if d == 8 {
        "8"
    } else {
        "9"
    };
    assert(text@ =~= seq![digit_char(d as nat)]);
    text
}

/// Appends `x` in decimal notation to `text`.
pub fn push_decimal(text: &mut String, x: u64)
    ensures
        final(text)@ == old(text)@ + decimal(x as nat),
    decreases x,
{
    if x >= 10 {
        push_decimal(text, x / 10);
    }
    text.append(digit_text(x % 10));
    assert(text@ =~= old(text)@ + decimal(x as nat));
}

/// The digit that a character stands for.
pub open spec fn digit_value(c: char) -> nat {
    if c == '0' {
        0
    } else if c == '1' {
        1
    } else if c == '2' {
        2
    } else if c == '3' {
        3
    } else if c == '4' {
        4
    } else if c == '5' {
        5
    } else if c == '6' {
        6
    } else if c == '7' {
        7
    } else if c == '8' {
        8
    } else {
        9
    }
}

/// The number that a run of digits stands for.
pub open spec fn decimal_value(s: Seq<char>) -> nat
    decreases s.len(),
{
    if s.len() == 0 {
        0
    } else {
        decimal_value(s.drop_last()) * 10 + digit_value(s.last())
    }
}

/// Reading a number's decimal notation gives the number back.
pub proof fn lemma_decimal_value(x: nat)
    ensures
        decimal_value(decimal(x)) == x,
        decimal(x).len() > 0,
        forall|i: int| 0 <= i < decimal(x).len() ==> decimal(x)[i] != '-',
    decreases x,
{
    if x < 10 {
        let s = decimal(x);
        assert(s.drop_last().len() == 0);
        assert(decimal_value(s.drop_last()) == 0);
        assert(s.last() == digit_char(x));
    } else {
        lemma_decimal_value(x / 10);
        let s = decimal(x);
        assert(s.drop_last() =~= decimal(x / 10));
        assert(s.last() == digit_char(x % 10));
    }
}

/// Different numbers have different decimal notations.
pub proof fn lemma_decimal_is_injective(x: nat, y: nat)
    requires
        decimal(x) == decimal(y),
    ensures
        x == y,
{
    lemma_decimal_value(x);
    lemma_decimal_value(y);
}

/// What follows the last `-` of a text is determined by the text.
pub proof fn lemma_tail_after_dash(a: Seq<char>, s: Seq<char>, b: Seq<char>, t: Seq<char>)
    requires
        a + seq!['-'] + s == b + seq!['-'] + t,
        forall|i: int| 0 <= i < s.len() ==> s[i] != '-',
        forall|i: int| 0 <= i < t.len() ==> t[i] != '-',
    ensures
        s == t,
{
    let left = a + seq!['-'] + s;
    let right = b + seq!['-'] + t;
    assert(left.len() == a.len() + 1 + s.len());
    assert(right.len() == b.len() + 1 + t.len());
    if s.len() < t.len() {
        assert(left[a.len() as int] == '-');
        assert(right[a.len() as int] == t[a.len() - b.len() - 1]);
    } else if t.len() < s.len() {
        assert(right[b.len() as int] == '-');
        assert(left[b.len() as int] == s[b.len() - a.len() - 1]);
    } else {
        assert forall|i: int| 0 <= i < s.len() implies s[i] == t[i] by {
            assert(left[a.len() + 1 + i] == s[i]);
            assert(right[b.len() + 1 + i] == t[i]);
        }
        assert(s =~= t);
    }
}

} // verus!
