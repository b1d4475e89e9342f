//! Text helpers: decimal numerals, concatenation, and the order of strings.
use vstd::prelude::*;

verus! {

/// The decimal digit character for `d`, which is below ten.
pub open spec fn digit_char(d: nat) -> char {
    if d == 0 {
        '0'
    } else if d == 1 {
        '1'
    } else if d == 2 {
        '2'
    } else if d == 3 {
        '3'
    } else if d == 4 {
        '4'
    } else if d == 5 {
        '5'
    } else if d == 6 {
        '6'
    } else if d == 7 {
        '7'
    } else if d == 8 {
        '8'
    } else {
        '9'
    }
}

/// The decimal numeral of `n`, without leading zeros.
pub open spec fn decimal(n: nat) -> Seq<char>
    decreases n,
{
    if n < 10 {
        seq![digit_char(n)]
    } else {
        decimal(n / 10).push(digit_char(n % 10))
    }
}

fn digit_string(d: usize) -> (res: String)
    requires
        d < 10,
    ensures
        res@ == seq![digit_char(d as nat)],
{
    proof {
        reveal_strlit("0");
        reveal_strlit("1");
        reveal_strlit("2");
        reveal_strlit("3");
        reveal_strlit("4");
        reveal_strlit("5");
        reveal_strlit("6");
        reveal_strlit("7");
        reveal_strlit("8");
        reveal_strlit("9");
    }
    let s = if d == 0 {
        "0"
    } else if d == 1 {
        "1"
    } else if d == 2 {
        "2"
    } else if d == 3 {
        "3"
    } else if d == 4 {
        "4"
    } else if d == 5 {
        "5"
    } else if d == 6 {
        "6"
    } else if d == 7 {
        "7"
    } else if d == 8 {
        "8"
    } else {
        "9"
    };
    let res = String::from_str(s);
    assert(res@ =~= seq![digit_char(d as nat)]);
    res
}

/// The decimal numeral of `n`.
pub fn decimal_string(n: usize) -> (res: String)
    ensures
        res@ == decimal(n as nat),
    decreases n,
{
    if n < 10 {
        digit_string(n)
    } else {
        let mut s = decimal_string(n / 10);
        let d = digit_string(n % 10);
        let ghost before = s@;
        s.append(d.as_str());
        proof {
            res_is_push(before, d@, n);
        }
        s
    }
}

proof fn res_is_push(s: Seq<char>, d: Seq<char>, n: usize)
    requires
        n >= 10,
        d == seq![digit_char((n % 10) as nat)],
    ensures
        s + d == s.push(digit_char((n % 10) as nat)),
{
    assert(s + d =~= s.push(digit_char((n % 10) as nat)));
}

/// `a` followed by `b`.
pub fn concat_str(a: &str, b: &str) -> (res: String)
    ensures
        res@ == a@ + b@,
{
    let mut s = String::from_str(a);
    s.append(b);
    s
}

/// `a` comes no later than `b` in the order of strings: character by
/// character, by code point, a proper prefix first.
pub open spec fn text_le(a: Seq<char>, b: Seq<char>) -> bool
    decreases a.len(),
{
    if a.len() == 0 {
        true
    } else if b.len() == 0 {
        false
    } else if (a[0] as u32) < (b[0] as u32) {
        true
    } else if a[0] == b[0] {
        text_le(a.drop_first(), b.drop_first())
    } else {
        false
    }
}

/// A numeral has at least one digit, and at least two from ten on.
pub proof fn lemma_decimal_len(n: nat)
    ensures
        decimal(n).len() >= 1,
        n >= 10 ==> decimal(n).len() >= 2,
    decreases n,
{
    if n >= 10 {
        lemma_decimal_len(n / 10);
    }
}

/// Distinct numbers have distinct numerals.
pub proof fn law_decimal_is_injective(n: nat, m: nat)
    requires
        decimal(n) == decimal(m),
    ensures
        n == m,
    decreases n,
{
    lemma_decimal_len(n);
    lemma_decimal_len(m);
    if n < 10 && m < 10 {
        assert(decimal(n)[0] == digit_char(n));
        assert(decimal(m)[0] == digit_char(m));
    } else if n >= 10 && m >= 10 {
        assert(decimal(n).last() == digit_char(n % 10));
        assert(decimal(m).last() == digit_char(m % 10));
        assert(decimal(n).drop_last() =~= decimal(n / 10));
        assert(decimal(m).drop_last() =~= decimal(m / 10));
        law_decimal_is_injective(n / 10, m / 10);
    }
}

} // verus!
