//! Numbers as text: decimal digits, rounded quotients, fixed-point figures.
use vstd::prelude::*;
use vstd::string::*;

verus! {

/// The character that stands for the digit `d`.
pub open spec fn digit_char(d: nat) -> char {
    if d == 0 {
        '0'
    } else if d == 1 {
        '1'
    } else if d == 2 {
        '2'
    } else if d == 3 {
        '3'
    } else if d == 4 {
        '4'
    } else if d == 5 {
        '5'
    } else if d == 6 {
        '6'
    } else if d == 7 {
        '7'
    } else if d == 8 {
        '8'
    } else {
        '9'
    }
}

/// `n` in decimal, without leading zeros.
pub open spec fn decimal_text(n: nat) -> Seq<char>
    decreases n,
{
    if n < 10 {
        seq![digit_char(n)]
    } else {
        decimal_text(n / 10).push(digit_char(n % 10))
    }
}

/// `a / b` rounded to the nearest whole number, and to the even one of the
/// two where it lies halfway between them.
pub open spec fn rounded_div(a: nat, b: nat) -> nat
    recommends
        b > 0,
{
    let whole = a / b;
    let rest = a % b;
    if 2 * rest > b || (2 * rest == b && whole % 2 == 1) {
        whole + 1
    } else {
        whole
    }
}

/// A number of tenths as a figure with one decimal place.
pub open spec fn tenths_text(t: nat) -> Seq<char> {
    decimal_text(t / 10) + "."@ + seq![digit_char(t % 10)]
}

/// A number of hundredths as a figure with two decimal places.
pub open spec fn hundredths_text(h: nat) -> Seq<char> {
    decimal_text(h / 100) + "."@ + seq![digit_char((h / 10) % 10)] + seq![digit_char(h % 10)]
}

/// `k` copies of `piece`, one after the other.
pub open spec fn repeated(piece: Seq<char>, k: nat) -> Seq<char>
    decreases k,
{
    if k == 0 {
        Seq::empty()
    } else {
        repeated(piece, (k - 1) as nat) + piece
    }
}

/// The one-character text of a digit.
pub fn digit(d: u8) -> (r: &'static str)
    requires
        d < 10,
    ensures
        r@ == seq![digit_char(d as nat)],
{
    let r = if d == 0 {
        "0"
    } else if d == 1 {
        "1"
    } else if d == 2 {
        "2"
    } else if d == 3 {
        "3"
    } else if d == 4 {
        "4"
    } else if d == 5 {
        "5"
    } else if d == 6 {
        "6"
    } else if d == 7 {
        "7"
    } else if d == 8 {
        "8"
    } else {
        "9"
    };
    proof {
        reveal_strlit("0");
        reveal_strlit("1");
        reveal_strlit("2");
        reveal_strlit("3");
        reveal_strlit("4");
        reveal_strlit("5");
        reveal_strlit("6");
        reveal_strlit("7");
        reveal_strlit("8");
        reveal_strlit("9");
        assert(r@ =~= seq![digit_char(d as nat)]);
    }
    r
}

/// Writes `n` in decimal.
pub fn decimal(n: u128) -> (r: String)
    ensures
        r@ == decimal_text(n as nat),
    decreases n,
{
    if n < 10 {
        String::from_str(digit(n as u8))
    } else {
        let mut s = decimal(n / 10);
        s.append(digit((n % 10) as u8));
        proof {
            assert(s@ =~= decimal_text((n / 10) as nat).push(digit_char((n % 10) as nat)));
        }
        s
    }
}

/// Divides and rounds to the nearest whole number, a half to the even one.
pub fn rounded_quotient(a: u128, b: u128) -> (q: u128)
    requires
        b > 0,
    ensures
        q == rounded_div(a as nat, b as nat),
{
    let whole: u128 = a / b;
    let rest: u128 = a % b;
    let gap: u128 = b - rest;
    if rest > gap || (rest == gap && whole % 2 == 1) {
        proof {
            assert(a == b * whole + rest) by {
                vstd::arithmetic::div_mod::lemma_fundamental_div_mod(a as int, b as int);
            }
            assert(2 * whole <= b * whole) by (nonlinear_arith)
                requires
                    b >= 2,
                    whole >= 0,
            ;
        }
        whole + 1
    } else {
        whole
    }
}

/// Writes a number of tenths with one decimal place.
pub fn tenths(t: u128) -> (r: String)
    ensures
        r@ == tenths_text(t as nat),
{
    let mut s = decimal(t / 10);
    s.append(".");
    s.append(digit((t % 10) as u8));
    s
}

/// Writes a number of hundredths with two decimal places.
pub fn hundredths(h: u128) -> (r: String)
    ensures
        r@ == hundredths_text(h as nat),
{
    let mut s = decimal(h / 100);
    s.append(".");
    s.append(digit(((h / 10) % 10) as u8));
    s.append(digit((h % 10) as u8));
    s
}

/// Writes `piece` `k` times over.
pub fn repeat(piece: &str, k: usize) -> (r: String)
    ensures
        r@ == repeated(piece@, k as nat),
{
    let mut s = String::new();
    let mut i: usize = 0;
    while i < k
        invariant
            i <= k,
            s@ == repeated(piece@, i as nat),
        decreases k - i,
    {
        s.append(piece);
        i = i + 1;
    }
    s
}

} // verus!
