//! Decimal rendering of integers and small text helpers.
use vstd::prelude::*;
use vstd::string::StringExecFns;

verus! {

/// The character of a decimal digit.
pub open spec fn digit_char(d: int) -> char {
    if d == 0 { '0' }
    else if d == 1 { '1' }
    else if d == 2 { '2' }
    else if d == 3 { '3' }
    else if d == 4 { '4' }
    else if d == 5 { '5' }
    else if d == 6 { '6' }
    else if d == 7 { '7' }
    else if d == 8 { '8' }
    else { '9' }
}

/// Decimal digits of a natural number, most significant first, no leading zeros.
pub open spec fn nat_decimal(n: nat) -> Seq<char>
    decreases n,
{
    if n < 10 {
        seq![digit_char(n as int)]
    } else {
        nat_decimal(n / 10).push(digit_char((n % 10) as int))
    }
}

/// Decimal rendering of an integer, as `Display` writes it: a leading `-` for negatives.
pub open spec fn decimal(n: int) -> Seq<char> {
    if n < 0 {
        seq!['-'] + nat_decimal((-n) as nat)
    } else {
        nat_decimal(n as nat)
    }
}

fn digit_str(d: u64) -> (s: &'static str)
    requires
        d < 10,
    ensures
        s@ == seq![digit_char(d as int)],
{
    proof {
        reveal_strlit("0");
        reveal_strlit("1");
        reveal_strlit("2");
        reveal_strlit("3");
        reveal_strlit("4");
        reveal_strlit("5");
        reveal_strlit("6");
        reveal_strlit("7");
        reveal_strlit("8");
        reveal_strlit("9");
    }
    if d == 0 { "0" }
    else if d == 1 { "1" }
    else if d == 2 { "2" }
    else if d == 3 { "3" }
    else if d == 4 { "4" }
    else if d == 5 { "5" }
    else if d == 6 { "6" }
    else if d == 7 { "7" }
    else if d == 8 { "8" }
    else { "9" }
}

proof fn lemma_nat_decimal_unfold(n: nat)
    requires
        n >= 10,
    ensures
        nat_decimal(n) == nat_decimal(n / 10).push(digit_char((n % 10) as int)),
{
}

/// Appends the decimal digits of `n` to `out`.
fn push_nat_decimal(out: &mut String, n: u64)
    ensures
        final(out)@ == old(out)@ + nat_decimal(n as nat),
    decreases n,
{
    if n < 10 {
        out.append(digit_str(n));
    } else {
        push_nat_decimal(out, n / 10);
        out.append(digit_str(n % 10));
        proof {
            lemma_nat_decimal_unfold(n as nat);
            assert(old(out)@ + nat_decimal(n as nat) =~= old(out)@ + nat_decimal((n / 10) as nat)
                + seq![digit_char((n % 10) as int)]);
        }
    }
}

/// Appends the decimal rendering of `n` to `out`.
pub fn push_decimal(out: &mut String, n: i64)
    ensures
        final(out)@ == old(out)@ + decimal(n as int),
{
    if n < 0 {
        proof { reveal_strlit("-"); }
        out.append("-");
        let m: u64 = if n == i64::MIN { 9223372036854775808u64 } else { (-n) as u64 };
        push_nat_decimal(out, m);
        proof {
            assert(old(out)@ + decimal(n as int) =~= old(out)@ + seq!['-'] + nat_decimal(m as nat));
        }
    } else {
        push_nat_decimal(out, n as u64);
    }
}

/// The decimal rendering of `n`, as `n.to_string()` gives it.
pub fn decimal_string(n: i64) -> (s: String)
    ensures
        s@ == decimal(n as int),
{
    let mut s = String::new();
    push_decimal(&mut s, n);
    proof { assert(s@ =~= decimal(n as int)); }
    s
}

/// Decimal text is made of digits and a leading `-` only.
pub proof fn lemma_decimal_chars(n: int, i: int)
    requires
        0 <= i < decimal(n).len(),
    ensures
        decimal(n)[i] == '-' || (exists|d: int| 0 <= d < 10 && decimal(n)[i] == digit_char(d)),
{
    if n < 0 {
        if i > 0 {
            lemma_nat_decimal_chars((-n) as nat, i - 1);
        }
    } else {
        lemma_nat_decimal_chars(n as nat, i);
    }
}

proof fn lemma_nat_decimal_chars(n: nat, i: int)
    requires
        0 <= i < nat_decimal(n).len(),
    ensures
        exists|d: int| 0 <= d < 10 && nat_decimal(n)[i] == digit_char(d),
    decreases n,
{
    if n < 10 {
        assert(nat_decimal(n)[i] == digit_char(n as int));
    } else {
        let pre = nat_decimal(n / 10);
        if i < pre.len() {
            lemma_nat_decimal_chars(n / 10, i);
            assert(nat_decimal(n)[i] == pre[i]);
        } else {
            assert(nat_decimal(n)[i] == digit_char((n % 10) as int));
        }
    }
}

} // verus!
