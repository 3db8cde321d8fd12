use vstd::prelude::*;

verus! {

/// The character of a decimal digit.
pub open spec fn digit_char(d: nat) -> char {
    if d == 0 {
        '0'
    } else if d == 1 {
        '1'
    } else if d == 2 {
        '2'
    } else if d == 3 {
        '3'
    } else if d == 4 {
        '4'
    } else if d == 5 {
        '5'
    } else if d == 6 {
        '6'
    } else if d == 7 {
        '7'
    } else if d == 8 {
        '8'
    } else {
        '9'
    }
}

/// The decimal digits of `n`, most significant first, without leading zeros.
pub open spec fn decimal(n: nat) -> Seq<char>
    decreases n,
{
    if n < 10 {
        seq![digit_char(n)]
    } else {
        decimal(n / 10).push(digit_char(n % 10))
    }
}

/// `n` in decimal, preceded by as many zeros as bring it to `width` characters.
pub open spec fn padded(n: nat, width: nat) -> Seq<char> {
    let t = decimal(n);
    Seq::new((if t.len() < width { width - t.len() } else { 0 }) as nat, |i: int| '0') + t
}

pub proof fn lemma_decimal_len(n: nat)
    ensures
        decimal(n).len() >= 1,
        n < 10 ==> decimal(n).len() == 1,
        n >= 10 ==> decimal(n).len() >= 2,
    decreases n,
{
    if n >= 10 {
        lemma_decimal_len(n / 10);
    }
}

proof fn lemma_digit_char_injective(a: nat, b: nat)
    requires
        a < 10,
        b < 10,
        digit_char(a) == digit_char(b),
    ensures
        a == b,
{
}

/// Distinct numbers have distinct decimal forms.
pub proof fn lemma_decimal_injective(a: nat, b: nat)
    requires
        decimal(a) == decimal(b),
    ensures
        a == b,
    decreases a,
{
    lemma_decimal_len(a);
    lemma_decimal_len(b);
    if a < 10 && b < 10 {
        assert(decimal(a)[0] == digit_char(a));
        assert(decimal(b)[0] == digit_char(b));
        lemma_digit_char_injective(a, b);
    } else if a >= 10 && b >= 10 {
        let (da, db) = (decimal(a), decimal(b));
        assert(da.last() == digit_char(a % 10));
        assert(db.last() == digit_char(b % 10));
        lemma_digit_char_injective(a % 10, b % 10);
        assert(decimal(a / 10) == da.drop_last());
        assert(decimal(b / 10) == db.drop_last());
        lemma_decimal_injective(a / 10, b / 10);
    }
}

/// The value of a digit character; `0` for any other character.
pub open spec fn digit_value(c: char) -> nat {
    if c == '1' {
        1
    } else if c == '2' {
        2
    } else if c == '3' {
        3
    } else if c == '4' {
        4
    } else if c == '5' {
        5
    } else if c == '6' {
        6
    } else if c == '7' {
        7
    } else if c == '8' {
        8
    } else if c == '9' {
        9
    } else {
        0
    }
}

/// The number that a sequence of digits denotes in decimal.
pub open spec fn value_of(s: Seq<char>) -> nat
    decreases s.len(),
{
    if s.len() == 0 {
        0
    } else {
        value_of(s.drop_last()) * 10 + digit_value(s.last())
    }
}

/// Reading the decimal form of `n` gives `n` back.
pub proof fn lemma_value_of_decimal(n: nat)
    ensures
        value_of(decimal(n)) == n,
    decreases n,
{
    if n >= 10 {
        lemma_value_of_decimal(n / 10);
        assert(decimal(n).drop_last() == decimal(n / 10));
        assert(digit_value(digit_char(n % 10)) == n % 10);
        assert((n / 10) * 10 + n % 10 == n);
        assert(decimal(n).last() == digit_char(n % 10));
        assert(value_of(decimal(n)) == value_of(decimal(n / 10)) * 10 + digit_value(
            digit_char(n % 10),
        ));
    } else {
        assert(decimal(n).drop_last() =~= Seq::<char>::empty());
        assert(digit_value(digit_char(n)) == n);
        assert(value_of(decimal(n)) == value_of(Seq::<char>::empty()) * 10 + digit_value(
            digit_char(n),
        ));
    }
}

/// Leading zeros do not change the value of a sequence of digits.
proof fn lemma_value_of_zeros(k: nat, t: Seq<char>)
    ensures
        value_of(Seq::new(k, |i: int| '0') + t) == value_of(t),
    decreases t.len(), k,
{
    let z = Seq::new(k, |i: int| '0');
    if t.len() == 0 {
        assert(z + t =~= z);
        if k > 0 {
            assert(z.drop_last() =~= Seq::new((k - 1) as nat, |i: int| '0'));
            lemma_value_of_zeros((k - 1) as nat, t);
            assert(Seq::new((k - 1) as nat, |i: int| '0') + t =~= Seq::new((k - 1) as nat, |i: int| '0'));
        }
    } else {
        assert((z + t).drop_last() =~= z + t.drop_last());
        lemma_value_of_zeros(k, t.drop_last());
    }
}

/// Reading a zero-padded decimal form of `n` gives `n` back.
pub proof fn lemma_value_of_padded(n: nat, width: nat)
    ensures
        value_of(padded(n, width)) == n,
{
    let t = decimal(n);
    lemma_value_of_zeros((if t.len() < width { width - t.len() } else { 0 }) as nat, t);
    lemma_value_of_decimal(n);
}

/// Numbers below 10, 100, 1000 and 10000 have at most 1, 2, 3 and 4 digits.
pub proof fn lemma_decimal_len_small(n: nat)
    ensures
        n < 100 ==> decimal(n).len() <= 2,
        n < 1000 ==> decimal(n).len() <= 3,
        n < 10000 ==> decimal(n).len() <= 4,
    decreases n,
{
    lemma_decimal_len(n);
    if n >= 10 {
        lemma_decimal_len_small(n / 10);
    }
}

/// A number with at most `width` digits pads to exactly `width` characters.
pub proof fn lemma_padded_len(n: nat, width: nat)
    requires
        decimal(n).len() <= width,
    ensures
        padded(n, width).len() == width,
{
}

/// The one-character text of the digit `d`.
fn digit_str(d: u64) -> (r: &'static str)
    requires
        d < 10,
    ensures
        r@ == seq![digit_char(d as nat)],
{
    proof {
        reveal_strlit("0");
        reveal_strlit("1");
        reveal_strlit("2");
        reveal_strlit("3");
        reveal_strlit("4");
        reveal_strlit("5");
        reveal_strlit("6");
        reveal_strlit("7");
        reveal_strlit("8");
        reveal_strlit("9");
    }
    match d {
        0 => "0",
        1 => "1",
        2 => "2",
        3 => "3",
        4 => "4",
        5 => "5",
        6 => "6",
        7 => "7",
        8 => "8",
        _ => "9",
    }
}

/// Appends the decimal digits of `n` to `s`.
pub fn push_decimal(s: &mut String, n: u64)
    ensures
        final(s)@ == old(s)@ + decimal(n as nat),
    decreases n,
{
    if n >= 10 {
        push_decimal(s, n / 10);
    }
    s.append(digit_str(n % 10));
    assert(s@ =~= old(s)@ + decimal(n as nat));
}

/// The number of decimal digits of `n`.
fn decimal_len(n: u64) -> (r: u64)
    ensures
        r == decimal(n as nat).len(),
    decreases n,
{
    if n < 10 {
        1
    } else {
        proof {
            lemma_decimal_len_le((n / 10) as nat);
        }
        decimal_len(n / 10) + 1
    }
}

/// A positive number has at most as many digits as its value.
proof fn lemma_decimal_len_le(n: nat)
    ensures
        decimal(n).len() <= if n == 0 { 1 } else { n },
    decreases n,
{
    if n >= 10 {
        lemma_decimal_len_le(n / 10);
    }
}

/// Appends `n` in decimal to `s`, padded with leading zeros to `width` characters.
pub fn push_padded(s: &mut String, n: u64, width: u64)
    ensures
        final(s)@ == old(s)@ + padded(n as nat, width as nat),
{
    let k = decimal_len(n);
    let mut i: u64 = k;
    while i < width
        invariant
            k <= i,
            k == decimal(n as nat).len(),
            i <= width || i == k,
            s@ == old(s)@ + Seq::new((i - k) as nat, |j: int| '0'),
        decreases width - i,
    {
        proof {
            reveal_strlit("0");
        }
        let ghost before = s@;
        s.append("0");
        i = i + 1;
        assert(s@ =~= old(s)@ + Seq::new((i - k) as nat, |j: int| '0')) by {
            assert(before + "0"@ =~= before.push('0'));
        }
    }
    push_decimal(s, n);
    assert(s@ =~= old(s)@ + padded(n as nat, width as nat));
}

} // verus!
