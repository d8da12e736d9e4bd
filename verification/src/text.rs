//! Numbers as decimal text.

use vstd::prelude::*;
use vstd::string::StringExecFns;

verus! {

/// The character of a decimal digit.
pub open spec fn digit(d: int) -> char
    recommends
        0 <= d < 10,
{
    if d == 0 {
        '0'
    } else if d == 1 {
        '1'
    } else if d == 2 {
        '2'
    } else if d == 3 {
        '3'
    } else if d == 4 {
        '4'
    } else if d == 5 {
        '5'
    } else if d == 6 {
        '6'
    } else if d == 7 {
        '7'
    } else if d == 8 {
        '8'
    } else {
        '9'
    }
}

/// `n` in decimal, without leading zeros.
pub open spec fn decimal(n: nat) -> Seq<char>
    decreases n,
{
    if n < 10 {
        seq![digit(n as int)]
    } else {
        decimal(n / 10).push(digit((n % 10) as int))
    }
}

/// `count` zeros.
pub open spec fn zeros(count: nat) -> Seq<char> {
    Seq::new(count, |i: int| '0')
}

/// `n` in decimal, with zeros in front where it has fewer than `width` digits.
pub open spec fn padded(n: nat, width: nat) -> Seq<char> {
    if decimal(n).len() >= width {
        decimal(n)
    } else {
        zeros((width - decimal(n).len()) as nat) + decimal(n)
    }
}

/// The part behind the decimal point of `thousandths / 1000`, with the point
/// and without trailing zeros; nothing where the part is zero.
pub open spec fn fraction(thousandths: nat) -> Seq<char>
    recommends
        thousandths < 1000,
{
    if thousandths == 0 {
        Seq::empty()
    } else if thousandths % 100 == 0 {
        seq!['.', digit(thousandths as int / 100)]
    } else if thousandths % 10 == 0 {
        seq!['.', digit(thousandths as int / 100), digit(thousandths as int / 10 % 10)]
    } else {
        seq![
            '.',
            digit(thousandths as int / 100),
            digit(thousandths as int / 10 % 10),
            digit(thousandths as int % 10),
        ]
    }
}

/// A time of `ms` milliseconds in seconds: the whole seconds, and the
/// thousandths behind a point as far as they are not zero.
pub open spec fn seconds(ms: nat) -> Seq<char> {
    decimal(ms / 1000) + fraction(ms % 1000)
}

/// Appends one decimal digit.
pub(crate) fn push_digit(s: &mut String, d: u8)
    requires
        d < 10,
    ensures
        final(s)@ == old(s)@.push(digit(d as int)),
{
    proof {
        reveal_strlit("0");
        reveal_strlit("1");
        reveal_strlit("2");
        reveal_strlit("3");
        reveal_strlit("4");
        reveal_strlit("5");
        reveal_strlit("6");
        reveal_strlit("7");
        reveal_strlit("8");
        reveal_strlit("9");
    }
    let ghost before = s@;
    if d == 0 {
        s.append("0");
    } else if d == 1 {
        s.append("1");
    } else if d == 2 {
        s.append("2");
    } else if d == 3 {
        s.append("3");
    } else if d == 4 {
        s.append("4");
    } else if d == 5 {
        s.append("5");
    } else if d == 6 {
        s.append("6");
    } else if d == 7 {
        s.append("7");
    } else if d == 8 {
        s.append("8");
    } else {
        s.append("9");
    }
    assert(s@ =~= before.push(digit(d as int)));
}

/// Appends `n` in decimal.
pub(crate) fn push_decimal(s: &mut String, n: u64)
    ensures
        final(s)@ == old(s)@ + decimal(n as nat),
    decreases n,
{
    let ghost before = s@;
    if n >= 10 {
        push_decimal(s, n / 10);
    }
    push_digit(s, (n % 10) as u8);
    assert(s@ =~= before + decimal(n as nat));
}

/// The number of digits of `n` in decimal.
pub(crate) fn digits(n: u64) -> (r: usize)
    ensures
        r == decimal(n as nat).len(),
        1 <= r <= 20,
    decreases n,
{
    if n >= 10 {
        let rest = digits(n / 10);
        proof {
            lemma_digits_bound(n as nat);
        }
        rest + 1
    } else {
        1
    }
}

/// A number below `10^20` has at most twenty digits.
proof fn lemma_digits_bound(n: nat)
    requires
        n <= u64::MAX,
    ensures
        decimal(n).len() <= 20,
{
    reveal_with_fuel(decimal, 21);
}

/// Appends `n` in decimal, with zeros in front where it has fewer than
/// `width` digits.
pub(crate) fn push_padded(s: &mut String, n: u64, width: usize)
    ensures
        final(s)@ == old(s)@ + padded(n as nat, width as nat),
{
    let ghost before = s@;
    let len = digits(n);
    let mut i: usize = len;
    while i < width
        invariant
            len <= i,
            len < width ==> i <= width,
            len >= width ==> i == len,
            s@ == before + zeros((i - len) as nat),
        decreases width - i,
    {
        proof {
            reveal_strlit("0");
        }
        s.append("0");
        i += 1;
        assert(s@ =~= before + zeros((i - len) as nat));
    }
    push_decimal(s, n);
    assert(s@ =~= before + padded(n as nat, width as nat)) by {
        if len >= width {
            assert(zeros((i - len) as nat) =~= Seq::<char>::empty());
        }
    }
}

/// Appends a time of `ms` milliseconds in seconds.
pub(crate) fn push_seconds(s: &mut String, ms: u64)
    ensures
        final(s)@ == old(s)@ + seconds(ms as nat),
{
    proof {
        reveal_strlit(".");
    }
    let ghost before = s@;
    push_decimal(s, ms / 1000);
    let thousandths = ms % 1000;
    if thousandths != 0 {
        s.append(".");
        push_digit(s, (thousandths / 100) as u8);
        if thousandths % 100 != 0 {
            push_digit(s, (thousandths / 10 % 10) as u8);
            if thousandths % 10 != 0 {
                push_digit(s, (thousandths % 10) as u8);
            }
        }
    }
    assert(s@ =~= before + seconds(ms as nat));
}

} // verus!
