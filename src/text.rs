//! Decimal rendering of numbers, with zero padding.
use vstd::prelude::*;

verus! {

/// The character of a decimal digit.
pub open spec fn digit_char(d: nat) -> char
    recommends
        d < 10,
{
    seq!['0', '1', '2', '3', '4', '5', '6', '7', '8', '9'][d as int]
}

/// The decimal digits of `n`, most significant first, with no leading zero.
pub open spec fn decimal(n: nat) -> Seq<char>
    decreases n,
{
    if n < 10 {
        seq![digit_char(n)]
    } else {
        decimal(n / 10).push(digit_char(n % 10))
    }
}

/// `k` zero characters.
pub open spec fn zeros(k: nat) -> Seq<char> {
    Seq::new(k, |_i: int| '0')
}

/// The decimal digits of `n`, with zeros in front up to `width` characters.
pub open spec fn zero_padded(n: nat, width: nat) -> Seq<char> {
    if decimal(n).len() < width {
        zeros((width - decimal(n).len()) as nat) + decimal(n)
    } else {
        decimal(n)
    }
}

fn digit_text(d: u64) -> (r: &'static str)
    requires
        d < 10,
    ensures
        r@ == seq![digit_char(d as nat)],
{
    proof {
        reveal_strlit("0");
        reveal_strlit("1");
        reveal_strlit("2");
        reveal_strlit("3");
        reveal_strlit("4");
        reveal_strlit("5");
        reveal_strlit("6");
        reveal_strlit("7");
        reveal_strlit("8");
        reveal_strlit("9");
    }
    match d {
        0 => "0",
        1 => "1",
        2 => "2",
        3 => "3",
        4 => "4",
        5 => "5",
        6 => "6",
        7 => "7",
        8 => "8",
        _ => "9",
    }
}

/// The number of decimal digits of `n`.
pub fn decimal_len(n: u64) -> (r: u64)
    ensures
        r == decimal(n as nat).len(),
        1 <= r <= n + 1,
    decreases n,
{
    if n < 10 {
        1
    } else {
        let k = decimal_len(n / 10);
        k + 1
    }
}

/// Appends the decimal digits of `n` to `out`.
pub fn append_decimal(out: &mut String, n: u64)
    ensures
        final(out)@ == old(out)@ + decimal(n as nat),
    decreases n,
{
    if n < 10 {
        out.append(digit_text(n));
    } else {
        append_decimal(out, n / 10);
        out.append(digit_text(n % 10));
        assert(final(out)@ =~= old(out)@ + decimal(n as nat));
    }
}

/// Appends `n` in decimal, with zeros in front up to `width` characters.
pub fn append_zero_padded(out: &mut String, n: u64, width: usize)
    ensures
        final(out)@ == old(out)@ + zero_padded(n as nat, width as nat),
{
    let len = decimal_len(n);
    let w = width as u64;
    let ghost start = out@;
    if len < w {
        let mut k: u64 = 0;
        while k < w - len
            invariant
                len < w,
                w == width,
                len == decimal(n as nat).len(),
                k <= w - len,
                out@ == start + zeros(k as nat),
            decreases w - len - k,
        {
            proof {
                reveal_strlit("0");
            }
            out.append("0");
            k = k + 1;
            assert(out@ =~= start + zeros(k as nat));
        }
    }
    append_decimal(out, n);
    assert(out@ =~= start + zero_padded(n as nat, width as nat));
}

} // verus!
