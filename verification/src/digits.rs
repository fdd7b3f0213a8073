//! Decimal rendering of unsigned values, including the fixed-point forms the
//! report uses: one or two digits after the point, and byte counts scaled to
//! hundredths of a kiB or GiB.

use vstd::prelude::*;
use vstd::string::StringExecFns;
use vstd::arithmetic::div_mod::lemma_div_is_ordered;

verus! {

/// The character for one decimal digit.
pub open spec fn digit_char(d: nat) -> char {
    if d == 0 {
        '0'
    } else if d == 1 {
        '1'
    } else if d == 2 {
        '2'
    } else if d == 3 {
        '3'
    } else if d == 4 {
        '4'
    } else if d == 5 {
        '5'
    } else if d == 6 {
        '6'
    } else if d == 7 {
        '7'
    } else if d == 8 {
        '8'
    } else {
        '9'
    }
}

/// Decimal numeral of `n`, most significant digit first, no leading zeros
/// (zero renders as a single `'0'`).
pub open spec fn spec_decimal(n: nat) -> Seq<char>
    decreases n,
{
    if n < 10 {
        seq![digit_char(n)]
    } else {
        spec_decimal(n / 10).push(digit_char(n % 10))
    }
}

/// Two-decimal fixed point: `h` counts hundredths, rendered `<int>.<frac>`
/// with the fractional part always two digits.
pub open spec fn spec_fixed2(h: nat) -> Seq<char> {
    spec_decimal(h / 100) + seq!['.'] + (if h % 100 < 10 {
        seq!['0']
    } else {
        Seq::<char>::empty()
    }) + spec_decimal(h % 100)
}

/// One-decimal fixed point: `t` counts tenths, rendered `<int>.<digit>`.
pub open spec fn spec_fixed1(t: nat) -> Seq<char> {
    spec_decimal(t / 10) + seq!['.'] + spec_decimal(t % 10)
}

/// Bytes scaled to hundredths of a GiB, truncated.
pub open spec fn spec_gib_hundredths(bytes: nat) -> nat {
    bytes * 100 / 0x40000000
}

/// Bytes scaled to hundredths of a kiB, truncated.
pub open spec fn spec_kib_hundredths(bytes: nat) -> nat {
    bytes * 100 / 1024
}

fn digit_str(d: u64) -> (r: &'static str)
    requires
        d < 10,
    ensures
        r@ == seq![digit_char(d as nat)],
{
    proof {
        reveal_strlit("0");
        reveal_strlit("1");
        reveal_strlit("2");
        reveal_strlit("3");
        reveal_strlit("4");
        reveal_strlit("5");
        reveal_strlit("6");
        reveal_strlit("7");
        reveal_strlit("8");
        reveal_strlit("9");
    }
    let r: &'static str = if d == 0 {
        "0"
    } else if d == 1 {
        "1"
    } else if d == 2 {
        "2"
    } else if d == 3 {
        "3"
    } else if d == 4 {
        "4"
    } else if d == 5 {
        "5"
    } else if d == 6 {
        "6"
    } else if d == 7 {
        "7"
    } else if d == 8 {
        "8"
    } else {
        "9"
    };
    proof {
        assert(r@ =~= seq![digit_char(d as nat)]);
    }
    r
}

/// The decimal numeral of `n`.
pub fn decimal_string(n: u64) -> (r: String)
    ensures
        r@ == spec_decimal(n as nat),
    decreases n,
{
    if n < 10 {
        String::from_str(digit_str(n))
    } else {
        let mut s = decimal_string(n / 10);
        s.append(digit_str(n % 10));
        proof {
            assert(s@ =~= spec_decimal(n as nat));
        }
        s
    }
}

/// `h` hundredths rendered with exactly two digits after the point.
pub fn fixed2_string(h: u64) -> (r: String)
    ensures
        r@ == spec_fixed2(h as nat),
{
    let mut s = decimal_string(h / 100);
    s.append(".");
    let frac: u64 = h % 100;
    if frac < 10 {
        s.append("0");
    }
    let fs = decimal_string(frac);
    s.append(fs.as_str());
    proof {
        reveal_strlit(".");
        reveal_strlit("0");
        assert(s@ =~= spec_fixed2(h as nat));
    }
    s
}

/// `t` tenths rendered with exactly one digit after the point.
pub fn fixed1_string(t: u64) -> (r: String)
    ensures
        r@ == spec_fixed1(t as nat),
{
    let mut s = decimal_string(t / 10);
    s.append(".");
    let fs = decimal_string(t % 10);
    s.append(fs.as_str());
    proof {
        reveal_strlit(".");
        assert(s@ =~= spec_fixed1(t as nat));
    }
    s
}

/// Hundredths of a GiB in `bytes`, where `bytes` may exceed what one `u64`
/// byte counter holds (virtual memory sums two counters).
pub fn gib_hundredths(bytes: u128) -> (r: u64)
    requires
        bytes < 0x20000000000000000,
    ensures
        r as nat == spec_gib_hundredths(bytes as nat),
{
    let wide: u128 = bytes * 100 / 0x40000000;
    proof {
        lemma_div_is_ordered(
            (bytes * 100) as int,
            0xC80000000000000000int,
            0x40000000int,
        );
    }
    wide as u64
}

/// Hundredths of a kiB in `bytes`.
pub fn kib_hundredths(bytes: u64) -> (r: u64)
    ensures
        r as nat == spec_kib_hundredths(bytes as nat),
{
    let wide: u128 = (bytes as u128) * 100 / 1024;
    proof {
        lemma_div_is_ordered(
            ((bytes as u128) * 100) as int,
            0x63FFFFFFFFFFFFFFFF9Cint,
            1024int,
        );
    }
    wide as u64
}

} // verus!
