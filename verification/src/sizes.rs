//! Human-readable disk sizes: bytes below one KiB as they are, larger
//! sizes in KB, MB or GB (powers of 1024) with two decimals.
use vstd::prelude::*;

verus! {

/// The decimal digit `d`.
pub open spec fn digit(d: nat) -> char {
    seq!['0', '1', '2', '3', '4', '5', '6', '7', '8', '9'][d as int]
}

/// The decimal representation of `n`, without leading zeros.
pub open spec fn decimal(n: nat) -> Seq<char>
    decreases n,
{
    if n < 10 {
        seq![digit(n)]
    } else {
        decimal(n / 10).push(digit(n % 10))
    }
}

/// `2` to the power `k`.
pub open spec fn pow2n(k: nat) -> nat
    decreases k,
{
    if k == 0 {
        1
    } else {
        2 * pow2n((k - 1) as nat)
    }
}

/// Number of binary digits of `n`.
pub open spec fn bit_len(n: nat) -> nat
    decreases n,
{
    if n == 0 {
        0
    } else {
        1 + bit_len(n / 2)
    }
}

/// `a / d` rounded to the nearest integer, ties to the even one.
pub open spec fn div_round_even(a: nat, d: nat) -> nat
    recommends
        d > 0,
{
    let q = a / d;
    let r = a % d;
    if 2 * r > d || (2 * r == d && q % 2 == 1) {
        q + 1
    } else {
        q
    }
}

/// The value of `n` as a double-precision number: `n` itself when it
/// has at most 53 significant bits, else `n` rounded to 53 of them, ties
/// to even.
pub open spec fn as_double(n: nat) -> nat {
    if bit_len(n) <= 53 {
        n
    } else {
        let d = pow2n((bit_len(n) - 53) as nat);
        div_round_even(n, d) * d
    }
}

pub open spec fn kib() -> nat {
    1024
}

pub open spec fn mib() -> nat {
    1048576
}

pub open spec fn gib() -> nat {
    1073741824
}

/// `bytes` in units of `unit`, in hundredths, rounded to the nearest
/// hundredth (ties to even) from the double-precision value of `bytes`.
pub open spec fn hundredths(bytes: nat, unit: nat) -> nat {
    div_round_even(as_double(bytes) * 100, unit)
}

/// `h` hundredths written with two decimals.
pub open spec fn fixed2(h: nat) -> Seq<char> {
    decimal(h / 100) + seq!['.', digit((h % 100) / 10), digit(h % 10)]
}

/// The text that describes a size of `bytes` bytes.
pub open spec fn size_text(bytes: nat) -> Seq<char> {
    if bytes >= gib() {
        fixed2(hundredths(bytes, gib())) + " GB"@
    } else if bytes >= mib() {
        fixed2(hundredths(bytes, mib())) + " MB"@
    } else if bytes >= kib() {
        fixed2(hundredths(bytes, kib())) + " KB"@
    } else {
        decimal(bytes) + " B"@
    }
}

fn digit_str(d: u128) -> (r: &'static str)
    requires
        d < 10,
    ensures
        r@ == seq![digit(d as nat)],
{
    proof {
        reveal_strlit("0");
        reveal_strlit("1");
        reveal_strlit("2");
        reveal_strlit("3");
        reveal_strlit("4");
        reveal_strlit("5");
        reveal_strlit("6");
        reveal_strlit("7");
        reveal_strlit("8");
        reveal_strlit("9");
    }
    if d == 0 {
        "0"
    } else if d == 1 {
        "1"
    } else if d == 2 {
        "2"
    } else if d == 3 {
        "3"
    } else if d == 4 {
        "4"
    } else if d == 5 {
        "5"
    } else if d == 6 {
        "6"
    } else if d == 7 {
        "7"
    } else if d == 8 {
        "8"
    } else {
        "9"
    }
}

/// Appends the decimal representation of `n` to `out`.
pub fn push_decimal(out: &mut String, n: u128)
    ensures
        final(out)@ == old(out)@ + decimal(n as nat),
    decreases n,
{
    if n >= 10 {
        push_decimal(out, n / 10);
    }
    out.append(digit_str(n % 10));
    proof {
        if n < 10 {
            assert(n % 10 == n);
        }
    }
}

fn round_even(a: u128, d: u128) -> (r: u128)
    requires
        d > 0,
        a / d < u128::MAX,
    ensures
        r == div_round_even(a as nat, d as nat),
{
    let q = a / d;
    let r = a % d;
    if r > d - r || (r == d - r && q % 2 == 1) {
        q + 1
    } else {
        q
    }
}

proof fn lemma_bit_len_step(m: nat)
    requires
        m > 0,
    ensures
        bit_len(m) == 1 + bit_len(m / 2),
{
}

fn double_value(n: u64) -> (r: u128)
    ensures
        r == as_double(n as nat),
        r <= 36893488147419103232,
{
    let mut m: u64 = n;
    let mut bl: u64 = 0;
    assert(pow2n(64) == 18446744073709551616) by {
        reveal_with_fuel(pow2n, 65);
    }
    while m > 0
        invariant
            bl <= 64,
            bit_len(n as nat) == bl + bit_len(m as nat),
            m < pow2n((64 - bl) as nat),
        decreases m,
    {
        proof {
            lemma_bit_len_step(m as nat);
            if bl == 64 {
                assert(pow2n(0) == 1);
            }
            assert(pow2n((64 - bl) as nat) == 2 * pow2n((64 - bl - 1) as nat));
        }
        m = m / 2;
        bl = bl + 1;
    }
    if bl <= 53 {
        return n as u128;
    }
    let s = bl - 53;
    let mut d: u128 = 1;
    let mut k: u64 = 0;
    while k < s
        invariant
            k <= s <= 11,
            d == pow2n(k as nat),
            d <= 2048,
        decreases s - k,
    {
        proof {
            assert(pow2n((k + 1) as nat) == 2 * pow2n(k as nat));
            if k < 11 {
                lemma_pow2n_le(k as nat, 10);
                reveal_with_fuel(pow2n, 11);
            }
        }
        d = d * 2;
        k = k + 1;
    }
    assert(d >= 1) by {
        lemma_pow2n_pos(s as nat);
    }
    let nn = n as u128;
    assert(nn / d <= nn) by (nonlinear_arith)
        requires
            d >= 1,
    ;
    let q = round_even(nn, d);
    assert(q <= nn / d + 1);
    assert(q * d <= 18446744073709553664) by (nonlinear_arith)
        requires
            q <= nn / d + 1,
            nn < 18446744073709551616,
            d >= 1,
            d <= 2048,
    {
        assert((nn / d) * d <= nn);
    }
    q * d
}

proof fn lemma_pow2n_pos(k: nat)
    ensures
        pow2n(k) >= 1,
    decreases k,
{
    if k > 0 {
        lemma_pow2n_pos((k - 1) as nat);
    }
}

proof fn lemma_pow2n_le(k: nat, b: nat)
    requires
        k <= b,
    ensures
        pow2n(k) <= pow2n(b),
    decreases b,
{
    if k < b {
        lemma_pow2n_le(k, (b - 1) as nat);
        lemma_pow2n_pos((b - 1) as nat);
    }
}

fn push_fixed2(out: &mut String, h: u128)
    ensures
        final(out)@ == old(out)@ + fixed2(h as nat),
{
    push_decimal(out, h / 100);
    out.append(".");
    out.append(digit_str((h % 100) / 10));
    out.append(digit_str(h % 10));
    proof {
        reveal_strlit(".");
    }
    assert(final(out)@ =~= old(out)@ + fixed2(h as nat));
}

/// The human-readable text of a size in bytes: "N B" below 1024 bytes,
/// else the size in GB, MB or KB (powers of 1024) with two decimals, as
/// the double-precision quotient rounds to hundredths.
pub fn format_size(bytes: u64) -> (r: String)
    ensures
        r@ == size_text(bytes as nat),
{
    let gb: u128 = 1073741824;
    let mb: u128 = 1048576;
    let kb: u128 = 1024;
    let mut out = String::new();
    if (bytes as u128) < kb {
        push_decimal(&mut out, bytes as u128);
        out.append(" B");
        return out;
    }
    let f = double_value(bytes);
    let a = f * 100;
    let (unit, name) = if bytes as u128 >= gb {
        (gb, " GB")
    } else if bytes as u128 >= mb {
        (mb, " MB")
    } else {
        (kb, " KB")
    };
    assert(a / unit <= a) by (nonlinear_arith)
        requires
            unit >= 1,
    ;
    let h = round_even(a, unit);
    push_fixed2(&mut out, h);
    out.append(name);
    out
}

} // verus!
