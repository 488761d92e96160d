use vstd::prelude::*;

verus! {

/// Character for a decimal digit below ten.
pub open spec fn digit(d: int) -> char {
    seq!['0', '1', '2', '3', '4', '5', '6', '7', '8', '9'][d]
}

/// Decimal digits of `n`, most significant first, without leading zeros.
pub open spec fn nat_text(n: nat) -> Seq<char>
    decreases n,
{
    if n < 10 {
        seq![digit(n as int)]
    } else {
        nat_text(n / 10) + seq![digit((n % 10) as int)]
    }
}

/// The last `width` decimal digits of `f`, with leading zeros.
pub open spec fn padded_digits(f: nat, width: nat) -> Seq<char>
    decreases width,
{
    if width == 0 {
        seq![]
    } else {
        padded_digits(f / 10, (width - 1) as nat) + seq![digit((f % 10) as int)]
    }
}

/// `padded_digits(f, width)` without its trailing zeros (for `f > 0`).
pub open spec fn trimmed_digits(f: nat, width: nat) -> Seq<char>
    decreases width,
{
    if width > 0 && f > 0 && f % 10 == 0 {
        trimmed_digits(f / 10, (width - 1) as nat)
    } else {
        padded_digits(f, width)
    }
}

/// Number of units in one: values are written in ten-millionths.
pub const UNITS: u64 = 10_000_000;

/// How a value given in ten-millionths is written: an optional minus sign,
/// the integer part, and, where the value is not whole, a point followed by
/// the fractional digits without trailing zeros (`7500000` is `0.75`,
/// `10000000` is `1`).
pub open spec fn decimal(v: int) -> Seq<char> {
    let u: nat = if v < 0 { (-v) as nat } else { v as nat };
    let sign = if v < 0 { seq!['-'] } else { seq![] };
    let whole = nat_text(u / (UNITS as nat));
    let frac: nat = u % (UNITS as nat);
    if frac == 0 {
        sign + whole
    } else {
        sign + whole + seq!['.'] + trimmed_digits(frac, 7)
    }
}

fn digit_str(d: u64) -> (s: &'static str)
    requires
        d < 10,
    ensures
        s@ == seq![digit(d as int)],
{
    proof {
        reveal_strlit("0");
        reveal_strlit("1");
        reveal_strlit("2");
        reveal_strlit("3");
        reveal_strlit("4");
        reveal_strlit("5");
        reveal_strlit("6");
        reveal_strlit("7");
        reveal_strlit("8");
        reveal_strlit("9");
    }
    if d == 0 {
        "0"
    } else if d == 1 {
        "1"
    } else if d == 2 {
        "2"
    } else if d == 3 {
        "3"
    } else if d == 4 {
        "4"
    } else if d == 5 {
        "5"
    } else if d == 6 {
        "6"
    } else if d == 7 {
        "7"
    } else if d == 8 {
        "8"
    } else {
        "9"
    }
}

fn write_nat(out: &mut String, n: u64)
    ensures
        final(out)@ == old(out)@ + nat_text(n as nat),
    decreases n,
{
    if n >= 10 {
        write_nat(out, n / 10);
    }
    out.append(digit_str(n % 10));
    assert(final(out)@ =~= old(out)@ + nat_text(n as nat));
}

fn write_padded(out: &mut String, f: u64, width: u64)
    ensures
        final(out)@ == old(out)@ + padded_digits(f as nat, width as nat),
    decreases width,
{
    if width > 0 {
        write_padded(out, f / 10, width - 1);
        out.append(digit_str(f % 10));
        assert(final(out)@ =~= old(out)@ + padded_digits(f as nat, width as nat));
    } else {
        assert(final(out)@ =~= old(out)@ + padded_digits(f as nat, width as nat));
    }
}

fn write_trimmed(out: &mut String, f: u64, width: u64)
    ensures
        final(out)@ == old(out)@ + trimmed_digits(f as nat, width as nat),
    decreases width,
{
    if width > 0 && f > 0 && f % 10 == 0 {
        write_trimmed(out, f / 10, width - 1);
    } else {
        write_padded(out, f, width);
    }
}

/// Writes a value given in ten-millionths as a decimal number.
pub fn decimal_text(v: i64) -> (r: String)
    ensures
        r@ == decimal(v as int),
{
    let mut out = String::new();
    let u: u64 = if v < 0 {
        proof {
            reveal_strlit("-");
        }
        out.append("-");
        if v == i64::MIN {
            (i64::MAX as u64) + 1
        } else {
            (-v) as u64
        }
    } else {
        v as u64
    };
    write_nat(&mut out, u / UNITS);
    let frac: u64 = u % UNITS;
    if frac != 0 {
        proof {
            reveal_strlit(".");
        }
        out.append(".");
        write_trimmed(&mut out, frac, 7);
    }
    proof {
        reveal_strlit("-");
        reveal_strlit(".");
    }
    assert(out@ =~= decimal(v as int));
    out
}

/// Whether two strings hold the same characters.
pub fn same_text(a: &str, b: &str) -> (r: bool)
    ensures
        r == (a@ == b@),
{
    let n = a.unicode_len();
    if n != b.unicode_len() {
        return false;
    }
    let mut i: usize = 0;
    while i < n
        invariant
            n == a@.len(),
            n == b@.len(),
            0 <= i <= n,
            a@.subrange(0, i as int) == b@.subrange(0, i as int),
        decreases n - i,
    {
        if a.get_char(i) != b.get_char(i) {
            return false;
        }
        assert(a@.subrange(0, i + 1) =~= a@.subrange(0, i as int).push(a@[i as int]));
        assert(b@.subrange(0, i + 1) =~= b@.subrange(0, i as int).push(b@[i as int]));
        i = i + 1;
    }
    assert(a@ =~= a@.subrange(0, n as int));
    assert(b@ =~= b@.subrange(0, n as int));
    true
}

} // verus!
