//! Decimal text of integers and the human-readable size of a directory.
use vstd::prelude::*;

verus! {

pub open spec fn digit_chars() -> Seq<char> {
    seq!['0', '1', '2', '3', '4', '5', '6', '7', '8', '9']
}

/// The decimal digit for `d` (below ten).
pub open spec fn digit(d: nat) -> char {
    digit_chars()[d as int]
}

/// The decimal text of `n`, without leading zeros.
pub open spec fn decimal(n: nat) -> Seq<char>
    decreases n,
{
    if n < 10 {
        seq![digit(n)]
    } else {
        decimal(n / 10).push(digit(n % 10))
    }
}

/// The last `width` decimal digits of `n`, zero-padded.
pub open spec fn padded_digits(n: nat, width: nat) -> Seq<char>
    decreases width,
{
    if width == 0 {
        Seq::empty()
    } else {
        padded_digits(n / 10, (width - 1) as nat).push(digit(n % 10))
    }
}

/// `n` (below one hundred) as exactly two digits.
pub open spec fn two_digits(n: nat) -> Seq<char> {
    seq![digit(n / 10), digit(n % 10)]
}

/// `n` (below ten thousand) as exactly four digits.
pub open spec fn four_digits(n: nat) -> Seq<char> {
    two_digits(n / 100) + two_digits(n % 100)
}

/// Appends the digit `d` to `s`.
pub fn push_digit(s: &mut String, d: u128)
    requires
        d < 10,
    ensures
        final(s)@ == old(s)@.push(digit(d as nat)),
{
    let all = "0123456789";
    proof {
        reveal_strlit("0123456789");
    }
    let i = d as usize;
    let one = all.substring_char(i, i + 1);
    assert(one@ =~= seq![digit(d as nat)]);
    s.append(one);
}

/// Appends the decimal text of `n` to `s`.
pub fn push_decimal(s: &mut String, n: u128)
    ensures
        final(s)@ == old(s)@ + decimal(n as nat),
    decreases n,
{
    if n >= 10 {
        push_decimal(s, n / 10);
        push_digit(s, n % 10);
        assert(final(s)@ =~= old(s)@ + decimal(n as nat));
    } else {
        push_digit(s, n);
        assert(final(s)@ =~= old(s)@ + decimal(n as nat));
    }
}

/// The decimal text of `n`.
pub fn decimal_text(n: u64) -> (r: String)
    ensures
        r@ == decimal(n as nat),
{
    let mut s = String::new();
    push_decimal(&mut s, n as u128);
    assert(s@ =~= decimal(n as nat));
    s
}

/// How many times a size in kilobytes is divided by 1024 before it is shown:
/// once per step up from KB, to MB, GB and at most TB.
pub open spec fn size_steps(kb: nat) -> nat {
    if kb >= 1_073_741_824 {
        3
    } else if kb >= 1_048_576 {
        2
    } else if kb >= 1024 {
        1
    } else {
        0
    }
}

pub open spec fn step_divisor(steps: nat) -> nat {
    if steps == 3 {
        1_073_741_824
    } else if steps == 2 {
        1_048_576
    } else if steps == 1 {
        1024
    } else {
        1
    }
}

pub open spec fn unit_name(steps: nat) -> Seq<char> {
    if steps == 3 {
        seq!['T', 'B']
    } else if steps == 2 {
        seq!['G', 'B']
    } else if steps == 1 {
        seq!['M', 'B']
    } else {
        seq!['K', 'B']
    }
}

/// `x / d` rounded to the nearest integer, ties to the even one.
pub open spec fn round_half_even(x: nat, d: nat) -> nat
    recommends
        d > 0,
{
    let q = x / d;
    let r = x % d;
    if 2 * r > d || (2 * r == d && q % 2 == 1) {
        q + 1
    } else {
        q
    }
}

/// A size in kilobytes, in hundredths of the unit it is shown in.
pub open spec fn size_hundredths(kb: nat) -> nat {
    round_half_even(kb * 100, step_divisor(size_steps(kb)))
}

/// The size `kb` as shown: the value in its unit with two decimals, a space
/// and the unit (`"1.50 MB"`).
pub open spec fn size_text(kb: nat) -> Seq<char> {
    let h = size_hundredths(kb);
    decimal(h / 100) + seq!['.'] + two_digits(h % 100) + seq![' '] + unit_name(size_steps(kb))
}

/// Formats a size given in kilobytes with two decimals in the largest unit
/// among KB, MB, GB and TB that it reaches.
pub fn format_size_kb(kb: u64) -> (r: String)
    ensures
        r@ == size_text(kb as nat),
{
    let steps: u128 = if kb >= 1_073_741_824 {
        3
    } else if kb >= 1_048_576 {
        2
    } else if kb >= 1024 {
        1
    } else {
        0
    };
    let divisor: u128 = if steps == 3 {
        1_073_741_824
    } else if steps == 2 {
        1_048_576
    } else if steps == 1 {
        1024
    } else {
        1
    };
    let x: u128 = kb as u128 * 100;
    let q: u128 = x / divisor;
    let rem: u128 = x % divisor;
    let h: u128 = if 2 * rem > divisor || (2 * rem == divisor && q % 2 == 1) {
        q + 1
    } else {
        q
    };
    assert(h == size_hundredths(kb as nat));
    let mut s = String::new();
    push_decimal(&mut s, h / 100);
    s.append(".");
    push_digit(&mut s, (h % 100) / 10);
    push_digit(&mut s, h % 10);
    s.append(" ");
    let unit = if steps == 3 {
        "TB"
    } else if steps == 2 {
        "GB"
    } else if steps == 1 {
        "MB"
    } else {
        "KB"
    };
    proof {
        reveal_strlit(".");
        reveal_strlit(" ");
        reveal_strlit("TB");
        reveal_strlit("GB");
        reveal_strlit("MB");
        reveal_strlit("KB");
        assert(unit@ =~= unit_name(steps as nat));
        assert((h % 100) / 10 == (h % 100) as nat / 10);
        assert(h % 10 == (h % 100) as nat % 10);
    }
    s.append(unit);
    assert(s@ =~= size_text(kb as nat));
    s
}

/// The size column of a checkpoint: `N/A` without its directory, `Unknown`
/// where its size could not be found, else the size as `format_size_kb` shows it.
pub open spec fn size_label_of(exists: bool, size: Option<u64>) -> Seq<char> {
    if !exists {
        seq!['N', '/', 'A']
    } else {
        match size {
            Some(kb) => size_text(kb as nat),
            None => seq!['U', 'n', 'k', 'n', 'o', 'w', 'n'],
        }
    }
}

/// The size column of a checkpoint in a report.
pub fn size_label(exists: bool, size: Option<u64>) -> (r: String)
    ensures
        r@ == size_label_of(exists, size),
{
    proof {
        reveal_strlit("N/A");
        reveal_strlit("Unknown");
    }
    if !exists {
        let r = String::from_str("N/A");
        assert(r@ =~= seq!['N', '/', 'A']);
        r
    } else {
        match size {
            Some(kb) => format_size_kb(kb),
            None => {
                let r = String::from_str("Unknown");
                assert(r@ =~= seq!['U', 'n', 'k', 'n', 'o', 'w', 'n']);
                r
            },
        }
    }
}

} // verus!
