//! File sizes in words: bytes, or one decimal place of a larger unit.
use vstd::prelude::*;
use vstd::string::StringExecFns;

verus! {

/// The step between neighbouring numbers that binary floating point with
/// 53 significant bits can hold, at the magnitude of `size`.
pub open spec fn rounding_step(size: nat) -> nat {
    if size < 0x20_0000_0000_0000 {
        1
    } else if size < 0x40_0000_0000_0000 {
        2
    } else if size < 0x80_0000_0000_0000 {
        4
    } else if size < 0x100_0000_0000_0000 {
        8
    } else if size < 0x200_0000_0000_0000 {
        16
    } else if size < 0x400_0000_0000_0000 {
        32
    } else if size < 0x800_0000_0000_0000 {
        64
    } else if size < 0x1000_0000_0000_0000 {
        128
    } else if size < 0x2000_0000_0000_0000 {
        256
    } else if size < 0x4000_0000_0000_0000 {
        512
    } else if size < 0x8000_0000_0000_0000 {
        1024
    } else {
        2048
    }
}

/// `num / den` rounded to the nearest whole number, a tie going to the even
/// neighbour.
pub open spec fn nearest_even(num: nat, den: nat) -> nat
    recommends
        den > 0,
{
    let q = num / den;
    let rem = num % den;
    if 2 * rem > den || (2 * rem == den && q % 2 == 1) {
        q + 1
    } else {
        q
    }
}

/// `size` as binary floating point with 53 significant bits holds it.
pub open spec fn as_held(size: nat) -> nat {
    nearest_even(size, rounding_step(size)) * rounding_step(size)
}

/// How many times 1024 goes into `size`, up to four times.
pub open spec fn unit_index(size: nat) -> nat {
    if size < 0x400 {
        0
    } else if size < 0x10_0000 {
        1
    } else if size < 0x4000_0000 {
        2
    } else if size < 0x100_0000_0000 {
        3
    } else {
        4
    }
}

/// The number of bytes in the unit with index `k`.
pub open spec fn unit_bytes(k: nat) -> nat {
    if k == 0 {
        1
    } else if k == 1 {
        0x400
    } else if k == 2 {
        0x10_0000
    } else if k == 3 {
        0x4000_0000
    } else {
        0x100_0000_0000
    }
}

/// The name of the unit with index `k`.
pub open spec fn unit_name(k: nat) -> Seq<char> {
    if k == 0 {
        "B"@
    } else if k == 1 {
        "KB"@
    } else if k == 2 {
        "MB"@
    } else if k == 3 {
        "GB"@
    } else {
        "TB"@
    }
}

/// `size` in tenths of its unit, rounded to the nearest tenth.
pub open spec fn tenths(size: nat) -> nat {
    nearest_even(as_held(size) * 10, unit_bytes(unit_index(size)))
}

/// The character of the digit `d`.
pub open spec fn digit_char(d: nat) -> char {
    if d == 0 {
        '0'
    } else if d == 1 {
        '1'
    } else if d == 2 {
        '2'
    } else if d == 3 {
        '3'
    } else if d == 4 {
        '4'
    } else if d == 5 {
        '5'
    } else if d == 6 {
        '6'
    } else if d == 7 {
        '7'
    } else if d == 8 {
        '8'
    } else {
        '9'
    }
}

/// `n` written in decimal digits.
pub open spec fn decimal(n: nat) -> Seq<char>
    decreases n,
{
    if n < 10 {
        seq![digit_char(n)]
    } else {
        decimal(n / 10).push(digit_char(n % 10))
    }
}

/// A size in words: below 1024 the bytes themselves, and from there on the
/// size in the largest unit up to TB that it fills, with one decimal place.
pub open spec fn size_text(size: nat) -> Seq<char> {
    if unit_index(size) == 0 {
        decimal(size) + " "@ + unit_name(0)
    } else {
        decimal(tenths(size) / 10) + "."@ + decimal(tenths(size) % 10) + " "@ + unit_name(
            unit_index(size),
        )
    }
}

/// The digit `d` as text.
fn digit_text(d: u64) -> (text: &'static str)
    requires
        d < 10,
    ensures
        text@ == seq![digit_char(d as nat)],
{
    proof {
        reveal_strlit("0");
        reveal_strlit("1");
        reveal_strlit("2");
        reveal_strlit("3");
        reveal_strlit("4");
        reveal_strlit("5");
        reveal_strlit("6");
        reveal_strlit("7");
        reveal_strlit("8");
        reveal_strlit("9");
    }
    let text = if d == 0 {
        "0"
    } else if d == 1 {
        "1"
    } else if d == 2 {
        "2"
    } else if d == 3 {
        "3"
    } else if d == 4 {
        "4"
    } else if d == 5 {
        "5"
    } else if d == 6 {
        "6"
    } else if d == 7 {
        "7"
    } else if d == 8 {
        "8"
    } else {
        "9"
    };
    assert(text@ =~= seq![digit_char(d as nat)]);
    text
}

/// Writes `n` in decimal digits.
fn decimal_text(n: u64) -> (text: String)
    ensures
        text@ == decimal(n as nat),
    decreases n,
{
    if n < 10 {
        String::from_str(digit_text(n))
    } else {
        let mut text = decimal_text(n / 10);
        text.append(digit_text(n % 10));
        assert(text@ =~= decimal((n / 10) as nat).push(digit_char((n % 10) as nat)));
        text
    }
}

/// `num / den` rounded to the nearest whole number, a tie going to the even
/// neighbour.
fn round_nearest_even(num: u128, den: u128) -> (r: u128)
    requires
        0 < den <= 0x100_0000_0000,
        num <= 0xFFFF_FFFF_FFFF_FFFF_FFFF,
    ensures
        r == nearest_even(num as nat, den as nat),
{
    let q = num / den;
    let rem = num % den;
    if 2 * rem > den || (2 * rem == den && q % 2 == 1) {
        q + 1
    } else {
        q
    }
}

/// The step between neighbouring numbers that binary floating point with
/// 53 significant bits can hold, at the magnitude of `size`.
fn step_of(size: u64) -> (step: u64)
    ensures
        step == rounding_step(size as nat),
        1 <= step <= 2048,
{
    if size < 0x20_0000_0000_0000 {
        1
    } else if size < 0x40_0000_0000_0000 {
        2
    } else if size < 0x80_0000_0000_0000 {
        4
    } else if size < 0x100_0000_0000_0000 {
        8
    } else if size < 0x200_0000_0000_0000 {
        16
    } else if size < 0x400_0000_0000_0000 {
        32
    } else if size < 0x800_0000_0000_0000 {
        64
    } else if size < 0x1000_0000_0000_0000 {
        128
    } else if size < 0x2000_0000_0000_0000 {
        256
    } else if size < 0x4000_0000_0000_0000 {
        512
    } else if size < 0x8000_0000_0000_0000 {
        1024
    } else {
        2048
    }
}

/// Formats a file size in bytes for people: `1023 B`, `1.5 KB`, `2.0 GB`.
/// The size is taken as binary floating point with 53 significant bits
/// holds it, and the decimal place is rounded to the nearest, a tie going
/// to the even digit.
pub fn format_file_size(size: u64) -> (text: String)
    ensures
        text@ == size_text(size as nat),
{
    if size < 0x400 {
        let mut text = decimal_text(size);
        text.append(" ");
        text.append("B");
        return text;
    }
    let (den, name): (u128, &str) = if size < 0x10_0000 {
        (0x400, "KB")
    } else if size < 0x4000_0000 {
        (0x10_0000, "MB")
    } else if size < 0x100_0000_0000 {
        (0x4000_0000, "GB")
    } else {
        (0x100_0000_0000, "TB")
    };
    let step = step_of(size);
    let whole = round_nearest_even(size as u128, step as u128);
    assert(whole * step <= size + step) by (nonlinear_arith)
        requires
            whole <= (size as nat) / (step as nat) + 1,
            step > 0,
    ;
    let held = whole * (step as u128);
    let t = round_nearest_even(held * 10, den);
    assert(t == tenths(size as nat));
    assert(t <= 0x3FF_FFFF_FFFF_FFFF) by {
        vstd::arithmetic::div_mod::lemma_div_is_ordered_by_denominator(
            held * 10,
            0x400,
            den as int,
        );
        assert((held * 10) / 0x400 <= 0x3FF_FFFF_FFFF_FFFE);
    }
    let mut text = decimal_text((t / 10) as u64);
    text.append(".");
    text.append(decimal_text((t % 10) as u64).as_str());
    text.append(" ");
    text.append(name);
    text
}

} // verus!
