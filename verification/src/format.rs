//! Text for sizes, durations and paths.

use vstd::prelude::*;
use vstd::string::*;
use crate::paths::{file_name, file_name_of, parent, parent_of};

verus! {

/// The character for a digit below sixteen.
pub open spec fn digit_char(d: nat) -> char {
    if d == 0 {
        '0'
    } else if d == 1 {
        '1'
    } else if d == 2 {
        '2'
    } else if d == 3 {
        '3'
    } else if d == 4 {
        '4'
    } else if d == 5 {
        '5'
    } else if d == 6 {
        '6'
    } else if d == 7 {
        '7'
    } else if d == 8 {
        '8'
    } else if d == 9 {
        '9'
    } else if d == 10 {
        'a'
    } else if d == 11 {
        'b'
    } else if d == 12 {
        'c'
    } else if d == 13 {
        'd'
    } else if d == 14 {
        'e'
    } else {
        'f'
    }
}

/// The numeral of `n` in a base between two and sixteen, without
/// leading zeros.
pub open spec fn numeral(n: nat, base: nat) -> Seq<char>
    recommends
        2 <= base <= 16,
    decreases n,
    via numeral_decreases
{
    if base < 2 || n < base {
        seq![digit_char(n)]
    } else {
        numeral(n / base, base).push(digit_char(n % base))
    }
}

#[via_fn]
proof fn numeral_decreases(n: nat, base: nat) {
    if !(base < 2 || n < base) {
        assert(n / base < n) by (nonlinear_arith)
            requires
                base >= 2,
                n >= base,
        ;
    }
}

/// The decimal numeral of `n`.
pub open spec fn decimal(n: nat) -> Seq<char> {
    numeral(n, 10)
}

/// The last two decimal digits of `n`.
pub open spec fn two_digits(n: nat) -> Seq<char> {
    seq![digit_char(n / 10 % 10), digit_char(n % 10)]
}

fn digit_str(d: u64) -> (s: &'static str)
    requires
        d < 16,
    ensures
        s@ == seq![digit_char(d as nat)],
{
    match d {
        0 => {
            proof {
                reveal_strlit("0");
            }
            assert("0"@ =~= seq![digit_char(0)]);
            "0"
        },
        1 => {
            proof {
                reveal_strlit("1");
            }
            assert("1"@ =~= seq![digit_char(1)]);
            "1"
        },
        2 => {
            proof {
                reveal_strlit("2");
            }
            assert("2"@ =~= seq![digit_char(2)]);
            "2"
        },
        3 => {
            proof {
                reveal_strlit("3");
            }
            assert("3"@ =~= seq![digit_char(3)]);
            "3"
        },
        4 => {
            proof {
                reveal_strlit("4");
            }
            assert("4"@ =~= seq![digit_char(4)]);
            "4"
        },
        5 => {
            proof {
                reveal_strlit("5");
            }
            assert("5"@ =~= seq![digit_char(5)]);
            "5"
        },
        6 => {
            proof {
                reveal_strlit("6");
            }
            assert("6"@ =~= seq![digit_char(6)]);
            "6"
        },
        7 => {
            proof {
                reveal_strlit("7");
            }
            assert("7"@ =~= seq![digit_char(7)]);
            "7"
        },
        8 => {
            proof {
                reveal_strlit("8");
            }
            assert("8"@ =~= seq![digit_char(8)]);
            "8"
        },
        9 => {
            proof {
                reveal_strlit("9");
            }
            assert("9"@ =~= seq![digit_char(9)]);
            "9"
        },
        10 => {
            proof {
                reveal_strlit("a");
            }
            assert("a"@ =~= seq![digit_char(10)]);
            "a"
        },
        11 => {
            proof {
                reveal_strlit("b");
            }
            assert("b"@ =~= seq![digit_char(11)]);
            "b"
        },
        12 => {
            proof {
                reveal_strlit("c");
            }
            assert("c"@ =~= seq![digit_char(12)]);
            "c"
        },
        13 => {
            proof {
                reveal_strlit("d");
            }
            assert("d"@ =~= seq![digit_char(13)]);
            "d"
        },
        14 => {
            proof {
                reveal_strlit("e");
            }
            assert("e"@ =~= seq![digit_char(14)]);
            "e"
        },
        _ => {
            proof {
                reveal_strlit("f");
            }
            assert("f"@ =~= seq![digit_char(15)]);
            "f"
        },
    }
}

/// Writes `n` in the given base.
pub fn numeral_text(n: u64, base: u64) -> (s: String)
    requires
        2 <= base <= 16,
    ensures
        s@ == numeral(n as nat, base as nat),
    decreases n,
{
    if n < base {
        String::from_str(digit_str(n))
    } else {
        assert(n / base < n) by (nonlinear_arith)
            requires
                base >= 2,
                n >= base,
        ;
        let mut s = numeral_text(n / base, base);
        s.append(digit_str(n % base));
        s
    }
}

fn two_digit_text(n: u64) -> (s: String)
    ensures
        s@ == two_digits(n as nat),
{
    let mut s = String::from_str(digit_str(n / 10 % 10));
    s.append(digit_str(n % 10));
    assert(s@ =~= two_digits(n as nat));
    s
}

/// `num / den` rounded to the nearest whole number, a tie going to
/// the even neighbour.
pub open spec fn round_half_even(num: nat, den: nat) -> nat
    recommends
        den > 0,
{
    let q = num / den;
    let r = num % den;
    if 2 * r > den || (2 * r == den && q % 2 == 1) {
        q + 1
    } else {
        q
    }
}

/// The spacing of the double-precision numbers around `size`: one
/// up to fifty-three bits, doubling with every bit beyond.
pub open spec fn double_spacing(size: nat) -> nat {
    if size < 0x20_0000_0000_0000 {
        1
    } else if size < 0x40000000000000 {
        2
    } else if size < 0x80000000000000 {
        4
    } else if size < 0x100000000000000 {
        8
    } else if size < 0x200000000000000 {
        16
    } else if size < 0x400000000000000 {
        32
    } else if size < 0x800000000000000 {
        64
    } else if size < 0x1000000000000000 {
        128
    } else if size < 0x2000000000000000 {
        256
    } else if size < 0x4000000000000000 {
        512
    } else if size < 0x8000000000000000 {
        1024
    } else {
        2048
    }
}

/// The double-precision number nearest to `size`, a tie going to
/// the one with the even significand.
pub open spec fn nearest_double(size: nat) -> nat {
    round_half_even(size, double_spacing(size)) * double_spacing(size)
}

/// The unit in which a size is written: the largest of bytes and
/// their first four multiples by 1024 that the size reaches.
pub open spec fn size_unit(size: nat) -> nat {
    if size < 0x400 {
        0
    } else if size < 0x10_0000 {
        1
    } else if size < 0x4000_0000 {
        2
    } else if size < 0x100_0000_0000 {
        3
    } else {
        4
    }
}

/// How many bytes a unit holds.
pub open spec fn unit_bytes(unit: nat) -> nat {
    if unit == 0 {
        1
    } else if unit == 1 {
        0x400
    } else if unit == 2 {
        0x10_0000
    } else if unit == 3 {
        0x4000_0000
    } else {
        0x100_0000_0000
    }
}

/// The name of a unit.
pub open spec fn unit_name(unit: nat) -> Seq<char> {
    if unit == 0 {
        "B"@
    } else if unit == 1 {
        "KB"@
    } else if unit == 2 {
        "MB"@
    } else if unit == 3 {
        "GB"@
    } else {
        "TB"@
    }
}

/// A size in tenths of its unit: the nearest double to the size,
/// divided by the unit and rounded to one decimal, ties to even.
pub open spec fn size_tenths(size: nat) -> nat {
    round_half_even(nearest_double(size) * 10, unit_bytes(size_unit(size)))
}

/// A size as text: zero and sizes below 1024 in whole bytes, larger
/// ones with one decimal in the largest unit they reach.
pub open spec fn size_text(size: nat) -> Seq<char> {
    if size_unit(size) == 0 {
        decimal(size) + " B"@
    } else {
        decimal(size_tenths(size) / 10) + "."@ + seq![digit_char(size_tenths(size) % 10)] + " "@
            + unit_name(size_unit(size))
    }
}

proof fn lemma_round_bound(num: nat, den: nat)
    requires
        den > 0,
    ensures
        round_half_even(num, den) <= num / den + 1,
        round_half_even(num, den) * den <= num + den,
{
    let q = num / den;
    let r = num % den;
    vstd::arithmetic::div_mod::lemma_fundamental_div_mod(num as int, den as int);
    assert((q + 1) * den <= num + den) by (nonlinear_arith)
        requires
            num == den * q + r,
            r >= 0,
    ;
    assert(q * den <= num + den) by (nonlinear_arith)
        requires
            num == den * q + r,
            r >= 0,
            den > 0,
    ;
}

fn rounded_quotient(num: u128, den: u128) -> (q: u128)
    requires
        den > 0,
        num / den < u128::MAX,
        den <= u128::MAX / 2,
    ensures
        q == round_half_even(num as nat, den as nat),
{
    let q: u128 = num / den;
    let r: u128 = num % den;
    if 2 * r > den || (2 * r == den && q % 2 == 1) {
        q + 1
    } else {
        q
    }
}

fn spacing(size: u64) -> (unit: u64)
    ensures
        unit == double_spacing(size as nat),
        1 <= unit <= 2048,
{
    if size < 0x20_0000_0000_0000 {
        1
    } else if size < 0x40000000000000 {
        2
    } else if size < 0x80000000000000 {
        4
    } else if size < 0x100000000000000 {
        8
    } else if size < 0x200000000000000 {
        16
    } else if size < 0x400000000000000 {
        32
    } else if size < 0x800000000000000 {
        64
    } else if size < 0x1000000000000000 {
        128
    } else if size < 0x2000000000000000 {
        256
    } else if size < 0x4000000000000000 {
        512
    } else if size < 0x8000000000000000 {
        1024
    } else {
        2048
    }
}

/// Formats a size in bytes for display.
pub fn format_file_size(size: u64) -> (s: String)
    ensures
        s@ == size_text(size as nat),
{
    if size < 1024 {
        let mut s = numeral_text(size, 10);
        s.append(" B");
        return s;
    }
    let (unit, bytes, name): (u64, u128, &'static str) = if size < 0x10_0000 {
        (1, 0x400, "KB")
    } else if size < 0x4000_0000 {
        (2, 0x10_0000, "MB")
    } else if size < 0x100_0000_0000 {
        (3, 0x4000_0000, "GB")
    } else {
        (4, 0x100_0000_0000, "TB")
    };
    let step: u64 = spacing(size);
    proof {
        lemma_round_bound(size as nat, step as nat);
    }
    let significand: u128 = rounded_quotient(size as u128, step as u128);
    let double: u128 = significand * (step as u128);
    proof {
        lemma_round_bound((double * 10) as nat, bytes as nat);
        assert((double * 10) as nat / (bytes as nat) <= 0x4_0000_0000_0000_0000) by (nonlinear_arith)
            requires
                double * 10 <= 0x1000_0000_0000_0000_0000,
                bytes >= 0x400,
        ;
    }
    let tenths: u128 = rounded_quotient(double * 10, bytes);
    let whole: u128 = tenths / 10;
    let digit: u128 = tenths % 10;
    assert(whole <= u64::MAX);
    let mut s = numeral_text(whole as u64, 10);
    s.append(".");
    s.append(digit_str(digit as u64));
    s.append(" ");
    s.append(name);
    assert(s@ =~= size_text(size as nat));
    s
}

/// The last `n` characters of `s`, or all of `s` where it has fewer.
pub open spec fn tail_of(s: Seq<char>, n: nat) -> Seq<char> {
    if n >= s.len() {
        s
    } else {
        s.subrange(s.len() - n, s.len() as int)
    }
}

/// A path cut down to about `max_length` characters for display. A
/// path that fits stands as it is. Otherwise the file name is kept
/// whole where the length leaves room beside it: behind its
/// directory, or behind an ellipsis and the end of its directory.
/// Where there is no such room, or no file name, the end of the path
/// stands behind an ellipsis.
pub open spec fn display_text(path: Seq<char>, max_length: nat) -> Seq<char> {
    if path.len() <= max_length {
        path
    } else if file_name_of(path).is_some() && max_length > file_name_of(path).unwrap().len() + 4 {
        let name = file_name_of(path).unwrap();
        let remaining = (max_length - name.len() - 4) as nat;
        let dir = match parent_of(path) {
            Some(p) => p,
            None => path,
        };
        if dir.len() <= remaining {
            dir + "/"@ + name
        } else {
            "..."@ + tail_of(dir, remaining) + "/"@ + name
        }
    } else {
        "..."@ + tail_of(path, if max_length >= 3 { (max_length - 3) as nat } else { 0 })
    }
}

/// Cuts a path down for display. Lengths count characters.
pub fn format_path_for_display(path: &str, max_length: usize) -> (s: String)
    ensures
        s@ == display_text(path@, max_length as nat),
{
    let n: usize = path.unicode_len();
    if n <= max_length {
        return path.to_owned();
    }
    match file_name(path) {
        Some(name) => {
            let name_len: usize = name.as_str().unicode_len();
            if name_len <= usize::MAX - 4 && max_length > name_len + 4 {
                let remaining: usize = max_length - name_len - 4;
                let dir = match parent(path) {
                    Some(p) => p,
                    None => path.to_owned(),
                };
                let dir_len: usize = dir.as_str().unicode_len();
                let mut out = if dir_len <= remaining {
                    dir
                } else {
                    let mut cut = String::from_str("...");
                    cut.append(dir.as_str().substring_char(dir_len - remaining, dir_len));
                    cut
                };
                out.append("/");
                out.append(name.as_str());
                return out;
            }
        },
        None => {},
    }
    let keep: usize = if max_length >= 3 { max_length - 3 } else { 0 };
    let mut out = String::from_str("...");
    out.append(path.substring_char(n - keep, n));
    out
}

/// The number of whole seconds in a duration, which
/// `Duration::as_secs` gives.
pub uninterp spec fn whole_seconds(d: std::time::Duration) -> u64;

/// Calls `Duration::as_secs`, which drops the part of the duration
/// below a second. The answer is [`whole_seconds`].
#[verifier::external_body]
fn seconds_of(d: std::time::Duration) -> (s: u64)
    ensures
        s == whole_seconds(d),
{
    d.as_secs()
}

/// A span of `total` seconds as text: `h:mm:ss` from one hour on,
/// `m:ss` from one minute on, else the seconds followed by `s`.
pub open spec fn duration_text(total: nat) -> Seq<char> {
    let hours = total / 3600;
    let minutes = (total % 3600) / 60;
    let seconds = total % 60;
    if hours > 0 {
        decimal(hours) + ":"@ + two_digits(minutes) + ":"@ + two_digits(seconds)
    } else if minutes > 0 {
        decimal(minutes) + ":"@ + two_digits(seconds)
    } else {
        decimal(seconds) + "s"@
    }
}

/// Formats a span of `total` seconds.
pub fn format_seconds(total: u64) -> (s: String)
    ensures
        s@ == duration_text(total as nat),
{
    let hours: u64 = total / 3600;
    let minutes: u64 = (total % 3600) / 60;
    let seconds: u64 = total % 60;
    if hours > 0 {
        let mut s = numeral_text(hours, 10);
        s.append(":");
        s.append(two_digit_text(minutes).as_str());
        s.append(":");
        s.append(two_digit_text(seconds).as_str());
        s
    } else if minutes > 0 {
        let mut s = numeral_text(minutes, 10);
        s.append(":");
        s.append(two_digit_text(seconds).as_str());
        s
    } else {
        let mut s = numeral_text(seconds, 10);
        s.append("s");
        s
    }
}

/// Formats a duration by its whole seconds.
pub fn format_duration(duration: std::time::Duration) -> (s: String)
    ensures
        s@ == duration_text(whole_seconds(duration) as nat),
{
    format_seconds(seconds_of(duration))
}

} // verus!
