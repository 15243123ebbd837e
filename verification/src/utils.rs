//! Sizes in bytes, written for people.

use vstd::prelude::*;
use crate::text::{
    ascii_chars, ascii_string, decimal_bytes, lemma_decimal_bytes_ascii, push_decimal,
};

verus! {

pub struct Utility;

pub const KB: u64 = 1024;

pub const MB: u64 = 1024 * 1024;

pub const GB: u64 = 1024 * 1024 * 1024;

pub const TB: u64 = 1024 * 1024 * 1024 * 1024;

/// `a / q` rounded to the nearest integer, a tie going to the even neighbour.
pub open spec fn div_round_half_even(a: nat, q: nat) -> nat {
    let f = a / q;
    let r = a % q;
    if 2 * r < q || (2 * r == q && f % 2 == 0) {
        f
    } else {
        f + 1
    }
}

/// The distance between neighbouring double-precision numbers around `size`,
/// or 1 where every integer is one.
pub open spec fn double_step(size: u64) -> nat {
    if size < 0x20_0000_0000_0000 {
        1
    } else if size < 0x40_0000_0000_0000 {
        2
    } else if size < 0x80_0000_0000_0000 {
        4
    } else if size < 0x100_0000_0000_0000 {
        8
    } else if size < 0x200_0000_0000_0000 {
        16
    } else if size < 0x400_0000_0000_0000 {
        32
    } else if size < 0x800_0000_0000_0000 {
        64
    } else if size < 0x1000_0000_0000_0000 {
        128
    } else if size < 0x2000_0000_0000_0000 {
        256
    } else if size < 0x4000_0000_0000_0000 {
        512
    } else if size < 0x8000_0000_0000_0000 {
        1024
    } else {
        2048
    }
}

/// The double-precision number nearest to `size`: the size itself up to 2^53,
/// above that the size kept to 53 significant bits.
pub open spec fn as_double(size: u64) -> nat {
    div_round_half_even(size as nat, double_step(size)) * double_step(size)
}

/// The unit in which a size of at least one kilobyte is shown.
pub open spec fn display_unit(size: u64) -> nat {
    if size < MB {
        KB as nat
    } else if size < GB {
        MB as nat
    } else if size < TB {
        GB as nat
    } else {
        TB as nat
    }
}

/// The ASCII letter that names the unit of `display_unit`.
pub open spec fn display_unit_letter(size: u64) -> u8 {
    if size < MB {
        75
    } else if size < GB {
        77
    } else if size < TB {
        71
    } else {
        84
    }
}

/// The size in hundredths of its unit, as a double-precision division and a
/// rounding to two decimals give it.
pub open spec fn display_hundredths(size: u64) -> nat {
    div_round_half_even(as_double(size) * 100, display_unit(size))
}

/// The text of a size, in ASCII: plain bytes below one kilobyte
/// (`"512 B"`), otherwise two decimals of the largest fitting unit
/// (`"1.50 KB"`), units going up to the terabyte.
pub open spec fn file_size_bytes(size: u64) -> Seq<u8> {
    if size < KB {
        decimal_bytes(size as nat) + seq![32u8, 66u8]
    } else {
        let h = display_hundredths(size);
        decimal_bytes(h / 100) + seq![
            46u8,
            (48 + (h % 100) / 10) as u8,
            (48 + h % 10) as u8,
            32u8,
            display_unit_letter(size),
            66u8,
        ]
    }
}

fn round_half_even(a: u128, q: u128) -> (r: u128)
    requires
        0 < q <= 0x1_0000_0000_0000_0000,
        a <= 0xffff_ffff_ffff_ffff_ffff_ffff,
    ensures
        r == div_round_half_even(a as nat, q as nat),
        r <= a / q + 1,
        r * q <= a + q,
{
    let f: u128 = a / q;
    let r: u128 = a % q;
    assert(a == q * f + r) by (nonlinear_arith)
        requires
            f == a / q,
            r == a % q,
            q > 0,
    ;
    assert(f <= a) by (nonlinear_arith)
        requires
            a == q * f + r,
            q >= 1,
            f >= 0,
            r >= 0,
    ;
    assert((f + 1) * q == q * f + q) by (nonlinear_arith);
    assert(f * q == q * f) by (nonlinear_arith);
    if 2 * r < q || (2 * r == q && f % 2 == 0) {
        f
    } else {
        f + 1
    }
}

impl Utility {
    /// Writes a size in bytes the way the daemon's tools show it.
    pub fn format_file_size(size: u64) -> (text: String)
        ensures
            text@ == ascii_chars(file_size_bytes(size)),
    {
        let mut buf: Vec<u8> = Vec::new();
        if size < KB {
            push_decimal(&mut buf, size);
            buf.push(32);
            buf.push(66);
            proof {
                lemma_decimal_bytes_ascii(size as nat);
                assert(buf@ =~= file_size_bytes(size));
            }
            return ascii_string(buf);
        }
        let step: u128 = if size < 0x20_0000_0000_0000 {
            1
        } else if size < 0x40_0000_0000_0000 {
            2
        } else if size < 0x80_0000_0000_0000 {
            4
        } else if size < 0x100_0000_0000_0000 {
            8
        } else if size < 0x200_0000_0000_0000 {
            16
        } else if size < 0x400_0000_0000_0000 {
            32
        } else if size < 0x800_0000_0000_0000 {
            64
        } else if size < 0x1000_0000_0000_0000 {
            128
        } else if size < 0x2000_0000_0000_0000 {
            256
        } else if size < 0x4000_0000_0000_0000 {
            512
        } else if size < 0x8000_0000_0000_0000 {
            1024
        } else {
            2048
        };
        let kept: u128 = round_half_even(size as u128, step);
        assert(kept * step <= 0x1_0000_0000_0000_0800);
        let double: u128 = kept * step;
        let (unit, letter): (u128, u8) = if size < MB {
            (KB as u128, 75)
        } else if size < GB {
            (MB as u128, 77)
        } else if size < TB {
            (GB as u128, 71)
        } else {
            (TB as u128, 84)
        };
        let h: u128 = round_half_even(double * 100, unit);
        assert(h <= (double * 100) / 1024 + 1) by {
            let n: int = double * 100;
            let u: int = unit as int;
            assert(n / u <= n / 1024) by (nonlinear_arith)
                requires
                    u >= 1024,
                    n >= 0,
            ;
        }
        let whole: u64 = (h / 100) as u64;
        let tenths: u8 = ((h % 100) / 10) as u8;
        let ones: u8 = (h % 10) as u8;
        push_decimal(&mut buf, whole);
        buf.push(46);
        buf.push(48 + tenths);
        buf.push(48 + ones);
        buf.push(32);
        buf.push(letter);
        buf.push(66);
        proof {
            lemma_decimal_bytes_ascii(whole as nat);
            assert(h == display_hundredths(size));
            assert(buf@ =~= file_size_bytes(size));
        }
        ascii_string(buf)
    }
}

} // verus!
