//! Text made of bytes: ASCII strings, decimal and hexadecimal numerals.

use vstd::prelude::*;
use vstd::utf8::*;

verus! {

/// Every byte is below 128.
pub open spec fn all_ascii(bytes: Seq<u8>) -> bool {
    forall|i: int| 0 <= i < bytes.len() ==> #[trigger] bytes[i] < 128
}

/// The characters that ASCII bytes stand for, one for one.
pub open spec fn ascii_chars(bytes: Seq<u8>) -> Seq<char> {
    Seq::new(bytes.len(), |i: int| bytes[i] as char)
}

/// The decimal numeral of `n` in ASCII, without sign or leading zero.
pub open spec fn decimal_bytes(n: nat) -> Seq<u8>
    decreases n,
{
    if n < 10 {
        seq![(48 + n) as u8]
    } else {
        decimal_bytes(n / 10).push((48 + n % 10) as u8)
    }
}

/// One hexadecimal digit in ASCII, with capital letters.
pub open spec fn hex_digit_upper(d: nat) -> u8 {
    if d < 10 {
        (48 + d) as u8
    } else {
        (55 + d) as u8
    }
}

/// The hexadecimal numeral of `n` in ASCII with capital letters, without
/// prefix or leading zero.
pub open spec fn hex_upper_bytes(n: nat) -> Seq<u8>
    decreases n,
{
    if n < 16 {
        seq![hex_digit_upper(n)]
    } else {
        hex_upper_bytes(n / 16).push(hex_digit_upper(n % 16))
    }
}

pub proof fn lemma_decimal_bytes_ascii(n: nat)
    ensures
        all_ascii(decimal_bytes(n)),
        decimal_bytes(n).len() >= 1,
    decreases n,
{
    if n >= 10 {
        lemma_decimal_bytes_ascii(n / 10);
    }
}

pub proof fn lemma_hex_upper_bytes_ascii(n: nat)
    ensures
        all_ascii(hex_upper_bytes(n)),
        hex_upper_bytes(n).len() >= 1,
    decreases n,
{
    if n >= 16 {
        lemma_hex_upper_bytes_ascii(n / 16);
    }
}

/// Calls `String::from_utf8` of std and drops the error's detail. The
/// conversion succeeds exactly on well-formed UTF-8, and the string then holds
/// the characters that the bytes encode.
#[verifier::external_body]
pub(crate) fn string_from_utf8(bytes: Vec<u8>) -> (r: Option<String>)
    ensures
        r is Some <==> valid_utf8(bytes@),
        r matches Some(s) ==> s@ == decode_utf8(bytes@),
{
    String::from_utf8(bytes).ok()
}

/// ASCII bytes are the UTF-8 encoding of the characters they stand for.
pub proof fn lemma_ascii_is_utf8(bytes: Seq<u8>)
    requires
        all_ascii(bytes),
    ensures
        valid_utf8(bytes),
        decode_utf8(bytes) == ascii_chars(bytes),
        encode_utf8(ascii_chars(bytes)) == bytes,
{
    let chars = ascii_chars(bytes);
    assert(is_ascii_chars(chars)) by {
        assert forall|i: int| 0 <= i < chars.len() implies '\0' <= #[trigger] chars[i]
            <= '\u{7f}' by {
            assert(bytes[i] < 128);
        }
    }
    is_ascii_chars_encode_utf8(chars);
    assert(encode_utf8(chars) =~= bytes) by {
        assert forall|i: int| 0 <= i < bytes.len() implies encode_utf8(chars)[i] == bytes[i] by {
            assert(bytes[i] < 128);
            assert(chars[i] as u8 == encode_utf8(chars)[i]);
        }
    }
    encode_utf8_valid_utf8(chars);
    encode_utf8_decode_utf8(chars);
}

/// The string that ASCII bytes spell.
pub fn ascii_string(bytes: Vec<u8>) -> (s: String)
    requires
        all_ascii(bytes@),
    ensures
        s@ == ascii_chars(bytes@),
{
    proof {
        lemma_ascii_is_utf8(bytes@);
    }
    match string_from_utf8(bytes) {
        Some(s) => s,
        None => String::new(),
    }
}

/// Whether two strings hold the same characters.
pub fn str_eq(a: &str, b: &str) -> (same: bool)
    ensures
        same == (a@ == b@),
{
    let x = a.as_bytes();
    let y = b.as_bytes();
    proof {
        encode_utf8_decode_utf8(a@);
        encode_utf8_decode_utf8(b@);
    }
    if x.len() != y.len() {
        return false;
    }
    let mut i: usize = 0;
    while i < x.len()
        invariant
            i <= x.len(),
            x.len() == y.len(),
            x@ == encode_utf8(a@),
            y@ == encode_utf8(b@),
            decode_utf8(encode_utf8(a@)) == a@,
            decode_utf8(encode_utf8(b@)) == b@,
            forall|j: int| 0 <= j < i ==> x@[j] == y@[j],
        decreases x.len() - i,
    {
        if x[i] != y[i] {
            return false;
        }
        i += 1;
    }
    assert(x@ =~= y@);
    true
}

/// Appends the decimal numeral of `n`.
pub fn push_decimal(buf: &mut Vec<u8>, n: u64)
    ensures
        final(buf)@ == old(buf)@ + decimal_bytes(n as nat),
{
    let ghost before = buf@;
    let at: usize = buf.len();
    let mut m: u64 = n;
    while m >= 10
        invariant
            at == before.len(),
            buf@.len() >= at,
            buf@.subrange(0, at as int) == before,
            decimal_bytes(n as nat) == decimal_bytes(m as nat) + buf@.subrange(
                at as int,
                buf@.len() as int,
            ),
        decreases m,
    {
        let ghost prior = buf@;
        let d: u8 = (m % 10) as u8;
        buf.insert(at, 48 + d);
        proof {
            assert(buf@.subrange(0, at as int) =~= before);
            assert(buf@.subrange(at as int, buf@.len() as int) =~= seq![(48 + d) as u8]
                + prior.subrange(at as int, prior.len() as int));
            assert(decimal_bytes(m as nat) == decimal_bytes((m / 10) as nat).push((48 + d) as u8));
            assert(decimal_bytes(n as nat) =~= decimal_bytes((m / 10) as nat) + buf@.subrange(
                at as int,
                buf@.len() as int,
            ));
        }
        m = m / 10;
    }
    let ghost prior = buf@;
    buf.insert(at, 48 + (m as u8));
    proof {
        assert(buf@.subrange(at as int, buf@.len() as int) =~= seq![(48 + m) as u8]
            + prior.subrange(at as int, prior.len() as int));
        assert(buf@ =~= before + decimal_bytes(n as nat));
    }
}

/// Appends the hexadecimal numeral of `n`, with capital letters.
pub fn push_hex_upper(buf: &mut Vec<u8>, n: u64)
    ensures
        final(buf)@ == old(buf)@ + hex_upper_bytes(n as nat),
{
    let ghost before = buf@;
    let at: usize = buf.len();
    let mut m: u64 = n;
    while m >= 16
        invariant
            at == before.len(),
            buf@.len() >= at,
            buf@.subrange(0, at as int) == before,
            hex_upper_bytes(n as nat) == hex_upper_bytes(m as nat) + buf@.subrange(
                at as int,
                buf@.len() as int,
            ),
        decreases m,
    {
        let ghost prior = buf@;
        let d: u8 = (m % 16) as u8;
        let c: u8 = if d < 10 {
            48 + d
        } else {
            55 + d
        };
        buf.insert(at, c);
        proof {
            assert(c == hex_digit_upper((m % 16) as nat));
            assert(buf@.subrange(0, at as int) =~= before);
            assert(buf@.subrange(at as int, buf@.len() as int) =~= seq![c] + prior.subrange(
                at as int,
                prior.len() as int,
            ));
            assert(hex_upper_bytes(m as nat) == hex_upper_bytes((m / 16) as nat).push(c));
            assert(hex_upper_bytes(n as nat) =~= hex_upper_bytes((m / 16) as nat) + buf@.subrange(
                at as int,
                buf@.len() as int,
            ));
        }
        m = m / 16;
    }
    let ghost prior = buf@;
    let d: u8 = m as u8;
    let c: u8 = if d < 10 {
        48 + d
    } else {
        55 + d
    };
    buf.insert(at, c);
    proof {
        assert(c == hex_digit_upper(m as nat));
        assert(buf@.subrange(at as int, buf@.len() as int) =~= seq![c] + prior.subrange(
            at as int,
            prior.len() as int,
        ));
        assert(buf@ =~= before + hex_upper_bytes(n as nat));
    }
}

} // verus!
