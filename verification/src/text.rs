//! Decimal text of integers, in both directions, over ASCII bytes.
//!
//! Printing follows `Display` of Rust's integer types (an optional `-`, then
//! the digits with no leading zero); parsing follows `FromStr` of Rust's
//! integer types (an optional `+`, or `-` for signed types, then at least one
//! ASCII digit, and the value must fit the type).
use vstd::prelude::*;
use vstd::utf8::*;

verus! {

pub open spec fn is_ascii_digit(b: u8) -> bool {
    48 <= b <= 57
}

/// The decimal digits of `n`, most significant first, without leading zeros.
pub open spec fn decimal(n: nat) -> Seq<u8>
    decreases n,
{
    if n < 10 {
        seq![(48 + n) as u8]
    } else {
        decimal(n / 10).push((48 + n % 10) as u8)
    }
}

/// The text that `Display` writes for the integer `n`.
pub open spec fn signed_decimal(n: int) -> Seq<u8> {
    if n < 0 {
        seq![45u8] + decimal((-n) as nat)
    } else {
        decimal(n as nat)
    }
}

pub open spec fn all_digits(s: Seq<u8>) -> bool {
    forall|i: int| 0 <= i < s.len() ==> is_ascii_digit(#[trigger] s[i])
}

/// The value of a string of decimal digits, most significant first.
pub open spec fn digits_value(s: Seq<u8>) -> nat
    decreases s.len(),
{
    if s.len() == 0 {
        0
    } else {
        digits_value(s.drop_last()) * 10 + (s.last() - 48) as nat
    }
}

/// The integer that `FromStr` reads from `s`, before the range of the type is
/// checked; `signed` says whether a leading `-` is allowed.
pub open spec fn parse_integer(s: Seq<u8>, signed: bool) -> Option<int> {
    let negative = signed && s.len() > 0 && s[0] == 45u8;
    let body = if s.len() > 0 && (s[0] == 43u8 || negative) {
        s.skip(1)
    } else {
        s
    };
    if body.len() == 0 || !all_digits(body) {
        None
    } else if negative {
        Some(-digits_value(body))
    } else {
        Some(digits_value(body) as int)
    }
}

/// What `str::parse::<i64>` gives for the bytes `s`.
pub open spec fn parse_i64(s: Seq<u8>) -> Option<i64> {
    match parse_integer(s, true) {
        Some(v) => if i64::MIN <= v <= i64::MAX {
            Some(v as i64)
        } else {
            None
        },
        None => None,
    }
}

/// What `str::parse::<i32>` gives for the bytes `s`.
pub open spec fn parse_i32(s: Seq<u8>) -> Option<i32> {
    match parse_integer(s, true) {
        Some(v) => if i32::MIN <= v <= i32::MAX {
            Some(v as i32)
        } else {
            None
        },
        None => None,
    }
}

/// What `str::parse::<u32>` gives for the bytes `s`.
pub open spec fn parse_u32(s: Seq<u8>) -> Option<u32> {
    match parse_integer(s, false) {
        Some(v) => if 0 <= v <= u32::MAX {
            Some(v as u32)
        } else {
            None
        },
        None => None,
    }
}

/// The characters of ASCII bytes.
pub open spec fn ascii_chars(bytes: Seq<u8>) -> Seq<char> {
    bytes.map_values(|b: u8| b as char)
}

pub open spec fn all_ascii(bytes: Seq<u8>) -> bool {
    forall|i: int| 0 <= i < bytes.len() ==> #[trigger] bytes[i] < 128
}

pub proof fn lemma_decimal_digits(n: nat)
    ensures
        decimal(n).len() > 0,
        all_digits(decimal(n)),
        all_ascii(decimal(n)),
        digits_value(decimal(n)) == n,
    decreases n,
{
    if n >= 10 {
        lemma_decimal_digits(n / 10);
        let d = decimal(n);
        assert(d.drop_last() =~= decimal(n / 10));
        assert(d.last() == (48 + n % 10) as u8);
        assert(n == (n / 10) * 10 + n % 10);
        assert(digits_value(d) == digits_value(d.drop_last()) * 10 + (d.last() - 48) as nat);
    } else {
        let d = decimal(n);
        assert(d.drop_last() =~= Seq::<u8>::empty());
        assert(digits_value(d.drop_last()) == 0);
        assert forall|i: int| 0 <= i < d.len() implies is_ascii_digit(#[trigger] d[i]) by {
            if i < d.len() - 1 {
                assert(d[i] == decimal(n / 10)[i]);
            }
        }
    }
}

/// `str::parse` reads back what `Display` writes, for every integer.
pub proof fn law_parse_reads_back_display(n: int)
    ensures
        parse_integer(signed_decimal(n), true) == Some(n),
        n >= 0 ==> parse_integer(signed_decimal(n), false) == Some(n),
{
    if n < 0 {
        lemma_decimal_digits((-n) as nat);
        assert((seq![45u8] + decimal((-n) as nat)).skip(1) =~= decimal((-n) as nat));
    } else {
        lemma_decimal_digits(n as nat);
        assert(is_ascii_digit(decimal(n as nat)[0]));
    }
}

proof fn lemma_ascii_byte(b: u8)
    requires
        b < 128,
    ensures
        ((b as char) as u32) == b as u32,
        encode_scalar((b as char) as u32) == seq![b],
{
    let v: u32 = b as u32;
    assert(v & 0x7F == v && (v & 0x7F) as u8 == b) by (bit_vector)
        requires
            v == b as u32,
            b < 128,
    ;
}

pub proof fn lemma_ascii_utf8(bytes: Seq<u8>)
    requires
        all_ascii(bytes),
    ensures
        valid_utf8(bytes),
        decode_utf8(bytes) == ascii_chars(bytes),
        encode_utf8(ascii_chars(bytes)) == bytes,
    decreases bytes.len(),
{
    let chars = ascii_chars(bytes);
    if bytes.len() > 0 {
        let rest = bytes.drop_first();
        lemma_ascii_utf8(rest);
        lemma_ascii_byte(bytes[0]);
        assert(chars.drop_first() =~= ascii_chars(rest));
        assert(encode_utf8(chars) == encode_scalar(chars[0] as u32) + encode_utf8(chars.drop_first()));
        assert(encode_utf8(chars) =~= bytes);
    } else {
        assert(encode_utf8(chars) =~= bytes);
    }
    vstd::utf8::encode_utf8_valid_utf8(chars);
    vstd::utf8::encode_utf8_decode_utf8(chars);
}

/// The text of the error that `std::str::from_utf8` reports for `bytes` (which
/// names the offset of the first byte that does not decode).
pub uninterp spec fn utf8_error_text(bytes: Seq<u8>) -> Seq<char>;

/// Wraps `std::str::from_utf8`: the bytes decode exactly when they are valid
/// UTF-8, to the characters that UTF-8 gives them; otherwise the text of the
/// error that `from_utf8` reports, which is a function of the bytes alone.
#[verifier::external_body]
pub(crate) fn utf8_text(bytes: &[u8]) -> (res: Result<String, String>)
    ensures
        res is Ok <==> valid_utf8(bytes@),
        res matches Ok(s) ==> s@ == decode_utf8(bytes@),
        res matches Err(m) ==> m@ == utf8_error_text(bytes@),
{
    match std::str::from_utf8(bytes) {
        Ok(s) => Ok(s.to_owned()),
        Err(e) => Err(e.to_string()),
    }
}

/// The text of ASCII bytes.
pub fn ascii_string(bytes: &[u8]) -> (res: String)
    requires
        all_ascii(bytes@),
    ensures
        res@ == ascii_chars(bytes@),
{
    proof {
        lemma_ascii_utf8(bytes@);
    }
    match utf8_text(bytes) {
        Ok(s) => s,
        Err(_) => String::new(),
    }
}

/// Appends the decimal digits of `n`.
pub fn push_decimal(buf: &mut Vec<u8>, n: u64)
    ensures
        final(buf)@ == old(buf)@ + decimal(n as nat),
    decreases n,
{
    if n >= 10 {
        push_decimal(buf, n / 10);
    }
    let digit: u8 = (n % 10) as u8;
    buf.push(48u8 + digit);
    proof {
        if n >= 10 {
            assert(decimal(n as nat) == decimal((n / 10) as nat).push((48 + n % 10) as u8));
        }
    }
    assert(final(buf)@ =~= old(buf)@ + decimal(n as nat));
}

/// Appends the text that `Display` writes for `n`.
pub fn push_signed_decimal(buf: &mut Vec<u8>, n: i64)
    ensures
        final(buf)@ == old(buf)@ + signed_decimal(n as int),
{
    if n < 0 {
        buf.push(45u8);
        let magnitude: u64 = (0i128 - n as i128) as u64;
        push_decimal(buf, magnitude);
        assert(final(buf)@ =~= old(buf)@ + signed_decimal(n as int));
    } else {
        push_decimal(buf, n as u64);
    }
}

/// The value of the digits `s[start..]`, when they are all digits, there is at
/// least one, and the value is at most `limit`.
fn digits_up_to(s: &[u8], start: usize, limit: u64) -> (res: Option<u64>)
    requires
        start <= s@.len(),
    ensures
        res == (if s@.skip(start as int).len() > 0 && all_digits(s@.skip(start as int))
            && digits_value(s@.skip(start as int)) <= limit {
            Some(digits_value(s@.skip(start as int)) as u64)
        } else {
            None::<u64>
        }),
{
    let ghost body = s@.skip(start as int);
    if start == s.len() {
        return None;
    }
    let mut value: u128 = 0;
    let mut too_big = false;
    let mut i = start;
    while i < s.len()
        invariant
            start <= i <= s@.len(),
            body == s@.skip(start as int),
            all_digits(s@.subrange(start as int, i as int)),
            !too_big ==> value == digits_value(s@.subrange(start as int, i as int)),
            !too_big ==> value <= limit,
            too_big ==> digits_value(s@.subrange(start as int, i as int)) > limit,
        decreases s@.len() - i,
    {
        let b = s[i];
        if b < 48 || b > 57 {
            assert(!all_digits(body)) by {
                assert(body[i - start] == b);
            }
            return None;
        }
        let ghost prefix = s@.subrange(start as int, i as int);
        let ghost next = s@.subrange(start as int, i + 1);
        assert(next.drop_last() =~= prefix);
        assert(all_digits(next)) by {
            assert forall|j: int| 0 <= j < next.len() implies is_ascii_digit(#[trigger] next[j]) by {
                if j < prefix.len() {
                    assert(next[j] == prefix[j]);
                }
            }
        }
        if !too_big {
            value = value * 10 + (b - 48) as u128;
            if value > limit as u128 {
                too_big = true;
            }
        }
        i = i + 1;
    }
    assert(s@.subrange(start as int, s@.len() as int) =~= body);
    if too_big {
        None
    } else {
        Some(value as u64)
    }
}

/// `str::parse::<i64>` on the bytes `s`.
pub fn parse_i64_bytes(s: &[u8]) -> (res: Option<i64>)
    ensures
        res == parse_i64(s@),
{
    let negative = s.len() > 0 && s[0] == 45u8;
    let start: usize = if s.len() > 0 && (s[0] == 43u8 || negative) {
        1
    } else {
        0
    };
    assert(start == 0 ==> s@.skip(0) =~= s@);
    let limit: u64 = if negative {
        9223372036854775808u64
    } else {
        9223372036854775807u64
    };
    match digits_up_to(s, start, limit) {
        Some(m) => {
            if negative {
                Some((0i128 - m as i128) as i64)
            } else {
                Some(m as i64)
            }
        },
        None => None,
    }
}

/// `str::parse::<i32>` on the bytes `s`.
pub fn parse_i32_bytes(s: &[u8]) -> (res: Option<i32>)
    ensures
        res == parse_i32(s@),
{
    let negative = s.len() > 0 && s[0] == 45u8;
    let start: usize = if s.len() > 0 && (s[0] == 43u8 || negative) {
        1
    } else {
        0
    };
    assert(start == 0 ==> s@.skip(0) =~= s@);
    let limit: u64 = if negative {
        2147483648u64
    } else {
        2147483647u64
    };
    match digits_up_to(s, start, limit) {
        Some(m) => {
            if negative {
                Some((0i64 - m as i64) as i32)
            } else {
                Some(m as i32)
            }
        },
        None => None,
    }
}

/// `str::parse::<u32>` on the bytes `s`.
pub fn parse_u32_bytes(s: &[u8]) -> (res: Option<u32>)
    ensures
        res == parse_u32(s@),
{
    let start: usize = if s.len() > 0 && s[0] == 43u8 {
        1
    } else {
        0
    };
    assert(start == 0 ==> s@.skip(0) =~= s@);
    match digits_up_to(s, start, 4294967295u64) {
        Some(m) => Some(m as u32),
        None => None,
    }
}

} // verus!
