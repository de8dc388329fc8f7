use vstd::prelude::*;

verus! {

/// The character for one digit value, `0` through `f`.
pub open spec fn spec_digit(d: int) -> char {
    if d == 0 {
        '0'
    } else if d == 1 {
        '1'
    } else if d == 2 {
        '2'
    } else if d == 3 {
        '3'
    } else if d == 4 {
        '4'
    } else if d == 5 {
        '5'
    } else if d == 6 {
        '6'
    } else if d == 7 {
        '7'
    } else if d == 8 {
        '8'
    } else if d == 9 {
        '9'
    } else if d == 10 {
        'a'
    } else if d == 11 {
        'b'
    } else if d == 12 {
        'c'
    } else if d == 13 {
        'd'
    } else if d == 14 {
        'e'
    } else {
        'f'
    }
}

/// The decimal digit string of a non-negative number, most significant first.
pub open spec fn spec_dec_digits(n: int) -> Seq<char>
    decreases n,
{
    if n < 10 {
        seq![spec_digit(n)]
    } else {
        spec_dec_digits(n / 10).push(spec_digit(n % 10))
    }
}

/// The lowercase hexadecimal digit string of a non-negative number,
/// most significant first.
pub open spec fn spec_hex_digits(n: int) -> Seq<char>
    decreases n,
{
    if n < 16 {
        seq![spec_digit(n)]
    } else {
        spec_hex_digits(n / 16).push(spec_digit(n % 16))
    }
}

/// A run of `n` zero characters.
pub open spec fn spec_zeroes(n: int) -> Seq<char> {
    Seq::new(if n < 0 {
        0
    } else {
        n as nat
    }, |i: int| '0')
}

/// The six-or-more character lowercase hexadecimal string of a non-negative
/// number: its hex digits, left-padded with zeroes up to six characters.
pub open spec fn spec_hex6(n: int) -> Seq<char> {
    spec_zeroes(6 - spec_hex_digits(n).len()) + spec_hex_digits(n)
}

/// The exec character for one digit value.
pub fn digit_char(d: u64) -> (c: char)
    requires
        d < 16,
    ensures
        c == spec_digit(d as int),
{
    if d == 0 {
        '0'
    } else if d == 1 {
        '1'
    } else if d == 2 {
        '2'
    } else if d == 3 {
        '3'
    } else if d == 4 {
        '4'
    } else if d == 5 {
        '5'
    } else if d == 6 {
        '6'
    } else if d == 7 {
        '7'
    } else if d == 8 {
        '8'
    } else if d == 9 {
        '9'
    } else if d == 10 {
        'a'
    } else if d == 11 {
        'b'
    } else if d == 12 {
        'c'
    } else if d == 13 {
        'd'
    } else if d == 14 {
        'e'
    } else {
        'f'
    }
}

/// Append the decimal digits of `n` to `out`.
pub fn push_dec_digits(n: u64, out: &mut Vec<char>)
    ensures
        final(out)@ == old(out)@ + spec_dec_digits(n as int),
    decreases n,
{
    if n < 10 {
        out.push(digit_char(n));
    } else {
        push_dec_digits(n / 10, out);
        out.push(digit_char(n % 10));
    }
}

/// Append the decimal digits of a 128-bit number to `out`.
pub fn push_dec_digits_u128(n: u128, out: &mut Vec<char>)
    ensures
        final(out)@ == old(out)@ + spec_dec_digits(n as int),
    decreases n,
{
    if n < 10 {
        out.push(digit_char(n as u64));
    } else {
        push_dec_digits_u128(n / 10, out);
        out.push(digit_char((n % 10) as u64));
    }
}

/// Append the lowercase hexadecimal digits of `n` to `out`.
pub fn push_hex_digits(n: u64, out: &mut Vec<char>)
    ensures
        final(out)@ == old(out)@ + spec_hex_digits(n as int),
    decreases n,
{
    if n < 16 {
        out.push(digit_char(n));
    } else {
        push_hex_digits(n / 16, out);
        out.push(digit_char(n % 16));
    }
}

/// The number of hexadecimal digits a value needs.
pub fn hex_digit_count(n: u64) -> (c: usize)
    ensures
        c == spec_hex_digits(n as int).len(),
    decreases n,
{
    if n < 16 {
        1
    } else {
        let rest = hex_digit_count(n / 16);
        proof {
            lemma_hex_digits_len_bound(n as int);
        }
        rest + 1
    }
}

/// A value's hexadecimal digit string has at most 16 digits when it fits `u64`.
proof fn lemma_hex_digits_len_bound(n: int)
    requires
        0 <= n <= u64::MAX,
    ensures
        1 <= spec_hex_digits(n).len() <= 16,
{
    assert(pow16(16) == 0x10000000000000000) by {
        reveal_with_fuel(pow16, 17);
    }
    lemma_hex_digits_len_by_size(n, 16);
}

/// A value below `16^k` has at most `k` hexadecimal digits.
proof fn lemma_hex_digits_len_by_size(n: int, k: int)
    requires
        0 <= n,
        1 <= k,
        n < pow16(k),
    ensures
        spec_hex_digits(n).len() <= k,
    decreases k,
{
    if n >= 16 {
        if k == 1 {
            assert(pow16(1) == 16) by {
                reveal_with_fuel(pow16, 3);
            }
            assert(false);
        }
        assert(pow16(k) == 16 * pow16(k - 1));
        vstd::arithmetic::div_mod::lemma_fundamental_div_mod(n, 16);
        lemma_hex_digits_len_by_size(n / 16, k - 1);
    }
}

/// Sixteen to a non-negative power.
pub open spec fn pow16(k: int) -> int
    decreases k,
{
    if k <= 0 {
        1
    } else {
        16 * pow16(k - 1)
    }
}

/// Convert a 32 bit integer to a (at least) 6 character lowercase
/// hexadecimal string, left-padded with zeroes; a negative value shows its
/// 32-bit two's-complement digits.
pub fn hex_to_str(hexadecimal: i32) -> (r: String)
    ensures
        r@ == spec_hex6((hexadecimal as u32) as int),
{
    let unsigned = hexadecimal as u32;
    let mut out: Vec<char> = Vec::new();
    let count = hex_digit_count(unsigned as u64);
    let mut pad: usize = 0;
    while pad + count < 6
        invariant
            count == spec_hex_digits((hexadecimal as u32) as int).len(),
            count < 6 ==> pad + count <= 6,
            count >= 6 ==> pad == 0,
            out@ =~= spec_zeroes(pad as int),
        decreases 6 - pad,
    {
        proof {
            assert(out@.push('0') =~= spec_zeroes(pad + 1));
        }
        out.push('0');
        pad = pad + 1;
    }
    proof {
        assert(out@ =~= spec_zeroes(6 - spec_hex_digits((hexadecimal as u32) as int).len()));
    }
    push_hex_digits(unsigned as u64, &mut out);
    let r = chars_to_string(&out);
    proof {
        assert(r@ =~= spec_hex6((hexadecimal as u32) as int));
    }
    r
}

/// Relies on `char::from_u32`: it returns the character with the given
/// scalar value exactly when the value is a Unicode scalar value (not a
/// surrogate, at most 0x10FFFF), and `None` otherwise.
pub assume_specification[ char::from_u32 ](code: u32) -> (r: Option<char>)
    ensures
        r is Some <==> (code < 0xD800 || (0xDFFF < code && code <= 0x10FFFF)),
        r matches Some(c) ==> c == code as char,
;

/// Build a `String` from a vector of characters.
/// Relies on `String: FromIterator<char>` (`Iterator::collect`): the
/// collected string holds exactly the iterated characters, in order.
#[verifier::external_body]
pub fn chars_to_string(v: &Vec<char>) -> (s: String)
    ensures
        s@ == v@,
{
    v.iter().collect()
}

/// Whether the `url` crate parses a string as an absolute URL.
/// The outcome depends on the string's characters alone.
pub uninterp spec fn url_parse_ok(s: Seq<char>) -> bool;

/// Relies on `url::Url::parse`: it returns `Ok` exactly when the string
/// parses as an absolute URL, an outcome fixed by the string itself.
#[verifier::external_body]
fn try_parse_url(s: &str) -> (r: bool)
    ensures
        r == url_parse_ok(s@),
{
    url::Url::parse(s).is_ok()
}

/// Validate a URL: `Ok` exactly when the string parses as an absolute URL,
/// else a build error naming the field and the rejected value.
pub fn url(candidate: &str, field: &str) -> (r: Result<(), crate::errors::BuildError>)
    ensures
        r is Ok <==> url_parse_ok(candidate@),
        r matches Err(e) ==> e@ == (crate::errors::SpecBuildError::InvalidUrl {
            field: field@,
            url: candidate@,
        }),
{
    if try_parse_url(candidate) {
        Ok(())
    } else {
        Err(
            crate::errors::BuildError::InvalidUrl {
                field: <String as vstd::string::StringExecFns>::from_str(field),
                url: <String as vstd::string::StringExecFns>::from_str(candidate),
            },
        )
    }
}

} // verus!
