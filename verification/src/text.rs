use vstd::prelude::*;
use vstd::string::StringExecFns;
use vstd::string::StringSliceAdditionalSpecFns;

verus! {

// ---------------------------------------------------------------------------
// Decimal numbers
// ---------------------------------------------------------------------------

/// The character of the decimal digit `d` (`0 <= d < 10`).
pub open spec fn digit_char(d: int) -> char {
    (48 + d) as char
}

/// The decimal text of a natural number, without leading zeros.
pub open spec fn decimal_text(n: nat) -> Seq<char>
    decreases n,
{
    if n < 10 {
        seq![digit_char(n as int)]
    } else {
        decimal_text(n / 10).push(digit_char((n % 10) as int))
    }
}

/// The decimal text of an integer, with a leading `-` when it is negative.
pub open spec fn signed_decimal_text(n: int) -> Seq<char> {
    if n < 0 {
        seq!['-'] + decimal_text((-n) as nat)
    } else {
        decimal_text(n as nat)
    }
}

/// Appends one character to a string (std's `String::push`).
#[verifier::external_body]
pub(crate) fn push_char(s: &mut String, c: char)
    ensures
        final(s)@ == old(s)@.push(c),
{
    s.push(c);
}

fn push_decimal(s: &mut String, n: u64)
    ensures
        final(s)@ == old(s)@ + decimal_text(n as nat),
    decreases n,
{
    if n >= 10 {
        push_decimal(s, n / 10);
    }
    let d: u8 = (n % 10) as u8;
    let c: char = (48u8 + d) as char;
    push_char(s, c);
    proof {
        assert(old(s)@ + decimal_text(n as nat) =~= (old(s)@ + (if n >= 10 {
            decimal_text((n / 10) as nat)
        } else {
            Seq::<char>::empty()
        })).push(digit_char((n % 10) as int)));
    }
}

/// Appends the decimal text of `n` to `s`, as `format!("{}", n)` writes it.
pub fn push_i32_text(s: &mut String, n: i32)
    ensures
        final(s)@ == old(s)@ + signed_decimal_text(n as int),
{
    if n < 0 {
        push_char(s, '-');
        let magnitude: u64 = (0i64 - (n as i64)) as u64;
        push_decimal(s, magnitude);
        proof {
            assert(old(s)@ + signed_decimal_text(n as int) =~= old(s)@.push('-') + decimal_text(
                magnitude as nat,
            ));
        }
    } else {
        push_decimal(s, n as u64);
    }
}

/// The name of the file that keeps a downloaded sticker: the decimal text
/// of the hash of its URL, then the extension.
pub fn res_file_name(hash: u64, ext_name: &str) -> (r: String)
    ensures
        r@ == decimal_text(hash as nat) + ext_name@,
{
    let mut name = String::new();
    push_decimal(&mut name, hash);
    name.append(ext_name);
    name
}

// ---------------------------------------------------------------------------
// Reading an unsigned decimal number
// ---------------------------------------------------------------------------

/// Whether `c` is one of `0`..`9`.
pub open spec fn is_digit(c: char) -> bool {
    '0' <= c && c <= '9'
}

/// The value of a sequence of decimal digits (0 for the empty sequence).
pub open spec fn digits_value(s: Seq<char>) -> nat
    decreases s.len(),
{
    if s.len() == 0 {
        0
    } else {
        digits_value(s.drop_last()) * 10 + (s.last() as int - 48) as nat
    }
}

/// Decimal-text law: the decimal text of every natural number is a
/// non-empty run of decimal digits, with no leading zero but for the number
/// zero itself, whose digits read back give the number.
pub proof fn lemma_decimal_text_reads_back(n: nat)
    ensures
        decimal_text(n).len() >= 1,
        all_digits(decimal_text(n)),
        digits_value(decimal_text(n)) == n,
        n > 0 ==> decimal_text(n)[0] != '0',
    decreases n,
{
    if n >= 10 {
        lemma_decimal_text_reads_back(n / 10);
        let front = decimal_text(n / 10);
        let d = (n % 10) as int;
        let t = decimal_text(n);
        assert(t == front.push(digit_char(d)));
        assert(t.drop_last() =~= front);
        assert(t.last() == digit_char(d));
        assert(digit_char(d) as int == 48 + d);
        assert(t[0] == front[0]);
        assert forall|i: int| 0 <= i < t.len() implies is_digit(#[trigger] t[i]) by {
            if i < front.len() {
                assert(t[i] == front[i]);
            }
        }
    } else {
        let t = decimal_text(n);
        assert(digit_char(n as int) as int == 48 + n);
        assert(t.drop_last() =~= Seq::<char>::empty());
        assert(digits_value(t.drop_last()) == 0);
    }
}

/// Signed decimal law: the text of a non-negative number is its decimal
/// text, whose digits give the number back and which `u32::from_str` reads
/// back as the number where it fits; the text of a negative number is `-`
/// then the decimal text of its magnitude.
pub proof fn lemma_signed_decimal_text_reads_back(n: int)
    ensures
        0 <= n ==> signed_decimal_text(n) == decimal_text(n as nat),
        0 <= n ==> all_digits(signed_decimal_text(n)),
        0 <= n ==> digits_value(signed_decimal_text(n)) == n,
        0 <= n <= u32::MAX ==> parse_u32_text(signed_decimal_text(n)) == Some(n as u32),
        n < 0 ==> signed_decimal_text(n) == seq!['-'] + decimal_text((-n) as nat),
        n < 0 ==> signed_decimal_text(n)[0] == '-',
        n < 0 ==> digits_value(signed_decimal_text(n).drop_first()) == -n,
{
    if n >= 0 {
        lemma_decimal_text_reads_back(n as nat);
        let t = decimal_text(n as nat);
        assert(t[0] != '+') by {
            assert(is_digit(t[0]));
        }
        assert(unsigned_digits(t) == t);
    } else {
        lemma_decimal_text_reads_back((-n) as nat);
        assert((seq!['-'] + decimal_text((-n) as nat)).drop_first() =~= decimal_text((-n) as nat));
    }
}

/// The digits part of an unsigned number's text: the text without one
/// leading `+`.
pub open spec fn unsigned_digits(s: Seq<char>) -> Seq<char> {
    if s.len() > 0 && s[0] == '+' {
        s.drop_first()
    } else {
        s
    }
}

/// Whether every character of `s` is a decimal digit.
pub open spec fn all_digits(s: Seq<char>) -> bool {
    forall|i: int| 0 <= i < s.len() ==> is_digit(#[trigger] s[i])
}

/// What std's `u32::from_str` gives for a text: an optional `+`, then at
/// least one decimal digit and nothing else, with a value that fits in `u32`.
pub open spec fn parse_u32_text(s: Seq<char>) -> Option<u32> {
    let digits = unsigned_digits(s);
    if digits.len() > 0 && all_digits(digits) && digits_value(digits) <= u32::MAX {
        Some(digits_value(digits) as u32)
    } else {
        None
    }
}

/// The characters of a sequence of ASCII bytes.
pub open spec fn ascii_chars(bytes: Seq<u8>) -> Seq<char> {
    bytes.map_values(|b: u8| b as char)
}

proof fn lemma_digits_value_grows(s: Seq<char>, i: int, j: int)
    requires
        0 <= i <= j <= s.len(),
    ensures
        digits_value(s.take(i)) <= digits_value(s.take(j)),
    decreases j - i,
{
    if i < j {
        lemma_digits_value_grows(s, i, j - 1);
        assert(s.take(j).drop_last() =~= s.take(j - 1));
    }
}

/// Reads an unsigned decimal number from ASCII bytes, as `u32::from_str`
/// reads the same text.
pub fn parse_u32_ascii(bytes: &[u8]) -> (r: Option<u32>)
    ensures
        r == parse_u32_text(ascii_chars(bytes@)),
{
    let ghost s = ascii_chars(bytes@);
    let len = bytes.len();
    let start: usize = if len > 0 && bytes[0] == 43u8 {
        1
    } else {
        0
    };
    let ghost digits = unsigned_digits(s);
    assert(digits =~= s.skip(start as int));
    if start >= len {
        return None;
    }
    let mut acc: u64 = 0;
    let mut i: usize = start;
    while i < len
        invariant
            start <= i <= len,
            len == bytes@.len(),
            s == ascii_chars(bytes@),
            digits == s.skip(start as int),
            digits == unsigned_digits(s),
            acc == digits_value(digits.take(i - start)),
            acc <= u32::MAX,
            forall|k: int| 0 <= k < i - start ==> is_digit(#[trigger] digits[k]),
        decreases len - i,
    {
        let b = bytes[i];
        assert(digits[i - start] == b as char);
        if b < 48u8 || b > 57u8 {
            assert(!is_digit(digits[i - start]));
            assert(!all_digits(digits));
            return None;
        }
        let next: u64 = acc * 10 + ((b - 48u8) as u64);
        assert(digits.take(i + 1 - start).drop_last() =~= digits.take(i - start));
        assert(digits.take(i + 1 - start).last() == b as char);
        assert(next == digits_value(digits.take(i + 1 - start)));
        if next > 4294967295u64 {
            proof {
                lemma_digits_value_grows(digits, i + 1 - start, digits.len() as int);
                assert(digits.take(digits.len() as int) =~= digits);
            }
            return None;
        }
        acc = next;
        i = i + 1;
    }
    assert(digits.take(i - start) =~= digits);
    Some(acc as u32)
}

// ---------------------------------------------------------------------------
// Percent encoding
// ---------------------------------------------------------------------------

/// The bytes that percent encoding leaves as they are: ASCII letters and
/// digits and `-`, `.`, `_`, `~`.
pub open spec fn unreserved_byte(b: u8) -> bool {
    (48 <= b <= 57) || (65 <= b <= 90) || (97 <= b <= 122) || b == 45 || b == 46 || b == 95
        || b == 126
}

/// The upper-case hexadecimal digit of `d` (`d < 16`).
pub open spec fn hex_digit(d: u8) -> char {
    if d < 10 {
        (48 + d) as char
    } else {
        (55 + d) as char
    }
}

/// The percent encoding of one byte.
pub open spec fn percent_encode_byte(b: u8) -> Seq<char> {
    if unreserved_byte(b) {
        seq![b as char]
    } else {
        seq!['%', hex_digit(b / 16), hex_digit(b % 16)]
    }
}

/// The percent encoding of a byte sequence, byte by byte.
pub open spec fn percent_encode(bytes: Seq<u8>) -> Seq<char>
    decreases bytes.len(),
{
    if bytes.len() == 0 {
        Seq::<char>::empty()
    } else {
        percent_encode_byte(bytes[0]) + percent_encode(bytes.drop_first())
    }
}

/// `urlencoding::encode`: percent-encodes every byte of the UTF-8 form of
/// `data` except ASCII letters, digits and `-`, `.`, `_`, `~`, with
/// upper-case hexadecimal digits. The contract states that result.
#[verifier::external_body]
pub(crate) fn url_encode(data: &str) -> (r: String)
    ensures
        r@ == percent_encode(data.spec_bytes()),
{
    urlencoding::encode(data).into_owned()
}

/// The value of a hexadecimal digit character.
pub open spec fn hex_value(c: char) -> int {
    if '0' <= c && c <= '9' {
        c as int - 48
    } else if 'A' <= c && c <= 'F' {
        c as int - 55
    } else {
        c as int - 87
    }
}

/// Percent decoding: `%` and two hexadecimal digits stand for one byte, any
/// other character for its own code.
pub open spec fn percent_decode(s: Seq<char>) -> Seq<u8>
    decreases s.len(),
{
    if s.len() == 0 {
        Seq::<u8>::empty()
    } else if s[0] == '%' && s.len() >= 3 {
        seq![(hex_value(s[1]) * 16 + hex_value(s[2])) as u8] + percent_decode(
            s.subrange(3, s.len() as int),
        )
    } else {
        seq![s[0] as u8] + percent_decode(s.drop_first())
    }
}

/// The characters that a percent-encoded text is made of: the unreserved
/// ASCII characters and `%`. Reserved characters such as `&`, `=`, `#` and
/// the space are not among them.
pub open spec fn percent_text_char(c: char) -> bool {
    ('0' <= c && c <= '9') || ('A' <= c && c <= 'Z') || ('a' <= c && c <= 'z') || c == '-'
        || c == '.' || c == '_' || c == '~' || c == '%'
}

proof fn lemma_hex_digit(d: u8)
    requires
        d < 16,
    ensures
        percent_text_char(hex_digit(d)),
        hex_digit(d) != '%',
        hex_value(hex_digit(d)) == d,
{
}

/// Percent-encoding law: the encoding of any byte sequence is made only of
/// unreserved characters and `%`, and percent decoding gives the bytes back.
pub proof fn lemma_percent_encoding_round_trip(bytes: Seq<u8>)
    ensures
        forall|i: int|
            0 <= i < percent_encode(bytes).len() ==> percent_text_char(
                #[trigger] percent_encode(bytes)[i],
            ),
        percent_decode(percent_encode(bytes)) == bytes,
    decreases bytes.len(),
{
    if bytes.len() > 0 {
        let b = bytes[0];
        let head = percent_encode_byte(b);
        let rest = percent_encode(bytes.drop_first());
        lemma_percent_encoding_round_trip(bytes.drop_first());
        let all = head + rest;
        assert(percent_encode(bytes) == all);
        lemma_hex_digit(b / 16);
        lemma_hex_digit(b % 16);
        if unreserved_byte(b) {
            assert(all[0] == b as char);
            assert(all.drop_first() =~= rest);
            assert((b as char) as u8 == b);
        } else {
            assert(all.subrange(3, all.len() as int) =~= rest);
            assert((b / 16) * 16 + b % 16 == b);
        }
        assert(percent_decode(all) =~= bytes);
        assert forall|i: int| 0 <= i < all.len() implies percent_text_char(#[trigger] all[i]) by {
            if i >= head.len() {
                assert(all[i] == rest[i - head.len()]);
            }
        }
    }
}

} // verus!
