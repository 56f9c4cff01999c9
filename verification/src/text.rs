//! Decimal text of integers, parsing of unsigned decimal fields, and the
//! quoted form in which log lines show free text.
use vstd::prelude::*;

verus! {

/// The character of the decimal digit `d` (0 to 9).
pub open spec fn digit_char(d: nat) -> char {
    (48 + d) as char
}

/// The ASCII byte of the decimal digit `d` (0 to 9).
pub open spec fn digit_byte(d: nat) -> u8 {
    (48 + d) as u8
}

/// Decimal text of `n`: no sign, no leading zeros, "0" for zero.
pub open spec fn decimal(n: nat) -> Seq<char>
    decreases n,
{
    if n < 10 {
        seq![digit_char(n)]
    } else {
        decimal(n / 10).push(digit_char(n % 10))
    }
}

/// The same text as `decimal`, as ASCII bytes.
pub open spec fn decimal_bytes(n: nat) -> Seq<u8>
    decreases n,
{
    if n < 10 {
        seq![digit_byte(n)]
    } else {
        decimal_bytes(n / 10).push(digit_byte(n % 10))
    }
}

/// A one-character string holding the digit `d`.
fn digit_str(d: u32) -> (s: &'static str)
    requires
        d < 10,
    ensures
        s@ == seq![digit_char(d as nat)],
{
    proof {
        reveal_strlit("0");
        reveal_strlit("1");
        reveal_strlit("2");
        reveal_strlit("3");
        reveal_strlit("4");
        reveal_strlit("5");
        reveal_strlit("6");
        reveal_strlit("7");
        reveal_strlit("8");
        reveal_strlit("9");
    }
    let s = match d {
        0 => "0",
        1 => "1",
        2 => "2",
        3 => "3",
        4 => "4",
        5 => "5",
        6 => "6",
        7 => "7",
        8 => "8",
        _ => "9",
    };
    assert(s@ =~= seq![digit_char(d as nat)]);
    s
}

/// Appends the decimal text of `n` to `s`.
pub fn push_decimal(s: &mut String, n: u32)
    ensures
        final(s)@ == old(s)@ + decimal(n as nat),
    decreases n,
{
    if n >= 10 {
        push_decimal(s, n / 10);
    }
    let d = digit_str(n % 10);
    s.append(d);
    proof {
        if n >= 10 {
            assert(old(s)@ + decimal(n as nat) =~= old(s)@ + decimal((n / 10) as nat) + seq![
                digit_char((n % 10) as nat),
            ]);
        } else {
            assert(decimal(n as nat) =~= seq![digit_char(n as nat)]);
        }
    }
}

/// The decimal text of `n`, as `format!("{}", n)` writes it.
pub fn u32_text(n: u32) -> (s: String)
    ensures
        s@ == decimal(n as nat),
{
    let mut s = String::new();
    push_decimal(&mut s, n);
    assert(s@ =~= decimal(n as nat));
    s
}

/// Why a decimal field could not be read as a `u32`.
#[derive(Debug, Clone, Copy, PartialEq, Eq, Structural)]
pub enum ParseIntError {
    /// The field is empty.
    Empty,
    /// The field holds a byte that is not a decimal digit (a lone sign counts).
    InvalidDigit,
    /// The value does not fit in a `u32`.
    PosOverflow,
}

pub open spec fn is_digit(b: u8) -> bool {
    48 <= b <= 57
}

/// Reads the digits of `d` from left to right; the first byte that is no
/// digit, or the first digit after which the value exceeds `u32::MAX`,
/// decides the error.
pub open spec fn parse_digits(d: Seq<u8>) -> Result<u32, ParseIntError>
    decreases d.len(),
{
    if d.len() == 0 {
        Ok(0)
    } else {
        match parse_digits(d.drop_last()) {
            Err(e) => Err(e),
            Ok(v) => if !is_digit(d.last()) {
                Err(ParseIntError::InvalidDigit)
            } else if v * 10 + (d.last() - 48) > u32::MAX {
                Err(ParseIntError::PosOverflow)
            } else {
                Ok((v * 10 + (d.last() - 48)) as u32)
            },
        }
    }
}

/// What `str::parse::<u32>` gives for the bytes `s`: an optional leading
/// `+`, then at least one decimal digit.
pub open spec fn parse_u32_spec(s: Seq<u8>) -> Result<u32, ParseIntError> {
    if s.len() == 0 {
        Err(ParseIntError::Empty)
    } else if s[0] == 43 {
        if s.len() == 1 {
            Err(ParseIntError::InvalidDigit)
        } else {
            parse_digits(s.drop_first())
        }
    } else {
        parse_digits(s)
    }
}

/// Once a prefix of `d` fails to read, `d` fails with the same error.
proof fn lemma_error_persists(d: Seq<u8>, k: int)
    requires
        0 <= k <= d.len(),
        parse_digits(d.take(k)) is Err,
    ensures
        parse_digits(d) == parse_digits(d.take(k)),
    decreases d.len(),
{
    if k < d.len() {
        assert(d.drop_last().take(k) =~= d.take(k));
        lemma_error_persists(d.drop_last(), k);
    } else {
        assert(d.take(k) =~= d);
    }
}

/// Reads `s` as an unsigned decimal `u32`, as `str::parse::<u32>` does.
pub fn parse_u32(s: &[u8]) -> (r: Result<u32, ParseIntError>)
    ensures
        r == parse_u32_spec(s@),
{
    let n = s.len();
    if n == 0 {
        return Err(ParseIntError::Empty);
    }
    let mut start: usize = 0;
    if s[0] == 43 {
        if n == 1 {
            return Err(ParseIntError::InvalidDigit);
        }
        start = 1;
    }
    let ghost d = s@.subrange(start as int, n as int);
    assert(s[0] == 43 ==> d =~= s@.drop_first());
    assert(s[0] != 43 ==> d =~= s@);
    let mut i: usize = start;
    let mut acc: u32 = 0;
    assert(d.take(0) =~= Seq::<u8>::empty());
    while i < n
        invariant
            start <= i <= n,
            n == s@.len(),
            start <= 1,
            d == s@.subrange(start as int, n as int),
            parse_u32_spec(s@) == parse_digits(d),
            parse_digits(d.take(i - start)) == Ok::<u32, ParseIntError>(acc),
        decreases n - i,
    {
        let b = s[i];
        let ghost k: int = i - start + 1;
        assert(d.take(k).drop_last() =~= d.take(k - 1));
        assert(d.take(k).last() == b);
        if b < 48 || b > 57 {
            proof {
                lemma_error_persists(d, k);
            }
            return Err(ParseIntError::InvalidDigit);
        }
        let v: u32 = (b - 48) as u32;
        match acc.checked_mul(10) {
            None => {
                proof {
                    lemma_error_persists(d, k);
                }
                return Err(ParseIntError::PosOverflow);
            },
            Some(m) => match m.checked_add(v) {
                None => {
                    proof {
                        lemma_error_persists(d, k);
                    }
                    return Err(ParseIntError::PosOverflow);
                },
                Some(next) => {
                    acc = next;
                },
            },
        }
        i = i + 1;
    }
    assert(d.take(n - start) =~= d);
    Ok(acc)
}

/// The decimal text of any `u32` starts with a digit and reads back as it.
proof fn lemma_decimal_digits(n: nat)
    requires
        n <= u32::MAX,
    ensures
        decimal_bytes(n).len() > 0,
        is_digit(decimal_bytes(n)[0]),
        parse_digits(decimal_bytes(n)) == Ok::<u32, ParseIntError>(n as u32),
    decreases n,
{
    if n < 10 {
        let d = decimal_bytes(n);
        assert(d.drop_last() =~= Seq::<u8>::empty());
        assert(d.last() == digit_byte(n));
        assert(d.last() - 48 == n);
        assert(parse_digits(d.drop_last()) == Ok::<u32, ParseIntError>(0));
        assert(is_digit(d.last()));
    } else {
        lemma_decimal_digits(n / 10);
        let d = decimal_bytes(n);
        assert(d.drop_last() =~= decimal_bytes(n / 10));
        assert(d.last() == digit_byte(n % 10));
        assert(d.last() - 48 == n % 10);
        assert((n / 10) * 10 + n % 10 == n);
        assert(parse_digits(d.drop_last()) == Ok::<u32, ParseIntError>((n / 10) as u32));
        assert(is_digit(d.last()));
    }
}

/// Reading back the decimal text of a `u32` gives that `u32`.
pub proof fn law_decimal_round_trip(n: u32)
    ensures
        parse_u32_spec(decimal_bytes(n as nat)) == Ok::<u32, ParseIntError>(n),
{
    lemma_decimal_digits(n as nat);
}

/// The text a value of `str` shows under `{:?}`: the characters in double
/// quotes, with quotes, backslashes and unprintable characters escaped.
pub uninterp spec fn debug_quoted(s: Seq<char>) -> Seq<char>;

/// Formats `s` with `{:?}`.
#[verifier::external_body]
pub(crate) fn debug_text(s: &str) -> (r: String)
    ensures
        r@ == debug_quoted(s@),
{
    format!("{:?}", s)
}

} // verus!

verus! {

/// The number a string of decimal digits denotes, read left to right.
pub open spec fn digits_value(s: Seq<char>) -> int
    decreases s.len(),
{
    if s.len() == 0 {
        0
    } else {
        digits_value(s.drop_last()) * 10 + (s.last() as int - 48)
    }
}

/// Every character of `s` is a decimal digit.
pub open spec fn all_digits(s: Seq<char>) -> bool {
    forall|i: int| 0 <= i < s.len() ==> '0' <= #[trigger] s[i] <= '9'
}

/// The decimal text of `n` is a nonempty string of digits that denotes `n`,
/// with no leading zero unless `n` is zero.
pub proof fn law_decimal_denotes(n: nat)
    ensures
        decimal(n).len() > 0,
        all_digits(decimal(n)),
        digits_value(decimal(n)) == n,
        decimal(n)[0] == '0' ==> n == 0,
    decreases n,
{
    let s = decimal(n);
    if n < 10 {
        assert(s.drop_last() =~= Seq::<char>::empty());
        assert(s.last() == digit_char(n));
        assert(digit_char(n) as int == 48 + n);
        assert(digits_value(s.drop_last()) == 0);
        assert(digits_value(s) == digits_value(s.drop_last()) * 10 + (s.last() as int - 48));
    } else {
        law_decimal_denotes(n / 10);
        let p = decimal(n / 10);
        assert(s.drop_last() =~= p);
        assert(s.last() == digit_char(n % 10));
        assert(digit_char(n % 10) as int == 48 + n % 10);
        assert((n / 10) * 10 + n % 10 == n);
        assert(digits_value(s) == digits_value(p) * 10 + (s.last() as int - 48));
        assert(s[0] == p[0]);
        assert forall|i: int| 0 <= i < s.len() implies '0' <= #[trigger] s[i] <= '9' by {
            if i < s.len() - 1 {
                assert(s[i] == p[i]);
            }
        }
    }
}

/// The characters of the decimal text of `n` are the ASCII bytes of its
/// byte form, so the text reads back as `n` (see `law_decimal_round_trip`).
pub proof fn law_decimal_text_is_its_bytes(n: nat)
    ensures
        decimal(n) == decimal_bytes(n).map_values(|b: u8| b as char),
    decreases n,
{
    if n < 10 {
        assert(decimal(n) =~= decimal_bytes(n).map_values(|b: u8| b as char));
    } else {
        law_decimal_text_is_its_bytes(n / 10);
        assert(decimal(n) =~= decimal_bytes(n).map_values(|b: u8| b as char));
    }
}

} // verus!
