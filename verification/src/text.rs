//! Decimal text of unsigned integers: the `Display` form of a `u32` and its
//! parsing back from user input, both as the standard library defines them.
use vstd::prelude::*;
use vstd::string::*;

verus! {

/// The character of a decimal digit.
pub open spec fn digit_char(d: int) -> char {
    (48 + d) as char
}

/// Shortest decimal representation of `n` (`"0"` for zero).
pub open spec fn decimal(n: nat) -> Seq<char>
    decreases n,
{
    if n < 10 {
        seq![digit_char(n as int)]
    } else {
        decimal(n / 10) + seq![digit_char((n % 10) as int)]
    }
}

fn digit_str(d: u32) -> (s: &'static str)
    requires
        d < 10,
    ensures
        s@ == seq![digit_char(d as int)],
{
    proof {
        reveal_strlit("0");
        reveal_strlit("1");
        reveal_strlit("2");
        reveal_strlit("3");
        reveal_strlit("4");
        reveal_strlit("5");
        reveal_strlit("6");
        reveal_strlit("7");
        reveal_strlit("8");
        reveal_strlit("9");
    }
    let s = match d {
        0 => "0",
        1 => "1",
        2 => "2",
        3 => "3",
        4 => "4",
        5 => "5",
        6 => "6",
        7 => "7",
        8 => "8",
        _ => "9",
    };
    assert(s@ =~= seq![digit_char(d as int)]);
    s
}

/// Appends the decimal text of `n` to `s`.
pub fn push_decimal(s: &mut String, n: u32)
    ensures
        final(s)@ == old(s)@ + decimal(n as nat),
    decreases n,
{
    if n >= 10 {
        push_decimal(s, n / 10);
    }
    s.append(digit_str(n % 10));
    assert(final(s)@ =~= old(s)@ + decimal(n as nat));
}

/// Why a text is not the decimal form of a `u32`.
#[derive(Debug, Clone, Copy, PartialEq, Eq, Structural)]
pub enum IntErrorKind {
    Empty,
    InvalidDigit,
    PosOverflow,
}

pub open spec fn is_digit(c: char) -> bool {
    '0' <= c <= '9'
}

/// Reads the digits of `s` after the value `acc` read so far; at each
/// character a non-digit is reported before an overflow.
pub open spec fn parse_digits(s: Seq<char>, acc: int) -> Result<u32, IntErrorKind>
    decreases s.len(),
{
    if s.len() == 0 {
        Ok(acc as u32)
    } else if !is_digit(s[0]) {
        Err(IntErrorKind::InvalidDigit)
    } else if acc * 10 + (s[0] as int - 48) > u32::MAX {
        Err(IntErrorKind::PosOverflow)
    } else {
        parse_digits(s.skip(1), acc * 10 + (s[0] as int - 48))
    }
}

/// What `str::parse::<u32>` gives for a text: an optional `+`, then at
/// least one decimal digit, and a value that fits.
pub open spec fn parse_u32_spec(s: Seq<char>) -> Result<u32, IntErrorKind> {
    if s.len() == 0 {
        Err(IntErrorKind::Empty)
    } else if s.len() == 1 && (s[0] == '+' || s[0] == '-') {
        Err(IntErrorKind::InvalidDigit)
    } else if s[0] == '+' {
        parse_digits(s.skip(1), 0)
    } else {
        parse_digits(s, 0)
    }
}

/// Parses the decimal text of a `u32`.
pub fn parse_u32(s: &str) -> (r: Result<u32, IntErrorKind>)
    ensures
        r == parse_u32_spec(s@),
{
    let len = s.unicode_len();
    if len == 0 {
        return Err(IntErrorKind::Empty);
    }
    let first = s.get_char(0);
    if len == 1 && (first == '+' || first == '-') {
        return Err(IntErrorKind::InvalidDigit);
    }
    let mut i: usize = if first == '+' { 1 } else { 0 };
    let mut acc: u32 = 0;
    assert(s@.skip(0) =~= s@);
    assert(parse_u32_spec(s@) == parse_digits(s@.skip(i as int), 0));
    while i < len
        invariant
            len == s@.len(),
            i <= len,
            acc <= u32::MAX,
            parse_u32_spec(s@) == parse_digits(s@.skip(i as int), acc as int),
        decreases len - i,
    {
        let c = s.get_char(i);
        assert(s@.skip(i as int)[0] == c);
        if !('0' <= c && c <= '9') {
            return Err(IntErrorKind::InvalidDigit);
        }
        let d = (c as u32) - 48;
        if acc > 429496729 || (acc == 429496729 && d > 5) {
            return Err(IntErrorKind::PosOverflow);
        }
        assert(s@.skip(i as int).skip(1) =~= s@.skip(i + 1));
        acc = acc * 10 + d;
        i = i + 1;
    }
    assert(s@.skip(i as int).len() == 0);
    Ok(acc)
}

/// The message that the standard library gives for each parse failure.
pub fn int_error_message(kind: IntErrorKind) -> (m: String)
    ensures
        m@ == match kind {
            IntErrorKind::Empty => "cannot parse integer from empty string"@,
            IntErrorKind::InvalidDigit => "invalid digit found in string"@,
            IntErrorKind::PosOverflow => "number too large to fit in target type"@,
        },
{
    match kind {
        IntErrorKind::Empty => String::from_str("cannot parse integer from empty string"),
        IntErrorKind::InvalidDigit => String::from_str("invalid digit found in string"),
        IntErrorKind::PosOverflow => String::from_str("number too large to fit in target type"),
    }
}

/// Parsing reads back what formatting wrote.
pub proof fn lemma_parse_decimal(n: u32)
    ensures
        parse_u32_spec(decimal(n as nat)) == Ok::<u32, IntErrorKind>(n),
{
    lemma_parse_digits_decimal(n as nat, Seq::<char>::empty());
    assert(decimal(n as nat) + Seq::<char>::empty() =~= decimal(n as nat));
    lemma_decimal_first(n as nat);
}

proof fn lemma_decimal_first(n: nat)
    ensures
        decimal(n).len() >= 1,
        is_digit(decimal(n)[0]),
    decreases n,
{
    if n >= 10 {
        lemma_decimal_first(n / 10);
    }
}

/// Reading the decimal text of `n` followed by `rest` continues from `n`.
proof fn lemma_parse_digits_decimal(n: nat, rest: Seq<char>)
    requires
        n <= u32::MAX,
    ensures
        parse_digits(decimal(n) + rest, 0) == parse_digits(rest, n as int),
    decreases n,
{
    if n < 10 {
        let s = decimal(n) + rest;
        assert(s.skip(1) =~= rest);
        assert(s[0] as int - 48 == n);
    } else {
        let tail = seq![digit_char((n % 10) as int)] + rest;
        lemma_parse_digits_decimal(n / 10, tail);
        assert(decimal(n) + rest =~= decimal(n / 10) + tail);
        assert(tail.skip(1) =~= rest);
        assert(tail[0] as int - 48 == n % 10);
        assert((n / 10) * 10 + n % 10 == n);
    }
}

/// The number that a string of decimal digits denotes, each character
/// standing for its code minus 48 (`'0'` is 48), the last one for the units.
pub open spec fn digits_value(s: Seq<char>) -> int
    decreases s.len(),
{
    if s.len() == 0 {
        0
    } else {
        10 * digits_value(s.drop_last()) + (s.last() as int - 48)
    }
}

/// Every character of `s` is a decimal digit.
pub open spec fn all_digits(s: Seq<char>) -> bool {
    forall|i: int| 0 <= i < s.len() ==> is_digit(#[trigger] s[i])
}

/// The decimal text of `n` is the ordinary base-10 numeral: it is made of
/// digits, denotes `n`, and has no leading zero (zero itself is `"0"`).
pub proof fn lemma_decimal_denotes(n: nat)
    ensures
        decimal(n).len() >= 1,
        all_digits(decimal(n)),
        digits_value(decimal(n)) == n,
        n > 0 ==> decimal(n)[0] != '0',
        n == 0 ==> decimal(n) == seq!['0'],
    decreases n,
{
    if n >= 10 {
        lemma_decimal_denotes(n / 10);
        let d = decimal(n);
        assert(d.drop_last() =~= decimal(n / 10));
        assert(d.last() as int == 48 + n % 10);
        assert((n / 10) * 10 + n % 10 == n);
        assert(digits_value(d) == 10 * digits_value(d.drop_last()) + (d.last() as int - 48));
        assert(d[0] == decimal(n / 10)[0]);
        assert forall|i: int| 0 <= i < d.len() implies is_digit(#[trigger] d[i]) by {
            if i < d.len() - 1 {
                assert(d[i] == decimal(n / 10)[i]);
            }
        }
    } else {
        let d = decimal(n);
        assert(d.drop_last() =~= Seq::<char>::empty());
        assert(d[0] as int == 48 + n);
        assert(d.last() == d[0]);
        assert(digits_value(d) == 10 * digits_value(d.drop_last()) + (d.last() as int - 48));
    }
}

/// Reading digits after a first part continues from what the first part
/// gave.
proof fn lemma_parse_digits_concat(s: Seq<char>, t: Seq<char>, acc: int)
    requires
        0 <= acc <= u32::MAX,
    ensures
        parse_digits(s + t, acc) == match parse_digits(s, acc) {
            Ok(v) => parse_digits(t, v as int),
            Err(e) => Err(e),
        },
    decreases s.len(),
{
    if s.len() == 0 {
        assert(s + t =~= t);
    } else {
        assert((s + t)[0] == s[0]);
        assert((s + t).skip(1) =~= s.skip(1) + t);
        if is_digit(s[0]) && acc * 10 + (s[0] as int - 48) <= u32::MAX {
            lemma_parse_digits_concat(s.skip(1), t, acc * 10 + (s[0] as int - 48));
        }
    }
}

proof fn lemma_parse_digits_value(s: Seq<char>)
    requires
        s.len() >= 1,
        all_digits(s),
    ensures
        digits_value(s) >= 0,
        parse_digits(s, 0) == (if digits_value(s) <= u32::MAX {
            Ok::<u32, IntErrorKind>(digits_value(s) as u32)
        } else {
            Err::<u32, IntErrorKind>(IntErrorKind::PosOverflow)
        }),
    decreases s.len(),
{
    let p = s.drop_last();
    let c = s.last();
    assert(is_digit(s[s.len() - 1]));
    assert(s =~= p + seq![c]);
    let d = c as int - 48;
    assert(0 <= d <= 9);
    assert(digits_value(s) == 10 * digits_value(p) + d);
    assert(seq![c].skip(1) =~= Seq::<char>::empty());
    assert(seq![c][0] == c);
    if p.len() == 0 {
        assert(digits_value(p) == 0);
        lemma_parse_digits_concat(p, seq![c], 0);
        assert(parse_digits(p, 0) == Ok::<u32, IntErrorKind>(0));
        assert(parse_digits(seq![c], 0) == parse_digits(Seq::<char>::empty(), d));
    } else {
        assert forall|i: int| 0 <= i < p.len() implies is_digit(#[trigger] p[i]) by {
            assert(p[i] == s[i]);
        }
        lemma_parse_digits_value(p);
        lemma_parse_digits_concat(p, seq![c], 0);
        let v = digits_value(p);
        if v <= u32::MAX {
            assert((v as u32) as int == v);
            if v * 10 + d <= u32::MAX {
                assert(parse_digits(seq![c], v) == parse_digits(Seq::<char>::empty(), v * 10 + d));
            } else {
                assert(parse_digits(seq![c], v) == Err::<u32, IntErrorKind>(IntErrorKind::PosOverflow));
            }
        }
    }
}

/// Parsing reads the number that the digits denote: a text of decimal
/// digits, with or without a leading `+`, gives the number it denotes when
/// that fits in a `u32` and an overflow error otherwise.
pub proof fn lemma_parse_u32_denotes(s: Seq<char>)
    requires
        s.len() >= 1,
        all_digits(s),
    ensures
        parse_u32_spec(s) == (if digits_value(s) <= u32::MAX {
            Ok::<u32, IntErrorKind>(digits_value(s) as u32)
        } else {
            Err::<u32, IntErrorKind>(IntErrorKind::PosOverflow)
        }),
        parse_u32_spec(seq!['+'] + s) == parse_u32_spec(s),
{
    lemma_parse_digits_value(s);
    assert(is_digit(s[0]));
    assert((seq!['+'] + s)[0] == '+');
    assert((seq!['+'] + s).skip(1) =~= s);
}

} // verus!
