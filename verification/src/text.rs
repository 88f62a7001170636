//! Numbers and canonical identities as text, for identifiers and events.

use vstd::prelude::*;
use vstd::utf8::is_ascii_chars;

verus! {

/// The character of one decimal digit.
pub open spec fn digit_char(d: int) -> char {
    if d == 0 {
        '0'
    } else if d == 1 {
        '1'
    } else if d == 2 {
        '2'
    } else if d == 3 {
        '3'
    } else if d == 4 {
        '4'
    } else if d == 5 {
        '5'
    } else if d == 6 {
        '6'
    } else if d == 7 {
        '7'
    } else if d == 8 {
        '8'
    } else {
        '9'
    }
}

/// A number in decimal, without a sign and without leading zeros.
pub open spec fn decimal(n: nat) -> Seq<char>
    decreases n,
{
    if n < 10 {
        seq![digit_char(n as int)]
    } else {
        decimal(n / 10).push(digit_char((n % 10) as int))
    }
}

fn digit_text(d: u8) -> (s: &'static str)
    requires
        d < 10,
    ensures
        s@ == seq![digit_char(d as int)],
{
    proof {
        reveal_strlit("0");
        reveal_strlit("1");
        reveal_strlit("2");
        reveal_strlit("3");
        reveal_strlit("4");
        reveal_strlit("5");
        reveal_strlit("6");
        reveal_strlit("7");
        reveal_strlit("8");
        reveal_strlit("9");
    }
    let s = if d == 0 {
        "0"
    } else if d == 1 {
        "1"
    } else if d == 2 {
        "2"
    } else if d == 3 {
        "3"
    } else if d == 4 {
        "4"
    } else if d == 5 {
        "5"
    } else if d == 6 {
        "6"
    } else if d == 7 {
        "7"
    } else if d == 8 {
        "8"
    } else {
        "9"
    };
    assert(s@ =~= seq![digit_char(d as int)]);
    s
}

/// The text of a number in decimal.
pub fn decimal_text(n: u128) -> (s: String)
    ensures
        s@ == decimal(n as nat),
{
    let mut digits: Vec<u8> = Vec::new();
    let mut rest: u128 = n;
    let ghost mut low: Seq<char> = Seq::empty();
    while rest >= 10
        invariant
            decimal(n as nat) == decimal(rest as nat) + low,
            low.len() == digits@.len(),
            forall|i: int|
                0 <= i < digits@.len() ==> #[trigger] digits@[i] < 10 && digit_char(
                    digits@[i] as int,
                ) == low[low.len() - 1 - i],
        decreases rest,
    {
        let d: u8 = (rest % 10) as u8;
        proof {
            let c = digit_char(d as int);
            assert(decimal(rest as nat) == decimal((rest / 10) as nat).push(c));
            assert(decimal((rest / 10) as nat).push(c) + low =~= decimal((rest / 10) as nat) + (
            seq![c] + low));
            low = seq![c] + low;
        }
        digits.push(d);
        rest = rest / 10;
    }
    let mut s = String::new();
    s.append(digit_text(rest as u8));
    assert(s@ =~= decimal(rest as nat));
    let mut i: usize = digits.len();
    while i > 0
        invariant
            i <= digits@.len(),
            low.len() == digits@.len(),
            forall|j: int|
                0 <= j < digits@.len() ==> #[trigger] digits@[j] < 10 && digit_char(
                    digits@[j] as int,
                ) == low[low.len() - 1 - j],
            s@ == decimal(rest as nat) + low.take(low.len() - i),
        decreases i,
    {
        i -= 1;
        let ghost before = s@;
        s.append(digit_text(digits[i]));
        proof {
            let at = low.len() - 1 - i;
            assert(low[at] == digit_char(digits@[i as int] as int));
            assert(low.take(at + 1) =~= low.take(at).push(low[at]));
            assert(s@ =~= decimal(rest as nat) + low.take(low.len() - i));
        }
    }
    assert(low.take(low.len() as int) =~= low);
    s
}

/// The character is one of the ten decimal digits.
pub open spec fn is_digit(c: char) -> bool {
    '0' <= c <= '9'
}

/// The number that a decimal digit stands for.
pub open spec fn digit_value(c: char) -> nat {
    if is_digit(c) {
        (c as int - '0' as int) as nat
    } else {
        0
    }
}

/// The text is a number in decimal as `decimal` writes it: at least one digit,
/// nothing but digits, and no zero in front of another digit.
pub open spec fn is_decimal(text: Seq<char>) -> bool {
    &&& text.len() > 0
    &&& forall|i: int| 0 <= i < text.len() ==> is_digit(#[trigger] text[i])
    &&& text.len() > 1 ==> text[0] != '0'
}

/// The number that a text of digits stands for.
pub open spec fn decimal_value(text: Seq<char>) -> nat
    decreases text.len(),
{
    if text.len() == 0 {
        0
    } else {
        decimal_value(text.drop_last()) * 10 + digit_value(text.last())
    }
}

/// What `decimal` writes is a number in decimal, and stands for the number
/// that was written: no two numbers are written alike.
pub proof fn lemma_decimal_value(n: nat)
    ensures
        is_decimal(decimal(n)),
        decimal_value(decimal(n)) == n,
        n > 0 ==> decimal(n)[0] != '0',
    decreases n,
{
    let text = decimal(n);
    if n < 10 {
        assert(text.drop_last() =~= Seq::<char>::empty());
        assert(decimal_value(text.drop_last()) == 0);
        assert(digit_value(digit_char(n as int)) == n);
    } else {
        let front = decimal(n / 10);
        let last = digit_char((n % 10) as int);
        lemma_decimal_value(n / 10);
        assert(text.drop_last() =~= front);
        assert(text.last() == last);
        assert(digit_value(last) == n % 10);
        assert(text[0] == front[0]);
        assert forall|i: int| 0 <= i < text.len() implies is_digit(#[trigger] text[i]) by {
            if i < front.len() {
                assert(text[i] == front[i]);
            }
        }
    }
}

/// Different numbers are written differently.
pub proof fn lemma_decimal_injective(a: nat, b: nat)
    ensures
        decimal(a) == decimal(b) <==> a == b,
{
    lemma_decimal_value(a);
    lemma_decimal_value(b);
}

/// A text of digits stands for no less than any of its beginnings.
proof fn lemma_value_grows(text: Seq<char>, n: int)
    requires
        0 <= n <= text.len(),
    ensures
        decimal_value(text.take(n)) <= decimal_value(text),
    decreases text.len() - n,
{
    if n == text.len() {
        assert(text.take(n) =~= text);
    } else {
        lemma_value_grows(text, n + 1);
        assert(text.take(n + 1).drop_last() =~= text.take(n));
    }
}

/// Reads a number in decimal, as `decimal_text` writes it. A text that is not
/// such a number, or stands for a number that is too large, is refused.
pub fn parse_decimal(text: &str) -> (r: Option<u64>)
    ensures
        r == (if is_decimal(text@) && decimal_value(text@) <= u64::MAX {
            Some(decimal_value(text@) as u64)
        } else {
            None
        }),
{
    if !text.is_ascii() {
        proof {
            if is_decimal(text@) {
                assert forall|i: int| 0 <= i < text@.len() implies '\0' <= #[trigger] text@[i]
                    <= '\u{7f}' by {
                    assert(is_digit(text@[i]));
                }
            }
        }
        return None;
    }
    proof {
        vstd::string::is_ascii_spec_bytes(text);
    }
    let bytes = text.as_bytes();
    let n = bytes.len();
    assert(n == text@.len());
    assert(forall|j: int| 0 <= j < n ==> bytes@[j] == text@[j] as u8);
    if n == 0 {
        return None;
    }
    if n > 1 && bytes[0] == 48u8 {
        assert(text@[0] == '0');
        return None;
    }
    let mut value: u64 = 0;
    let mut i: usize = 0;
    while i < n
        invariant
            i <= n,
            n == text@.len(),
            n == bytes@.len(),
            is_ascii_chars(text@),
            forall|j: int| 0 <= j < n ==> bytes@[j] == text@[j] as u8,
            value == decimal_value(text@.take(i as int)),
            forall|j: int| 0 <= j < i ==> is_digit(#[trigger] text@[j]),
        decreases n - i,
    {
        let b = bytes[i];
        if b < 48u8 || b > 57u8 {
            assert(!is_digit(text@[i as int]));
            return None;
        }
        let d = (b - 48u8) as u64;
        proof {
            assert('\0' <= text@[i as int] <= '\u{7f}');
            assert(is_digit(text@[i as int]));
            assert(digit_value(text@[i as int]) == d);
            assert(text@.take(i + 1).drop_last() =~= text@.take(i as int));
            assert(text@.take(i + 1).last() == text@[i as int]);
            lemma_value_grows(text@, i + 1);
        }
        if value > (u64::MAX - d) / 10 {
            return None;
        }
        value = value * 10 + d;
        i += 1;
    }
    assert(text@.take(n as int) =~= text@);
    Some(value)
}

/// The character of one hexadecimal digit, in upper case.
pub open spec fn hex_char(d: int) -> char {
    if d < 10 {
        digit_char(d)
    } else if d == 10 {
        'A'
    } else if d == 11 {
        'B'
    } else if d == 12 {
        'C'
    } else if d == 13 {
        'D'
    } else if d == 14 {
        'E'
    } else {
        'F'
    }
}

/// Bytes in hexadecimal: two digits in upper case for each byte, the high one
/// first.
pub open spec fn hex_upper(bytes: Seq<u8>) -> Seq<char>
    decreases bytes.len(),
{
    if bytes.len() == 0 {
        Seq::empty()
    } else {
        hex_upper(bytes.drop_last()).push(hex_char(bytes.last() as int / 16)).push(
            hex_char(bytes.last() as int % 16),
        )
    }
}

/// The text under which a canonical identity appears in events: what
/// `cosmwasm_std::CanonicalAddr` prints as, through its `Display` impl.
///
/// This is believed of `CanonicalAddr`'s `Display`, not proved: that it
/// writes each byte as two hexadecimal digits in upper case, the high digit
/// first, and nothing besides.
#[verifier::external_body]
pub(crate) fn canonical_text(id: &Vec<u8>) -> (s: String)
    ensures
        s@ == hex_upper(id@),
{
    cosmwasm_std::CanonicalAddr::from(id.as_slice()).to_string()
}

} // verus!
