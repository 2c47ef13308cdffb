//! The session cookie: its name, and the text by which a token travels in
//! it.

use crate::session::Token;
use vstd::prelude::*;
use vstd::string::StringExecFns;
use vstd::utf8::{is_ascii_chars, is_ascii_chars_encode_utf8};

verus! {

/// The name of the cookie that carries the session token.
pub const SESSION_COOKIE: &'static str = "user_id";

/// The character for a decimal digit.
pub open spec fn digit(d: int) -> char {
    if d == 0 {
        '0'
    } else if d == 1 {
        '1'
    } else if d == 2 {
        '2'
    } else if d == 3 {
        '3'
    } else if d == 4 {
        '4'
    } else if d == 5 {
        '5'
    } else if d == 6 {
        '6'
    } else if d == 7 {
        '7'
    } else if d == 8 {
        '8'
    } else {
        '9'
    }
}

/// Whether a character is a decimal digit.
pub open spec fn is_digit(c: char) -> bool {
    '0' <= c <= '9'
}

/// The number that a decimal digit stands for.
pub open spec fn digit_value(c: char) -> int {
    c as u8 - 48
}

/// Whether every character is a decimal digit.
pub open spec fn all_digits(text: Seq<char>) -> bool {
    forall|i: int| 0 <= i < text.len() ==> is_digit(#[trigger] text[i])
}

/// The decimal numeral of a natural number, without leading zeros.
pub open spec fn decimal(n: nat) -> Seq<char>
    decreases n,
{
    if n < 10 {
        seq![digit(n as int)]
    } else {
        decimal(n / 10).push(digit((n % 10) as int))
    }
}

/// The number that a run of decimal digits stands for.
pub open spec fn number_of(digits: Seq<char>) -> nat
    decreases digits.len(),
{
    if digits.len() == 0 {
        0
    } else {
        (number_of(digits.drop_last()) * 10 + digit_value(digits.last())) as nat
    }
}

/// The text of the token that is bound to `user`: the decimal numeral of
/// the identifier, with a minus sign in front of a negative one.
pub open spec fn token_text(user: int) -> Seq<char> {
    if user < 0 {
        seq!['-'] + decimal((-user) as nat)
    } else {
        decimal(user as nat)
    }
}

/// A decimal numeral is a non-empty run of digits that stands for its
/// number.
pub proof fn lemma_decimal_reads_back(n: nat)
    ensures
        decimal(n).len() >= 1,
        all_digits(decimal(n)),
        number_of(decimal(n)) == n,
    decreases n,
{
    if n < 10 {
        assert(number_of(decimal(n).drop_last()) == 0);
    } else {
        lemma_decimal_reads_back(n / 10);
        assert(decimal(n).drop_last() =~= decimal(n / 10));
    }
}

/// The digits read so far never stand for more than all of them.
pub proof fn lemma_prefix_is_no_larger(digits: Seq<char>, i: int)
    requires
        all_digits(digits),
        0 <= i <= digits.len(),
    ensures
        number_of(digits.take(i)) <= number_of(digits),
    decreases digits.len() - i,
{
    if i < digits.len() {
        lemma_prefix_is_no_larger(digits, i + 1);
        assert(digits.take(i + 1).drop_last() =~= digits.take(i));
    } else {
        assert(digits.take(i) =~= digits);
    }
}

/// How the text of a token reads: a negative identifier as a minus sign
/// and the digits of its magnitude, any other as its digits alone.
pub proof fn lemma_token_text_reads_back(user: int)
    ensures
        user < 0 ==> {
            &&& token_text(user).len() >= 2
            &&& token_text(user)[0] == '-'
            &&& all_digits(token_text(user).skip(1))
            &&& number_of(token_text(user).skip(1)) == -user
        },
        user >= 0 ==> {
            &&& token_text(user).len() >= 1
            &&& all_digits(token_text(user))
            &&& number_of(token_text(user)) == user
        },
{
    if user < 0 {
        lemma_decimal_reads_back((-user) as nat);
        assert(token_text(user).skip(1) =~= decimal((-user) as nat));
    } else {
        lemma_decimal_reads_back(user as nat);
    }
}

/// Different identifiers have different texts.
pub proof fn lemma_token_text_is_injective(a: int, b: int)
    requires
        token_text(a) == token_text(b),
    ensures
        a == b,
{
    lemma_token_text_reads_back(a);
    lemma_token_text_reads_back(b);
}

/// The one-letter text of a decimal digit.
fn digit_text(d: u32) -> (text: &'static str)
    requires
        d < 10,
    ensures
        text@ == seq![digit(d as int)],
{
    proof {
        reveal_strlit("0");
        reveal_strlit("1");
        reveal_strlit("2");
        reveal_strlit("3");
        reveal_strlit("4");
        reveal_strlit("5");
        reveal_strlit("6");
        reveal_strlit("7");
        reveal_strlit("8");
        reveal_strlit("9");
    }
    let text = if d == 0 {
        "0"
    } else if d == 1 {
        "1"
    } else if d == 2 {
        "2"
    } else if d == 3 {
        "3"
    } else if d == 4 {
        "4"
    } else if d == 5 {
        "5"
    } else if d == 6 {
        "6"
    } else if d == 7 {
        "7"
    } else if d == 8 {
        "8"
    } else {
        "9"
    };
    text
}

/// Appends the decimal numeral of `n` to `out`.
fn push_decimal(n: u32, out: &mut String)
    ensures
        final(out)@ == old(out)@ + decimal(n as nat),
    decreases n,
{
    if n >= 10 {
        push_decimal(n / 10, out);
    }
    out.append(digit_text(n % 10));
}

impl Token {
    /// The text by which the token travels in the session cookie.
    pub fn value(&self) -> (text: String)
        ensures
            text@ == token_text(self@),
    {
        let id = self.user_id();
        let mut text = String::new();
        if id < 0 {
            proof {
                reveal_strlit("-");
            }
            text.append("-");
            let magnitude: u32 = if id == i32::MIN {
                2147483648u32
            } else {
                (-id) as u32
            };
            push_decimal(magnitude, &mut text);
        } else {
            push_decimal(id as u32, &mut text);
        }
        text
    }

    /// The token that travels as `text`, if `text` is the text of a token.
    pub fn from_value(text: &str) -> (token: Option<Token>)
        ensures
            match token {
                Some(token) => text@ == token_text(token@),
                None => forall|user: int|
                    i32::MIN <= user <= i32::MAX ==> text@ != #[trigger] token_text(user),
            },
    {
        match read_number(text) {
            Some(user_id) => {
                let token = Token::bound_to(user_id);
                let canonical = token.value();
                let given: String = text.to_owned();
                if canonical == given {
                    Some(token)
                } else {
                    assert forall|user: int| i32::MIN <= user <= i32::MAX implies text@
                        != #[trigger] token_text(user) by {
                        if text@ == token_text(user) {
                            lemma_reading_is_exact(text@, user);
                        }
                    }
                    None
                }
            },
            None => None,
        }
    }
}

/// The number that a text stands for when it is read as an optional minus
/// sign and a run of digits.
pub open spec fn reading(text: Seq<char>) -> int {
    if text.len() > 0 && text[0] == '-' {
        -(number_of(text.skip(1)) as int)
    } else {
        number_of(text) as int
    }
}

/// The text of an identifier reads as that identifier.
pub proof fn lemma_reading_is_exact(text: Seq<char>, user: int)
    requires
        text == token_text(user),
    ensures
        reading(text) == user,
{
    lemma_token_text_reads_back(user);
}

/// Reads an optional minus sign and a run of digits as an identifier. The
/// answer is `None` only for a text that is the text of no token.
fn read_number(text: &str) -> (number: Option<i32>)
    ensures
        match number {
            Some(n) => n == reading(text@),
            None => forall|user: int|
                i32::MIN <= user <= i32::MAX ==> text@ != #[trigger] token_text(user),
        },
{
    if !text.is_ascii() {
        assert forall|user: int| i32::MIN <= user <= i32::MAX implies text@ != #[trigger] token_text(
            user,
        ) by {
            if text@ == token_text(user) {
                lemma_token_text_reads_back(user);
                assert forall|i: int| 0 <= i < text@.len() implies '\0' <= #[trigger] text@[i]
                    <= '\u{7f}' by {
                    if user < 0 && i > 0 {
                        assert(is_digit(text@.skip(1)[i - 1]));
                    }
                }
            }
        }
        return None;
    }
    let bytes = text.as_bytes();
    proof {
        is_ascii_chars_encode_utf8(text@);
    }
    let negative = bytes.len() > 0 && bytes[0] == 45u8;
    let start: usize = if negative {
        1
    } else {
        0
    };
    let ghost digits = text@.skip(start as int);
    assert(negative <==> (text@.len() > 0 && text@[0] == '-'));
    if bytes.len() == start {
        assert forall|user: int| i32::MIN <= user <= i32::MAX implies text@ != #[trigger] token_text(
            user,
        ) by {
            lemma_token_text_reads_back(user);
        }
        return None;
    }
    let mut total: i64 = 0;
    let mut i: usize = start;
    while i < bytes.len()
        invariant
            start <= i <= bytes.len(),
            start <= 1,
            bytes@.len() == text@.len(),
            is_ascii_chars(text@),
            forall|j: int| 0 <= j < text@.len() ==> text@[j] as u8 == #[trigger] bytes@[j],
            digits == text@.skip(start as int),
            total == number_of(digits.take(i - start)),
            0 <= total <= 2147483648,
            negative <==> (text@.len() > 0 && text@[0] == '-'),
            negative <==> start == 1,
        decreases bytes.len() - i,
    {
        let byte = bytes[i];
        if byte < 48 || byte > 57 {
            assert forall|user: int| i32::MIN <= user <= i32::MAX implies text@
                != #[trigger] token_text(user) by {
                lemma_token_text_reads_back(user);
                if text@ == token_text(user) && user < 0 {
                    assert(is_digit(text@.skip(1)[i - 1]));
                }
            }
            return None;
        }
        let next = total * 10 + (byte - 48) as i64;
        assert(next == number_of(digits.take(i - start + 1))) by {
            assert(digits.take(i - start + 1).drop_last() =~= digits.take(i - start));
        }
        if next > 2147483648 {
            assert forall|user: int| i32::MIN <= user <= i32::MAX implies text@
                != #[trigger] token_text(user) by {
                lemma_token_text_reads_back(user);
                if text@ == token_text(user) {
                    if user >= 0 {
                        assert(digits =~= text@);
                    }
                    lemma_prefix_is_no_larger(digits, i - start + 1);
                }
            }
            return None;
        }
        total = next;
        i += 1;
    }
    assert(digits.take(i - start) =~= digits);
    assert(text@.skip(0) =~= text@);
    let signed = if negative {
        -total
    } else {
        total
    };
    if signed < -2147483648 || signed > 2147483647 {
        assert forall|user: int| i32::MIN <= user <= i32::MAX implies text@ != #[trigger] token_text(
            user,
        ) by {
            if text@ == token_text(user) {
                lemma_reading_is_exact(text@, user);
            }
        }
        return None;
    }
    Some(signed as i32)
}

/// A token survives the journey through the cookie: its text is read back
/// as the same token, and no other token has that text.
pub proof fn lemma_token_round_trip(token: Token, other: Token)
    ensures
        reading(token_text(token@)) == token@,
        token_text(token@) == token_text(other@) ==> token == other,
{
    lemma_reading_is_exact(token_text(token@), token@);
    if token_text(token@) == token_text(other@) {
        lemma_token_text_is_injective(token@, other@);
        crate::session::lemma_token_is_its_user(token, other);
    }
}

} // verus!
