//! The lexer: classifies one raw argument string as a number token (Arabic
//! digits or a Roman numeral, both valued 1..=10), an operator token, or a
//! lexing error.
use vstd::prelude::*;

verus! {

use crate::decimal::{is_digit, digit_val, all_digits, digits_val, int_str};
use crate::decimal::i8_to_string;

/// One classified argument. `Unknown` is transient: the lexer always turns it
/// into an error, so a token that leaves the lexer successfully is a number
/// valued 1..=10 or one of the four operators.
#[derive(Debug)]
pub enum Token {
    Arabic(i8),
    Roman(i8),
    Plus,
    Minus,
    Multiplication,
    Division,
    Unknown(String),
}

/// Why a raw argument was rejected: an integer outside 1..=10, or text that is
/// neither a known symbol nor an integer.
#[derive(Debug)]
pub enum LexerError {
    NumberIsNotAllowed(i8),
    UnknownToken(String),
}

/// What two equal tokens are: equal payloads under the same variant, with
/// string payloads compared by their characters.
pub open spec fn token_eq(a: Token, b: Token) -> bool {
    match (a, b) {
        (Token::Arabic(x), Token::Arabic(y)) => x == y,
        (Token::Roman(x), Token::Roman(y)) => x == y,
        (Token::Plus, Token::Plus) => true,
        (Token::Minus, Token::Minus) => true,
        (Token::Multiplication, Token::Multiplication) => true,
        (Token::Division, Token::Division) => true,
        (Token::Unknown(x), Token::Unknown(y)) => x@ == y@,
        _ => false,
    }
}

impl PartialEq for Token {
    fn eq(&self, other: &Token) -> (r: bool) {
        match (self, other) {
            (Token::Arabic(x), Token::Arabic(y)) => *x == *y,
            (Token::Roman(x), Token::Roman(y)) => *x == *y,
            (Token::Plus, Token::Plus) => true,
            (Token::Minus, Token::Minus) => true,
            (Token::Multiplication, Token::Multiplication) => true,
            (Token::Division, Token::Division) => true,
            (Token::Unknown(x), Token::Unknown(y)) => *x == *y,
            _ => false,
        }
    }
}

impl vstd::std_specs::cmp::PartialEqSpecImpl for Token {
    open spec fn obeys_eq_spec() -> bool {
        true
    }

    open spec fn eq_spec(&self, other: &Token) -> bool {
        token_eq(*self, *other)
    }
}

impl Clone for Token {
    fn clone(&self) -> (r: Token)
        ensures
            r == *self,
    {
        match self {
            Token::Arabic(n) => Token::Arabic(*n),
            Token::Roman(n) => Token::Roman(*n),
            Token::Plus => Token::Plus,
            Token::Minus => Token::Minus,
            Token::Multiplication => Token::Multiplication,
            Token::Division => Token::Division,
            Token::Unknown(s) => Token::Unknown(s.clone()),
        }
    }
}

/// What two equal lexer errors are.
pub open spec fn lexer_error_eq(a: LexerError, b: LexerError) -> bool {
    match (a, b) {
        (LexerError::NumberIsNotAllowed(x), LexerError::NumberIsNotAllowed(y)) => x == y,
        (LexerError::UnknownToken(x), LexerError::UnknownToken(y)) => x@ == y@,
        _ => false,
    }
}

impl PartialEq for LexerError {
    fn eq(&self, other: &LexerError) -> (r: bool) {
        match (self, other) {
            (LexerError::NumberIsNotAllowed(x), LexerError::NumberIsNotAllowed(y)) => *x == *y,
            (LexerError::UnknownToken(x), LexerError::UnknownToken(y)) => *x == *y,
            _ => false,
        }
    }
}

impl vstd::std_specs::cmp::PartialEqSpecImpl for LexerError {
    open spec fn obeys_eq_spec() -> bool {
        true
    }

    open spec fn eq_spec(&self, other: &LexerError) -> bool {
        lexer_error_eq(*self, *other)
    }
}

/// The fixed symbol table: the four operators and the Roman numerals I..=X.
/// Any other string falls through to integer parsing.
pub open spec fn spec_symbol(s: Seq<char>) -> Option<Token> {
    if s == "+"@ {
        Some(Token::Plus)
    } else if s == "-"@ {
        Some(Token::Minus)
    } else if s == "*"@ {
        Some(Token::Multiplication)
    } else if s == "/"@ {
        Some(Token::Division)
    } else if s == "I"@ {
        Some(Token::Roman(1))
    } else if s == "II"@ {
        Some(Token::Roman(2))
    } else if s == "III"@ {
        Some(Token::Roman(3))
    } else if s == "IV"@ {
        Some(Token::Roman(4))
    } else if s == "V"@ {
        Some(Token::Roman(5))
    } else if s == "VI"@ {
        Some(Token::Roman(6))
    } else if s == "VII"@ {
        Some(Token::Roman(7))
    } else if s == "VIII"@ {
        Some(Token::Roman(8))
    } else if s == "IX"@ {
        Some(Token::Roman(9))
    } else if s == "X"@ {
        Some(Token::Roman(10))
    } else {
        None
    }
}

/// The integer a string denotes: an optional sign followed by one or more
/// decimal digits, with no width restriction.
pub open spec fn spec_int_literal(s: Seq<char>) -> Option<int> {
    if s.len() > 0 && (s[0] == '+' || s[0] == '-') {
        let body = s.subrange(1, s.len() as int);
        if body.len() > 0 && all_digits(body) {
            if s[0] == '-' {
                Some(-digits_val(body))
            } else {
                Some(digits_val(body))
            }
        } else {
            None
        }
    } else if s.len() > 0 && all_digits(s) {
        Some(digits_val(s))
    } else {
        None
    }
}

/// The integer a string denotes when it fits a signed byte, as `str::parse`
/// for a signed 8-bit target accepts it; `None` otherwise.
pub open spec fn spec_parse_i8(s: Seq<char>) -> Option<int> {
    match spec_int_literal(s) {
        Some(v) => if -128 <= v <= 127 {
            Some(v)
        } else {
            None
        },
        None => None,
    }
}

/// Rendering any signed-byte value in decimal and reading it back through
/// the lexer's integer grammar yields the same value: the renderer and the
/// grammar agree on every value the calculator can produce.
pub proof fn lemma_decimal_round_trip(n: int)
    requires
        -128 <= n <= 127,
    ensures
        spec_parse_i8(int_str(n)) == Some(n),
{
    if n >= 0 {
        crate::decimal::lemma_dec_digits_are_digits(n);
        crate::decimal::lemma_dec_digits_value(n);
        let s = int_str(n);
        assert(is_digit(s[0]));
        assert(s[0] != '+' && s[0] != '-');
        assert(spec_int_literal(s) == Some(n));
    } else {
        crate::decimal::lemma_dec_digits_are_digits(-n);
        crate::decimal::lemma_dec_digits_value(-n);
        let s = int_str(n);
        assert(s[0] == '-');
        assert(s.subrange(1, s.len() as int) =~= crate::decimal::dec_digits(-n));
        assert(spec_int_literal(s) == Some(n));
    }
}

/// Character-by-character string equality.
fn str_eq(a: &str, b: &str) -> (r: bool)
    ensures
        r == (a@ == b@),
{
    let alen = a.unicode_len();
    let blen = b.unicode_len();
    if alen != blen {
        return false;
    }
    let mut i: usize = 0;
    while i < alen
        invariant
            i <= alen,
            alen == a@.len(),
            alen == b@.len(),
            forall|j: int| 0 <= j < i ==> a@[j] == b@[j],
        decreases alen - i,
    {
        if a.get_char(i) != b.get_char(i) {
            return false;
        }
        i += 1;
    }
    proof {
        assert(a@ =~= b@);
    }
    true
}

/// Parses a string as a signed byte: an optional sign, then decimal digits,
/// the value fitting in -128..=127. Returns exactly what `spec_parse_i8`
/// allows.
fn parse_i8(s: &str) -> (r: Option<i8>)
    ensures
        spec_parse_i8(s@) matches Some(v) ==> (r matches Some(x) && x as int == v),
        spec_parse_i8(s@) is None ==> r is None,
{
    let len = s.unicode_len();
    if len == 0 {
        return None;
    }
    let first = s.get_char(0);
    let has_sign = first == '-' || first == '+';
    let start: usize = if has_sign {
        1
    } else {
        0
    };
    if start == len {
        return None;
    }
    let ghost body = s@.subrange(start as int, len as int);
    let mut i: usize = start;
    let mut acc: u32 = 0;
    while i < len
        invariant
            start <= i <= len,
            len == s@.len(),
            len > 0,
            has_sign == (s@[0] == '+' || s@[0] == '-'),
            start == (if has_sign { 1int } else { 0int }),
            start < len,
            forall|j: int| start <= j < i ==> is_digit(s@[j]),
            all_digits(s@.subrange(start as int, i as int)),
            ({
                let v = digits_val(s@.subrange(start as int, i as int));
                (v <= 128 ==> acc == v) && (v > 128 ==> acc > 128)
            }),
            acc <= 1289,
        decreases len - i,
    {
        let c = s.get_char(i);
        if c < '0' || c > '9' {
            proof {
                let sub = s@.subrange(start as int, len as int);
                assert(sub[i as int - start as int] == s@[i as int]);
                assert(!all_digits(sub));
                if start == 0 {
                    assert(sub =~= s@);
                } else {
                    assert(sub =~= s@.subrange(1, s@.len() as int));
                }
            }
            return None;
        }
        let d: u32 = (c as u32) - 48;
        proof {
            let pre = s@.subrange(start as int, i as int);
            let post = s@.subrange(start as int, i as int + 1);
            assert(post.drop_last() =~= pre);
            assert(post.last() == s@[i as int]);
            assert(digit_val(s@[i as int]) == d);
            crate::decimal::lemma_digits_val_nonneg(pre);
        }
        if acc <= 128 {
            acc = acc * 10 + d;
        }
        i += 1;
    }
    proof {
        assert(all_digits(body));
        crate::decimal::lemma_digits_val_nonneg(body);
        if start == 0 {
            assert(body =~= s@);
        }
        let dv = digits_val(body);
        assert(dv <= 128 ==> acc == dv);
        assert(dv > 128 ==> acc > 128);
    }
    if has_sign && first == '-' {
        if acc <= 128 {
            let m: i32 = -(acc as i32);
            Some(m as i8)
        } else {
            None
        }
    } else {
        if acc <= 127 {
            Some(acc as i8)
        } else {
            None
        }
    }
}

/// A token the lexer can emit successfully: a number valued 1..=10 or one of
/// the four operators, never `Unknown`.
pub open spec fn wf_token(t: Token) -> bool {
    match t {
        Token::Arabic(n) => 1 <= n <= 10,
        Token::Roman(n) => 1 <= n <= 10,
        Token::Unknown(_) => false,
        _ => true,
    }
}

/// Classifies one raw argument: an exact symbol-table match first, then an
/// integer accepted only in 1..=10, and anything else an unknown token.
pub fn to_token(string: &str) -> (r: Result<Token, LexerError>)
    ensures
        spec_symbol(string@) matches Some(t) ==> r == Ok::<Token, LexerError>(t),
        spec_parse_i8(string@) matches Some(v) ==> ((spec_symbol(string@) is None && 1 <= v <= 10)
            ==> r == Ok::<Token, LexerError>(Token::Arabic(v as i8))),
        spec_parse_i8(string@) matches Some(v) ==> ((spec_symbol(string@) is None && !(1 <= v
            <= 10)) ==> r == Err::<Token, LexerError>(LexerError::NumberIsNotAllowed(v as i8))),
        (spec_symbol(string@) is None && spec_parse_i8(string@) is None) ==> (r matches Err(e)
            && e matches LexerError::UnknownToken(u) && u@ == string@),
        r matches Ok(t) ==> wf_token(t),
{
    if str_eq(string, "+") {
        Ok(Token::Plus)
    } else if str_eq(string, "-") {
        Ok(Token::Minus)
    } else if str_eq(string, "*") {
        Ok(Token::Multiplication)
    } else if str_eq(string, "/") {
        Ok(Token::Division)
    } else if str_eq(string, "I") {
        Ok(Token::Roman(1))
    } else if str_eq(string, "II") {
        Ok(Token::Roman(2))
    } else if str_eq(string, "III") {
        Ok(Token::Roman(3))
    } else if str_eq(string, "IV") {
        Ok(Token::Roman(4))
    } else if str_eq(string, "V") {
        Ok(Token::Roman(5))
    } else if str_eq(string, "VI") {
        Ok(Token::Roman(6))
    } else if str_eq(string, "VII") {
        Ok(Token::Roman(7))
    } else if str_eq(string, "VIII") {
        Ok(Token::Roman(8))
    } else if str_eq(string, "IX") {
        Ok(Token::Roman(9))
    } else if str_eq(string, "X") {
        Ok(Token::Roman(10))
    } else {
        match parse_i8(string) {
            Some(number) => if 0 < number && number <= 10 {
                Ok(Token::Arabic(number))
            } else {
                Err(LexerError::NumberIsNotAllowed(number))
            },
            None => Err(LexerError::UnknownToken(string.to_owned())),
        }
    }
}

/// The canonical numeral for a value in 1..=10.
pub open spec fn roman_text(n: int) -> Seq<char>
    recommends
        1 <= n <= 10,
{
    if n == 1 {
        "I"@
    } else if n == 2 {
        "II"@
    } else if n == 3 {
        "III"@
    } else if n == 4 {
        "IV"@
    } else if n == 5 {
        "V"@
    } else if n == 6 {
        "VI"@
    } else if n == 7 {
        "VII"@
    } else if n == 8 {
        "VIII"@
    } else if n == 9 {
        "IX"@
    } else {
        "X"@
    }
}

/// The display text of a token: decimal digits for an Arabic number, the
/// canonical numeral for a Roman number in range (its decimal value
/// otherwise), the operator's symbol, or the raw text of an unknown token.
pub open spec fn spec_token_text(t: Token) -> Seq<char> {
    match t {
        Token::Arabic(n) => int_str(n as int),
        Token::Roman(n) => if 1 <= n <= 10 {
            roman_text(n as int)
        } else {
            int_str(n as int)
        },
        Token::Plus => "+"@,
        Token::Minus => "-"@,
        Token::Multiplication => "*"@,
        Token::Division => "/"@,
        Token::Unknown(s) => s@,
    }
}

impl Token {
    /// Renders the token as the text the error messages quote.
    pub fn text(&self) -> (r: String)
        ensures
            r@ == spec_token_text(*self),
    {
        match self {
            Token::Arabic(n) => i8_to_string(*n),
            Token::Roman(n) => {
                let v = *n;
                if v == 1 {
                    String::from_str("I")
                } else if v == 2 {
                    String::from_str("II")
                } else if v == 3 {
                    String::from_str("III")
                } else if v == 4 {
                    String::from_str("IV")
                } else if v == 5 {
                    String::from_str("V")
                } else if v == 6 {
                    String::from_str("VI")
                } else if v == 7 {
                    String::from_str("VII")
                } else if v == 8 {
                    String::from_str("VIII")
                } else if v == 9 {
                    String::from_str("IX")
                } else if v == 10 {
                    String::from_str("X")
                } else {
                    i8_to_string(v)
                }
            },
            Token::Plus => String::from_str("+"),
            Token::Minus => String::from_str("-"),
            Token::Multiplication => String::from_str("*"),
            Token::Division => String::from_str("/"),
            Token::Unknown(s) => s.clone(),
        }
    }
}

/// The message for a lexer error, as the driver prints it.
pub open spec fn spec_lexer_message(e: LexerError) -> Seq<char> {
    match e {
        LexerError::NumberIsNotAllowed(n) => "number '"@ + int_str(n as int)
            + "' is not allowed, one should use number between 1 and 10"@,
        LexerError::UnknownToken(s) => "unknown token '"@ + s@ + "'"@,
    }
}

impl LexerError {
    /// Renders the error's message.
    pub fn message(&self) -> (r: String)
        ensures
            r@ == spec_lexer_message(*self),
    {
        match self {
            LexerError::NumberIsNotAllowed(n) => {
                let mut m = String::from_str("number '");
                m.append(i8_to_string(*n).as_str());
                m.append("' is not allowed, one should use number between 1 and 10");
                m
            },
            LexerError::UnknownToken(s) => {
                let mut m = String::from_str("unknown token '");
                m.append(s.as_str());
                m.append("'");
                m
            },
        }
    }
}

} // verus!
