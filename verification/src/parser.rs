//! The parser: validates that a token sequence has exactly the shape
//! number, operator, number, and assembles the calculation it denotes.
use vstd::prelude::*;

verus! {

use crate::lexer::{Token, token_eq, spec_token_text};
use crate::decimal::dec_digits;

/// The four arithmetic operations a calculation can apply.
#[derive(Clone, Copy, Debug, PartialEq, Eq, Structural)]
pub enum Operator {
    Plus,
    Minus,
    Multiplication,
    Division,
}

/// A validated calculation: two operands and the operation to apply.
#[derive(Clone, Copy, Debug, PartialEq, Eq, Structural)]
pub struct Calculation {
    pub left: i8,
    pub right: i8,
    pub operator: Operator,
}

/// Why a token sequence was rejected: the wrong number of tokens, or a token
/// of the wrong kind at some position, quoted along with what was expected.
#[derive(Debug)]
pub enum ParserError {
    InvalidNumberOfArguments(usize),
    InvalidArgument(Token, String),
}

/// What two equal parser errors are.
pub open spec fn parser_error_eq(a: ParserError, b: ParserError) -> bool {
    match (a, b) {
        (ParserError::InvalidNumberOfArguments(x), ParserError::InvalidNumberOfArguments(y)) => x
            == y,
        (ParserError::InvalidArgument(t, d), ParserError::InvalidArgument(u, e)) => token_eq(t, u)
            && d@ == e@,
        _ => false,
    }
}

impl PartialEq for ParserError {
    fn eq(&self, other: &ParserError) -> (r: bool) {
        match (self, other) {
            (
                ParserError::InvalidNumberOfArguments(x),
                ParserError::InvalidNumberOfArguments(y),
            ) => *x == *y,
            (ParserError::InvalidArgument(t, d), ParserError::InvalidArgument(u, e)) => *t == *u
                && *d == *e,
            _ => false,
        }
    }
}

impl vstd::std_specs::cmp::PartialEqSpecImpl for ParserError {
    open spec fn obeys_eq_spec() -> bool {
        true
    }

    open spec fn eq_spec(&self, other: &ParserError) -> bool {
        parser_error_eq(*self, *other)
    }
}

/// True of the tokens that can stand as an operand.
pub open spec fn is_number_token(t: Token) -> bool {
    t matches Token::Arabic(_) || t matches Token::Roman(_)
}

/// The operand value a number token carries.
pub open spec fn number_value(t: Token) -> int
    recommends
        is_number_token(t),
{
    match t {
        Token::Arabic(n) => n as int,
        Token::Roman(n) => n as int,
        _ => 0,
    }
}

/// The operation an operator token stands for; `None` for any other token.
pub open spec fn operator_of(t: Token) -> Option<Operator> {
    match t {
        Token::Plus => Some(Operator::Plus),
        Token::Minus => Some(Operator::Minus),
        Token::Multiplication => Some(Operator::Multiplication),
        Token::Division => Some(Operator::Division),
        _ => None,
    }
}

/// Integer division truncated toward zero, as machine division rounds it.
pub open spec fn div_trunc(a: int, b: int) -> int
    recommends
        b != 0,
{
    if a == 0 {
        0
    } else if a > 0 && b > 0 {
        a / b
    } else if a < 0 && b < 0 {
        (a * -1) / (b * -1)
    } else if a < 0 {
        ((a * -1) / b) * -1
    } else {
        (a / (b * -1)) * -1
    }
}

/// The mathematical result of applying an operation to two operands.
pub open spec fn spec_op_value(op: Operator, a: int, b: int) -> int
    recommends
        op is Division ==> b != 0,
{
    match op {
        Operator::Plus => a + b,
        Operator::Minus => a - b,
        Operator::Multiplication => a * b,
        Operator::Division => div_trunc(a, b),
    }
}

/// The mathematical result of a calculation.
pub open spec fn spec_execute(c: Calculation) -> int {
    spec_op_value(c.operator, c.left as int, c.right as int)
}

/// The inputs on which executing a calculation is defined: no division by
/// zero, and a result that fits the signed 8-bit operand type.
pub open spec fn can_execute(c: Calculation) -> bool {
    &&& c.operator is Division ==> c.right != 0
    &&& i8::MIN <= spec_execute(c) <= i8::MAX
}

impl Calculation {
    /// Applies the operation to the two operands with signed 8-bit
    /// arithmetic, division truncating toward zero.
    pub fn execute(&self) -> (r: i8)
        requires
            can_execute(*self),
        ensures
            r as int == spec_execute(*self),
    {
        match self.operator {
            Operator::Plus => self.left + self.right,
            Operator::Minus => self.left - self.right,
            Operator::Multiplication => self.left * self.right,
            Operator::Division => match self.left.checked_div(self.right) {
                Some(v) => v,
                None => {
                    proof {
                        assert(false);
                    }
                    0
                },
            },
        }
    }
}

/// Any calculation whose operands came from lexed number tokens, which are
/// always valued 1..=10, can be executed: the result of each of the four
/// operations stays within the signed 8-bit range, and the divisor is never
/// zero.
pub proof fn lemma_lexed_calculation_executes(c: Calculation)
    requires
        1 <= c.left <= 10,
        1 <= c.right <= 10,
    ensures
        can_execute(c),
{
    match c.operator {
        Operator::Multiplication => {
            assert(c.left as int * c.right as int <= 100) by (nonlinear_arith)
                requires
                    1 <= c.left <= 10,
                    1 <= c.right <= 10,
            ;
            assert(c.left as int * c.right as int >= 1) by (nonlinear_arith)
                requires
                    1 <= c.left <= 10,
                    1 <= c.right <= 10,
            ;
        },
        Operator::Division => {
            assert(0 <= c.left as int / c.right as int <= 10) by (nonlinear_arith)
                requires
                    1 <= c.left <= 10,
                    1 <= c.right <= 10,
            ;
        },
        _ => {},
    }
}

/// Validates the token sequence's shape: exactly three tokens, a number at
/// each end and an operator in the middle, and assembles the calculation.
pub fn parse(tokens: &Vec<Token>) -> (r: Result<Calculation, ParserError>)
    ensures
        tokens@.len() != 3 ==> r == Err::<Calculation, ParserError>(
            ParserError::InvalidNumberOfArguments(tokens@.len() as usize),
        ),
        (tokens@.len() == 3 && !is_number_token(tokens@[0])) ==> (r matches Err(e)
            && e matches ParserError::InvalidArgument(t, d) && t == tokens@[0] && d@
            == "arabic or roman number from 1 to 10"@),
        (tokens@.len() == 3 && is_number_token(tokens@[0]) && operator_of(tokens@[1]) is None)
            ==> (r matches Err(e) && e matches ParserError::InvalidArgument(t, d) && t
            == tokens@[1] && d@ == "operator (+ - * /)"@),
        (tokens@.len() == 3 && is_number_token(tokens@[0]) && operator_of(tokens@[1]) is Some
            && !is_number_token(tokens@[2])) ==> (r matches Err(e)
            && e matches ParserError::InvalidArgument(t, d) && t == tokens@[2] && d@
            == "arabic or roman number from 1 to 10"@),
        (tokens@.len() == 3 && is_number_token(tokens@[0]) && is_number_token(tokens@[2]))
            ==> (operator_of(tokens@[1]) matches Some(op) ==> r == Ok::<Calculation, ParserError>(
            Calculation {
                left: number_value(tokens@[0]) as i8,
                right: number_value(tokens@[2]) as i8,
                operator: op,
            },
        )),
{
    if tokens.len() != 3 {
        return Err(ParserError::InvalidNumberOfArguments(tokens.len()));
    }
    let left: i8 = match &tokens[0] {
        Token::Arabic(number) => *number,
        Token::Roman(number) => *number,
        _ => {
            return Err(
                ParserError::InvalidArgument(
                    tokens[0].clone(),
                    String::from_str("arabic or roman number from 1 to 10"),
                ),
            );
        },
    };
    let operator = match &tokens[1] {
        Token::Plus => Operator::Plus,
        Token::Minus => Operator::Minus,
        Token::Multiplication => Operator::Multiplication,
        Token::Division => Operator::Division,
        _ => {
            return Err(
                ParserError::InvalidArgument(
                    tokens[1].clone(),
                    String::from_str("operator (+ - * /)"),
                ),
            );
        },
    };
    let right: i8 = match &tokens[2] {
        Token::Arabic(number) => *number,
        Token::Roman(number) => *number,
        _ => {
            return Err(
                ParserError::InvalidArgument(
                    tokens[2].clone(),
                    String::from_str("arabic or roman number from 1 to 10"),
                ),
            );
        },
    };
    Ok(Calculation { left, right, operator })
}

/// The message for a parser error, as the driver prints it.
pub open spec fn spec_parser_message(e: ParserError) -> Seq<char> {
    match e {
        ParserError::InvalidNumberOfArguments(count) => "exactly 3 arguments expected, "@
            + dec_digits(count as int) + " provided instead"@,
        ParserError::InvalidArgument(t, expected) => "invalid argument '"@ + spec_token_text(t)
            + "', "@ + expected@ + " expected"@,
    }
}

impl ParserError {
    /// Renders the error's message.
    pub fn message(&self) -> (r: String)
        ensures
            r@ == spec_parser_message(*self),
    {
        match self {
            ParserError::InvalidNumberOfArguments(count) => {
                let mut m = String::from_str("exactly 3 arguments expected, ");
                m.append(crate::decimal::u64_to_string(*count as u64).as_str());
                m.append(" provided instead");
                m
            },
            ParserError::InvalidArgument(t, expected) => {
                let mut m = String::from_str("invalid argument '");
                m.append(t.text().as_str());
                m.append("', ");
                m.append(expected.as_str());
                m.append(" expected");
                m
            },
        }
    }
}

} // verus!
