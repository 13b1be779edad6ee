//! A three-token calculator: a lexer that classifies raw argument strings as
//! numbers (Arabic digits 1..=10 or Roman numerals I..=X) or operators, a
//! parser that validates a number-operator-number shape, and a driver that
//! evaluates the resulting calculation.
use vstd::prelude::*;

pub mod decimal;
pub mod lexer;
pub mod parser;

verus! {

use crate::lexer::{
    Token,
    LexerError,
    to_token,
    wf_token,
    spec_symbol,
    spec_parse_i8,
    spec_lexer_message,
};
use crate::parser::{
    parse,
    ParserError,
    is_number_token,
    number_value,
    operator_of,
    spec_op_value,
    lemma_lexed_calculation_executes,
    spec_parser_message,
};
use crate::decimal::{int_str, i8_to_string};

/// Why an evaluation failed: the first lexing error, or the parser's verdict.
#[derive(Debug)]
pub enum CalcError {
    Lexer(LexerError),
    Parser(ParserError),
}

/// The message for an evaluation error, as the driver prints it.
pub open spec fn spec_calc_message(e: CalcError) -> Seq<char> {
    match e {
        CalcError::Lexer(inner) => spec_lexer_message(inner),
        CalcError::Parser(inner) => spec_parser_message(inner),
    }
}

impl CalcError {
    /// Renders the error's message.
    pub fn message(&self) -> (r: String)
        ensures
            r@ == spec_calc_message(*self),
    {
        match self {
            CalcError::Lexer(inner) => inner.message(),
            CalcError::Parser(inner) => inner.message(),
        }
    }
}

/// A string the lexer accepts: a symbol-table entry, or an integer in 1..=10.
pub open spec fn accepted(s: Seq<char>) -> bool {
    ||| spec_symbol(s) is Some
    ||| (spec_parse_i8(s) matches Some(v) && 1 <= v <= 10)
}

/// The token an accepted string lexes to.
pub open spec fn token_of(s: Seq<char>) -> Token
    recommends
        accepted(s),
{
    if spec_symbol(s) is Some {
        spec_symbol(s).unwrap()
    } else {
        Token::Arabic(spec_parse_i8(s).unwrap() as i8)
    }
}

/// Relates a string the lexer rejects to the error the lexer reports for it.
pub open spec fn rejected_with(s: Seq<char>, e: LexerError) -> bool {
    ||| (spec_parse_i8(s) matches Some(v) && spec_symbol(s) is None && !(1 <= v <= 10) && e
        == LexerError::NumberIsNotAllowed(v as i8))
    ||| (e matches LexerError::UnknownToken(u) && spec_symbol(s) is None && spec_parse_i8(s)
        is None && u@ == s)
}

/// Every string of the sequence is accepted by the lexer.
pub open spec fn all_accepted(ss: Seq<Seq<char>>) -> bool {
    forall|i: int| 0 <= i < ss.len() ==> accepted(ss[i])
}

/// The tokens a sequence of accepted strings lexes to, in order.
pub open spec fn tokens_of(ss: Seq<Seq<char>>) -> Seq<Token>
    recommends
        all_accepted(ss),
{
    Seq::new(ss.len(), |i: int| token_of(ss[i]))
}

/// The index of the first string the lexer rejects.
pub open spec fn first_rejected(ss: Seq<Seq<char>>) -> int
    recommends
        !all_accepted(ss),
    decreases ss.len(),
{
    if ss.len() == 0 {
        0
    } else if !accepted(ss[0]) {
        0
    } else {
        1 + first_rejected(ss.drop_first())
    }
}

/// `first_rejected` picks out exactly the first index whose string the lexer
/// rejects.
proof fn lemma_first_rejected(ss: Seq<Seq<char>>, k: int)
    requires
        0 <= k < ss.len(),
        forall|j: int| 0 <= j < k ==> accepted(ss[j]),
        !accepted(ss[k]),
    ensures
        first_rejected(ss) == k,
        !all_accepted(ss),
    decreases ss.len(),
{
    if k > 0 {
        assert(accepted(ss[0]));
        assert(forall|j: int| 0 <= j < k - 1 ==> accepted(ss.drop_first()[j]));
        assert(ss.drop_first()[k - 1] == ss[k]);
        lemma_first_rejected(ss.drop_first(), k - 1);
    }
}

/// The argument strings the evaluation works on: every argument after the
/// first, which conventionally holds the program path.
pub open spec fn rest_views(args: Seq<String>) -> Seq<Seq<char>> {
    if args.len() == 0 {
        Seq::empty()
    } else {
        Seq::new((args.len() - 1) as nat, |i: int| args[i + 1]@)
    }
}

/// What `run` returns once every argument lexed: the parser's verdict on the
/// token sequence, and on success the rendered result of the calculation.
pub open spec fn parsed_outcome(toks: Seq<Token>, r: Result<String, CalcError>) -> bool {
    &&& toks.len() != 3 ==> r == Err::<String, CalcError>(
        CalcError::Parser(ParserError::InvalidNumberOfArguments(toks.len() as usize)),
    )
    &&& (toks.len() == 3 && !is_number_token(toks[0])) ==> (r matches Err(err)
        && err matches CalcError::Parser(pe) && pe matches ParserError::InvalidArgument(t, d) && t
        == toks[0] && d@ == "arabic or roman number from 1 to 10"@)
    &&& (toks.len() == 3 && is_number_token(toks[0]) && operator_of(toks[1]) is None) ==> (
    r matches Err(err) && err matches CalcError::Parser(pe)
        && pe matches ParserError::InvalidArgument(t, d) && t == toks[1] && d@
        == "operator (+ - * /)"@)
    &&& (toks.len() == 3 && is_number_token(toks[0]) && operator_of(toks[1]) is Some
        && !is_number_token(toks[2])) ==> (r matches Err(err) && err matches CalcError::Parser(pe)
        && pe matches ParserError::InvalidArgument(t, d) && t == toks[2] && d@
        == "arabic or roman number from 1 to 10"@)
    &&& (toks.len() == 3 && is_number_token(toks[0]) && is_number_token(toks[2])) ==> (
    operator_of(toks[1]) matches Some(op) ==> (r matches Ok(out) && out@ == int_str(
        spec_op_value(op, number_value(toks[0]), number_value(toks[2])),
    )))
}

/// Evaluates the argument strings end to end: lexes each argument after the
/// first in order, stopping at the first lexing error; parses the tokens;
/// executes the calculation; and renders the result in decimal.
pub fn run(args: &Vec<String>) -> (r: Result<String, CalcError>)
    ensures
        !all_accepted(rest_views(args@)) ==> (r matches Err(err) && err matches CalcError::Lexer(e)
            && rejected_with(rest_views(args@)[first_rejected(rest_views(args@))], e)),
        all_accepted(rest_views(args@)) ==> parsed_outcome(tokens_of(rest_views(args@)), r),
{
    let ghost ss = rest_views(args@);
    let total = args.len();
    let count = if total == 0 {
        0
    } else {
        total - 1
    };
    let mut tokens: Vec<Token> = Vec::new();
    let mut j: usize = 0;
    while j < count
        invariant
            j <= count,
            count == ss.len(),
            total == args@.len(),
            ss == rest_views(args@),
            tokens@.len() == j,
            forall|k: int| 0 <= k < j ==> accepted(ss[k]),
            forall|k: int| 0 <= k < j ==> tokens@[k] == token_of(ss[k]),
            forall|k: int| 0 <= k < j ==> wf_token(tokens@[k]),
        decreases count - j,
    {
        proof {
            assert(ss[j as int] == args@[j as int + 1]@);
        }
        match to_token(args[j + 1].as_str()) {
            Ok(t) => {
                tokens.push(t);
            },
            Err(e) => {
                proof {
                    lemma_first_rejected(ss, j as int);
                }
                return Err(CalcError::Lexer(e));
            },
        }
        j += 1;
    }
    proof {
        assert(tokens@ =~= tokens_of(ss));
    }
    match parse(&tokens) {
        Err(e) => Err(CalcError::Parser(e)),
        Ok(c) => {
            proof {
                if tokens@.len() == 3 {
                    assert(wf_token(tokens@[0]));
                    assert(wf_token(tokens@[2]));
                }
                lemma_lexed_calculation_executes(c);
            }
            let result = c.execute();
            Ok(i8_to_string(result))
        },
    }
}

} // verus!
