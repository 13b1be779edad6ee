use calculator::lexer::{to_token, LexerError, Token};
use calculator::parser::{parse, Calculation, Operator, ParserError};
use calculator::run;

fn build_cli_args(args_str: &str) -> Vec<String> {
    let mut args = vec!["exec/path".to_string()];
    for part in args_str.split(' ') {
        args.push(part.to_string());
    }
    args
}

#[test]
fn parse_numbers() {
    assert_eq!(to_token("3").unwrap(), Token::Arabic(3));
    assert_eq!(to_token("10").unwrap(), Token::Arabic(10));
    assert_eq!(to_token("IV").unwrap(), Token::Roman(4));
    assert_eq!(to_token("X").unwrap(), Token::Roman(10));
    assert_eq!(to_token("12").unwrap_err(), LexerError::NumberIsNotAllowed(12));
    assert_eq!(to_token("0").unwrap_err(), LexerError::NumberIsNotAllowed(0));
    assert_eq!(to_token("-3").unwrap_err(), LexerError::NumberIsNotAllowed(-3));
}

#[test]
fn parse_operators() {
    assert_eq!(to_token("-").unwrap(), Token::Minus);
    assert_eq!(to_token("/").unwrap(), Token::Division);
    assert_eq!(to_token("*").unwrap(), Token::Multiplication);
    assert_eq!(to_token("+").unwrap(), Token::Plus);
}

#[test]
fn parse_junk() {
    assert_eq!(
        to_token("foo").unwrap_err(),
        LexerError::UnknownToken("foo".to_string())
    );
    assert_eq!(
        to_token("XX").unwrap_err(),
        LexerError::UnknownToken("XX".to_string())
    );
    assert_eq!(
        to_token(" ").unwrap_err(),
        LexerError::UnknownToken(" ".to_string())
    );
}

#[test]
fn valid_input() {
    assert_eq!(run(&build_cli_args("1 - 2")).unwrap(), "-1");
    assert_eq!(run(&build_cli_args("III - 2")).unwrap(), "1");
    assert_eq!(run(&build_cli_args("X + 2")).unwrap(), "12");
    assert_eq!(run(&build_cli_args("X / II")).unwrap(), "5");
    assert_eq!(run(&build_cli_args("10 * IX")).unwrap(), "90");
}

#[test]
fn invalid_input() {
    assert_eq!(
        run(&build_cli_args("0 - 2")).unwrap_err().message(),
        "number '0' is not allowed, one should use number between 1 and 10"
    );

    assert_eq!(
        run(&build_cli_args("XI -  2")).unwrap_err().message(),
        "unknown token 'XI'"
    );

    assert_eq!(
        run(&build_cli_args("X + -2")).unwrap_err().message(),
        "number '-2' is not allowed, one should use number between 1 and 10"
    );

    assert_eq!(
        run(&build_cli_args("X - 2 + 3")).unwrap_err().message(),
        "exactly 3 arguments expected, 5 provided instead"
    );

    assert_eq!(
        run(&build_cli_args("1 2 3")).unwrap_err().message(),
        "invalid argument '2', operator (+ - * /) expected"
    );

    assert_eq!(
        run(&build_cli_args("2 + -")).unwrap_err().message(),
        "invalid argument '-', arabic or roman number from 1 to 10 expected"
    );
}

#[test]
fn parse_valid_input() {
    let valid_input = vec![Token::Arabic(2), Token::Minus, Token::Roman(5)];
    assert!(matches!(
        parse(&valid_input),
        Ok(Calculation {
            left: 2,
            right: 5,
            operator: _
        })
    ));

    let valid_input = vec![Token::Roman(10), Token::Plus, Token::Roman(1)];
    assert!(matches!(
        parse(&valid_input),
        Ok(Calculation {
            left: 10,
            right: 1,
            operator: _
        })
    ));
}

#[test]
fn parse_invalid_input() {
    let invalid_input = vec![Token::Arabic(2), Token::Arabic(1), Token::Roman(5)];
    assert!(matches!(
        parse(&invalid_input),
        Err(ParserError::InvalidArgument(..))
    ));

    let invalid_input = vec![Token::Arabic(2)];
    assert!(matches!(
        parse(&invalid_input),
        Err(ParserError::InvalidNumberOfArguments(1))
    ));
}

#[test]
fn all_roman_numerals() {
    let numerals = ["I", "II", "III", "IV", "V", "VI", "VII", "VIII", "IX", "X"];
    for (i, numeral) in numerals.iter().enumerate() {
        assert_eq!(to_token(numeral).unwrap(), Token::Roman((i + 1) as i8));
    }
}

#[test]
fn all_arabic_numbers() {
    for n in 1..=10i8 {
        assert_eq!(to_token(&n.to_string()).unwrap(), Token::Arabic(n));
    }
}

#[test]
fn arabic_with_plus_sign_and_leading_zeros() {
    assert_eq!(to_token("+5").unwrap(), Token::Arabic(5));
    assert_eq!(to_token("007").unwrap(), Token::Arabic(7));
}

#[test]
fn numbers_outside_signed_byte_range_are_unknown() {
    assert_eq!(
        to_token("128").unwrap_err(),
        LexerError::UnknownToken("128".to_string())
    );
    assert_eq!(
        to_token("-129").unwrap_err(),
        LexerError::UnknownToken("-129".to_string())
    );
    assert_eq!(to_token("-128").unwrap_err(), LexerError::NumberIsNotAllowed(-128));
}

#[test]
fn empty_and_sign_only_strings_are_unknown() {
    assert_eq!(to_token("").unwrap_err(), LexerError::UnknownToken("".to_string()));
    assert_eq!(
        to_token("--").unwrap_err(),
        LexerError::UnknownToken("--".to_string())
    );
}

#[test]
fn division_truncates_toward_zero() {
    assert_eq!(run(&build_cli_args("10 / 3")).unwrap(), "3");
    assert_eq!(run(&build_cli_args("VII / II")).unwrap(), "3");
    let c = Calculation {
        left: -7,
        right: 2,
        operator: Operator::Division,
    };
    assert_eq!(c.execute(), -3);
}

#[test]
fn arithmetic_bounds() {
    assert_eq!(run(&build_cli_args("10 * 10")).unwrap(), "100");
    assert_eq!(run(&build_cli_args("1 - 10")).unwrap(), "-9");
    assert_eq!(run(&build_cli_args("10 + 10")).unwrap(), "20");
    assert_eq!(run(&build_cli_args("10 / 10")).unwrap(), "1");
}

#[test]
fn too_few_arguments_message() {
    assert_eq!(
        run(&build_cli_args("5")).unwrap_err().message(),
        "exactly 3 arguments expected, 1 provided instead"
    );
    assert_eq!(
        run(&vec!["exec/path".to_string()]).unwrap_err().message(),
        "exactly 3 arguments expected, 0 provided instead"
    );
}

#[test]
fn roman_token_quoted_in_parser_error() {
    assert_eq!(
        run(&build_cli_args("1 IV 3")).unwrap_err().message(),
        "invalid argument 'IV', operator (+ - * /) expected"
    );
}

#[test]
fn error_messages_render_payloads() {
    assert_eq!(
        LexerError::NumberIsNotAllowed(-3).message(),
        "number '-3' is not allowed, one should use number between 1 and 10"
    );
    assert_eq!(
        LexerError::UnknownToken("zz".to_string()).message(),
        "unknown token 'zz'"
    );
    assert_eq!(
        ParserError::InvalidNumberOfArguments(7).message(),
        "exactly 3 arguments expected, 7 provided instead"
    );
    assert_eq!(
        ParserError::InvalidArgument(Token::Multiplication, "operator (+ - * /)".to_string())
            .message(),
        "invalid argument '*', operator (+ - * /) expected"
    );
}

#[test]
fn first_lexer_error_wins() {
    assert_eq!(
        run(&build_cli_args("XI + 0")).unwrap_err().message(),
        "unknown token 'XI'"
    );
    assert_eq!(
        run(&build_cli_args("1 + 0")).unwrap_err().message(),
        "number '0' is not allowed, one should use number between 1 and 10"
    );
}
