use hermes_core::data::{CellRef, RefMode, SheetIndex, SheetRef};
use hermes_core::expr::lex::error::Kind;
use hermes_core::expr::lex::{tokenize, Lex, Lexer, Scanner};
use hermes_core::expr::position::{BytePos, Span, WithSpan};
use hermes_core::expr::token::{Keyword, StringDelimeter, Token};
use hermes_core::text::CharClass;
use hermes_core::utils::{index_to_col, index_to_row};

#[test]
fn tokenize_empty() {
    let input = "";
    let lex = tokenize(input);
    assert!(lex.is_empty());

    let input = " \t\r\n";
    let lex = tokenize(input);
    assert!(lex.is_empty());
}

#[test]
fn tokenize_literal_empty_string() {
    let input = "''";
    let lex = tokenize(input);
    assert_eq!(lex.tokens.len(), 1);
    let token = &lex.tokens[0];
    assert_eq!(token.span, Span::new(0, 2));
    let Token::String { value, delimeter } = &token.value else {
        panic!("incorrect token kind")
    };
    assert_eq!(value, "");
    assert!(matches!(delimeter, StringDelimeter::QuoteSingle));

    let input = "\"\"";
    let lex = tokenize(input);
    assert_eq!(lex.tokens.len(), 1);
    let token = &lex.tokens[0];
    assert_eq!(token.span, Span::new(0, 2));
    let Token::String { value, delimeter } = &token.value else {
        panic!("incorrect token kind")
    };
    assert_eq!(value, "");
    assert!(matches!(delimeter, StringDelimeter::QuoteDouble));
}

#[test]
fn tokenize_literal_string() {
    let content = "test";
    let input = format!("'{content}'");
    let lex = tokenize(&input);
    assert_eq!(lex.tokens.len(), 1);
    assert!(lex.errors.is_empty());
    let token = &lex.tokens[0];
    assert_eq!(token.span, Span::new(0, 6));
    let Token::String { value, delimeter } = &token.value else {
        panic!("incorrect token kind")
    };
    assert_eq!(value, content);
    assert!(matches!(delimeter, StringDelimeter::QuoteSingle));

    let content = "test";
    let input = format!("\"{content}\"");
    let lex = tokenize(&input);
    assert_eq!(lex.tokens.len(), 1);
    assert!(lex.errors.is_empty());
    let token = &lex.tokens[0];
    assert_eq!(token.span, Span::new(0, 6));
    let Token::String { value, delimeter } = &token.value else {
        panic!("incorrect token kind")
    };
    assert_eq!(value, content);
    assert!(matches!(delimeter, StringDelimeter::QuoteDouble));
}

#[test]
fn tokenize_string_unclosed() {
    let input = "'";
    let lex = tokenize(input);
    assert!(lex.tokens.is_empty());
    assert_eq!(lex.errors.len(), 1);
    let err = &lex.errors[0];
    assert_eq!(err.span, Span::new(0, 1));
    assert!(matches!(err.value, Kind::UnterminatedString));

    let input = "\"";
    let lex = tokenize(input);
    assert!(lex.tokens.is_empty());
    assert_eq!(lex.errors.len(), 1);
    let err = &lex.errors[0];
    assert_eq!(err.span, Span::new(0, 1));
    assert!(matches!(err.value, Kind::UnterminatedString));

    let input = "'test";
    let lex = tokenize(input);
    assert!(lex.tokens.is_empty());
    assert_eq!(lex.errors.len(), 1);
    let err = &lex.errors[0];
    assert_eq!(err.span, Span::new(0, 5));
    assert!(matches!(err.value, Kind::UnterminatedString));

    let input = "\"test";
    let lex = tokenize(input);
    assert!(lex.tokens.is_empty());
    assert_eq!(lex.errors.len(), 1);
    let err = &lex.errors[0];
    assert_eq!(err.span, Span::new(0, 5));
    assert!(matches!(err.value, Kind::UnterminatedString));
}

#[test]
fn tokenize_number() {
    let input = "3";
    let lex = tokenize(input);
    assert_eq!(lex.tokens.len(), 1);
    assert!(lex.errors.is_empty());
    let token = &lex.tokens[0];
    assert_eq!(token.value, Token::Number("3".to_string()));

    let input = "3.0";
    let lex = tokenize(input);
    assert_eq!(lex.tokens.len(), 1);
    assert!(lex.errors.is_empty());
    let token = &lex.tokens[0];
    assert_eq!(token.value, Token::Number("3.0".to_string()));
}

#[test]
fn tokenize_number_multiple_radix_points() {
    let input = "1..0";
    let lex = tokenize(input);
    assert_eq!(lex.errors.len(), 1);
    let err = &lex.errors[0];
    assert!(matches!(err.value, Kind::MultipleRadixPoints));

    let input = "1.2.3";
    let lex = tokenize(input);
    assert!(lex.tokens.is_empty());
    assert_eq!(lex.errors.len(), 1);
    let err = &lex.errors[0];
    assert!(matches!(err.value, Kind::MultipleRadixPoints));
}

#[test]
fn tokenize_number_radix_terminator() {
    let input = "123.";
    let lex = tokenize(input);
    assert!(lex.tokens.is_empty());
    assert_eq!(lex.errors.len(), 1);
    let err = &lex.errors[0];
    assert!(matches!(err.value, Kind::RadixTerminator));

    let input = "123. ";
    let lex = tokenize(input);
    assert_eq!(lex.errors.len(), 1);
    let err = &lex.errors[0];
    assert!(matches!(err.value, Kind::RadixTerminator));
}

#[test]
fn tokenize_cell_index() {
    let col = 0;
    let row = 0;
    let input = format!("{}{}", index_to_col(col), index_to_row(row));
    let lex = tokenize(&input);
    assert_eq!(lex.tokens.len(), 1);
    assert!(lex.errors.is_empty());
    let token = &lex.tokens[0];
    assert_eq!(
        token.value,
        Token::CellRef(CellRef {
            sheet: SheetRef::Relative,
            col,
            row,
            col_mode: RefMode::Relative,
            row_mode: RefMode::Relative
        })
    );

    let col = 2;
    let row = 3;
    let input = format!("{}{}", index_to_col(col), index_to_row(row));
    let lex = tokenize(&input);
    assert_eq!(lex.tokens.len(), 1);
    assert!(lex.errors.is_empty());
    let token = &lex.tokens[0];
    assert_eq!(
        token.value,
        Token::CellRef(CellRef {
            sheet: SheetRef::Relative,
            col,
            row,
            col_mode: RefMode::Relative,
            row_mode: RefMode::Relative
        })
    );

    let col = 30;
    let row = 40;
    let input = format!("{}{}", index_to_col(col), index_to_row(row));
    let lex = tokenize(&input);
    assert_eq!(lex.tokens.len(), 1);
    assert!(lex.errors.is_empty());
    let token = &lex.tokens[0];
    assert_eq!(
        token.value,
        Token::CellRef(CellRef {
            sheet: SheetRef::Relative,
            col,
            row,
            col_mode: RefMode::Relative,
            row_mode: RefMode::Relative
        })
    );

    let col = 100;
    let row = 110;
    let input = format!("{}{}", index_to_col(col), index_to_row(row));
    let lex = tokenize(&input);
    assert_eq!(lex.tokens.len(), 1);
    assert!(lex.errors.is_empty());
    let token = &lex.tokens[0];
    assert_eq!(
        token.value,
        Token::CellRef(CellRef {
            sheet: SheetRef::Relative,
            col,
            row,
            col_mode: RefMode::Relative,
            row_mode: RefMode::Relative
        })
    );
}

#[test]
fn tokenize_ident() {
    let input = "a";
    let lex = tokenize(input);
    assert_eq!(lex.tokens.len(), 1);
    assert!(lex.errors.is_empty());
    let token = &lex.tokens[0];
    assert_eq!(token.value, Token::Identifier(input.to_string()));

    let input = "a_b";
    let lex = tokenize(input);
    assert_eq!(lex.tokens.len(), 1);
    assert!(lex.errors.is_empty());
    let token = &lex.tokens[0];
    assert_eq!(token.value, Token::Identifier(input.to_string()));
}

#[test]
fn tokenize_keyword() {
    let reserved = [
        Keyword::True,
        Keyword::False,
        Keyword::And,
        Keyword::Or,
        Keyword::Sum,
    ];
    for word in reserved {
        let input = word.as_str();
        let lex = tokenize(input);
        assert_eq!(lex.tokens.len(), 1);
        assert!(lex.errors.is_empty());
        let token = &lex.tokens[0];
        let expected = Token::Keyword(word);
        assert_eq!(token.value, expected);
    }
}

fn tokens_of(input: &str) -> Vec<(Token, usize, usize)> {
    let lex = tokenize(input);
    assert!(lex.errors.is_empty());
    lex.tokens
        .into_iter()
        .map(|token| (token.value, token.span.start.0, token.span.end.0))
        .collect()
}

#[test]
fn tokenize_punctuation_with_spans() {
    assert_eq!(
        tokens_of(": , - ( ) % + /"),
        vec![
            (Token::Colon, 0, 1),
            (Token::Comma, 2, 3),
            (Token::Minus, 4, 5),
            (Token::ParenLeft, 6, 7),
            (Token::ParenRight, 8, 9),
            (Token::Percent, 10, 11),
            (Token::Plus, 12, 13),
            (Token::SlashForward, 14, 15),
        ]
    );
    assert_eq!(
        tokens_of("* ** ! != < <= > >= = =="),
        vec![
            (Token::Star, 0, 1),
            (Token::StarStar, 2, 4),
            (Token::Bang, 5, 6),
            (Token::BangEqual, 7, 9),
            (Token::Less, 10, 11),
            (Token::LessEqual, 12, 14),
            (Token::Greater, 15, 16),
            (Token::GreaterEqual, 17, 19),
            (Token::Equal, 20, 21),
            (Token::EqualEqual, 22, 24),
        ]
    );
    assert_eq!(
        tokens_of("***"),
        vec![(Token::StarStar, 0, 2), (Token::Star, 2, 3)]
    );
    assert_eq!(
        tokens_of("==="),
        vec![(Token::EqualEqual, 0, 2), (Token::Equal, 2, 3)]
    );
}

#[test]
fn tokenize_formula_with_spans() {
    assert_eq!(
        tokens_of("A1 + sheet!$B$2 * 2"),
        vec![
            (Token::CellRef(CellRef::dynamic(0, 0)), 0, 2),
            (Token::Plus, 3, 4),
            (
                Token::CellRef(CellRef::absolute_with_sheet(
                    1,
                    1,
                    SheetIndex::Label("sheet".to_string())
                )),
                5,
                15
            ),
            (Token::Star, 16, 17),
            (Token::Number("2".to_string()), 18, 19),
        ]
    );
    assert_eq!(
        tokens_of("12.5>=x_1"),
        vec![
            (Token::Number("12.5".to_string()), 0, 4),
            (Token::GreaterEqual, 4, 6),
            (Token::Identifier("x_1".to_string()), 6, 9),
        ]
    );
}

#[test]
fn tokenize_spans_count_bytes() {
    assert_eq!(
        tokens_of("'é€' é 1"),
        vec![
            (
                Token::String {
                    value: "é€".to_string(),
                    delimeter: StringDelimeter::QuoteSingle
                },
                0,
                7
            ),
            (Token::Unknown('é'), 8, 10),
            (Token::Number("1".to_string()), 11, 12),
        ]
    );
    assert_eq!(tokens_of("\u{1F600}"), vec![(Token::Unknown('\u{1F600}'), 0, 4)]);
    assert_eq!(tokens_of("\u{a0}"), vec![(Token::Unknown('\u{a0}'), 0, 2)]);
}

#[test]
fn tokenize_reference_before_keyword_before_identifier() {
    assert_eq!(
        tokens_of("or1"),
        vec![(Token::CellRef(CellRef::dynamic(0, 407)), 0, 3)]
    );
    assert_eq!(
        tokens_of("TRUE False aNd"),
        vec![
            (Token::Keyword(Keyword::True), 0, 4),
            (Token::Keyword(Keyword::False), 5, 10),
            (Token::Keyword(Keyword::And), 11, 14),
        ]
    );
    assert_eq!(
        tokens_of("sum1 sums abc1 a!b"),
        vec![
            (Token::Identifier("sum1".to_string()), 0, 4),
            (Token::Identifier("sums".to_string()), 5, 9),
            (Token::Identifier("abc1".to_string()), 10, 14),
            (Token::Identifier("a!b".to_string()), 15, 18),
        ]
    );
    assert_eq!(
        tokens_of("x$"),
        vec![(Token::Identifier("x$".to_string()), 0, 2)]
    );
}

#[test]
fn tokenize_goes_on_after_an_error() {
    let lex = tokenize("1. + $ + 'a");
    let tokens: Vec<Token> = lex.tokens.iter().map(|token| token.value.clone()).collect();
    assert_eq!(tokens, vec![Token::Plus, Token::Plus]);
    let errors: Vec<(Kind, Span)> = lex
        .errors
        .iter()
        .map(|error| (error.value, error.span))
        .collect();
    assert_eq!(
        errors,
        vec![
            (Kind::RadixTerminator, Span::new(0, 2)),
            (Kind::InvalidCellRef, Span::new(5, 6)),
            (Kind::UnterminatedString, Span::new(9, 11)),
        ]
    );
    let lex = tokenize("$a1 $1 $a$1x 1.2.3");
    assert_eq!(lex.tokens.len(), 1);
    let errors: Vec<(Kind, Span)> = lex
        .errors
        .iter()
        .map(|error| (error.value, error.span))
        .collect();
    assert_eq!(
        errors,
        vec![
            (Kind::InvalidCellRef, Span::new(4, 6)),
            (Kind::InvalidCellRef, Span::new(7, 12)),
            (Kind::MultipleRadixPoints, Span::new(13, 18)),
        ]
    );
}

#[test]
fn scanner_and_lexer_steps() {
    let mut scanner = Scanner::new("aé=");
    assert_eq!(scanner.peek(), Some('a'));
    assert_eq!(scanner.next_if_eq('b'), None);
    assert_eq!(scanner.next_if_eq('a'), Some('a'));
    assert_eq!(scanner.pos, 1);
    assert_eq!(scanner.next(), Some('é'));
    assert_eq!(scanner.pos, 3);
    assert_eq!(scanner.next(), Some('='));
    assert_eq!(scanner.next(), None);
    assert_eq!(scanner.peek(), None);
    assert_eq!(scanner.pos, 4);

    let mut lexer = Lexer::new("  12ab<=");
    assert_eq!(lexer.next_while(CharClass::Whitespace), vec![' ', ' ']);
    assert_eq!(lexer.next_while(CharClass::Digit), vec!['1', '2']);
    assert_eq!(lexer.next_while(CharClass::Letter), vec!['a', 'b']);
    assert_eq!(lexer.next_if_else('=', Token::Equal, Token::Bang), Token::Bang);
    assert_eq!(lexer.next_if_else('<', Token::Less, Token::Bang), Token::Less);
    let next = lexer.match_next_token();
    assert!(matches!(next, Some(Ok(WithSpan { value: Token::Equal, .. }))));
    assert!(lexer.match_next_token().is_none());
    assert!(Lexer::is_valid_ident_char('_'));
    assert!(!Lexer::is_valid_ident_char('1'));
    assert!(Lexer::is_valid_cell_ref_char('$'));
    assert!(!Lexer::is_valid_cell_ref_char('_'));
    assert!(Lexer::is_valid_ident_or_cell_ref_char('_'));
    assert!(!Lexer::is_valid_ident_or_cell_ref_char('-'));

    let mut lexer = Lexer::new("1 + 2.");
    lexer.tokenize();
    assert_eq!(lexer.tokens.len(), 2);
    assert_eq!(lexer.errors.len(), 1);
    let lex = Lex::from(lexer);
    assert_eq!(lex.tokens.len(), 2);
    assert_eq!(lex.errors.len(), 1);
    assert!(!lex.is_empty());
    assert_eq!(Span::at(3), Span { start: BytePos(3), end: BytePos(4) });
    assert_eq!(BytePos(3).add(4), BytePos(7));
    assert_eq!(WithSpan::at('x', 2).span, Span::new(2, 3));
    assert_eq!(Keyword::from_str("sum"), Some(Keyword::Sum));
    assert_eq!(Keyword::from_str("Sum"), None);
    assert_eq!(StringDelimeter::from_char('"'), Some(StringDelimeter::QuoteDouble));
    assert_eq!(StringDelimeter::from_char('`'), None);
}
