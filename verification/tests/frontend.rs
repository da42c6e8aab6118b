use yaliir::astprinter::AstPrinter;
use yaliir::error::Diagnostic;
use yaliir::expression::{Expr, Literal};
use yaliir::lox::scan_and_parse;
use yaliir::parser::Parser;
use yaliir::scanner::Scanner;
use yaliir::statement::Stmt;
use yaliir::token::{Token, TokenType};

#[test]
fn main() {
    let expression = Expr::Binary {
        left: Box::new(Expr::Unary {
            operator: Token {
                lexeme: "-".to_string(),
                line: 1,
                token_type: TokenType::Minus,
                literal: None,
            },
            right: Box::new(Expr::Literal {
                value: Literal::Number { text: "123".to_string() },
            }),
        }),
        operator: Token {
            lexeme: "*".to_string(),
            line: 1,
            token_type: TokenType::Star,
            literal: None,
        },
        right: Box::new(Expr::Grouping {
            expression: Box::new(Expr::Literal {
                value: Literal::Number { text: "45.67".to_string() },
            }),
        }),
    };

    assert_eq!(AstPrinter {}.print(expression), "(* (- 123) (group 45.67))");
}

#[test]
fn printer_strips_whole_valued_suffix() {
    let expression = Expr::Literal {
        value: Literal::Number { text: "123.0".to_string() },
    };
    assert_eq!(AstPrinter {}.print(expression), "123");
}

#[test]
fn scanner_token_kinds() {
    let mut scanner = Scanner::new("var answer = 41.5 + 1; // trailing comment");
    let tokens = scanner.scan_tokens().expect("scan should succeed");
    let kinds: Vec<TokenType> = tokens.iter().map(|t| t.token_type).collect();
    assert_eq!(
        kinds,
        vec![
            TokenType::Var,
            TokenType::Identifier,
            TokenType::Equal,
            TokenType::Number,
            TokenType::Plus,
            TokenType::Number,
            TokenType::Semicolon,
            TokenType::Eof,
        ]
    );
    assert_eq!(tokens[1].lexeme, "answer");
    assert_eq!(tokens[3].lexeme, "41.5");
    assert_eq!(tokens[5].lexeme, "1");
}

#[test]
fn scanner_string_literal_payload() {
    let mut scanner = Scanner::new("\"hi\nthere\"");
    let tokens = scanner.scan_tokens().expect("scan should succeed");
    assert_eq!(tokens[0].token_type, TokenType::Str);
    assert_eq!(tokens[0].lexeme, "\"hi\nthere\"");
    assert_eq!(tokens[0].literal.as_deref(), Some("hi\nthere"));
    // the token records the line the string ends on
    assert_eq!(tokens[0].line, 2);
}

#[test]
fn scanner_two_char_operators() {
    let mut scanner = Scanner::new("! != = == < <= > >= / //x");
    let tokens = scanner.scan_tokens().expect("scan should succeed");
    let kinds: Vec<TokenType> = tokens.iter().map(|t| t.token_type).collect();
    assert_eq!(
        kinds,
        vec![
            TokenType::Bang,
            TokenType::BangEqual,
            TokenType::Equal,
            TokenType::EqualEqual,
            TokenType::Less,
            TokenType::LessEqual,
            TokenType::Greater,
            TokenType::GreaterEqual,
            TokenType::Slash,
            TokenType::Eof,
        ]
    );
}

#[test]
fn scanner_unexpected_character() {
    let mut scanner = Scanner::new("var @;");
    let diagnostics = scanner.scan_tokens().expect_err("scan should fail");
    assert_eq!(diagnostics.len(), 1);
    assert_eq!(diagnostics[0].message, "Unexpected character: @");
    assert_eq!(diagnostics[0].line, 1);
}

#[test]
fn scanner_unterminated_string() {
    let mut scanner = Scanner::new("\"never closed");
    let diagnostics = scanner.scan_tokens().expect_err("scan should fail");
    assert_eq!(diagnostics.len(), 1);
    assert_eq!(diagnostics[0].message, "Unterminated string.");
}

#[test]
fn parser_error_recovery_reports_each_problem_once() {
    // two independent malformed statements around a valid one
    let (statements, diagnostics) = scan_and_parse("var ;\nprint 1;\n+;\n");
    assert_eq!(diagnostics.len(), 2);
    assert_eq!(statements.len(), 1);
    assert_eq!(diagnostics[0].message, "Expect variable name.");
    assert_eq!(diagnostics[0].line, 1);
    assert_eq!(diagnostics[1].message, "Expect expression.");
    assert_eq!(diagnostics[1].line, 3);
}

#[test]
fn parser_desugars_for_into_while() {
    let (statements, diagnostics) = scan_and_parse("for (var i = 0; i < 3; i = i + 1) print i;");
    assert_eq!(diagnostics.len(), 0);
    assert_eq!(statements.len(), 1);
    match &statements[0] {
        Stmt::Block { statements } => {
            assert_eq!(statements.len(), 2);
            assert!(matches!(statements[0], Stmt::Var { .. }));
            match &statements[1] {
                Stmt::While { body, .. } => match &**body {
                    Stmt::Block { statements } => {
                        assert_eq!(statements.len(), 2);
                        assert!(matches!(statements[0], Stmt::Print { .. }));
                        assert!(matches!(statements[1], Stmt::Expression { .. }));
                    }
                    other => panic!("for body should be a block, got {:?}", std::mem::discriminant(other)),
                },
                _ => panic!("second statement should be the while loop"),
            }
        }
        _ => panic!("a for loop with an initializer should become a block"),
    }
}

#[test]
fn parser_invalid_assignment_target() {
    let (_statements, diagnostics) = scan_and_parse("1 = 2;");
    assert_eq!(diagnostics.len(), 1);
    assert_eq!(diagnostics[0].message, "Invalid assignment target.");
}

#[test]
fn parser_reports_at_end() {
    let (_statements, diagnostics) = scan_and_parse("print 1");
    assert_eq!(diagnostics.len(), 1);
    assert_eq!(diagnostics[0].message, "Expect ';' after value.");
    assert_eq!(diagnostics[0].place, "at end");
}

#[test]
fn diagnostic_rendering() {
    let with_place = Diagnostic {
        line: 3,
        place: "at 'foo'".to_string(),
        message: "Expect ';' after value.".to_string(),
    };
    assert_eq!(
        with_place.render(),
        "[line 3] Error at 'foo': Expect ';' after value."
    );
    let bare = Diagnostic {
        line: 1,
        place: String::new(),
        message: "Unexpected character: @".to_string(),
    };
    assert_eq!(bare.render(), "[line 1] Error: Unexpected character: @");
}

#[test]
fn parser_keeps_dangling_else_with_nearest_if() {
    let mut scanner = Scanner::new("if (1) if (2) print 1; else print 2;");
    let tokens = scanner.scan_tokens().expect("scan should succeed");
    let mut parser = Parser::new(&tokens);
    let (statements, diagnostics) = parser.parse();
    assert_eq!(diagnostics.len(), 0);
    assert_eq!(statements.len(), 1);
    match &statements[0] {
        Stmt::If { else_branch, then_branch, .. } => {
            // the else must bind to the inner if
            assert!(else_branch.is_none());
            assert!(matches!(**then_branch, Stmt::If { else_branch: Some(_), .. }));
        }
        _ => panic!("expected an if statement"),
    }
}

#[test]
fn scanner_number_lookahead() {
    // a decimal point counts only when a digit follows it
    let mut scanner = Scanner::new("123. 45.67.89");
    let tokens = scanner.scan_tokens().expect("scan should succeed");
    let pairs: Vec<(TokenType, &str)> = tokens
        .iter()
        .map(|t| (t.token_type, t.lexeme.as_str()))
        .collect();
    assert_eq!(
        pairs,
        vec![
            (TokenType::Number, "123"),
            (TokenType::Dot, "."),
            (TokenType::Number, "45.67"),
            (TokenType::Dot, "."),
            (TokenType::Number, "89"),
            (TokenType::Eof, ""),
        ]
    );
}

#[test]
fn scanner_keywords_need_word_boundaries() {
    let mut scanner = Scanner::new("or orchid _or");
    let tokens = scanner.scan_tokens().expect("scan should succeed");
    let kinds: Vec<TokenType> = tokens.iter().map(|t| t.token_type).collect();
    assert_eq!(
        kinds,
        vec![
            TokenType::Or,
            TokenType::Identifier,
            TokenType::Identifier,
            TokenType::Eof,
        ]
    );
}
