use monkey::token::tokens_equal;
use monkey::{
    infix_op, ErrorKind, Expr, Ident, Infix, Literal, Parser, Precedence, Prefix, Program, Stmt,
    Token, Tokens,
};

/// Turns Monkey source into tokens, ending with `EOF`.
fn lex_tokens(input: &[u8]) -> Vec<Token> {
    let mut toks = Vec::new();
    let mut i = 0;
    while i < input.len() {
        let c = input[i];
        let next = if i + 1 < input.len() { input[i + 1] } else { 0 };
        match c {
            b' ' | b'\t' | b'\n' | b'\r' => {
                i += 1;
            }
            b'=' | b'!' | b'<' | b'>' if next == b'=' => {
                toks.push(match c {
                    b'=' => Token::Equal,
                    b'!' => Token::NotEqual,
                    b'<' => Token::LessThanEqual,
                    _ => Token::GreaterThanEqual,
                });
                i += 2;
            }
            b'"' => {
                let mut s = Vec::new();
                i += 1;
                while i < input.len() && input[i] != b'"' {
                    if input[i] == b'\\' && i + 1 < input.len() {
                        i += 1;
                    }
                    s.push(input[i]);
                    i += 1;
                }
                i += 1;
                toks.push(Token::StringLiteral(String::from_utf8(s).unwrap()));
            }
            b'0'..=b'9' => {
                let start = i;
                while i < input.len() && input[i].is_ascii_digit() {
                    i += 1;
                }
                let text = std::str::from_utf8(&input[start..i]).unwrap();
                toks.push(Token::IntLiteral(text.parse().unwrap()));
            }
            b'a'..=b'z' | b'A'..=b'Z' | b'_' => {
                let start = i;
                while i < input.len() && (input[i].is_ascii_alphanumeric() || input[i] == b'_') {
                    i += 1;
                }
                let word = std::str::from_utf8(&input[start..i]).unwrap();
                toks.push(match word {
                    "fn" => Token::Function,
                    "let" => Token::Let,
                    "true" => Token::BoolLiteral(true),
                    "false" => Token::BoolLiteral(false),
                    "if" => Token::If,
                    "else" => Token::Else,
                    "return" => Token::Return,
                    _ => Token::Ident(word.to_owned()),
                });
            }
            _ => {
                toks.push(match c {
                    b'=' => Token::Assign,
                    b'!' => Token::Not,
                    b'<' => Token::LessThan,
                    b'>' => Token::GreaterThan,
                    b'+' => Token::Plus,
                    b'-' => Token::Minus,
                    b'*' => Token::Multiply,
                    b'/' => Token::Divide,
                    b',' => Token::Comma,
                    b':' => Token::Colon,
                    b';' => Token::SemiColon,
                    b'(' => Token::LParen,
                    b')' => Token::RParen,
                    b'{' => Token::LBrace,
                    b'}' => Token::RBrace,
                    b'[' => Token::LBracket,
                    b']' => Token::RBracket,
                    _ => Token::Illegal,
                });
                i += 1;
            }
        }
    }
    toks.push(Token::EOF);
    toks
}

fn assert_input_with_program(input: &[u8], expected_results: Program) {
    let r = lex_tokens(input);
    let tokens = Tokens::new(&r);
    let (_, result) = Parser::parse_tokens(tokens).unwrap();
    assert_eq!(result, expected_results);
}

fn compare_inputs(input: &[u8], input2: &[u8]) {
    let r = lex_tokens(input);
    let tokens = Tokens::new(&r);
    let (_, result) = Parser::parse_tokens(tokens).unwrap();

    let r = lex_tokens(input2);
    let tokens = Tokens::new(&r);
    let (_, expected_results) = Parser::parse_tokens(tokens).unwrap();

    assert_eq!(result, expected_results);
}

#[test]
fn empty() {
    assert_input_with_program(&b""[..], vec![]);
}

#[test]
fn let_statements() {
    let input = "let x = 5;\
         let y = 10;\
         let foobar = 838383;\
         let boo = true;\
        "
    .as_bytes();

    let program: Program = vec![
        Stmt::LetStmt(Ident("x".to_owned()), Expr::LitExpr(Literal::IntLiteral(5))),
        Stmt::LetStmt(Ident("y".to_owned()), Expr::LitExpr(Literal::IntLiteral(10))),
        Stmt::LetStmt(Ident("foobar".to_owned()), Expr::LitExpr(Literal::IntLiteral(838383))),
        Stmt::LetStmt(Ident("boo".to_owned()), Expr::LitExpr(Literal::BoolLiteral(true))),
    ];

    assert_input_with_program(input, program);
}

#[test]
fn return_statements() {
    let input = "return 5;\
         return 10;\
         return 838383;\
         return true;\
        "
    .as_bytes();

    let program: Program = vec![
        Stmt::ReturnStmt(Expr::LitExpr(Literal::IntLiteral(5))),
        Stmt::ReturnStmt(Expr::LitExpr(Literal::IntLiteral(10))),
        Stmt::ReturnStmt(Expr::LitExpr(Literal::IntLiteral(838383))),
        Stmt::ReturnStmt(Expr::LitExpr(Literal::BoolLiteral(true))),
    ];

    assert_input_with_program(input, program);
}

#[test]
fn some_statements() {
    let input = "let x = 5;\
         return 10;\
         15;\
         let y = 20;\
         return false;\
        "
    .as_bytes();

    let program: Program = vec![
        Stmt::LetStmt(Ident("x".to_owned()), Expr::LitExpr(Literal::IntLiteral(5))),
        Stmt::ReturnStmt(Expr::LitExpr(Literal::IntLiteral(10))),
        Stmt::ExprStmt(Expr::LitExpr(Literal::IntLiteral(15))),
        Stmt::LetStmt(Ident("y".to_owned()), Expr::LitExpr(Literal::IntLiteral(20))),
        Stmt::ReturnStmt(Expr::LitExpr(Literal::BoolLiteral(false))),
    ];

    assert_input_with_program(input, program);
}

#[test]
fn identifier() {
    let input = "foobar;\
         foobar\
        "
    .as_bytes();

    let program: Program = vec![
        Stmt::ExprStmt(Expr::IdentExpr(Ident("foobar".to_owned()))),
        Stmt::ExprStmt(Expr::IdentExpr(Ident("foobar".to_owned()))),
    ];

    assert_input_with_program(input, program);
}

#[test]
fn prefix_expr() {
    let input = "-foobar;\
         +10\
         !true\
        "
    .as_bytes();

    let program: Program = vec![
        Stmt::ExprStmt(Expr::PrefixExpr(
            Prefix::PrefixMinus,
            Box::new(Expr::IdentExpr(Ident("foobar".to_owned()))),
        )),
        Stmt::ExprStmt(Expr::PrefixExpr(
            Prefix::PrefixPlus,
            Box::new(Expr::LitExpr(Literal::IntLiteral(10))),
        )),
        Stmt::ExprStmt(Expr::PrefixExpr(
            Prefix::Not,
            Box::new(Expr::LitExpr(Literal::BoolLiteral(true))),
        )),
    ];

    assert_input_with_program(input, program);
}

#[test]
fn prefix_expr2() {
    let input = "-(foobar);\
         (+(10));\
         (((!true)));\
        "
    .as_bytes();

    let program: Program = vec![
        Stmt::ExprStmt(Expr::PrefixExpr(
            Prefix::PrefixMinus,
            Box::new(Expr::IdentExpr(Ident("foobar".to_owned()))),
        )),
        Stmt::ExprStmt(Expr::PrefixExpr(
            Prefix::PrefixPlus,
            Box::new(Expr::LitExpr(Literal::IntLiteral(10))),
        )),
        Stmt::ExprStmt(Expr::PrefixExpr(
            Prefix::Not,
            Box::new(Expr::LitExpr(Literal::BoolLiteral(true))),
        )),
    ];

    assert_input_with_program(input, program);
}

#[test]
fn infix_expr() {
    let input = "10 + 20".as_bytes();

    let program: Program = vec![Stmt::ExprStmt(Expr::InfixExpr(
        Infix::Plus,
        Box::new(Expr::LitExpr(Literal::IntLiteral(10))),
        Box::new(Expr::LitExpr(Literal::IntLiteral(20))),
    ))];

    assert_input_with_program(input, program);

    let input = "10 * 20".as_bytes();

    let program: Program = vec![Stmt::ExprStmt(Expr::InfixExpr(
        Infix::Multiply,
        Box::new(Expr::LitExpr(Literal::IntLiteral(10))),
        Box::new(Expr::LitExpr(Literal::IntLiteral(20))),
    ))];

    assert_input_with_program(input, program);

    let input = "10 + 5 / -20 - (x + x)".as_bytes();

    let input2 = "10 + (5 / (-20)) - (x + x)".as_bytes();

    compare_inputs(input, input2);

    let input = "10 + 5 / -20 - (x + x)".as_bytes();

    let program: Program = vec![Stmt::ExprStmt(Expr::InfixExpr(
        Infix::Minus,
        Box::new(Expr::InfixExpr(
            Infix::Plus,
            Box::new(Expr::LitExpr(Literal::IntLiteral(10))),
            Box::new(Expr::InfixExpr(
                Infix::Divide,
                Box::new(Expr::LitExpr(Literal::IntLiteral(5))),
                Box::new(Expr::PrefixExpr(
                    Prefix::PrefixMinus,
                    Box::new(Expr::LitExpr(Literal::IntLiteral(20))),
                )),
            )),
        )),
        Box::new(Expr::InfixExpr(
            Infix::Plus,
            Box::new(Expr::IdentExpr(Ident("x".to_owned()))),
            Box::new(Expr::IdentExpr(Ident("x".to_owned()))),
        )),
    ))];

    assert_input_with_program(input, program);
}

#[test]
fn op_precedence() {
    compare_inputs("!-a".as_bytes(), "(!(-a))".as_bytes());
    compare_inputs("a + b + c".as_bytes(), "((a + b) + c)".as_bytes());
    compare_inputs("a + b - c".as_bytes(), "((a + b) - c)".as_bytes());
    compare_inputs("a * b * c".as_bytes(), "((a * b) * c)".as_bytes());
    compare_inputs("a * b / c".as_bytes(), "((a * b) / c)".as_bytes());
    compare_inputs("a + b / c".as_bytes(), "(a + (b / c))".as_bytes());
    compare_inputs(
        "a + b * c + d / e - f".as_bytes(),
        "(((a + (b * c)) + (d / e)) - f)".as_bytes(),
    );
    compare_inputs("3 + 4; -5 * 5".as_bytes(), "(3 + 4);((-5) * 5)".as_bytes());
    compare_inputs("5 > 4 == 3 < 4".as_bytes(), "((5 > 4) == (3 < 4))".as_bytes());
    compare_inputs("5 < 4 != 3 > 4".as_bytes(), "((5 < 4) != (3 > 4))".as_bytes());
    compare_inputs(
        "3 + 4 * 5 == 3 * 1 + 4 * 5".as_bytes(),
        "((3 + (4 * 5)) == ((3 * 1) + (4 * 5)))".as_bytes(),
    );
}

#[test]
fn if_expr() {
    let input = "if (x < y) { x }".as_bytes();

    let program: Program = vec![Stmt::ExprStmt(Expr::IfExpr {
        cond: Box::new(Expr::InfixExpr(
            Infix::LessThan,
            Box::new(Expr::IdentExpr(Ident("x".to_owned()))),
            Box::new(Expr::IdentExpr(Ident("y".to_owned()))),
        )),
        consequence: vec![Stmt::ExprStmt(Expr::IdentExpr(Ident("x".to_owned())))],
        alternative: None,
    })];

    assert_input_with_program(input, program);

    let input = "if (x < y) { x } else { y }".as_bytes();

    let program: Program = vec![Stmt::ExprStmt(Expr::IfExpr {
        cond: Box::new(Expr::InfixExpr(
            Infix::LessThan,
            Box::new(Expr::IdentExpr(Ident("x".to_owned()))),
            Box::new(Expr::IdentExpr(Ident("y".to_owned()))),
        )),
        consequence: vec![Stmt::ExprStmt(Expr::IdentExpr(Ident("x".to_owned())))],
        alternative: Some(vec![Stmt::ExprStmt(Expr::IdentExpr(Ident("y".to_owned())))]),
    })];

    assert_input_with_program(input, program);
}

#[test]
fn function_expr() {
    let input = "fn() {\
            return foobar + barfoo;\
        }\
        "
    .as_bytes();

    let program: Program = vec![Stmt::ExprStmt(Expr::FnExpr {
        params: vec![],
        body: vec![Stmt::ReturnStmt(Expr::InfixExpr(
            Infix::Plus,
            Box::new(Expr::IdentExpr(Ident("foobar".to_owned()))),
            Box::new(Expr::IdentExpr(Ident("barfoo".to_owned()))),
        ))],
    })];

    assert_input_with_program(input, program);

    let input = "fn(x, y) {\
            return x + y;\
        }\
        "
    .as_bytes();

    let program: Program = vec![Stmt::ExprStmt(Expr::FnExpr {
        params: vec![Ident("x".to_owned()), Ident("y".to_owned())],
        body: vec![Stmt::ReturnStmt(Expr::InfixExpr(
            Infix::Plus,
            Box::new(Expr::IdentExpr(Ident("x".to_owned()))),
            Box::new(Expr::IdentExpr(Ident("y".to_owned()))),
        ))],
    })];

    assert_input_with_program(input, program);

    let input = "fn() {
            return fn (x, y, z, zz) { return x >= y; };
         }
        "
    .as_bytes();

    let program: Program = vec![Stmt::ExprStmt(Expr::FnExpr {
        params: vec![],
        body: vec![Stmt::ReturnStmt(Expr::FnExpr {
            params: vec![
                Ident("x".to_owned()),
                Ident("y".to_owned()),
                Ident("z".to_owned()),
                Ident("zz".to_owned()),
            ],
            body: vec![Stmt::ReturnStmt(Expr::InfixExpr(
                Infix::GreaterThanEqual,
                Box::new(Expr::IdentExpr(Ident("x".to_owned()))),
                Box::new(Expr::IdentExpr(Ident("y".to_owned()))),
            ))],
        })],
    })];

    assert_input_with_program(input, program);
}

#[test]
fn function_call_expr() {
    let input = "add(2, 3);\
         add(a, b, 1, 2 * 3, other(4 + 5), add(6, 7 * 8));\
         fn(a, b) { return a + b; }(1, 2);\
        "
    .as_bytes();

    let program: Program = vec![
        Stmt::ExprStmt(Expr::CallExpr {
            function: Box::new(Expr::IdentExpr(Ident("add".to_owned()))),
            arguments: vec![
                Expr::LitExpr(Literal::IntLiteral(2)),
                Expr::LitExpr(Literal::IntLiteral(3)),
            ],
        }),
        Stmt::ExprStmt(Expr::CallExpr {
            function: Box::new(Expr::IdentExpr(Ident("add".to_owned()))),
            arguments: vec![
                Expr::IdentExpr(Ident("a".to_owned())),
                Expr::IdentExpr(Ident("b".to_owned())),
                Expr::LitExpr(Literal::IntLiteral(1)),
                Expr::InfixExpr(
                    Infix::Multiply,
                    Box::new(Expr::LitExpr(Literal::IntLiteral(2))),
                    Box::new(Expr::LitExpr(Literal::IntLiteral(3))),
                ),
                Expr::CallExpr {
                    function: Box::new(Expr::IdentExpr(Ident("other".to_owned()))),
                    arguments: vec![Expr::InfixExpr(
                        Infix::Plus,
                        Box::new(Expr::LitExpr(Literal::IntLiteral(4))),
                        Box::new(Expr::LitExpr(Literal::IntLiteral(5))),
                    )],
                },
                Expr::CallExpr {
                    function: Box::new(Expr::IdentExpr(Ident("add".to_owned()))),
                    arguments: vec![
                        Expr::LitExpr(Literal::IntLiteral(6)),
                        Expr::InfixExpr(
                            Infix::Multiply,
                            Box::new(Expr::LitExpr(Literal::IntLiteral(7))),
                            Box::new(Expr::LitExpr(Literal::IntLiteral(8))),
                        ),
                    ],
                },
            ],
        }),
        Stmt::ExprStmt(Expr::CallExpr {
            function: Box::new(Expr::FnExpr {
                params: vec![Ident("a".to_owned()), Ident("b".to_owned())],
                body: vec![Stmt::ReturnStmt(Expr::InfixExpr(
                    Infix::Plus,
                    Box::new(Expr::IdentExpr(Ident("a".to_owned()))),
                    Box::new(Expr::IdentExpr(Ident("b".to_owned()))),
                ))],
            }),
            arguments: vec![
                Expr::LitExpr(Literal::IntLiteral(1)),
                Expr::LitExpr(Literal::IntLiteral(2)),
            ],
        }),
    ];

    assert_input_with_program(input, program);
}

#[test]
fn strings() {
    let input = &b"\"foobar\""[..];
    let program: Program =
        vec![Stmt::ExprStmt(Expr::LitExpr(Literal::StringLiteral("foobar".to_owned())))];
    assert_input_with_program(input, program);

    let input = &b"\"foo bar\""[..];
    let program: Program =
        vec![Stmt::ExprStmt(Expr::LitExpr(Literal::StringLiteral("foo bar".to_owned())))];
    assert_input_with_program(input, program);

    let input = &b"\"foo\nbar\""[..];
    let program: Program =
        vec![Stmt::ExprStmt(Expr::LitExpr(Literal::StringLiteral("foo\nbar".to_owned())))];
    assert_input_with_program(input, program);

    let input = &b"\"foo\tbar\""[..];
    let program: Program =
        vec![Stmt::ExprStmt(Expr::LitExpr(Literal::StringLiteral("foo\tbar".to_owned())))];
    assert_input_with_program(input, program);

    let input = &b"\"foo\\\"bar\""[..];
    let program: Program =
        vec![Stmt::ExprStmt(Expr::LitExpr(Literal::StringLiteral("foo\"bar".to_owned())))];
    assert_input_with_program(input, program);
}

#[test]
fn arrays() {
    let input = &b"[1, 2 * 2, 3 + 3]"[..];

    let program: Program = vec![Stmt::ExprStmt(Expr::ArrayExpr(vec![
        Expr::LitExpr(Literal::IntLiteral(1)),
        Expr::InfixExpr(
            Infix::Multiply,
            Box::new(Expr::LitExpr(Literal::IntLiteral(2))),
            Box::new(Expr::LitExpr(Literal::IntLiteral(2))),
        ),
        Expr::InfixExpr(
            Infix::Plus,
            Box::new(Expr::LitExpr(Literal::IntLiteral(3))),
            Box::new(Expr::LitExpr(Literal::IntLiteral(3))),
        ),
    ]))];

    assert_input_with_program(input, program);

    let input = &b"myArray[1 + 1]"[..];

    let program: Program = vec![Stmt::ExprStmt(Expr::IndexExpr {
        array: Box::new(Expr::IdentExpr(Ident("myArray".to_owned()))),
        index: Box::new(Expr::InfixExpr(
            Infix::Plus,
            Box::new(Expr::LitExpr(Literal::IntLiteral(1))),
            Box::new(Expr::LitExpr(Literal::IntLiteral(1))),
        )),
    })];

    assert_input_with_program(input, program);
}

#[test]
fn array_precedence() {
    compare_inputs(
        "a * [1, 2, 3, 4][b * c] * d".as_bytes(),
        "((a * ([1, 2, 3, 4][b * c])) * d)".as_bytes(),
    );
    compare_inputs(
        "add(a * b[2], b[1], 2 * [1, 2][1])".as_bytes(),
        "add((a * (b[2])), (b[1]), (2 * ([1, 2][1])))".as_bytes(),
    );
}

#[test]
fn hash() {
    let input = &b"{}"[..];
    let program: Program = vec![Stmt::ExprStmt(Expr::HashExpr(vec![]))];
    assert_input_with_program(input, program);

    let input = &b"{\"one\": 1, \"two\": 2, \"three\": 3}"[..];
    let program: Program = vec![Stmt::ExprStmt(Expr::HashExpr(vec![
        (Literal::StringLiteral("one".to_owned()), Expr::LitExpr(Literal::IntLiteral(1))),
        (Literal::StringLiteral("two".to_owned()), Expr::LitExpr(Literal::IntLiteral(2))),
        (Literal::StringLiteral("three".to_owned()), Expr::LitExpr(Literal::IntLiteral(3))),
    ]))];
    assert_input_with_program(input, program);

    let input = &b"{4: 1, 5: 2, 6: 3}"[..];
    let program: Program = vec![Stmt::ExprStmt(Expr::HashExpr(vec![
        (Literal::IntLiteral(4), Expr::LitExpr(Literal::IntLiteral(1))),
        (Literal::IntLiteral(5), Expr::LitExpr(Literal::IntLiteral(2))),
        (Literal::IntLiteral(6), Expr::LitExpr(Literal::IntLiteral(3))),
    ]))];
    assert_input_with_program(input, program);

    let input = &b"{true: 1, false: 2}"[..];
    let program: Program = vec![Stmt::ExprStmt(Expr::HashExpr(vec![
        (Literal::BoolLiteral(true), Expr::LitExpr(Literal::IntLiteral(1))),
        (Literal::BoolLiteral(false), Expr::LitExpr(Literal::IntLiteral(2))),
    ]))];
    assert_input_with_program(input, program);

    let input = &b"{\"one\": 0 + 1, \"two\": 10 - 8, \"three\": 15/5}"[..];
    let program: Program = vec![Stmt::ExprStmt(Expr::HashExpr(vec![
        (
            Literal::StringLiteral("one".to_owned()),
            Expr::InfixExpr(
                Infix::Plus,
                Box::new(Expr::LitExpr(Literal::IntLiteral(0))),
                Box::new(Expr::LitExpr(Literal::IntLiteral(1))),
            ),
        ),
        (
            Literal::StringLiteral("two".to_owned()),
            Expr::InfixExpr(
                Infix::Minus,
                Box::new(Expr::LitExpr(Literal::IntLiteral(10))),
                Box::new(Expr::LitExpr(Literal::IntLiteral(8))),
            ),
        ),
        (
            Literal::StringLiteral("three".to_owned()),
            Expr::InfixExpr(
                Infix::Divide,
                Box::new(Expr::LitExpr(Literal::IntLiteral(15))),
                Box::new(Expr::LitExpr(Literal::IntLiteral(5))),
            ),
        ),
    ]))];
    assert_input_with_program(input, program);
}

/// Parses source text; on failure, the tokens left where reading stopped and
/// the kind of failure.
fn parse_source(input: &[u8]) -> Result<Program, (Vec<Token>, ErrorKind)> {
    let r = lex_tokens(input);
    match Parser::parse_tokens(Tokens::new(&r)) {
        Ok((_, p)) => Ok(p),
        Err(e) => Err((e.input.tok.to_vec(), e.code)),
    }
}

fn ident_expr(name: &str) -> Expr {
    Expr::IdentExpr(Ident(name.to_owned()))
}

fn infix_of(op: Infix, l: Expr, r: Expr) -> Expr {
    Expr::InfixExpr(op, Box::new(l), Box::new(r))
}

#[test]
fn tighter_operator_takes_middle_operand() {
    let tighter_first = parse_source(b"a * b + c").unwrap();
    assert_eq!(
        tighter_first,
        vec![Stmt::ExprStmt(infix_of(
            Infix::Plus,
            infix_of(Infix::Multiply, ident_expr("a"), ident_expr("b")),
            ident_expr("c"),
        ))]
    );
    let tighter_second = parse_source(b"a == b < c").unwrap();
    assert_eq!(
        tighter_second,
        vec![Stmt::ExprStmt(infix_of(
            Infix::Equal,
            ident_expr("a"),
            infix_of(Infix::LessThan, ident_expr("b"), ident_expr("c")),
        ))]
    );
}

#[test]
fn equal_operators_associate_left() {
    let p = parse_source(b"a / b * c").unwrap();
    assert_eq!(
        p,
        vec![Stmt::ExprStmt(infix_of(
            Infix::Multiply,
            infix_of(Infix::Divide, ident_expr("a"), ident_expr("b")),
            ident_expr("c"),
        ))]
    );
}

#[test]
fn prefix_takes_only_next_operand() {
    let p = parse_source(b"-a * b").unwrap();
    assert_eq!(
        p,
        vec![Stmt::ExprStmt(infix_of(
            Infix::Multiply,
            Expr::PrefixExpr(Prefix::PrefixMinus, Box::new(ident_expr("a"))),
            ident_expr("b"),
        ))]
    );
}

#[test]
fn call_and_index_bind_tightest() {
    let p = parse_source(b"a + f(x) * b[1]").unwrap();
    assert_eq!(
        p,
        vec![Stmt::ExprStmt(infix_of(
            Infix::Plus,
            ident_expr("a"),
            infix_of(
                Infix::Multiply,
                Expr::CallExpr {
                    function: Box::new(ident_expr("f")),
                    arguments: vec![ident_expr("x")],
                },
                Expr::IndexExpr {
                    array: Box::new(ident_expr("b")),
                    index: Box::new(Expr::LitExpr(Literal::IntLiteral(1))),
                },
            ),
        ))]
    );
}

#[test]
fn nested_parentheses_are_transparent() {
    compare_inputs(b"(((x)))", b"x");
    compare_inputs(b"((f)(1))", b"f(1)");
}

#[test]
fn semicolons_are_optional_between_statements() {
    compare_inputs(b"let x = 1 let y = 2 return x", b"let x = 1; let y = 2; return x;");
    assert_eq!(parse_source(b"let x = 1 let y = 2").unwrap().len(), 2);
}

#[test]
fn fully_parenthesised_rendering_reads_back() {
    compare_inputs(
        b"if (a < b) { f(a, [1, 2][0]) } else { {1: -x} }",
        b"if ((a < b)) { ((f)(a, (([1, 2])[0]))); } else { {1: -x}; }",
    );
    compare_inputs(b"fn(x, y) { return x * y + 1 }", b"fn(x, y) { return ((x * y) + 1); };");
}

#[test]
fn empty_call_array_and_params() {
    let p = parse_source(b"f(); []; fn() { }").unwrap();
    assert_eq!(
        p,
        vec![
            Stmt::ExprStmt(Expr::CallExpr { function: Box::new(ident_expr("f")), arguments: vec![] }),
            Stmt::ExprStmt(Expr::ArrayExpr(vec![])),
            Stmt::ExprStmt(Expr::FnExpr { params: vec![], body: vec![] }),
        ]
    );
}

#[test]
fn missing_end_of_file_is_refused() {
    let toks = vec![Token::Ident("x".to_owned()), Token::SemiColon];
    let e = Parser::parse_tokens(Tokens::new(&toks)).unwrap_err();
    assert_eq!(e.code, ErrorKind::Eof);
    assert!(e.input.tok.is_empty());
    assert_eq!((e.input.start, e.input.end), (0, 0));
    let none: Vec<Token> = vec![];
    let e = Parser::parse_tokens(Tokens::new(&none)).unwrap_err();
    assert_eq!(e.code, ErrorKind::Eof);
    assert!(e.input.tok.is_empty());
}

#[test]
fn malformed_programs_are_refused() {
    for src in [&b"let = 5;"[..], b"(1 + 2", b"f(1, 2", b"1 +", b"{1: 2", b")"] {
        let (left, code) = parse_source(src).unwrap_err();
        assert_eq!(left, lex_tokens(src), "{:?}", std::str::from_utf8(src));
        assert_eq!(code, ErrorKind::Verify);
    }
}

#[test]
fn error_holds_tokens_where_end_of_file_was_expected() {
    let (left, code) = parse_source(b"let x = 1; y ) z").unwrap_err();
    assert_eq!(code, ErrorKind::Verify);
    assert_eq!(left, vec![Token::RParen, Token::Ident("z".to_owned()), Token::EOF]);
    let toks = lex_tokens(b"1 2 ]");
    let e = Parser::parse_tokens(Tokens::new(&toks)).unwrap_err();
    assert_eq!(e.input.tok, &toks[2..]);
    assert_eq!((e.input.start, e.input.end), (0, 2));
}

#[test]
fn binding_powers_rise_from_equality_to_index() {
    assert_eq!(infix_op(&Token::EOF), (Precedence::PLowest, None));
    assert_eq!(infix_op(&Token::RParen), (Precedence::PLowest, None));
    assert!(infix_op(&Token::EOF).0 < infix_op(&Token::Equal).0);
    assert!(infix_op(&Token::Equal).0 < infix_op(&Token::LessThan).0);
    assert!(infix_op(&Token::LessThan).0 < infix_op(&Token::Plus).0);
    assert!(infix_op(&Token::Plus).0 < infix_op(&Token::Multiply).0);
    assert!(infix_op(&Token::Multiply).0 < infix_op(&Token::LParen).0);
    assert!(infix_op(&Token::LParen).0 < infix_op(&Token::LBracket).0);
    assert_eq!(infix_op(&Token::NotEqual), (Precedence::PEquals, Some(Infix::NotEqual)));
    assert_eq!(infix_op(&Token::Divide), (Precedence::PProduct, Some(Infix::Divide)));
    assert_eq!(infix_op(&Token::LParen).1, None);
}

#[test]
fn parenthesised_expression_program_reads_as_the_expression() {
    for src in [
        "a + b * c",
        "!-a",
        "f(x)[1] * -y",
        "fn(x) { x }(1)",
        "if (a) { b } else { c }",
        "a < b == c",
        "{1: [2, 3]}",
        "fn(x, y) { let z = x; z; }",
    ] {
        compare_inputs(format!("({})", src).as_bytes(), src.as_bytes());
    }
}

#[test]
fn joined_programs_read_as_their_statements_joined() {
    let a = "let x = 1; return f(x);";
    let b = "x + 2; let y = [x];";
    let mut joined = parse_source(a.as_bytes()).unwrap();
    joined.extend(parse_source(b.as_bytes()).unwrap());
    assert_eq!(parse_source(format!("{}{}", a, b).as_bytes()).unwrap(), joined);
    assert_eq!(joined.len(), 4);
}

#[test]
fn joined_token_programs_read_as_joined_statements() {
    let a = "let x = 1 x + 2 if (x) { y } else { z };";
    let b = "fn(a) { a }(3) [1][0]; return {\"k\": -x}";
    let mut joined = parse_source(a.as_bytes()).unwrap();
    joined.extend(parse_source(b.as_bytes()).unwrap());
    assert_eq!(parse_source(format!("{}{}", a, b).as_bytes()).unwrap(), joined);
    assert_eq!(joined.len(), 5);
}

#[test]
fn reading_stops_after_first_end_of_file() {
    let toks = vec![Token::Ident("a".to_owned()), Token::EOF, Token::EOF, Token::Let];
    let (rest, program) = Parser::parse_tokens(Tokens::new(&toks)).unwrap();
    assert_eq!(program, vec![Stmt::ExprStmt(ident_expr("a"))]);
    assert_eq!(rest.tok, &[Token::EOF, Token::Let][..]);
}

#[test]
fn cloned_program_is_equal() {
    let p = parse_source(b"let f = fn(a, b) { if (a < b) { [a, {1: b}] } else { f(b)[0] } }; !f").unwrap();
    let q = p.clone();
    assert_eq!(p, q);
    let e = match &p[1] {
        Stmt::ExprStmt(e) => e.clone(),
        other => panic!("unexpected {:?}", other),
    };
    assert_eq!(e, Expr::PrefixExpr(Prefix::Not, Box::new(ident_expr("f"))));
}

#[test]
fn tokens_after_end_of_file_are_left_over() {
    let toks = vec![Token::IntLiteral(7), Token::EOF, Token::Plus, Token::EOF];
    let (rest, program) = Parser::parse_tokens(Tokens::new(&toks)).unwrap();
    assert_eq!(program, vec![Stmt::ExprStmt(Expr::LitExpr(Literal::IntLiteral(7)))]);
    assert_eq!(rest.tok, &[Token::Plus, Token::EOF][..]);
    assert_eq!(rest.start, 0);
    assert_eq!(rest.end, 2);
}

#[test]
fn else_binds_to_its_if() {
    let p = parse_source(b"if (a) { 1 } else { 2 } 3").unwrap();
    assert_eq!(p.len(), 2);
    assert_eq!(p[1], Stmt::ExprStmt(Expr::LitExpr(Literal::IntLiteral(3))));
}

#[test]
fn source_file_wins_over_inline_code() {
    match monkey::read_command(Some("a.mk".to_owned()), Some("1 + 1".to_owned())) {
        monkey::Command::FileRead(path) => assert_eq!(path, "a.mk"),
        other => panic!("unexpected {:?}", other),
    }
    match monkey::read_command(None, Some("1 + 1".to_owned())) {
        monkey::Command::RunInlineCode(code) => assert_eq!(code, "1 + 1"),
        other => panic!("unexpected {:?}", other),
    }
    match monkey::read_command(None, None) {
        monkey::Command::Noop => {}
        other => panic!("unexpected {:?}", other),
    }
}

#[test]
fn token_equality_compares_variant_and_contents() {
    assert!(tokens_equal(&Token::Ident("a".to_owned()), &Token::Ident("a".to_owned())));
    assert!(!tokens_equal(&Token::Ident("a".to_owned()), &Token::Ident("b".to_owned())));
    assert!(!tokens_equal(&Token::Ident("a".to_owned()), &Token::StringLiteral("a".to_owned())));
    assert!(tokens_equal(&Token::IntLiteral(3), &Token::IntLiteral(3)));
    assert!(!tokens_equal(&Token::Plus, &Token::Minus));
    assert!(tokens_equal(&Token::EOF, &Token::EOF));
}

#[test]
fn tokens_window_covers_whole_buffer() {
    let toks = vec![Token::Let, Token::EOF];
    let t = Tokens::new(&toks);
    assert_eq!(t.start, 0);
    assert_eq!(t.end, 2);
    assert_eq!(t.tok.len(), 2);
}
