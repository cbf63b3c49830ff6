use rubrs::scanner::Scanner;
use rubrs::text::{characters, decimal_string, digit_char, join3, string_of};
use rubrs::token::{clone_tokens, Token, TokenType};

fn scan(source: &str) -> Result<Vec<Token>, String> {
    let mut scanner = Scanner::new(source.to_string());
    scanner.scan_tokens()
}

fn types(source: &str) -> Vec<TokenType> {
    scan(source).unwrap().into_iter().map(|t| t.token_type).collect()
}

fn identifier(text: &str) -> TokenType {
    TokenType::Identifier(text.to_string())
}

fn number(text: &str) -> TokenType {
    TokenType::Number(text.to_string())
}

fn string(text: &str) -> TokenType {
    TokenType::String(text.to_string())
}

#[test]
fn empty_source_is_just_eof() {
    assert_eq!(scan("").unwrap(), vec![Token::new(TokenType::Eof, String::new(), 1)]);
}

#[test]
fn token_stream_ends_with_exactly_one_eof() {
    for source in ["", "var a = 1;", "print \"x\"; // done", "\n\n\n", "fun f() { return f; }"] {
        let tokens = scan(source).unwrap();
        let eofs = tokens.iter().filter(|t| t.token_type == TokenType::Eof).count();
        assert_eq!(eofs, 1);
        assert_eq!(tokens.last().unwrap().token_type, TokenType::Eof);
        assert_eq!(tokens.last().unwrap().lexeme, "");
    }
}

#[test]
fn eof_line_is_the_last_line() {
    assert_eq!(scan("a\nb\nc").unwrap().last().unwrap().line, 3);
    assert_eq!(scan("a\n\n").unwrap().last().unwrap().line, 3);
    assert_eq!(scan("\"x\ny\"").unwrap().last().unwrap().line, 2);
}

#[test]
fn punctuation() {
    assert_eq!(
        types("(){},.-+;*/"),
        vec![
            TokenType::LeftParen,
            TokenType::RightParen,
            TokenType::LeftBrace,
            TokenType::RightBrace,
            TokenType::Comma,
            TokenType::Dot,
            TokenType::Minus,
            TokenType::Plus,
            TokenType::Semicolon,
            TokenType::Star,
            TokenType::Slash,
            TokenType::Eof,
        ]
    );
}

#[test]
fn one_and_two_character_operators() {
    assert_eq!(
        types("! != = == < <= > >="),
        vec![
            TokenType::Bang,
            TokenType::BangEqual,
            TokenType::Equal,
            TokenType::EqualEqual,
            TokenType::Less,
            TokenType::LessEqual,
            TokenType::Greater,
            TokenType::GreaterEqual,
            TokenType::Eof,
        ]
    );
    assert_eq!(
        types("!===>=<"),
        vec![
            TokenType::BangEqual,
            TokenType::EqualEqual,
            TokenType::GreaterEqual,
            TokenType::Less,
            TokenType::Eof,
        ]
    );
    assert_eq!(types("="), vec![TokenType::Equal, TokenType::Eof]);
    assert_eq!(types("!"), vec![TokenType::Bang, TokenType::Eof]);
}

#[test]
fn lexemes_are_exact_source_slices() {
    let tokens = scan("var answer = 42.50 >= \"text\";").unwrap();
    let lexemes: Vec<&str> = tokens.iter().map(|t| t.lexeme.as_str()).collect();
    assert_eq!(lexemes, vec!["var", "answer", "=", "42.50", ">=", "\"text\"", ";", ""]);
}

#[test]
fn keywords() {
    assert_eq!(
        types("and class else false for fun if nil or print return super this true var while"),
        vec![
            TokenType::And,
            TokenType::Class,
            TokenType::Else,
            TokenType::False,
            TokenType::For,
            TokenType::Fun,
            TokenType::If,
            TokenType::Nil,
            TokenType::Or,
            TokenType::Print,
            TokenType::Return,
            TokenType::Super,
            TokenType::This,
            TokenType::True,
            TokenType::Var,
            TokenType::While,
            TokenType::Eof,
        ]
    );
}

#[test]
fn identifiers() {
    assert_eq!(
        types("a ab12 And fort variable x9y"),
        vec![
            identifier("a"),
            identifier("ab12"),
            identifier("And"),
            identifier("fort"),
            identifier("variable"),
            identifier("x9y"),
            TokenType::Eof,
        ]
    );
}

#[test]
fn identifiers_may_hold_letters_beyond_ascii() {
    assert_eq!(types("été"), vec![identifier("été"), TokenType::Eof]);
    assert_eq!(types("λx"), vec![identifier("λx"), TokenType::Eof]);
    assert_eq!(types("a٣"), vec![identifier("a٣"), TokenType::Eof]);
    let tokens = scan("é = 1;").unwrap();
    assert_eq!(tokens[0].lexeme, "é");
    assert_eq!(tokens[1].token_type, TokenType::Equal);
}

#[test]
fn underscore_starts_no_token() {
    assert_eq!(scan("_a").unwrap_err(), "Unexpected character at line 1");
    assert_eq!(scan("a_b").unwrap_err(), "Unexpected character at line 1");
}

#[test]
fn numbers() {
    assert_eq!(types("0 12 3.25 007"), vec![number("0"), number("12"), number("3.25"), number("007"), TokenType::Eof]);
}

#[test]
fn dot_without_digits_is_not_part_of_a_number() {
    assert_eq!(types("1."), vec![number("1"), TokenType::Dot, TokenType::Eof]);
    assert_eq!(types(".5"), vec![TokenType::Dot, number("5"), TokenType::Eof]);
    assert_eq!(types("1.a"), vec![number("1"), TokenType::Dot, identifier("a"), TokenType::Eof]);
    assert_eq!(
        types("1.5.2"),
        vec![number("1.5"), TokenType::Dot, number("2"), TokenType::Eof]
    );
    assert_eq!(types("1..2"), vec![number("1"), TokenType::Dot, TokenType::Dot, number("2"), TokenType::Eof]);
}

#[test]
fn number_followed_by_letters() {
    assert_eq!(types("12ab"), vec![number("12"), identifier("ab"), TokenType::Eof]);
}

#[test]
fn non_ascii_digits_are_no_numbers() {
    assert_eq!(scan("٣").unwrap_err(), "Unexpected character at line 1");
}

#[test]
fn strings() {
    assert_eq!(types("\"\" \"a b\""), vec![string(""), string("a b"), TokenType::Eof]);
    let tokens = scan("\"hi\"").unwrap();
    assert_eq!(tokens[0].lexeme, "\"hi\"");
    assert_eq!(tokens[0].token_type, string("hi"));
}

#[test]
fn strings_have_no_escapes() {
    assert_eq!(types("\"a\\nb\""), vec![string("a\\nb"), TokenType::Eof]);
    // A backslash does not protect a quote: the string ends at it.
    assert_eq!(scan("\"a\\\"b\"").unwrap_err(), "Unterminated string at line 1");
    assert_eq!(
        types("\"a\\\" b"),
        vec![string("a\\"), identifier("b"), TokenType::Eof]
    );
}

#[test]
fn multi_line_string_counts_lines() {
    let tokens = scan("\"a\nb\nc\" x").unwrap();
    assert_eq!(tokens[0].token_type, string("a\nb\nc"));
    assert_eq!(tokens[0].line, 3);
    assert_eq!(tokens[1].line, 3);
    assert_eq!(tokens[2].line, 3);
}

#[test]
fn unterminated_string_is_an_error() {
    assert_eq!(scan("\"abc").unwrap_err(), "Unterminated string at line 1");
    assert_eq!(scan("\"").unwrap_err(), "Unterminated string at line 1");
    assert_eq!(scan("a\n\"b\nc\n").unwrap_err(), "Unterminated string at line 4");
}

#[test]
fn unexpected_character_is_an_error() {
    assert_eq!(scan("@").unwrap_err(), "Unexpected character at line 1");
    assert_eq!(scan("a\nb\n#").unwrap_err(), "Unexpected character at line 3");
    assert_eq!(scan("var a = 1 & 2;").unwrap_err(), "Unexpected character at line 1");
}

#[test]
fn error_line_has_all_its_digits() {
    let mut source = String::new();
    for _ in 0..1233 {
        source.push('\n');
    }
    source.push('$');
    assert_eq!(scan(&source).unwrap_err(), "Unexpected character at line 1234");
}

#[test]
fn scanning_stops_at_the_first_error() {
    assert_eq!(scan("@ \"open").unwrap_err(), "Unexpected character at line 1");
    assert_eq!(scan("\"open @").unwrap_err(), "Unterminated string at line 1");
}

#[test]
fn whitespace_and_lines() {
    let tokens = scan(" a\t\r\n  b\n\nc ").unwrap();
    let lines: Vec<usize> = tokens.iter().map(|t| t.line).collect();
    assert_eq!(lines, vec![1, 2, 4, 4]);
}

#[test]
fn comments_run_to_the_end_of_the_line() {
    assert_eq!(types("a // b c \"\n d"), vec![identifier("a"), identifier("d"), TokenType::Eof]);
    assert_eq!(types("// only"), vec![TokenType::Eof]);
    assert_eq!(types("//"), vec![TokenType::Eof]);
    assert_eq!(types("a / b"), vec![identifier("a"), TokenType::Slash, identifier("b"), TokenType::Eof]);
    let tokens = scan("// one\n// two\nx").unwrap();
    assert_eq!(tokens[0].line, 3);
}

#[test]
fn scanning_again_adds_another_eof() {
    let mut scanner = Scanner::new("a".to_string());
    let first = scanner.scan_tokens().unwrap();
    assert_eq!(first.len(), 2);
    let second = scanner.scan_tokens().unwrap();
    assert_eq!(second.len(), 3);
    assert_eq!(second[2].token_type, TokenType::Eof);
}

#[test]
fn same_variant_ignores_payload() {
    assert!(identifier("a").same_variant(&identifier("b")));
    assert!(number("1").same_variant(&number("2")));
    assert!(string("x").same_variant(&string("")));
    assert!(!identifier("a").same_variant(&string("a")));
    assert!(!number("1").same_variant(&string("1")));
    assert!(TokenType::Plus.same_variant(&TokenType::Plus));
    assert!(!TokenType::Plus.same_variant(&TokenType::Minus));
    assert!(!TokenType::Eof.same_variant(&TokenType::Nil));
}

#[test]
fn tags_are_distinct() {
    let all = types(
        "( ) { } , . - + ; / * ! != = == > >= < <= a \"s\" 1 and class else false fun for if nil or \
         print return super this true var while",
    );
    assert_eq!(all.len(), 39);
    for (i, a) in all.iter().enumerate() {
        for (j, b) in all.iter().enumerate() {
            assert_eq!(a.tag() == b.tag(), i == j);
            assert_eq!(a.same_variant(b), i == j);
        }
        assert_eq!(a.is_eof(), i == 38);
    }
}

#[test]
fn token_new_and_clone() {
    let token = Token::new(identifier("abc"), "abc".to_string(), 7);
    assert_eq!(token.token_type, identifier("abc"));
    assert_eq!(token.lexeme, "abc");
    assert_eq!(token.line, 7);
    assert_eq!(token.clone(), token);
    let list = vec![token.clone(), Token::new(TokenType::Eof, String::new(), 8)];
    assert_eq!(clone_tokens(&list), list);
}

#[test]
fn decimal_numerals() {
    assert_eq!(decimal_string(0), "0");
    assert_eq!(decimal_string(7), "7");
    assert_eq!(decimal_string(10), "10");
    assert_eq!(decimal_string(255), "255");
    assert_eq!(decimal_string(1000), "1000");
    assert_eq!(decimal_string(9_876_543_210), "9876543210");
    assert_eq!(decimal_string(usize::MAX), usize::MAX.to_string());
    for d in 0..10 {
        assert_eq!(digit_char(d).to_string(), d.to_string());
    }
}

#[test]
fn text_helpers() {
    assert_eq!(characters("aé\n"), vec!['a', 'é', '\n']);
    assert_eq!(characters(""), Vec::<char>::new());
    let chars = characters("hello");
    assert_eq!(string_of(&chars, 1, 4), "ell");
    assert_eq!(string_of(&chars, 2, 2), "");
    assert_eq!(string_of(&chars, 0, 5), "hello");
    assert_eq!(join3("a", "bc", "d"), "abcd");
    assert_eq!(join3("", "", ""), "");
}
