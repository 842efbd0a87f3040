use loxvm::scanner::Scanner;
use loxvm::scanner::Token;
use loxvm::token_type::TokenType;

fn tokens(source: &str) -> Vec<Token> {
    let mut scanner = Scanner::new();
    scanner.load(source.to_string());
    let mut found = Vec::new();
    loop {
        let token = scanner.scan_token();
        let done = token._type == TokenType::TokenEOF;
        found.push(token);
        if done {
            return found;
        }
    }
}

fn kinds(source: &str) -> Vec<TokenType> {
    tokens(source).iter().map(|t| t._type).collect()
}

#[test]
fn scans_print_statement() {
    let found = tokens("print 1 + 2;\0");
    let texts: Vec<&str> = found.iter().map(|t| t.lexeme.as_str()).collect();
    assert_eq!(texts, vec!["print", "1", "+", "2", ";", ""]);
    assert_eq!(
        kinds("print 1 + 2;\0"),
        vec![
            TokenType::TokenPrint,
            TokenType::TokenNumber,
            TokenType::TokenPlus,
            TokenType::TokenNumber,
            TokenType::TokenSemicolon,
            TokenType::TokenEOF
        ]
    );
}

#[test]
fn scans_two_character_operators_greedily() {
    assert_eq!(
        kinds("!= == <= >= += -= *= /= ^= ! = < > + - * / ^"),
        vec![
            TokenType::TokenBangEqual,
            TokenType::TokenEqualEqual,
            TokenType::TokenLessEqual,
            TokenType::TokenGreaterEqual,
            TokenType::TokenPlusEqual,
            TokenType::TokenMinusEqual,
            TokenType::TokenStarEqual,
            TokenType::TokenSlashEqual,
            TokenType::TokenCaratEqual,
            TokenType::TokenBang,
            TokenType::TokenEqual,
            TokenType::TokenLess,
            TokenType::TokenGreater,
            TokenType::TokenPlus,
            TokenType::TokenMinus,
            TokenType::TokenStar,
            TokenType::TokenSlash,
            TokenType::TokenCarat,
            TokenType::TokenEOF
        ]
    );
}

#[test]
fn scans_keywords_and_identifiers() {
    assert_eq!(
        kinds("and class else false for fun if nil or print return super this true var while"),
        vec![
            TokenType::TokenAnd,
            TokenType::TokenClass,
            TokenType::TokenElse,
            TokenType::TokenFalse,
            TokenType::TokenFor,
            TokenType::TokenFun,
            TokenType::TokenIf,
            TokenType::TokenNil,
            TokenType::TokenOr,
            TokenType::TokenPrint,
            TokenType::TokenReturn,
            TokenType::TokenSuper,
            TokenType::TokenThis,
            TokenType::TokenTrue,
            TokenType::TokenVar,
            TokenType::TokenWhile,
            TokenType::TokenEOF
        ]
    );
    assert_eq!(
        kinds("andy f fo fals _x x1 whiles t th"),
        vec![
            TokenType::TokenIdentifier,
            TokenType::TokenIdentifier,
            TokenType::TokenIdentifier,
            TokenType::TokenIdentifier,
            TokenType::TokenIdentifier,
            TokenType::TokenIdentifier,
            TokenType::TokenIdentifier,
            TokenType::TokenIdentifier,
            TokenType::TokenIdentifier,
            TokenType::TokenEOF
        ]
    );
}

#[test]
fn scans_numbers_with_fraction_only_before_a_digit() {
    let found = tokens("12.5 7. .5");
    let texts: Vec<&str> = found.iter().map(|t| t.lexeme.as_str()).collect();
    assert_eq!(texts, vec!["12.5", "7", ".", ".", "5", ""]);
}

#[test]
fn counts_lines_in_blanks_comments_and_strings() {
    let found = tokens("a // note\nb \"x\ny\" c\n");
    let lines: Vec<usize> = found.iter().map(|t| t.line).collect();
    assert_eq!(lines, vec![1, 2, 3, 3, 4]);
    assert_eq!(found[2]._type, TokenType::TokenString);
    assert_eq!(found[2].lexeme, "\"x\ny\"");
}

#[test]
fn unterminated_string_is_an_error_token() {
    let found = tokens("\"abc");
    assert_eq!(found[0]._type, TokenType::TokenError);
    assert_eq!(found[0].lexeme, "Unterminated String.");
    assert_eq!(found[1]._type, TokenType::TokenEOF);
}

#[test]
fn unexpected_character_is_an_error_token() {
    let found = tokens("@");
    assert_eq!(found[0]._type, TokenType::TokenError);
    assert_eq!(found[0].lexeme, "Unexpected Character.");
}

#[test]
fn input_ends_at_the_terminator() {
    assert_eq!(kinds("a\0b"), vec![TokenType::TokenIdentifier, TokenType::TokenEOF]);
    let mut scanner = Scanner::new();
    scanner.load("\0".to_string());
    assert_eq!(scanner.scan_token()._type, TokenType::TokenEOF);
    assert_eq!(scanner.scan_token()._type, TokenType::TokenEOF);
}
