//! The scanner: from source text to tokens, one token per call.
//!
//! What the scanner does is stated by [`scan`], a function from a source
//! text, a position in it and a line number to the next token and the
//! position and line after it. [`Scanner::scan_token`] computes that function.
//!
//! The input ends at the first `'\0'` or, where there is none, at the end of
//! the text.

use vstd::prelude::*;
use vstd::string::*;
use crate::text::characters;
use crate::text::text_of;
use crate::text::text_views;
use crate::token_type::TokenType;

verus! {

/// A token: its kind, its text and the line it ends on. The text of an error
/// token is a message, that of any other token the piece of source it was
/// read from.
#[derive(Debug)]
pub struct Token {
    pub _type: TokenType,
    pub lexeme: String,
    pub line: usize,
}

/// What a [`Token`] stands for.
pub ghost struct TokenView {
    pub _type: TokenType,
    pub lexeme: Seq<char>,
    pub line: usize,
}

impl View for Token {
    type V = TokenView;

    open spec fn view(&self) -> TokenView {
        TokenView { _type: self._type, lexeme: self.lexeme@, line: self.line }
    }
}

impl Clone for Token {
    fn clone(&self) -> (r: Token)
        ensures
            r == *self,
    {
        Token { _type: self._type, lexeme: self.lexeme.clone(), line: self.line }
    }
}

/// The character at a position, `'\0'` outside the text.
pub open spec fn char_at(source: Seq<char>, at: int) -> char {
    if 0 <= at < source.len() {
        source[at]
    } else {
        '\0'
    }
}

/// Whether the character is a decimal digit.
pub open spec fn digit(c: char) -> bool {
    '0' <= c <= '9'
}

/// Whether the character can start an identifier: a letter or `_`.
pub open spec fn alpha(c: char) -> bool {
    ('a' <= c <= 'z') || ('A' <= c <= 'Z') || c == '_'
}

/// The line number after one more line break. It stops at the largest number
/// that fits.
pub open spec fn next_line(line: usize) -> usize {
    if line < usize::MAX {
        (line + 1) as usize
    } else {
        line
    }
}

/// The first position from `at` on that holds a line break or ends the input.
pub open spec fn line_end(source: Seq<char>, at: int) -> int
    decreases source.len() - at,
{
    if at < 0 || at >= source.len() || source[at] == '\n' || source[at] == '\0' {
        at
    } else {
        line_end(source, at + 1)
    }
}

/// The position and line after the blanks, line breaks and `//` comments that
/// start at `at`.
pub open spec fn blank_end(source: Seq<char>, at: int, line: usize) -> (int, usize)
    decreases source.len() - at,
{
    let c = char_at(source, at);
    if at < 0 || at >= source.len() {
        (at, line)
    } else if c == ' ' || c == '\r' || c == '\t' {
        blank_end(source, at + 1, line)
    } else if c == '\n' {
        blank_end(source, at + 1, next_line(line))
    } else if c == '/' && char_at(source, at + 1) == '/' {
        proof {
            lemma_line_end_bounds(source, at + 2);
        }
        blank_end(source, line_end(source, at + 2), line)
    } else {
        (at, line)
    }
}

/// The first position from `at` on that holds neither a letter, `_` nor a
/// digit.
pub open spec fn identifier_end(source: Seq<char>, at: int) -> int
    decreases source.len() - at,
{
    if 0 <= at < source.len() && (alpha(source[at]) || digit(source[at])) {
        identifier_end(source, at + 1)
    } else {
        at
    }
}

/// The first position from `at` on that holds no digit.
pub open spec fn digits_end(source: Seq<char>, at: int) -> int
    decreases source.len() - at,
{
    if 0 <= at < source.len() && digit(source[at]) {
        digits_end(source, at + 1)
    } else {
        at
    }
}

/// The end of a number whose first digit stands before `at`: the digits
/// from `at` on and, if a `.` and a digit follow them, the fraction.
pub open spec fn number_end(source: Seq<char>, at: int) -> int {
    let whole = digits_end(source, at);
    if char_at(source, whole) == '.' && digit(char_at(source, whole + 1)) {
        digits_end(source, whole + 1)
    } else {
        whole
    }
}

/// The position of the `"` that closes a string whose content starts at
/// `at`, or of the end of the input if none does, and the line there.
pub open spec fn string_end(source: Seq<char>, at: int, line: usize) -> (int, usize)
    decreases source.len() - at,
{
    if at < 0 || at >= source.len() || source[at] == '"' || source[at] == '\0' {
        (at, line)
    } else if source[at] == '\n' {
        string_end(source, at + 1, next_line(line))
    } else {
        string_end(source, at + 1, line)
    }
}

/// The kind of an identifier: that of the keyword it spells, else
/// `TokenIdentifier`.
pub open spec fn identifier_kind(text: Seq<char>) -> TokenType {
    if text == "and"@ {
        TokenType::TokenAnd
    } else if text == "class"@ {
        TokenType::TokenClass
    } else if text == "else"@ {
        TokenType::TokenElse
    } else if text == "false"@ {
        TokenType::TokenFalse
    } else if text == "for"@ {
        TokenType::TokenFor
    } else if text == "fun"@ {
        TokenType::TokenFun
    } else if text == "if"@ {
        TokenType::TokenIf
    } else if text == "nil"@ {
        TokenType::TokenNil
    } else if text == "or"@ {
        TokenType::TokenOr
    } else if text == "print"@ {
        TokenType::TokenPrint
    } else if text == "return"@ {
        TokenType::TokenReturn
    } else if text == "super"@ {
        TokenType::TokenSuper
    } else if text == "this"@ {
        TokenType::TokenThis
    } else if text == "true"@ {
        TokenType::TokenTrue
    } else if text == "var"@ {
        TokenType::TokenVar
    } else if text == "while"@ {
        TokenType::TokenWhile
    } else {
        TokenType::TokenIdentifier
    }
}

/// The kind of the operator or punctuation mark that starts with `c`, given
/// whether a `=` follows it, and how many characters it takes. `None` where
/// `c` starts none.
pub open spec fn symbol_kind(c: char, equal_follows: bool) -> Option<(TokenType, int)> {
    if c == '(' {
        Some((TokenType::TokenLeftParen, 1))
    } else if c == ')' {
        Some((TokenType::TokenRightParen, 1))
    } else if c == '{' {
        Some((TokenType::TokenLeftBrace, 1))
    } else if c == '}' {
        Some((TokenType::TokenRightBrace, 1))
    } else if c == ';' {
        Some((TokenType::TokenSemicolon, 1))
    } else if c == ',' {
        Some((TokenType::TokenComma, 1))
    } else if c == '.' {
        Some((TokenType::TokenDot, 1))
    } else if c == '-' {
        if equal_follows { Some((TokenType::TokenMinusEqual, 2)) } else { Some((TokenType::TokenMinus, 1)) }
    } else if c == '+' {
        if equal_follows { Some((TokenType::TokenPlusEqual, 2)) } else { Some((TokenType::TokenPlus, 1)) }
    } else if c == '/' {
        if equal_follows { Some((TokenType::TokenSlashEqual, 2)) } else { Some((TokenType::TokenSlash, 1)) }
    } else if c == '*' {
        if equal_follows { Some((TokenType::TokenStarEqual, 2)) } else { Some((TokenType::TokenStar, 1)) }
    } else if c == '^' {
        if equal_follows { Some((TokenType::TokenCaratEqual, 2)) } else { Some((TokenType::TokenCarat, 1)) }
    } else if c == '!' {
        if equal_follows { Some((TokenType::TokenBangEqual, 2)) } else { Some((TokenType::TokenBang, 1)) }
    } else if c == '=' {
        if equal_follows { Some((TokenType::TokenEqualEqual, 2)) } else { Some((TokenType::TokenEqual, 1)) }
    } else if c == '<' {
        if equal_follows { Some((TokenType::TokenLessEqual, 2)) } else { Some((TokenType::TokenLess, 1)) }
    } else if c == '>' {
        if equal_follows { Some((TokenType::TokenGreaterEqual, 2)) } else { Some((TokenType::TokenGreater, 1)) }
    } else {
        None
    }
}

/// The outcome of reading one token: the token, where it starts, and the
/// position and line after it.
pub ghost struct Scanned {
    pub token: TokenView,
    pub start: int,
    pub current: int,
    pub line: usize,
}

/// A token of the given kind whose text is the source from `start` to `end`.
pub open spec fn token_of(source: Seq<char>, kind: TokenType, start: int, end: int, line: usize) -> Scanned {
    Scanned {
        token: TokenView { _type: kind, lexeme: source.subrange(start, end), line },
        start,
        current: end,
        line,
    }
}

/// An error token with the given message, read up to `end`.
pub open spec fn error_of(message: Seq<char>, start: int, end: int, line: usize) -> Scanned {
    Scanned {
        token: TokenView { _type: TokenType::TokenError, lexeme: message, line },
        start,
        current: end,
        line,
    }
}

/// The next token of `source` from position `at` on, where `line` is the line
/// of that position.
///
/// Blanks and comments are skipped. At the end of the input the token is
/// `TokenEOF`, with no text. A letter or `_` starts an identifier or keyword,
/// a digit a number, `"` a string that runs to the next `"` and may span
/// lines. An operator takes a following `=` with it where that makes an
/// operator. Anything else, and a string that is not closed, gives an error
/// token.
pub open spec fn scan(source: Seq<char>, at: int, line: usize) -> Scanned {
    let (start, line) = blank_end(source, at, line);
    let c = char_at(source, start);
    if c == '\0' {
        token_of(source, TokenType::TokenEOF, start, start, line)
    } else if alpha(c) {
        let end = identifier_end(source, start + 1);
        token_of(source, identifier_kind(source.subrange(start, end)), start, end, line)
    } else if digit(c) {
        token_of(source, TokenType::TokenNumber, start, number_end(source, start + 1), line)
    } else if c == '"' {
        let (close, line) = string_end(source, start + 1, line);
        if char_at(source, close) == '"' {
            token_of(source, TokenType::TokenString, start, close + 1, line)
        } else {
            error_of("Unterminated String."@, start, close, line)
        }
    } else {
        match symbol_kind(c, char_at(source, start + 1) == '=') {
            Some((kind, width)) => token_of(source, kind, start, start + width, line),
            None => error_of("Unexpected Character."@, start, start + 1, line),
        }
    }
}

/// A scanner over one source text: the text, where the token being read
/// starts, the position after the last character read, and the line of that
/// position.
pub struct Scanner {
    source: Vec<char>,
    start: usize,
    current: usize,
    line: usize,
}

/// What a [`Scanner`] stands for.
pub ghost struct ScannerView {
    pub source: Seq<char>,
    pub start: int,
    pub current: int,
    pub line: usize,
}

impl View for Scanner {
    type V = ScannerView;

    closed spec fn view(&self) -> ScannerView {
        ScannerView {
            source: self.source@,
            start: self.start as int,
            current: self.current as int,
            line: self.line,
        }
    }
}

impl ScannerView {
    /// The state of a scanner that has read nothing of `source` yet.
    pub open spec fn fresh(source: Seq<char>) -> ScannerView {
        ScannerView { source, start: 0, current: 0, line: 1 }
    }

    /// The state after the token that [`scan`] reads in this state.
    pub open spec fn after_scan(self) -> ScannerView {
        let scanned = scan(self.source, self.current, self.line);
        ScannerView {
            source: self.source,
            start: scanned.start,
            current: scanned.current,
            line: scanned.line,
        }
    }

    /// The positions lie in the text, the start of the token not after the
    /// current position.
    pub open spec fn in_bounds(self) -> bool {
        0 <= self.start <= self.current <= self.source.len()
    }
}

impl Scanner {
    #[verifier::type_invariant]
    spec fn well_formed(&self) -> bool {
        self.start <= self.current <= self.source@.len()
    }

    /// A scanner over the empty text.
    pub fn new() -> (r: Scanner)
        ensures
            r@ == ScannerView::fresh(seq![]),
    {
        Scanner { source: Vec::new(), start: 0, current: 0, line: 1 }
    }

    /// Starts over, at the first line of a new text.
    pub fn load(&mut self, source: String)
        ensures
            final(self)@ == ScannerView::fresh(source@),
    {
        *self = Scanner { source: characters(source.as_str()), start: 0, current: 0, line: 1 };
    }

    /// Reads the next token.
    pub fn scan_token(&mut self) -> (token: Token)
        ensures
            token@ == scan(old(self)@.source, old(self)@.current, old(self)@.line).token,
            final(self)@ == old(self)@.after_scan(),
            final(self)@.in_bounds(),
    {
        proof {
            use_type_invariant(&*self);
        }
        self.skip_white_space();
        proof {
            use_type_invariant(&*self);
        }
        self.start = self.current;
        if self.is_at_end() {
            return self.make_token(TokenType::TokenEOF);
        }
        let c = self.advance();
        if self.is_alpha(c) {
            return self.identifier();
        }
        if self.is_digit(c) {
            return self.number();
        }
        if c == '"' {
            return self.string();
        }
        let equal_follows = self.peek() == '=';
        let kind = match c {
            '(' => TokenType::TokenLeftParen,
            ')' => TokenType::TokenRightParen,
            '{' => TokenType::TokenLeftBrace,
            '}' => TokenType::TokenRightBrace,
            ';' => TokenType::TokenSemicolon,
            ',' => TokenType::TokenComma,
            '.' => TokenType::TokenDot,
            '-' => if equal_follows { TokenType::TokenMinusEqual } else { TokenType::TokenMinus },
            '+' => if equal_follows { TokenType::TokenPlusEqual } else { TokenType::TokenPlus },
            '/' => if equal_follows { TokenType::TokenSlashEqual } else { TokenType::TokenSlash },
            '*' => if equal_follows { TokenType::TokenStarEqual } else { TokenType::TokenStar },
            '^' => if equal_follows { TokenType::TokenCaratEqual } else { TokenType::TokenCarat },
            '!' => if equal_follows { TokenType::TokenBangEqual } else { TokenType::TokenBang },
            '=' => if equal_follows { TokenType::TokenEqualEqual } else { TokenType::TokenEqual },
            '<' => if equal_follows { TokenType::TokenLessEqual } else { TokenType::TokenLess },
            '>' => if equal_follows { TokenType::TokenGreaterEqual } else { TokenType::TokenGreater },
            _ => {
                return self.error_token("Unexpected Character.");
            },
        };
        if c != '(' && c != ')' && c != '{' && c != '}' && c != ';' && c != ',' && c != '.' {
            let _ = self.matching('=');
        }
        self.make_token(kind)
    }

    /// Consumes the current character if it is the expected one.
    fn matching(&mut self, expected: char) -> (r: bool)
        ensures
            r == (char_at(old(self)@.source, old(self)@.current) == expected && expected != '\0'),
            final(self)@ == (ScannerView {
                current: if r { old(self)@.current + 1 } else { old(self)@.current },
                ..old(self)@
            }),
            r ==> old(self)@.current < old(self)@.source.len(),
    {
        proof {
            use_type_invariant(&*self);
        }
        if self.is_at_end() {
            return false;
        }
        let length = self.source.len();
        if self.peek() != expected {
            false
        } else {
            assert(self.current < length);
            self.current = self.current + 1;
            true
        }
    }

    /// Consumes the current character and returns it.
    fn advance(&mut self) -> (c: char)
        requires
            old(self)@.current < old(self)@.source.len(),
        ensures
            c == old(self)@.source[old(self)@.current],
            final(self)@ == (ScannerView { current: old(self)@.current + 1, ..old(self)@ }),
    {
        proof {
            use_type_invariant(&*self);
        }
        let length = self.source.len();
        let c = self.source[self.current];
        assert(self.current < length);
        self.current = self.current + 1;
        c
    }

    /// Whether the input ends at the current position.
    fn is_at_end(&self) -> (r: bool)
        ensures
            r == (char_at(self@.source, self@.current) == '\0'),
            !r ==> self@.current < self@.source.len(),
    {
        self.peek() == '\0'
    }

    /// The current character, without consuming it.
    fn peek(&self) -> (c: char)
        ensures
            c == char_at(self@.source, self@.current),
    {
        proof {
            use_type_invariant(self);
        }
        if self.current < self.source.len() {
            self.source[self.current]
        } else {
            '\0'
        }
    }

    /// The character after the current one.
    fn peek_next(&self) -> (c: char)
        ensures
            c == char_at(self@.source, self@.current + 1),
    {
        proof {
            use_type_invariant(self);
        }
        if self.current < self.source.len() && self.current + 1 < self.source.len() {
            self.source[self.current + 1]
        } else {
            '\0'
        }
    }

    /// Whether the character is a decimal digit.
    pub fn is_digit(&self, c: char) -> (r: bool)
        ensures
            r == digit(c),
    {
        (c >= '0') && (c <= '9')
    }

    /// Whether the character is a letter or `_`.
    pub fn is_alpha(&self, c: char) -> (r: bool)
        ensures
            r == alpha(c),
    {
        (c >= 'a' && c <= 'z') || (c >= 'A' && c <= 'Z') || (c == '_')
    }

    /// Reads the rest of an identifier or keyword whose first character has
    /// been consumed.
    fn identifier(&mut self) -> (token: Token)
        requires
            old(self)@.start < old(self)@.current,
        ensures
            ({
                let end = identifier_end(old(self)@.source, old(self)@.current);
                let text = old(self)@.source.subrange(old(self)@.start, end);
                &&& final(self)@ == (ScannerView { current: end, ..old(self)@ })
                &&& token@ == (TokenView {
                    _type: identifier_kind(text),
                    lexeme: text,
                    line: old(self)@.line,
                })
            }),
            final(self)@.in_bounds(),
    {
        proof {
            use_type_invariant(&*self);
        }
        let mut c = self.peek();
        while self.is_alpha(c) || self.is_digit(c)
            invariant
                self.well_formed(),
                self@.source == old(self)@.source,
                self@.start == old(self)@.start,
                self@.line == old(self)@.line,
                old(self)@.current <= self@.current,
                c == char_at(self@.source, self@.current),
                identifier_end(self@.source, self@.current) == identifier_end(
                    old(self)@.source,
                    old(self)@.current,
                ),
            decreases self@.source.len() - self@.current,
        {
            self.advance();
            c = self.peek();
            proof {
                use_type_invariant(&*self);
            }
        }
        let kind = self.identifier_type();
        self.make_token(kind)
    }

    /// The kind of the identifier that has just been read.
    fn identifier_type(&self) -> (kind: TokenType)
        requires
            self@.start < self@.current,
        ensures
            kind == identifier_kind(self@.source.subrange(self@.start, self@.current)),
    {
        proof {
            use_type_invariant(self);
            reveal_strlit("and");
            reveal_strlit("class");
            reveal_strlit("else");
            reveal_strlit("false");
            reveal_strlit("for");
            reveal_strlit("fun");
            reveal_strlit("if");
            reveal_strlit("nil");
            reveal_strlit("or");
            reveal_strlit("print");
            reveal_strlit("return");
            reveal_strlit("super");
            reveal_strlit("this");
            reveal_strlit("true");
            reveal_strlit("var");
            reveal_strlit("while");
            reveal_strlit("nd");
            reveal_strlit("lass");
            reveal_strlit("lse");
            reveal_strlit("r");
            reveal_strlit("n");
            reveal_strlit("f");
            reveal_strlit("il");
            reveal_strlit("rint");
            reveal_strlit("eturn");
            reveal_strlit("uper");
            reveal_strlit("is");
            reveal_strlit("ue");
            reveal_strlit("ar");
            reveal_strlit("hile");
        }
        let ghost text = self@.source.subrange(self@.start, self@.current);
        proof {
            lemma_spelling(text, "and"@, 1, "nd"@);
            lemma_spelling(text, "class"@, 1, "lass"@);
            lemma_spelling(text, "else"@, 1, "lse"@);
            lemma_spelling(text, "false"@, 2, "lse"@);
            lemma_spelling(text, "for"@, 2, "r"@);
            lemma_spelling(text, "fun"@, 2, "n"@);
            lemma_spelling(text, "if"@, 1, "f"@);
            lemma_spelling(text, "nil"@, 1, "il"@);
            lemma_spelling(text, "or"@, 1, "r"@);
            lemma_spelling(text, "print"@, 1, "rint"@);
            lemma_spelling(text, "return"@, 1, "eturn"@);
            lemma_spelling(text, "super"@, 1, "uper"@);
            lemma_spelling(text, "this"@, 2, "is"@);
            lemma_spelling(text, "true"@, 2, "ue"@);
            lemma_spelling(text, "var"@, 1, "ar"@);
            lemma_spelling(text, "while"@, 1, "hile"@);
        }
        assert(text.len() == self@.current - self@.start);
        assert(text[0] == self@.source[self@.start]);
        let first = self.source[self.start];
        let long = self.current - self.start > 1;
        let second = if long {
            assert(text[1] == self@.source[self@.start + 1]);
            self.source[self.start + 1]
        } else {
            '\0'
        };
        match first {
            'a' => self.check_keyword(1, 2, "nd", TokenType::TokenAnd),
            'c' => self.check_keyword(1, 4, "lass", TokenType::TokenClass),
            'e' => self.check_keyword(1, 3, "lse", TokenType::TokenElse),
            'f' => {
                if long {
                    match second {
                        'a' => self.check_keyword(2, 3, "lse", TokenType::TokenFalse),
                        'o' => self.check_keyword(2, 1, "r", TokenType::TokenFor),
                        'u' => self.check_keyword(2, 1, "n", TokenType::TokenFun),
                        _ => TokenType::TokenIdentifier,
                    }
                } else {
                    TokenType::TokenIdentifier
                }
            },
            'i' => self.check_keyword(1, 1, "f", TokenType::TokenIf),
            'n' => self.check_keyword(1, 2, "il", TokenType::TokenNil),
            'o' => self.check_keyword(1, 1, "r", TokenType::TokenOr),
            'p' => self.check_keyword(1, 4, "rint", TokenType::TokenPrint),
            'r' => self.check_keyword(1, 5, "eturn", TokenType::TokenReturn),
            's' => self.check_keyword(1, 4, "uper", TokenType::TokenSuper),
            't' => {
                if long {
                    match second {
                        'h' => self.check_keyword(2, 2, "is", TokenType::TokenThis),
                        'r' => self.check_keyword(2, 2, "ue", TokenType::TokenTrue),
                        _ => TokenType::TokenIdentifier,
                    }
                } else {
                    TokenType::TokenIdentifier
                }
            },
            'v' => self.check_keyword(1, 2, "ar", TokenType::TokenVar),
            'w' => self.check_keyword(1, 4, "hile", TokenType::TokenWhile),
            _ => TokenType::TokenIdentifier,
        }
    }

    /// `kind` if the identifier just read has `skip + length` characters and
    /// those after the first `skip` spell `rest`; else `TokenIdentifier`.
    fn check_keyword(&self, skip: usize, length: usize, rest: &str, kind: TokenType) -> (r:
        TokenType)
        requires
            skip <= 2,
            length <= 5,
            rest@.len() == length,
        ensures
            ({
                let text = self@.source.subrange(self@.start, self@.current);
                r == if text.len() == skip + length && text.subrange(skip as int, text.len() as int)
                    == rest@ {
                    kind
                } else {
                    TokenType::TokenIdentifier
                }
            }),
    {
        proof {
            use_type_invariant(self);
        }
        if self.current - self.start != skip + length {
            return TokenType::TokenIdentifier;
        }
        let tail = text_of(&self.source, self.start + skip, self.current);
        let ghost text = self@.source.subrange(self@.start, self@.current);
        assert(tail@ =~= text.subrange(skip as int, text.len() as int));
        if tail == String::from_str(rest) {
            kind
        } else {
            TokenType::TokenIdentifier
        }
    }

    /// Reads the rest of a number whose first digit has been consumed.
    fn number(&mut self) -> (token: Token)
        ensures
            ({
                let end = number_end(old(self)@.source, old(self)@.current);
                &&& final(self)@ == (ScannerView { current: end, ..old(self)@ })
                &&& token@ == (TokenView {
                    _type: TokenType::TokenNumber,
                    lexeme: old(self)@.source.subrange(old(self)@.start, end),
                    line: old(self)@.line,
                })
            }),
            final(self)@.in_bounds(),
    {
        self.digits();
        let after = self.peek_next();
        if self.peek() == '.' && self.is_digit(after) {
            // consume the "."
            self.advance();
            self.digits();
        }
        proof {
            use_type_invariant(&*self);
        }
        self.make_token(TokenType::TokenNumber)
    }

    /// Consumes the digits at the current position.
    fn digits(&mut self)
        ensures
            final(self)@ == (ScannerView {
                current: digits_end(old(self)@.source, old(self)@.current),
                ..old(self)@
            }),
    {
        proof {
            use_type_invariant(&*self);
        }
        let mut c = self.peek();
        while self.is_digit(c)
            invariant
                self.well_formed(),
                self@.source == old(self)@.source,
                self@.start == old(self)@.start,
                self@.line == old(self)@.line,
                c == char_at(self@.source, self@.current),
                digits_end(self@.source, self@.current) == digits_end(
                    old(self)@.source,
                    old(self)@.current,
                ),
            decreases self@.source.len() - self@.current,
        {
            self.advance();
            c = self.peek();
            proof {
                use_type_invariant(&*self);
            }
        }
    }

    /// Reads the rest of a string whose opening `"` has been consumed.
    fn string(&mut self) -> (token: Token)
        ensures
            ({
                let source = old(self)@.source;
                let (close, line) = string_end(source, old(self)@.current, old(self)@.line);
                if char_at(source, close) == '"' {
                    &&& final(self)@ == (ScannerView { current: close + 1, line, ..old(self)@ })
                    &&& token@ == (TokenView {
                        _type: TokenType::TokenString,
                        lexeme: source.subrange(old(self)@.start, close + 1),
                        line,
                    })
                } else {
                    &&& final(self)@ == (ScannerView { current: close, line, ..old(self)@ })
                    &&& token@ == (TokenView {
                        _type: TokenType::TokenError,
                        lexeme: "Unterminated String."@,
                        line,
                    })
                }
            }),
            final(self)@.in_bounds(),
    {
        proof {
            use_type_invariant(&*self);
        }
        let mut c = self.peek();
        while c != '"' && c != '\0'
            invariant
                self.well_formed(),
                self@.source == old(self)@.source,
                self@.start == old(self)@.start,
                c == char_at(self@.source, self@.current),
                string_end(self@.source, self@.current, self@.line) == string_end(
                    old(self)@.source,
                    old(self)@.current,
                    old(self)@.line,
                ),
            decreases self@.source.len() - self@.current,
        {
            self.advance();
            if c == '\n' {
                self.next_line();
            }
            c = self.peek();
            proof {
                use_type_invariant(&*self);
            }
        }
        if self.is_at_end() {
            return self.error_token("Unterminated String.");
        }
        // The closing quote
        self.advance();
        self.make_token(TokenType::TokenString)
    }

    /// Counts one more line.
    fn next_line(&mut self)
        ensures
            final(self)@ == (ScannerView { line: next_line(old(self)@.line), ..old(self)@ }),
    {
        proof {
            use_type_invariant(&*self);
        }
        if self.line < usize::MAX {
            self.line = self.line + 1;
        }
    }

    /// Consumes blanks, line breaks and comments up to the next token.
    fn skip_white_space(&mut self)
        ensures
            ({
                let (at, line) = blank_end(old(self)@.source, old(self)@.current, old(self)@.line);
                final(self)@ == (ScannerView { current: at, line, ..old(self)@ })
            }),
    {
        proof {
            use_type_invariant(&*self);
        }
        loop
            invariant
                self.well_formed(),
                self@.source == old(self)@.source,
                self@.start == old(self)@.start,
                blank_end(self@.source, self@.current, self@.line) == blank_end(
                    old(self)@.source,
                    old(self)@.current,
                    old(self)@.line,
                ),
            ensures
                self.well_formed(),
                self@.source == old(self)@.source,
                self@.start == old(self)@.start,
                (self@.current, self@.line) == blank_end(
                    old(self)@.source,
                    old(self)@.current,
                    old(self)@.line,
                ),
            decreases self@.source.len() - self@.current,
        {
            let c = self.peek();
            match c {
                ' ' | '\r' | '\t' => {
                    self.advance();
                },
                '\n' => {
                    self.advance();
                    self.next_line();
                },
                '/' => {
                    if self.peek_next() == '/' {
                        self.advance();
                        self.advance();
                        self.skip_line();
                    } else {
                        break;
                    }
                },
                _ => {
                    break;
                },
            }
            proof {
                use_type_invariant(&*self);
            }
        }
    }

    /// Consumes the rest of the line, up to its line break.
    fn skip_line(&mut self)
        ensures
            final(self)@ == (ScannerView {
                current: line_end(old(self)@.source, old(self)@.current),
                ..old(self)@
            }),
            old(self)@.current <= final(self)@.current,
    {
        proof {
            use_type_invariant(&*self);
        }
        let mut c = self.peek();
        while c != '\n' && c != '\0'
            invariant
                self.well_formed(),
                self@.source == old(self)@.source,
                self@.start == old(self)@.start,
                self@.line == old(self)@.line,
                old(self)@.current <= self@.current,
                c == char_at(self@.source, self@.current),
                line_end(self@.source, self@.current) == line_end(
                    old(self)@.source,
                    old(self)@.current,
                ),
            decreases self@.source.len() - self@.current,
        {
            self.advance();
            c = self.peek();
            proof {
                use_type_invariant(&*self);
            }
        }
    }

    /// The token of the given kind whose text is what has been read since the
    /// start of the token.
    fn make_token(&self, kind: TokenType) -> (token: Token)
        ensures
            token@ == (TokenView {
                _type: kind,
                lexeme: self@.source.subrange(self@.start, self@.current),
                line: self@.line,
            }),
            self@.in_bounds(),
    {
        proof {
            use_type_invariant(self);
        }
        Token {
            _type: kind,
            lexeme: text_of(&self.source, self.start, self.current),
            line: self.line,
        }
    }

    /// An error token that carries a message.
    fn error_token(&self, message: &str) -> (token: Token)
        ensures
            token@ == (TokenView {
                _type: TokenType::TokenError,
                lexeme: message@,
                line: self@.line,
            }),
            self@.in_bounds(),
    {
        proof {
            use_type_invariant(self);
        }
        Token { _type: TokenType::TokenError, lexeme: String::from_str(message), line: self.line }
    }
}

/// A text spells a word exactly when it has the word's length, starts with
/// the word's first `skip` characters and goes on with the rest of the word.
proof fn lemma_spelling(text: Seq<char>, word: Seq<char>, skip: int, rest: Seq<char>)
    requires
        1 <= skip <= 2,
        skip <= word.len(),
        rest.len() == word.len() - skip,
        forall|i: int| 0 <= i < rest.len() ==> rest[i] == word[skip + i],
    ensures
        text == word <==> {
            &&& text.len() == word.len()
            &&& text[0] == word[0]
            &&& skip == 2 ==> text[1] == word[1]
            &&& text.subrange(skip, text.len() as int) == rest
        },
{
    if text == word {
        assert(text.subrange(skip, text.len() as int) =~= rest);
    }
    if text.len() == word.len() && text[0] == word[0] && (skip == 2 ==> text[1] == word[1])
        && text.subrange(skip, text.len() as int) == rest {
        assert forall|i: int| 0 <= i < text.len() implies text[i] == word[i] by {
            if i >= skip {
                assert(text[i] == text.subrange(skip, text.len() as int)[i - skip]);
            }
        }
        assert(text =~= word);
    }
}

/// `line_end` does not go back, and stays within the text.
pub proof fn lemma_line_end_bounds(source: Seq<char>, at: int)
    requires
        0 <= at <= source.len(),
    ensures
        at <= line_end(source, at) <= source.len(),
    decreases source.len() - at,
{
    if at < source.len() && source[at] != '\n' && source[at] != '\0' {
        lemma_line_end_bounds(source, at + 1);
    }
}

/// Skipping blanks does not go back, and stays within the text.
pub proof fn lemma_blank_end_bounds(source: Seq<char>, at: int, line: usize)
    requires
        0 <= at <= source.len(),
    ensures
        at <= blank_end(source, at, line).0 <= source.len(),
    decreases source.len() - at,
{
    let c = char_at(source, at);
    if at >= source.len() {
    } else if c == ' ' || c == '\r' || c == '\t' {
        lemma_blank_end_bounds(source, at + 1, line);
    } else if c == '\n' {
        lemma_blank_end_bounds(source, at + 1, next_line(line));
    } else if c == '/' && char_at(source, at + 1) == '/' {
        lemma_line_end_bounds(source, at + 2);
        lemma_blank_end_bounds(source, line_end(source, at + 2), line);
    }
}

/// The end of an identifier is not before its start, and within the text.
pub proof fn lemma_identifier_end_bounds(source: Seq<char>, at: int)
    requires
        0 <= at <= source.len(),
    ensures
        at <= identifier_end(source, at) <= source.len(),
    decreases source.len() - at,
{
    if at < source.len() && (alpha(source[at]) || digit(source[at])) {
        lemma_identifier_end_bounds(source, at + 1);
    }
}

/// The end of a run of digits is not before its start, and within the text.
pub proof fn lemma_digits_end_bounds(source: Seq<char>, at: int)
    requires
        0 <= at <= source.len(),
    ensures
        at <= digits_end(source, at) <= source.len(),
    decreases source.len() - at,
{
    if at < source.len() && digit(source[at]) {
        lemma_digits_end_bounds(source, at + 1);
    }
}

/// The end of a string is not before its start, and within the text.
pub proof fn lemma_string_end_bounds(source: Seq<char>, at: int, line: usize)
    requires
        0 <= at <= source.len(),
    ensures
        at <= string_end(source, at, line).0 <= source.len(),
    decreases source.len() - at,
{
    if at < source.len() && source[at] != '"' && source[at] != '\0' {
        if source[at] == '\n' {
            lemma_string_end_bounds(source, at + 1, next_line(line));
        } else {
            lemma_string_end_bounds(source, at + 1, line);
        }
    }
}

/// A token lies within the text, after the position it was looked for at.
/// Every token but the end of the input takes at least one character; the
/// end of the input takes none and stands where the input ends.
pub proof fn lemma_scan_bounds(source: Seq<char>, at: int, line: usize)
    requires
        0 <= at <= source.len(),
    ensures
        ({
            let scanned = scan(source, at, line);
            &&& at <= scanned.start <= scanned.current <= source.len()
            &&& scanned.token._type != TokenType::TokenEOF ==> scanned.start < scanned.current
            &&& scanned.token._type == TokenType::TokenEOF ==> scanned.start == scanned.current
                && char_at(source, scanned.current) == '\0'
            &&& scanned.token._type != TokenType::Undefined
        }),
{
    lemma_blank_end_bounds(source, at, line);
    let (start, line) = blank_end(source, at, line);
    let c = char_at(source, start);
    if c == '\0' {
    } else if alpha(c) {
        lemma_identifier_end_bounds(source, start + 1);
    } else if digit(c) {
        lemma_digits_end_bounds(source, start + 1);
        let whole = digits_end(source, start + 1);
        if char_at(source, whole) == '.' && digit(char_at(source, whole + 1)) {
            lemma_digits_end_bounds(source, whole + 1);
        }
    } else if c == '"' {
        lemma_string_end_bounds(source, start + 1, line);
    } else {
    }
}

/// Where the input ends, the next token is the end of the input, and
/// reading it moves nothing.
pub proof fn lemma_scan_at_end(source: Seq<char>, at: int, line: usize)
    requires
        0 <= at <= source.len(),
        char_at(source, at) == '\0',
    ensures
        scan(source, at, line) == token_of(source, TokenType::TokenEOF, at, at, line),
{
}

/// The texts of the number literals of a source from position `at` on, in
/// the order in which they stand.
pub open spec fn number_texts(source: Seq<char>, at: int, line: usize) -> Seq<Seq<char>>
    decreases source.len() - at,
{
    let scanned = scan(source, at, line);
    if scanned.token._type == TokenType::TokenEOF || !(at < scanned.current <= source.len()) {
        seq![]
    } else if scanned.token._type == TokenType::TokenNumber {
        seq![scanned.token.lexeme] + number_texts(source, scanned.current, scanned.line)
    } else {
        number_texts(source, scanned.current, scanned.line)
    }
}

/// The texts of the number literals of a source, in the order in which they
/// stand. The embedding program converts each to the number it denotes, for
/// the compiler's table of numbers.
pub fn number_literals(source: &str) -> (texts: Vec<String>)
    ensures
        text_views(texts@) == number_texts(source@, 0, 1),
{
    let mut scanner = Scanner::new();
    scanner.load(String::from_str(source));
    let mut texts: Vec<String> = Vec::new();
    assert(text_views(texts@) =~= seq![]);
    loop
        invariant
            scanner@.source == source@,
            0 <= scanner@.current <= source@.len(),
            text_views(texts@) + number_texts(
                source@,
                scanner@.current,
                scanner@.line,
            ) == number_texts(source@, 0, 1),
        ensures
            text_views(texts@) == number_texts(source@, 0, 1),
        decreases source@.len() - scanner@.current,
    {
        proof {
            lemma_scan_bounds(source@, scanner@.current, scanner@.line);
        }
        let ghost before = text_views(texts@);
        let ghost rest = number_texts(source@, scanner@.current, scanner@.line);
        let token = scanner.scan_token();
        if token._type == TokenType::TokenEOF {
            assert(before + rest =~= before);
            break ;
        }
        if token._type == TokenType::TokenNumber {
            texts.push(token.lexeme);
            assert(text_views(texts@) =~= before.push(token@.lexeme));
            assert(before.push(token@.lexeme) + number_texts(
                source@,
                scanner@.current,
                scanner@.line,
            ) =~= before + rest);
        }
    }
    texts
}

} // verus!
