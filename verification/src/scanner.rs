//! The scanner: source characters to tokens.
//!
//! [`scan`] says, as a function of the source characters alone, which token
//! sequence or which error a source text yields. [`Scanner::scan_tokens`]
//! computes exactly that.

use vstd::prelude::*;
use crate::text::{alphabetic, alphanumeric, characters, decimal, decimal_string, is_digit, string_of};
use crate::token::{token_views, Token, TokenType, TokenTypeView, TokenView, clone_tokens};

verus! {

/// The kinds of character run that a token or a comment may extend over.
pub enum Run {
    /// ASCII digits.
    Digits,
    /// Letters and digits, after the first letter of a word.
    Word,
    /// Everything up to the end of the line.
    Comment,
    /// Everything up to the next double quote.
    Quoted,
}

/// Whether a character may continue a run of the given kind.
pub open spec fn continues(c: char, run: Run) -> bool {
    match run {
        Run::Digits => is_digit(c),
        Run::Word => alphanumeric(c),
        Run::Comment => c != '\n',
        Run::Quoted => c != '"',
    }
}

/// The number of consecutive characters, starting at `pos`, that continue a
/// run of the given kind.
pub open spec fn run_length(src: Seq<char>, pos: int, run: Run) -> nat
    decreases src.len() - pos,
{
    if 0 <= pos < src.len() && continues(src[pos], run) {
        1 + run_length(src, pos + 1, run)
    } else {
        0
    }
}

/// The number of line breaks among the characters at positions `from..to`.
pub open spec fn line_breaks(src: Seq<char>, from: int, to: int) -> nat
    decreases to - from,
{
    if 0 <= from < to <= src.len() {
        line_breaks(src, from, to - 1) + if src[to - 1] == '\n' {
            1nat
        } else {
            0nat
        }
    } else {
        0
    }
}

/// Whether the character after position `pos` is `c`.
pub open spec fn followed_by(src: Seq<char>, pos: int, c: char) -> bool {
    pos + 1 < src.len() && src[pos + 1] == c
}

/// The token type of a word: the keyword it spells, or an identifier.
pub open spec fn word_type(text: Seq<char>) -> TokenTypeView {
    if text == "and"@ {
        TokenTypeView::And
    } else if text == "class"@ {
        TokenTypeView::Class
    } else if text == "else"@ {
        TokenTypeView::Else
    } else if text == "false"@ {
        TokenTypeView::False
    } else if text == "for"@ {
        TokenTypeView::For
    } else if text == "fun"@ {
        TokenTypeView::Fun
    } else if text == "if"@ {
        TokenTypeView::If
    } else if text == "nil"@ {
        TokenTypeView::Nil
    } else if text == "or"@ {
        TokenTypeView::Or
    } else if text == "print"@ {
        TokenTypeView::Print
    } else if text == "return"@ {
        TokenTypeView::Return
    } else if text == "super"@ {
        TokenTypeView::Super
    } else if text == "this"@ {
        TokenTypeView::This
    } else if text == "true"@ {
        TokenTypeView::True
    } else if text == "var"@ {
        TokenTypeView::Var
    } else if text == "while"@ {
        TokenTypeView::While
    } else {
        TokenTypeView::Identifier(text)
    }
}

/// The message for a string literal that is still open at the end of input.
pub open spec fn unterminated_string(line: nat) -> Seq<char> {
    "Unterminated string at line "@ + decimal(line)
}

/// The message for a character that starts no token.
pub open spec fn unexpected_character(line: nat) -> Seq<char> {
    "Unexpected character at line "@ + decimal(line)
}

/// What the scanner finds at one position of the source.
pub enum Lexed {
    /// A token that spans `1 + rest` characters and crosses `lines` line
    /// breaks.
    Token { token_type: TokenTypeView, rest: nat, lines: nat },
    /// White space or a comment: `1 + rest` characters that yield no token.
    Skip { rest: nat, lines: nat },
    /// A lexical error, with its message.
    Error(Seq<char>),
}

/// The number of characters of a number literal after its first digit: the
/// remaining integer digits and, if a `.` with a digit behind it follows, the
/// fraction.
pub open spec fn number_rest(src: Seq<char>, pos: int) -> nat {
    let whole = run_length(src, pos + 1, Run::Digits);
    let dot = pos + 1 + whole;
    if dot + 1 < src.len() && src[dot] == '.' && is_digit(src[dot + 1]) {
        whole + 1 + run_length(src, dot + 1, Run::Digits)
    } else {
        whole
    }
}

/// What the scanner finds at position `pos`, which holds a character, when
/// the line counter stands at `line`.
pub open spec fn lex_at(src: Seq<char>, pos: int, line: nat) -> Lexed
    recommends
        0 <= pos < src.len(),
{
    let c = src[pos];
    if c == '(' {
        Lexed::Token { token_type: TokenTypeView::LeftParen, rest: 0, lines: 0 }
    } else if c == ')' {
        Lexed::Token { token_type: TokenTypeView::RightParen, rest: 0, lines: 0 }
    } else if c == '{' {
        Lexed::Token { token_type: TokenTypeView::LeftBrace, rest: 0, lines: 0 }
    } else if c == '}' {
        Lexed::Token { token_type: TokenTypeView::RightBrace, rest: 0, lines: 0 }
    } else if c == ',' {
        Lexed::Token { token_type: TokenTypeView::Comma, rest: 0, lines: 0 }
    } else if c == '.' {
        Lexed::Token { token_type: TokenTypeView::Dot, rest: 0, lines: 0 }
    } else if c == '-' {
        Lexed::Token { token_type: TokenTypeView::Minus, rest: 0, lines: 0 }
    } else if c == '+' {
        Lexed::Token { token_type: TokenTypeView::Plus, rest: 0, lines: 0 }
    } else if c == ';' {
        Lexed::Token { token_type: TokenTypeView::Semicolon, rest: 0, lines: 0 }
    } else if c == '*' {
        Lexed::Token { token_type: TokenTypeView::Star, rest: 0, lines: 0 }
    } else if c == '!' {
        if followed_by(src, pos, '=') {
            Lexed::Token { token_type: TokenTypeView::BangEqual, rest: 1, lines: 0 }
        } else {
            Lexed::Token { token_type: TokenTypeView::Bang, rest: 0, lines: 0 }
        }
    } else if c == '=' {
        if followed_by(src, pos, '=') {
            Lexed::Token { token_type: TokenTypeView::EqualEqual, rest: 1, lines: 0 }
        } else {
            Lexed::Token { token_type: TokenTypeView::Equal, rest: 0, lines: 0 }
        }
    } else if c == '<' {
        if followed_by(src, pos, '=') {
            Lexed::Token { token_type: TokenTypeView::LessEqual, rest: 1, lines: 0 }
        } else {
            Lexed::Token { token_type: TokenTypeView::Less, rest: 0, lines: 0 }
        }
    } else if c == '>' {
        if followed_by(src, pos, '=') {
            Lexed::Token { token_type: TokenTypeView::GreaterEqual, rest: 1, lines: 0 }
        } else {
            Lexed::Token { token_type: TokenTypeView::Greater, rest: 0, lines: 0 }
        }
    } else if c == '/' {
        if followed_by(src, pos, '/') {
            Lexed::Skip { rest: 1 + run_length(src, pos + 2, Run::Comment), lines: 0 }
        } else {
            Lexed::Token { token_type: TokenTypeView::Slash, rest: 0, lines: 0 }
        }
    } else if c == ' ' || c == '\r' || c == '\t' {
        Lexed::Skip { rest: 0, lines: 0 }
    } else if c == '\n' {
        Lexed::Skip { rest: 0, lines: 1 }
    } else if c == '"' {
        let body = run_length(src, pos + 1, Run::Quoted);
        let lines = line_breaks(src, pos + 1, pos + 1 + body);
        if pos + 1 + body >= src.len() {
            Lexed::Error(unterminated_string(line + lines))
        } else {
            Lexed::Token {
                token_type: TokenTypeView::String(src.subrange(pos + 1, pos + 1 + body)),
                rest: body + 1,
                lines,
            }
        }
    } else if is_digit(c) {
        let rest = number_rest(src, pos);
        Lexed::Token {
            token_type: TokenTypeView::Number(src.subrange(pos, pos + 1 + rest)),
            rest,
            lines: 0,
        }
    } else if alphabetic(c) {
        let rest = run_length(src, pos + 1, Run::Word);
        Lexed::Token { token_type: word_type(src.subrange(pos, pos + 1 + rest)), rest, lines: 0 }
    } else {
        Lexed::Error(unexpected_character(line))
    }
}

/// The end-of-input token for a source whose last line is `line`.
pub open spec fn eof_token(line: nat) -> TokenView {
    TokenView { token_type: TokenTypeView::Eof, lexeme: Seq::empty(), line }
}

/// The number of characters from position `pos` to the end of the source.
pub open spec fn remaining(src: Seq<char>, pos: int) -> nat {
    if pos < src.len() {
        (src.len() - pos) as nat
    } else {
        0
    }
}

/// The tokens of the source from position `pos` on, the line counter standing
/// at `line`: every token in order and the end-of-input token behind them, or
/// the message of the first lexical error.
pub open spec fn scan_from(src: Seq<char>, pos: int, line: nat) -> Result<Seq<TokenView>, Seq<char>>
    decreases remaining(src, pos),
{
    if pos < 0 || pos >= src.len() {
        Ok(seq![eof_token(line)])
    } else {
        match lex_at(src, pos, line) {
            Lexed::Token { token_type, rest, lines } => {
                let token = TokenView {
                    token_type,
                    lexeme: src.subrange(pos, pos + 1 + rest),
                    line: line + lines,
                };
                match scan_from(src, pos + 1 + rest, line + lines) {
                    Ok(tokens) => Ok(seq![token] + tokens),
                    Err(message) => Err(message),
                }
            },
            Lexed::Skip { rest, lines } => scan_from(src, pos + 1 + rest, line + lines),
            Lexed::Error(message) => Err(message),
        }
    }
}

/// The tokens of a whole source text, or the message of its first lexical
/// error.
pub open spec fn scan(src: Seq<char>) -> Result<Seq<TokenView>, Seq<char>> {
    scan_from(src, 0, 1)
}

/// A token sequence is well terminated when it ends with an end-of-input
/// token and holds no other.
pub open spec fn well_terminated(tokens: Seq<TokenView>) -> bool {
    &&& tokens.len() >= 1
    &&& tokens.last().token_type is Eof
    &&& forall|i: int| 0 <= i < tokens.len() - 1 ==> !((#[trigger] tokens[i]).token_type is Eof)
}

/// A result with the tokens that were scanned before it put in front.
pub open spec fn after(prefix: Seq<TokenView>, result: Result<Seq<TokenView>, Seq<char>>) -> Result<
    Seq<TokenView>,
    Seq<char>,
> {
    match result {
        Ok(tokens) => Ok(prefix + tokens),
        Err(message) => Err(message),
    }
}

/// Whether the lines of a token sequence never decrease and none is before
/// `line`.
pub open spec fn lines_ascend(tokens: Seq<TokenView>, line: nat) -> bool {
    &&& forall|i: int| 0 <= i < tokens.len() ==> line <= (#[trigger] tokens[i]).line
    &&& forall|i: int, j: int|
        0 <= i <= j < tokens.len() ==> (#[trigger] tokens[i]).line <= (#[trigger] tokens[j]).line
}

/// Along every token sequence that scanning yields, lines never decrease;
/// so the line of the end-of-input token is the last line that was reached.
pub proof fn law_scan_lines_ascend(src: Seq<char>, pos: int, line: nat)
    ensures
        scan_from(src, pos, line) matches Ok(tokens) ==> lines_ascend(tokens, line),
    decreases remaining(src, pos),
{
    if pos < 0 || pos >= src.len() {
    } else {
        match lex_at(src, pos, line) {
            Lexed::Token { token_type, rest, lines } => {
                law_scan_lines_ascend(src, pos + 1 + rest, line + lines);
                if let Ok(tail) = scan_from(src, pos + 1 + rest, line + lines) {
                    let tokens = scan_from(src, pos, line)->Ok_0;
                    assert forall|i: int| 0 <= i < tokens.len() implies line <= (
                    #[trigger] tokens[i]).line by {
                        if i > 0 {
                            assert(tokens[i] == tail[i - 1]);
                        }
                    }
                    assert forall|i: int, j: int| 0 <= i <= j < tokens.len() implies (
                    #[trigger] tokens[i]).line <= (#[trigger] tokens[j]).line by {
                        if i > 0 {
                            assert(tokens[i] == tail[i - 1]);
                        }
                        if j > 0 {
                            assert(tokens[j] == tail[j - 1]);
                        }
                    }
                }
            },
            Lexed::Skip { rest, lines } => {
                law_scan_lines_ascend(src, pos + 1 + rest, line + lines);
                if let Ok(tail) = scan_from(src, pos + 1 + rest, line + lines) {
                    assert forall|i: int| 0 <= i < tail.len() implies line <= (
                    #[trigger] tail[i]).line by {
                        assert(line + lines <= tail[i].line);
                    }
                }
            },
            Lexed::Error(_) => {},
        }
    }
}

/// Every token sequence that scanning yields ends with exactly one
/// end-of-input token.
pub proof fn law_scan_ends_with_one_eof(src: Seq<char>, pos: int, line: nat)
    ensures
        scan_from(src, pos, line) matches Ok(tokens) ==> well_terminated(tokens),
    decreases remaining(src, pos),
{
    if pos < 0 || pos >= src.len() {
    } else {
        match lex_at(src, pos, line) {
            Lexed::Token { token_type, rest, lines } => {
                law_scan_ends_with_one_eof(src, pos + 1 + rest, line + lines);
                if let Ok(tail) = scan_from(src, pos + 1 + rest, line + lines) {
                    let tokens = scan_from(src, pos, line)->Ok_0;
                    assert(!(token_type is Eof));
                    assert forall|i: int| 0 <= i < tokens.len() - 1 implies !((
                    #[trigger] tokens[i]).token_type is Eof) by {
                        if i > 0 {
                            assert(tokens[i] == tail[i - 1]);
                        }
                    }
                }
            },
            Lexed::Skip { rest, lines } => {
                law_scan_ends_with_one_eof(src, pos + 1 + rest, line + lines);
            },
            Lexed::Error(_) => {},
        }
    }
}

/// Whether a word is spelled exactly like `word`.
fn is_word(text: &String, word: &str) -> (r: bool)
    ensures
        r == (text@ == word@),
{
    let other = String::from_str(word);
    *text == other
}

fn error_at_line(message: &str, line: usize) -> (r: String)
    ensures
        r@ == message@ + decimal(line as nat),
{
    let mut s = String::from_str(message);
    let number = decimal_string(line);
    s.append(number.as_str());
    s
}

/// A scanner over one source text: the characters, the tokens found so far,
/// the start of the token being read, the position of the next character, and
/// the current line.
pub struct Scanner {
    source: Vec<char>,
    tokens: Vec<Token>,
    start: usize,
    current: usize,
    line: usize,
}

/// The mathematical model of a [`Scanner`].
pub struct ScannerView {
    pub source: Seq<char>,
    pub tokens: Seq<TokenView>,
    pub current: nat,
    pub line: nat,
}

impl View for Scanner {
    type V = ScannerView;

    closed spec fn view(&self) -> ScannerView {
        ScannerView {
            source: self.source@,
            tokens: token_views(self.tokens@),
            current: self.current as nat,
            line: self.line as nat,
        }
    }
}

impl Scanner {
    /// The scanner's invariant: the cursor lies within the source, and the
    /// line counter has counted no more line breaks than characters were read.
    pub closed spec fn inv(&self) -> bool {
        &&& self.start <= self.current <= self.source.len()
        &&& 1 <= self.line <= self.current + 1
        &&& self.source.len() < usize::MAX
    }

    /// A scanner at the start of `source`, on line 1, with no tokens yet.
    pub fn new(source: String) -> (r: Scanner)
        requires
            source@.len() < usize::MAX,
        ensures
            r.inv(),
            r@ == (ScannerView { source: source@, tokens: Seq::empty(), current: 0, line: 1 }),
    {
        let r = Scanner {
            source: characters(source.as_str()),
            tokens: Vec::new(),
            start: 0,
            current: 0,
            line: 1,
        };
        assert(token_views(r.tokens@) =~= Seq::empty());
        r
    }

    /// Scans the rest of the source and returns all tokens found, the
    /// end-of-input token last; or the message of the first lexical error.
    pub fn scan_tokens(&mut self) -> (r: Result<Vec<Token>, String>)
        requires
            old(self).inv(),
        ensures
            final(self).inv(),
            final(self)@.source == old(self)@.source,
            match after(
                old(self)@.tokens,
                scan_from(old(self)@.source, old(self)@.current as int, old(self)@.line),
            ) {
                Ok(tokens) => {
                    &&& r matches Ok(found)
                    &&& token_views(found@) == tokens
                    &&& final(self)@.tokens == tokens
                    &&& final(self)@.current == old(self)@.source.len()
                },
                Err(message) => r matches Err(text) && text@ == message,
            },
            old(self)@.tokens.len() == 0 && r is Ok ==> well_terminated(token_views(r->Ok_0@)),
            old(self)@ == (ScannerView {
                source: old(self)@.source,
                tokens: Seq::empty(),
                current: 0,
                line: 1,
            }) ==> match scan(old(self)@.source) {
                Ok(tokens) => r matches Ok(found) && token_views(found@) == tokens,
                Err(message) => r matches Err(text) && text@ == message,
            },
    {
        let ghost goal = after(
            old(self)@.tokens,
            scan_from(old(self)@.source, old(self)@.current as int, old(self)@.line),
        );
        proof {
            law_scan_ends_with_one_eof(
                old(self)@.source,
                old(self)@.current as int,
                old(self)@.line,
            );
            assert(Seq::<TokenView>::empty() + goal->Ok_0 =~= goal->Ok_0);
        }
        while !self.is_at_end()
            invariant
                self.inv(),
                self.source == old(self).source,
                goal == after(
                    old(self)@.tokens,
                    scan_from(old(self)@.source, old(self)@.current as int, old(self)@.line),
                ),
                after(
                    token_views(self.tokens@),
                    scan_from(self.source@, self.current as int, self.line as nat),
                ) == goal,
            decreases self.source.len() - self.current,
        {
            self.start = self.current;
            let ghost before = token_views(self.tokens@);
            let ghost src = self.source@;
            let ghost pos = self.current as int;
            let ghost line = self.line as nat;
            match self.scan_token() {
                Ok(()) => {
                    proof {
                        match lex_at(src, pos, line) {
                            Lexed::Token { token_type, rest, lines } => {
                                let token = TokenView {
                                    token_type,
                                    lexeme: src.subrange(pos, pos + 1 + rest),
                                    line: line + lines,
                                };
                                if let Ok(tail) = scan_from(src, pos + 1 + rest, line + lines) {
                                    assert(before.push(token) + tail =~= before + (seq![token]
                                        + tail));
                                }
                            },
                            Lexed::Skip { rest, lines } => {},
                            Lexed::Error(_) => {},
                        }
                    }
                },
                Err(message) => {
                    assert(lex_at(src, pos, line) is Error);
                    return Err(message);
                },
            }
        }
        let ghost before = token_views(self.tokens@);
        self.tokens.push(Token::new(TokenType::Eof, String::new(), self.line));
        assert(token_views(self.tokens@) =~= before + seq![eof_token(self.line as nat)]);
        let found = clone_tokens(&self.tokens);
        proof {
            if old(self)@.tokens.len() == 0 {
                assert(token_views(found@) =~= scan_from(
                    old(self)@.source,
                    old(self)@.current as int,
                    old(self)@.line,
                )->Ok_0);
            }
        }
        Ok(found)
    }

    fn is_at_end(&self) -> (r: bool)
        ensures
            r == (self.current >= self.source.len()),
    {
        self.current >= self.source.len()
    }

    fn advance(&mut self) -> (c: char)
        requires
            old(self).current < old(self).source.len(),
        ensures
            c == old(self).source@[old(self).current as int],
            *final(self) == (Scanner { current: (old(self).current + 1) as usize, ..*old(self) }),
    {
        self.current += 1;
        self.source[self.current - 1]
    }

    fn add_token(&mut self, token_type: TokenType)
        requires
            old(self).start <= old(self).current <= old(self).source.len(),
        ensures
            final(self).source == old(self).source,
            final(self).start == old(self).start,
            final(self).current == old(self).current,
            final(self).line == old(self).line,
            token_views(final(self).tokens@) == token_views(old(self).tokens@).push(
                TokenView {
                    token_type: token_type@,
                    lexeme: old(self).source@.subrange(
                        old(self).start as int,
                        old(self).current as int,
                    ),
                    line: old(self).line as nat,
                },
            ),
    {
        let text = string_of(&self.source, self.start, self.current);
        let ghost before = token_views(self.tokens@);
        let token = Token::new(token_type, text, self.line);
        self.tokens.push(token);
        assert(token_views(self.tokens@) =~= before.push(token@));
    }

    fn match_char(&mut self, expected: char) -> (r: bool)
        requires
            old(self).current <= old(self).source.len(),
            old(self).source.len() < usize::MAX,
        ensures
            r == (old(self).current < old(self).source.len() && old(self).source@[old(
                self,
            ).current as int] == expected),
            *final(self) == (Scanner {
                current: if r {
                    (old(self).current + 1) as usize
                } else {
                    old(self).current
                },
                ..*old(self)
            }),
    {
        if self.is_at_end() {
            return false;
        }
        if self.source[self.current] != expected {
            return false;
        }
        self.current += 1;
        true
    }

    fn peek(&self) -> (c: char)
        ensures
            c == if self.current < self.source.len() {
                self.source@[self.current as int]
            } else {
                '\0'
            },
    {
        if self.is_at_end() {
            return '\0';
        }
        self.source[self.current]
    }

    fn peek_next(&self) -> (c: char)
        requires
            self.source.len() < usize::MAX,
            self.current <= self.source.len(),
        ensures
            c == if self.current + 1 < self.source.len() {
                self.source@[self.current + 1]
            } else {
                '\0'
            },
    {
        if self.current + 1 >= self.source.len() {
            return '\0';
        }
        self.source[self.current + 1]
    }

    fn is_digit(&self, c: char) -> (r: bool)
        ensures
            r == is_digit(c),
    {
        '0' <= c && c <= '9'
    }

    /// Reads the rest of a string literal whose opening quote was just read.
    fn string(&mut self) -> (r: Result<(), String>)
        requires
            old(self).inv(),
            old(self).current == old(self).start + 1,
            old(self).line <= old(self).current,
        ensures
            final(self).inv(),
            final(self).source == old(self).source,
            ({
                let src = old(self).source@;
                let begin = old(self).current as int;
                let body = run_length(src, begin, Run::Quoted);
                let lines = line_breaks(src, begin, begin + body);
                if begin + body >= src.len() {
                    r matches Err(text) && text@ == unterminated_string(
                        (old(self).line + lines) as nat,
                    )
                } else {
                    &&& r is Ok
                    &&& final(self).current == begin + body + 1
                    &&& final(self).line == old(self).line + lines
                    &&& token_views(final(self).tokens@) == token_views(old(self).tokens@).push(
                        TokenView {
                            token_type: TokenTypeView::String(src.subrange(begin, begin + body)),
                            lexeme: src.subrange(begin - 1, begin + body + 1),
                            line: (old(self).line + lines) as nat,
                        },
                    )
                }
            }),
    {
        let ghost begin = self.current as int;
        let ghost line = self.line as nat;
        while self.peek() != '"' && !self.is_at_end()
            invariant
                self.inv(),
                self.source == old(self).source,
                self.tokens == old(self).tokens,
                self.start == old(self).start,
                begin <= self.current,
                begin + run_length(self.source@, begin, Run::Quoted) == self.current + run_length(
                    self.source@,
                    self.current as int,
                    Run::Quoted,
                ),
                self.line == line + line_breaks(self.source@, begin, self.current as int),
                self.line <= self.current,
            decreases self.source.len() - self.current,
        {
            if self.peek() == '\n' {
                self.line += 1;
            }
            self.advance();
        }
        if self.is_at_end() {
            return Err(error_at_line("Unterminated string at line ", self.line));
        }
        self.advance();
        let value = string_of(&self.source, self.start + 1, self.current - 1);
        self.add_token(TokenType::String(value));
        Ok(())
    }

    /// Reads the rest of a number literal whose first digit was just read.
    fn number(&mut self)
        requires
            old(self).inv(),
            old(self).current == old(self).start + 1,
        ensures
            final(self).inv(),
            final(self).source == old(self).source,
            final(self).line == old(self).line,
            final(self).current == old(self).current + number_rest(
                old(self).source@,
                old(self).start as int,
            ),
            token_views(final(self).tokens@) == token_views(old(self).tokens@).push(
                TokenView {
                    token_type: TokenTypeView::Number(
                        old(self).source@.subrange(
                            old(self).start as int,
                            final(self).current as int,
                        ),
                    ),
                    lexeme: old(self).source@.subrange(
                        old(self).start as int,
                        final(self).current as int,
                    ),
                    line: old(self).line as nat,
                },
            ),
    {
        let ghost begin = self.current as int;
        while self.is_digit(self.peek())
            invariant
                self.inv(),
                self.source == old(self).source,
                self.tokens == old(self).tokens,
                self.start == old(self).start,
                self.line == old(self).line,
                begin <= self.current,
                begin + run_length(self.source@, begin, Run::Digits) == self.current + run_length(
                    self.source@,
                    self.current as int,
                    Run::Digits,
                ),
            decreases self.source.len() - self.current,
        {
            self.advance();
        }
        if self.peek() == '.' && self.is_digit(self.peek_next()) {
            self.advance();
            let ghost fraction = self.current as int;
            while self.is_digit(self.peek())
                invariant
                    self.inv(),
                    self.source == old(self).source,
                    self.tokens == old(self).tokens,
                    self.start == old(self).start,
                    self.line == old(self).line,
                    fraction <= self.current,
                    fraction + run_length(self.source@, fraction, Run::Digits) == self.current
                        + run_length(self.source@, self.current as int, Run::Digits),
                decreases self.source.len() - self.current,
            {
                self.advance();
            }
        }
        let value = string_of(&self.source, self.start, self.current);
        self.add_token(TokenType::Number(value));
    }

    /// Reads the rest of a word whose first letter was just read, and adds
    /// the keyword or identifier it spells.
    fn identifier(&mut self)
        requires
            old(self).inv(),
            old(self).current == old(self).start + 1,
        ensures
            final(self).inv(),
            final(self).source == old(self).source,
            final(self).line == old(self).line,
            final(self).current == old(self).current + run_length(
                old(self).source@,
                old(self).current as int,
                Run::Word,
            ),
            token_views(final(self).tokens@) == token_views(old(self).tokens@).push(
                TokenView {
                    token_type: word_type(
                        old(self).source@.subrange(
                            old(self).start as int,
                            final(self).current as int,
                        ),
                    ),
                    lexeme: old(self).source@.subrange(
                        old(self).start as int,
                        final(self).current as int,
                    ),
                    line: old(self).line as nat,
                },
            ),
    {
        let ghost begin = self.current as int;
        while !self.is_at_end() && self.peek().is_alphanumeric()
            invariant
                self.inv(),
                self.source == old(self).source,
                self.tokens == old(self).tokens,
                self.start == old(self).start,
                self.line == old(self).line,
                begin <= self.current,
                begin + run_length(self.source@, begin, Run::Word) == self.current + run_length(
                    self.source@,
                    self.current as int,
                    Run::Word,
                ),
            decreases self.source.len() - self.current,
        {
            self.advance();
        }
        let text = string_of(&self.source, self.start, self.current);
        let token_type = if is_word(&text, "and") {
            TokenType::And
        } else if is_word(&text, "class") {
            TokenType::Class
        } else if is_word(&text, "else") {
            TokenType::Else
        } else if is_word(&text, "false") {
            TokenType::False
        } else if is_word(&text, "for") {
            TokenType::For
        } else if is_word(&text, "fun") {
            TokenType::Fun
        } else if is_word(&text, "if") {
            TokenType::If
        } else if is_word(&text, "nil") {
            TokenType::Nil
        } else if is_word(&text, "or") {
            TokenType::Or
        } else if is_word(&text, "print") {
            TokenType::Print
        } else if is_word(&text, "return") {
            TokenType::Return
        } else if is_word(&text, "super") {
            TokenType::Super
        } else if is_word(&text, "this") {
            TokenType::This
        } else if is_word(&text, "true") {
            TokenType::True
        } else if is_word(&text, "var") {
            TokenType::Var
        } else if is_word(&text, "while") {
            TokenType::While
        } else {
            TokenType::Identifier(text)
        };
        self.add_token(token_type);
    }

    /// Reads one token, or one stretch of white space or comment, starting
    /// at the cursor.
    fn scan_token(&mut self) -> (r: Result<(), String>)
        requires
            old(self).inv(),
            old(self).start == old(self).current,
            old(self).current < old(self).source.len(),
        ensures
            final(self).inv(),
            final(self).source == old(self).source,
            r is Ok ==> final(self).current > old(self).current,
            scanned(*old(self), *final(self), r, old(self).current as int),
    {
        let c = self.advance();
        if c == '(' {
            self.add_token(TokenType::LeftParen);
            Ok(())
        } else if c == ')' {
            self.add_token(TokenType::RightParen);
            Ok(())
        } else if c == '{' {
            self.add_token(TokenType::LeftBrace);
            Ok(())
        } else if c == '}' {
            self.add_token(TokenType::RightBrace);
            Ok(())
        } else if c == ',' {
            self.add_token(TokenType::Comma);
            Ok(())
        } else if c == '.' {
            self.add_token(TokenType::Dot);
            Ok(())
        } else if c == '-' {
            self.add_token(TokenType::Minus);
            Ok(())
        } else if c == '+' {
            self.add_token(TokenType::Plus);
            Ok(())
        } else if c == ';' {
            self.add_token(TokenType::Semicolon);
            Ok(())
        } else if c == '*' {
            self.add_token(TokenType::Star);
            Ok(())
        } else if c == '!' {
            let token_type = if self.match_char('=') {
                TokenType::BangEqual
            } else {
                TokenType::Bang
            };
            self.add_token(token_type);
            Ok(())
        } else if c == '=' {
            let token_type = if self.match_char('=') {
                TokenType::EqualEqual
            } else {
                TokenType::Equal
            };
            self.add_token(token_type);
            Ok(())
        } else if c == '<' {
            let token_type = if self.match_char('=') {
                TokenType::LessEqual
            } else {
                TokenType::Less
            };
            self.add_token(token_type);
            Ok(())
        } else if c == '>' {
            let token_type = if self.match_char('=') {
                TokenType::GreaterEqual
            } else {
                TokenType::Greater
            };
            self.add_token(token_type);
            Ok(())
        } else if c == '/' {
            if self.match_char('/') {
                let ghost begin = self.current as int;
                while self.peek() != '\n' && !self.is_at_end()
                    invariant
                        self.inv(),
                        self.source == old(self).source,
                        self.tokens == old(self).tokens,
                        self.start == old(self).start,
                        self.line == old(self).line,
                        begin <= self.current,
                        begin + run_length(self.source@, begin, Run::Comment) == self.current
                            + run_length(self.source@, self.current as int, Run::Comment),
                    decreases self.source.len() - self.current,
                {
                    self.advance();
                }
            } else {
                self.add_token(TokenType::Slash);
            }
            Ok(())
        } else if c == ' ' || c == '\r' || c == '\t' {
            Ok(())
        } else if c == '\n' {
            self.line += 1;
            Ok(())
        } else if c == '"' {
            self.string()
        } else if self.is_digit(c) {
            self.number();
            Ok(())
        } else if c.is_alphabetic() {
            self.identifier();
            Ok(())
        } else {
            Err(error_at_line("Unexpected character at line ", self.line))
        }
    }
}

/// How one step of the scanner, started at position `pos`, relates the
/// scanner before and after to what [`lex_at`] finds there.
spec fn scanned(before: Scanner, after: Scanner, r: Result<(), String>, pos: int) -> bool {
    match lex_at(before.source@, pos, before.line as nat) {
        Lexed::Token { token_type, rest, lines } => {
            &&& r is Ok
            &&& after.current == pos + 1 + rest
            &&& after.line == before.line + lines
            &&& token_views(after.tokens@) == token_views(before.tokens@).push(
                TokenView {
                    token_type,
                    lexeme: before.source@.subrange(pos, pos + 1 + rest),
                    line: (before.line + lines) as nat,
                },
            )
        },
        Lexed::Skip { rest, lines } => {
            &&& r is Ok
            &&& after.current == pos + 1 + rest
            &&& after.line == before.line + lines
            &&& after.tokens == before.tokens
        },
        Lexed::Error(message) => r matches Err(text) && text@ == message,
    }
}

} // verus!
