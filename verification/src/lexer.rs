//! The lexer: from source text to tokens.

use crate::error::{ErrorView, JsEngineError};
use crate::grammar::ends_in_sentinel;
use crate::lexical::{
    char_is_alphabetic, column_at, is_alpha, is_alphanumeric, is_digit, keyword,
    lemma_lex_step_advances, lemma_position_bounds, lemma_run_end, lemma_tokens_are_located,
    lex_step, line_at, offset_at, run_end, scan, tokenize, tokens_from, utf8_width, Run,
    TokenTypeView, TokenView,
};
use crate::text::append_chars;
use vstd::prelude::*;
use vstd::string::StrSliceExecFns;
use vstd::string::StringExecFns;

verus! {

/// The kind of a token. Identifiers and literals carry their text: an
/// identifier its name, a string what stands between its quotes, a number
/// its decimal notation as written.
#[derive(Debug, Clone, PartialEq)]
pub enum TokenType {
    LeftParen,
    RightParen,
    LeftBrace,
    RightBrace,
    Comma,
    Dot,
    Minus,
    Plus,
    Semicolon,
    Slash,
    Star,
    Bang,
    BangEqual,
    Equal,
    EqualEqual,
    Greater,
    GreaterEqual,
    Less,
    LessEqual,
    Identifier(String),
    String(String),
    Number(String),
    And,
    Else,
    False,
    Function,
    If,
    Null,
    Or,
    Return,
    True,
    Var,
    While,
    Let,
    Const,
    EOF,
}

impl View for TokenType {
    type V = TokenTypeView;

    open spec fn view(&self) -> TokenTypeView {
        match self {
            TokenType::LeftParen => TokenTypeView::LeftParen,
            TokenType::RightParen => TokenTypeView::RightParen,
            TokenType::LeftBrace => TokenTypeView::LeftBrace,
            TokenType::RightBrace => TokenTypeView::RightBrace,
            TokenType::Comma => TokenTypeView::Comma,
            TokenType::Dot => TokenTypeView::Dot,
            TokenType::Minus => TokenTypeView::Minus,
            TokenType::Plus => TokenTypeView::Plus,
            TokenType::Semicolon => TokenTypeView::Semicolon,
            TokenType::Slash => TokenTypeView::Slash,
            TokenType::Star => TokenTypeView::Star,
            TokenType::Bang => TokenTypeView::Bang,
            TokenType::BangEqual => TokenTypeView::BangEqual,
            TokenType::Equal => TokenTypeView::Equal,
            TokenType::EqualEqual => TokenTypeView::EqualEqual,
            TokenType::Greater => TokenTypeView::Greater,
            TokenType::GreaterEqual => TokenTypeView::GreaterEqual,
            TokenType::Less => TokenTypeView::Less,
            TokenType::LessEqual => TokenTypeView::LessEqual,
            TokenType::Identifier(name) => TokenTypeView::Identifier(name@),
            TokenType::String(text) => TokenTypeView::String(text@),
            TokenType::Number(digits) => TokenTypeView::Number(digits@),
            TokenType::And => TokenTypeView::And,
            TokenType::Else => TokenTypeView::Else,
            TokenType::False => TokenTypeView::False,
            TokenType::Function => TokenTypeView::Function,
            TokenType::If => TokenTypeView::If,
            TokenType::Null => TokenTypeView::Null,
            TokenType::Or => TokenTypeView::Or,
            TokenType::Return => TokenTypeView::Return,
            TokenType::True => TokenTypeView::True,
            TokenType::Var => TokenTypeView::Var,
            TokenType::While => TokenTypeView::While,
            TokenType::Let => TokenTypeView::Let,
            TokenType::Const => TokenTypeView::Const,
            TokenType::EOF => TokenTypeView::EOF,
        }
    }
}

/// A token with the text it was read from and the place of its first
/// character, line and column both counted from 1.
#[derive(Debug, Clone)]
pub struct Token {
    pub token_type: TokenType,
    pub lexeme: String,
    pub line: usize,
    pub column: usize,
}

impl View for Token {
    type V = TokenView;

    open spec fn view(&self) -> TokenView {
        TokenView {
            token_type: self.token_type@,
            lexeme: self.lexeme@,
            line: self.line as nat,
            column: self.column as nat,
        }
    }
}

/// The models of a sequence of tokens, one for one.
pub open spec fn token_views(tokens: Seq<Token>) -> Seq<TokenView> {
    tokens.map_values(|t: Token| t@)
}

/// What lexing yields once `done` has been read and `rest` is what the
/// remaining text yields.
pub open spec fn continue_with(done: Seq<TokenView>, rest: Result<Seq<TokenView>, ErrorView>) -> Result<
    Seq<TokenView>,
    ErrorView,
> {
    match rest {
        Ok(tokens) => Ok(done + tokens),
        Err(e) => Err(e),
    }
}

/// A lexer over one source text.
pub struct Lexer {
    source: Vec<char>,
    current: usize,
    offset: usize,
    line: usize,
    column: usize,
}

impl Lexer {
    /// Byte offsets of the source fit in `usize`.
    #[verifier::type_invariant]
    spec fn fits(&self) -> bool {
        4 * self.source@.len() <= usize::MAX
    }

    /// The source text that this lexer reads.
    pub closed spec fn source(&self) -> Seq<char> {
        self.source@
    }

    /// The cursor lies within the source, and the byte offset, line and
    /// column are those of the character it points at.
    spec fn positioned(&self) -> bool {
        &&& 4 * self.source@.len() <= usize::MAX
        &&& self.current <= self.source@.len()
        &&& self.offset == offset_at(self.source@, self.current as int)
        &&& self.line == line_at(self.source@, self.current as int)
        &&& self.column == column_at(self.source@, self.current as int)
    }

    /// `post` is `pre` after it has read the token of kind `token_type` that
    /// spans `start..end` and began at `line` and `column`, and `after` is
    /// `before` with that token appended.
    spec fn emitted(
        pre: Lexer,
        post: Lexer,
        before: Seq<Token>,
        after: Seq<Token>,
        token_type: TokenTypeView,
        start: int,
        end: int,
        line: usize,
        column: usize,
    ) -> bool {
        &&& post.source@ == pre.source@
        &&& post.positioned()
        &&& post.current == end
        &&& token_views(after) == token_views(before).push(
            TokenView {
                token_type,
                lexeme: pre.source@.subrange(start, end),
                line: line as nat,
                column: column as nat,
            },
        )
    }

    /// A lexer for `source`. The source must be short enough for the byte
    /// offset of its end to fit in `usize`, as every text that fits in memory
    /// as characters is.
    pub fn new(source: &str) -> (lexer: Lexer)
        requires
            4 * source@.len() <= usize::MAX,
        ensures
            lexer.source() == source@,
    {
        let mut chars: Vec<char> = Vec::new();
        for c in it: source.chars()
            invariant
                chars@ == it.seq().take(it.index() as int),
        {
            chars.push(c);
        }
        Lexer { source: chars, current: 0, offset: 0, line: 1, column: 1 }
    }

    /// Reads the whole source, from its start, into tokens. The result ends
    /// in exactly one end-of-stream token; the first character that fits no
    /// token ends lexing with an error.
    pub fn scan_tokens(&mut self) -> (result: Result<Vec<Token>, JsEngineError>)
        ensures
            final(self).source() == old(self).source(),
            match result {
                Ok(tokens) => tokenize(old(self).source()) == Ok::<Seq<TokenView>, ErrorView>(
                    token_views(tokens@),
                ) && ends_in_sentinel(token_views(tokens@)),
                Err(e) => tokenize(old(self).source()) == Err::<Seq<TokenView>, ErrorView>(e@),
            },
    {
        proof {
            use_type_invariant(&*self);
            if tokenize(self.source@) is Ok {
                lemma_tokens_are_located(self.source@);
            }
        }
        let mut tokens: Vec<Token> = Vec::new();
        self.current = 0;
        self.offset = 0;
        self.line = 1;
        self.column = 1;
        assert(token_views(tokens@) =~= Seq::<TokenView>::empty());
        assert(tokens_from(self.source@, 0) == continue_with(
            token_views(tokens@),
            tokens_from(self.source@, 0),
        )) by {
            match tokens_from(self.source@, 0) {
                Ok(tokens) => assert(Seq::<TokenView>::empty() + tokens =~= tokens),
                Err(_) => {},
            }
        }
        while self.current < self.source.len()
            invariant
                self.source@ == old(self).source@,
                self.positioned(),
                tokenize(self.source@) == continue_with(
                    token_views(tokens@),
                    tokens_from(self.source@, self.current as int),
                ),
            decreases self.source@.len() - self.current,
        {
            let ghost done = token_views(tokens@);
            let ghost at = self.current as int;
            proof {
                lemma_lex_step_advances(self.source@, at);
            }
            match self.scan_token(&mut tokens) {
                Err(e) => {
                    return Err(e);
                },
                Ok(()) => {
                    proof {
                        let src = self.source@;
                        let step = lex_step(src, at);
                        let token = step->Ok_0.0;
                        let next = step->Ok_0.1;
                        assert(step == Ok::<(Option<TokenView>, int), ErrorView>((token, next)));
                        assert(at < next <= src.len());
                        assert(tokens_from(src, at) == match tokens_from(src, next) {
                            Err(e) => Err(e),
                            Ok(rest) => match token {
                                Some(t) => Ok(seq![t] + rest),
                                None => Ok(rest),
                            },
                        });
                        match tokens_from(src, next) {
                            Ok(rest) => {
                                match token {
                                    Some(t) => assert(done + (seq![t] + rest) =~= (done
                                        + seq![t]) + rest),
                                    None => assert(done + Seq::<TokenView>::empty() =~= done),
                                }
                            },
                            Err(_) => {},
                        }
                    }
                },
            }
        }
        let end = Token {
            token_type: TokenType::EOF,
            lexeme: String::new(),
            line: self.line,
            column: self.column,
        };
        proof {
            let done = token_views(tokens@);
            assert(token_views(tokens@.push(end)) =~= done + seq![end@]);
        }
        tokens.push(end);
        Ok(tokens)
    }

    /// Reads what starts at the cursor: whitespace, a comment, or one token.
    fn scan_token(&mut self, tokens: &mut Vec<Token>) -> (result: Result<(), JsEngineError>)
        requires
            old(self).positioned(),
            old(self).current < old(self).source@.len(),
        ensures
            final(self).source@ == old(self).source@,
            match result {
                Ok(()) => {
                    &&& final(self).positioned()
                    &&& lex_step(old(self).source@, old(self).current as int) matches Ok(
                        (token, next),
                    )
                    &&& final(self).current == next
                    &&& token_views(final(tokens)@) == token_views(old(tokens)@) + (
                    match token {
                        Some(t) => seq![t],
                        None => Seq::empty(),
                    })
                },
                Err(e) => lex_step(old(self).source@, old(self).current as int) == Err::<
                    (Option<TokenView>, int),
                    ErrorView,
                >(e@),
            },
    {
        let start = self.current;
        let line = self.line;
        let column = self.column;
        let ghost before = token_views(tokens@);
        let c = self.advance();
        if c == ' ' || c == '\r' || c == '\t' || c == '\n' {
            assert(before + Seq::<TokenView>::empty() =~= before);
            return Ok(());
        }
        if c == '/' {
            if self.match_next('/') {
                self.advance_while(Run::Comment);
                assert(before + Seq::<TokenView>::empty() =~= before);
            } else {
                self.add_token(tokens, TokenType::Slash, start, line, column);
            }
            return Ok(());
        }
        let result = if c == '(' {
            self.add_token(tokens, TokenType::LeftParen, start, line, column);
            Ok(())
        } else if c == ')' {
            self.add_token(tokens, TokenType::RightParen, start, line, column);
            Ok(())
        } else if c == '{' {
            self.add_token(tokens, TokenType::LeftBrace, start, line, column);
            Ok(())
        } else if c == '}' {
            self.add_token(tokens, TokenType::RightBrace, start, line, column);
            Ok(())
        } else if c == ',' {
            self.add_token(tokens, TokenType::Comma, start, line, column);
            Ok(())
        } else if c == '.' {
            self.add_token(tokens, TokenType::Dot, start, line, column);
            Ok(())
        } else if c == '-' {
            self.add_token(tokens, TokenType::Minus, start, line, column);
            Ok(())
        } else if c == '+' {
            self.add_token(tokens, TokenType::Plus, start, line, column);
            Ok(())
        } else if c == ';' {
            self.add_token(tokens, TokenType::Semicolon, start, line, column);
            Ok(())
        } else if c == '*' {
            self.add_token(tokens, TokenType::Star, start, line, column);
            Ok(())
        } else if c == '!' {
            let token_type = if self.match_next('=') {
                TokenType::BangEqual
            } else {
                TokenType::Bang
            };
            self.add_token(tokens, token_type, start, line, column);
            Ok(())
        } else if c == '=' {
            let token_type = if self.match_next('=') {
                TokenType::EqualEqual
            } else {
                TokenType::Equal
            };
            self.add_token(tokens, token_type, start, line, column);
            Ok(())
        } else if c == '<' {
            let token_type = if self.match_next('=') {
                TokenType::LessEqual
            } else {
                TokenType::Less
            };
            self.add_token(tokens, token_type, start, line, column);
            Ok(())
        } else if c == '>' {
            let token_type = if self.match_next('=') {
                TokenType::GreaterEqual
            } else {
                TokenType::Greater
            };
            self.add_token(tokens, token_type, start, line, column);
            Ok(())
        } else if c == '"' {
            self.string(tokens, start, line, column)
        } else if Self::is_digit(c) {
            self.number(tokens, start, line, column)
        } else if Self::is_alpha(c) {
            self.identifier(tokens, start, line, column)
        } else {
            let mut message = String::from_str("Unexpected character: ");
            message.push(c);
            Err(JsEngineError::LexerError { position: self.offset, message })
        };
        proof {
            if result is Ok {
                let t = lex_step(old(self).source@, start as int)->Ok_0.0->Some_0;
                assert(before.push(t) =~= before + seq![t]);
            }
        }
        result
    }

    /// Consumes the character at the cursor and returns it.
    fn advance(&mut self) -> (c: char)
        requires
            old(self).positioned(),
            old(self).current < old(self).source@.len(),
        ensures
            final(self).positioned(),
            final(self).source@ == old(self).source@,
                        final(self).current == old(self).current + 1,
            c == old(self).source@[old(self).current as int],
    {
        proof {
            lemma_position_bounds(self.source@, self.current as int);
        }
        let c = self.source[self.current];
        self.current = self.current + 1;
        self.offset = self.offset + Self::width(c);
        if c == '\n' {
            self.line = self.line + 1;
            self.column = 1;
        } else {
            self.column = self.column + 1;
        }
        c
    }

    /// Consumes the character at the cursor if it is `expected`.
    fn match_next(&mut self, expected: char) -> (matched: bool)
        requires
            old(self).positioned(),
        ensures
            final(self).positioned(),
            final(self).source@ == old(self).source@,
                        matched == (old(self).current < old(self).source@.len() && old(self).source@[old(
                self,
            ).current as int] == expected),
            final(self).current == old(self).current + (if matched {
                1int
            } else {
                0int
            }),
    {
        if self.current < self.source.len() && self.source[self.current] == expected {
            self.advance();
            true
        } else {
            false
        }
    }

    /// Consumes the run of the given kind that starts at the cursor.
    fn advance_while(&mut self, run: Run)
        requires
            old(self).positioned(),
        ensures
            final(self).positioned(),
            final(self).source@ == old(self).source@,
                        final(self).current == run_end(old(self).source@, old(self).current as int, run),
    {
        while self.current < self.source.len() && Self::admits(run, self.source[self.current])
            invariant
                self.positioned(),
                self.source@ == old(self).source@,
                                run_end(self.source@, self.current as int, run) == run_end(
                    old(self).source@,
                    old(self).current as int,
                    run,
                ),
            decreases self.source@.len() - self.current,
        {
            self.advance();
        }
    }

    /// Appends the token of the given kind that spans from `start` to the
    /// cursor.
    fn add_token(&mut self, tokens: &mut Vec<Token>, token_type: TokenType, start: usize, line: usize, column: usize)
        requires
            old(self).positioned(),
            start <= old(self).current,
        ensures
            Self::emitted(
                *old(self),
                *final(self),
                old(tokens)@,
                final(tokens)@,
                token_type@,
                start as int,
                old(self).current as int,
                line,
                column,
            ),
    {
        let mut lexeme = String::new();
        append_chars(&mut lexeme, &self.source, start, self.current);
        let token = Token { token_type, lexeme, line, column };
        assert(token_views(tokens@.push(token)) =~= token_views(tokens@).push(token@));
        tokens.push(token);
    }

    /// Reads the string literal whose opening quote, at `start`, has just
    /// been consumed.
    fn string(
        &mut self,
        tokens: &mut Vec<Token>,
        start: usize,
        line: usize,
        column: usize,
    ) -> (result: Result<
        (),
        JsEngineError,
    >)
        requires
            old(self).positioned(),
            old(self).current == start + 1,
            old(self).source@[start as int] == '"',
        ensures
            final(self).source@ == old(self).source@,
            match result {
                Ok(()) => {
                    &&& scan(old(self).source@, start as int) matches Ok((token_type, end))
                    &&& Self::emitted(
                        *old(self),
                        *final(self),
                        old(tokens)@,
                        final(tokens)@,
                        token_type,
                        start as int,
                        end,
                        line,
                        column,
                    )
                },
                Err(e) => scan(old(self).source@, start as int) == Err::<
                    (TokenTypeView, int),
                    ErrorView,
                >(e@),
            },
    {
        proof {
            lemma_run_end(self.source@, start + 1, Run::Text);
        }
        self.advance_while(Run::Text);
        if self.current >= self.source.len() {
            return Err(
                JsEngineError::LexerError {
                    position: self.offset,
                    message: String::from_str("Unterminated string."),
                },
            );
        }
        let mut value = String::new();
        append_chars(&mut value, &self.source, start + 1, self.current);
        self.advance();
        self.add_token(tokens, TokenType::String(value), start, line, column);
        Ok(())
    }

    /// Reads the number whose first digit, at `start`, has just been
    /// consumed: further digits, then at most one `.` with the digits after
    /// it.
    fn number(
        &mut self,
        tokens: &mut Vec<Token>,
        start: usize,
        line: usize,
        column: usize,
    ) -> (result: Result<
        (),
        JsEngineError,
    >)
        requires
            old(self).positioned(),
            old(self).current == start + 1,
            is_digit(old(self).source@[start as int]),
        ensures
            final(self).source@ == old(self).source@,
            result is Ok,
            scan(old(self).source@, start as int) matches Ok((token_type, end)) && Self::emitted(
                *old(self),
                *final(self),
                old(tokens)@,
                final(tokens)@,
                token_type,
                start as int,
                end,
                line,
                column,
            ),
    {
        proof {
            lemma_run_end(self.source@, start + 1, Run::Digits);
        }
        self.advance_while(Run::Digits);
        if self.current < self.source.len() && self.source[self.current] == '.' {
            proof {
                lemma_run_end(self.source@, self.current + 1, Run::Digits);
            }
            self.advance();
            self.advance_while(Run::Digits);
        }
        let mut digits = String::new();
        append_chars(&mut digits, &self.source, start, self.current);
        self.add_token(tokens, TokenType::Number(digits), start, line, column);
        Ok(())
    }

    /// Reads the identifier or reserved word whose first character, at
    /// `start`, has just been consumed.
    fn identifier(
        &mut self,
        tokens: &mut Vec<Token>,
        start: usize,
        line: usize,
        column: usize,
    ) -> (result: Result<
        (),
        JsEngineError,
    >)
        requires
            old(self).positioned(),
            old(self).current == start + 1,
            !is_digit(old(self).source@[start as int]),
            is_alpha(old(self).source@[start as int]),
            old(self).source@[start as int] != '"',
        ensures
            final(self).source@ == old(self).source@,
            result is Ok,
            scan(old(self).source@, start as int) matches Ok((token_type, end)) && Self::emitted(
                *old(self),
                *final(self),
                old(tokens)@,
                final(tokens)@,
                token_type,
                start as int,
                end,
                line,
                column,
            ),
    {
        proof {
            lemma_run_end(self.source@, start + 1, Run::Word);
        }
        self.advance_while(Run::Word);
        let token_type = match self.reserved(start) {
            Some(word) => word,
            None => {
                let mut name = String::new();
                append_chars(&mut name, &self.source, start, self.current);
                TokenType::Identifier(name)
            },
        };
        self.add_token(tokens, token_type, start, line, column);
        Ok(())
    }

    /// The reserved word that the text from `start` to the cursor spells.
    fn reserved(&self, start: usize) -> (word: Option<TokenType>)
        requires
            start <= self.current <= self.source@.len(),
        ensures
            match word {
                Some(token_type) => keyword(
                    self.source@.subrange(start as int, self.current as int),
                ) == Some(token_type@),
                None => keyword(self.source@.subrange(start as int, self.current as int))
                    is None,
            },
    {
        if self.spells(start, "and") {
            Some(TokenType::And)
        } else if self.spells(start, "else") {
            Some(TokenType::Else)
        } else if self.spells(start, "false") {
            Some(TokenType::False)
        } else if self.spells(start, "function") {
            Some(TokenType::Function)
        } else if self.spells(start, "if") {
            Some(TokenType::If)
        } else if self.spells(start, "null") {
            Some(TokenType::Null)
        } else if self.spells(start, "or") {
            Some(TokenType::Or)
        } else if self.spells(start, "return") {
            Some(TokenType::Return)
        } else if self.spells(start, "true") {
            Some(TokenType::True)
        } else if self.spells(start, "var") {
            Some(TokenType::Var)
        } else if self.spells(start, "while") {
            Some(TokenType::While)
        } else if self.spells(start, "let") {
            Some(TokenType::Let)
        } else if self.spells(start, "const") {
            Some(TokenType::Const)
        } else {
            None
        }
    }

    /// Whether the text from `start` to the cursor is `word`.
    fn spells(&self, start: usize, word: &str) -> (same: bool)
        requires
            start <= self.current <= self.source@.len(),
        ensures
            same == (self.source@.subrange(start as int, self.current as int) == word@),
    {
        let ghost text = self.source@.subrange(start as int, self.current as int);
        let length = word.unicode_len();
        if self.current - start != length {
            return false;
        }
        let mut i: usize = 0;
        while i < length
            invariant
                start <= self.current <= self.source@.len(),
                length == self.current - start,
                length == word@.len(),
                i <= length,
                text == self.source@.subrange(start as int, self.current as int),
                forall|k: int| 0 <= k < i ==> text[k] == word@[k],
            decreases length - i,
        {
            if self.source[start + i] != word.get_char(i) {
                assert(text[i as int] != word@[i as int]);
                return false;
            }
            i = i + 1;
        }
        assert(text =~= word@);
        true
    }

    /// The number of bytes that `c` takes in UTF-8.
    fn width(c: char) -> (bytes: usize)
        ensures
            bytes == utf8_width(c),
    {
        let code = c as u32;
        if code < 0x80 {
            1
        } else if code < 0x800 {
            2
        } else if code < 0x10000 {
            3
        } else {
            4
        }
    }

    /// Whether `c` continues a run of the given kind.
    fn admits(run: Run, c: char) -> (admitted: bool)
        ensures
            admitted == run.admits(c),
    {
        match run {
            Run::Digits => Self::is_digit(c),
            Run::Word => Self::is_alphanumeric(c),
            Run::Text => c != '"',
            Run::Comment => c != '\n',
        }
    }

    fn is_digit(c: char) -> (digit: bool)
        ensures
            digit == is_digit(c),
    {
        '0' <= c && c <= '9'
    }

    fn is_alpha(c: char) -> (alpha: bool)
        ensures
            alpha == is_alpha(c),
    {
        if c == '_' {
            true
        } else if (c as u32) < 128 {
            ('a' <= c && c <= 'z') || ('A' <= c && c <= 'Z')
        } else {
            char_is_alphabetic(c)
        }
    }

    fn is_alphanumeric(c: char) -> (alphanumeric: bool)
        ensures
            alphanumeric == is_alphanumeric(c),
    {
        Self::is_alpha(c) || Self::is_digit(c)
    }
}

} // verus!
