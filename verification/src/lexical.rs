//! The lexical grammar: which tokens a source text consists of.
//!
//! Everything here is a mathematical definition over `Seq<char>`. The
//! executable lexer is proved to compute exactly `tokenize`.

use crate::error::ErrorView;
use vstd::prelude::*;

verus! {

/// The kind of a token, with the text that literals and identifiers carry.
pub enum TokenTypeView {
    LeftParen,
    RightParen,
    LeftBrace,
    RightBrace,
    Comma,
    /// Read by the lexer, but part of no rule of the grammar.
    Dot,
    Minus,
    Plus,
    Semicolon,
    Slash,
    Star,
    Bang,
    BangEqual,
    Equal,
    EqualEqual,
    Greater,
    GreaterEqual,
    Less,
    LessEqual,
    Identifier(Seq<char>),
    String(Seq<char>),
    Number(Seq<char>),
    And,
    Else,
    False,
    Function,
    If,
    Null,
    Or,
    Return,
    True,
    Var,
    While,
    Let,
    Const,
    EOF,
}

/// A token: its kind, the source text it was read from, and the line and
/// column (both counted from 1) of its first character.
pub struct TokenView {
    pub token_type: TokenTypeView,
    pub lexeme: Seq<char>,
    pub line: nat,
    pub column: nat,
}

/// Space, carriage return, tab and newline separate tokens and are otherwise
/// ignored.
pub open spec fn is_whitespace(c: char) -> bool {
    c == ' ' || c == '\r' || c == '\t' || c == '\n'
}

/// The ten decimal digits.
pub open spec fn is_digit(c: char) -> bool {
    '0' <= c <= '9'
}

/// Whether a character beyond the ASCII range is alphabetic in the sense of
/// Unicode. This is what `char::is_alphabetic` answers.
pub uninterp spec fn unicode_alphabetic(c: char) -> bool;

/// `char::is_alphabetic` tells whether a character has the Unicode property
/// Alphabetic. The contract only gives that answer its name.
#[verifier::external_body]
pub(crate) fn char_is_alphabetic(c: char) -> (b: bool)
    ensures
        b == unicode_alphabetic(c),
{
    c.is_alphabetic()
}

/// The characters that may begin an identifier: the underscore, the ASCII
/// letters, and every alphabetic character beyond ASCII.
pub open spec fn is_alpha(c: char) -> bool {
    if c == '_' {
        true
    } else if (c as u32) < 128 {
        ('a' <= c <= 'z') || ('A' <= c <= 'Z')
    } else {
        unicode_alphabetic(c)
    }
}

/// The characters that may continue an identifier.
pub open spec fn is_alphanumeric(c: char) -> bool {
    is_alpha(c) || is_digit(c)
}

/// The number of bytes that the UTF-8 encoding of `c` takes.
pub open spec fn utf8_width(c: char) -> nat {
    if (c as u32) < 0x80 {
        1
    } else if (c as u32) < 0x800 {
        2
    } else if (c as u32) < 0x10000 {
        3
    } else {
        4
    }
}

/// The byte offset of the character with index `i`: the bytes that the
/// characters before it take.
pub open spec fn offset_at(src: Seq<char>, i: int) -> nat
    decreases i,
{
    if i <= 0 || i > src.len() {
        0
    } else {
        offset_at(src, i - 1) + utf8_width(src[i - 1])
    }
}

/// The line of the character with index `i`: one more than the number of
/// newlines before it.
pub open spec fn line_at(src: Seq<char>, i: int) -> nat
    decreases i,
{
    if i <= 0 || i > src.len() {
        1
    } else if src[i - 1] == '\n' {
        line_at(src, i - 1) + 1
    } else {
        line_at(src, i - 1)
    }
}

/// The column of the character with index `i`: one more than the number of
/// characters between it and the newline before it.
pub open spec fn column_at(src: Seq<char>, i: int) -> nat
    decreases i,
{
    if i <= 0 || i > src.len() {
        1
    } else if src[i - 1] == '\n' {
        1
    } else {
        column_at(src, i - 1) + 1
    }
}

/// A maximal stretch of characters that the lexer takes in one go.
#[derive(Clone, Copy)]
pub enum Run {
    /// Decimal digits.
    Digits,
    /// Letters, digits and underscores.
    Word,
    /// The inside of a string literal: anything but the closing quote.
    Text,
    /// The rest of a line comment: anything but the newline.
    Comment,
}

impl Run {
    /// Whether `c` continues a run of this kind.
    pub open spec fn admits(self, c: char) -> bool {
        match self {
            Run::Digits => is_digit(c),
            Run::Word => is_alphanumeric(c),
            Run::Text => c != '"',
            Run::Comment => c != '\n',
        }
    }
}

/// The index at which the run that starts at `from` ends: the first index
/// from there on whose character the run does not admit, or the end of the
/// source.
pub open spec fn run_end(src: Seq<char>, from: int, run: Run) -> int
    decreases src.len() - from,
{
    if 0 <= from < src.len() && run.admits(src[from]) {
        run_end(src, from + 1, run)
    } else {
        from
    }
}

/// The reserved word that `text` spells, if it spells one.
pub open spec fn keyword(text: Seq<char>) -> Option<TokenTypeView> {
    if text == "and"@ {
        Some(TokenTypeView::And)
    } else if text == "else"@ {
        Some(TokenTypeView::Else)
    } else if text == "false"@ {
        Some(TokenTypeView::False)
    } else if text == "function"@ {
        Some(TokenTypeView::Function)
    } else if text == "if"@ {
        Some(TokenTypeView::If)
    } else if text == "null"@ {
        Some(TokenTypeView::Null)
    } else if text == "or"@ {
        Some(TokenTypeView::Or)
    } else if text == "return"@ {
        Some(TokenTypeView::Return)
    } else if text == "true"@ {
        Some(TokenTypeView::True)
    } else if text == "var"@ {
        Some(TokenTypeView::Var)
    } else if text == "while"@ {
        Some(TokenTypeView::While)
    } else if text == "let"@ {
        Some(TokenTypeView::Let)
    } else if text == "const"@ {
        Some(TokenTypeView::Const)
    } else {
        None
    }
}

/// Whether a line comment starts at index `i`.
pub open spec fn starts_comment(src: Seq<char>, i: int) -> bool {
    0 <= i && i + 1 < src.len() && src[i] == '/' && src[i + 1] == '/'
}

/// Whether the character after index `i` is `=`, which turns `!`, `=`, `<`
/// and `>` into their two-character forms.
pub open spec fn equal_follows(src: Seq<char>, i: int) -> bool {
    i + 1 < src.len() && src[i + 1] == '='
}

/// The token that starts at index `start`, as its kind and the index just
/// past its last character, or the error that the text there raises.
///
/// `start` is the index of a character that is neither whitespace nor the
/// start of a comment.
pub open spec fn scan(src: Seq<char>, start: int) -> Result<(TokenTypeView, int), ErrorView>
    recommends
        0 <= start < src.len(),
{
    let c = src[start];
    if c == '(' {
        Ok((TokenTypeView::LeftParen, start + 1))
    } else if c == ')' {
        Ok((TokenTypeView::RightParen, start + 1))
    } else if c == '{' {
        Ok((TokenTypeView::LeftBrace, start + 1))
    } else if c == '}' {
        Ok((TokenTypeView::RightBrace, start + 1))
    } else if c == ',' {
        Ok((TokenTypeView::Comma, start + 1))
    } else if c == '.' {
        Ok((TokenTypeView::Dot, start + 1))
    } else if c == '-' {
        Ok((TokenTypeView::Minus, start + 1))
    } else if c == '+' {
        Ok((TokenTypeView::Plus, start + 1))
    } else if c == ';' {
        Ok((TokenTypeView::Semicolon, start + 1))
    } else if c == '*' {
        Ok((TokenTypeView::Star, start + 1))
    } else if c == '/' {
        Ok((TokenTypeView::Slash, start + 1))
    } else if c == '!' {
        if equal_follows(src, start) {
            Ok((TokenTypeView::BangEqual, start + 2))
        } else {
            Ok((TokenTypeView::Bang, start + 1))
        }
    } else if c == '=' {
        if equal_follows(src, start) {
            Ok((TokenTypeView::EqualEqual, start + 2))
        } else {
            Ok((TokenTypeView::Equal, start + 1))
        }
    } else if c == '<' {
        if equal_follows(src, start) {
            Ok((TokenTypeView::LessEqual, start + 2))
        } else {
            Ok((TokenTypeView::Less, start + 1))
        }
    } else if c == '>' {
        if equal_follows(src, start) {
            Ok((TokenTypeView::GreaterEqual, start + 2))
        } else {
            Ok((TokenTypeView::Greater, start + 1))
        }
    } else if c == '"' {
        let close = run_end(src, start + 1, Run::Text);
        if close >= src.len() {
            Err(
                ErrorView::LexerError {
                    position: offset_at(src, src.len() as int),
                    message: "Unterminated string."@,
                },
            )
        } else {
            Ok((TokenTypeView::String(src.subrange(start + 1, close)), close + 1))
        }
    } else if is_digit(c) {
        let whole = run_end(src, start + 1, Run::Digits);
        let end = if whole < src.len() && src[whole] == '.' {
            run_end(src, whole + 1, Run::Digits)
        } else {
            whole
        };
        Ok((TokenTypeView::Number(src.subrange(start, end)), end))
    } else if is_alpha(c) {
        let end = run_end(src, start + 1, Run::Word);
        let text = src.subrange(start, end);
        match keyword(text) {
            Some(reserved) => Ok((reserved, end)),
            None => Ok((TokenTypeView::Identifier(text), end)),
        }
    } else {
        Err(
            ErrorView::LexerError {
                position: offset_at(src, start + 1),
                message: "Unexpected character: "@.push(c),
            },
        )
    }
}

/// One step of the lexer at index `i`: the token read there, if the text
/// there is one, and the index at which the next step starts.
pub open spec fn lex_step(src: Seq<char>, i: int) -> Result<(Option<TokenView>, int), ErrorView>
    recommends
        0 <= i < src.len(),
{
    if is_whitespace(src[i]) {
        Ok((None, i + 1))
    } else if starts_comment(src, i) {
        Ok((None, run_end(src, i + 2, Run::Comment)))
    } else {
        match scan(src, i) {
            Err(e) => Err(e),
            Ok((token_type, end)) => Ok(
                (
                    Some(
                        TokenView {
                            token_type,
                            lexeme: src.subrange(i, end),
                            line: line_at(src, i),
                            column: column_at(src, i),
                        },
                    ),
                    end,
                ),
            ),
        }
    }
}

/// The sentinel that ends every token stream. It stands just past the last
/// character of the source and has no text.
pub open spec fn end_of_stream(src: Seq<char>) -> TokenView {
    TokenView {
        token_type: TokenTypeView::EOF,
        lexeme: Seq::empty(),
        line: line_at(src, src.len() as int),
        column: column_at(src, src.len() as int),
    }
}

/// The tokens of the source from index `i` on, sentinel included, or the
/// first error that the lexer meets from there.
pub open spec fn tokens_from(src: Seq<char>, i: int) -> Result<Seq<TokenView>, ErrorView>
    decreases src.len() - i,
{
    if i < 0 || i >= src.len() {
        Ok(seq![end_of_stream(src)])
    } else {
        match lex_step(src, i) {
            Err(e) => Err(e),
            Ok((token, next)) => {
                if next <= i || next > src.len() {
                    // Never taken: see `lemma_lex_step_advances`.
                    Ok(seq![end_of_stream(src)])
                } else {
                    match tokens_from(src, next) {
                        Err(e) => Err(e),
                        Ok(rest) => match token {
                            Some(t) => Ok(seq![t] + rest),
                            None => Ok(rest),
                        },
                    }
                }
            },
        }
    }
}

/// The tokens of a source text, ending in exactly one sentinel, or the first
/// error that the text raises.
pub open spec fn tokenize(src: Seq<char>) -> Result<Seq<TokenView>, ErrorView> {
    tokens_from(src, 0)
}

/// A run ends at or after its start, within the source, at a character that
/// the run does not admit; every character before that is admitted.
pub proof fn lemma_run_end(src: Seq<char>, from: int, run: Run)
    requires
        0 <= from <= src.len(),
    ensures
        from <= run_end(src, from, run) <= src.len(),
        run_end(src, from, run) < src.len() ==> !run.admits(src[run_end(src, from, run)]),
        forall|k: int| from <= k < run_end(src, from, run) ==> run.admits(#[trigger] src[k]),
    decreases src.len() - from,
{
    if from < src.len() && run.admits(src[from]) {
        lemma_run_end(src, from + 1, run);
    }
}

/// Every step of the lexer consumes at least one character and stays within
/// the source.
pub proof fn lemma_lex_step_advances(src: Seq<char>, i: int)
    requires
        0 <= i < src.len(),
    ensures
        lex_step(src, i) matches Ok((_, next)) ==> i < next <= src.len(),
{
    lemma_run_end(src, i + 1, Run::Text);
    lemma_run_end(src, i + 1, Run::Digits);
    lemma_run_end(src, i + 1, Run::Word);
    if starts_comment(src, i) {
        lemma_run_end(src, i + 2, Run::Comment);
    }
    let whole = run_end(src, i + 1, Run::Digits);
    if whole < src.len() {
        lemma_run_end(src, whole + 1, Run::Digits);
    }
}

/// Positions grow no faster than the index: a character takes at most four
/// bytes, and lines and columns start at 1.
pub proof fn lemma_position_bounds(src: Seq<char>, i: int)
    requires
        0 <= i <= src.len(),
    ensures
        offset_at(src, i) <= 4 * i,
        1 <= line_at(src, i) <= i + 1,
        1 <= column_at(src, i) <= i + 1,
    decreases i,
{
    if i > 0 {
        lemma_position_bounds(src, i - 1);
    }
}

/// The source from index `i` on with whitespace and comments left out.
/// What stands between the quotes of a string literal is text, not
/// whitespace or comment, and stays.
pub open spec fn without_trivia(src: Seq<char>, i: int) -> Seq<char>
    decreases src.len() - i,
{
    if i < 0 || i >= src.len() {
        Seq::empty()
    } else if is_whitespace(src[i]) {
        without_trivia(src, i + 1)
    } else if starts_comment(src, i) {
        let end = run_end(src, i + 2, Run::Comment);
        if i < end <= src.len() {
            without_trivia(src, end)
        } else {
            Seq::empty()
        }
    } else if src[i] == '"' {
        let close = run_end(src, i + 1, Run::Text);
        if i < close < src.len() {
            src.subrange(i, close + 1) + without_trivia(src, close + 1)
        } else {
            src.subrange(i, src.len() as int)
        }
    } else {
        seq![src[i]] + without_trivia(src, i + 1)
    }
}

/// The texts of the tokens, one after the other.
pub open spec fn lexemes(tokens: Seq<TokenView>) -> Seq<char>
    decreases tokens.len(),
{
    if tokens.len() == 0 {
        Seq::empty()
    } else {
        tokens[0].lexeme + lexemes(tokens.drop_first())
    }
}

/// A character that is kept as it stands when whitespace and comments are
/// left out, and is no quote.
pub open spec fn verbatim_at(src: Seq<char>, k: int) -> bool {
    !is_whitespace(src[k]) && src[k] != '"' && !starts_comment(src, k)
}

proof fn lemma_verbatim_stretch(src: Seq<char>, from: int, to: int)
    requires
        0 <= from <= to <= src.len(),
        forall|k: int| from <= k < to ==> verbatim_at(src, k),
    ensures
        without_trivia(src, from) == src.subrange(from, to) + without_trivia(src, to),
    decreases to - from,
{
    if from == to {
        assert(src.subrange(from, to) + without_trivia(src, to) =~= without_trivia(src, to));
    } else {
        assert(verbatim_at(src, from));
        lemma_verbatim_stretch(src, from + 1, to);
        assert(seq![src[from]] + (src.subrange(from + 1, to) + without_trivia(src, to))
            =~= src.subrange(from, to) + without_trivia(src, to));
    }
}

proof fn lemma_lexemes_prepend(first: TokenView, rest: Seq<TokenView>)
    ensures
        lexemes(seq![first] + rest) == first.lexeme + lexemes(rest),
{
    assert((seq![first] + rest).drop_first() =~= rest);
}

proof fn lemma_token_text(src: Seq<char>, i: int)
    requires
        0 <= i < src.len(),
        !is_whitespace(src[i]),
        !starts_comment(src, i),
        scan(src, i) is Ok,
    ensures
        i < scan(src, i)->Ok_0.1 <= src.len(),
        without_trivia(src, i) == src.subrange(i, scan(src, i)->Ok_0.1) + without_trivia(
            src,
            scan(src, i)->Ok_0.1,
        ),
{
    let end = scan(src, i)->Ok_0.1;
    let c = src[i];
    lemma_lex_step_advances(src, i);
    if c == '"' {
        lemma_run_end(src, i + 1, Run::Text);
    } else if is_digit(c) {
        let whole = run_end(src, i + 1, Run::Digits);
        lemma_run_end(src, i + 1, Run::Digits);
        if whole < src.len() && src[whole] == '.' {
            lemma_run_end(src, whole + 1, Run::Digits);
        }
        assert forall|k: int| i <= k < end implies verbatim_at(src, k) by {
            assert(is_digit(src[k]) || src[k] == '.');
        }
        lemma_verbatim_stretch(src, i, end);
    } else if is_alpha(c) {
        lemma_run_end(src, i + 1, Run::Word);
        assert forall|k: int| i <= k < end implies verbatim_at(src, k) by {
            assert(is_alphanumeric(src[k]));
        }
        lemma_verbatim_stretch(src, i, end);
    } else {
        assert forall|k: int| i <= k < end implies verbatim_at(src, k) by {
            assert(k == i || (k == i + 1 && src[k] == '='));
        }
        lemma_verbatim_stretch(src, i, end);
    }
}

proof fn lemma_lexemes_from(src: Seq<char>, i: int)
    requires
        0 <= i <= src.len(),
        tokens_from(src, i) is Ok,
    ensures
        lexemes(tokens_from(src, i)->Ok_0) == without_trivia(src, i),
    decreases src.len() - i,
{
    if i >= src.len() {
        lemma_lexemes_prepend(end_of_stream(src), Seq::empty());
        assert(seq![end_of_stream(src)] + Seq::<TokenView>::empty() =~= seq![end_of_stream(src)]);
        assert(Seq::<char>::empty() + Seq::<char>::empty() =~= Seq::<char>::empty());
    } else {
        lemma_lex_step_advances(src, i);
        let next = lex_step(src, i)->Ok_0.1;
        lemma_lexemes_from(src, next);
        let rest = tokens_from(src, next)->Ok_0;
        match lex_step(src, i)->Ok_0.0 {
            Some(t) => {
                lemma_lexemes_prepend(t, rest);
                lemma_token_text(src, i);
            },
            None => {},
        }
    }
}

/// Lexing loses nothing but whitespace and comments: the texts of the tokens
/// of a source that lexes, put one after the other, are the source with
/// whitespace and comments left out.
pub proof fn lemma_lexemes_reproduce_source(src: Seq<char>)
    requires
        tokenize(src) is Ok,
    ensures
        lexemes(tokenize(src)->Ok_0) == without_trivia(src, 0),
{
    lemma_lexemes_from(src, 0);
}

/// Where in the source a token was read: the index of its first
/// character.
pub open spec fn stands_at(src: Seq<char>, token: TokenView, start: int) -> bool {
    &&& 0 <= start <= src.len()
    &&& start + token.lexeme.len() <= src.len()
    &&& token.lexeme == src.subrange(start, start + token.lexeme.len())
    &&& token.line == line_at(src, start)
    &&& token.column == column_at(src, start)
}

/// The token was read from the source at an index that is `from` at the
/// least.
pub open spec fn located(src: Seq<char>, token: TokenView, from: int) -> bool {
    exists|start: int| from <= start && #[trigger] stands_at(src, token, start)
}

proof fn lemma_located_earlier(src: Seq<char>, token: TokenView, from: int, earlier: int)
    requires
        located(src, token, from),
        earlier <= from,
    ensures
        located(src, token, earlier),
{
    let start = choose|start: int| from <= start && #[trigger] stands_at(src, token, start);
    assert(earlier <= start && stands_at(src, token, start));
}

proof fn lemma_tokens_from(src: Seq<char>, i: int)
    requires
        0 <= i <= src.len(),
        tokens_from(src, i) is Ok,
    ensures
        ({
            let tokens = tokens_from(src, i)->Ok_0;
            &&& tokens.len() > 0
            &&& tokens.last() == end_of_stream(src)
            &&& forall|k: int| 0 <= k < tokens.len() - 1 ==> !(#[trigger] tokens[k].token_type is EOF)
            &&& forall|k: int| 0 <= k < tokens.len() ==> located(src, #[trigger] tokens[k], i)
        }),
    decreases src.len() - i,
{
    let tokens = tokens_from(src, i)->Ok_0;
    if i >= src.len() {
        assert(tokens[0].lexeme =~= src.subrange(src.len() as int, src.len() as int));
        assert(stands_at(src, tokens[0], src.len() as int));
    } else {
        lemma_lex_step_advances(src, i);
        let next = lex_step(src, i)->Ok_0.1;
        lemma_tokens_from(src, next);
        let rest = tokens_from(src, next)->Ok_0;
        match lex_step(src, i)->Ok_0.0 {
            Some(t) => {
                assert(tokens =~= seq![t] + rest);
                assert(stands_at(src, t, i));
                assert forall|k: int| 0 <= k < tokens.len() implies located(
                    src,
                    #[trigger] tokens[k],
                    i,
                ) by {
                    if k > 0 {
                        assert(tokens[k] == rest[k - 1]);
                        lemma_located_earlier(src, rest[k - 1], next, i);
                    }
                }
                assert forall|k: int| 0 <= k < tokens.len() - 1 implies !(
                #[trigger] tokens[k].token_type is EOF) by {
                    if k > 0 {
                        assert(tokens[k] == rest[k - 1]);
                    }
                }
            },
            None => {
                assert forall|k: int| 0 <= k < tokens.len() implies located(
                    src,
                    #[trigger] tokens[k],
                    i,
                ) by {
                    lemma_located_earlier(src, rest[k], next, i);
                }
            },
        }
    }
}

/// The tokens of a source end in exactly one end-of-stream sentinel, and
/// every token stands where it says: its text is the text of the source at
/// an index whose line and column are those of the token.
pub proof fn lemma_tokens_are_located(src: Seq<char>)
    requires
        tokenize(src) is Ok,
    ensures
        ({
            let tokens = tokenize(src)->Ok_0;
            &&& tokens.len() > 0
            &&& tokens.last().token_type is EOF
            &&& forall|k: int| 0 <= k < tokens.len() - 1 ==> !(#[trigger] tokens[k].token_type is EOF)
            &&& forall|k: int| 0 <= k < tokens.len() ==> located(src, #[trigger] tokens[k], 0)
        }),
{
    lemma_tokens_from(src, 0);
}

} // verus!
