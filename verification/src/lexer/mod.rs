use vstd::prelude::*;
use crate::error::context::{ErrorContext, Errors, Span, SpanType};
use crate::error::lexer_error::{IntErrorKind, LexerError, LexerErrorModel};
use crate::text::{
    char_is_alphanumeric, char_is_numeric, chars_of, is_alphanumeric, is_ascii_digit,
    is_ascii_letter, is_numeric, is_white_space, is_whitespace, push_char,
};
use crate::lexer::token::{all_simple_tokens, token_text, SimpleToken, Token, TokenModel};

pub mod token;
pub mod symbols;

verus! {

/// A token together with the characters it was read from.
#[derive(Debug, Clone)]
pub struct TokenInfo {
    pub token: Token,
    pub span: Span,
}

/// The model of a `TokenInfo`.
pub struct TokenInfoModel {
    pub token: TokenModel,
    pub span: Span,
}

impl View for TokenInfo {
    type V = TokenInfoModel;

    open spec fn view(&self) -> TokenInfoModel {
        TokenInfoModel { token: self.token@, span: self.span }
    }
}

/// The model of a located lexer error: the error and the span it covers.
pub struct LexErrorModel {
    pub error: LexerErrorModel,
    pub span: Span,
}

/// The model of a located lexer error, read from an `ErrorContext`.
pub open spec fn lex_error_view(e: ErrorContext<LexerError>) -> LexErrorModel {
    LexErrorModel {
        error: e.error@,
        span: match e.span_type {
            SpanType::SEGMENT(s) => s,
            _ => Span { from: 0, to: 0 },
        },
    }
}

// ---------------------------------------------------------------------------
// The lexical grammar, stated over the source text `s`.
// ---------------------------------------------------------------------------

/// The first position `>= i` that does not hold white space.
pub open spec fn skip_white_space(s: Seq<char>, i: int) -> int
    decreases s.len() - i,
{
    if i >= s.len() {
        i
    } else if is_white_space(s[i]) {
        skip_white_space(s, i + 1)
    } else {
        i
    }
}

/// Where a line comment whose text starts at `i` ends: at a `\n`, at a `\r\n`, or at the end.
pub open spec fn line_comment_end(s: Seq<char>, i: int) -> int
    decreases s.len() - i,
{
    if i >= s.len() {
        s.len() as int
    } else if s[i] == '\n' {
        i
    } else if s[i] == '\r' && i + 1 < s.len() && s[i + 1] == '\n' {
        i
    } else {
        line_comment_end(s, i + 1)
    }
}

/// The position after the line break at `e` (that ends a line comment), or the end.
pub open spec fn after_line_break(s: Seq<char>, e: int) -> int {
    if e >= s.len() {
        s.len() as int
    } else if s[e] == '\n' {
        e + 1
    } else {
        e + 2
    }
}

/// The position of the `*/` that closes a block comment whose text starts at `i`,
/// or the end of the text when there is none.
pub open spec fn block_comment_end(s: Seq<char>, i: int) -> int
    decreases s.len() - i,
{
    if i >= s.len() {
        s.len() as int
    } else if s[i] == '*' && i + 1 < s.len() && s[i + 1] == '/' {
        i
    } else {
        block_comment_end(s, i + 1)
    }
}

/// The position of the `"` that closes a string literal whose text starts at `i`
/// (a `\"` does not close it), or the end of the text when there is none.
pub open spec fn string_end(s: Seq<char>, i: int) -> int
    decreases s.len() - i,
{
    if i >= s.len() {
        s.len() as int
    } else if s[i] == '"' {
        i
    } else if s[i] == '\\' && i + 1 < s.len() && s[i + 1] == '"' {
        string_end(s, i + 2)
    } else {
        string_end(s, i + 1)
    }
}

/// Where a number literal that reaches position `i` ends: before a second dot,
/// or before a character that is neither a dot nor numeric.
pub open spec fn number_end(s: Seq<char>, i: int, had_dot: bool) -> int
    decreases s.len() - i,
{
    if i >= s.len() || i < 0 {
        i
    } else if s[i] == '.' {
        if had_dot {
            i
        } else {
            number_end(s, i + 1, true)
        }
    } else if !char_is_numeric(s[i]) {
        i
    } else {
        number_end(s, i + 1, had_dot)
    }
}

/// Where a word (letters, digits and `_`) that reaches position `i` ends.
pub open spec fn word_end(s: Seq<char>, i: int) -> int
    decreases s.len() - i,
{
    if i >= s.len() || i < 0 {
        i
    } else if s[i] == ' ' || (!char_is_alphanumeric(s[i]) && s[i] != '_') {
        i
    } else {
        word_end(s, i + 1)
    }
}

/// The value of the decimal digits `t[i..]` read after the value `acc`, as std's
/// `i64` parsing computes it from left to right.
pub open spec fn parse_digits(t: Seq<char>, i: int, acc: int) -> Result<int, IntErrorKind>
    decreases t.len() - i,
{
    if i >= t.len() {
        Ok(acc)
    } else if !is_ascii_digit(t[i]) {
        Err(IntErrorKind::InvalidDigit)
    } else {
        let next = acc * 10 + (t[i] as u32 - '0' as u32);
        if next > i64::MAX {
            Err(IntErrorKind::PosOverflow)
        } else {
            parse_digits(t, i + 1, next)
        }
    }
}

/// Whether every character of `t` is an ASCII digit or a dot.
pub open spec fn digits_and_dots(t: Seq<char>) -> bool {
    forall|i: int| 0 <= i < t.len() ==> (is_ascii_digit(#[trigger] t[i]) || t[i] == '.')
}

/// The token, or error, that the number literal with text `t` gives.
pub open spec fn number_token(t: Seq<char>) -> Result<TokenModel, LexerErrorModel> {
    if t.contains('.') {
        if digits_and_dots(t) {
            Ok(TokenModel::NumberFloatLiteral(t))
        } else {
            Err(LexerErrorModel::FloatParseFail(t))
        }
    } else {
        match parse_digits(t, 0, 0) {
            Ok(v) => Ok(TokenModel::NumberIntLiteral(v as i64)),
            Err(k) => Err(LexerErrorModel::IntParseFail(t, k)),
        }
    }
}

/// Whether the text `r` stands in `s` at position `i`.
pub open spec fn text_at(s: Seq<char>, i: int, r: Seq<char>) -> bool {
    0 <= i && i + r.len() <= s.len() && s.subrange(i, i + r.len()) == r
}

/// Among `toks`, the first of the longest fixed tokens whose text stands at position `i`.
pub open spec fn longest_token_at(s: Seq<char>, i: int, toks: Seq<SimpleToken>) -> Option<
    SimpleToken,
>
    decreases toks.len(),
{
    if toks.len() == 0 {
        None
    } else {
        let prev = longest_token_at(s, i, toks.drop_last());
        let t = toks.last();
        if text_at(s, i, token_text(t)) && (prev is None || token_text(t).len() > token_text(
            prev->0,
        ).len()) {
            Some(t)
        } else {
            prev
        }
    }
}

/// One step of reading: the token (or error) that starts at or after `pos`, and
/// the position after it.
pub open spec fn lex_step(s: Seq<char>, pos: int) -> (Result<TokenModel, LexerErrorModel>, int) {
    let q = skip_white_space(s, pos);
    if q >= s.len() {
        (Ok(TokenModel::EOF), q)
    } else {
        let ch = s[q];
        if ch == '/' && q + 1 < s.len() && s[q + 1] == '/' {
            let e = line_comment_end(s, q + 2);
            (Ok(TokenModel::Comment(s.subrange(q + 2, e))), after_line_break(s, e))
        } else if ch == '/' && q + 1 < s.len() && s[q + 1] == '*' {
            let e = block_comment_end(s, q + 2);
            if e < s.len() {
                (Ok(TokenModel::MultilineComment(s.subrange(q + 2, e))), e + 2)
            } else {
                (Err(LexerErrorModel::UnclosedComment), s.len() as int)
            }
        } else if ch == '"' {
            let e = string_end(s, q + 1);
            if e < s.len() {
                (Ok(TokenModel::StringLiteral(s.subrange(q + 1, e))), e + 1)
            } else {
                (Err(LexerErrorModel::UnclosedString), s.len() as int)
            }
        } else if char_is_numeric(ch) {
            let e = number_end(s, q, false);
            (number_token(s.subrange(q, e)), e)
        } else {
            match longest_token_at(s, q, all_simple_tokens()) {
                Some(t) => (Ok(TokenModel::SimpleTokenType(t)), q + token_text(t).len()),
                None => {
                    let e = word_end(s, q);
                    if e > q {
                        (Ok(TokenModel::Identifier(s.subrange(q, e))), e)
                    } else {
                        (Err(LexerErrorModel::UnknownToken(ch)), q + 1)
                    }
                },
            }
        }
    }
}

/// The token that a step of reading records: the error case records `Unknown`.
pub open spec fn step_token(r: Result<TokenModel, LexerErrorModel>) -> TokenModel {
    match r {
        Ok(t) => t,
        Err(_) => TokenModel::Unknown,
    }
}

/// The tokens read from position `pos` of `s` up to and including the end-of-file token.
pub open spec fn lex_tokens(s: Seq<char>, pos: int) -> Seq<TokenInfoModel>
    decreases s.len() - pos,
{
    let (r, next) = lex_step(s, pos);
    let info = TokenInfoModel {
        token: step_token(r),
        span: Span { from: pos as usize, to: next as usize },
    };
    if r == Ok::<TokenModel, LexerErrorModel>(TokenModel::EOF) || next <= pos || next > s.len() {
        seq![info]
    } else {
        seq![info] + lex_tokens(s, next)
    }
}

/// The errors met while reading from position `pos` of `s` to its end.
pub open spec fn lex_errors(s: Seq<char>, pos: int) -> Seq<LexErrorModel>
    decreases s.len() - pos,
{
    let (r, next) = lex_step(s, pos);
    let here: Seq<LexErrorModel> = match r {
        Ok(_) => Seq::empty(),
        Err(e) => seq![LexErrorModel { error: e, span: Span { from: pos as usize, to: next as usize } }],
    };
    if r == Ok::<TokenModel, LexerErrorModel>(TokenModel::EOF) || next <= pos || next > s.len() {
        here
    } else {
        here + lex_errors(s, next)
    }
}


// ---------------------------------------------------------------------------
// Facts about the grammar.
// ---------------------------------------------------------------------------

proof fn lemma_skip_white_space(s: Seq<char>, i: int)
    requires
        0 <= i <= s.len(),
    ensures
        i <= skip_white_space(s, i) <= s.len(),
    decreases s.len() - i,
{
    if i < s.len() && is_white_space(s[i]) {
        lemma_skip_white_space(s, i + 1);
    }
}

proof fn lemma_line_comment_end(s: Seq<char>, i: int)
    requires
        0 <= i,
    ensures
        line_comment_end(s, i) <= s.len(),
        i <= s.len() ==> i <= line_comment_end(s, i),
        line_comment_end(s, i) < s.len() && s[line_comment_end(s, i)] != '\n' ==> line_comment_end(s, i) + 1 < s.len(),
    decreases s.len() - i,
{
    if i < s.len() && s[i] != '\n' && !(s[i] == '\r' && i + 1 < s.len() && s[i + 1] == '\n') {
        lemma_line_comment_end(s, i + 1);
    }
}

proof fn lemma_block_comment_end(s: Seq<char>, i: int)
    requires
        0 <= i,
    ensures
        line_comment_end(s, i) <= s.len(),
        block_comment_end(s, i) <= s.len(),
        i <= s.len() ==> i <= block_comment_end(s, i),
        block_comment_end(s, i) < s.len() ==> block_comment_end(s, i) + 1 < s.len(),
    decreases s.len() - i,
{
    lemma_line_comment_end(s, i);
    if i < s.len() && !(s[i] == '*' && i + 1 < s.len() && s[i + 1] == '/') {
        lemma_block_comment_end(s, i + 1);
    }
}

proof fn lemma_string_end(s: Seq<char>, i: int)
    requires
        0 <= i,
    ensures
        string_end(s, i) <= s.len(),
        i <= s.len() ==> i <= string_end(s, i),
    decreases s.len() - i,
{
    if i < s.len() && s[i] != '"' {
        if s[i] == '\\' && i + 1 < s.len() && s[i + 1] == '"' {
            lemma_string_end(s, i + 2);
        } else {
            lemma_string_end(s, i + 1);
        }
    }
}

proof fn lemma_number_end(s: Seq<char>, i: int, had_dot: bool)
    requires
        0 <= i <= s.len(),
    ensures
        i <= number_end(s, i, had_dot) <= s.len(),
    decreases s.len() - i,
{
    if i < s.len() {
        if s[i] == '.' {
            if !had_dot {
                lemma_number_end(s, i + 1, true);
            }
        } else if char_is_numeric(s[i]) {
            lemma_number_end(s, i + 1, had_dot);
        }
    }
}

proof fn lemma_word_end(s: Seq<char>, i: int)
    requires
        0 <= i <= s.len(),
    ensures
        i <= word_end(s, i) <= s.len(),
    decreases s.len() - i,
{
    if i < s.len() && !(s[i] == ' ' || (!char_is_alphanumeric(s[i]) && s[i] != '_')) {
        lemma_word_end(s, i + 1);
    }
}

/// The text of every fixed token is non-empty.
pub proof fn lemma_token_text_nonempty(t: SimpleToken)
    ensures
        token_text(t).len() > 0,
{
}

proof fn lemma_longest_token_at(s: Seq<char>, i: int, toks: Seq<SimpleToken>)
    ensures
        longest_token_at(s, i, toks) matches Some(t) ==> text_at(s, i, token_text(t)),
    decreases toks.len(),
{
    if toks.len() > 0 {
        lemma_longest_token_at(s, i, toks.drop_last());
    }
}

/// Every step of reading that does not reach the end of the text moves forward.
pub proof fn lemma_lex_step_progress(s: Seq<char>, pos: int)
    requires
        0 <= pos <= s.len(),
    ensures
        pos <= lex_step(s, pos).1 <= s.len(),
        lex_step(s, pos).0 != Ok::<TokenModel, LexerErrorModel>(TokenModel::EOF) ==> pos
            < lex_step(s, pos).1,
        lex_step(s, pos).0 == Ok::<TokenModel, LexerErrorModel>(TokenModel::EOF) ==> lex_step(
            s,
            pos,
        ).1 == s.len(),
{
    lemma_skip_white_space(s, pos);
    let q = skip_white_space(s, pos);
    if q < s.len() {
        let ch = s[q];
        if ch == '/' && q + 1 < s.len() && s[q + 1] == '/' {
            lemma_line_comment_end(s, q + 2);
        } else if ch == '/' && q + 1 < s.len() && s[q + 1] == '*' {
            lemma_block_comment_end(s, q + 2);
        } else if ch == '"' {
            lemma_string_end(s, q + 1);
        } else if char_is_numeric(ch) {
            lemma_number_end(s, q, false);
            if s[q] == '.' {
                lemma_number_end(s, q + 1, true);
            } else {
                lemma_number_end(s, q + 1, false);
            }
        } else {
            lemma_longest_token_at(s, q, all_simple_tokens());
            match longest_token_at(s, q, all_simple_tokens()) {
                Some(t) => {
                    lemma_token_text_nonempty(t);
                },
                None => {
                    lemma_word_end(s, q);
                },
            }
        }
    }
}


/// What std documents of ASCII characters: the alphanumeric ones are the letters
/// and digits, the numeric ones the digits.
pub open spec fn ascii_classes_as_documented() -> bool {
    &&& forall|c: char|
        (c as u32) < 128 ==> (#[trigger] char_is_alphanumeric(c) <==> (is_ascii_digit(c) || is_ascii_letter(c)))
    &&& forall|c: char| (c as u32) < 128 ==> (#[trigger] char_is_numeric(c) <==> is_ascii_digit(c))
}

/// Whether `c` may stand in an identifier: an ASCII letter, a digit or `_`.
pub open spec fn is_identifier_char(c: char) -> bool {
    is_ascii_letter(c) || is_ascii_digit(c) || c == '_'
}

proof fn lemma_no_token_at(s: Seq<char>, i: int, toks: Seq<SimpleToken>)
    requires
        forall|t: SimpleToken| !text_at(s, i, #[trigger] token_text(t)),
    ensures
        longest_token_at(s, i, toks) is None,
    decreases toks.len(),
{
    if toks.len() > 0 {
        lemma_no_token_at(s, i, toks.drop_last());
        assert(!text_at(s, i, token_text(toks.last())));
    }
}

proof fn lemma_identifier_word_end(s: Seq<char>, i: int)
    requires
        ascii_classes_as_documented(),
        0 <= i <= s.len(),
        forall|j: int| 0 <= j < s.len() ==> is_identifier_char(#[trigger] s[j]),
    ensures
        word_end(s, i) == s.len(),
    decreases s.len() - i,
{
    if i < s.len() {
        let c = s[i];
        assert(is_identifier_char(c));
        assert((c as u32) < 128);
        assert(c == '_' || char_is_alphanumeric(c));
        lemma_identifier_word_end(s, i + 1);
    }
}

proof fn lemma_plain_string_end(s: Seq<char>, i: int)
    requires
        2 <= s.len(),
        1 <= i <= s.len() - 1,
        s[s.len() - 1] == '"',
        forall|j: int| 1 <= j < s.len() - 1 ==> #[trigger] s[j] != '"' && s[j] != '\\',
    ensures
        string_end(s, i) == s.len() - 1,
    decreases s.len() - i,
{
    if i < s.len() - 1 {
        lemma_plain_string_end(s, i + 1);
    }
}

/// A string literal whose text holds no quote and no backslash is read as one
/// string token holding that text, followed by the end of file, with no error.
pub proof fn lemma_string_lexes_whole(body: Seq<char>)
    requires
        body.len() + 2 <= usize::MAX,
        forall|j: int| 0 <= j < body.len() ==> #[trigger] body[j] != '"' && body[j] != '\\',
    ensures
        ({
            let s = seq!['"'] + body + seq!['"'];
            &&& lex_tokens(s, 0) == seq![
                TokenInfoModel { token: TokenModel::StringLiteral(body), span: Span { from: 0, to: s.len() as usize } },
                TokenInfoModel { token: TokenModel::EOF, span: Span { from: s.len() as usize, to: s.len() as usize } },
            ]
            &&& lex_errors(s, 0) == Seq::<LexErrorModel>::empty()
        }),
{
    let s = seq!['"'] + body + seq!['"'];
    let n = s.len() as int;
    assert(s[0] == '"');
    assert(s[n - 1] == '"');
    assert forall|j: int| 1 <= j < n - 1 implies #[trigger] s[j] != '"' && s[j] != '\\' by {
        assert(s[j] == body[j - 1]);
    }
    assert(!is_white_space(s[0]));
    assert(skip_white_space(s, 0) == 0);
    lemma_plain_string_end(s, 1);
    assert(s.subrange(1, n - 1) =~= body);
    assert(lex_step(s, 0) == (Ok::<TokenModel, LexerErrorModel>(TokenModel::StringLiteral(body)), n));
    assert(skip_white_space(s, n) == n);
    assert(lex_step(s, n) == (Ok::<TokenModel, LexerErrorModel>(TokenModel::EOF), n));
    assert(lex_tokens(s, n) == seq![
        TokenInfoModel { token: TokenModel::EOF, span: Span { from: n as usize, to: n as usize } },
    ]);
    assert(lex_errors(s, n) == Seq::<LexErrorModel>::empty());
    assert(lex_errors(s, 0) =~= Seq::<LexErrorModel>::empty());
}

/// A text made only of letters, digits and underscores, that does not start with a
/// digit and at whose start no keyword or symbol stands, is read as one identifier
/// holding the whole text, followed by the end of file, with no error.
pub proof fn lemma_identifier_lexes_whole(s: Seq<char>)
    requires
        ascii_classes_as_documented(),
        0 < s.len() <= usize::MAX,
        forall|j: int| 0 <= j < s.len() ==> is_identifier_char(#[trigger] s[j]),
        !is_ascii_digit(s[0]),
        forall|t: SimpleToken| !text_at(s, 0, #[trigger] token_text(t)),
    ensures
        lex_tokens(s, 0) == seq![
            TokenInfoModel { token: TokenModel::Identifier(s), span: Span { from: 0, to: s.len() as usize } },
            TokenInfoModel { token: TokenModel::EOF, span: Span { from: s.len() as usize, to: s.len() as usize } },
        ],
        lex_errors(s, 0) == Seq::<LexErrorModel>::empty(),
{
    let c = s[0];
    assert(is_identifier_char(c));
    assert((c as u32) < 128);
    assert(!char_is_numeric(c));
    assert(!is_white_space(c));
    assert(skip_white_space(s, 0) == 0);
    lemma_no_token_at(s, 0, all_simple_tokens());
    lemma_identifier_word_end(s, 0);
    assert(s.subrange(0, s.len() as int) == s);
    assert(lex_step(s, 0) == (Ok::<TokenModel, LexerErrorModel>(TokenModel::Identifier(s)), s.len() as int));
    assert(skip_white_space(s, s.len() as int) == s.len());
    assert(lex_step(s, s.len() as int) == (Ok::<TokenModel, LexerErrorModel>(TokenModel::EOF), s.len() as int));
    assert(lex_tokens(s, s.len() as int) == seq![
        TokenInfoModel { token: TokenModel::EOF, span: Span { from: s.len() as usize, to: s.len() as usize } },
    ]);
    assert(lex_errors(s, s.len() as int) == Seq::<LexErrorModel>::empty());
    assert(lex_errors(s, 0) =~= Seq::<LexErrorModel>::empty());
}

/// Reading a text yields a list of tokens whose spans follow one another without
/// gap from the starting position to the end of the text, each no shorter than
/// empty; the list ends with the one and only end-of-file token.
pub proof fn lemma_lex_tokens_tile(s: Seq<char>, pos: int)
    requires
        0 <= pos <= s.len(),
        s.len() <= usize::MAX,
    ensures
        ({
            let ts = lex_tokens(s, pos);
            &&& ts.len() >= 1
            &&& ts[0].span.from == pos
            &&& ts.last().token == TokenModel::EOF
            &&& ts.last().span.to == s.len()
            &&& forall|i: int| 0 <= i < ts.len() ==> (#[trigger] ts[i]).span.from <= ts[i].span.to
            &&& forall|i: int| 0 <= i < ts.len() - 1 ==> (#[trigger] ts[i]).span.to == ts[i + 1].span.from
            &&& forall|i: int| 0 <= i < ts.len() - 1 ==> (#[trigger] ts[i]).token != TokenModel::EOF
        }),
    decreases s.len() - pos,
{
    lemma_lex_step_progress(s, pos);
    let (r, next) = lex_step(s, pos);
    if r == Ok::<TokenModel, LexerErrorModel>(TokenModel::EOF) {
    } else {
        lemma_lex_tokens_tile(s, next);
        let ts = lex_tokens(s, pos);
        let rest = lex_tokens(s, next);
        assert(ts == seq![ts[0]] + rest);
        assert forall|i: int| 0 <= i < ts.len() - 1 implies (#[trigger] ts[i]).span.to == ts[i
            + 1].span.from by {
            if i > 0 {
                assert(ts[i] == rest[i - 1]);
                assert(ts[i + 1] == rest[i]);
            }
        }
        assert forall|i: int| 0 <= i < ts.len() - 1 implies (#[trigger] ts[i]).token
            != TokenModel::EOF by {
            if i > 0 {
                assert(ts[i] == rest[i - 1]);
            } else {
                match r {
                    Ok(t) => {},
                    Err(_) => {},
                }
            }
        }
        assert forall|i: int| 0 <= i < ts.len() implies (#[trigger] ts[i]).span.from
            <= ts[i].span.to by {
            if i > 0 {
                assert(ts[i] == rest[i - 1]);
            }
        }
    }
}

// ---------------------------------------------------------------------------
// The lexer.
// ---------------------------------------------------------------------------

/// Reads the tokens of a source text, recording the errors it meets.
pub struct Lexer {
    str: Vec<char>,
    pos: usize,
    pub errors: Errors<LexerError>,
}

/// Whether `text` stands in `s` at position `i`.
fn text_matches(s: &Vec<char>, i: usize, text: &Vec<char>) -> (b: bool)
    requires
        i <= s.len(),
    ensures
        b == text_at(s@, i as int, text@),
{
    if text.len() > s.len() - i {
        return false;
    }
    let mut j: usize = 0;
    while j < text.len()
        invariant
            i + text.len() <= s.len(),
            j <= text.len(),
            forall|k: int| 0 <= k < j ==> s@[i + k] == text@[k],
        decreases text.len() - j,
    {
        if s[i + j] != text[j] {
            assert(s@.subrange(i as int, i + text.len())[j as int] != text@[j as int]);
            return false;
        }
        j += 1;
    }
    assert(s@.subrange(i as int, i + text.len()) == text@);
    true
}

impl Lexer {
    /// The source text being read.
    pub closed spec fn text(&self) -> Seq<char> {
        self.str@
    }

    /// The position of the next character to read.
    pub closed spec fn position(&self) -> int {
        self.pos as int
    }

    /// The errors recorded so far.
    pub closed spec fn error_list(&self) -> Seq<ErrorContext<LexerError>> {
        self.errors@
    }

    /// The position lies within the text.
    pub closed spec fn wf(&self) -> bool {
        self.pos <= self.str.len()
    }

    pub fn new(str: String) -> (l: Lexer)
        ensures
            l.wf(),
            l.text() == str@,
            l.position() == 0,
            l.error_list().len() == 0,
    {
        Lexer { str: chars_of(str.as_str()), pos: 0, errors: Vec::new() }
    }

    /// Reads every token up to and including the end-of-file token; each error met
    /// is recorded in `errors` and stands as an `Unknown` token.
    pub fn parse(&mut self) -> (res: Vec<TokenInfo>)
        requires
            old(self).wf(),
        ensures
            final(self).wf(),
            final(self).text() == old(self).text(),
            final(self).position() == old(self).text().len(),
            res@.map_values(|t: TokenInfo| t@) == lex_tokens(old(self).text(), old(self).position()),
            final(self).error_list().map_values(|e: ErrorContext<LexerError>| lex_error_view(e))
                == old(self).error_list().map_values(|e: ErrorContext<LexerError>| lex_error_view(e))
                + lex_errors(old(self).text(), old(self).position()),
    {
        let ghost s = self.str@;
        let ghost p0 = self.pos as int;
        let ghost e0 = self.errors@.map_values(|e: ErrorContext<LexerError>| lex_error_view(e));
        let mut res: Vec<TokenInfo> = Vec::new();
        loop
            invariant_except_break
                self.wf(),
                self.str@ == s,
                res@.map_values(|t: TokenInfo| t@) + lex_tokens(s, self.pos as int) == lex_tokens(
                    s,
                    p0,
                ),
                self.errors@.map_values(|e: ErrorContext<LexerError>| lex_error_view(e))
                    + lex_errors(s, self.pos as int) == e0 + lex_errors(s, p0),
            ensures
                self.wf(),
                self.str@ == s,
                self.pos == s.len(),
                res@.map_values(|t: TokenInfo| t@) == lex_tokens(s, p0),
                self.errors@.map_values(|e: ErrorContext<LexerError>| lex_error_view(e)) == e0
                    + lex_errors(s, p0),
            decreases s.len() - self.pos,
        {
            let before = self.pos;
            let ghost old_errors = self.errors@;
            let ghost old_res = res@;
            proof {
                lemma_lex_step_progress(s, before as int);
            }
            let read = self.read_next();
            let after = self.pos;
            let token = match read {
                Ok(t) => t,
                Err(e) => {
                    self.errors.push(ErrorContext::new(e, before, after));
                    Token::Unknown
                },
            };
            let eof = token.is_eof();
            res.push(TokenInfo { token, span: Span::new(before, after) });
            proof {
                let info = TokenInfoModel {
                    token: step_token(lex_step(s, before as int).0),
                    span: Span { from: before, to: after },
                };
                assert(res@.map_values(|t: TokenInfo| t@) == old_res.map_values(
                    |t: TokenInfo| t@,
                ).push(info));
                assert(self.errors@.map_values(|e: ErrorContext<LexerError>| lex_error_view(e))
                    == old_errors.map_values(|e: ErrorContext<LexerError>| lex_error_view(e))
                    + match lex_step(s, before as int).0 {
                    Ok(_) => Seq::<LexErrorModel>::empty(),
                    Err(e) => seq![LexErrorModel { error: e, span: Span { from: before, to: after } }],
                });
                if !eof {
                    assert(lex_tokens(s, before as int) == seq![info] + lex_tokens(s, after as int));
                } else {
                    assert(lex_tokens(s, before as int) == seq![info]);
                }
            }
            if eof {
                break;
            }
        }
        res
    }

    fn has_next(&self) -> (b: bool)
        ensures
            b == (self.pos < self.str.len()),
    {
        self.pos < self.str.len()
    }

    fn next_char(&mut self) -> (r: Result<char, LexerError>)
        requires
            old(self).wf(),
        ensures
            final(self).wf(),
            final(self).str == old(self).str,
            final(self).errors == old(self).errors,
            old(self).pos < old(self).str.len() ==> r == Ok::<char, LexerError>(
                old(self).str@[old(self).pos as int],
            ) && final(self).pos == old(self).pos + 1,
            old(self).pos >= old(self).str.len() ==> r == Err::<char, LexerError>(
                LexerError::EOFError,
            ) && final(self).pos == old(self).pos,
    {
        if self.pos >= self.str.len() {
            return Err(LexerError::EOFError);
        }
        let ch = self.str[self.pos];
        self.pos += 1;
        Ok(ch)
    }

    fn peek_char(&self) -> (r: Result<char, LexerError>)
        ensures
            self.pos < self.str.len() ==> r == Ok::<char, LexerError>(self.str@[self.pos as int]),
            self.pos >= self.str.len() ==> r == Err::<char, LexerError>(LexerError::EOFError),
    {
        if self.pos >= self.str.len() {
            return Err(LexerError::EOFError);
        }
        Ok(self.str[self.pos])
    }

    /// Consumes the next character if it is `ch`.
    fn next_char_if(&mut self, ch: char) -> (b: bool)
        requires
            old(self).wf(),
        ensures
            final(self).wf(),
            final(self).str == old(self).str,
            final(self).errors == old(self).errors,
            b == (old(self).pos < old(self).str.len() && old(self).str@[old(self).pos as int]
                == ch),
            final(self).pos == if b { old(self).pos + 1 } else { old(self).pos as int },
    {
        if self.pos < self.str.len() && self.str[self.pos] == ch {
            self.pos += 1;
            return true;
        }
        false
    }

    /// Reads the rest of a line comment, and the line break that ends it.
    fn next_line(&mut self) -> (r: String)
        requires
            old(self).wf(),
        ensures
            final(self).wf(),
            final(self).str == old(self).str,
            final(self).errors == old(self).errors,
            r@ == old(self).str@.subrange(
                old(self).pos as int,
                line_comment_end(old(self).str@, old(self).pos as int),
            ),
            final(self).pos == after_line_break(
                old(self).str@,
                line_comment_end(old(self).str@, old(self).pos as int),
            ),
    {
        let ghost s = self.str@;
        let ghost p0 = self.pos as int;
        proof {
            lemma_line_comment_end(s, p0);
        }
        let mut res = String::new();
        while self.pos < self.str.len() && self.str[self.pos] != '\n' && !(self.str[self.pos]
            == '\r' && self.pos + 1 < self.str.len() && self.str[self.pos + 1] == '\n')
            invariant
                self.wf(),
                self.str@ == s,
                self.str == old(self).str,
                self.errors == old(self).errors,
                0 <= p0 <= self.pos,
                line_comment_end(s, self.pos as int) == line_comment_end(s, p0),
                res@ == s.subrange(p0, self.pos as int),
            decreases s.len() - self.pos,
        {
            push_char(&mut res, self.str[self.pos]);
            proof {
                assert(s.subrange(p0, self.pos + 1) == s.subrange(p0, self.pos as int).push(
                    s[self.pos as int],
                ));
            }
            self.pos += 1;
        }
        if self.pos < self.str.len() {
            if self.str[self.pos] == '\n' {
                self.pos += 1;
            } else {
                self.pos += 2;
            }
        }
        res
    }

    /// Reads the rest of a block comment, and the `*/` that closes it.
    fn next_multiline_comment(&mut self) -> (r: Result<String, LexerError>)
        requires
            old(self).wf(),
        ensures
            final(self).wf(),
            final(self).str == old(self).str,
            final(self).errors == old(self).errors,
            ({
                let s = old(self).str@;
                let e = block_comment_end(s, old(self).pos as int);
                if e < s.len() {
                    &&& r matches Ok(c) && c@ == s.subrange(old(self).pos as int, e)
                    &&& final(self).pos == e + 2
                } else {
                    &&& r == Err::<String, LexerError>(LexerError::UnclosedComment)
                    &&& final(self).pos == s.len()
                }
            }),
    {
        let ghost s = self.str@;
        let ghost p0 = self.pos as int;
        proof {
            lemma_block_comment_end(s, p0);
        }
        let mut res = String::new();
        while self.pos < self.str.len() && !(self.str[self.pos] == '*' && self.pos + 1
            < self.str.len() && self.str[self.pos + 1] == '/')
            invariant
                self.wf(),
                self.str@ == s,
                self.str == old(self).str,
                self.errors == old(self).errors,
                0 <= p0 <= self.pos,
                block_comment_end(s, self.pos as int) == block_comment_end(s, p0),
                res@ == s.subrange(p0, self.pos as int),
            decreases s.len() - self.pos,
        {
            push_char(&mut res, self.str[self.pos]);
            proof {
                assert(s.subrange(p0, self.pos + 1) == s.subrange(p0, self.pos as int).push(
                    s[self.pos as int],
                ));
            }
            self.pos += 1;
        }
        if self.pos < self.str.len() {
            self.pos += 2;
            return Ok(res);
        }
        Err(LexerError::UnclosedComment)
    }

    /// Reads a word of letters, digits and `_`, if one starts here.
    fn try_next_word(&mut self) -> (r: Option<String>)
        requires
            old(self).wf(),
        ensures
            final(self).wf(),
            final(self).str == old(self).str,
            final(self).errors == old(self).errors,
            ({
                let s = old(self).str@;
                let e = word_end(s, old(self).pos as int);
                &&& final(self).pos == e
                &&& e > old(self).pos ==> (r matches Some(w) && w@ == s.subrange(
                    old(self).pos as int,
                    e,
                ))
                &&& e <= old(self).pos ==> r is None
            }),
    {
        let ghost s = self.str@;
        let ghost p0 = self.pos as int;
        let start = self.pos;
        let mut res = String::new();
        while self.pos < self.str.len() && !(self.str[self.pos] == ' ' || (!is_alphanumeric(
            self.str[self.pos],
        ) && self.str[self.pos] != '_'))
            invariant
                self.wf(),
                self.str@ == s,
                self.str == old(self).str,
                self.errors == old(self).errors,
                0 <= p0 <= self.pos,
                word_end(s, self.pos as int) == word_end(s, p0),
                res@ == s.subrange(p0, self.pos as int),
            decreases s.len() - self.pos,
        {
            push_char(&mut res, self.str[self.pos]);
            proof {
                assert(s.subrange(p0, self.pos + 1) == s.subrange(p0, self.pos as int).push(
                    s[self.pos as int],
                ));
            }
            self.pos += 1;
        }
        if self.pos == start {
            return None;
        }
        Some(res)
    }

    /// Reads a string literal that starts with the `"` at the current position.
    fn next_string(&mut self) -> (r: Result<String, LexerError>)
        requires
            old(self).wf(),
            old(self).pos < old(self).str.len(),
            old(self).str@[old(self).pos as int] == '"',
        ensures
            final(self).wf(),
            final(self).str == old(self).str,
            final(self).errors == old(self).errors,
            ({
                let s = old(self).str@;
                let e = string_end(s, old(self).pos + 1);
                if e < s.len() {
                    &&& r matches Ok(c) && c@ == s.subrange(old(self).pos + 1, e)
                    &&& final(self).pos == e + 1
                } else {
                    &&& r == Err::<String, LexerError>(LexerError::UnclosedString)
                    &&& final(self).pos == s.len()
                }
            }),
    {
        let ghost s = self.str@;
        self.pos += 1;
        let ghost p0 = self.pos as int;
        proof {
            lemma_string_end(s, p0);
        }
        let mut res = String::new();
        while self.pos < self.str.len() && self.str[self.pos] != '"'
            invariant
                self.wf(),
                self.str@ == s,
                self.str == old(self).str,
                self.errors == old(self).errors,
                0 <= p0 <= self.pos,
                string_end(s, self.pos as int) == string_end(s, p0),
                res@ == s.subrange(p0, self.pos as int),
            decreases s.len() - self.pos,
        {
            if self.str[self.pos] == '\\' && self.pos + 1 < self.str.len() && self.str[self.pos
                + 1] == '"' {
                push_char(&mut res, '\\');
                push_char(&mut res, '"');
                proof {
                    assert(s.subrange(p0, self.pos + 2) == s.subrange(p0, self.pos as int).push(
                        s[self.pos as int],
                    ).push(s[self.pos + 1]));
                }
                self.pos += 2;
            } else {
                push_char(&mut res, self.str[self.pos]);
                proof {
                    assert(s.subrange(p0, self.pos + 1) == s.subrange(p0, self.pos as int).push(
                        s[self.pos as int],
                    ));
                }
                self.pos += 1;
            }
        }
        if self.pos < self.str.len() {
            self.pos += 1;
            return Ok(res);
        }
        Err(LexerError::UnclosedString)
    }

    /// Reads a number literal that starts at the current position.
    fn next_number_literal(&mut self) -> (r: Result<Token, LexerError>)
        requires
            old(self).wf(),
        ensures
            final(self).wf(),
            final(self).str == old(self).str,
            final(self).errors == old(self).errors,
            ({
                let s = old(self).str@;
                let e = number_end(s, old(self).pos as int, false);
                let t = s.subrange(old(self).pos as int, e);
                &&& final(self).pos == e
                &&& t.len() == 0 ==> (r matches Err(LexerError::NumberExpected(n)) && n@ == t)
                &&& t.len() > 0 ==> match r {
                    Ok(tok) => number_token(t) == Ok::<TokenModel, LexerErrorModel>(tok@),
                    Err(err) => number_token(t) == Err::<TokenModel, LexerErrorModel>(err@),
                }
            }),
    {
        let ghost s = self.str@;
        let ghost p0 = self.pos as int;
        proof {
            lemma_number_end(s, p0, false);
        }
        let start = self.pos;
        let mut had_dot = false;
        let mut res = String::new();
        while self.pos < self.str.len() && ((self.str[self.pos] == '.' && !had_dot) || (
        self.str[self.pos] != '.' && is_numeric(self.str[self.pos])))
            invariant
                self.wf(),
                self.str@ == s,
                p0 == start,
                0 <= p0 <= self.pos,
                self.str == old(self).str,
                self.errors == old(self).errors,
                number_end(s, self.pos as int, had_dot) == number_end(s, p0, false),
                had_dot == s.subrange(p0, self.pos as int).contains('.'),
                res@ == s.subrange(p0, self.pos as int),
            decreases s.len() - self.pos,
        {
            if self.str[self.pos] == '.' {
                had_dot = true;
            }
            push_char(&mut res, self.str[self.pos]);
            proof {
                let t0 = s.subrange(p0, self.pos as int);
                let t1 = s.subrange(p0, self.pos + 1);
                assert(t1 == t0.push(s[self.pos as int]));
                if had_dot && !t0.contains('.') {
                    assert(t1[t1.len() - 1] == '.');
                }
                if t1.contains('.') {
                    let k = choose|k: int| 0 <= k < t1.len() && t1[k] == '.';
                    if k < t0.len() {
                        assert(t0[k] == '.');
                    }
                }
            }
            self.pos += 1;
        }
        let end = self.pos;
        if end == start {
            return Err(LexerError::NumberExpected(res));
        }
        if had_dot {
            if all_digits_and_dots(&self.str, start, end) {
                return Ok(Token::NumberFloatLiteral(res));
            }
            return Err(LexerError::FloatParseFail(res));
        }
        match parse_i64(&self.str, start, end) {
            Ok(v) => Ok(Token::NumberIntLiteral(v)),
            Err(k) => Err(LexerError::IntParseFail(res, k)),
        }
    }

    /// Among all fixed tokens, the first of the longest whose text stands at the
    /// current position.
    fn longest_token(&self) -> (r: Option<SimpleToken>)
        requires
            self.wf(),
        ensures
            r == longest_token_at(self.str@, self.pos as int, all_simple_tokens()),
    {
        let toks = SimpleToken::all();
        let mut best: Option<SimpleToken> = None;
        let mut best_len: usize = 0;
        let mut i: usize = 0;
        while i < toks.len()
            invariant
                self.wf(),
                toks@ == all_simple_tokens(),
                i <= toks.len(),
                best == longest_token_at(self.str@, self.pos as int, toks@.take(i as int)),
                best matches Some(b) ==> best_len == token_text(b).len(),
            decreases toks.len() - i,
        {
            let t = toks[i];
            let text = chars_of(t.string_representation());
            if text_matches(&self.str, self.pos, &text) && (best.is_none() || text.len()
                > best_len) {
                best = Some(t);
                best_len = text.len();
            }
            proof {
                assert(toks@.take(i + 1).drop_last() == toks@.take(i as int));
                assert(toks@.take(i + 1).last() == t);
            }
            i += 1;
        }
        assert(toks@.take(toks.len() as int) == toks@);
        best
    }

    /// Reads the next token, skipping white space before it.
    pub fn read_next(&mut self) -> (r: Result<Token, LexerError>)
        requires
            old(self).wf(),
        ensures
            final(self).wf(),
            final(self).text() == old(self).text(),
            final(self).error_list() == old(self).error_list(),
            final(self).position() == lex_step(old(self).text(), old(self).position()).1,
            match r {
                Ok(t) => lex_step(old(self).text(), old(self).position()).0 == Ok::<
                    TokenModel,
                    LexerErrorModel,
                >(t@),
                Err(e) => lex_step(old(self).text(), old(self).position()).0 == Err::<
                    TokenModel,
                    LexerErrorModel,
                >(e@),
            },
    {
        let ghost s = self.str@;
        let ghost p0 = self.pos as int;
        while self.pos < self.str.len() && is_whitespace(self.str[self.pos])
            invariant
                self.wf(),
                self.str@ == s,
                self.str == old(self).str,
                self.errors == old(self).errors,
                skip_white_space(s, self.pos as int) == skip_white_space(s, p0),
            decreases s.len() - self.pos,
        {
            self.pos += 1;
        }
        if !self.has_next() {
            return Ok(Token::EOF);
        }
        let q = self.pos;
        let ch = self.str[q];
        self.pos = q + 1;
        if ch == '/' {
            if self.next_char_if('/') {
                return Ok(Token::Comment(self.next_line()));
            }
            if self.next_char_if('*') {
                return match self.next_multiline_comment() {
                    Ok(c) => Ok(Token::MultilineComment(c)),
                    Err(e) => Err(e),
                };
            }
        }
        if ch == '"' {
            self.pos -= 1;
            return match self.next_string() {
                Ok(c) => Ok(Token::StringLiteral(c)),
                Err(e) => Err(e),
            };
        }
        if is_numeric(ch) {
            self.pos -= 1;
            proof {
                if s[q as int] == '.' {
                    lemma_number_end(s, q + 1, true);
                } else {
                    lemma_number_end(s, q + 1, false);
                }
            }
            return self.next_number_literal();
        }
        self.pos -= 1;
        match self.longest_token() {
            Some(t) => {
                proof {
                    lemma_longest_token_at(s, q as int, all_simple_tokens());
                }
                let text = chars_of(t.string_representation());
                self.pos = q + text.len();
                return Ok(Token::SimpleTokenType(t));
            },
            None => {},
        }
        proof {
            lemma_word_end(s, q as int);
        }
        if let Some(word) = self.try_next_word() {
            return Ok(Token::Identifier(word));
        }
        self.pos += 1;
        Err(LexerError::UnknownToken(ch))
    }

    /// The 1-based number of the line of the current position.
    fn current_line(&self) -> (n: u32)
        requires
            self.wf(),
            crate::error::context::count_newlines(self.str@.subrange(0, self.pos as int))
                < u32::MAX,
        ensures
            n == crate::error::context::count_newlines(self.str@.subrange(0, self.pos as int))
                + 1,
    {
        let mut c: u32 = 0;
        let mut i: usize = 0;
        while i < self.pos
            invariant
                self.wf(),
                i <= self.pos,
                c == crate::error::context::count_newlines(self.str@.subrange(0, i as int)),
                crate::error::context::count_newlines(self.str@.subrange(0, self.pos as int))
                    < u32::MAX,
            decreases self.pos - i,
        {
            assert(self.str@.subrange(0, i + 1).drop_last() == self.str@.subrange(0, i as int));
            proof {
                lemma_count_newlines_monotone(self.str@, (i + 1) as int, self.pos as int);
            }
            if self.str[i] == '\n' {
                c += 1;
            }
            i += 1;
        }
        c + 1
    }
}

/// Counting line breaks over a longer prefix never gives fewer.
proof fn lemma_count_newlines_monotone(s: Seq<char>, i: int, j: int)
    requires
        0 <= i <= j <= s.len(),
    ensures
        crate::error::context::count_newlines(s.subrange(0, i))
            <= crate::error::context::count_newlines(s.subrange(0, j)),
    decreases j - i,
{
    if i < j {
        assert(s.subrange(0, j).drop_last() == s.subrange(0, j - 1));
        lemma_count_newlines_monotone(s, i, j - 1);
    }
}

/// Whether every character of `s[lo..hi]` is an ASCII digit or a dot.
fn all_digits_and_dots(s: &Vec<char>, lo: usize, hi: usize) -> (b: bool)
    requires
        lo <= hi <= s.len(),
    ensures
        b == digits_and_dots(s@.subrange(lo as int, hi as int)),
{
    let mut i: usize = lo;
    while i < hi
        invariant
            lo <= i <= hi <= s.len(),
            forall|k: int| lo <= k < i ==> (is_ascii_digit(s@[k]) || s@[k] == '.'),
        decreases hi - i,
    {
        let c = s[i];
        if !(('0' <= c && c <= '9') || c == '.') {
            assert(s@.subrange(lo as int, hi as int)[i - lo] == c);
            return false;
        }
        i += 1;
    }
    assert forall|k: int| 0 <= k < hi - lo implies (is_ascii_digit(
        #[trigger] s@.subrange(lo as int, hi as int)[k],
    ) || s@.subrange(lo as int, hi as int)[k] == '.') by {
        assert(s@.subrange(lo as int, hi as int)[k] == s@[lo + k]);
    }
    true
}

/// std's `i64` parsing of the decimal digits `s[lo..hi]`.
fn parse_i64(s: &Vec<char>, lo: usize, hi: usize) -> (r: Result<i64, IntErrorKind>)
    requires
        lo <= hi <= s.len(),
    ensures
        match r {
            Ok(v) => parse_digits(s@.subrange(lo as int, hi as int), 0, 0) == Ok::<
                int,
                IntErrorKind,
            >(v as int),
            Err(k) => parse_digits(s@.subrange(lo as int, hi as int), 0, 0) == Err::<
                int,
                IntErrorKind,
            >(k),
        },
{
    let ghost t = s@.subrange(lo as int, hi as int);
    let mut acc: i64 = 0;
    let mut i: usize = lo;
    while i < hi
        invariant
            lo <= i <= hi <= s.len(),
            t == s@.subrange(lo as int, hi as int),
            0 <= acc,
            parse_digits(t, (i - lo) as int, acc as int) == parse_digits(t, 0, 0),
        decreases hi - i,
    {
        let c = s[i];
        assert(t[i - lo] == c);
        if !('0' <= c && c <= '9') {
            return Err(IntErrorKind::InvalidDigit);
        }
        let d: i64 = (c as u32 - '0' as u32) as i64;
        if acc > (i64::MAX - d) / 10 {
            assert(acc * 10 + d > i64::MAX) by (nonlinear_arith)
                requires
                    acc > (i64::MAX - d) / 10,
                    0 <= d <= 9,
            ;
            return Err(IntErrorKind::PosOverflow);
        }
        assert(acc * 10 + d <= i64::MAX) by (nonlinear_arith)
            requires
                acc <= (i64::MAX - d) / 10,
                0 <= d <= 9,
                0 <= acc,
        ;
        acc = acc * 10 + d;
        i += 1;
    }
    Ok(acc)
}

} // verus!
