use vstd::prelude::*;
use crate::error::context::{ErrorContext, Errors, Span, SpanType};
use crate::error::parser_error::{ParserError, ParserErrorModel};
use crate::lexer::token::{SimpleToken, Token, TokenModel};
use crate::lexer::{TokenInfo, TokenInfoModel};
use crate::text::to_owned_string;

verus! {

/// The tokens that the parser reads: all but the block comments, in order.
pub open spec fn without_block_comments(s: Seq<TokenInfoModel>) -> Seq<TokenInfoModel>
    decreases s.len(),
{
    if s.len() == 0 {
        Seq::empty()
    } else {
        let rest = without_block_comments(s.drop_last());
        if s.last().token is MultilineComment {
            rest
        } else {
            rest.push(s.last())
        }
    }
}

/// The model of a located parser error.
pub open spec fn parse_error_view(e: ErrorContext<ParserError>) -> (ParserErrorModel, SpanType) {
    (e.error@, e.span_type)
}

/// Where recovery after a parse error stops, from position `p` of `s`: whether it
/// found a place to resume, and the position of the next token to read there.
pub open spec fn recovery_point(
    s: Seq<TokenInfoModel>,
    p: int,
    statement_tokens: Seq<SimpleToken>,
    sync_tokens: Seq<SimpleToken>,
) -> (bool, int)
    decreases s.len() - p,
{
    if p < 0 || p >= s.len() {
        (false, p)
    } else {
        match s[p].token {
            TokenModel::EOF => (true, p),
            TokenModel::SimpleTokenType(t) => {
                if statement_tokens.contains(t) || sync_tokens.contains(t) {
                    (true, p)
                } else if t == SimpleToken::Semicolon {
                    (true, p + 1)
                } else {
                    recovery_point(s, p + 1, statement_tokens, sync_tokens)
                }
            },
            _ => recovery_point(s, p + 1, statement_tokens, sync_tokens),
        }
    }
}

/// Whether `t` occurs in `list`.
fn token_listed(t: SimpleToken, list: &[SimpleToken]) -> (b: bool)
    ensures
        b == list@.contains(t),
{
    let mut i: usize = 0;
    while i < list.len()
        invariant
            i <= list@.len(),
            forall|j: int| 0 <= j < i ==> list@[j] != t,
        decreases list@.len() - i,
    {
        if list[i] == t {
            return true;
        }
        i += 1;
    }
    false
}

/// Reads a stream of tokens.
pub struct Parser {
    tokens: Vec<TokenInfo>,
    pos: usize,
    pub errors: Errors<ParserError>,
}

impl TokenInfo {
    /// A copy of this token and its span.
    pub fn duplicate(&self) -> (t: TokenInfo)
        ensures
            t@ == self@,
    {
        TokenInfo { token: self.token.duplicate(), span: self.span }
    }
}

impl Parser {
    /// The tokens being read.
    pub closed spec fn stream(&self) -> Seq<TokenInfoModel> {
        self.tokens@.map_values(|t: TokenInfo| t@)
    }

    /// The position of the next token to read.
    pub closed spec fn position(&self) -> int {
        self.pos as int
    }

    /// The errors recorded so far.
    pub closed spec fn error_list(&self) -> Seq<ErrorContext<ParserError>> {
        self.errors@
    }

    /// The span reported at the current position: the current token's, else the
    /// last token's, else the empty span at 0.
    pub open spec fn span_at(&self) -> Span {
        let s = self.stream();
        if self.position() >= s.len() {
            if s.len() == 0 {
                Span { from: 0, to: 0 }
            } else {
                s.last().span
            }
        } else {
            s[self.position()].span
        }
    }

    /// The error of reading past the last token.
    pub open spec fn eof_error(&self) -> (ParserErrorModel, SpanType) {
        (ParserErrorModel::EOFError, SpanType::SEGMENT(self.span_at()))
    }

    /// A parser over `tokens`, leaving out block comments.
    pub fn new(tokens: Vec<TokenInfo>) -> (p: Parser)
        ensures
            p.stream() == without_block_comments(tokens@.map_values(|t: TokenInfo| t@)),
            p.position() == 0,
            p.error_list().len() == 0,
    {
        let ghost all = tokens@.map_values(|t: TokenInfo| t@);
        let mut kept: Vec<TokenInfo> = Vec::new();
        let mut i: usize = 0;
        while i < tokens.len()
            invariant
                i <= tokens@.len(),
                all == tokens@.map_values(|t: TokenInfo| t@),
                kept@.map_values(|t: TokenInfo| t@) == without_block_comments(all.take(i as int)),
            decreases tokens@.len() - i,
        {
            let ghost before = kept@;
            assert(all.take(i + 1).drop_last() == all.take(i as int));
            if !matches!(tokens[i].token, Token::MultilineComment(_)) {
                kept.push(tokens[i].duplicate());
                assert(kept@.map_values(|t: TokenInfo| t@) == before.map_values(|t: TokenInfo| t@).push(
                    tokens@[i as int]@,
                ));
            }
            i += 1;
        }
        assert(all.take(tokens@.len() as int) == all);
        Parser { tokens: kept, pos: 0, errors: Vec::new() }
    }

    /// The span reported at the current position.
    pub fn current_span(&self) -> (s: Span)
        ensures
            s == self.span_at(),
    {
        if self.pos >= self.tokens.len() {
            if self.tokens.len() == 0 {
                return Span::new(0, 0);
            }
            return self.tokens[self.tokens.len() - 1].span;
        }
        self.tokens[self.pos].span
    }

    /// The next token, without reading it.
    pub fn peek(&self) -> (r: Result<Token, ErrorContext<ParserError>>)
        ensures
            self.position() < self.stream().len() ==> (r matches Ok(t) && t@ == self.stream()[self.position()].token),
            self.position() >= self.stream().len() ==> (r matches Err(e) && parse_error_view(e) == self.eof_error()),
    {
        if self.pos >= self.tokens.len() {
            return Err(ErrorContext::of(ParserError::EOFError, self.current_span()));
        }
        Ok(self.tokens[self.pos].token.duplicate())
    }

    /// Reads the next token.
    pub fn next(&mut self) -> (r: Result<Token, ErrorContext<ParserError>>)
        ensures
            final(self).stream() == old(self).stream(),
            final(self).error_list() == old(self).error_list(),
            old(self).position() < old(self).stream().len() ==> (r matches Ok(t) && t@ == old(self).stream()[old(self).position()].token
                && final(self).position() == old(self).position() + 1),
            old(self).position() >= old(self).stream().len() ==> (r matches Err(e) && parse_error_view(e) == old(self).eof_error()
                && final(self).position() == old(self).position()),
    {
        if self.pos >= self.tokens.len() {
            return Err(ErrorContext::of(ParserError::EOFError, self.current_span()));
        }
        let token = self.tokens[self.pos].token.duplicate();
        self.pos += 1;
        Ok(token)
    }

    /// Reads the next token with its span.
    fn next_spanned(&mut self) -> (r: Result<TokenInfo, ErrorContext<ParserError>>)
        ensures
            final(self).tokens == old(self).tokens,
            final(self).errors == old(self).errors,
            old(self).pos < old(self).tokens@.len() ==> (r matches Ok(t) && t@ == old(self).tokens@[old(self).pos as int]@
                && final(self).pos == old(self).pos + 1),
            old(self).pos >= old(self).tokens@.len() ==> (r matches Err(e) && parse_error_view(e) == old(self).eof_error()
                && final(self).pos == old(self).pos),
    {
        if self.pos >= self.tokens.len() {
            return Err(ErrorContext::of(ParserError::EOFError, self.current_span()));
        }
        let token = self.tokens[self.pos].duplicate();
        self.pos += 1;
        Ok(token)
    }

    /// Whether a token other than the end of file remains.
    pub fn has_next(&self) -> (b: bool)
        ensures
            b == (self.position() < self.stream().len() && self.stream()[self.position()].token
                != TokenModel::EOF),
    {
        if let Ok(token) = self.peek() {
            if token.is_eof() {
                return false;
            }
        }
        self.pos < self.tokens.len()
    }

    /// Whether the next token is the fixed token `expected`.
    pub fn is_next(&self, expected: SimpleToken) -> (r: Result<bool, ErrorContext<ParserError>>)
        ensures
            self.position() < self.stream().len() ==> r == Ok::<bool, ErrorContext<ParserError>>(
                self.stream()[self.position()].token == TokenModel::SimpleTokenType(expected),
            ),
            self.position() >= self.stream().len() ==> (r matches Err(e) && parse_error_view(e) == self.eof_error()),
    {
        let next = self.peek()?;
        if let Token::SimpleTokenType(v) = next {
            if v == expected {
                return Ok(true);
            }
        }
        Ok(false)
    }

    /// Reads the next token if it is the fixed token `expected`.
    pub fn consume_if_next(&mut self, expected: SimpleToken) -> (r: Result<bool, ErrorContext<ParserError>>)
        ensures
            final(self).stream() == old(self).stream(),
            final(self).error_list() == old(self).error_list(),
            ({
                let s = old(self).stream();
                let p = old(self).position();
                if p >= s.len() {
                    (r matches Err(e) && parse_error_view(e) == old(self).eof_error()) && final(self).position() == p
                } else if s[p].token == TokenModel::SimpleTokenType(expected) {
                    r == Ok::<bool, ErrorContext<ParserError>>(true) && final(self).position() == p + 1
                } else {
                    r == Ok::<bool, ErrorContext<ParserError>>(false) && final(self).position() == p
                }
            }),
    {
        if self.is_next(expected)? {
            self.next()?;
            return Ok(true);
        }
        Ok(false)
    }

    /// Reads the next token, which must be the fixed token `expected`.
    pub fn expect_next(&mut self, expected: SimpleToken) -> (r: Result<Token, ErrorContext<ParserError>>)
        ensures
            final(self).stream() == old(self).stream(),
            final(self).error_list() == old(self).error_list(),
            ({
                let s = old(self).stream();
                let p = old(self).position();
                if p >= s.len() {
                    (r matches Err(e) && parse_error_view(e) == old(self).eof_error()) && final(self).position() == p
                } else {
                    &&& final(self).position() == p + 1
                    &&& if s[p].token == TokenModel::SimpleTokenType(expected) {
                        r matches Ok(t) && t@ == s[p].token
                    } else {
                        r matches Err(e) && parse_error_view(e) == (
                            ParserErrorModel::UnexpectedToken {
                                expected: TokenModel::SimpleTokenType(expected),
                                actual: s[p].token,
                            },
                            SpanType::SEGMENT(s[p].span),
                        )
                    }
                }
            }),
    {
        let next = self.next_spanned()?;
        if let Token::SimpleTokenType(v) = next.token {
            if v == expected {
                return Ok(next.token);
            }
        }
        Err(ErrorContext::of(
            ParserError::UnexpectedToken { expected: Token::SimpleTokenType(expected), actual: next.token },
            next.span,
        ))
    }

    /// Reads the next token, which must be a fixed token.
    pub fn expect_next_simple(&mut self) -> (r: Result<SimpleToken, ErrorContext<ParserError>>)
        ensures
            final(self).stream() == old(self).stream(),
            final(self).error_list() == old(self).error_list(),
            ({
                let s = old(self).stream();
                let p = old(self).position();
                if p >= s.len() {
                    (r matches Err(e) && parse_error_view(e) == old(self).eof_error()) && final(self).position() == p
                } else {
                    &&& final(self).position() == p + 1
                    &&& match s[p].token {
                        TokenModel::SimpleTokenType(v) => r == Ok::<SimpleToken, ErrorContext<ParserError>>(v),
                        _ => r matches Err(e) && parse_error_view(e) == (
                            ParserErrorModel::MismatchedTokenType { expected: "SimpleToken"@, actual: s[p].token },
                            SpanType::SEGMENT(s[p].span),
                        ),
                    }
                }
            }),
    {
        let next = self.next_spanned()?;
        if let Token::SimpleTokenType(v) = next.token {
            return Ok(v);
        }
        Err(ErrorContext::of(
            ParserError::MismatchedTokenType { expected: to_owned_string("SimpleToken"), actual: next.token },
            next.span,
        ))
    }

    /// Reads the next token, which must be an identifier, and gives its name.
    pub fn expect_next_identifier(&mut self) -> (r: Result<String, ErrorContext<ParserError>>)
        ensures
            final(self).stream() == old(self).stream(),
            final(self).error_list() == old(self).error_list(),
            ({
                let s = old(self).stream();
                let p = old(self).position();
                if p >= s.len() {
                    (r matches Err(e) && parse_error_view(e) == old(self).eof_error()) && final(self).position() == p
                } else {
                    &&& final(self).position() == p + 1
                    &&& match s[p].token {
                        TokenModel::Identifier(v) => r matches Ok(n) && n@ == v,
                        _ => r matches Err(e) && parse_error_view(e) == (
                            ParserErrorModel::MismatchedTokenType { expected: "Identifier"@, actual: s[p].token },
                            SpanType::SEGMENT(s[p].span),
                        ),
                    }
                }
            }),
    {
        let next = self.next_spanned()?;
        if let Token::Identifier(v) = next.token {
            return Ok(v);
        }
        Err(ErrorContext::of(
            ParserError::MismatchedTokenType { expected: to_owned_string("Identifier"), actual: next.token },
            next.span,
        ))
    }

    /// Reads the next token, which must be an integer literal, and gives its value.
    pub fn expect_next_int(&mut self) -> (r: Result<i64, ErrorContext<ParserError>>)
        ensures
            final(self).stream() == old(self).stream(),
            final(self).error_list() == old(self).error_list(),
            ({
                let s = old(self).stream();
                let p = old(self).position();
                if p >= s.len() {
                    (r matches Err(e) && parse_error_view(e) == old(self).eof_error()) && final(self).position() == p
                } else {
                    &&& final(self).position() == p + 1
                    &&& match s[p].token {
                        TokenModel::NumberIntLiteral(v) => r == Ok::<i64, ErrorContext<ParserError>>(v),
                        _ => r matches Err(e) && parse_error_view(e) == (
                            ParserErrorModel::MismatchedTokenType { expected: "NumberIntLiteral"@, actual: s[p].token },
                            SpanType::SEGMENT(s[p].span),
                        ),
                    }
                }
            }),
    {
        let next = self.next_spanned()?;
        if let Token::NumberIntLiteral(v) = next.token {
            return Ok(v);
        }
        Err(ErrorContext::of(
            ParserError::MismatchedTokenType { expected: to_owned_string("NumberIntLiteral"), actual: next.token },
            next.span,
        ))
    }

    /// Reads the next token, which must be a line comment, and gives its text.
    pub fn expect_next_comment(&mut self) -> (r: Result<String, ErrorContext<ParserError>>)
        ensures
            final(self).stream() == old(self).stream(),
            final(self).error_list() == old(self).error_list(),
            ({
                let s = old(self).stream();
                let p = old(self).position();
                if p >= s.len() {
                    (r matches Err(e) && parse_error_view(e) == old(self).eof_error()) && final(self).position() == p
                } else {
                    &&& final(self).position() == p + 1
                    &&& match s[p].token {
                        TokenModel::Comment(v) => r matches Ok(n) && n@ == v,
                        _ => r matches Err(e) && parse_error_view(e) == (
                            ParserErrorModel::MismatchedTokenType { expected: "Comment"@, actual: s[p].token },
                            SpanType::SEGMENT(s[p].span),
                        ),
                    }
                }
            }),
    {
        let next = self.next_spanned()?;
        if let Token::Comment(v) = next.token {
            return Ok(v);
        }
        Err(ErrorContext::of(
            ParserError::MismatchedTokenType { expected: to_owned_string("Comment"), actual: next.token },
            next.span,
        ))
    }

    /// Reads the next token, which must be a block comment, and gives its text.
    pub fn expect_next_multiline_comment(&mut self) -> (r: Result<String, ErrorContext<ParserError>>)
        ensures
            final(self).stream() == old(self).stream(),
            final(self).error_list() == old(self).error_list(),
            ({
                let s = old(self).stream();
                let p = old(self).position();
                if p >= s.len() {
                    (r matches Err(e) && parse_error_view(e) == old(self).eof_error()) && final(self).position() == p
                } else {
                    &&& final(self).position() == p + 1
                    &&& match s[p].token {
                        TokenModel::MultilineComment(v) => r matches Ok(n) && n@ == v,
                        _ => r matches Err(e) && parse_error_view(e) == (
                            ParserErrorModel::MismatchedTokenType { expected: "MultilineComment"@, actual: s[p].token },
                            SpanType::SEGMENT(s[p].span),
                        ),
                    }
                }
            }),
    {
        let next = self.next_spanned()?;
        if let Token::MultilineComment(v) = next.token {
            return Ok(v);
        }
        Err(ErrorContext::of(
            ParserError::MismatchedTokenType { expected: to_owned_string("MultilineComment"), actual: next.token },
            next.span,
        ))
    }

    /// Skips tokens after a parse error until a place where parsing can resume:
    /// the end of file, a token that begins a statement (`statement_tokens`, the
    /// keys of the statement table) or one of `sync_tokens`, each left unread, or
    /// a semicolon, which is read. Returns `false` when the tokens run out first.
    pub fn synchronize_error(&mut self, statement_tokens: &[SimpleToken], sync_tokens: &[SimpleToken]) -> (found: bool)
        ensures
            final(self).stream() == old(self).stream(),
            final(self).error_list() == old(self).error_list(),
            (found, final(self).position()) == recovery_point(
                old(self).stream(),
                old(self).position(),
                statement_tokens@,
                sync_tokens@,
            ),
    {
        loop
            invariant
                self.stream() == old(self).stream(),
                self.error_list() == old(self).error_list(),
                0 <= self.position(),
                recovery_point(self.stream(), self.position(), statement_tokens@, sync_tokens@) == recovery_point(
                    old(self).stream(),
                    old(self).position(),
                    statement_tokens@,
                    sync_tokens@,
                ),
            decreases self.stream().len() - self.position(),
        {
            match self.peek() {
                Ok(v) => {
                    if v.is_eof() {
                        return true;
                    }
                    if let Token::SimpleTokenType(t) = v {
                        if token_listed(t, statement_tokens) || token_listed(t, sync_tokens) {
                            return true;
                        }
                        if t == SimpleToken::Semicolon {
                            if self.next().is_err() {
                                return false;
                            }
                            return true;
                        }
                    }
                },
                Err(_) => {
                    return false;
                },
            }
            if self.next().is_err() {
                return false;
            }
        }
    }
}

} // verus!
