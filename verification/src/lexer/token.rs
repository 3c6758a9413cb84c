use vstd::prelude::*;

verus! {

/// The fixed tokens of the language: keywords, punctuation and operators.
#[derive(Debug, PartialEq, Eq, Structural, Copy, Clone, Hash, PartialOrd, Ord)]
pub enum SimpleToken {
    Null,
    True,
    False,
    Const,
    Let,
    If,
    Else,
    While,
    For,
    Break,
    Continue,
    Pub,
    Priv,
    Fn,
    Init,
    Return,
    Struct,
    Enum,
    Semicolon,
    Colon,
    Dot,
    Comma,
    OpenBracket,
    CloseBracket,
    OpenCurly,
    CloseCurly,
    OpenSquare,
    CloseSquare,
    Plus,
    Dash,
    Star,
    Slash,
    Percent,
    Exclamation,
    Tilde,
    Ampersand,
    VerticalBar,
    BitXor,
    Arrow,
    Question,
    TwoExcl,
    TwoQuestion,
    QuestionDot,
    PlusPlus,
    MinusMinus,
    RightRight,
    LeftLeft,
    BoolAnd,
    BoolOr,
    Assign,
    PlusAssign,
    DashAssign,
    StarAssign,
    SlashAssign,
    PercentAssign,
    RightRightAssign,
    LeftLeftAssign,
    VertBarAssign,
    AmpersandAssign,
    BitXorAssign,
    Equals,
    NotEquals,
    Less,
    LessEquals,
    Greater,
    GreaterEquals,
}

/// The text of a fixed token.
pub open spec fn token_text(t: SimpleToken) -> Seq<char> {
    match t {
        SimpleToken::Null => seq!['n', 'u', 'l', 'l'],
        SimpleToken::True => seq!['t', 'r', 'u', 'e'],
        SimpleToken::False => seq!['f', 'a', 'l', 's', 'e'],
        SimpleToken::Const => seq!['c', 'o', 'n', 's', 't'],
        SimpleToken::Let => seq!['l', 'e', 't'],
        SimpleToken::If => seq!['i', 'f'],
        SimpleToken::Else => seq!['e', 'l', 's', 'e'],
        SimpleToken::While => seq!['w', 'h', 'i', 'l', 'e'],
        SimpleToken::For => seq!['f', 'o', 'r'],
        SimpleToken::Break => seq!['b', 'r', 'e', 'a', 'k'],
        SimpleToken::Continue => seq!['c', 'o', 'n', 't', 'i', 'n', 'u', 'e'],
        SimpleToken::Pub => seq!['p', 'u', 'b'],
        SimpleToken::Priv => seq!['p', 'r', 'i', 'v'],
        SimpleToken::Fn => seq!['f', 'n'],
        SimpleToken::Init => seq!['i', 'n', 'i', 't'],
        SimpleToken::Return => seq!['r', 'e', 't', 'u', 'r', 'n'],
        SimpleToken::Struct => seq!['s', 't', 'r', 'u', 'c', 't'],
        SimpleToken::Enum => seq!['e', 'n', 'u', 'm'],
        SimpleToken::Semicolon => seq![';'],
        SimpleToken::Colon => seq![':'],
        SimpleToken::Dot => seq!['.'],
        SimpleToken::Comma => seq![','],
        SimpleToken::OpenBracket => seq!['('],
        SimpleToken::CloseBracket => seq![')'],
        SimpleToken::OpenCurly => seq!['{'],
        SimpleToken::CloseCurly => seq!['}'],
        SimpleToken::OpenSquare => seq!['['],
        SimpleToken::CloseSquare => seq![']'],
        SimpleToken::Plus => seq!['+'],
        SimpleToken::Dash => seq!['-'],
        SimpleToken::Star => seq!['*'],
        SimpleToken::Slash => seq!['/'],
        SimpleToken::Percent => seq!['%'],
        SimpleToken::Exclamation => seq!['!'],
        SimpleToken::Tilde => seq!['~'],
        SimpleToken::Ampersand => seq!['&'],
        SimpleToken::VerticalBar => seq!['|'],
        SimpleToken::BitXor => seq!['^'],
        SimpleToken::Arrow => seq!['-', '>'],
        SimpleToken::Question => seq!['?'],
        SimpleToken::TwoExcl => seq!['!', '!'],
        SimpleToken::TwoQuestion => seq!['?', '?'],
        SimpleToken::QuestionDot => seq!['?', '.'],
        SimpleToken::PlusPlus => seq!['+', '+'],
        SimpleToken::MinusMinus => seq!['-', '-'],
        SimpleToken::RightRight => seq!['>', '>'],
        SimpleToken::LeftLeft => seq!['<', '<'],
        SimpleToken::BoolAnd => seq!['&', '&'],
        SimpleToken::BoolOr => seq!['|', '|'],
        SimpleToken::Assign => seq!['='],
        SimpleToken::PlusAssign => seq!['+', '='],
        SimpleToken::DashAssign => seq!['-', '='],
        SimpleToken::StarAssign => seq!['*', '='],
        SimpleToken::SlashAssign => seq!['/', '='],
        SimpleToken::PercentAssign => seq!['%', '='],
        SimpleToken::RightRightAssign => seq!['>', '>', '='],
        SimpleToken::LeftLeftAssign => seq!['<', '<', '='],
        SimpleToken::VertBarAssign => seq!['|', '='],
        SimpleToken::AmpersandAssign => seq!['&', '='],
        SimpleToken::BitXorAssign => seq!['^', '='],
        SimpleToken::Equals => seq!['=', '='],
        SimpleToken::NotEquals => seq!['!', '='],
        SimpleToken::Less => seq!['<'],
        SimpleToken::LessEquals => seq!['<', '='],
        SimpleToken::Greater => seq!['>'],
        SimpleToken::GreaterEquals => seq!['>', '='],
    }
}

/// The fixed token whose text is `s`, if any.
pub open spec fn text_token(s: Seq<char>) -> Option<SimpleToken> {
    if s.len() == 4 && s[0] == 'n' && s[1] == 'u' && s[2] == 'l' && s[3] == 'l' {
        Some(SimpleToken::Null)
    } else if s.len() == 4 && s[0] == 't' && s[1] == 'r' && s[2] == 'u' && s[3] == 'e' {
        Some(SimpleToken::True)
    } else if s.len() == 5 && s[0] == 'f' && s[1] == 'a' && s[2] == 'l' && s[3] == 's' && s[4] == 'e' {
        Some(SimpleToken::False)
    } else if s.len() == 5 && s[0] == 'c' && s[1] == 'o' && s[2] == 'n' && s[3] == 's' && s[4] == 't' {
        Some(SimpleToken::Const)
    } else if s.len() == 3 && s[0] == 'l' && s[1] == 'e' && s[2] == 't' {
        Some(SimpleToken::Let)
    } else if s.len() == 2 && s[0] == 'i' && s[1] == 'f' {
        Some(SimpleToken::If)
    } else if s.len() == 4 && s[0] == 'e' && s[1] == 'l' && s[2] == 's' && s[3] == 'e' {
        Some(SimpleToken::Else)
    } else if s.len() == 5 && s[0] == 'w' && s[1] == 'h' && s[2] == 'i' && s[3] == 'l' && s[4] == 'e' {
        Some(SimpleToken::While)
    } else if s.len() == 3 && s[0] == 'f' && s[1] == 'o' && s[2] == 'r' {
        Some(SimpleToken::For)
    } else if s.len() == 5 && s[0] == 'b' && s[1] == 'r' && s[2] == 'e' && s[3] == 'a' && s[4] == 'k' {
        Some(SimpleToken::Break)
    } else if s.len() == 8 && s[0] == 'c' && s[1] == 'o' && s[2] == 'n' && s[3] == 't' && s[4] == 'i' && s[5] == 'n' && s[6] == 'u' && s[7] == 'e' {
        Some(SimpleToken::Continue)
    } else if s.len() == 3 && s[0] == 'p' && s[1] == 'u' && s[2] == 'b' {
        Some(SimpleToken::Pub)
    } else if s.len() == 4 && s[0] == 'p' && s[1] == 'r' && s[2] == 'i' && s[3] == 'v' {
        Some(SimpleToken::Priv)
    } else if s.len() == 2 && s[0] == 'f' && s[1] == 'n' {
        Some(SimpleToken::Fn)
    } else if s.len() == 4 && s[0] == 'i' && s[1] == 'n' && s[2] == 'i' && s[3] == 't' {
        Some(SimpleToken::Init)
    } else if s.len() == 6 && s[0] == 'r' && s[1] == 'e' && s[2] == 't' && s[3] == 'u' && s[4] == 'r' && s[5] == 'n' {
        Some(SimpleToken::Return)
    } else if s.len() == 6 && s[0] == 's' && s[1] == 't' && s[2] == 'r' && s[3] == 'u' && s[4] == 'c' && s[5] == 't' {
        Some(SimpleToken::Struct)
    } else if s.len() == 4 && s[0] == 'e' && s[1] == 'n' && s[2] == 'u' && s[3] == 'm' {
        Some(SimpleToken::Enum)
    } else if s.len() == 1 && s[0] == ';' {
        Some(SimpleToken::Semicolon)
    } else if s.len() == 1 && s[0] == ':' {
        Some(SimpleToken::Colon)
    } else if s.len() == 1 && s[0] == '.' {
        Some(SimpleToken::Dot)
    } else if s.len() == 1 && s[0] == ',' {
        Some(SimpleToken::Comma)
    } else if s.len() == 1 && s[0] == '(' {
        Some(SimpleToken::OpenBracket)
    } else if s.len() == 1 && s[0] == ')' {
        Some(SimpleToken::CloseBracket)
    } else if s.len() == 1 && s[0] == '{' {
        Some(SimpleToken::OpenCurly)
    } else if s.len() == 1 && s[0] == '}' {
        Some(SimpleToken::CloseCurly)
    } else if s.len() == 1 && s[0] == '[' {
        Some(SimpleToken::OpenSquare)
    } else if s.len() == 1 && s[0] == ']' {
        Some(SimpleToken::CloseSquare)
    } else if s.len() == 1 && s[0] == '+' {
        Some(SimpleToken::Plus)
    } else if s.len() == 1 && s[0] == '-' {
        Some(SimpleToken::Dash)
    } else if s.len() == 1 && s[0] == '*' {
        Some(SimpleToken::Star)
    } else if s.len() == 1 && s[0] == '/' {
        Some(SimpleToken::Slash)
    } else if s.len() == 1 && s[0] == '%' {
        Some(SimpleToken::Percent)
    } else if s.len() == 1 && s[0] == '!' {
        Some(SimpleToken::Exclamation)
    } else if s.len() == 1 && s[0] == '~' {
        Some(SimpleToken::Tilde)
    } else if s.len() == 1 && s[0] == '&' {
        Some(SimpleToken::Ampersand)
    } else if s.len() == 1 && s[0] == '|' {
        Some(SimpleToken::VerticalBar)
    } else if s.len() == 1 && s[0] == '^' {
        Some(SimpleToken::BitXor)
    } else if s.len() == 2 && s[0] == '-' && s[1] == '>' {
        Some(SimpleToken::Arrow)
    } else if s.len() == 1 && s[0] == '?' {
        Some(SimpleToken::Question)
    } else if s.len() == 2 && s[0] == '!' && s[1] == '!' {
        Some(SimpleToken::TwoExcl)
    } else if s.len() == 2 && s[0] == '?' && s[1] == '?' {
        Some(SimpleToken::TwoQuestion)
    } else if s.len() == 2 && s[0] == '?' && s[1] == '.' {
        Some(SimpleToken::QuestionDot)
    } else if s.len() == 2 && s[0] == '+' && s[1] == '+' {
        Some(SimpleToken::PlusPlus)
    } else if s.len() == 2 && s[0] == '-' && s[1] == '-' {
        Some(SimpleToken::MinusMinus)
    } else if s.len() == 2 && s[0] == '>' && s[1] == '>' {
        Some(SimpleToken::RightRight)
    } else if s.len() == 2 && s[0] == '<' && s[1] == '<' {
        Some(SimpleToken::LeftLeft)
    } else if s.len() == 2 && s[0] == '&' && s[1] == '&' {
        Some(SimpleToken::BoolAnd)
    } else if s.len() == 2 && s[0] == '|' && s[1] == '|' {
        Some(SimpleToken::BoolOr)
    } else if s.len() == 1 && s[0] == '=' {
        Some(SimpleToken::Assign)
    } else if s.len() == 2 && s[0] == '+' && s[1] == '=' {
        Some(SimpleToken::PlusAssign)
    } else if s.len() == 2 && s[0] == '-' && s[1] == '=' {
        Some(SimpleToken::DashAssign)
    } else if s.len() == 2 && s[0] == '*' && s[1] == '=' {
        Some(SimpleToken::StarAssign)
    } else if s.len() == 2 && s[0] == '/' && s[1] == '=' {
        Some(SimpleToken::SlashAssign)
    } else if s.len() == 2 && s[0] == '%' && s[1] == '=' {
        Some(SimpleToken::PercentAssign)
    } else if s.len() == 3 && s[0] == '>' && s[1] == '>' && s[2] == '=' {
        Some(SimpleToken::RightRightAssign)
    } else if s.len() == 3 && s[0] == '<' && s[1] == '<' && s[2] == '=' {
        Some(SimpleToken::LeftLeftAssign)
    } else if s.len() == 2 && s[0] == '|' && s[1] == '=' {
        Some(SimpleToken::VertBarAssign)
    } else if s.len() == 2 && s[0] == '&' && s[1] == '=' {
        Some(SimpleToken::AmpersandAssign)
    } else if s.len() == 2 && s[0] == '^' && s[1] == '=' {
        Some(SimpleToken::BitXorAssign)
    } else if s.len() == 2 && s[0] == '=' && s[1] == '=' {
        Some(SimpleToken::Equals)
    } else if s.len() == 2 && s[0] == '!' && s[1] == '=' {
        Some(SimpleToken::NotEquals)
    } else if s.len() == 1 && s[0] == '<' {
        Some(SimpleToken::Less)
    } else if s.len() == 2 && s[0] == '<' && s[1] == '=' {
        Some(SimpleToken::LessEquals)
    } else if s.len() == 1 && s[0] == '>' {
        Some(SimpleToken::Greater)
    } else if s.len() == 2 && s[0] == '>' && s[1] == '=' {
        Some(SimpleToken::GreaterEquals)
    } else {
        None
    }
}

/// No two fixed tokens have the same text, so the longest match of a text names
/// one token.
pub proof fn lemma_token_text_injective(a: SimpleToken, b: SimpleToken)
    ensures
        token_text(a) == token_text(b) ==> a == b,
{
    lemma_text_token(a);
    lemma_text_token(b);
}

proof fn lemma_text_token(t: SimpleToken)
    ensures
        text_token(token_text(t)) == Some(t),
{
    match t {
        SimpleToken::CloseSquare => assert(text_token(token_text(SimpleToken::CloseSquare)) == Some(SimpleToken::CloseSquare)),
        SimpleToken::Null => assert(text_token(token_text(SimpleToken::Null)) == Some(SimpleToken::Null)),
        SimpleToken::True => assert(text_token(token_text(SimpleToken::True)) == Some(SimpleToken::True)),
        SimpleToken::False => assert(text_token(token_text(SimpleToken::False)) == Some(SimpleToken::False)),
        SimpleToken::Const => assert(text_token(token_text(SimpleToken::Const)) == Some(SimpleToken::Const)),
        SimpleToken::Let => assert(text_token(token_text(SimpleToken::Let)) == Some(SimpleToken::Let)),
        SimpleToken::If => assert(text_token(token_text(SimpleToken::If)) == Some(SimpleToken::If)),
        SimpleToken::Else => assert(text_token(token_text(SimpleToken::Else)) == Some(SimpleToken::Else)),
        SimpleToken::While => assert(text_token(token_text(SimpleToken::While)) == Some(SimpleToken::While)),
        SimpleToken::For => assert(text_token(token_text(SimpleToken::For)) == Some(SimpleToken::For)),
        SimpleToken::Break => assert(text_token(token_text(SimpleToken::Break)) == Some(SimpleToken::Break)),
        SimpleToken::Continue => assert(text_token(token_text(SimpleToken::Continue)) == Some(SimpleToken::Continue)),
        SimpleToken::Pub => assert(text_token(token_text(SimpleToken::Pub)) == Some(SimpleToken::Pub)),
        SimpleToken::Priv => assert(text_token(token_text(SimpleToken::Priv)) == Some(SimpleToken::Priv)),
        SimpleToken::Fn => assert(text_token(token_text(SimpleToken::Fn)) == Some(SimpleToken::Fn)),
        SimpleToken::Init => assert(text_token(token_text(SimpleToken::Init)) == Some(SimpleToken::Init)),
        SimpleToken::Return => assert(text_token(token_text(SimpleToken::Return)) == Some(SimpleToken::Return)),
        SimpleToken::Struct => assert(text_token(token_text(SimpleToken::Struct)) == Some(SimpleToken::Struct)),
        SimpleToken::Enum => assert(text_token(token_text(SimpleToken::Enum)) == Some(SimpleToken::Enum)),
        SimpleToken::Semicolon => assert(text_token(token_text(SimpleToken::Semicolon)) == Some(SimpleToken::Semicolon)),
        SimpleToken::Colon => assert(text_token(token_text(SimpleToken::Colon)) == Some(SimpleToken::Colon)),
        SimpleToken::Dot => assert(text_token(token_text(SimpleToken::Dot)) == Some(SimpleToken::Dot)),
        SimpleToken::Comma => assert(text_token(token_text(SimpleToken::Comma)) == Some(SimpleToken::Comma)),
        SimpleToken::OpenBracket => assert(text_token(token_text(SimpleToken::OpenBracket)) == Some(SimpleToken::OpenBracket)),
        SimpleToken::CloseBracket => assert(text_token(token_text(SimpleToken::CloseBracket)) == Some(SimpleToken::CloseBracket)),
        SimpleToken::OpenCurly => assert(text_token(token_text(SimpleToken::OpenCurly)) == Some(SimpleToken::OpenCurly)),
        SimpleToken::CloseCurly => assert(text_token(token_text(SimpleToken::CloseCurly)) == Some(SimpleToken::CloseCurly)),
        SimpleToken::OpenSquare => assert(text_token(token_text(SimpleToken::OpenSquare)) == Some(SimpleToken::OpenSquare)),
        SimpleToken::Plus => assert(text_token(token_text(SimpleToken::Plus)) == Some(SimpleToken::Plus)),
        SimpleToken::Dash => assert(text_token(token_text(SimpleToken::Dash)) == Some(SimpleToken::Dash)),
        SimpleToken::Star => assert(text_token(token_text(SimpleToken::Star)) == Some(SimpleToken::Star)),
        SimpleToken::Slash => assert(text_token(token_text(SimpleToken::Slash)) == Some(SimpleToken::Slash)),
        SimpleToken::Percent => assert(text_token(token_text(SimpleToken::Percent)) == Some(SimpleToken::Percent)),
        SimpleToken::Exclamation => assert(text_token(token_text(SimpleToken::Exclamation)) == Some(SimpleToken::Exclamation)),
        SimpleToken::Tilde => assert(text_token(token_text(SimpleToken::Tilde)) == Some(SimpleToken::Tilde)),
        SimpleToken::Ampersand => assert(text_token(token_text(SimpleToken::Ampersand)) == Some(SimpleToken::Ampersand)),
        SimpleToken::VerticalBar => assert(text_token(token_text(SimpleToken::VerticalBar)) == Some(SimpleToken::VerticalBar)),
        SimpleToken::BitXor => assert(text_token(token_text(SimpleToken::BitXor)) == Some(SimpleToken::BitXor)),
        SimpleToken::Arrow => assert(text_token(token_text(SimpleToken::Arrow)) == Some(SimpleToken::Arrow)),
        SimpleToken::Question => assert(text_token(token_text(SimpleToken::Question)) == Some(SimpleToken::Question)),
        SimpleToken::TwoExcl => assert(text_token(token_text(SimpleToken::TwoExcl)) == Some(SimpleToken::TwoExcl)),
        SimpleToken::TwoQuestion => assert(text_token(token_text(SimpleToken::TwoQuestion)) == Some(SimpleToken::TwoQuestion)),
        SimpleToken::QuestionDot => assert(text_token(token_text(SimpleToken::QuestionDot)) == Some(SimpleToken::QuestionDot)),
        SimpleToken::PlusPlus => assert(text_token(token_text(SimpleToken::PlusPlus)) == Some(SimpleToken::PlusPlus)),
        SimpleToken::MinusMinus => assert(text_token(token_text(SimpleToken::MinusMinus)) == Some(SimpleToken::MinusMinus)),
        SimpleToken::RightRight => assert(text_token(token_text(SimpleToken::RightRight)) == Some(SimpleToken::RightRight)),
        SimpleToken::LeftLeft => assert(text_token(token_text(SimpleToken::LeftLeft)) == Some(SimpleToken::LeftLeft)),
        SimpleToken::BoolAnd => assert(text_token(token_text(SimpleToken::BoolAnd)) == Some(SimpleToken::BoolAnd)),
        SimpleToken::BoolOr => assert(text_token(token_text(SimpleToken::BoolOr)) == Some(SimpleToken::BoolOr)),
        SimpleToken::Assign => assert(text_token(token_text(SimpleToken::Assign)) == Some(SimpleToken::Assign)),
        SimpleToken::PlusAssign => assert(text_token(token_text(SimpleToken::PlusAssign)) == Some(SimpleToken::PlusAssign)),
        SimpleToken::DashAssign => assert(text_token(token_text(SimpleToken::DashAssign)) == Some(SimpleToken::DashAssign)),
        SimpleToken::StarAssign => assert(text_token(token_text(SimpleToken::StarAssign)) == Some(SimpleToken::StarAssign)),
        SimpleToken::SlashAssign => assert(text_token(token_text(SimpleToken::SlashAssign)) == Some(SimpleToken::SlashAssign)),
        SimpleToken::PercentAssign => assert(text_token(token_text(SimpleToken::PercentAssign)) == Some(SimpleToken::PercentAssign)),
        SimpleToken::RightRightAssign => assert(text_token(token_text(SimpleToken::RightRightAssign)) == Some(SimpleToken::RightRightAssign)),
        SimpleToken::LeftLeftAssign => assert(text_token(token_text(SimpleToken::LeftLeftAssign)) == Some(SimpleToken::LeftLeftAssign)),
        SimpleToken::VertBarAssign => assert(text_token(token_text(SimpleToken::VertBarAssign)) == Some(SimpleToken::VertBarAssign)),
        SimpleToken::AmpersandAssign => assert(text_token(token_text(SimpleToken::AmpersandAssign)) == Some(SimpleToken::AmpersandAssign)),
        SimpleToken::BitXorAssign => assert(text_token(token_text(SimpleToken::BitXorAssign)) == Some(SimpleToken::BitXorAssign)),
        SimpleToken::Equals => assert(text_token(token_text(SimpleToken::Equals)) == Some(SimpleToken::Equals)),
        SimpleToken::NotEquals => assert(text_token(token_text(SimpleToken::NotEquals)) == Some(SimpleToken::NotEquals)),
        SimpleToken::Less => assert(text_token(token_text(SimpleToken::Less)) == Some(SimpleToken::Less)),
        SimpleToken::LessEquals => assert(text_token(token_text(SimpleToken::LessEquals)) == Some(SimpleToken::LessEquals)),
        SimpleToken::Greater => assert(text_token(token_text(SimpleToken::Greater)) == Some(SimpleToken::Greater)),
        SimpleToken::GreaterEquals => assert(text_token(token_text(SimpleToken::GreaterEquals)) == Some(SimpleToken::GreaterEquals)),
    }
}


/// Every fixed token, in the order of their declaration.
pub open spec fn all_simple_tokens() -> Seq<SimpleToken> {
    seq![
        SimpleToken::Null,
        SimpleToken::True,
        SimpleToken::False,
        SimpleToken::Const,
        SimpleToken::Let,
        SimpleToken::If,
        SimpleToken::Else,
        SimpleToken::While,
        SimpleToken::For,
        SimpleToken::Break,
        SimpleToken::Continue,
        SimpleToken::Pub,
        SimpleToken::Priv,
        SimpleToken::Fn,
        SimpleToken::Init,
        SimpleToken::Return,
        SimpleToken::Struct,
        SimpleToken::Enum,
        SimpleToken::Semicolon,
        SimpleToken::Colon,
        SimpleToken::Dot,
        SimpleToken::Comma,
        SimpleToken::OpenBracket,
        SimpleToken::CloseBracket,
        SimpleToken::OpenCurly,
        SimpleToken::CloseCurly,
        SimpleToken::OpenSquare,
        SimpleToken::CloseSquare,
        SimpleToken::Plus,
        SimpleToken::Dash,
        SimpleToken::Star,
        SimpleToken::Slash,
        SimpleToken::Percent,
        SimpleToken::Exclamation,
        SimpleToken::Tilde,
        SimpleToken::Ampersand,
        SimpleToken::VerticalBar,
        SimpleToken::BitXor,
        SimpleToken::Arrow,
        SimpleToken::Question,
        SimpleToken::TwoExcl,
        SimpleToken::TwoQuestion,
        SimpleToken::QuestionDot,
        SimpleToken::PlusPlus,
        SimpleToken::MinusMinus,
        SimpleToken::RightRight,
        SimpleToken::LeftLeft,
        SimpleToken::BoolAnd,
        SimpleToken::BoolOr,
        SimpleToken::Assign,
        SimpleToken::PlusAssign,
        SimpleToken::DashAssign,
        SimpleToken::StarAssign,
        SimpleToken::SlashAssign,
        SimpleToken::PercentAssign,
        SimpleToken::RightRightAssign,
        SimpleToken::LeftLeftAssign,
        SimpleToken::VertBarAssign,
        SimpleToken::AmpersandAssign,
        SimpleToken::BitXorAssign,
        SimpleToken::Equals,
        SimpleToken::NotEquals,
        SimpleToken::Less,
        SimpleToken::LessEquals,
        SimpleToken::Greater,
        SimpleToken::GreaterEquals
    ]
}

impl SimpleToken {
    /// The text by which this token is written.
    pub fn string_representation(&self) -> (r: &'static str)
        ensures
            r@ == token_text(*self),
    {
        match self {
            SimpleToken::Null => {
                proof {
                    reveal_strlit("null");
                }
                "null"
            },
            SimpleToken::True => {
                proof {
                    reveal_strlit("true");
                }
                "true"
            },
            SimpleToken::False => {
                proof {
                    reveal_strlit("false");
                }
                "false"
            },
            SimpleToken::Const => {
                proof {
                    reveal_strlit("const");
                }
                "const"
            },
            SimpleToken::Let => {
                proof {
                    reveal_strlit("let");
                }
                "let"
            },
            SimpleToken::If => {
                proof {
                    reveal_strlit("if");
                }
                "if"
            },
            SimpleToken::Else => {
                proof {
                    reveal_strlit("else");
                }
                "else"
            },
            SimpleToken::While => {
                proof {
                    reveal_strlit("while");
                }
                "while"
            },
            SimpleToken::For => {
                proof {
                    reveal_strlit("for");
                }
                "for"
            },
            SimpleToken::Break => {
                proof {
                    reveal_strlit("break");
                }
                "break"
            },
            SimpleToken::Continue => {
                proof {
                    reveal_strlit("continue");
                }
                "continue"
            },
            SimpleToken::Pub => {
                proof {
                    reveal_strlit("pub");
                }
                "pub"
            },
            SimpleToken::Priv => {
                proof {
                    reveal_strlit("priv");
                }
                "priv"
            },
            SimpleToken::Fn => {
                proof {
                    reveal_strlit("fn");
                }
                "fn"
            },
            SimpleToken::Init => {
                proof {
                    reveal_strlit("init");
                }
                "init"
            },
            SimpleToken::Return => {
                proof {
                    reveal_strlit("return");
                }
                "return"
            },
            SimpleToken::Struct => {
                proof {
                    reveal_strlit("struct");
                }
                "struct"
            },
            SimpleToken::Enum => {
                proof {
                    reveal_strlit("enum");
                }
                "enum"
            },
            SimpleToken::Semicolon => {
                proof {
                    reveal_strlit(";");
                }
                ";"
            },
            SimpleToken::Colon => {
                proof {
                    reveal_strlit(":");
                }
                ":"
            },
            SimpleToken::Dot => {
                proof {
                    reveal_strlit(".");
                }
                "."
            },
            SimpleToken::Comma => {
                proof {
                    reveal_strlit(",");
                }
                ","
            },
            SimpleToken::OpenBracket => {
                proof {
                    reveal_strlit("(");
                }
                "("
            },
            SimpleToken::CloseBracket => {
                proof {
                    reveal_strlit(")");
                }
                ")"
            },
            SimpleToken::OpenCurly => {
                proof {
                    reveal_strlit("{");
                }
                "{"
            },
            SimpleToken::CloseCurly => {
                proof {
                    reveal_strlit("}");
                }
                "}"
            },
            SimpleToken::OpenSquare => {
                proof {
                    reveal_strlit("[");
                }
                "["
            },
            SimpleToken::CloseSquare => {
                proof {
                    reveal_strlit("]");
                }
                "]"
            },
            SimpleToken::Plus => {
                proof {
                    reveal_strlit("+");
                }
                "+"
            },
            SimpleToken::Dash => {
                proof {
                    reveal_strlit("-");
                }
                "-"
            },
            SimpleToken::Star => {
                proof {
                    reveal_strlit("*");
                }
                "*"
            },
            SimpleToken::Slash => {
                proof {
                    reveal_strlit("/");
                }
                "/"
            },
            SimpleToken::Percent => {
                proof {
                    reveal_strlit("%");
                }
                "%"
            },
            SimpleToken::Exclamation => {
                proof {
                    reveal_strlit("!");
                }
                "!"
            },
            SimpleToken::Tilde => {
                proof {
                    reveal_strlit("~");
                }
                "~"
            },
            SimpleToken::Ampersand => {
                proof {
                    reveal_strlit("&");
                }
                "&"
            },
            SimpleToken::VerticalBar => {
                proof {
                    reveal_strlit("|");
                }
                "|"
            },
            SimpleToken::BitXor => {
                proof {
                    reveal_strlit("^");
                }
                "^"
            },
            SimpleToken::Arrow => {
                proof {
                    reveal_strlit("->");
                }
                "->"
            },
            SimpleToken::Question => {
                proof {
                    reveal_strlit("?");
                }
                "?"
            },
            SimpleToken::TwoExcl => {
                proof {
                    reveal_strlit("!!");
                }
                "!!"
            },
            SimpleToken::TwoQuestion => {
                proof {
                    reveal_strlit("??");
                }
                "??"
            },
            SimpleToken::QuestionDot => {
                proof {
                    reveal_strlit("?.");
                }
                "?."
            },
            SimpleToken::PlusPlus => {
                proof {
                    reveal_strlit("++");
                }
                "++"
            },
            SimpleToken::MinusMinus => {
                proof {
                    reveal_strlit("--");
                }
                "--"
            },
            SimpleToken::RightRight => {
                proof {
                    reveal_strlit(">>");
                }
                ">>"
            },
            SimpleToken::LeftLeft => {
                proof {
                    reveal_strlit("<<");
                }
                "<<"
            },
            SimpleToken::BoolAnd => {
                proof {
                    reveal_strlit("&&");
                }
                "&&"
            },
            SimpleToken::BoolOr => {
                proof {
                    reveal_strlit("||");
                }
                "||"
            },
            SimpleToken::Assign => {
                proof {
                    reveal_strlit("=");
                }
                "="
            },
            SimpleToken::PlusAssign => {
                proof {
                    reveal_strlit("+=");
                }
                "+="
            },
            SimpleToken::DashAssign => {
                proof {
                    reveal_strlit("-=");
                }
                "-="
            },
            SimpleToken::StarAssign => {
                proof {
                    reveal_strlit("*=");
                }
                "*="
            },
            SimpleToken::SlashAssign => {
                proof {
                    reveal_strlit("/=");
                }
                "/="
            },
            SimpleToken::PercentAssign => {
                proof {
                    reveal_strlit("%=");
                }
                "%="
            },
            SimpleToken::RightRightAssign => {
                proof {
                    reveal_strlit(">>=");
                }
                ">>="
            },
            SimpleToken::LeftLeftAssign => {
                proof {
                    reveal_strlit("<<=");
                }
                "<<="
            },
            SimpleToken::VertBarAssign => {
                proof {
                    reveal_strlit("|=");
                }
                "|="
            },
            SimpleToken::AmpersandAssign => {
                proof {
                    reveal_strlit("&=");
                }
                "&="
            },
            SimpleToken::BitXorAssign => {
                proof {
                    reveal_strlit("^=");
                }
                "^="
            },
            SimpleToken::Equals => {
                proof {
                    reveal_strlit("==");
                }
                "=="
            },
            SimpleToken::NotEquals => {
                proof {
                    reveal_strlit("!=");
                }
                "!="
            },
            SimpleToken::Less => {
                proof {
                    reveal_strlit("<");
                }
                "<"
            },
            SimpleToken::LessEquals => {
                proof {
                    reveal_strlit("<=");
                }
                "<="
            },
            SimpleToken::Greater => {
                proof {
                    reveal_strlit(">");
                }
                ">"
            },
            SimpleToken::GreaterEquals => {
                proof {
                    reveal_strlit(">=");
                }
                ">="
            },
        }
    }

    /// Every fixed token, in the order of their declaration.
    pub fn all() -> (v: Vec<SimpleToken>)
        ensures
            v@ == all_simple_tokens(),
    {
        vec![
            SimpleToken::Null,
            SimpleToken::True,
            SimpleToken::False,
            SimpleToken::Const,
            SimpleToken::Let,
            SimpleToken::If,
            SimpleToken::Else,
            SimpleToken::While,
            SimpleToken::For,
            SimpleToken::Break,
            SimpleToken::Continue,
            SimpleToken::Pub,
            SimpleToken::Priv,
            SimpleToken::Fn,
            SimpleToken::Init,
            SimpleToken::Return,
            SimpleToken::Struct,
            SimpleToken::Enum,
            SimpleToken::Semicolon,
            SimpleToken::Colon,
            SimpleToken::Dot,
            SimpleToken::Comma,
            SimpleToken::OpenBracket,
            SimpleToken::CloseBracket,
            SimpleToken::OpenCurly,
            SimpleToken::CloseCurly,
            SimpleToken::OpenSquare,
            SimpleToken::CloseSquare,
            SimpleToken::Plus,
            SimpleToken::Dash,
            SimpleToken::Star,
            SimpleToken::Slash,
            SimpleToken::Percent,
            SimpleToken::Exclamation,
            SimpleToken::Tilde,
            SimpleToken::Ampersand,
            SimpleToken::VerticalBar,
            SimpleToken::BitXor,
            SimpleToken::Arrow,
            SimpleToken::Question,
            SimpleToken::TwoExcl,
            SimpleToken::TwoQuestion,
            SimpleToken::QuestionDot,
            SimpleToken::PlusPlus,
            SimpleToken::MinusMinus,
            SimpleToken::RightRight,
            SimpleToken::LeftLeft,
            SimpleToken::BoolAnd,
            SimpleToken::BoolOr,
            SimpleToken::Assign,
            SimpleToken::PlusAssign,
            SimpleToken::DashAssign,
            SimpleToken::StarAssign,
            SimpleToken::SlashAssign,
            SimpleToken::PercentAssign,
            SimpleToken::RightRightAssign,
            SimpleToken::LeftLeftAssign,
            SimpleToken::VertBarAssign,
            SimpleToken::AmpersandAssign,
            SimpleToken::BitXorAssign,
            SimpleToken::Equals,
            SimpleToken::NotEquals,
            SimpleToken::Less,
            SimpleToken::LessEquals,
            SimpleToken::Greater,
            SimpleToken::GreaterEquals
        ]
    }
}

/// Every fixed token occurs in `all_simple_tokens()`.
pub proof fn lemma_all_simple_tokens(t: SimpleToken)
    ensures
        all_simple_tokens().contains(t),
{
    match t {
        SimpleToken::Null => assert(all_simple_tokens()[0] == t),
        SimpleToken::True => assert(all_simple_tokens()[1] == t),
        SimpleToken::False => assert(all_simple_tokens()[2] == t),
        SimpleToken::Const => assert(all_simple_tokens()[3] == t),
        SimpleToken::Let => assert(all_simple_tokens()[4] == t),
        SimpleToken::If => assert(all_simple_tokens()[5] == t),
        SimpleToken::Else => assert(all_simple_tokens()[6] == t),
        SimpleToken::While => assert(all_simple_tokens()[7] == t),
        SimpleToken::For => assert(all_simple_tokens()[8] == t),
        SimpleToken::Break => assert(all_simple_tokens()[9] == t),
        SimpleToken::Continue => assert(all_simple_tokens()[10] == t),
        SimpleToken::Pub => assert(all_simple_tokens()[11] == t),
        SimpleToken::Priv => assert(all_simple_tokens()[12] == t),
        SimpleToken::Fn => assert(all_simple_tokens()[13] == t),
        SimpleToken::Init => assert(all_simple_tokens()[14] == t),
        SimpleToken::Return => assert(all_simple_tokens()[15] == t),
        SimpleToken::Struct => assert(all_simple_tokens()[16] == t),
        SimpleToken::Enum => assert(all_simple_tokens()[17] == t),
        SimpleToken::Semicolon => assert(all_simple_tokens()[18] == t),
        SimpleToken::Colon => assert(all_simple_tokens()[19] == t),
        SimpleToken::Dot => assert(all_simple_tokens()[20] == t),
        SimpleToken::Comma => assert(all_simple_tokens()[21] == t),
        SimpleToken::OpenBracket => assert(all_simple_tokens()[22] == t),
        SimpleToken::CloseBracket => assert(all_simple_tokens()[23] == t),
        SimpleToken::OpenCurly => assert(all_simple_tokens()[24] == t),
        SimpleToken::CloseCurly => assert(all_simple_tokens()[25] == t),
        SimpleToken::OpenSquare => assert(all_simple_tokens()[26] == t),
        SimpleToken::CloseSquare => assert(all_simple_tokens()[27] == t),
        SimpleToken::Plus => assert(all_simple_tokens()[28] == t),
        SimpleToken::Dash => assert(all_simple_tokens()[29] == t),
        SimpleToken::Star => assert(all_simple_tokens()[30] == t),
        SimpleToken::Slash => assert(all_simple_tokens()[31] == t),
        SimpleToken::Percent => assert(all_simple_tokens()[32] == t),
        SimpleToken::Exclamation => assert(all_simple_tokens()[33] == t),
        SimpleToken::Tilde => assert(all_simple_tokens()[34] == t),
        SimpleToken::Ampersand => assert(all_simple_tokens()[35] == t),
        SimpleToken::VerticalBar => assert(all_simple_tokens()[36] == t),
        SimpleToken::BitXor => assert(all_simple_tokens()[37] == t),
        SimpleToken::Arrow => assert(all_simple_tokens()[38] == t),
        SimpleToken::Question => assert(all_simple_tokens()[39] == t),
        SimpleToken::TwoExcl => assert(all_simple_tokens()[40] == t),
        SimpleToken::TwoQuestion => assert(all_simple_tokens()[41] == t),
        SimpleToken::QuestionDot => assert(all_simple_tokens()[42] == t),
        SimpleToken::PlusPlus => assert(all_simple_tokens()[43] == t),
        SimpleToken::MinusMinus => assert(all_simple_tokens()[44] == t),
        SimpleToken::RightRight => assert(all_simple_tokens()[45] == t),
        SimpleToken::LeftLeft => assert(all_simple_tokens()[46] == t),
        SimpleToken::BoolAnd => assert(all_simple_tokens()[47] == t),
        SimpleToken::BoolOr => assert(all_simple_tokens()[48] == t),
        SimpleToken::Assign => assert(all_simple_tokens()[49] == t),
        SimpleToken::PlusAssign => assert(all_simple_tokens()[50] == t),
        SimpleToken::DashAssign => assert(all_simple_tokens()[51] == t),
        SimpleToken::StarAssign => assert(all_simple_tokens()[52] == t),
        SimpleToken::SlashAssign => assert(all_simple_tokens()[53] == t),
        SimpleToken::PercentAssign => assert(all_simple_tokens()[54] == t),
        SimpleToken::RightRightAssign => assert(all_simple_tokens()[55] == t),
        SimpleToken::LeftLeftAssign => assert(all_simple_tokens()[56] == t),
        SimpleToken::VertBarAssign => assert(all_simple_tokens()[57] == t),
        SimpleToken::AmpersandAssign => assert(all_simple_tokens()[58] == t),
        SimpleToken::BitXorAssign => assert(all_simple_tokens()[59] == t),
        SimpleToken::Equals => assert(all_simple_tokens()[60] == t),
        SimpleToken::NotEquals => assert(all_simple_tokens()[61] == t),
        SimpleToken::Less => assert(all_simple_tokens()[62] == t),
        SimpleToken::LessEquals => assert(all_simple_tokens()[63] == t),
        SimpleToken::Greater => assert(all_simple_tokens()[64] == t),
        SimpleToken::GreaterEquals => assert(all_simple_tokens()[65] == t),
    }
}


/// A token read from the source text.
///
/// A float literal is carried by its text (ASCII digits with one dot), which
/// std's float parsing always accepts; the library does no floating point.
#[derive(Debug, PartialEq, Eq, Clone)]
pub enum Token {
    Unknown,
    SimpleTokenType(SimpleToken),
    Identifier(String),
    NumberIntLiteral(i64),
    NumberFloatLiteral(String),
    StringLiteral(String),
    Comment(String),
    MultilineComment(String),
    EOF,
}

/// The mathematical model of a `Token`: text as a sequence of characters.
pub enum TokenModel {
    Unknown,
    SimpleTokenType(SimpleToken),
    Identifier(Seq<char>),
    NumberIntLiteral(i64),
    NumberFloatLiteral(Seq<char>),
    StringLiteral(Seq<char>),
    Comment(Seq<char>),
    MultilineComment(Seq<char>),
    EOF,
}

impl View for Token {
    type V = TokenModel;

    open spec fn view(&self) -> TokenModel {
        match self {
            Token::Unknown => TokenModel::Unknown,
            Token::SimpleTokenType(t) => TokenModel::SimpleTokenType(*t),
            Token::Identifier(s) => TokenModel::Identifier(s@),
            Token::NumberIntLiteral(v) => TokenModel::NumberIntLiteral(*v),
            Token::NumberFloatLiteral(s) => TokenModel::NumberFloatLiteral(s@),
            Token::StringLiteral(s) => TokenModel::StringLiteral(s@),
            Token::Comment(s) => TokenModel::Comment(s@),
            Token::MultilineComment(s) => TokenModel::MultilineComment(s@),
            Token::EOF => TokenModel::EOF,
        }
    }
}

impl Token {
    /// A copy of this token.
    pub fn duplicate(&self) -> (t: Token)
        ensures
            t@ == self@,
    {
        match self {
            Token::Unknown => Token::Unknown,
            Token::SimpleTokenType(t) => Token::SimpleTokenType(*t),
            Token::Identifier(s) => Token::Identifier(s.clone()),
            Token::NumberIntLiteral(v) => Token::NumberIntLiteral(*v),
            Token::NumberFloatLiteral(s) => Token::NumberFloatLiteral(s.clone()),
            Token::StringLiteral(s) => Token::StringLiteral(s.clone()),
            Token::Comment(s) => Token::Comment(s.clone()),
            Token::MultilineComment(s) => Token::MultilineComment(s.clone()),
            Token::EOF => Token::EOF,
        }
    }

    /// Whether this is the end-of-file token.
    pub fn is_eof(&self) -> (b: bool)
        ensures
            b == (self@ == TokenModel::EOF),
    {
        matches!(self, Token::EOF)
    }
}

} // verus!
