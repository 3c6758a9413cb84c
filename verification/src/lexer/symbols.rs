use vstd::prelude::*;

verus! {

/// Operators, grouped by what they do.
#[derive(Debug, PartialEq, Eq, Structural)]
pub enum Operators {
    BitNot,
    Not,
    And,
    Or,
    Increment,
    Decrement,
    Math(MathOperators),
    Assign,
    AssignMath(MathOperators),
    Equals,
    NotEquals,
    BiggerThan,
    LowerThan,
}

/// Operators with two number operands.
#[derive(Debug, PartialEq, Eq, Structural)]
pub enum MathOperators {
    Plus,
    Minus,
    Multiply,
    Divide,
    Modulo,
    ShiftLeft,
    ShiftRight,
    BitAnd,
    BitOr,
    BitXor,
}

pub enum Separators {
    Semicolon,
}

/// The keywords of the language.
#[derive(Copy, Clone, Debug, PartialEq, Eq, Structural)]
pub enum Keywords {
    Bool,
    Int,
    Float,
    Const,
    Let,
    If,
    While,
    For,
    Break,
    Continue,
    Fn,
    Return,
}

/// The text of a keyword.
pub open spec fn keyword_text(k: Keywords) -> Seq<char> {
    match k {
        Keywords::Bool => seq!['b', 'o', 'o', 'l'],
        Keywords::Int => seq!['i', 'n', 't'],
        Keywords::Float => seq!['f', 'l', 'o', 'a', 't'],
        Keywords::Const => seq!['c', 'o', 'n', 's', 't'],
        Keywords::Let => seq!['l', 'e', 't'],
        Keywords::If => seq!['i', 'f'],
        Keywords::While => seq!['w', 'h', 'i', 'l', 'e'],
        Keywords::For => seq!['f', 'o', 'r'],
        Keywords::Break => seq!['b', 'r', 'e', 'a', 'k'],
        Keywords::Continue => seq!['c', 'o', 'n', 't', 'i', 'n', 'u', 'e'],
        Keywords::Fn => seq!['f', 'n'],
        Keywords::Return => seq!['r', 'e', 't', 'u', 'r', 'n'],
    }
}

impl Keywords {
    /// Every keyword, in the order of their declaration.
    pub fn values() -> (v: [Keywords; 12])
        ensures
            v@ == seq![
                Keywords::Bool,
                Keywords::Int,
                Keywords::Float,
                Keywords::Const,
                Keywords::Let,
                Keywords::If,
                Keywords::While,
                Keywords::For,
                Keywords::Break,
                Keywords::Continue,
                Keywords::Fn,
                Keywords::Return,
            ],
    {
        [
            Keywords::Bool,
            Keywords::Int,
            Keywords::Float,
            Keywords::Const,
            Keywords::Let,
            Keywords::If,
            Keywords::While,
            Keywords::For,
            Keywords::Break,
            Keywords::Continue,
            Keywords::Fn,
            Keywords::Return,
        ]
    }

    /// The text by which this keyword is written.
    pub fn text(&self) -> (r: &'static str)
        ensures
            r@ == keyword_text(*self),
    {
        match self {
            Keywords::Bool => {
                proof {
                    reveal_strlit("bool");
                }
                "bool"
            },
            Keywords::Int => {
                proof {
                    reveal_strlit("int");
                }
                "int"
            },
            Keywords::Float => {
                proof {
                    reveal_strlit("float");
                }
                "float"
            },
            Keywords::Const => {
                proof {
                    reveal_strlit("const");
                }
                "const"
            },
            Keywords::Let => {
                proof {
                    reveal_strlit("let");
                }
                "let"
            },
            Keywords::If => {
                proof {
                    reveal_strlit("if");
                }
                "if"
            },
            Keywords::While => {
                proof {
                    reveal_strlit("while");
                }
                "while"
            },
            Keywords::For => {
                proof {
                    reveal_strlit("for");
                }
                "for"
            },
            Keywords::Break => {
                proof {
                    reveal_strlit("break");
                }
                "break"
            },
            Keywords::Continue => {
                proof {
                    reveal_strlit("continue");
                }
                "continue"
            },
            Keywords::Fn => {
                proof {
                    reveal_strlit("fn");
                }
                "fn"
            },
            Keywords::Return => {
                proof {
                    reveal_strlit("return");
                }
                "return"
            },
        }
    }
}

} // verus!
