use vstd::prelude::*;
use vstd::hash_map::StringHashMap;
use vstd::string::StringSliceAdditionalSpecFns;
use crate::analysis::type_registry::{entry_type, TypeEntry, TypeRegistry};
use crate::ast::ast_type::{keys_of, AstType, AstTypeModel};
use crate::completion::completion_type::CompletionType;
use crate::error::context::Span;
use crate::lexer::token::{token_text, SimpleToken};
use crate::text::{push_char, to_owned_string};

verus! {

/// Whether the byte `b` may be part of an identifier: `_`, an ASCII letter or digit.
pub open spec fn ident_byte(b: u8) -> bool {
    b == 0x5F || (0x30 <= b <= 0x39) || (0x41 <= b <= 0x5A) || (0x61 <= b <= 0x7A)
}

/// The start of the run of identifier bytes that ends at position `i`.
pub open spec fn ident_start(t: Seq<u8>, i: int) -> int
    decreases i,
{
    if i <= 0 {
        i
    } else if ident_byte(t[i - 1]) {
        ident_start(t, i - 1)
    } else {
        i
    }
}

/// The start of the run of ASCII white space that ends at position `i`.
pub open spec fn blank_start(t: Seq<u8>, i: int) -> int
    decreases i,
{
    if i <= 0 {
        i
    } else if ascii_white(t[i - 1]) {
        blank_start(t, i - 1)
    } else {
        i
    }
}

/// std's `u8::is_ascii_whitespace`: space, tab, line feed, form feed, carriage return.
pub open spec fn ascii_white(b: u8) -> bool {
    b == 0x20 || b == 0x09 || b == 0x0A || b == 0x0C || b == 0x0D
}

/// The position of the `.` through which the cursor reaches a member: going back
/// from the cursor over an identifier and white space, a single `.` (not `..`).
pub open spec fn member_dot(t: Seq<u8>, cursor: int) -> Option<int> {
    let c = if cursor < t.len() { cursor } else { t.len() as int };
    let i = blank_start(t, ident_start(t, c));
    if i > 0 && t[i - 1] == 0x2E {
        if i >= 2 && t[i - 2] == 0x2E {
            None
        } else {
            Some(i - 1)
        }
    } else {
        None
    }
}

/// Whether `b` may be part of an identifier.
pub fn is_ident_byte(b: u8) -> (r: bool)
    ensures
        r == ident_byte(b),
{
    b == 0x5F || (0x30 <= b && b <= 0x39) || (0x41 <= b && b <= 0x5A) || (0x61 <= b && b <= 0x7A)
}

/// The position of the `.` before the cursor through which a member is being typed.
pub fn find_member_dot(text: &str, cursor: usize) -> (r: Option<usize>)
    ensures
        match (r, member_dot(text.spec_bytes(), cursor as int)) {
            (Some(a), Some(b)) => a == b,
            (None, None) => true,
            _ => false,
        },
{
    let bytes = text.as_bytes();
    let ghost t = bytes@;
    let mut i: usize = if cursor < bytes.len() { cursor } else { bytes.len() };
    let ghost c = i as int;
    while i > 0 && is_ident_byte(bytes[i - 1])
        invariant
            t == bytes@,
            i <= bytes@.len(),
            ident_start(t, i as int) == ident_start(t, c),
        decreases i,
    {
        i -= 1;
    }
    let ghost s = i as int;
    while i > 0 && (bytes[i - 1] == 0x20 || bytes[i - 1] == 0x09 || bytes[i - 1] == 0x0A
        || bytes[i - 1] == 0x0C || bytes[i - 1] == 0x0D)
        invariant
            t == bytes@,
            i <= bytes@.len(),
            blank_start(t, i as int) == blank_start(t, s),
        decreases i,
    {
        i -= 1;
    }
    if i > 0 && bytes[i - 1] == 0x2E {
        if i >= 2 && bytes[i - 2] == 0x2E {
            return None;
        }
        return Some(i - 1);
    }
    None
}

/// The identifier that ends at position `dot`, if any.
pub fn identifier_before(text: &str, dot: usize) -> (r: Option<String>)
    requires
        dot <= text.spec_bytes().len(),
    ensures
        ({
            let t = text.spec_bytes();
            let start = ident_start(t, dot as int);
            if start == dot {
                r is None
            } else {
                r matches Some(s) && s@ == t.subrange(start, dot as int).map_values(
                    |b: u8| b as char,
                )
            }
        }),
{
    let bytes = text.as_bytes();
    let ghost t = bytes@;
    let end = dot;
    let mut start = end;
    while start > 0 && is_ident_byte(bytes[start - 1])
        invariant
            t == bytes@,
            start <= end <= bytes@.len(),
            ident_start(t, start as int) == ident_start(t, end as int),
        decreases start,
    {
        start -= 1;
    }
    if start == end {
        return None;
    }
    let mut res = String::new();
    let mut i = start;
    while i < end
        invariant
            t == bytes@,
            start <= i <= end <= bytes@.len(),
            res@ == t.subrange(start as int, i as int).map_values(|b: u8| b as char),
        decreases end - i,
    {
        push_char(&mut res, bytes[i] as char);
        assert(t.subrange(start as int, i + 1).map_values(|b: u8| b as char) == t.subrange(
            start as int,
            i as int,
        ).map_values(|b: u8| b as char).push(bytes@[i as int] as char));
        i += 1;
    }
    Some(res)
}

/// The keywords suggested, with their kinds, in the order in which they are added.
pub open spec fn keyword_entries() -> Seq<(SimpleToken, CompletionType)> {
    seq![
        (SimpleToken::Const, CompletionType::KwDeclaration),
        (SimpleToken::Let, CompletionType::KwDeclaration),
        (SimpleToken::If, CompletionType::KwControl),
        (SimpleToken::Else, CompletionType::KwControl),
        (SimpleToken::While, CompletionType::KwControl),
        (SimpleToken::For, CompletionType::KwControl),
        (SimpleToken::Break, CompletionType::KwControl),
        (SimpleToken::Const, CompletionType::KwControl),
        (SimpleToken::Return, CompletionType::KwReturn),
        (SimpleToken::Struct, CompletionType::KwDefinition),
        (SimpleToken::Enum, CompletionType::KwDefinition),
        (SimpleToken::Fn, CompletionType::KwDefinition),
        (SimpleToken::Init, CompletionType::KwDefinition),
        (SimpleToken::Pub, CompletionType::KwVisibility),
        (SimpleToken::Priv, CompletionType::KwVisibility),
    ]
}

/// `m` with the entries of `e` added in order, each by its token's text.
pub open spec fn with_keywords(m: Map<Seq<char>, CompletionType>, e: Seq<(SimpleToken, CompletionType)>) -> Map<Seq<char>, CompletionType>
    decreases e.len(),
{
    if e.len() == 0 {
        m
    } else {
        with_keywords(m, e.drop_last()).insert(token_text(e.last().0), e.last().1)
    }
}

/// Adds the keywords to the suggestions, each with its kind.
pub fn add_keywords(suggestions: &mut StringHashMap<CompletionType>)
    ensures
        final(suggestions)@ == with_keywords(old(suggestions)@, keyword_entries()),
{
    let keywords = vec![
        (SimpleToken::Const, CompletionType::KwDeclaration),
        (SimpleToken::Let, CompletionType::KwDeclaration),
        (SimpleToken::If, CompletionType::KwControl),
        (SimpleToken::Else, CompletionType::KwControl),
        (SimpleToken::While, CompletionType::KwControl),
        (SimpleToken::For, CompletionType::KwControl),
        (SimpleToken::Break, CompletionType::KwControl),
        (SimpleToken::Const, CompletionType::KwControl),
        (SimpleToken::Return, CompletionType::KwReturn),
        (SimpleToken::Struct, CompletionType::KwDefinition),
        (SimpleToken::Enum, CompletionType::KwDefinition),
        (SimpleToken::Fn, CompletionType::KwDefinition),
        (SimpleToken::Init, CompletionType::KwDefinition),
        (SimpleToken::Pub, CompletionType::KwVisibility),
        (SimpleToken::Priv, CompletionType::KwVisibility),
    ];
    let ghost m0 = suggestions@;
    let mut i: usize = 0;
    while i < keywords.len()
        invariant
            keywords@ == keyword_entries(),
            i <= keywords@.len(),
            suggestions@ == with_keywords(m0, keywords@.take(i as int)),
        decreases keywords@.len() - i,
    {
        let (token, compl_type) = keywords[i];
        suggestions.insert(to_owned_string(token.string_representation()), compl_type);
        assert(keywords@.take(i + 1).drop_last() == keywords@.take(i as int));
        i += 1;
    }
    assert(keywords@.take(keywords@.len() as int) == keywords@);
}

/// Whether the type `t` is a public method: a public function, or a set of
/// overloads of which one is a public function.
pub open spec fn public_method(t: AstTypeModel, reg: Map<u64, AstTypeModel>) -> bool {
    match t {
        AstTypeModel::FunctionsType { overloads, .. } => exists|i: int| 0 <= i < overloads.len()
            && (#[trigger] entry_type(reg, overloads[i]) matches AstTypeModel::FunctionType { modifier, .. } && modifier.public == Some(true)),
        AstTypeModel::FunctionType { modifier, .. } => modifier.public == Some(true),
        _ => false,
    }
}

/// Whether the member of type `typ` is a public method.
pub fn method_is_public(typ: TypeEntry, registry: &TypeRegistry) -> (b: bool)
    ensures
        b == public_method(entry_type(registry.types(), typ.key), registry.types()),
{
    let t = typ.get(registry);
    match &t {
        AstType::FunctionsType { overloads, .. } => {
            let mut i: usize = 0;
            while i < overloads.len()
                invariant
                    i <= overloads@.len(),
                    entry_type(registry.types(), typ.key) == t@,
                    t@ matches AstTypeModel::FunctionsType { overloads: o, .. } && o == keys_of(overloads@),
                    forall|j: int| 0 <= j < i ==> !(#[trigger] entry_type(registry.types(), overloads@[j].key) matches AstTypeModel::FunctionType { modifier, .. } && modifier.public == Some(true)),
                decreases overloads@.len() - i,
            {
                let o = overloads[i].get(registry);
                if let AstType::FunctionType { modifier, .. } = &o {
                    if modifier.is_public() {
                        let ghost ks = keys_of(overloads@);
                        assert(ks[i as int] == overloads@[i as int].key);
                        assert(entry_type(registry.types(), ks[i as int]) == o@);
                        assert(entry_type(registry.types(), ks[i as int]) matches AstTypeModel::FunctionType { modifier, .. } && modifier.public == Some(true));
                        return true;
                    }
                }
                i += 1;
            }
            proof {
                let ks = keys_of(overloads@);
                assert forall|j: int| 0 <= j < ks.len() implies !(#[trigger] entry_type(registry.types(), ks[j]) matches AstTypeModel::FunctionType { modifier, .. } && modifier.public == Some(true)) by {
                    assert(ks[j] == overloads@[j].key);
                }
            }
            false
        },
        AstType::FunctionType { modifier, .. } => modifier.is_public(),
        _ => false,
    }
}

/// Whether the cursor lies inside `span`.
pub fn is_within_cursor(cursor: usize, span: Span) -> (b: bool)
    ensures
        b == (span.from <= cursor && span.to > cursor),
{
    span.from <= cursor && span.to > cursor
}

} // verus!
