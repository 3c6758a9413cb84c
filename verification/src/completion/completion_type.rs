use vstd::prelude::*;

verus! {

/// What kind of thing a completion suggestion is.
#[derive(Debug, Copy, Clone, PartialEq, Eq, Structural)]
pub enum CompletionType {
    Variable,
    Constant,
    Function,
    Struct,
    Enum,
    Field,
    Method,
    Parameter,
    EnumValue,
    KwDeclaration,
    KwControl,
    KwReturn,
    KwDefinition,
    KwVisibility,
}

/// The name under which a kind of suggestion is reported.
pub open spec fn completion_name(t: CompletionType) -> Seq<char> {
    match t {
        CompletionType::Variable => "variable"@,
        CompletionType::Constant => "constant"@,
        CompletionType::Function => "function"@,
        CompletionType::Struct => "struct"@,
        CompletionType::Enum => "enum"@,
        CompletionType::Field => "field"@,
        CompletionType::Method => "method"@,
        CompletionType::Parameter => "parameter"@,
        CompletionType::EnumValue => "enum_value"@,
        CompletionType::KwDeclaration => "kw_declaration"@,
        CompletionType::KwControl => "kw_control"@,
        CompletionType::KwReturn => "kw_return"@,
        CompletionType::KwDefinition => "kw_definition"@,
        CompletionType::KwVisibility => "kw_visibility"@,
    }
}

impl CompletionType {
    /// The name under which this kind of suggestion is reported.
    pub fn as_string(&self) -> (r: &'static str)
        ensures
            r@ == completion_name(*self),
    {
        match self {
            CompletionType::Variable => "variable",
            CompletionType::Constant => "constant",
            CompletionType::Function => "function",
            CompletionType::Struct => "struct",
            CompletionType::Enum => "enum",
            CompletionType::Field => "field",
            CompletionType::Method => "method",
            CompletionType::Parameter => "parameter",
            CompletionType::EnumValue => "enum_value",
            CompletionType::KwDeclaration => "kw_declaration",
            CompletionType::KwControl => "kw_control",
            CompletionType::KwReturn => "kw_return",
            CompletionType::KwDefinition => "kw_definition",
            CompletionType::KwVisibility => "kw_visibility",
        }
    }
}

} // verus!
