//! Token and node kinds of the lossless Badger syntax tree.

use vstd::prelude::*;

verus! {

/// Token and node kinds used by the lossless Badger CST.
#[derive(Debug, Clone, Copy, PartialEq, Eq, Structural, PartialOrd, Ord, Hash)]
pub enum SyntaxKind {
    Root,
    Item,
    ImportBinding,
    ReExport,
    TypeAlias,
    StructDecl,
    EnumDecl,
    InterfaceDecl,
    Binding,
    GenericParamList,
    GenericArgList,
    ExtendsClause,
    ParamList,
    Param,
    Field,
    Variant,
    MethodSig,
    Type,
    FunctionType,
    EffectTail,
    Expr,
    FnExpr,
    Block,
    ArgList,
    Error,
    Whitespace,
    LineComment,
    DocComment,
    PubKw,
    FnKw,
    StructKw,
    EnumKw,
    InterfaceKw,
    ImplementKw,
    AsKw,
    ExtendsKw,
    MatchKw,
    TypeKw,
    SelfKw,
    SelfTypeKw,
    TrueKw,
    FalseKw,
    BuiltinImport,
    BuiltinRecurse,
    EffectMarker,
    DependMarker,
    Ident,
    Int,
    String,
    Char,
    LParen,
    RParen,
    LBrace,
    RBrace,
    LBracket,
    RBracket,
    Lt,
    Gt,
    Comma,
    Semi,
    Colon,
    Dot,
    Arrow,
    FatArrow,
    Eq,
    Question,
    PipeGt,
    Plus,
    Star,
    Le,
}

/// The number of kinds; every raw value below it names exactly one kind.
pub const KIND_COUNT: u16 = 70;

impl SyntaxKind {
    /// The raw tag of a kind: its position in the declaration order.
    pub open spec fn raw_of(self) -> u16 {
        match self {
            SyntaxKind::Root => 0,
            SyntaxKind::Item => 1,
            SyntaxKind::ImportBinding => 2,
            SyntaxKind::ReExport => 3,
            SyntaxKind::TypeAlias => 4,
            SyntaxKind::StructDecl => 5,
            SyntaxKind::EnumDecl => 6,
            SyntaxKind::InterfaceDecl => 7,
            SyntaxKind::Binding => 8,
            SyntaxKind::GenericParamList => 9,
            SyntaxKind::GenericArgList => 10,
            SyntaxKind::ExtendsClause => 11,
            SyntaxKind::ParamList => 12,
            SyntaxKind::Param => 13,
            SyntaxKind::Field => 14,
            SyntaxKind::Variant => 15,
            SyntaxKind::MethodSig => 16,
            SyntaxKind::Type => 17,
            SyntaxKind::FunctionType => 18,
            SyntaxKind::EffectTail => 19,
            SyntaxKind::Expr => 20,
            SyntaxKind::FnExpr => 21,
            SyntaxKind::Block => 22,
            SyntaxKind::ArgList => 23,
            SyntaxKind::Error => 24,
            SyntaxKind::Whitespace => 25,
            SyntaxKind::LineComment => 26,
            SyntaxKind::DocComment => 27,
            SyntaxKind::PubKw => 28,
            SyntaxKind::FnKw => 29,
            SyntaxKind::StructKw => 30,
            SyntaxKind::EnumKw => 31,
            SyntaxKind::InterfaceKw => 32,
            SyntaxKind::ImplementKw => 33,
            SyntaxKind::AsKw => 34,
            SyntaxKind::ExtendsKw => 35,
            SyntaxKind::MatchKw => 36,
            SyntaxKind::TypeKw => 37,
            SyntaxKind::SelfKw => 38,
            SyntaxKind::SelfTypeKw => 39,
            SyntaxKind::TrueKw => 40,
            SyntaxKind::FalseKw => 41,
            SyntaxKind::BuiltinImport => 42,
            SyntaxKind::BuiltinRecurse => 43,
            SyntaxKind::EffectMarker => 44,
            SyntaxKind::DependMarker => 45,
            SyntaxKind::Ident => 46,
            SyntaxKind::Int => 47,
            SyntaxKind::String => 48,
            SyntaxKind::Char => 49,
            SyntaxKind::LParen => 50,
            SyntaxKind::RParen => 51,
            SyntaxKind::LBrace => 52,
            SyntaxKind::RBrace => 53,
            SyntaxKind::LBracket => 54,
            SyntaxKind::RBracket => 55,
            SyntaxKind::Lt => 56,
            SyntaxKind::Gt => 57,
            SyntaxKind::Comma => 58,
            SyntaxKind::Semi => 59,
            SyntaxKind::Colon => 60,
            SyntaxKind::Dot => 61,
            SyntaxKind::Arrow => 62,
            SyntaxKind::FatArrow => 63,
            SyntaxKind::Eq => 64,
            SyntaxKind::Question => 65,
            SyntaxKind::PipeGt => 66,
            SyntaxKind::Plus => 67,
            SyntaxKind::Star => 68,
            SyntaxKind::Le => 69,
        }
    }

    /// The kind that a raw tag stands for; tags past the last kind read as `Error`.
    pub open spec fn kind_of_raw(raw: u16) -> SyntaxKind {
        match raw {
            0 => SyntaxKind::Root,
            1 => SyntaxKind::Item,
            2 => SyntaxKind::ImportBinding,
            3 => SyntaxKind::ReExport,
            4 => SyntaxKind::TypeAlias,
            5 => SyntaxKind::StructDecl,
            6 => SyntaxKind::EnumDecl,
            7 => SyntaxKind::InterfaceDecl,
            8 => SyntaxKind::Binding,
            9 => SyntaxKind::GenericParamList,
            10 => SyntaxKind::GenericArgList,
            11 => SyntaxKind::ExtendsClause,
            12 => SyntaxKind::ParamList,
            13 => SyntaxKind::Param,
            14 => SyntaxKind::Field,
            15 => SyntaxKind::Variant,
            16 => SyntaxKind::MethodSig,
            17 => SyntaxKind::Type,
            18 => SyntaxKind::FunctionType,
            19 => SyntaxKind::EffectTail,
            20 => SyntaxKind::Expr,
            21 => SyntaxKind::FnExpr,
            22 => SyntaxKind::Block,
            23 => SyntaxKind::ArgList,
            24 => SyntaxKind::Error,
            25 => SyntaxKind::Whitespace,
            26 => SyntaxKind::LineComment,
            27 => SyntaxKind::DocComment,
            28 => SyntaxKind::PubKw,
            29 => SyntaxKind::FnKw,
            30 => SyntaxKind::StructKw,
            31 => SyntaxKind::EnumKw,
            32 => SyntaxKind::InterfaceKw,
            33 => SyntaxKind::ImplementKw,
            34 => SyntaxKind::AsKw,
            35 => SyntaxKind::ExtendsKw,
            36 => SyntaxKind::MatchKw,
            37 => SyntaxKind::TypeKw,
            38 => SyntaxKind::SelfKw,
            39 => SyntaxKind::SelfTypeKw,
            40 => SyntaxKind::TrueKw,
            41 => SyntaxKind::FalseKw,
            42 => SyntaxKind::BuiltinImport,
            43 => SyntaxKind::BuiltinRecurse,
            44 => SyntaxKind::EffectMarker,
            45 => SyntaxKind::DependMarker,
            46 => SyntaxKind::Ident,
            47 => SyntaxKind::Int,
            48 => SyntaxKind::String,
            49 => SyntaxKind::Char,
            50 => SyntaxKind::LParen,
            51 => SyntaxKind::RParen,
            52 => SyntaxKind::LBrace,
            53 => SyntaxKind::RBrace,
            54 => SyntaxKind::LBracket,
            55 => SyntaxKind::RBracket,
            56 => SyntaxKind::Lt,
            57 => SyntaxKind::Gt,
            58 => SyntaxKind::Comma,
            59 => SyntaxKind::Semi,
            60 => SyntaxKind::Colon,
            61 => SyntaxKind::Dot,
            62 => SyntaxKind::Arrow,
            63 => SyntaxKind::FatArrow,
            64 => SyntaxKind::Eq,
            65 => SyntaxKind::Question,
            66 => SyntaxKind::PipeGt,
            67 => SyntaxKind::Plus,
            68 => SyntaxKind::Star,
            69 => SyntaxKind::Le,
            _ => SyntaxKind::Error,
        }
    }

    /// Whitespace and comments: tokens that carry no syntax of their own.
    pub open spec fn trivia(self) -> bool {
        self == SyntaxKind::Whitespace || self == SyntaxKind::LineComment
            || self == SyntaxKind::DocComment
    }

    /// The variant's name, as `{:?}` prints it.
    pub open spec fn name_of(self) -> Seq<char> {
        match self {
            SyntaxKind::Root => "Root"@,
            SyntaxKind::Item => "Item"@,
            SyntaxKind::ImportBinding => "ImportBinding"@,
            SyntaxKind::ReExport => "ReExport"@,
            SyntaxKind::TypeAlias => "TypeAlias"@,
            SyntaxKind::StructDecl => "StructDecl"@,
            SyntaxKind::EnumDecl => "EnumDecl"@,
            SyntaxKind::InterfaceDecl => "InterfaceDecl"@,
            SyntaxKind::Binding => "Binding"@,
            SyntaxKind::GenericParamList => "GenericParamList"@,
            SyntaxKind::GenericArgList => "GenericArgList"@,
            SyntaxKind::ExtendsClause => "ExtendsClause"@,
            SyntaxKind::ParamList => "ParamList"@,
            SyntaxKind::Param => "Param"@,
            SyntaxKind::Field => "Field"@,
            SyntaxKind::Variant => "Variant"@,
            SyntaxKind::MethodSig => "MethodSig"@,
            SyntaxKind::Type => "Type"@,
            SyntaxKind::FunctionType => "FunctionType"@,
            SyntaxKind::EffectTail => "EffectTail"@,
            SyntaxKind::Expr => "Expr"@,
            SyntaxKind::FnExpr => "FnExpr"@,
            SyntaxKind::Block => "Block"@,
            SyntaxKind::ArgList => "ArgList"@,
            SyntaxKind::Error => "Error"@,
            SyntaxKind::Whitespace => "Whitespace"@,
            SyntaxKind::LineComment => "LineComment"@,
            SyntaxKind::DocComment => "DocComment"@,
            SyntaxKind::PubKw => "PubKw"@,
            SyntaxKind::FnKw => "FnKw"@,
            SyntaxKind::StructKw => "StructKw"@,
            SyntaxKind::EnumKw => "EnumKw"@,
            SyntaxKind::InterfaceKw => "InterfaceKw"@,
            SyntaxKind::ImplementKw => "ImplementKw"@,
            SyntaxKind::AsKw => "AsKw"@,
            SyntaxKind::ExtendsKw => "ExtendsKw"@,
            SyntaxKind::MatchKw => "MatchKw"@,
            SyntaxKind::TypeKw => "TypeKw"@,
            SyntaxKind::SelfKw => "SelfKw"@,
            SyntaxKind::SelfTypeKw => "SelfTypeKw"@,
            SyntaxKind::TrueKw => "TrueKw"@,
            SyntaxKind::FalseKw => "FalseKw"@,
            SyntaxKind::BuiltinImport => "BuiltinImport"@,
            SyntaxKind::BuiltinRecurse => "BuiltinRecurse"@,
            SyntaxKind::EffectMarker => "EffectMarker"@,
            SyntaxKind::DependMarker => "DependMarker"@,
            SyntaxKind::Ident => "Ident"@,
            SyntaxKind::Int => "Int"@,
            SyntaxKind::String => "String"@,
            SyntaxKind::Char => "Char"@,
            SyntaxKind::LParen => "LParen"@,
            SyntaxKind::RParen => "RParen"@,
            SyntaxKind::LBrace => "LBrace"@,
            SyntaxKind::RBrace => "RBrace"@,
            SyntaxKind::LBracket => "LBracket"@,
            SyntaxKind::RBracket => "RBracket"@,
            SyntaxKind::Lt => "Lt"@,
            SyntaxKind::Gt => "Gt"@,
            SyntaxKind::Comma => "Comma"@,
            SyntaxKind::Semi => "Semi"@,
            SyntaxKind::Colon => "Colon"@,
            SyntaxKind::Dot => "Dot"@,
            SyntaxKind::Arrow => "Arrow"@,
            SyntaxKind::FatArrow => "FatArrow"@,
            SyntaxKind::Eq => "Eq"@,
            SyntaxKind::Question => "Question"@,
            SyntaxKind::PipeGt => "PipeGt"@,
            SyntaxKind::Plus => "Plus"@,
            SyntaxKind::Star => "Star"@,
            SyntaxKind::Le => "Le"@,
        }
    }

    /// Maps a raw tag back to its kind.
    pub fn from_raw(raw: u16) -> (kind: SyntaxKind)
        ensures
            kind == SyntaxKind::kind_of_raw(raw),
            raw < KIND_COUNT ==> kind.raw_of() == raw,
            raw >= KIND_COUNT ==> kind == SyntaxKind::Error,
    {
        match raw {
            0 => SyntaxKind::Root,
            1 => SyntaxKind::Item,
            2 => SyntaxKind::ImportBinding,
            3 => SyntaxKind::ReExport,
            4 => SyntaxKind::TypeAlias,
            5 => SyntaxKind::StructDecl,
            6 => SyntaxKind::EnumDecl,
            7 => SyntaxKind::InterfaceDecl,
            8 => SyntaxKind::Binding,
            9 => SyntaxKind::GenericParamList,
            10 => SyntaxKind::GenericArgList,
            11 => SyntaxKind::ExtendsClause,
            12 => SyntaxKind::ParamList,
            13 => SyntaxKind::Param,
            14 => SyntaxKind::Field,
            15 => SyntaxKind::Variant,
            16 => SyntaxKind::MethodSig,
            17 => SyntaxKind::Type,
            18 => SyntaxKind::FunctionType,
            19 => SyntaxKind::EffectTail,
            20 => SyntaxKind::Expr,
            21 => SyntaxKind::FnExpr,
            22 => SyntaxKind::Block,
            23 => SyntaxKind::ArgList,
            24 => SyntaxKind::Error,
            25 => SyntaxKind::Whitespace,
            26 => SyntaxKind::LineComment,
            27 => SyntaxKind::DocComment,
            28 => SyntaxKind::PubKw,
            29 => SyntaxKind::FnKw,
            30 => SyntaxKind::StructKw,
            31 => SyntaxKind::EnumKw,
            32 => SyntaxKind::InterfaceKw,
            33 => SyntaxKind::ImplementKw,
            34 => SyntaxKind::AsKw,
            35 => SyntaxKind::ExtendsKw,
            36 => SyntaxKind::MatchKw,
            37 => SyntaxKind::TypeKw,
            38 => SyntaxKind::SelfKw,
            39 => SyntaxKind::SelfTypeKw,
            40 => SyntaxKind::TrueKw,
            41 => SyntaxKind::FalseKw,
            42 => SyntaxKind::BuiltinImport,
            43 => SyntaxKind::BuiltinRecurse,
            44 => SyntaxKind::EffectMarker,
            45 => SyntaxKind::DependMarker,
            46 => SyntaxKind::Ident,
            47 => SyntaxKind::Int,
            48 => SyntaxKind::String,
            49 => SyntaxKind::Char,
            50 => SyntaxKind::LParen,
            51 => SyntaxKind::RParen,
            52 => SyntaxKind::LBrace,
            53 => SyntaxKind::RBrace,
            54 => SyntaxKind::LBracket,
            55 => SyntaxKind::RBracket,
            56 => SyntaxKind::Lt,
            57 => SyntaxKind::Gt,
            58 => SyntaxKind::Comma,
            59 => SyntaxKind::Semi,
            60 => SyntaxKind::Colon,
            61 => SyntaxKind::Dot,
            62 => SyntaxKind::Arrow,
            63 => SyntaxKind::FatArrow,
            64 => SyntaxKind::Eq,
            65 => SyntaxKind::Question,
            66 => SyntaxKind::PipeGt,
            67 => SyntaxKind::Plus,
            68 => SyntaxKind::Star,
            69 => SyntaxKind::Le,
            _ => SyntaxKind::Error,
        }
    }

    /// The raw tag of this kind, as the syntax tree stores it.
    pub fn to_raw(self) -> (raw: u16)
        ensures
            raw == self.raw_of(),
            raw < KIND_COUNT,
    {
        match self {
            SyntaxKind::Root => 0,
            SyntaxKind::Item => 1,
            SyntaxKind::ImportBinding => 2,
            SyntaxKind::ReExport => 3,
            SyntaxKind::TypeAlias => 4,
            SyntaxKind::StructDecl => 5,
            SyntaxKind::EnumDecl => 6,
            SyntaxKind::InterfaceDecl => 7,
            SyntaxKind::Binding => 8,
            SyntaxKind::GenericParamList => 9,
            SyntaxKind::GenericArgList => 10,
            SyntaxKind::ExtendsClause => 11,
            SyntaxKind::ParamList => 12,
            SyntaxKind::Param => 13,
            SyntaxKind::Field => 14,
            SyntaxKind::Variant => 15,
            SyntaxKind::MethodSig => 16,
            SyntaxKind::Type => 17,
            SyntaxKind::FunctionType => 18,
            SyntaxKind::EffectTail => 19,
            SyntaxKind::Expr => 20,
            SyntaxKind::FnExpr => 21,
            SyntaxKind::Block => 22,
            SyntaxKind::ArgList => 23,
            SyntaxKind::Error => 24,
            SyntaxKind::Whitespace => 25,
            SyntaxKind::LineComment => 26,
            SyntaxKind::DocComment => 27,
            SyntaxKind::PubKw => 28,
            SyntaxKind::FnKw => 29,
            SyntaxKind::StructKw => 30,
            SyntaxKind::EnumKw => 31,
            SyntaxKind::InterfaceKw => 32,
            SyntaxKind::ImplementKw => 33,
            SyntaxKind::AsKw => 34,
            SyntaxKind::ExtendsKw => 35,
            SyntaxKind::MatchKw => 36,
            SyntaxKind::TypeKw => 37,
            SyntaxKind::SelfKw => 38,
            SyntaxKind::SelfTypeKw => 39,
            SyntaxKind::TrueKw => 40,
            SyntaxKind::FalseKw => 41,
            SyntaxKind::BuiltinImport => 42,
            SyntaxKind::BuiltinRecurse => 43,
            SyntaxKind::EffectMarker => 44,
            SyntaxKind::DependMarker => 45,
            SyntaxKind::Ident => 46,
            SyntaxKind::Int => 47,
            SyntaxKind::String => 48,
            SyntaxKind::Char => 49,
            SyntaxKind::LParen => 50,
            SyntaxKind::RParen => 51,
            SyntaxKind::LBrace => 52,
            SyntaxKind::RBrace => 53,
            SyntaxKind::LBracket => 54,
            SyntaxKind::RBracket => 55,
            SyntaxKind::Lt => 56,
            SyntaxKind::Gt => 57,
            SyntaxKind::Comma => 58,
            SyntaxKind::Semi => 59,
            SyntaxKind::Colon => 60,
            SyntaxKind::Dot => 61,
            SyntaxKind::Arrow => 62,
            SyntaxKind::FatArrow => 63,
            SyntaxKind::Eq => 64,
            SyntaxKind::Question => 65,
            SyntaxKind::PipeGt => 66,
            SyntaxKind::Plus => 67,
            SyntaxKind::Star => 68,
            SyntaxKind::Le => 69,
        }
    }

    /// Whether this kind is whitespace or a comment.
    pub fn is_trivia(self) -> (b: bool)
        ensures
            b == self.trivia(),
    {
        match self {
            SyntaxKind::Whitespace | SyntaxKind::LineComment | SyntaxKind::DocComment => true,
            _ => false,
        }
    }

    /// The variant's name, as `{:?}` prints it.
    pub fn debug_name(self) -> (name: &'static str)
        ensures
            name@ == self.name_of(),
    {
        match self {
            SyntaxKind::Root => "Root",
            SyntaxKind::Item => "Item",
            SyntaxKind::ImportBinding => "ImportBinding",
            SyntaxKind::ReExport => "ReExport",
            SyntaxKind::TypeAlias => "TypeAlias",
            SyntaxKind::StructDecl => "StructDecl",
            SyntaxKind::EnumDecl => "EnumDecl",
            SyntaxKind::InterfaceDecl => "InterfaceDecl",
            SyntaxKind::Binding => "Binding",
            SyntaxKind::GenericParamList => "GenericParamList",
            SyntaxKind::GenericArgList => "GenericArgList",
            SyntaxKind::ExtendsClause => "ExtendsClause",
            SyntaxKind::ParamList => "ParamList",
            SyntaxKind::Param => "Param",
            SyntaxKind::Field => "Field",
            SyntaxKind::Variant => "Variant",
            SyntaxKind::MethodSig => "MethodSig",
            SyntaxKind::Type => "Type",
            SyntaxKind::FunctionType => "FunctionType",
            SyntaxKind::EffectTail => "EffectTail",
            SyntaxKind::Expr => "Expr",
            SyntaxKind::FnExpr => "FnExpr",
            SyntaxKind::Block => "Block",
            SyntaxKind::ArgList => "ArgList",
            SyntaxKind::Error => "Error",
            SyntaxKind::Whitespace => "Whitespace",
            SyntaxKind::LineComment => "LineComment",
            SyntaxKind::DocComment => "DocComment",
            SyntaxKind::PubKw => "PubKw",
            SyntaxKind::FnKw => "FnKw",
            SyntaxKind::StructKw => "StructKw",
            SyntaxKind::EnumKw => "EnumKw",
            SyntaxKind::InterfaceKw => "InterfaceKw",
            SyntaxKind::ImplementKw => "ImplementKw",
            SyntaxKind::AsKw => "AsKw",
            SyntaxKind::ExtendsKw => "ExtendsKw",
            SyntaxKind::MatchKw => "MatchKw",
            SyntaxKind::TypeKw => "TypeKw",
            SyntaxKind::SelfKw => "SelfKw",
            SyntaxKind::SelfTypeKw => "SelfTypeKw",
            SyntaxKind::TrueKw => "TrueKw",
            SyntaxKind::FalseKw => "FalseKw",
            SyntaxKind::BuiltinImport => "BuiltinImport",
            SyntaxKind::BuiltinRecurse => "BuiltinRecurse",
            SyntaxKind::EffectMarker => "EffectMarker",
            SyntaxKind::DependMarker => "DependMarker",
            SyntaxKind::Ident => "Ident",
            SyntaxKind::Int => "Int",
            SyntaxKind::String => "String",
            SyntaxKind::Char => "Char",
            SyntaxKind::LParen => "LParen",
            SyntaxKind::RParen => "RParen",
            SyntaxKind::LBrace => "LBrace",
            SyntaxKind::RBrace => "RBrace",
            SyntaxKind::LBracket => "LBracket",
            SyntaxKind::RBracket => "RBracket",
            SyntaxKind::Lt => "Lt",
            SyntaxKind::Gt => "Gt",
            SyntaxKind::Comma => "Comma",
            SyntaxKind::Semi => "Semi",
            SyntaxKind::Colon => "Colon",
            SyntaxKind::Dot => "Dot",
            SyntaxKind::Arrow => "Arrow",
            SyntaxKind::FatArrow => "FatArrow",
            SyntaxKind::Eq => "Eq",
            SyntaxKind::Question => "Question",
            SyntaxKind::PipeGt => "PipeGt",
            SyntaxKind::Plus => "Plus",
            SyntaxKind::Star => "Star",
            SyntaxKind::Le => "Le",
        }
    }
}

/// Reading back the raw tag of a kind gives the kind again.
pub proof fn lemma_kind_raw_roundtrip(kind: SyntaxKind)
    ensures
        SyntaxKind::kind_of_raw(kind.raw_of()) == kind,
        kind.raw_of() < KIND_COUNT,
{
}

/// Every raw tag below the kind count is the tag of the kind it reads as.
pub proof fn lemma_raw_kind_roundtrip(raw: u16)
    requires
        raw < KIND_COUNT,
    ensures
        SyntaxKind::kind_of_raw(raw).raw_of() == raw,
{
}

/// Distinct kinds have distinct raw tags.
pub proof fn lemma_raw_injective(a: SyntaxKind, b: SyntaxKind)
    requires
        a.raw_of() == b.raw_of(),
    ensures
        a == b,
{
    lemma_kind_raw_roundtrip(a);
    lemma_kind_raw_roundtrip(b);
}

} // verus!
