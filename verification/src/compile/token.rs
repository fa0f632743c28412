//! Tokens, their kinds, and the ordered tables of operators and keywords.

use vstd::prelude::*;

verus! {

/// The kind of a token.
#[allow(non_camel_case_types)]
#[derive(PartialEq, Eq, Structural, Clone, Copy, Debug)]
pub enum TokenType {
    /// No kind: the kind of a fresh token, and of a word that is neither a
    /// number nor an identifier.
    Null,
    /// A run of punctuation that no operator table knows.
    Broken,
    /// An identifier.
    String,
    /// A run of decimal digits.
    Number,
    LogicEqual,
    LogicNotEqual,
    LogicAND,
    LogicOR,
    LeftParen,
    RightParen,
    LeftBrace,
    RightBrace,
    LeftBrack,
    RightBrack,
    LeftABrack,
    RightABrack,
    Equal,
    Bang,
    Plus,
    Minus,
    Multify,
    Divide,
    Mod,
    LeftBShift,
    RightBShift,
    BitAND,
    BitOR,
    BitXOR,
    PlusEqu,
    MinusEqu,
    MultifyEqu,
    DivideEqu,
    ModEqu,
    LeftBShiftEqu,
    RightBShiftEqu,
    BAndEqu,
    BOrEqu,
    BXorEqu,
    Quote,
    DblQuote,
    Dot,
    Comma,
    Semicolon,
    DblColon,
    Arrow,
    Const,
    Impl,
    Trait,
    Pub,
    Private,
    If,
    While,
    For,
    Use,
    Fn,
    LineComment,
    LongComment,
    /// A block comment that the input ends before closing.
    BrokenLeftLongComment,
}

impl TokenType {
    /// The name of the kind, as it is written in this crate.
    pub open spec fn spec_name(self) -> Seq<char> {
        match self {
            TokenType::Null => "Null"@,
            TokenType::Broken => "Broken"@,
            TokenType::String => "String"@,
            TokenType::Number => "Number"@,
            TokenType::LogicEqual => "LogicEqual"@,
            TokenType::LogicNotEqual => "LogicNotEqual"@,
            TokenType::LogicAND => "LogicAND"@,
            TokenType::LogicOR => "LogicOR"@,
            TokenType::LeftParen => "LeftParen"@,
            TokenType::RightParen => "RightParen"@,
            TokenType::LeftBrace => "LeftBrace"@,
            TokenType::RightBrace => "RightBrace"@,
            TokenType::LeftBrack => "LeftBrack"@,
            TokenType::RightBrack => "RightBrack"@,
            TokenType::LeftABrack => "LeftABrack"@,
            TokenType::RightABrack => "RightABrack"@,
            TokenType::Equal => "Equal"@,
            TokenType::Bang => "Bang"@,
            TokenType::Plus => "Plus"@,
            TokenType::Minus => "Minus"@,
            TokenType::Multify => "Multify"@,
            TokenType::Divide => "Divide"@,
            TokenType::Mod => "Mod"@,
            TokenType::LeftBShift => "LeftBShift"@,
            TokenType::RightBShift => "RightBShift"@,
            TokenType::BitAND => "BitAND"@,
            TokenType::BitOR => "BitOR"@,
            TokenType::BitXOR => "BitXOR"@,
            TokenType::PlusEqu => "PlusEqu"@,
            TokenType::MinusEqu => "MinusEqu"@,
            TokenType::MultifyEqu => "MultifyEqu"@,
            TokenType::DivideEqu => "DivideEqu"@,
            TokenType::ModEqu => "ModEqu"@,
            TokenType::LeftBShiftEqu => "LeftBShiftEqu"@,
            TokenType::RightBShiftEqu => "RightBShiftEqu"@,
            TokenType::BAndEqu => "BAndEqu"@,
            TokenType::BOrEqu => "BOrEqu"@,
            TokenType::BXorEqu => "BXorEqu"@,
            TokenType::Quote => "Quote"@,
            TokenType::DblQuote => "DblQuote"@,
            TokenType::Dot => "Dot"@,
            TokenType::Comma => "Comma"@,
            TokenType::Semicolon => "Semicolon"@,
            TokenType::DblColon => "DblColon"@,
            TokenType::Arrow => "Arrow"@,
            TokenType::Const => "Const"@,
            TokenType::Impl => "Impl"@,
            TokenType::Trait => "Trait"@,
            TokenType::Pub => "Pub"@,
            TokenType::Private => "Private"@,
            TokenType::If => "If"@,
            TokenType::While => "While"@,
            TokenType::For => "For"@,
            TokenType::Use => "Use"@,
            TokenType::Fn => "Fn"@,
            TokenType::LineComment => "LineComment"@,
            TokenType::LongComment => "LongComment"@,
            TokenType::BrokenLeftLongComment => "BrokenLeftLongComment"@,
        }
    }

    /// The name of the kind, for messages.
    pub fn name(self) -> (r: &'static str)
        ensures
            r@ == self.spec_name(),
    {
        match self {
            TokenType::Null => "Null",
            TokenType::Broken => "Broken",
            TokenType::String => "String",
            TokenType::Number => "Number",
            TokenType::LogicEqual => "LogicEqual",
            TokenType::LogicNotEqual => "LogicNotEqual",
            TokenType::LogicAND => "LogicAND",
            TokenType::LogicOR => "LogicOR",
            TokenType::LeftParen => "LeftParen",
            TokenType::RightParen => "RightParen",
            TokenType::LeftBrace => "LeftBrace",
            TokenType::RightBrace => "RightBrace",
            TokenType::LeftBrack => "LeftBrack",
            TokenType::RightBrack => "RightBrack",
            TokenType::LeftABrack => "LeftABrack",
            TokenType::RightABrack => "RightABrack",
            TokenType::Equal => "Equal",
            TokenType::Bang => "Bang",
            TokenType::Plus => "Plus",
            TokenType::Minus => "Minus",
            TokenType::Multify => "Multify",
            TokenType::Divide => "Divide",
            TokenType::Mod => "Mod",
            TokenType::LeftBShift => "LeftBShift",
            TokenType::RightBShift => "RightBShift",
            TokenType::BitAND => "BitAND",
            TokenType::BitOR => "BitOR",
            TokenType::BitXOR => "BitXOR",
            TokenType::PlusEqu => "PlusEqu",
            TokenType::MinusEqu => "MinusEqu",
            TokenType::MultifyEqu => "MultifyEqu",
            TokenType::DivideEqu => "DivideEqu",
            TokenType::ModEqu => "ModEqu",
            TokenType::LeftBShiftEqu => "LeftBShiftEqu",
            TokenType::RightBShiftEqu => "RightBShiftEqu",
            TokenType::BAndEqu => "BAndEqu",
            TokenType::BOrEqu => "BOrEqu",
            TokenType::BXorEqu => "BXorEqu",
            TokenType::Quote => "Quote",
            TokenType::DblQuote => "DblQuote",
            TokenType::Dot => "Dot",
            TokenType::Comma => "Comma",
            TokenType::Semicolon => "Semicolon",
            TokenType::DblColon => "DblColon",
            TokenType::Arrow => "Arrow",
            TokenType::Const => "Const",
            TokenType::Impl => "Impl",
            TokenType::Trait => "Trait",
            TokenType::Pub => "Pub",
            TokenType::Private => "Private",
            TokenType::If => "If",
            TokenType::While => "While",
            TokenType::For => "For",
            TokenType::Use => "Use",
            TokenType::Fn => "Fn",
            TokenType::LineComment => "LineComment",
            TokenType::LongComment => "LongComment",
            TokenType::BrokenLeftLongComment => "BrokenLeftLongComment",
        }
    }
}

/// What a token is to the contracts: its text and its kind.
pub struct TokenView {
    pub lexeme: Seq<char>,
    pub kind: TokenType,
}

/// A token: a span of source text and its kind.
pub struct Token {
    pub s: String,
    pub tp: TokenType,
}

impl View for Token {
    type V = TokenView;

    open spec fn view(&self) -> TokenView {
        TokenView { lexeme: self.s@, kind: self.tp }
    }
}

impl Token {
    /// A token with no text and no kind.
    pub fn new() -> (t: Self)
        ensures
            t@ == (TokenView { lexeme: Seq::<char>::empty(), kind: TokenType::Null }),
    {
        Token { s: String::new(), tp: TokenType::Null }
    }
}

impl Clone for Token {
    fn clone(&self) -> (t: Self)
        ensures
            t@ == self@,
    {
        Token { s: self.s.clone(), tp: self.tp }
    }
}

/// An entry of a table: a literal text and the kind that it stands for.
#[derive(Clone, Copy)]
pub struct TokenDict {
    pub s: &'static str,
    pub tp: TokenType,
}

impl View for TokenDict {
    type V = TokenView;

    open spec fn view(&self) -> TokenView {
        TokenView { lexeme: self.s@, kind: self.tp }
    }
}

/// The number of entries of `long_sp_operator`.
pub const LONG_SP_OPERATOR_LEN: usize = 19;

/// The operators of two and three characters, in the order in which they are
/// tried: the first entry that the input starts with wins.
pub open spec fn long_sp_operator() -> Seq<TokenView> {
    seq![
        TokenView { lexeme: "=="@, kind: TokenType::LogicEqual },
        TokenView { lexeme: "!="@, kind: TokenType::LogicNotEqual },
        TokenView { lexeme: "&&"@, kind: TokenType::LogicAND },
        TokenView { lexeme: "||"@, kind: TokenType::LogicOR },
        TokenView { lexeme: "<<"@, kind: TokenType::LeftBShift },
        TokenView { lexeme: ">>"@, kind: TokenType::RightBShift },
        TokenView { lexeme: "+="@, kind: TokenType::PlusEqu },
        TokenView { lexeme: "-="@, kind: TokenType::MinusEqu },
        TokenView { lexeme: "*="@, kind: TokenType::MultifyEqu },
        TokenView { lexeme: "/="@, kind: TokenType::DivideEqu },
        TokenView { lexeme: "%="@, kind: TokenType::ModEqu },
        TokenView { lexeme: "/="@, kind: TokenType::DivideEqu },
        TokenView { lexeme: "<<="@, kind: TokenType::LeftBShiftEqu },
        TokenView { lexeme: ">>="@, kind: TokenType::RightBShiftEqu },
        TokenView { lexeme: "&="@, kind: TokenType::BAndEqu },
        TokenView { lexeme: "|="@, kind: TokenType::BOrEqu },
        TokenView { lexeme: "^="@, kind: TokenType::BXorEqu },
        TokenView { lexeme: "::"@, kind: TokenType::DblColon },
        TokenView { lexeme: "->"@, kind: TokenType::Arrow },
    ]
}

/// The entry of the table of long operators at `i`.
pub fn long_sp_operator_entry(i: usize) -> (e: TokenDict)
    requires
        i < LONG_SP_OPERATOR_LEN,
    ensures
        e@ == long_sp_operator()[i as int],
{
    if i == 0 {
        TokenDict { s: "==", tp: TokenType::LogicEqual }
    } else if i == 1 {
        TokenDict { s: "!=", tp: TokenType::LogicNotEqual }
    } else if i == 2 {
        TokenDict { s: "&&", tp: TokenType::LogicAND }
    } else if i == 3 {
        TokenDict { s: "||", tp: TokenType::LogicOR }
    } else if i == 4 {
        TokenDict { s: "<<", tp: TokenType::LeftBShift }
    } else if i == 5 {
        TokenDict { s: ">>", tp: TokenType::RightBShift }
    } else if i == 6 {
        TokenDict { s: "+=", tp: TokenType::PlusEqu }
    } else if i == 7 {
        TokenDict { s: "-=", tp: TokenType::MinusEqu }
    } else if i == 8 {
        TokenDict { s: "*=", tp: TokenType::MultifyEqu }
    } else if i == 9 {
        TokenDict { s: "/=", tp: TokenType::DivideEqu }
    } else if i == 10 {
        TokenDict { s: "%=", tp: TokenType::ModEqu }
    } else if i == 11 {
        TokenDict { s: "/=", tp: TokenType::DivideEqu }
    } else if i == 12 {
        TokenDict { s: "<<=", tp: TokenType::LeftBShiftEqu }
    } else if i == 13 {
        TokenDict { s: ">>=", tp: TokenType::RightBShiftEqu }
    } else if i == 14 {
        TokenDict { s: "&=", tp: TokenType::BAndEqu }
    } else if i == 15 {
        TokenDict { s: "|=", tp: TokenType::BOrEqu }
    } else if i == 16 {
        TokenDict { s: "^=", tp: TokenType::BXorEqu }
    } else if i == 17 {
        TokenDict { s: "::", tp: TokenType::DblColon }
    } else {
        TokenDict { s: "->", tp: TokenType::Arrow }
    }
}

/// The number of entries of `short_sp_operator`.
pub const SHORT_SP_OPERATOR_LEN: usize = 23;

/// The operators of one character, tried when no long operator matches.
pub open spec fn short_sp_operator() -> Seq<TokenView> {
    seq![
        TokenView { lexeme: "("@, kind: TokenType::LeftParen },
        TokenView { lexeme: ")"@, kind: TokenType::RightParen },
        TokenView { lexeme: "{"@, kind: TokenType::LeftBrace },
        TokenView { lexeme: "}"@, kind: TokenType::RightBrace },
        TokenView { lexeme: "["@, kind: TokenType::LeftBrack },
        TokenView { lexeme: "]"@, kind: TokenType::RightBrack },
        TokenView { lexeme: "<"@, kind: TokenType::LeftABrack },
        TokenView { lexeme: ">"@, kind: TokenType::RightABrack },
        TokenView { lexeme: "="@, kind: TokenType::Equal },
        TokenView { lexeme: "!"@, kind: TokenType::Bang },
        TokenView { lexeme: "+"@, kind: TokenType::Plus },
        TokenView { lexeme: "-"@, kind: TokenType::Minus },
        TokenView { lexeme: "*"@, kind: TokenType::Multify },
        TokenView { lexeme: "/"@, kind: TokenType::Divide },
        TokenView { lexeme: "%"@, kind: TokenType::Mod },
        TokenView { lexeme: "&"@, kind: TokenType::BitAND },
        TokenView { lexeme: "|"@, kind: TokenType::BitOR },
        TokenView { lexeme: "^"@, kind: TokenType::BitXOR },
        TokenView { lexeme: "'"@, kind: TokenType::Quote },
        TokenView { lexeme: "\""@, kind: TokenType::DblQuote },
        TokenView { lexeme: "."@, kind: TokenType::Dot },
        TokenView { lexeme: ","@, kind: TokenType::Comma },
        TokenView { lexeme: ";"@, kind: TokenType::Semicolon },
    ]
}

/// The entry of the table of short operators at `i`.
pub fn short_sp_operator_entry(i: usize) -> (e: TokenDict)
    requires
        i < SHORT_SP_OPERATOR_LEN,
    ensures
        e@ == short_sp_operator()[i as int],
{
    if i == 0 {
        TokenDict { s: "(", tp: TokenType::LeftParen }
    } else if i == 1 {
        TokenDict { s: ")", tp: TokenType::RightParen }
    } else if i == 2 {
        TokenDict { s: "{", tp: TokenType::LeftBrace }
    } else if i == 3 {
        TokenDict { s: "}", tp: TokenType::RightBrace }
    } else if i == 4 {
        TokenDict { s: "[", tp: TokenType::LeftBrack }
    } else if i == 5 {
        TokenDict { s: "]", tp: TokenType::RightBrack }
    } else if i == 6 {
        TokenDict { s: "<", tp: TokenType::LeftABrack }
    } else if i == 7 {
        TokenDict { s: ">", tp: TokenType::RightABrack }
    } else if i == 8 {
        TokenDict { s: "=", tp: TokenType::Equal }
    } else if i == 9 {
        TokenDict { s: "!", tp: TokenType::Bang }
    } else if i == 10 {
        TokenDict { s: "+", tp: TokenType::Plus }
    } else if i == 11 {
        TokenDict { s: "-", tp: TokenType::Minus }
    } else if i == 12 {
        TokenDict { s: "*", tp: TokenType::Multify }
    } else if i == 13 {
        TokenDict { s: "/", tp: TokenType::Divide }
    } else if i == 14 {
        TokenDict { s: "%", tp: TokenType::Mod }
    } else if i == 15 {
        TokenDict { s: "&", tp: TokenType::BitAND }
    } else if i == 16 {
        TokenDict { s: "|", tp: TokenType::BitOR }
    } else if i == 17 {
        TokenDict { s: "^", tp: TokenType::BitXOR }
    } else if i == 18 {
        TokenDict { s: "'", tp: TokenType::Quote }
    } else if i == 19 {
        TokenDict { s: "\"", tp: TokenType::DblQuote }
    } else if i == 20 {
        TokenDict { s: ".", tp: TokenType::Dot }
    } else if i == 21 {
        TokenDict { s: ",", tp: TokenType::Comma }
    } else {
        TokenDict { s: ";", tp: TokenType::Semicolon }
    }
}

/// The number of entries of `keywords`.
pub const KEYWORDS_LEN: usize = 10;

/// The keywords: a word that equals one of them takes its kind.
pub open spec fn keywords() -> Seq<TokenView> {
    seq![
        TokenView { lexeme: "const"@, kind: TokenType::Const },
        TokenView { lexeme: "impl"@, kind: TokenType::Impl },
        TokenView { lexeme: "trait"@, kind: TokenType::Trait },
        TokenView { lexeme: "pub"@, kind: TokenType::Pub },
        TokenView { lexeme: "private"@, kind: TokenType::Private },
        TokenView { lexeme: "if"@, kind: TokenType::If },
        TokenView { lexeme: "while"@, kind: TokenType::While },
        TokenView { lexeme: "for"@, kind: TokenType::For },
        TokenView { lexeme: "use"@, kind: TokenType::Use },
        TokenView { lexeme: "fn"@, kind: TokenType::Fn },
    ]
}

/// The entry of the table of keywords at `i`.
pub fn keywords_entry(i: usize) -> (e: TokenDict)
    requires
        i < KEYWORDS_LEN,
    ensures
        e@ == keywords()[i as int],
{
    if i == 0 {
        TokenDict { s: "const", tp: TokenType::Const }
    } else if i == 1 {
        TokenDict { s: "impl", tp: TokenType::Impl }
    } else if i == 2 {
        TokenDict { s: "trait", tp: TokenType::Trait }
    } else if i == 3 {
        TokenDict { s: "pub", tp: TokenType::Pub }
    } else if i == 4 {
        TokenDict { s: "private", tp: TokenType::Private }
    } else if i == 5 {
        TokenDict { s: "if", tp: TokenType::If }
    } else if i == 6 {
        TokenDict { s: "while", tp: TokenType::While }
    } else if i == 7 {
        TokenDict { s: "for", tp: TokenType::For }
    } else if i == 8 {
        TokenDict { s: "use", tp: TokenType::Use }
    } else {
        TokenDict { s: "fn", tp: TokenType::Fn }
    }
}

} // verus!
