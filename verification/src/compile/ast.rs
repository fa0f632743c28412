//! The syntax tree that a parser folds tokens into.

use vstd::prelude::*;
use crate::compile::token::{Token, TokenType, TokenView};

verus! {

/// What a node of the syntax tree stands for.
#[allow(non_camel_case_types)]
#[derive(Clone, Copy, PartialEq, Eq, Structural, Debug)]
pub enum ASTtype {
    Super,
    CallFunction,
    CallFunction_arg,
    Bunch,
    Fucntion,
    FnIdent,
    FnRetType,
    CodeBlock,
    Match,
    MatchCase,
    If,
    For,
    While,
    Return,
    Trait,
    /// `const`, `static` and the like.
    VariableAttr,
    VariableType,
    VariableName,
}

/// A node of the syntax tree: a token, what it stands for, and the nodes
/// below it.
pub struct AST {
    pub token: Token,
    pub tp: ASTtype,
    pub next: Vec<AST>,
}

impl AST {
    /// A node that stands above everything, with an empty token and nothing
    /// below it.
    pub fn new() -> (a: Self)
        ensures
            a.token@ == (TokenView { lexeme: Seq::<char>::empty(), kind: TokenType::Null }),
            a.tp == ASTtype::Super,
            a.next@.len() == 0,
    {
        AST { token: Token::new(), tp: ASTtype::Super, next: Vec::new() }
    }
}

} // verus!
