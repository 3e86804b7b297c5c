//! Kinds of tokens and what each does to a stack of types.

use vstd::prelude::*;

verus! {

/// The kind of a token.
#[derive(Debug, Clone, Copy, PartialEq, Eq, Structural)]
pub enum TokenType {
    Number,
    Bool,
    Add,
    String,
    Identifier,
}

/// What a token does to the stack of types.
#[derive(Debug)]
pub enum TokenApplication {
    /// Returns self on the application
    Value,
    /// Consumes the given number of values and returns the given type
    Consume { values: Vec<TokenType>, return_type: TokenType },
}

impl TokenType {
    /// What a token of this kind does to the stack of types: a literal
    /// puts its own kind on it, `Add` takes two numbers and puts back one.
    /// Nothing is said of identifiers.
    pub fn application(&self) -> (r: Vec<TokenApplication>)
        requires
            !(self is Identifier),
        ensures
            r@.len() == 1,
            self is Add ==> r@[0] is Consume && r@[0]->values@ == seq![
                TokenType::Number,
                TokenType::Number,
            ] && r@[0]->return_type == TokenType::Number,
            !(self is Add) ==> r@[0] is Value,
    {
        let mut out: Vec<TokenApplication> = Vec::new();
        match self {
            TokenType::Add => {
                let mut values: Vec<TokenType> = Vec::new();
                values.push(TokenType::Number);
                values.push(TokenType::Number);
                assert(values@ =~= seq![TokenType::Number, TokenType::Number]);
                out.push(TokenApplication::Consume { values, return_type: TokenType::Number });
            },
            _ => {
                out.push(TokenApplication::Value);
            },
        }
        out
    }
}

} // verus!
