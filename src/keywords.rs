//! The fixed table of reserved words.
use vstd::prelude::*;

use crate::tokens::TokenType;

verus! {

/// The token type of a reserved word, or `None` for any other text.
pub open spec fn keyword_type(w: Seq<char>) -> Option<TokenType> {
    if w == "and"@ {
        Some(TokenType::And)
    } else if w == "class"@ {
        Some(TokenType::Class)
    } else if w == "else"@ {
        Some(TokenType::Else)
    } else if w == "false"@ {
        Some(TokenType::False)
    } else if w == "for"@ {
        Some(TokenType::For)
    } else if w == "fun"@ {
        Some(TokenType::Fun)
    } else if w == "if"@ {
        Some(TokenType::If)
    } else if w == "nil"@ {
        Some(TokenType::Nil)
    } else if w == "or"@ {
        Some(TokenType::Or)
    } else if w == "print"@ {
        Some(TokenType::Print)
    } else if w == "return"@ {
        Some(TokenType::Return)
    } else if w == "super"@ {
        Some(TokenType::Super)
    } else if w == "this"@ {
        Some(TokenType::This)
    } else if w == "true"@ {
        Some(TokenType::True)
    } else if w == "var"@ {
        Some(TokenType::Var)
    } else if w == "while"@ {
        Some(TokenType::While)
    } else {
        None
    }
}

/// The token type of a word: its reserved-word type, else `Identifier`.
pub open spec fn word_type(w: Seq<char>) -> TokenType {
    match keyword_type(w) {
        Some(t) => t,
        None => TokenType::Identifier,
    }
}

fn is_word(w: &String, k: &str) -> (r: bool)
    ensures
        r == (w@ == k@),
{
    *w == String::from_str(k)
}

/// Looks a word up in the reserved-word table.
pub fn lookup_keyword(w: &String) -> (r: Option<TokenType>)
    ensures
        r == keyword_type(w@),
{
    if is_word(w, "and") {
        Some(TokenType::And)
    } else if is_word(w, "class") {
        Some(TokenType::Class)
    } else if is_word(w, "else") {
        Some(TokenType::Else)
    } else if is_word(w, "false") {
        Some(TokenType::False)
    } else if is_word(w, "for") {
        Some(TokenType::For)
    } else if is_word(w, "fun") {
        Some(TokenType::Fun)
    } else if is_word(w, "if") {
        Some(TokenType::If)
    } else if is_word(w, "nil") {
        Some(TokenType::Nil)
    } else if is_word(w, "or") {
        Some(TokenType::Or)
    } else if is_word(w, "print") {
        Some(TokenType::Print)
    } else if is_word(w, "return") {
        Some(TokenType::Return)
    } else if is_word(w, "super") {
        Some(TokenType::Super)
    } else if is_word(w, "this") {
        Some(TokenType::This)
    } else if is_word(w, "true") {
        Some(TokenType::True)
    } else if is_word(w, "var") {
        Some(TokenType::Var)
    } else if is_word(w, "while") {
        Some(TokenType::While)
    } else {
        None
    }
}

} // verus!
