use vstd::prelude::*;

verus! {

/// A token as plain values: its type tag, its text and the line and column
/// (both counted from 1) of its first character.
pub struct TokenView {
    pub token_type: Seq<char>,
    pub lexeme: Seq<char>,
    pub line: int,
    pub column: int,
}

#[derive(Debug, Clone)]
pub struct Token {
    pub token_type: String,
    pub lexeme: String,
    pub line: usize,
    pub column: usize,
}

impl View for Token {
    type V = TokenView;

    open spec fn view(&self) -> TokenView {
        TokenView {
            token_type: self.token_type@,
            lexeme: self.lexeme@,
            line: self.line as int,
            column: self.column as int,
        }
    }
}

impl DeepView for Token {
    type V = TokenView;

    open spec fn deep_view(&self) -> TokenView {
        self@
    }
}

impl Token {
    pub fn new(token_type: &str, lexeme: &str, line: usize, column: usize) -> (t: Token)
        ensures
            t@ == (TokenView {
                token_type: token_type@,
                lexeme: lexeme@,
                line: line as int,
                column: column as int,
            }),
    {
        Token { token_type: token_type.to_owned(), lexeme: lexeme.to_owned(), line, column }
    }
}

} // verus!
