use vstd::prelude::*;
use crate::text::push_char;

verus! {

/// A diagnostic as plain values: its message and the line and column it
/// points at.
pub struct LexicalErrorView {
    pub message: Seq<char>,
    pub line: int,
    pub column: int,
}

/// A syntax diagnostic as plain values.
pub struct SyntaxErrorView {
    pub message: Seq<char>,
    pub line: int,
    pub column: int,
}

pub open spec fn lexical_error_view(message: Seq<char>, line: int, column: int) -> LexicalErrorView {
    LexicalErrorView { message, line, column }
}

pub open spec fn syntax_error_view(message: Seq<char>, line: int, column: int) -> SyntaxErrorView {
    SyntaxErrorView { message, line, column }
}

/// `prefix ++ content ++ "'"`
pub open spec fn quoted_message(prefix: Seq<char>, content: Seq<char>) -> Seq<char> {
    prefix + content + "'"@
}

#[derive(Debug, Clone)]
pub struct LexicalError {
    pub message: String,
    pub line: usize,
    pub column: usize,
}

impl View for LexicalError {
    type V = LexicalErrorView;

    open spec fn view(&self) -> LexicalErrorView {
        LexicalErrorView { message: self.message@, line: self.line as int, column: self.column as int }
    }
}

impl DeepView for LexicalError {
    type V = LexicalErrorView;

    open spec fn deep_view(&self) -> LexicalErrorView {
        self@
    }
}

fn quoted(prefix: &str, content: &str) -> (s: String)
    ensures
        s@ == quoted_message(prefix@, content@),
{
    let mut s = prefix.to_owned();
    s.append(content);
    s.append("'");
    s
}

impl LexicalError {
    pub fn new(message: &str, line: usize, column: usize) -> (e: LexicalError)
        ensures
            e@ == lexical_error_view(message@, line as int, column as int),
    {
        LexicalError { message: message.to_owned(), line, column }
    }

    pub fn unclosed_block_comment(line: usize, column: usize) -> (e: LexicalError)
        ensures
            e@ == lexical_error_view("Unclosed block comment"@, line as int, column as int),
    {
        Self::new("Unclosed block comment", line, column)
    }

    /// "Unclosed string: '<content>'"
    pub fn unclosed_string(content: &str, line: usize, column: usize) -> (e: LexicalError)
        ensures
            e@ == lexical_error_view(
                quoted_message("Unclosed string: '"@, content@),
                line as int,
                column as int,
            ),
    {
        LexicalError { message: quoted("Unclosed string: '", content), line, column }
    }

    /// "Unclosed char: '<content>'"
    pub fn unclosed_char(content: &str, line: usize, column: usize) -> (e: LexicalError)
        ensures
            e@ == lexical_error_view(
                quoted_message("Unclosed char: '"@, content@),
                line as int,
                column as int,
            ),
    {
        LexicalError { message: quoted("Unclosed char: '", content), line, column }
    }

    /// "Malformed number: '<lexeme>'"
    pub fn malformed_number(lexeme: &str, line: usize, column: usize) -> (e: LexicalError)
        ensures
            e@ == lexical_error_view(
                quoted_message("Malformed number: '"@, lexeme@),
                line as int,
                column as int,
            ),
    {
        LexicalError { message: quoted("Malformed number: '", lexeme), line, column }
    }

    /// "Invalid character <c>"
    pub fn invalid_character(c: char, line: usize, column: usize) -> (e: LexicalError)
        ensures
            e@ == lexical_error_view("Invalid character "@.push(c), line as int, column as int),
    {
        let mut message = "Invalid character ".to_owned();
        push_char(&mut message, c);
        LexicalError { message, line, column }
    }
}

#[derive(Debug, Clone)]
pub struct SyntaxError {
    pub message: String,
    pub line: usize,
    pub column: usize,
}

impl View for SyntaxError {
    type V = SyntaxErrorView;

    open spec fn view(&self) -> SyntaxErrorView {
        SyntaxErrorView { message: self.message@, line: self.line as int, column: self.column as int }
    }
}

impl DeepView for SyntaxError {
    type V = SyntaxErrorView;

    open spec fn deep_view(&self) -> SyntaxErrorView {
        self@
    }
}

impl SyntaxError {
    pub fn new(message: &str, line: usize, column: usize) -> (e: SyntaxError)
        ensures
            e@ == syntax_error_view(message@, line as int, column as int),
    {
        SyntaxError { message: message.to_owned(), line, column }
    }

    /// "<message>, found '<found>'"
    pub fn expected_token(message: &str, found: &str, line: usize, column: usize) -> (e: SyntaxError)
        ensures
            e@ == syntax_error_view(
                quoted_message(message@ + ", found '"@, found@),
                line as int,
                column as int,
            ),
    {
        let mut text = message.to_owned();
        text.append(", found '");
        text.append(found);
        text.append("'");
        SyntaxError { message: text, line, column }
    }
}

} // verus!
