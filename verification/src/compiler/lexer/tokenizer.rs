use vstd::prelude::*;
use crate::compiler::lexer::model::{
    base_keyword_type, is_arithmetic, is_double_pair, is_relational, is_symbol, keyword_type,
};
use crate::models::Token;
use crate::models::token::TokenView;
use crate::text::{str_eq, string_from_chars};

verus! {

pub struct Tokenizer;

impl Tokenizer {
    pub fn new_token(token_type: &str, lexeme: &str, line: usize, column: usize) -> (t: Token)
        ensures
            t@ == (TokenView {
                token_type: token_type@,
                lexeme: lexeme@,
                line: line as int,
                column: column as int,
            }),
    {
        Token::new(token_type, lexeme, line, column)
    }

    /// The token type of a word: its keyword tag, or `ID`.
    pub fn keyword_token_type(lexeme: &str) -> (r: &'static str)
        ensures
            r@ == keyword_type(lexeme@),
    {
        if str_eq(lexeme, "real") {
            "FLOAT_T"
        } else if str_eq(lexeme, "until") {
            "UNTIL"
        } else {
            Self::base_keyword_token_type(lexeme)
        }
    }

    /// The keyword table without the spellings `real` and `until`.
    pub(crate) fn base_keyword_token_type(lexeme: &str) -> (r: &'static str)
        ensures
            r@ == base_keyword_type(lexeme@),
    {
        if str_eq(lexeme, "if") {
            "IF"
        } else if str_eq(lexeme, "else") {
            "ELSE"
        } else if str_eq(lexeme, "end") {
            "END"
        } else if str_eq(lexeme, "do") {
            "DO"
        } else if str_eq(lexeme, "while") {
            "WHILE"
        } else if str_eq(lexeme, "for") {
            "FOR"
        } else if str_eq(lexeme, "switch") {
            "SWITCH"
        } else if str_eq(lexeme, "case") {
            "CASE"
        } else if str_eq(lexeme, "return") {
            "RETURN"
        } else if str_eq(lexeme, "void") {
            "VOID"
        } else if str_eq(lexeme, "int") {
            "INT_T"
        } else if str_eq(lexeme, "float") {
            "FLOAT_T"
        } else if str_eq(lexeme, "char") {
            "CHAR_T"
        } else if str_eq(lexeme, "bool") {
            "BOOL_T"
        } else if str_eq(lexeme, "true") {
            "TRUE"
        } else if str_eq(lexeme, "false") {
            "FALSE"
        } else if str_eq(lexeme, "main") {
            "MAIN"
        } else if str_eq(lexeme, "cin") {
            "CIN"
        } else if str_eq(lexeme, "cout") {
            "COUT"
        } else if str_eq(lexeme, "include") {
            "INCLUDE"
        } else if str_eq(lexeme, "define") {
            "DEFINE"
        } else if str_eq(lexeme, "struct") {
            "STRUCT"
        } else if str_eq(lexeme, "break") {
            "BREAK"
        } else if str_eq(lexeme, "continue") {
            "CONTINUE"
        } else {
            "ID"
        }
    }

    /// The pair `chars[i..i + 2]` when it is `&&` or `||`.
    pub fn is_double_operator(chars: &[char], i: usize) -> (r: Option<String>)
        ensures
            r is Some <==> (i + 1 < chars@.len() && is_double_pair(
                chars@[i as int],
                chars@[i + 1],
                false,
            )),
            r matches Some(p) ==> p@ == chars@.subrange(i as int, i + 2),
    {
        if i >= chars.len() || i + 1 >= chars.len() {
            return None;
        }
        let pair = string_from_chars(chars, i, i + 2);
        if (chars[i] == '&' && chars[i + 1] == '&') || (chars[i] == '|' && chars[i + 1] == '|') {
            Some(pair)
        } else {
            None
        }
    }

    /// One of `* / % ^`.
    pub fn is_arithmetic(c: char) -> (b: bool)
        ensures
            b == is_arithmetic(c),
    {
        c == '*' || c == '/' || c == '%' || c == '^'
    }

    /// One of `= < > !`.
    pub fn is_relational(c: char) -> (b: bool)
        ensures
            b == is_relational(c),
    {
        c == '=' || c == '<' || c == '>' || c == '!'
    }

    /// One of `( ) { } ; ,` or a blank.
    pub fn is_symbol(c: char) -> (b: bool)
        ensures
            b == is_symbol(c),
    {
        c == '(' || c == ')' || c == '{' || c == '}' || c == ';' || c == ',' || c == ' '
    }
}

} // verus!
