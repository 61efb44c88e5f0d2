use ide_cmm::compiler::lexer::analizar;
use ide_cmm::compiler::lexer::analyzer::analyze;
use ide_cmm::compiler::lexer::errors::{invalid_character, skip_whitespace};
use ide_cmm::compiler::lexer::handlers::LexerHandlers;
use ide_cmm::compiler::lexer::tokenizer::Tokenizer;

#[test]
fn test_standard_tokens() {
    let code = "int x = 5;";
    let (tokens, errors) = analyze(code);
    assert!(errors.is_empty(), "Expected no errors");
    assert_eq!(tokens.len(), 5);
    assert_eq!(tokens[0].token_type, "INT_T");
    assert_eq!(tokens[1].token_type, "ID");
    assert_eq!(tokens[1].lexeme, "x");
    assert_eq!(tokens[2].token_type, "ASIG");
    assert_eq!(tokens[2].lexeme, "=");
    assert_eq!(tokens[3].token_type, "INT");
    assert_eq!(tokens[3].lexeme, "5");
    assert_eq!(tokens[4].token_type, "SYM");
    assert_eq!(tokens[4].lexeme, ";");
}

#[test]
fn test_strings_and_chars() {
    let code = r#" "hello" 'a' "#;
    let (tokens, errors) = analyze(code);
    assert!(errors.is_empty(), "Expected no errors");
    assert_eq!(tokens.len(), 2);
    assert_eq!(tokens[0].token_type, "STRING");
    assert_eq!(tokens[0].lexeme, "\"hello\"");
    assert_eq!(tokens[1].token_type, "CHAR");
    assert_eq!(tokens[1].lexeme, "'a'");
}

#[test]
fn test_comments_ignored() {
    let code = "int // line comment\nx /* block comment */ = 5;";
    let (tokens, errors) = analyze(code);
    assert!(errors.is_empty(), "Expected no errors");
    assert_eq!(tokens.len(), 5);
    assert_eq!(tokens[0].token_type, "INT_T");
    assert_eq!(tokens[1].token_type, "ID");
    assert_eq!(tokens[1].lexeme, "x");
    assert_eq!(tokens[2].token_type, "ASIG");
}

#[test]
fn test_lexical_errors() {
    let code = "int @ = 5; /* unclosed";
    let (tokens, errors) = analyze(code);
    assert_eq!(errors.len(), 2, "Expected an invalid character error and an unclosed comment error");
    assert_eq!(tokens.len(), 4);
}

#[test]
fn test_real_and_until_alias_tokens() {
    let code = "real x; do x = x + 1; until x > 3;";
    let (tokens, errors) = analyze(code);
    assert!(errors.is_empty(), "Expected no errors: {:?}", errors);

    assert!(tokens.iter().any(|token| token.token_type == "FLOAT_T" && token.lexeme == "real"));
    assert!(tokens.iter().any(|token| token.token_type == "UNTIL" && token.lexeme == "until"));
}

#[test]
fn positions_count_lines_and_columns_from_one() {
    let (tokens, errors) = analyze("int x\n  y");
    assert!(errors.is_empty());
    let got: Vec<(&str, &str, usize, usize)> = tokens
        .iter()
        .map(|t| (t.token_type.as_str(), t.lexeme.as_str(), t.line, t.column))
        .collect();
    assert_eq!(got, vec![("INT_T", "int", 1, 1), ("ID", "x", 1, 5), ("ID", "y", 2, 3)]);
}

#[test]
fn positions_never_go_back() {
    let (tokens, errors) = analyze("main {\n int a, b;\n cin a; /* c\n d */ b = a ++ 1 @\n}");
    let mut last_line = 1;
    for t in &tokens {
        assert!(t.line >= 1 && t.column >= 1);
        assert!(t.line >= last_line);
        last_line = t.line;
    }
    for e in &errors {
        assert!(e.line >= 1 && e.column >= 1);
    }
}

#[test]
fn invalid_character_error() {
    let (tokens, errors) = analyze("@");
    assert!(tokens.is_empty());
    assert_eq!(errors.len(), 1);
    assert_eq!(errors[0].message, "Invalid character @");
    assert_eq!((errors[0].line, errors[0].column), (1, 1));
}

#[test]
fn unclosed_block_comment_error() {
    let (tokens, errors) = analyze("x /* never closed");
    assert_eq!(tokens.len(), 1);
    assert_eq!(errors.len(), 1);
    assert_eq!(errors[0].message, "Unclosed block comment");
    assert_eq!((errors[0].line, errors[0].column), (1, 3));
}

#[test]
fn unclosed_string_error() {
    let (tokens, errors) = analyze("\"abc");
    assert!(tokens.is_empty());
    assert_eq!(errors.len(), 1);
    assert_eq!(errors[0].message, "Unclosed string: '\"abc'");
    assert_eq!((errors[0].line, errors[0].column), (1, 1));
}

#[test]
fn unclosed_char_error() {
    let (tokens, errors) = analyze("'a");
    assert!(tokens.is_empty());
    assert_eq!(errors.len(), 1);
    assert_eq!(errors[0].message, "Unclosed char: ''a'");
}

#[test]
fn malformed_number_error() {
    let (tokens, errors) = analyze("3.x");
    assert_eq!(errors.len(), 1);
    assert_eq!(errors[0].message, "Malformed number: '3.'");
    assert_eq!((errors[0].line, errors[0].column), (1, 2));
    assert_eq!(tokens.len(), 1);
    assert_eq!(tokens[0].lexeme, "x");
    assert_eq!(tokens[0].column, 3);
}

#[test]
fn numbers_and_operators() {
    let (tokens, errors) = analyze("a+ +b && 2.5 <= c != d");
    assert!(errors.is_empty());
    let got: Vec<(&str, &str, usize)> =
        tokens.iter().map(|t| (t.token_type.as_str(), t.lexeme.as_str(), t.column)).collect();
    assert_eq!(
        got,
        vec![
            ("ID", "a", 1),
            ("OP", "++", 2),
            ("ID", "b", 5),
            ("OP", "&&", 7),
            ("FLOAT", "2.5", 10),
            ("REL", "<=", 14),
            ("ID", "c", 17),
            ("REL", "!=", 19),
            ("ID", "d", 22),
        ]
    );
}

#[test]
fn first_scanner_reads_operators_its_own_way() {
    let (tokens, errors) = analizar("a == b;");
    assert!(errors.is_empty());
    let got: Vec<(&str, &str, usize, usize)> = tokens
        .iter()
        .map(|t| (t.tipo.as_str(), t.lexema.as_str(), t.linea, t.columna))
        .collect();
    assert_eq!(got, vec![("ID", "a", 1, 1), ("OP", "==", 1, 3), ("ID", "b", 1, 6), ("SYM", ";", 1, 7)]);
}

#[test]
fn first_scanner_reports_errors() {
    let (_, errors) = analizar("x @");
    assert_eq!(errors.len(), 1);
    assert_eq!(errors[0].message, "Invalid character @");
    assert_eq!((errors[0].linea, errors[0].columna), (1, 3));
}

#[test]
fn keyword_types() {
    assert_eq!(Tokenizer::keyword_token_type("while"), "WHILE");
    assert_eq!(Tokenizer::keyword_token_type("real"), "FLOAT_T");
    assert_eq!(Tokenizer::keyword_token_type("until"), "UNTIL");
    assert_eq!(Tokenizer::keyword_token_type("int"), "INT_T");
    assert_eq!(Tokenizer::keyword_token_type("whilex"), "ID");
}

#[test]
fn character_classes() {
    assert!(Tokenizer::is_arithmetic('%'));
    assert!(!Tokenizer::is_arithmetic('+'));
    assert!(Tokenizer::is_relational('!'));
    assert!(!Tokenizer::is_relational('&'));
    assert!(Tokenizer::is_symbol(' '));
    assert!(Tokenizer::is_symbol(','));
    assert!(!Tokenizer::is_symbol('['));
    let chars: Vec<char> = "a&&".chars().collect();
    assert_eq!(Tokenizer::is_double_operator(&chars, 1), Some("&&".to_string()));
    assert_eq!(Tokenizer::is_double_operator(&chars, 2), None);
    assert_eq!(Tokenizer::is_double_operator(&chars, 0), None);
    let t = Tokenizer::new_token("ID", "x", 2, 3);
    assert_eq!((t.token_type.as_str(), t.lexeme.as_str(), t.line, t.column), ("ID", "x", 2, 3));
}

#[test]
fn whitespace_handler_moves_counters() {
    let (mut line, mut column, mut i) = (1, 4, 3);
    assert!(LexerHandlers::handle_whitespace('\n', &mut line, &mut column, &mut i));
    assert_eq!((line, column, i), (2, 1, 4));
    assert!(LexerHandlers::handle_whitespace('\t', &mut line, &mut column, &mut i));
    assert_eq!((line, column, i), (2, 2, 5));
    assert!(!LexerHandlers::handle_whitespace('x', &mut line, &mut column, &mut i));
    assert_eq!((line, column, i), (2, 2, 5));
}

#[test]
fn skip_whitespace_counts_breaks_and_blanks() {
    let chars: Vec<char> = "+ \n  +".chars().collect();
    assert_eq!(skip_whitespace(&chars, 1), (Some('+'), 5, 1, 2));
    let chars: Vec<char> = "+  ".chars().collect();
    assert_eq!(skip_whitespace(&chars, 1), (None, 3, 0, 2));
}

#[test]
fn invalid_character_message() {
    let e = invalid_character('$', 4, 9);
    assert_eq!(e.message, "Invalid character $");
    assert_eq!((e.line, e.column), (4, 9));
}

#[test]
fn plus_across_a_line_break() {
    let (tokens, errors) = analyze("+\n +x");
    assert!(errors.is_empty());
    assert_eq!(tokens[0].lexeme, "++");
    assert_eq!((tokens[0].line, tokens[0].column), (1, 1));
    assert_eq!(tokens[1].lexeme, "x");
    assert_eq!((tokens[1].line, tokens[1].column), (2, 3));
}

#[test]
fn handlers_go_by_the_character_they_are_given() {
    let chars: Vec<char> = "x".chars().collect();
    let (mut i, mut col) = (0, 1);
    let r = LexerHandlers::handle_number('5', &chars, 1, 1, &mut i, &mut col);
    let (t, e) = r.expect("a digit starts a number");
    let t = t.expect("a token");
    assert!(e.is_none());
    assert_eq!((t.token_type.as_str(), t.lexeme.as_str(), t.line, t.column), ("INT", "", 1, 1));
    assert_eq!((i, col), (0, 1));

    let chars: Vec<char> = "ab".chars().collect();
    let (mut i, mut col) = (0, 3);
    let t = LexerHandlers::handle_relational('<', &chars, 2, 3, &mut i, &mut col).expect("relational");
    assert_eq!((t.token_type.as_str(), t.lexeme.as_str()), ("REL", "<"));
    assert_eq!((i, col), (1, 4));
    assert!(LexerHandlers::handle_relational('a', &chars, 2, 3, &mut i, &mut col).is_none());
}

#[test]
fn handlers_at_the_end_of_the_text() {
    let chars: Vec<char> = Vec::new();
    let (mut i, mut line, mut col) = (0, 1, 1);
    let (t, e) = LexerHandlers::handle_string('"', &chars, 1, 1, &mut i, &mut line, &mut col).expect("a quote");
    assert!(t.is_none());
    assert_eq!(e.expect("unclosed").message, "Unclosed string: ''");
    assert_eq!((i, line, col), (2, 1, 2));

    let chars: Vec<char> = "12".chars().collect();
    let (mut i, mut col) = (2, 5);
    let t = LexerHandlers::handle_identifier('a', &chars, 1, 4, &mut i, &mut col).expect("a word");
    assert_eq!((t.token_type.as_str(), t.lexeme.as_str(), t.column), ("ID", "", 4));
    assert_eq!((i, col), (2, 5));

    let chars: Vec<char> = Vec::new();
    let (mut i, mut line, mut col) = (0, 1, 7);
    let t = LexerHandlers::handle_plus('+', &chars, 1, 7, &mut i, &mut line, &mut col).expect("a sign");
    assert_eq!((t.token_type.as_str(), t.lexeme.as_str()), ("ARIT", "+"));
    assert_eq!((i, line, col), (1, 1, 8));
}

#[test]
fn comment_handlers() {
    let chars: Vec<char> = "// x\ny".chars().collect();
    let (mut i, mut col) = (0, 1);
    assert!(LexerHandlers::handle_line_comment(&chars, '/', &mut i, &mut col));
    assert_eq!((i, col), (4, 5));

    let chars: Vec<char> = "/* a\n b */c".chars().collect();
    let (mut i, mut line, mut col) = (0, 1, 1);
    let r = LexerHandlers::handle_block_comment_start('/', &chars, 1, 1, &mut i, &mut line, &mut col);
    assert!(matches!(r, Some(Ok(()))));
    assert_eq!((i, line, col), (10, 2, 6));

    let chars: Vec<char> = "/* a".chars().collect();
    let (mut i, mut line, mut col) = (0, 1, 1);
    let r = LexerHandlers::handle_block_comment_start('/', &chars, 1, 1, &mut i, &mut line, &mut col);
    match r {
        Some(Err(e)) => {
            assert_eq!(e.message, "Unclosed block comment");
            assert_eq!((e.line, e.column), (1, 1));
        }
        _ => panic!("expected an unclosed comment"),
    }
    assert_eq!(i, 4);
}

#[test]
fn minus_pair_across_a_line_break_keeps_columns() {
    let (tokens, errors) = analyze("-\n-x");
    assert!(errors.is_empty());
    assert_eq!(tokens[0].lexeme, "--");
    assert_eq!((tokens[1].lexeme.as_str(), tokens[1].line, tokens[1].column), ("x", 2, 2));
    let chars: Vec<char> = "-\n-x".chars().collect();
    let (mut i, mut line, mut col) = (0, 1, 1);
    let t = LexerHandlers::handle_minus('-', &chars, 1, 1, &mut i, &mut line, &mut col).expect("a sign");
    assert_eq!((t.token_type.as_str(), t.lexeme.as_str(), t.line, t.column), ("OP", "--", 1, 1));
    assert_eq!((i, line, col), (3, 2, 2));
    let (tokens, _) = analizar("+\n  +y");
    assert_eq!((tokens[1].lexema.as_str(), tokens[1].linea, tokens[1].columna), ("y", 2, 4));
}

/// The index of (line, column) in `text`, both counted from 1.
fn index_of(text: &str, line: usize, column: usize) -> Option<usize> {
    let (mut l, mut c) = (1, 1);
    for (k, ch) in text.chars().enumerate() {
        if (l, c) == (line, column) {
            return Some(k);
        }
        if ch == '\n' {
            l += 1;
            c = 1;
        } else {
            c += 1;
        }
    }
    None
}

#[test]
fn tokens_and_errors_stand_where_their_text_is() {
    let text = "main {\n\tint a, b; /* x\n y */ a = 1.5 ^ b;\n  c - -\n\n  -d @ \"open";
    let chars: Vec<char> = text.chars().collect();
    let (tokens, errors) = analyze(text);
    let mut last = (0, 0);
    for t in &tokens {
        let k = index_of(text, t.line, t.column).expect("inside the text");
        let lex: Vec<char> = t.lexeme.chars().collect();
        assert_eq!(chars[k], lex[0], "{:?}", t);
        if t.lexeme != "--" && t.lexeme != "++" {
            assert_eq!(&chars[k..k + lex.len()], &lex[..], "{:?}", t);
        }
        assert!((t.line, t.column) > last);
        last = (t.line, t.column);
    }
    let d = tokens.iter().find(|t| t.lexeme == "d").expect("d");
    assert_eq!((d.line, d.column), (6, 4));
    assert_eq!(errors.len(), 2);
    let k = index_of(text, errors[0].line, errors[0].column).unwrap();
    assert_eq!(chars[k], '@');
    let k = index_of(text, errors[1].line, errors[1].column).unwrap();
    assert_eq!(chars[k], '"');
}

#[test]
fn first_scanner_positions_grow() {
    let (tokens, _) = analizar("a <= b\n\t++\n+ c /* x");
    let mut last = (0, 0);
    for t in &tokens {
        assert!((t.linea, t.columna) > last);
        last = (t.linea, t.columna);
    }
    let c = tokens.iter().find(|t| t.lexema == "c").expect("c");
    assert_eq!((c.linea, c.columna), (3, 3));
}
