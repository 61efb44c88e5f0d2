use ide_cmm::compiler::lexer::analyzer::analyze;
use ide_cmm::compiler::parser::parse_tokens_from_text;
use ide_cmm::compiler::parser::utils::tokens_to_text;
use ide_cmm::models::Token;

fn fields(tokens: &[Token]) -> Vec<(String, String, usize, usize)> {
    tokens
        .iter()
        .map(|t| (t.token_type.clone(), t.lexeme.clone(), t.line, t.column))
        .collect()
}

fn f(t: &str, l: &str, line: usize, column: usize) -> (String, String, usize, usize) {
    (t.to_string(), l.to_string(), line, column)
}

#[test]
fn reads_one_token_per_line() {
    let tokens = parse_tokens_from_text("INT_T int 1 1\nID x 1 5\n");
    assert_eq!(fields(&tokens), vec![f("INT_T", "int", 1, 1), f("ID", "x", 1, 5)]);
}

#[test]
fn lexeme_keeps_its_spaces() {
    let tokens = parse_tokens_from_text("STRING \"a b\" 2 7\r\n  ID   y 2 3  ");
    assert_eq!(fields(&tokens), vec![f("STRING", "\"a b\"", 2, 7), f("ID", "  y", 2, 3)]);
}

#[test]
fn unreadable_numbers_become_zero() {
    let tokens = parse_tokens_from_text("SYM ; x y\nID z +3 -4");
    assert_eq!(fields(&tokens), vec![f("SYM", ";", 0, 0), f("ID", "z", 3, 0)]);
}

#[test]
fn short_and_blank_lines_are_skipped() {
    let tokens = parse_tokens_from_text("\n   \nbad line\nA 1 2\nID w 9 9");
    assert_eq!(fields(&tokens), vec![f("ID", "w", 9, 9)]);
    assert!(parse_tokens_from_text("").is_empty());
}

#[test]
fn writes_one_token_per_line() {
    let (tokens, _) = analyze("int x;");
    assert_eq!(tokens_to_text(&tokens), "INT_T int 1 1\nID x 1 5\nSYM ; 1 6\n");
    assert_eq!(tokens_to_text(&[]), "");
}

#[test]
fn written_tokens_read_back() {
    let (tokens, _) = analyze("main {\n  int a, b;\n  cout << \"x y\";\n  a = 10.5 * b;\n}");
    let back = parse_tokens_from_text(&tokens_to_text(&tokens));
    assert_eq!(fields(&back), fields(&tokens));
}
