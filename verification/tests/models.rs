use ide_cmm::models::{AstNode, LexicalError, SyntaxError, Token};

#[test]
fn ast_node_building() {
    let mut n = AstNode::new("Block").with_pos(2, 4);
    assert_eq!(n.label, "Block");
    assert_eq!((n.line, n.column), (Some(2), Some(4)));
    n.add_child(AstNode::new("x"));
    n.add_child(AstNode::new("y").with_opt_pos(Some(1), None));
    assert_eq!(n.children.len(), 2);
    assert_eq!(n.children[1].label, "y");
    assert_eq!((n.children[1].line, n.children[1].column), (Some(1), None));
    let n = n.with_opt_pos(None, None);
    assert_eq!((n.line, n.column), (None, None));
    let d = AstNode::default();
    assert_eq!(d.label, "");
    assert!(d.children.is_empty());
    assert_eq!((d.line, d.column), (None, None));
}

#[test]
fn lexical_error_messages() {
    assert_eq!(LexicalError::new("m", 1, 2).message, "m");
    assert_eq!(LexicalError::unclosed_block_comment(1, 2).message, "Unclosed block comment");
    assert_eq!(LexicalError::unclosed_string("\"ab", 1, 2).message, "Unclosed string: '\"ab'");
    assert_eq!(LexicalError::unclosed_char("'a", 1, 2).message, "Unclosed char: ''a'");
    assert_eq!(LexicalError::malformed_number("1.", 3, 4).message, "Malformed number: '1.'");
    let e = LexicalError::invalid_character('#', 5, 6);
    assert_eq!((e.message.as_str(), e.line, e.column), ("Invalid character #", 5, 6));
}

#[test]
fn syntax_error_messages() {
    let e = SyntaxError::new("Expected ';'", 3, 9);
    assert_eq!((e.message.as_str(), e.line, e.column), ("Expected ';'", 3, 9));
    let e = SyntaxError::expected_token("Expected ID", "5", 1, 2);
    assert_eq!(e.message, "Expected ID, found '5'");
}

#[test]
fn token_fields() {
    let t = Token::new("ID", "abc", 4, 2);
    assert_eq!((t.token_type.as_str(), t.lexeme.as_str(), t.line, t.column), ("ID", "abc", 4, 2));
}
