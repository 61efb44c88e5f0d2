use ide_cmm::models::Token;
use ide_cmm::ui::menu::actions::{
    find_char_offset, find_next_range, lexical_token_color, position_link, token_entry,
    tokens_file_name,
};
use ide_cmm::ui::menu::navigator::ErrorNavigator;
use ide_cmm::ui::panels::ast_view::{classify_label, label_color, tree_prefix, LabelClass};

#[test]
fn token_colors() {
    assert_eq!(lexical_token_color("MAIN", "main"), "#569cd6");
    assert_eq!(lexical_token_color("FLOAT_T", "real"), "#569cd6");
    assert_eq!(lexical_token_color("INT", "5"), "#b5cea8");
    assert_eq!(lexical_token_color("CHAR", "'a'"), "#ce9178");
    assert_eq!(lexical_token_color("ID", "x"), "#ff57f4");
    assert_eq!(lexical_token_color("SYM", ";"), "#d7ba7d");
    assert_eq!(lexical_token_color("ASIG", "="), "#f44747");
    assert_eq!(lexical_token_color("REL", "="), "#f44747");
    assert_eq!(lexical_token_color("REL", "<"), "#569cd6");
    assert_eq!(lexical_token_color("UNTIL", "until"), "#ffffff");
}

#[test]
fn label_colors_dark_and_light() {
    assert_eq!(label_color("ErrorComponent", true), "#f44747");
    assert_eq!(label_color("UnknownStatement", false), "#d91919");
    assert_eq!(label_color("id: x", false), "#000000");
    assert_eq!(label_color("id: x", true), "#ff57f4");
    assert_eq!(label_color("number: 5", true), "#b5cea8");
    assert_eq!(label_color("number: 5", false), "#098658");
    assert_eq!(label_color("string: \"a\"", false), "#a31515");
    assert_eq!(label_color("bool: true", true), "#569cd6");
    assert_eq!(label_color("type: int", false), "#0000ff");
    assert_eq!(label_color("main", true), "#569cd6");
    assert_eq!(label_color("ExpressionStatement", false), "#0000ff");
    assert_eq!(label_color("Not", false), "#0000ff");
    assert_eq!(label_color("Relational(<)", true), "#569cd6");
    assert_eq!(label_color("Assignment", true), "#f44747");
    assert_eq!(label_color("AddOp(+)", false), "#000000");
    assert_eq!(label_color("Program", true), "#ffffff");
    assert_eq!(label_color("Program", false), "#000000");
}

#[test]
fn label_classes() {
    assert_eq!(classify_label("Unexpected end"), LabelClass::Error);
    assert_eq!(classify_label("id:"), LabelClass::Id);
    assert_eq!(classify_label("x id:"), LabelClass::Plain);
    assert_eq!(classify_label("ThenBlock"), LabelClass::Statement);
    assert_eq!(classify_label("Postfix(++)"), LabelClass::Operator);
}

#[test]
fn tree_prefixes() {
    assert_eq!(tree_prefix(&[]), "");
    assert_eq!(tree_prefix(&[true]), "└── ");
    assert_eq!(tree_prefix(&[false]), "├── ");
    assert_eq!(tree_prefix(&[false, true, false]), "│     ├── ");
    assert_eq!(tree_prefix(&[false, false]), "│  ├── ");
    assert_eq!(tree_prefix(&[true, true]), "   └── ");
}

#[test]
fn find_offsets() {
    assert_eq!(find_char_offset("hello world", "o", 0), Some(4));
    assert_eq!(find_char_offset("hello world", "o", 5), Some(7));
    assert_eq!(find_char_offset("hello world", "o", 8), None);
    assert_eq!(find_char_offset("hello world", "", 0), None);
    assert_eq!(find_char_offset("hello world", "d", 11), None);
    assert_eq!(find_char_offset("axxx", "xx", 0), Some(1));
    assert_eq!(find_char_offset("añb", "b", 0), Some(2));
    assert_eq!(find_char_offset("ab", "abc", 0), None);
}

#[test]
fn search_wraps_around() {
    assert_eq!(find_next_range("abcabc", "bc", 3), Some((4, 6)));
    assert_eq!(find_next_range("abcabc", "bc", 5), Some((1, 3)));
    assert_eq!(find_next_range("abc", "z", 0), None);
    assert_eq!(find_next_range("abc", "", 1), None);
    assert_eq!(find_next_range("ñañ", "ñ", 1), Some((2, 3)));
}

#[test]
fn positions_from_panel_lines() {
    assert_eq!(ErrorNavigator::parse_position("ID: 'x' (3:5)"), Some((3, 5)));
    assert_eq!(ErrorNavigator::parse_position("SYM: '(' (2:3)"), Some((2, 3)));
    assert_eq!(ErrorNavigator::parse_position("a (1:2) b ( 4: 7 )"), Some((4, 7)));
    assert_eq!(ErrorNavigator::parse_position("Syntax error: x (0:0)"), None);
    assert_eq!(ErrorNavigator::parse_position("no link"), None);
    assert_eq!(ErrorNavigator::parse_position("x ()"), None);
    assert_eq!(ErrorNavigator::parse_position("x (12)"), None);
    assert_eq!(ErrorNavigator::parse_position("x (a:1)"), None);
    assert_eq!(ErrorNavigator::parse_position("x (1:2"), None);
    assert_eq!(ErrorNavigator::parse_position("x )1:2("), None);
}

#[test]
fn links_lead_back() {
    assert_eq!(position_link(3, 14), "(3:14)");
    let t = Token::new("SYM", ")", 7, 21);
    let entry = token_entry(&t);
    assert_eq!(entry, "SYM: ')' ");
    let line = format!("{}{}", entry, position_link(t.line, t.column));
    assert_eq!(ErrorNavigator::parse_position(&line), Some((7, 21)));
}

#[test]
fn token_file_names() {
    assert_eq!(tokens_file_name(Some("prog.cmm")), "prog.cmm.tokens");
    assert_eq!(tokens_file_name(None), "untitled.c--.tokens");
}
