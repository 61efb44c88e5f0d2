use ide_cmm::compiler::lexer::analyzer::analyze;
use ide_cmm::compiler::parser::base::Parser;
use ide_cmm::compiler::parser::{build_ast, build_ast_from_tokens, build_ast_with_errors};
use ide_cmm::models::{AstNode, SyntaxError, Token};

#[test]
fn test_valid_program() {
    let code = "main { int x; }";
    let (tokens, lex_errors) = analyze(code);
    assert!(lex_errors.is_empty(), "Expected no lexical errors: {:?}", lex_errors);

    let (ast, syn_errors) = build_ast_from_tokens(&tokens);
    assert!(syn_errors.is_empty(), "Expected no syntax errors: {:?}", syn_errors);

    // AST structure: Program -> MainProgram -> (main, DeclarationList)
    assert_eq!(ast.label, "Program");
    assert_eq!(ast.children.len(), 1);

    let main_prog = &ast.children[0];
    assert_eq!(main_prog.label, "MainProgram");
    assert!(main_prog.children.len() >= 2); // 'main' and 'DeclarationList'

    assert_eq!(main_prog.children[0].label, "main");
    assert_eq!(main_prog.children[1].label, "DeclarationList");
}

#[test]
fn test_syntax_errors() {
    let code = "main { int x }"; // missing semicolon
    let (tokens, lex_errors) = analyze(code);
    assert!(lex_errors.is_empty(), "Expected no lexical errors");

    let (_, syn_errors) = build_ast_from_tokens(&tokens);
    assert!(!syn_errors.is_empty(), "Expected syntax error due to missing semicolon");
}

fn shape(n: &AstNode) -> String {
    let mut s = n.label.clone();
    if let (Some(l), Some(c)) = (n.line, n.column) {
        s.push_str(&format!("@{}:{}", l, c));
    }
    if !n.children.is_empty() {
        let parts: Vec<String> = n.children.iter().map(shape).collect();
        s.push_str(&format!("[{}]", parts.join(", ")));
    }
    s
}

fn messages(errors: &[SyntaxError]) -> Vec<(String, usize, usize)> {
    errors.iter().map(|e| (e.message.clone(), e.line, e.column)).collect()
}

#[test]
fn declaration_tree_with_positions() {
    let ast = build_ast("main { int x; }");
    assert_eq!(
        shape(&ast),
        "Program[MainProgram@1:1[main@1:1, DeclarationList[VariableDeclaration@1:8[type: int@1:8, Identifiers[x@1:12]]]]]"
    );
}

#[test]
fn missing_semicolon_errors() {
    let (_, errors) = build_ast_with_errors("main { int x }");
    assert_eq!(
        messages(&errors),
        vec![
            ("Expected ';' after declaration".to_string(), 1, 14),
            ("Expected '}' at end of program".to_string(), 0, 0),
        ]
    );
}

#[test]
fn program_without_main() {
    let (ast, errors) = build_ast_with_errors("x = 5;");
    assert_eq!(
        messages(&errors),
        vec![("Expected 'main'".to_string(), 1, 1), ("Expected '{' after main".to_string(), 1, 1)]
    );
    assert_eq!(shape(&ast), "Program[MainProgram@1:1]");
}

#[test]
fn empty_source() {
    let (ast, errors) = build_ast_with_errors("");
    assert_eq!(shape(&ast), "Program[MainProgram@0:0]");
    assert_eq!(
        messages(&errors),
        vec![("Expected 'main'".to_string(), 0, 0), ("Expected '{' after main".to_string(), 0, 0)]
    );
}

#[test]
fn assignment_and_expression_tree() {
    let (ast, errors) = build_ast_with_errors("main { a = 1 + 2 * b; }");
    assert!(errors.is_empty(), "{:?}", messages(&errors));
    let decls = &ast.children[0].children[1];
    assert_eq!(decls.label, "DeclarationList");
    assert_eq!(decls.children.len(), 1);
    assert_eq!(decls.children[0].label, "Assignment");
    assert_eq!(decls.children[0].children[0].label, "id: a");
    assert_eq!(decls.children[0].children[1].label, "ExpressionStatement");
}

#[test]
fn unexpected_token_in_declaration_list() {
    let (_, errors) = build_ast_with_errors("main { 5 }");
    assert_eq!(
        messages(&errors),
        vec![("Unexpected token '5' in declaration list".to_string(), 1, 8)]
    );
}

#[test]
fn parser_over_hand_made_tokens() {
    let tokens = vec![
        Token::new("MAIN", "main", 1, 1),
        Token::new("SYM", "{", 1, 6),
        Token::new("SYM", "}", 1, 7),
    ];
    let mut parser = Parser::new(&tokens);
    let ast = parser.parse();
    assert!(parser.errors.is_empty());
    assert_eq!(shape(&ast), "Program[MainProgram@1:1[main@1:1, DeclarationList]]");
}

#[test]
fn expression_precedence_tree() {
    let (ast, errors) = build_ast_with_errors("main { a = 1 + 2 * b; }");
    assert!(errors.is_empty(), "{:?}", messages(&errors));
    assert_eq!(
        shape(&ast),
        "Program[MainProgram@1:1[main@1:1, DeclarationList[Assignment@1:8[id: a@1:8, ExpressionStatement[AddOp(+)@1:14[number: 1@1:12, MulOp(*)@1:18[number: 2@1:16, id: b@1:20]]]]]]]"
    );
}

#[test]
fn while_loop_tree() {
    let (ast, errors) = build_ast_with_errors("main { while x < 3 { x++; } }");
    assert!(errors.is_empty(), "{:?}", messages(&errors));
    assert_eq!(
        shape(&ast),
        "Program[MainProgram@1:1[main@1:1, DeclarationList[Iteration@1:8[while@1:8, Relational(<)@1:16[id: x@1:14, number: 3@1:18], WhileBody[ExpressionStatement@1:22[Postfix(++)@1:23[id: x@1:22]]]]]]]"
    );
}

#[test]
fn do_until_tree() {
    let (ast, errors) = build_ast_with_errors("main { do { x = x - 1; } until x == 0; }");
    assert!(errors.is_empty(), "{:?}", messages(&errors));
    let decls = &ast.children[0].children[1];
    assert_eq!(
        shape(&decls.children[0]),
        "Repetition@1:8[do@1:8, DoBody[Assignment@1:13[id: x@1:13, ExpressionStatement[AddOp(-)@1:19[id: x@1:17, number: 1@1:21]]]], until@1:26, Relational(==)@1:34[id: x@1:32, number: 0@1:37]]"
    );
}

#[test]
fn output_with_two_less_than_signs() {
    let (ast, errors) = build_ast_with_errors("main { cout << \"hi\"; }");
    assert_eq!(
        messages(&errors),
        vec![
            ("Expected '<<' after cout".to_string(), 1, 13),
            ("Unexpected component '<'".to_string(), 1, 13),
        ]
    );
    let decls = &ast.children[0].children[1];
    assert_eq!(
        shape(&decls.children[0]),
        "Output@1:8[OutputChain[Relational(<)@1:14[ErrorComponent@1:13, string: \"hi\"@1:16]]]"
    );
}

#[test]
fn the_ways_into_the_parser_agree() {
    let src = "main { int a; a = 2 @ 3; cout << a }";
    let (tokens, lex_errors) = analyze(src);
    assert_eq!(lex_errors.len(), 1);
    let (with_errors, errors) = build_ast_with_errors(src);
    let (from_tokens, token_errors) = build_ast_from_tokens(&tokens);
    assert_eq!(shape(&build_ast(src)), shape(&with_errors));
    assert_eq!(shape(&with_errors), shape(&from_tokens));
    assert_eq!(messages(&errors), messages(&token_errors));
    assert!(errors.iter().all(|e| !e.message.starts_with("Invalid character")));
}

#[test]
fn parse_again_keeps_earlier_errors() {
    let tokens = vec![Token::new("ID", "x", 1, 1)];
    let mut parser = Parser::new(&tokens);
    parser.parse();
    let first = messages(&parser.errors);
    assert!(!first.is_empty());
    parser.parse();
    assert_eq!(&messages(&parser.errors)[..first.len()], &first[..]);
    assert_eq!(parser.pos, 1);
}
