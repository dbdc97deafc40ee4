use exprparse::ast::{BinExpr, CallExpr, Expr};
use exprparse::expr::{
    get_op_prec, parse_bin_rhs, parse_bool_expr, parse_expr, parse_iden, parse_num_expr,
    parse_paren_expr, parse_primary_expr, parse_str_expr,
};
use exprparse::lexer::{
    Diag, Lexer, Token, TOK_COMMA, TOK_LPAREN, TOK_MINUS, TOK_PLUS, TOK_RPAREN, TOK_SLASH,
    TOK_STAR,
};

fn iden(s: &str) -> Token {
    Token::Iden(s.to_string())
}

fn punct(k: i32) -> Token {
    Token::Punct(k)
}

fn var(s: &str) -> Expr {
    Expr::Var(s.to_string())
}

fn bin(l: Expr, op: i32, r: Expr) -> Expr {
    Expr::Bin(Box::new(BinExpr::new(l, op, r)))
}

fn call(name: &str, args: Vec<Expr>) -> Expr {
    Expr::Call(Box::new(CallExpr::new(name.to_string(), args)))
}

#[test]
fn precedence_table() {
    assert_eq!(get_op_prec(TOK_STAR), 40);
    assert_eq!(get_op_prec(TOK_SLASH), 40);
    assert_eq!(get_op_prec(TOK_PLUS), 20);
    assert_eq!(get_op_prec(TOK_MINUS), 20);
    assert_eq!(get_op_prec(TOK_LPAREN), -1);
    assert_eq!(get_op_prec(TOK_COMMA), -1);
    assert_eq!(get_op_prec(-5), -1);
}

#[test]
fn single_int_literal() {
    let mut lexer = Lexer::new(vec![Token::Int(42)]);
    let r = parse_expr(&mut lexer);
    assert_eq!(r, Some(Expr::Int(42)));
    assert!(lexer.empty());
    assert_eq!(lexer.diag, None);
}

#[test]
fn single_str_literal() {
    let mut lexer = Lexer::new(vec![Token::StrLit("hi".to_string())]);
    let r = parse_expr(&mut lexer);
    assert_eq!(r, Some(Expr::Str("hi".to_string())));
    assert!(lexer.empty());
    assert_eq!(lexer.diag, None);
}

#[test]
fn single_bool_literal() {
    let mut lexer = Lexer::new(vec![Token::Bool(true)]);
    let r = parse_expr(&mut lexer);
    assert_eq!(r, Some(Expr::Bool(true)));
    assert!(lexer.empty());
    assert_eq!(lexer.diag, None);
}

#[test]
fn higher_precedence_binds_tighter() {
    // a + b * c
    let mut lexer = Lexer::new(vec![
        iden("a"),
        punct(TOK_PLUS),
        iden("b"),
        punct(TOK_STAR),
        iden("c"),
    ]);
    let r = parse_expr(&mut lexer);
    let expected = bin(var("a"), TOK_PLUS, bin(var("b"), TOK_STAR, var("c")));
    assert_eq!(r, Some(expected));
    assert!(lexer.empty());
    assert_eq!(lexer.diag, None);
}

#[test]
fn equal_and_lower_precedence_left_associative() {
    // a * b + c
    let mut lexer = Lexer::new(vec![
        iden("a"),
        punct(TOK_STAR),
        iden("b"),
        punct(TOK_PLUS),
        iden("c"),
    ]);
    let r = parse_expr(&mut lexer);
    let expected = bin(bin(var("a"), TOK_STAR, var("b")), TOK_PLUS, var("c"));
    assert_eq!(r, Some(expected));
    assert!(lexer.empty());
}

#[test]
fn equal_precedence_chain_left_associative() {
    // a + b - c
    let mut lexer = Lexer::new(vec![
        iden("a"),
        punct(TOK_PLUS),
        iden("b"),
        punct(TOK_MINUS),
        iden("c"),
    ]);
    let r = parse_expr(&mut lexer);
    let expected = bin(bin(var("a"), TOK_PLUS, var("b")), TOK_MINUS, var("c"));
    assert_eq!(r, Some(expected));
    assert!(lexer.empty());
}

#[test]
fn division_binds_like_multiplication() {
    // a - b / c
    let mut lexer = Lexer::new(vec![
        iden("a"),
        punct(TOK_MINUS),
        iden("b"),
        punct(TOK_SLASH),
        iden("c"),
    ]);
    let r = parse_expr(&mut lexer);
    let expected = bin(var("a"), TOK_MINUS, bin(var("b"), TOK_SLASH, var("c")));
    assert_eq!(r, Some(expected));
    assert!(lexer.empty());
}

#[test]
fn mixed_chain_folds_in_order() {
    // a + b * c + d
    let mut lexer = Lexer::new(vec![
        iden("a"),
        punct(TOK_PLUS),
        iden("b"),
        punct(TOK_STAR),
        iden("c"),
        punct(TOK_PLUS),
        iden("d"),
    ]);
    let r = parse_expr(&mut lexer);
    let expected = bin(
        bin(var("a"), TOK_PLUS, bin(var("b"), TOK_STAR, var("c"))),
        TOK_PLUS,
        var("d"),
    );
    assert_eq!(r, Some(expected));
    assert!(lexer.empty());
}

#[test]
fn parentheses_override_precedence() {
    // (a + b) * c
    let mut lexer = Lexer::new(vec![
        punct(TOK_LPAREN),
        iden("a"),
        punct(TOK_PLUS),
        iden("b"),
        punct(TOK_RPAREN),
        punct(TOK_STAR),
        iden("c"),
    ]);
    let r = parse_expr(&mut lexer);
    let expected = bin(bin(var("a"), TOK_PLUS, var("b")), TOK_STAR, var("c"));
    assert_eq!(r, Some(expected));
    assert!(lexer.empty());
    assert_eq!(lexer.diag, None);
}

#[test]
fn call_with_expression_arguments() {
    // f(a, b + c)
    let mut lexer = Lexer::new(vec![
        iden("f"),
        punct(TOK_LPAREN),
        iden("a"),
        punct(TOK_COMMA),
        iden("b"),
        punct(TOK_PLUS),
        iden("c"),
        punct(TOK_RPAREN),
    ]);
    let r = parse_expr(&mut lexer);
    let expected = call("f", vec![var("a"), bin(var("b"), TOK_PLUS, var("c"))]);
    assert_eq!(r, Some(expected));
    assert!(lexer.empty());
    assert_eq!(lexer.diag, None);
}

#[test]
fn call_with_empty_argument_list() {
    // f()
    let mut lexer = Lexer::new(vec![iden("f"), punct(TOK_LPAREN), punct(TOK_RPAREN)]);
    let r = parse_expr(&mut lexer);
    assert_eq!(r, Some(call("f", vec![])));
    assert!(lexer.empty());
    assert_eq!(lexer.diag, None);
}

#[test]
fn nested_calls() {
    // f(g(x), y)
    let mut lexer = Lexer::new(vec![
        iden("f"),
        punct(TOK_LPAREN),
        iden("g"),
        punct(TOK_LPAREN),
        iden("x"),
        punct(TOK_RPAREN),
        punct(TOK_COMMA),
        iden("y"),
        punct(TOK_RPAREN),
    ]);
    let r = parse_expr(&mut lexer);
    let expected = call("f", vec![call("g", vec![var("x")]), var("y")]);
    assert_eq!(r, Some(expected));
    assert!(lexer.empty());
}

#[test]
fn bare_identifier_consumes_one_token() {
    let mut lexer = Lexer::new(vec![iden("a"), iden("b")]);
    let r = parse_expr(&mut lexer);
    assert_eq!(r, Some(var("a")));
    assert_eq!(lexer.pos, 1);
    assert_eq!(lexer.diag, None);
}

#[test]
fn reparse_of_parenthesized_form_gives_same_tree() {
    // a + b * c, and its fully parenthesized spelling (a + (b * c)),
    // parse to the same tree.
    let mut lexer = Lexer::new(vec![
        iden("a"),
        punct(TOK_PLUS),
        iden("b"),
        punct(TOK_STAR),
        iden("c"),
    ]);
    let first = parse_expr(&mut lexer).unwrap();
    let mut lexer2 = Lexer::new(vec![
        punct(TOK_LPAREN),
        iden("a"),
        punct(TOK_PLUS),
        punct(TOK_LPAREN),
        iden("b"),
        punct(TOK_STAR),
        iden("c"),
        punct(TOK_RPAREN),
        punct(TOK_RPAREN),
    ]);
    let second = parse_expr(&mut lexer2).unwrap();
    assert_eq!(first, second);
    assert!(lexer2.empty());
}

#[test]
fn missing_comma_reports_syntax_error() {
    // f(a b)
    let mut lexer = Lexer::new(vec![
        iden("f"),
        punct(TOK_LPAREN),
        iden("a"),
        iden("b"),
        punct(TOK_RPAREN),
    ]);
    let r = parse_expr(&mut lexer);
    assert_eq!(r, None);
    assert_eq!(lexer.diag, Some(Diag::Expected(TOK_COMMA)));
}

#[test]
fn unclosed_paren_reports_expected_delimiter() {
    // ( a
    let mut lexer = Lexer::new(vec![punct(TOK_LPAREN), iden("a")]);
    let r = parse_expr(&mut lexer);
    assert_eq!(r, None);
    assert_eq!(lexer.diag, Some(Diag::Expected(TOK_RPAREN)));
}

#[test]
fn unclosed_call_reports_expected_delimiter() {
    // f(a
    let mut lexer = Lexer::new(vec![iden("f"), punct(TOK_LPAREN), iden("a")]);
    let r = parse_expr(&mut lexer);
    assert_eq!(r, None);
    assert_eq!(lexer.diag, Some(Diag::Expected(TOK_COMMA)));
}

#[test]
fn stray_closing_paren_reports_expected_delimiter() {
    // parse_paren_expr where the cursor stands on `)` rather than `(`
    let mut lexer = Lexer::new(vec![punct(TOK_RPAREN)]);
    let r = parse_paren_expr(&mut lexer);
    assert_eq!(r, None);
    assert_eq!(lexer.diag, Some(Diag::Expected(TOK_LPAREN)));
}

#[test]
fn operator_without_right_hand_side_reports_error() {
    // a +
    let mut lexer = Lexer::new(vec![iden("a"), punct(TOK_PLUS)]);
    let r = parse_expr(&mut lexer);
    assert_eq!(r, None);
    assert_eq!(lexer.diag, Some(Diag::ExpectedExpr));
}

#[test]
fn operator_followed_by_non_expression_reports_error() {
    // a + )
    let mut lexer = Lexer::new(vec![iden("a"), punct(TOK_PLUS), punct(TOK_RPAREN)]);
    let r = parse_expr(&mut lexer);
    assert_eq!(r, None);
    assert_eq!(lexer.diag, Some(Diag::ExpectedExpr));
}

#[test]
fn unrecognized_leading_token_yields_null_without_consuming() {
    let mut lexer = Lexer::new(vec![punct(TOK_COMMA), iden("a")]);
    let r = parse_expr(&mut lexer);
    assert_eq!(r, Some(Expr::Null));
    assert_eq!(lexer.pos, 0);
    assert_eq!(lexer.diag, None);
}

#[test]
fn num_parser_consumes_one_token() {
    let mut lexer = Lexer::new(vec![Token::Int(7), Token::Int(8)]);
    let r = parse_num_expr(&mut lexer);
    assert_eq!(r, Some(Expr::Int(7)));
    assert_eq!(lexer.pos, 1);
}

#[test]
fn num_parser_rejects_other_token_kinds() {
    let mut lexer = Lexer::new(vec![Token::Bool(false)]);
    let r = parse_num_expr(&mut lexer);
    assert_eq!(r, None);
    assert_eq!(lexer.pos, 1);
}

#[test]
fn str_parser_reads_text_tokens() {
    let mut lexer = Lexer::new(vec![Token::StrLit("s".to_string())]);
    let r = parse_str_expr(&mut lexer);
    assert_eq!(r, Some(Expr::Str("s".to_string())));
    assert_eq!(lexer.pos, 1);
}

#[test]
fn bool_parser_reads_boolean_tokens() {
    let mut lexer = Lexer::new(vec![Token::Bool(false)]);
    let r = parse_bool_expr(&mut lexer);
    assert_eq!(r, Some(Expr::Bool(false)));
    assert_eq!(lexer.pos, 1);
}

#[test]
fn iden_parser_reads_variable() {
    let mut lexer = Lexer::new(vec![iden("x"), punct(TOK_PLUS)]);
    let r = parse_iden(&mut lexer);
    assert_eq!(r, Some(var("x")));
    assert_eq!(lexer.pos, 1);
}

#[test]
fn paren_parser_returns_inner_expression() {
    let mut lexer = Lexer::new(vec![punct(TOK_LPAREN), Token::Int(3), punct(TOK_RPAREN)]);
    let r = parse_paren_expr(&mut lexer);
    assert_eq!(r, Some(Expr::Int(3)));
    assert!(lexer.empty());
}

#[test]
fn primary_parser_dispatches_on_token_kind() {
    let mut lexer = Lexer::new(vec![Token::Int(5)]);
    assert_eq!(parse_primary_expr(&mut lexer), Some(Expr::Int(5)));
    let mut lexer2 = Lexer::new(vec![iden("v")]);
    assert_eq!(parse_primary_expr(&mut lexer2), Some(var("v")));
    let mut lexer3 = Lexer::new(vec![punct(TOK_STAR)]);
    assert_eq!(parse_primary_expr(&mut lexer3), Some(Expr::Null));
    assert_eq!(lexer3.pos, 0);
}

#[test]
fn bin_rhs_returns_lhs_when_no_operator_follows() {
    let mut lexer = Lexer::new(vec![]);
    let r = parse_bin_rhs(&mut lexer, 0, var("a"));
    assert_eq!(r, Some(var("a")));
    let mut lexer2 = Lexer::new(vec![punct(TOK_RPAREN)]);
    let r2 = parse_bin_rhs(&mut lexer2, 0, var("a"));
    assert_eq!(r2, Some(var("a")));
    assert_eq!(lexer2.pos, 0);
}

#[test]
fn bin_rhs_respects_minimum_precedence() {
    // with a threshold above 20, `+ b` stays unconsumed
    let mut lexer = Lexer::new(vec![punct(TOK_PLUS), iden("b")]);
    let r = parse_bin_rhs(&mut lexer, 21, var("a"));
    assert_eq!(r, Some(var("a")));
    assert_eq!(lexer.pos, 0);
}

#[test]
fn trailing_comma_in_call_is_accepted() {
    // f(a,)
    let mut lexer = Lexer::new(vec![
        iden("f"),
        punct(TOK_LPAREN),
        iden("a"),
        punct(TOK_COMMA),
        punct(TOK_RPAREN),
    ]);
    let r = parse_expr(&mut lexer);
    assert_eq!(r, Some(call("f", vec![var("a")])));
    assert!(lexer.empty());
}

#[test]
fn expression_stops_before_unmatched_closing_paren() {
    // a ) — the expression ends at `a`; the `)` stays for the caller
    let mut lexer = Lexer::new(vec![iden("a"), punct(TOK_RPAREN)]);
    let r = parse_expr(&mut lexer);
    assert_eq!(r, Some(var("a")));
    assert_eq!(lexer.pos, 1);
    assert_eq!(lexer.diag, None);
}

#[test]
fn rendered_tokens_reparse_to_same_tree() {
    // f(a, b + c) * 2 — parse it, render the tree back to tokens, parse
    // those: the same tree comes back and the rendering is consumed whole.
    let mut lexer = Lexer::new(vec![
        iden("f"),
        punct(TOK_LPAREN),
        iden("a"),
        punct(TOK_COMMA),
        iden("b"),
        punct(TOK_PLUS),
        iden("c"),
        punct(TOK_RPAREN),
        punct(TOK_STAR),
        Token::Int(2),
    ]);
    let tree = parse_expr(&mut lexer).unwrap();
    let toks = tree.to_tokens();
    let mut lexer2 = Lexer::new(toks);
    let again = parse_expr(&mut lexer2).unwrap();
    assert_eq!(again, tree);
    assert!(lexer2.empty());
    assert_eq!(lexer2.diag, None);
}

#[test]
fn rendered_leaf_reparses_to_same_tree() {
    let tree = Expr::Int(-7);
    let toks = tree.to_tokens();
    let mut lexer = Lexer::new(toks);
    assert_eq!(parse_expr(&mut lexer), Some(Expr::Int(-7)));
    assert!(lexer.empty());
}
