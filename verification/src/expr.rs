//! The parser: primary-expression dispatch, identifier/call
//! disambiguation, parenthesized grouping, and precedence climbing for
//! binary operators.
//!
//! The whole parse is specified by the mutually recursive spec functions
//! `spec_parse_expr`, `spec_parse_primary`, `spec_parse_iden`,
//! `spec_parse_paren`, `spec_parse_args` and `spec_parse_bin_rhs`, which
//! say, for every token stream and position, exactly which tree comes
//! back, how far the cursor moves, and which diagnostic is recorded when
//! the input is malformed. Each executable parsing function is proved to
//! follow its spec function.

use vstd::prelude::*;

use crate::ast::{BinExpr, CallExpr, Expr, ExprV};
use crate::lexer::{kind_of, Diag, Lexer, TokV, Token};
use crate::lexer::{TOK_COMMA, TOK_LPAREN, TOK_MINUS, TOK_PLUS, TOK_RPAREN, TOK_SLASH, TOK_STAR};

verus! {

/// Binding strength of a binary-operator kind code: `*` and `/` bind at
/// 40, `+` and `-` at 20; any other code is no binary operator and gets -1.
pub open spec fn op_prec(kind: int) -> int {
    if kind == TOK_STAR as int || kind == TOK_SLASH as int {
        40
    } else if kind == TOK_PLUS as int || kind == TOK_MINUS as int {
        20
    } else {
        -1
    }
}

/// The binding strength of a binary-operator kind code.
pub fn get_op_prec(op: i32) -> (r: i32)
    ensures
        r as int == op_prec(op as int),
{
    if op == TOK_STAR || op == TOK_SLASH {
        40
    } else if op == TOK_PLUS || op == TOK_MINUS {
        20
    } else {
        -1
    }
}

/// Outcome of parsing one expression: the tree and the position just past
/// it, or the diagnostic reported and the position where parsing halted.
pub ghost enum PRes {
    Parsed { e: ExprV, next: int },
    Failed { d: Diag, next: int },
}

/// Outcome of parsing a call's argument list, from just past the `(` to
/// just past the `)`.
pub ghost enum ARes {
    Parsed { args: Seq<ExprV>, next: int },
    Failed { d: Diag, next: int },
}

/// `n`, but never below `lo` nor past the end of `t`. The parser's spec
/// functions apply this to the positions that come back from their
/// recursive calls; a parse never moves the cursor backwards nor past the
/// end, so neither bound ever bites, but they make the recursion measure
/// visibly decrease.
pub open spec fn norm_pos(t: Seq<TokV>, lo: int, n: int) -> int {
    if n < lo {
        lo
    } else if n > t.len() {
        t.len() as int
    } else {
        n
    }
}

/// What the primary-expression dispatcher produces at position `p`:
/// a leaf for a literal token, `spec_parse_iden` for an identifier,
/// `spec_parse_paren` for `(`, and `Null` — consuming nothing — for any
/// other token.
pub open spec fn spec_parse_primary(t: Seq<TokV>, p: int) -> PRes
    recommends
        0 <= p < t.len(),
    decreases t.len() - p, 1int,
{
    if !(0 <= p < t.len()) {
        PRes::Parsed { e: ExprV::Null, next: p }
    } else {
        match t[p] {
            TokV::Int(v) => PRes::Parsed { e: ExprV::Int(v), next: p + 1 },
            TokV::StrLit(s) => PRes::Parsed { e: ExprV::Str(s), next: p + 1 },
            TokV::Bool(b) => PRes::Parsed { e: ExprV::Bool(b), next: p + 1 },
            TokV::Iden(_) => spec_parse_iden(t, p),
            TokV::Punct(c) => if c == TOK_LPAREN {
                spec_parse_paren(t, p)
            } else {
                PRes::Parsed { e: ExprV::Null, next: p }
            },
        }
    }
}

/// What the grouping parser produces at position `p`: it requires `(`,
/// parses one full expression, requires `)`, and returns the inner tree;
/// a missing delimiter is reported as `Expected` of that delimiter.
pub open spec fn spec_parse_paren(t: Seq<TokV>, p: int) -> PRes
    decreases t.len() - p, 0int,
{
    if !(0 <= p < t.len()) || kind_of(t[p]) != TOK_LPAREN as int {
        PRes::Failed { d: Diag::Expected(TOK_LPAREN), next: p }
    } else if p + 1 >= t.len() {
        PRes::Failed { d: Diag::Expected(TOK_RPAREN), next: p + 1 }
    } else {
        match spec_parse_expr(t, p + 1) {
            PRes::Failed { d, next } => PRes::Failed { d, next },
            PRes::Parsed { e, next } => if 0 <= next < t.len() && kind_of(t[next])
                == TOK_RPAREN as int {
                PRes::Parsed { e, next: next + 1 }
            } else {
                PRes::Failed { d: Diag::Expected(TOK_RPAREN), next }
            },
        }
    }
}

/// What the identifier/call parser produces at an identifier token: the
/// bare variable when no `(` follows the name, else the call whose
/// arguments `spec_parse_args` collects.
pub open spec fn spec_parse_iden(t: Seq<TokV>, p: int) -> PRes
    recommends
        0 <= p < t.len(),
        t[p] is Iden,
    decreases t.len() - p, 0int,
{
    if !(0 <= p < t.len()) || !(t[p] is Iden) {
        PRes::Parsed { e: ExprV::Null, next: p }
    } else {
        let name = t[p]->Iden_0;
        if p + 1 >= t.len() || kind_of(t[p + 1]) != TOK_LPAREN as int {
            PRes::Parsed { e: ExprV::Var(name), next: p + 1 }
        } else {
            match spec_parse_args(t, p + 2, Seq::empty()) {
                ARes::Parsed { args, next } => PRes::Parsed { e: ExprV::Call(name, args), next },
                ARes::Failed { d, next } => PRes::Failed { d, next },
            }
        }
    }
}

/// What the argument-list loop produces from position `p` (just past `(`
/// or past a `,`), having collected `acc` so far: arguments accumulate
/// until `)`; between arguments a `,` is required; a missing `,` or a
/// missing closing `)` is reported as `Expected` of it.
pub open spec fn spec_parse_args(t: Seq<TokV>, p: int, acc: Seq<ExprV>) -> ARes
    decreases t.len() - p, 3int,
{
    if !(0 <= p < t.len()) {
        ARes::Failed { d: Diag::Expected(TOK_RPAREN), next: p }
    } else if kind_of(t[p]) == TOK_RPAREN as int {
        ARes::Parsed { args: acc, next: p + 1 }
    } else {
        match spec_parse_expr(t, p) {
            PRes::Failed { d, next } => ARes::Failed { d, next },
            PRes::Parsed { e, next } => {
                let n = norm_pos(t, p, next);
                if 0 <= n < t.len() && kind_of(t[n]) == TOK_RPAREN as int {
                    ARes::Parsed { args: acc.push(e), next: n + 1 }
                } else if 0 <= n < t.len() && kind_of(t[n]) == TOK_COMMA as int {
                    spec_parse_args(t, n + 1, acc.push(e))
                } else {
                    ARes::Failed { d: Diag::Expected(TOK_COMMA), next: n }
                }
            },
        }
    }
}

/// What the precedence-climbing loop produces from position `p` with the
/// already-parsed `lhs` and threshold `prec`: while the next token is a
/// binary operator binding at least as tightly as `prec`, it consumes the
/// operator, parses the right-hand side (re-climbing above the operator's
/// strength while a stronger operator follows), and folds the pair into a
/// new left-hand side. A missing or invalid expression after an operator
/// is reported as `ExpectedExpr`.
pub open spec fn spec_parse_bin_rhs(t: Seq<TokV>, p: int, prec: int, lhs: ExprV) -> PRes
    decreases t.len() - p, 0int,
{
    if !(0 <= p < t.len()) {
        PRes::Parsed { e: lhs, next: p }
    } else {
        let k = kind_of(t[p]);
        if op_prec(k) < prec {
            PRes::Parsed { e: lhs, next: p }
        } else if p + 1 >= t.len() {
            PRes::Failed { d: Diag::ExpectedExpr, next: p + 1 }
        } else {
            match spec_parse_primary(t, p + 1) {
                PRes::Failed { d, next } => PRes::Failed { d, next },
                PRes::Parsed { e: rhs, next } => if rhs is Null {
                    PRes::Failed { d: Diag::ExpectedExpr, next }
                } else {
                    let n = norm_pos(t, p + 2, next);
                    if 0 <= n < t.len() && op_prec(kind_of(t[n])) > op_prec(k) {
                        match spec_parse_bin_rhs(t, n, op_prec(k) + 1, rhs) {
                            PRes::Failed { d, next } => PRes::Failed { d, next },
                            PRes::Parsed { e: rhs2, next } => spec_parse_bin_rhs(
                                t,
                                norm_pos(t, n, next),
                                prec,
                                ExprV::Bin(Box::new(lhs), k, Box::new(rhs2)),
                            ),
                        }
                    } else {
                        spec_parse_bin_rhs(
                            t,
                            n,
                            prec,
                            ExprV::Bin(Box::new(lhs), k, Box::new(rhs)),
                        )
                    }
                },
            }
        }
    }
}

/// What the top-level entry point produces at position `p`: one primary
/// expression, then the precedence-climbing loop at the lowest threshold.
pub open spec fn spec_parse_expr(t: Seq<TokV>, p: int) -> PRes
    recommends
        0 <= p < t.len(),
    decreases t.len() - p, 2int,
{
    if !(0 <= p < t.len()) {
        PRes::Parsed { e: ExprV::Null, next: p }
    } else {
        match spec_parse_primary(t, p) {
            PRes::Failed { d, next } => PRes::Failed { d, next },
            PRes::Parsed { e, next } => spec_parse_bin_rhs(t, norm_pos(t, p, next), 0, e),
        }
    }
}

/// How a parsing function's result and final cursor relate to the outcome
/// `res` its spec function gives: on success the tree models `res`'s tree,
/// the cursor stands just past it and no diagnostic is recorded; on a
/// syntax error nothing comes back, the cursor stands where parsing
/// halted, and the diagnostic is exactly `res`'s. The cursor never moves
/// backwards and the stream is never changed.
pub open spec fn parse_post(pre: Lexer, post: Lexer, r: Option<Expr>, res: PRes) -> bool {
    &&& post.tokens == pre.tokens
    &&& pre.at() <= post.at() <= pre.toks().len()
    &&& match res {
        PRes::Parsed { e, next } => {
            &&& r matches Some(x) && x@ == e
            &&& post.at() == next
            &&& post.diag is None
        },
        PRes::Failed { d, next } => {
            &&& r is None
            &&& post.at() == next
            &&& post.diag == Some(d)
        },
    }
}

/// Parse one integer-literal expression: consume exactly one token and
/// produce `Int` of its payload, or nothing when that token carries no
/// integer. A token must remain: a literal is only asked for where a
/// token is expected.
pub fn parse_num_expr(lexer: &mut Lexer) -> (r: Option<Expr>)
    requires
        old(lexer).wf(),
        old(lexer).diag is None,
        old(lexer).at() < old(lexer).toks().len(),
    ensures
        final(lexer).tokens == old(lexer).tokens,
        final(lexer).diag is None,
        final(lexer).at() == old(lexer).at() + 1,
        match old(lexer).toks()[old(lexer).at()] {
            TokV::Int(v) => r matches Some(x) && x@ == ExprV::Int(v),
            _ => r is None,
        },
{
    let expr: Option<Expr> = match lexer.front().get_int_val() {
        Some(x) => Some(Expr::Int(x)),
        None => None,
    };
    lexer.eat();
    expr
}

/// Parse one string-literal expression: consume exactly one token and
/// produce `Str` of its text, or nothing when that token carries no text.
/// A token must remain.
pub fn parse_str_expr(lexer: &mut Lexer) -> (r: Option<Expr>)
    requires
        old(lexer).wf(),
        old(lexer).diag is None,
        old(lexer).at() < old(lexer).toks().len(),
    ensures
        final(lexer).tokens == old(lexer).tokens,
        final(lexer).diag is None,
        final(lexer).at() == old(lexer).at() + 1,
        match old(lexer).toks()[old(lexer).at()] {
            TokV::StrLit(s) => r matches Some(x) && x@ == ExprV::Str(s),
            TokV::Iden(s) => r matches Some(x) && x@ == ExprV::Str(s),
            _ => r is None,
        },
{
    let expr: Option<Expr> = match lexer.front().get_str_val() {
        Some(x) => Some(Expr::Str(x.clone())),
        None => None,
    };
    lexer.eat();
    expr
}

/// Parse one boolean-literal expression: consume exactly one token and
/// produce `Bool` of its payload, or nothing when that token carries no
/// boolean. A token must remain.
pub fn parse_bool_expr(lexer: &mut Lexer) -> (r: Option<Expr>)
    requires
        old(lexer).wf(),
        old(lexer).diag is None,
        old(lexer).at() < old(lexer).toks().len(),
    ensures
        final(lexer).tokens == old(lexer).tokens,
        final(lexer).diag is None,
        final(lexer).at() == old(lexer).at() + 1,
        match old(lexer).toks()[old(lexer).at()] {
            TokV::Bool(b) => r matches Some(x) && x@ == ExprV::Bool(b),
            _ => r is None,
        },
{
    let expr: Option<Expr> = match lexer.front().get_bool_val() {
        Some(x) => Some(Expr::Bool(x)),
        None => None,
    };
    lexer.eat();
    expr
}

/// Parse `( <expr> )` and return the inner expression, discarding the
/// parentheses. A missing delimiter — including an exhausted stream where
/// `)` is owed — is reported as `Expected` of that delimiter.
pub fn parse_paren_expr(lexer: &mut Lexer) -> (r: Option<Expr>)
    requires
        old(lexer).wf(),
        old(lexer).diag is None,
    ensures
        parse_post(
            *old(lexer),
            *final(lexer),
            r,
            spec_parse_paren(old(lexer).toks(), old(lexer).at()),
        ),
        r is Some ==> final(lexer).at() > old(lexer).at(),
    decreases lexer.toks().len() - lexer.at(), 0int,
{
    if !lexer.assert_token_kind(TOK_LPAREN) {
        return None;
    }
    lexer.eat();  // consume '('
    if lexer.empty() {
        lexer.error(Diag::Expected(TOK_RPAREN));
        return None;
    }
    let expr: Expr = match parse_expr(lexer) {
        Some(x) => x,
        None => {
            return None;
        },
    };
    if !lexer.assert_token_kind(TOK_RPAREN) {
        return None;
    }
    lexer.eat();  // consume ')'
    Some(expr)
}

/// Parse an identifier: the bare variable when no `(` follows the name,
/// else the call with its comma-separated argument list. A missing comma
/// between arguments, or a missing closing `)`, is reported as `Expected`
/// of it. The current token must be an identifier.
#[verifier::loop_isolation(false)]
pub fn parse_iden(lexer: &mut Lexer) -> (r: Option<Expr>)
    requires
        old(lexer).wf(),
        old(lexer).diag is None,
        old(lexer).at() < old(lexer).toks().len(),
        old(lexer).toks()[old(lexer).at()] is Iden,
    ensures
        parse_post(
            *old(lexer),
            *final(lexer),
            r,
            spec_parse_iden(old(lexer).toks(), old(lexer).at()),
        ),
        r is Some ==> final(lexer).at() > old(lexer).at(),
    decreases lexer.toks().len() - lexer.at(), 0int,
{
    let ghost t = old(lexer).toks();
    let ghost p = old(lexer).at();
    let name: String = match lexer.front() {
        Token::Iden(s) => s.clone(),
        _ => {
            proof {
                assert(false);
            }
            String::new()
        },
    };
    lexer.eat();  // consume the name
    if lexer.empty() || !lexer.is_token_kind(TOK_LPAREN) {
        return Some(Expr::Var(name));
    }
    lexer.eat();  // consume '('
    let mut args: Vec<Expr> = Vec::new();
    while !lexer.empty() && !lexer.is_token_kind(TOK_RPAREN)
        invariant
            lexer.wf(),
            lexer.diag is None,
            lexer.tokens == old(lexer).tokens,
            p + 2 <= lexer.at() <= t.len(),
            spec_parse_args(t, p + 2, Seq::empty()) == spec_parse_args(
                t,
                lexer.at(),
                crate::ast::exprs_view(args@),
            ),
        decreases t.len() - lexer.at(),
    {
        let ghost args_pre = args@;
        let expr: Expr = match parse_expr(lexer) {
            Some(x) => x,
            None => {
                return None;
            },
        };
        args.push(expr);
        proof {
            crate::ast::lemma_exprs_view_push(args_pre, expr);
        }
        if lexer.empty() || !lexer.is_token_kind(TOK_RPAREN) {
            if !lexer.assert_token_kind(TOK_COMMA) {
                return None;
            }
            lexer.eat();  // consume ','
        }
    }
    if !lexer.assert_token_kind(TOK_RPAREN) {
        return None;
    }
    lexer.eat();  // consume ')'
    Some(Expr::Call(Box::new(CallExpr::new(name, args))))
}

/// Dispatch one primary expression by the current token: a literal, an
/// identifier or call, a parenthesized group — or `Null`, consuming
/// nothing, for a token that starts no expression. A token must remain:
/// primary parsing is only asked for where an expression is expected.
pub fn parse_primary_expr(lexer: &mut Lexer) -> (r: Option<Expr>)
    requires
        old(lexer).wf(),
        old(lexer).diag is None,
        old(lexer).at() < old(lexer).toks().len(),
    ensures
        parse_post(
            *old(lexer),
            *final(lexer),
            r,
            spec_parse_primary(old(lexer).toks(), old(lexer).at()),
        ),
        spec_parse_primary(old(lexer).toks(), old(lexer).at()) matches PRes::Parsed { e, next }
            ==> (!(e is Null) ==> next > old(lexer).at()),
    decreases lexer.toks().len() - lexer.at(), 1int,
{
    if matches!(lexer.front(), Token::Int(_)) {
        parse_num_expr(lexer)
    } else if matches!(lexer.front(), Token::StrLit(_)) {
        parse_str_expr(lexer)
    } else if matches!(lexer.front(), Token::Bool(_)) {
        parse_bool_expr(lexer)
    } else if matches!(lexer.front(), Token::Iden(_)) {
        parse_iden(lexer)
    } else if lexer.is_token_kind(TOK_LPAREN) {
        parse_paren_expr(lexer)
    } else {
        Some(Expr::Null)
    }
}

/// Fold binary operators into `lhs` by precedence climbing: while the
/// next token is a binary operator binding at least as tightly as `prec`,
/// consume it, parse its right-hand side (re-climbing above the
/// operator's strength while a stronger operator follows), and fold the
/// pair into a new left-hand side. A missing or invalid expression after
/// an operator is reported as `ExpectedExpr`.
pub fn parse_bin_rhs(lexer: &mut Lexer, prec: i32, lhs: Expr) -> (r: Option<Expr>)
    requires
        old(lexer).wf(),
        old(lexer).diag is None,
    ensures
        parse_post(
            *old(lexer),
            *final(lexer),
            r,
            spec_parse_bin_rhs(old(lexer).toks(), old(lexer).at(), prec as int, lhs@),
        ),
    decreases lexer.toks().len() - lexer.at(), 0int,
{
    if lexer.empty() {
        return Some(lhs);
    }
    let bin_op: i32 = lexer.front().kind();
    let bin_prec: i32 = get_op_prec(bin_op);
    if bin_prec < prec {
        return Some(lhs);
    }
    lexer.eat();  // consume the operator
    if lexer.empty() {
        lexer.error(Diag::ExpectedExpr);
        return None;
    }
    let rhs: Expr = match parse_primary_expr(lexer) {
        Some(x) => x,
        None => {
            return None;
        },
    };
    if matches!(rhs, Expr::Null) {
        lexer.error(Diag::ExpectedExpr);
        return None;
    }
    let rhs: Expr = if !lexer.empty() && get_op_prec(lexer.front().kind()) > bin_prec {
        match parse_bin_rhs(lexer, bin_prec + 1, rhs) {
            Some(x) => x,
            None => {
                return None;
            },
        }
    } else {
        rhs
    };
    parse_bin_rhs(lexer, prec, Expr::Bin(Box::new(BinExpr::new(lhs, bin_op, rhs))))
}

/// Parse one full expression at the cursor: one primary expression, then
/// the precedence-climbing loop at the lowest threshold, leaving the
/// cursor just past the expression. A token must remain: an expression is
/// only asked for where one is expected.
pub fn parse_expr(lexer: &mut Lexer) -> (r: Option<Expr>)
    requires
        old(lexer).wf(),
        old(lexer).diag is None,
        old(lexer).at() < old(lexer).toks().len(),
    ensures
        parse_post(
            *old(lexer),
            *final(lexer),
            r,
            spec_parse_expr(old(lexer).toks(), old(lexer).at()),
        ),
    decreases lexer.toks().len() - lexer.at(), 2int,
{
    match parse_primary_expr(lexer) {
        Some(x) => parse_bin_rhs(lexer, 0, x),
        None => None,
    }
}

/// Parsing a stream of one literal token — integer, string or boolean —
/// yields the corresponding leaf node and consumes the whole stream.
pub proof fn lemma_single_literal(tok: TokV)
    ensures
        tok matches TokV::Int(v) ==> spec_parse_expr(seq![tok], 0) == (PRes::Parsed {
            e: ExprV::Int(v),
            next: 1,
        }),
        tok matches TokV::StrLit(s) ==> spec_parse_expr(seq![tok], 0) == (PRes::Parsed {
            e: ExprV::Str(s),
            next: 1,
        }),
        tok matches TokV::Bool(b) ==> spec_parse_expr(seq![tok], 0) == (PRes::Parsed {
            e: ExprV::Bool(b),
            next: 1,
        }),
{
}

/// A bare identifier not followed by `(` parses as the variable of that
/// name and consumes exactly one token.
pub proof fn lemma_bare_identifier(t: Seq<TokV>, p: int)
    requires
        0 <= p < t.len(),
        t[p] is Iden,
        p + 1 == t.len() || kind_of(t[p + 1]) != TOK_LPAREN as int,
    ensures
        spec_parse_primary(t, p) == (PRes::Parsed { e: ExprV::Var(t[p]->Iden_0), next: p + 1 }),
{
}

/// Every binary node's operator, anywhere in the tree, is one of the four
/// supported operators. The `Null` sentinel may appear: the tree may come
/// straight from the parser, which uses it for "no expression produced".
pub open spec fn ops_ok(e: ExprV) -> bool
    decreases e, 0int,
{
    match e {
        ExprV::Bin(l, k, r) => op_prec(k) >= 0 && ops_ok(*l) && ops_ok(*r),
        ExprV::Call(_, args) => ops_ok_args(args, 0),
        _ => true,
    }
}

/// Every argument from index `i` on keeps the operator invariant.
pub open spec fn ops_ok_args(args: Seq<ExprV>, i: int) -> bool
    decreases args, args.len() - i + 1,
    via ops_ok_args_decreases
{
    if i < 0 || i >= args.len() {
        true
    } else {
        ops_ok(args[i]) && ops_ok_args(args, i + 1)
    }
}

#[via_fn]
proof fn ops_ok_args_decreases(args: Seq<ExprV>, i: int) {
    if 0 <= i < args.len() {
        vstd::seq::axiom_seq_index_decreases(args, i);
    }
}

/// Appending an argument that keeps the operator invariant to arguments
/// that keep it gives arguments that keep it.
proof fn lemma_ops_ok_args_push(args: Seq<ExprV>, i: int, e: ExprV)
    requires
        0 <= i,
        ops_ok_args(args, i),
        ops_ok(e),
    ensures
        ops_ok_args(args.push(e), i),
    decreases args.len() - i + 1,
{
    if i < args.len() {
        assert(args.push(e)[i] == args[i]);
        lemma_ops_ok_args_push(args, i + 1, e);
    } else if i == args.len() {
        assert(args.push(e)[i] == e);
        assert(ops_ok_args(args.push(e), i + 1));
    } else {
        assert(ops_ok_args(args.push(e), i));
    }
}

/// The primary-expression dispatcher only produces trees that keep the
/// operator invariant.
pub proof fn lemma_primary_ops_ok(t: Seq<TokV>, p: int)
    ensures
        spec_parse_primary(t, p) matches PRes::Parsed { e, next } ==> ops_ok(e),
    decreases t.len() - p, 1int,
{
    if 0 <= p < t.len() {
        match t[p] {
            TokV::Iden(_) => lemma_iden_ops_ok(t, p),
            TokV::Punct(c) => if c == TOK_LPAREN {
                lemma_paren_ops_ok(t, p)
            },
            _ => {},
        }
    }
}

/// The grouping parser only produces trees that keep the operator
/// invariant.
pub proof fn lemma_paren_ops_ok(t: Seq<TokV>, p: int)
    ensures
        spec_parse_paren(t, p) matches PRes::Parsed { e, next } ==> ops_ok(e),
    decreases t.len() - p, 0int,
{
    if 0 <= p < t.len() && kind_of(t[p]) == TOK_LPAREN as int && p + 1 < t.len() {
        lemma_expr_ops_ok(t, p + 1);
    }
}

/// The identifier/call parser only produces trees that keep the operator
/// invariant.
pub proof fn lemma_iden_ops_ok(t: Seq<TokV>, p: int)
    ensures
        spec_parse_iden(t, p) matches PRes::Parsed { e, next } ==> ops_ok(e),
    decreases t.len() - p, 0int,
{
    if 0 <= p < t.len() && t[p] is Iden {
        if !(p + 1 >= t.len() || kind_of(t[p + 1]) != TOK_LPAREN as int) {
            lemma_args_ops_ok(t, p + 2, Seq::empty());
        }
    }
}

/// The argument-list loop only collects arguments that keep the operator
/// invariant, given that what it had collected keeps it.
pub proof fn lemma_args_ops_ok(t: Seq<TokV>, p: int, acc: Seq<ExprV>)
    requires
        ops_ok_args(acc, 0),
    ensures
        spec_parse_args(t, p, acc) matches ARes::Parsed { args, next } ==> ops_ok_args(args, 0),
    decreases t.len() - p, 3int,
{
    if 0 <= p < t.len() && kind_of(t[p]) != TOK_RPAREN as int {
        lemma_expr_ops_ok(t, p);
        match spec_parse_expr(t, p) {
            PRes::Parsed { e, next } => {
                let n = norm_pos(t, p, next);
                lemma_ops_ok_args_push(acc, 0, e);
                if 0 <= n < t.len() && kind_of(t[n]) != TOK_RPAREN as int && kind_of(t[n])
                    == TOK_COMMA as int {
                    lemma_args_ops_ok(t, n + 1, acc.push(e));
                }
            },
            PRes::Failed { d, next } => {},
        }
    }
}

/// The precedence-climbing loop only builds binary nodes whose operator
/// is one of the four supported, given a left-hand side that keeps the
/// invariant and a threshold of at least zero.
pub proof fn lemma_bin_rhs_ops_ok(t: Seq<TokV>, p: int, prec: int, lhs: ExprV)
    requires
        prec >= 0,
        ops_ok(lhs),
    ensures
        spec_parse_bin_rhs(t, p, prec, lhs) matches PRes::Parsed { e, next } ==> ops_ok(e),
    decreases t.len() - p, 0int,
{
    if 0 <= p < t.len() {
        let k = kind_of(t[p]);
        if op_prec(k) >= prec && p + 1 < t.len() {
            lemma_primary_ops_ok(t, p + 1);
            match spec_parse_primary(t, p + 1) {
                PRes::Parsed { e: rhs, next } => if !(rhs is Null) {
                    let n = norm_pos(t, p + 2, next);
                    if 0 <= n < t.len() && op_prec(kind_of(t[n])) > op_prec(k) {
                        lemma_bin_rhs_ops_ok(t, n, op_prec(k) + 1, rhs);
                        match spec_parse_bin_rhs(t, n, op_prec(k) + 1, rhs) {
                            PRes::Parsed { e: rhs2, next } => {
                                lemma_bin_rhs_ops_ok(
                                    t,
                                    norm_pos(t, n, next),
                                    prec,
                                    ExprV::Bin(Box::new(lhs), k, Box::new(rhs2)),
                                );
                            },
                            PRes::Failed { d, next } => {},
                        }
                    } else {
                        lemma_bin_rhs_ops_ok(
                            t,
                            n,
                            prec,
                            ExprV::Bin(Box::new(lhs), k, Box::new(rhs)),
                        );
                    }
                },
                PRes::Failed { d, next } => {},
            }
        }
    }
}

/// Every tree the top-level entry point produces keeps the data model's
/// operator invariant: each binary node's operator is one of the four
/// supported arithmetic operators, all the way down.
pub proof fn lemma_expr_ops_ok(t: Seq<TokV>, p: int)
    ensures
        spec_parse_expr(t, p) matches PRes::Parsed { e, next } ==> ops_ok(e),
    decreases t.len() - p, 2int,
{
    if 0 <= p < t.len() {
        lemma_primary_ops_ok(t, p);
        match spec_parse_primary(t, p) {
            PRes::Parsed { e, next } => {
                lemma_bin_rhs_ops_ok(t, norm_pos(t, p, next), 0, e);
            },
            PRes::Failed { d, next } => {},
        }
    }
}

} // verus!
