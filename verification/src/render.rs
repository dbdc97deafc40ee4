//! Rendering a tree back to surface tokens, and the round-trip law: a
//! well-formed tree, rendered to tokens (fully parenthesized) and parsed
//! again, comes back exactly as it was, with the whole rendering consumed.

use vstd::prelude::*;

use crate::ast::{expr_view, exprs_view, lemma_exprs_view_index, lemma_exprs_view_len, Expr, ExprV};
use crate::expr::{op_prec, spec_parse_args, spec_parse_bin_rhs, spec_parse_expr,
    spec_parse_iden, spec_parse_paren, spec_parse_primary, ARes, PRes};
use crate::lexer::{kind_of, lemma_views_of_push, views_of, TokV, Token};
use crate::lexer::{TOK_COMMA, TOK_LPAREN, TOK_RPAREN};

verus! {

/// A tree the parser could have produced and the renderer can write back:
/// no `Null` sentinel anywhere, and every binary operator one of the four
/// supported ones.
pub open spec fn wf_exprv(e: ExprV) -> bool
    decreases e, 0int,
{
    match e {
        ExprV::Str(_) => true,
        ExprV::Int(_) => true,
        ExprV::Bool(_) => true,
        ExprV::Var(_) => true,
        ExprV::Bin(l, k, r) => op_prec(k) >= 0 && wf_exprv(*l) && wf_exprv(*r),
        ExprV::Call(_, args) => wf_args(args, 0),
        ExprV::Null => false,
    }
}

/// Every argument from index `i` on is well formed.
pub open spec fn wf_args(args: Seq<ExprV>, i: int) -> bool
    decreases args, args.len() - i + 1,
    via wf_args_decreases
{
    if i < 0 || i >= args.len() {
        true
    } else {
        wf_exprv(args[i]) && wf_args(args, i + 1)
    }
}

#[via_fn]
proof fn wf_args_decreases(args: Seq<ExprV>, i: int) {
    if 0 <= i < args.len() {
        vstd::seq::axiom_seq_index_decreases(args, i);
    }
}

/// The surface tokens of a tree, fully parenthesized: every binary
/// operation is wrapped in `(` `)`, so precedence never rebinds anything
/// on the way back in.
pub open spec fn render_toks(e: ExprV) -> Seq<TokV>
    decreases e, 0int,
{
    match e {
        ExprV::Str(s) => seq![TokV::StrLit(s)],
        ExprV::Int(v) => seq![TokV::Int(v)],
        ExprV::Bool(b) => seq![TokV::Bool(b)],
        ExprV::Var(name) => seq![TokV::Iden(name)],
        ExprV::Bin(l, k, r) => seq![TokV::Punct(TOK_LPAREN)] + render_toks(*l) + seq![
            TokV::Punct(k as i32),
        ] + render_toks(*r) + seq![TokV::Punct(TOK_RPAREN)],
        ExprV::Call(name, args) => seq![TokV::Iden(name), TokV::Punct(TOK_LPAREN)] + render_args(
            args,
            0,
        ) + seq![TokV::Punct(TOK_RPAREN)],
        ExprV::Null => Seq::empty(),
    }
}

/// The surface tokens of the arguments from index `i` on, separated by
/// `,` tokens.
pub open spec fn render_args(args: Seq<ExprV>, i: int) -> Seq<TokV>
    decreases args, args.len() - i + 1,
    via render_args_decreases
{
    if i < 0 || i >= args.len() {
        Seq::empty()
    } else if i + 1 < args.len() {
        render_toks(args[i]) + seq![TokV::Punct(TOK_COMMA)] + render_args(args, i + 1)
    } else {
        render_toks(args[i])
    }
}

#[via_fn]
proof fn render_args_decreases(args: Seq<ExprV>, i: int) {
    if 0 <= i < args.len() {
        vstd::seq::axiom_seq_index_decreases(args, i);
    }
}

/// A well-formed tree renders to at least one token.
pub proof fn lemma_render_len(e: ExprV)
    requires
        wf_exprv(e),
    ensures
        render_toks(e).len() >= 1,
{
}

/// A well-formed tree's rendering never opens with `)` or `,`.
pub proof fn lemma_render_first(e: ExprV)
    requires
        wf_exprv(e),
    ensures
        render_toks(e).len() >= 1,
        kind_of(render_toks(e)[0]) != TOK_RPAREN as int,
        kind_of(render_toks(e)[0]) != TOK_COMMA as int,
{
}

/// Wherever a well-formed tree's rendering stands in a token stream, the
/// primary-expression parser reads back exactly that tree and stops just
/// past the rendering — provided, for a bare variable, that no `(`
/// follows it (a following `(` would turn the variable into a call).
#[verifier::rlimit(50)]
pub proof fn lemma_primary_roundtrip(e: ExprV, t: Seq<TokV>, p: int)
    requires
        wf_exprv(e),
        0 <= p,
        p + render_toks(e).len() <= t.len(),
        t.subrange(p, p + render_toks(e).len() as int) == render_toks(e),
        e is Var ==> p + render_toks(e).len() == t.len() || kind_of(
            t[p + render_toks(e).len() as int],
        ) != TOK_LPAREN as int,
    ensures
        spec_parse_primary(t, p) == (PRes::Parsed { e, next: p + render_toks(e).len() as int }),
    decreases e, 0int,
{
    let re = render_toks(e);
    let n = re.len() as int;
    assert forall|j: int| 0 <= j < n implies t[p + j] == re[j] by {
        assert(t.subrange(p, p + n)[j] == t[p + j]);
    }
    match e {
        ExprV::Str(_) => {},
        ExprV::Int(_) => {},
        ExprV::Bool(_) => {},
        ExprV::Var(_) => {},
        ExprV::Bin(l, k, r) => {
            let rl = render_toks(*l);
            let rr = render_toks(*r);
            let nl = rl.len() as int;
            let nr = rr.len() as int;
            lemma_render_len(*l);
            lemma_render_len(*r);
            assert(re[0] == TokV::Punct(TOK_LPAREN));
            assert forall|j: int| 0 <= j < nl implies re[1 + j] == rl[j] by {}
            assert(re[1 + nl] == TokV::Punct(k as i32));
            assert forall|j: int| 0 <= j < nr implies re[2 + nl + j] == rr[j] by {}
            assert(re[n - 1] == TokV::Punct(TOK_RPAREN));
            assert(k == (k as i32) as int);
            let q = p + 1 + nl;
            assert(t.subrange(p + 1, p + 1 + nl) =~= rl);
            lemma_primary_roundtrip(*l, t, p + 1);
            assert(kind_of(t[q]) == k);
            assert(t.subrange(q + 1, q + 1 + nr) =~= rr);
            lemma_primary_roundtrip(*r, t, q + 1);
            let m = q + 1 + nr;
            assert(kind_of(t[m]) == TOK_RPAREN as int);
            assert(spec_parse_bin_rhs(t, q, 0, *l) == (PRes::Parsed {
                e: ExprV::Bin(l, k, r),
                next: m,
            }));
            assert(spec_parse_expr(t, p + 1) == (PRes::Parsed { e: ExprV::Bin(l, k, r), next: m }));
            assert(spec_parse_paren(t, p) == (PRes::Parsed { e: ExprV::Bin(l, k, r), next: m + 1 }));
        },
        ExprV::Call(name, args) => {
            let ra = render_args(args, 0);
            let na = ra.len() as int;
            assert(re[0] == TokV::Iden(name));
            assert(re[1] == TokV::Punct(TOK_LPAREN));
            assert forall|j: int| 0 <= j < na implies re[2 + j] == ra[j] by {}
            assert(re[n - 1] == TokV::Punct(TOK_RPAREN));
            assert(t.subrange(p + 2, p + 2 + na) =~= ra);
            assert(kind_of(t[p + 2 + na]) == TOK_RPAREN as int);
            lemma_args_roundtrip(args, 0, t, p + 2, Seq::empty());
            assert(Seq::<ExprV>::empty() + args.subrange(0, args.len() as int) =~= args);
            assert(spec_parse_args(t, p + 2, Seq::empty()) == (ARes::Parsed {
                args,
                next: p + n,
            }));
            assert(spec_parse_iden(t, p) == (PRes::Parsed { e: ExprV::Call(name, args), next: p + n }));
        },
        ExprV::Null => {},
    }
}

/// Wherever the renderings of the arguments from index `i` on, separated
/// by `,` and followed by `)`, stand in a token stream, the argument-list
/// parser reads back exactly those arguments, appended to what it had
/// collected, and stops just past the `)`.
pub proof fn lemma_args_roundtrip(args: Seq<ExprV>, i: int, t: Seq<TokV>, p: int, acc: Seq<ExprV>)
    requires
        0 <= i <= args.len(),
        wf_args(args, i),
        0 <= p,
        p + render_args(args, i).len() + 1 <= t.len(),
        t.subrange(p, p + render_args(args, i).len() as int) == render_args(args, i),
        kind_of(t[p + render_args(args, i).len() as int]) == TOK_RPAREN as int,
    ensures
        spec_parse_args(t, p, acc) == (ARes::Parsed {
            args: acc + args.subrange(i, args.len() as int),
            next: p + render_args(args, i).len() + 1,
        }),
    decreases args, args.len() - i,
{
    let ra = render_args(args, i);
    let na = ra.len() as int;
    assert forall|j: int| 0 <= j < na implies t[p + j] == ra[j] by {
        assert(t.subrange(p, p + na)[j] == t[p + j]);
    }
    if i == args.len() {
        assert(args.subrange(i, args.len() as int) =~= Seq::<ExprV>::empty());
        assert(acc + args.subrange(i, args.len() as int) =~= acc);
    } else {
        let ri = render_toks(args[i]);
        let ni = ri.len() as int;
        lemma_render_first(args[i]);
        let q = p + ni;
        if i + 1 < args.len() {
            assert forall|j: int| 0 <= j < ni implies ra[j] == ri[j] by {}
            assert(ra[ni] == TokV::Punct(TOK_COMMA));
        } else {
            assert(ra =~= ri);
        }
        assert(t.subrange(p, p + ni) =~= ri);
        lemma_primary_roundtrip(args[i], t, p);
        assert(spec_parse_expr(t, p) == (PRes::Parsed { e: args[i], next: q }));
        if i + 1 < args.len() {
            let rrest = render_args(args, i + 1);
            assert forall|j: int| 0 <= j < rrest.len() implies ra[ni + 1 + j] == rrest[j] by {}
            assert(t.subrange(q + 1, q + 1 + rrest.len() as int) =~= rrest);
            vstd::seq::axiom_seq_index_decreases(args, i);
            lemma_args_roundtrip(args, i + 1, t, q + 1, acc.push(args[i]));
            assert(acc.push(args[i]) + args.subrange(i + 1, args.len() as int) =~= acc
                + args.subrange(i, args.len() as int));
        } else {
            assert(acc.push(args[i]) =~= acc + args.subrange(i, args.len() as int));
        }
    }
}

/// The round-trip law: a well-formed tree, rendered to surface tokens
/// and parsed again, comes back exactly as it was, the whole rendering
/// consumed and no diagnostic reported.
pub proof fn lemma_parse_render_roundtrip(e: ExprV)
    requires
        wf_exprv(e),
    ensures
        spec_parse_expr(render_toks(e), 0) == (PRes::Parsed {
            e,
            next: render_toks(e).len() as int,
        }),
{
    let t = render_toks(e);
    lemma_render_len(e);
    assert(t.subrange(0, t.len() as int) =~= t);
    lemma_primary_roundtrip(e, t, 0);
}

/// Append one token, extending the stream's model by the token's model.
fn push_tok(out: &mut Vec<Token>, tok: Token)
    ensures
        views_of(final(out)@) == views_of(old(out)@).push(tok@),
{
    let ghost pre = out@;
    let ghost gt = tok;
    out.push(tok);
    proof {
        lemma_views_of_push(pre, gt);
    }
}

/// Write the surface tokens of `e` onto the end of `out`.
pub fn render_expr_tokens(e: &Expr, out: &mut Vec<Token>)
    ensures
        views_of(final(out)@) == views_of(old(out)@) + render_toks(expr_view(*e)),
    decreases *e, 0int,
{
    let ghost pre = views_of(out@);
    match e {
        Expr::Str(s) => {
            push_tok(out, Token::StrLit(s.clone()));
            proof {
                assert(views_of(out@) =~= pre + render_toks(expr_view(*e)));
            }
        },
        Expr::Int(v) => {
            push_tok(out, Token::Int(*v));
            proof {
                assert(views_of(out@) =~= pre + render_toks(expr_view(*e)));
            }
        },
        Expr::Bool(b) => {
            push_tok(out, Token::Bool(*b));
            proof {
                assert(views_of(out@) =~= pre + render_toks(expr_view(*e)));
            }
        },
        Expr::Var(s) => {
            push_tok(out, Token::Iden(s.clone()));
            proof {
                assert(views_of(out@) =~= pre + render_toks(expr_view(*e)));
            }
        },
        Expr::Bin(b) => {
            push_tok(out, Token::Punct(TOK_LPAREN));
            render_expr_tokens(&b.lhs, out);
            push_tok(out, Token::Punct(b.op));
            render_expr_tokens(&b.rhs, out);
            push_tok(out, Token::Punct(TOK_RPAREN));
            proof {
                assert(views_of(out@) =~= pre + render_toks(expr_view(*e)));
            }
        },
        Expr::Call(c) => {
            proof {
                vstd::std_specs::vec::axiom_vec_decreases_to_view(c.args);
                assert(decreases_to!(*e => c.args));
            }
            push_tok(out, Token::Iden(c.name.clone()));
            push_tok(out, Token::Punct(TOK_LPAREN));
            render_args_tokens(&c.args, 0, out);
            push_tok(out, Token::Punct(TOK_RPAREN));
            proof {
                assert(views_of(out@) =~= pre + render_toks(expr_view(*e)));
            }
        },
        Expr::Null => {
            proof {
                assert(views_of(out@) =~= pre + render_toks(expr_view(*e)));
            }
        },
    }
}

/// Write the surface tokens of the arguments from index `i` on,
/// `,`-separated, onto the end of `out`.
pub fn render_args_tokens(args: &Vec<Expr>, i: usize, out: &mut Vec<Token>)
    ensures
        views_of(final(out)@) == views_of(old(out)@) + render_args(
            exprs_view(args@),
            i as int,
        ),
    decreases args@, args@.len() - i,
{
    let ghost pre = views_of(out@);
    let ghost av = exprs_view(args@);
    proof {
        lemma_exprs_view_len(args@);
    }
    if i >= args.len() {
        proof {
            assert(views_of(out@) =~= pre + render_args(av, i as int));
        }
        return;
    }
    proof {
        lemma_exprs_view_index(args@, i as int);
        vstd::seq::axiom_seq_index_decreases(args@, i as int);
    }
    render_expr_tokens(&args[i], out);
    if i + 1 < args.len() {
        push_tok(out, Token::Punct(TOK_COMMA));
        render_args_tokens(args, i + 1, out);
        proof {
            assert(views_of(out@) =~= pre + render_args(av, i as int));
        }
    } else {
        proof {
            assert(views_of(out@) =~= pre + render_args(av, i as int));
        }
    }
}

impl Expr {
    /// The surface tokens of this tree, fully parenthesized: parsing them
    /// again reproduces the tree (the round-trip law,
    /// `lemma_parse_render_roundtrip`).
    pub fn to_tokens(&self) -> (out: Vec<Token>)
        ensures
            views_of(out@) == render_toks(expr_view(*self)),
    {
        let mut out: Vec<Token> = Vec::new();
        let ghost base = views_of(out@);
        render_expr_tokens(self, &mut out);
        proof {
            assert(base + render_toks(expr_view(*self)) =~= render_toks(expr_view(*self)));
        }
        out
    }
}

} // verus!
