use vstd::prelude::*;

use crate::ast::{ast_model, ast_wf, asts_model, asts_wf, lemma_asts_model2, lemma_asts_model_push,
    Ast, SpecAst};
use crate::bignum::{big_from_decimal, spec_parse_int};
use crate::errors::{ParseError, ParseErrorKind};
use crate::floats::{f64_of_decimal, float_parse};
use crate::token::{Span, Token, TokenModel};
use crate::value::{Value, ValueModel};

verus! {

/// Model of a lexed token list: token model plus character span.
pub open spec fn toks_model(ts: Seq<(Token, Span)>) -> Seq<(TokenModel, int, int)> {
    ts.map_values(|p: (Token, Span)| (p.0@, p.1.lo as int, p.1.hi as int))
}

/// The span of token `i`.
pub open spec fn tok_span(ts: Seq<(TokenModel, int, int)>, i: int) -> Span {
    Span { lo: ts[i].1 as usize, hi: ts[i].2 as usize }
}

/// An empty span at the end of the input, for errors where tokens ran
/// out.
pub open spec fn eof_span(ts: Seq<(TokenModel, int, int)>) -> Span {
    if ts.len() > 0 {
        Span { lo: ts.last().2 as usize, hi: ts.last().2 as usize }
    } else {
        Span { lo: 0, hi: 0 }
    }
}

/// An error at the end of the input.
pub open spec fn eof_err(ts: Seq<(TokenModel, int, int)>) -> (ParseError, int) {
    (ParseError { span: eof_span(ts), kind: ParseErrorKind::UnexpectedEnd }, ts.len() as int)
}

/// An error at token `i`.
pub open spec fn err_at(ts: Seq<(TokenModel, int, int)>, i: int, kind: ParseErrorKind) -> (
    ParseError,
    int,
) {
    (ParseError { span: tok_span(ts, i), kind }, i)
}

/// A placeholder for branches the progress lemmas rule out.
pub open spec fn stuck_err(ts: Seq<(TokenModel, int, int)>, i: int) -> (ParseError, int) {
    (ParseError { span: eof_span(ts), kind: ParseErrorKind::UnexpectedToken }, i)
}

/// `Primary := Constant | '(' Expr ')' | Call` — the parse starting at
/// token `i`: the tree and the position after it, or the error and the
/// token position it arose at.
pub open spec fn spec_parse_primary(ts: Seq<(TokenModel, int, int)>, i: int) -> Result<
    (SpecAst, int),
    (ParseError, int),
>
    decreases ts.len() - i, 0int,
{
    if i >= ts.len() {
        Err(eof_err(ts))
    } else {
        match ts[i].0 {
            TokenModel::IntLit(text) => match spec_parse_int(text) {
                Some(n) => Ok((SpecAst::Constant(ValueModel::Int(n)), i + 1)),
                None => Err(err_at(ts, i, ParseErrorKind::InvalidNumber)),
            },
            TokenModel::FloatLit(text) => match f64_of_decimal(text) {
                Some(bits) => Ok((SpecAst::Constant(ValueModel::Float(bits)), i + 1)),
                None => Err(err_at(ts, i, ParseErrorKind::InvalidNumber)),
            },
            TokenModel::StrLit(sv) => Ok((SpecAst::Constant(ValueModel::Str(sv)), i + 1)),
            TokenModel::LParen => match spec_parse_expr(ts, i + 1) {
                Err(e) => Err(e),
                Ok((a, j)) => if 0 <= j < ts.len() && ts[j].0 is RParen {
                    Ok((a, j + 1))
                } else if 0 <= j < ts.len() {
                    Err(err_at(ts, j, ParseErrorKind::ExpectedClose))
                } else {
                    Err(eof_err(ts))
                },
            },
            TokenModel::Ident(name) => if i + 1 < ts.len() && ts[i + 1].0 is LParen {
                match spec_parse_args(ts, i + 2) {
                    Err(e) => Err(e),
                    Ok((args, j)) => Ok((SpecAst::Call(name, args), j)),
                }
            } else if i + 1 < ts.len() {
                Err(err_at(ts, i + 1, ParseErrorKind::UnexpectedToken))
            } else {
                Err(eof_err(ts))
            },
            TokenModel::ErrorT => Err(err_at(ts, i, ParseErrorKind::BadToken)),
            _ => Err(err_at(ts, i, ParseErrorKind::UnexpectedToken)),
        }
    }
}

/// The comma-separated argument list after a call's opening
/// parenthesis, with an optional trailing comma, ended by `)`.
pub open spec fn spec_parse_args(ts: Seq<(TokenModel, int, int)>, i: int) -> Result<
    (Seq<SpecAst>, int),
    (ParseError, int),
>
    decreases ts.len() - i, 5int,
{
    if 0 <= i < ts.len() && ts[i].0 is RParen {
        Ok((Seq::empty(), i + 1))
    } else {
        match spec_parse_expr(ts, i) {
            Err(e) => Err(e),
            Ok((a, j)) => if i < j <= ts.len() {
                spec_parse_args_tail(ts, j, seq![a])
            } else {
                Err(stuck_err(ts, i))
            },
        }
    }
}

pub open spec fn spec_parse_args_tail(
    ts: Seq<(TokenModel, int, int)>,
    i: int,
    acc: Seq<SpecAst>,
) -> Result<(Seq<SpecAst>, int), (ParseError, int)>
    decreases ts.len() - i, 6int,
{
    if 0 <= i < ts.len() && ts[i].0 is RParen {
        Ok((acc, i + 1))
    } else if 0 <= i < ts.len() && ts[i].0 is CommaT {
        if i + 1 < ts.len() && ts[i + 1].0 is RParen {
            Ok((acc, i + 2))
        } else {
            match spec_parse_expr(ts, i + 1) {
                Err(e) => Err(e),
                Ok((a, j)) => if i < j <= ts.len() {
                    spec_parse_args_tail(ts, j, acc.push(a))
                } else {
                    Err(stuck_err(ts, i))
                },
            }
        }
    } else if 0 <= i < ts.len() {
        Err(err_at(ts, i, ParseErrorKind::UnexpectedToken))
    } else {
        Err(eof_err(ts))
    }
}

/// `MulDiv := Primary (('*'|'/') Primary)*`, desugared left to right
/// into calls named `mul` and `div`.
pub open spec fn spec_parse_mul(ts: Seq<(TokenModel, int, int)>, i: int) -> Result<
    (SpecAst, int),
    (ParseError, int),
>
    decreases ts.len() - i, 2int,
{
    match spec_parse_primary(ts, i) {
        Err(e) => Err(e),
        Ok((a, j)) => if i < j <= ts.len() {
            spec_parse_muldiv_tail(ts, j, a)
        } else {
            Ok((a, j))
        },
    }
}

pub open spec fn spec_parse_muldiv_tail(
    ts: Seq<(TokenModel, int, int)>,
    i: int,
    acc: SpecAst,
) -> Result<(SpecAst, int), (ParseError, int)>
    decreases ts.len() - i, 1int,
{
    if 0 <= i < ts.len() && (ts[i].0 is MulOp || ts[i].0 is DivOp) {
        let name = if ts[i].0 is MulOp {
            "mul"@
        } else {
            "div"@
        };
        match spec_parse_primary(ts, i + 1) {
            Err(e) => Err(e),
            Ok((b, j)) => if i < j <= ts.len() {
                spec_parse_muldiv_tail(ts, j, SpecAst::Call(name, seq![acc, b]))
            } else {
                Err(stuck_err(ts, i))
            },
        }
    } else {
        Ok((acc, i))
    }
}

/// `AddSub := MulDiv (('+'|'-') MulDiv)*`, desugared left to right
/// into calls named `add` and `sub`; the whole expression grammar.
pub open spec fn spec_parse_expr(ts: Seq<(TokenModel, int, int)>, i: int) -> Result<
    (SpecAst, int),
    (ParseError, int),
>
    decreases ts.len() - i, 4int,
{
    match spec_parse_mul(ts, i) {
        Err(e) => Err(e),
        Ok((a, j)) => if i < j <= ts.len() {
            spec_parse_addsub_tail(ts, j, a)
        } else {
            Ok((a, j))
        },
    }
}

pub open spec fn spec_parse_addsub_tail(
    ts: Seq<(TokenModel, int, int)>,
    i: int,
    acc: SpecAst,
) -> Result<(SpecAst, int), (ParseError, int)>
    decreases ts.len() - i, 3int,
{
    if 0 <= i < ts.len() && (ts[i].0 is AddOp || ts[i].0 is SubOp) {
        let name = if ts[i].0 is AddOp {
            "add"@
        } else {
            "sub"@
        };
        match spec_parse_mul(ts, i + 1) {
            Err(e) => Err(e),
            Ok((b, j)) => if i < j <= ts.len() {
                spec_parse_addsub_tail(ts, j, SpecAst::Call(name, seq![acc, b]))
            } else {
                Err(stuck_err(ts, i))
            },
        }
    } else {
        Ok((acc, i))
    }
}

/// All errors found from token `i` on: parse an expression, record how
/// it fails (or that input trails after it), skip one token past the
/// failure, and repeat.
pub open spec fn spec_collect_errors(ts: Seq<(TokenModel, int, int)>, i: int) -> Seq<ParseError>
    decreases ts.len() - i, 8int,
{
    match spec_parse_expr(ts, i) {
        Ok((a, j)) => if j >= ts.len() {
            Seq::empty()
        } else {
            seq![err_at(ts, j, ParseErrorKind::TrailingTokens).0] + (if i < j + 1 <= ts.len() {
                spec_collect_errors(ts, j + 1)
            } else {
                Seq::empty()
            })
        },
        Err((e, fi)) => seq![e] + (if i < fi + 1 <= ts.len() {
            spec_collect_errors(ts, fi + 1)
        } else {
            Seq::empty()
        }),
    }
}

/// The parse of a whole token list: one tree covering every token, or
/// the errors of the attempt.
pub open spec fn spec_parse_toks(ts: Seq<(TokenModel, int, int)>) -> Result<
    SpecAst,
    Seq<ParseError>,
> {
    match spec_parse_expr(ts, 0) {
        Ok((a, j)) => if j == ts.len() {
            Ok(a)
        } else {
            Err(spec_collect_errors(ts, 0))
        },
        Err(_) => Err(spec_collect_errors(ts, 0)),
    }
}

/// Errors accumulate across one attempt: when the first expression
/// fails before the input's end and the recovery parse after the
/// failing token records anything further, the whole parse reports at
/// least two errors, not just the first.
pub proof fn lemma_parse_collects_both_errors(ts: Seq<(TokenModel, int, int)>)
    requires
        spec_parse_expr(ts, 0) matches Err((e, fi)) && 0 <= fi < ts.len() && spec_collect_errors(
            ts,
            fi + 1,
        ).len() > 0,
    ensures
        spec_parse_toks(ts) matches Err(es) && es.len() >= 2,
{
}

} // verus!

verus! {

proof fn lemma_tm(ts: Seq<(Token, Span)>)
    ensures
        toks_model(ts).len() == ts.len(),
        forall|i: int|
            0 <= i < ts.len() ==> #[trigger] toks_model(ts)[i] == (
                ts[i].0@,
                ts[i].1.lo as int,
                ts[i].1.hi as int,
            ),
{
}

fn eof_err_x(toks: &Vec<(Token, Span)>) -> (r: (ParseError, usize))
    ensures
        (r.0, r.1 as int) == eof_err(toks_model(toks@)),
{
    proof {
        lemma_tm(toks@);
    }
    let n = toks.len();
    if n > 0 {
        let h = toks[n - 1].1.hi;
        (ParseError { span: Span { lo: h, hi: h }, kind: ParseErrorKind::UnexpectedEnd }, n)
    } else {
        (ParseError { span: Span { lo: 0, hi: 0 }, kind: ParseErrorKind::UnexpectedEnd }, n)
    }
}

fn err_at_x(toks: &Vec<(Token, Span)>, i: usize, kind: ParseErrorKind) -> (r: (ParseError, usize))
    requires
        i < toks@.len(),
    ensures
        (r.0, r.1 as int) == err_at(toks_model(toks@), i as int, kind),
{
    proof {
        lemma_tm(toks@);
    }
    (ParseError { span: toks[i].1, kind }, i)
}

fn parse_primary_x(toks: &Vec<(Token, Span)>, i: usize) -> (r: Result<
    (Ast, usize),
    (ParseError, usize),
>)
    requires
        i <= toks@.len(),
    ensures
        match r {
            Ok((ast, j)) => spec_parse_primary(toks_model(toks@), i as int) == Ok::<
                (SpecAst, int),
                (ParseError, int),
            >((ast_model(ast), j as int)) && ast_wf(ast) && i < j <= toks@.len(),
            Err((e, fi)) => spec_parse_primary(toks_model(toks@), i as int) == Err::<
                (SpecAst, int),
                (ParseError, int),
            >((e, fi as int)) && i <= fi <= toks@.len(),
        },
    decreases toks@.len() - i, 0int,
{
    proof {
        lemma_tm(toks@);
    }
    let n = toks.len();
    if i >= n {
        return Err(eof_err_x(toks));
    }
    match &toks[i].0 {
        Token::Int(text) => {
            match big_from_decimal(text.as_str()) {
                Some(b) => Ok((Ast::Constant(Value::Int(b)), i + 1)),
                None => Err(err_at_x(toks, i, ParseErrorKind::InvalidNumber)),
            }
        },
        Token::Float(text) => {
            match float_parse(text.as_str()) {
                Some(bits) => Ok((Ast::Constant(Value::Float(bits)), i + 1)),
                None => Err(err_at_x(toks, i, ParseErrorKind::InvalidNumber)),
            }
        },
        Token::Str(text) => Ok((Ast::Constant(Value::Str(text.clone())), i + 1)),
        Token::LeftParen => {
            match parse_expr_x(toks, i + 1) {
                Err(e) => Err(e),
                Ok((a, j)) => {
                    if j < n && matches!(&toks[j].0, Token::RightParen) {
                        Ok((a, j + 1))
                    } else if j < n {
                        Err(err_at_x(toks, j, ParseErrorKind::ExpectedClose))
                    } else {
                        Err(eof_err_x(toks))
                    }
                },
            }
        },
        Token::Var(name) => {
            if i + 1 < n && matches!(&toks[i + 1].0, Token::LeftParen) {
                match parse_args_x(toks, i + 2) {
                    Err(e) => Err(e),
                    Ok((args, j)) => Ok((Ast::Call(name.clone(), args), j)),
                }
            } else if i + 1 < n {
                Err(err_at_x(toks, i + 1, ParseErrorKind::UnexpectedToken))
            } else {
                Err(eof_err_x(toks))
            }
        },
        Token::Error => Err(err_at_x(toks, i, ParseErrorKind::BadToken)),
        _ => Err(err_at_x(toks, i, ParseErrorKind::UnexpectedToken)),
    }
}

fn parse_args_x(toks: &Vec<(Token, Span)>, i: usize) -> (r: Result<
    (Vec<Ast>, usize),
    (ParseError, usize),
>)
    requires
        i <= toks@.len(),
    ensures
        match r {
            Ok((args, j)) => spec_parse_args(toks_model(toks@), i as int) == Ok::<
                (Seq<SpecAst>, int),
                (ParseError, int),
            >((asts_model(args@), j as int)) && asts_wf(args@) && i < j <= toks@.len(),
            Err((e, fi)) => spec_parse_args(toks_model(toks@), i as int) == Err::<
                (Seq<SpecAst>, int),
                (ParseError, int),
            >((e, fi as int)) && i <= fi <= toks@.len(),
        },
    decreases toks@.len() - i, 5int,
{
    proof {
        lemma_tm(toks@);
    }
    let n = toks.len();
    if i < n && matches!(&toks[i].0, Token::RightParen) {
        let args: Vec<Ast> = Vec::new();
        proof {
            assert(asts_model(args@) =~= Seq::<SpecAst>::empty());
        }
        Ok((args, i + 1))
    } else {
        match parse_expr_x(toks, i) {
            Err(e) => Err(e),
            Ok((a, j)) => {
                let ghost am = ast_model(a);
                let mut args: Vec<Ast> = Vec::new();
                proof {
                    assert(asts_model(args@) =~= Seq::<SpecAst>::empty());
                }
                args.push(a);
                proof {
                    assert(args@ =~= seq![].push(args@[0]));
                    lemma_asts_model_push(Seq::empty(), args@[0]);
                    assert(asts_model(args@) =~= seq![am]);
                }
                parse_args_tail_x(toks, j, args)
            },
        }
    }
}

fn parse_args_tail_x(toks: &Vec<(Token, Span)>, i: usize, acc: Vec<Ast>) -> (r: Result<
    (Vec<Ast>, usize),
    (ParseError, usize),
>)
    requires
        i <= toks@.len(),
        asts_wf(acc@),
    ensures
        match r {
            Ok((args, j)) => spec_parse_args_tail(toks_model(toks@), i as int, asts_model(acc@))
                == Ok::<(Seq<SpecAst>, int), (ParseError, int)>((asts_model(args@), j as int))
                && asts_wf(args@) && i < j <= toks@.len(),
            Err((e, fi)) => spec_parse_args_tail(toks_model(toks@), i as int, asts_model(acc@))
                == Err::<(Seq<SpecAst>, int), (ParseError, int)>((e, fi as int)) && i <= fi
                <= toks@.len(),
        },
    decreases toks@.len() - i, 6int,
{
    proof {
        lemma_tm(toks@);
    }
    let n = toks.len();
    if i < n && matches!(&toks[i].0, Token::RightParen) {
        Ok((acc, i + 1))
    } else if i < n && matches!(&toks[i].0, Token::Comma) {
        if i + 1 < n && matches!(&toks[i + 1].0, Token::RightParen) {
            Ok((acc, i + 2))
        } else {
            match parse_expr_x(toks, i + 1) {
                Err(e) => Err(e),
                Ok((a, j)) => {
                    let ghost accm = asts_model(acc@);
                    let ghost am = ast_model(a);
                    let mut acc = acc;
                    proof {
                        lemma_asts_model_push(acc@, a);
                    }
                    acc.push(a);
                    proof {
                        assert(asts_model(acc@) == accm.push(am));
                    }
                    parse_args_tail_x(toks, j, acc)
                },
            }
        }
    } else if i < n {
        Err(err_at_x(toks, i, ParseErrorKind::UnexpectedToken))
    } else {
        Err(eof_err_x(toks))
    }
}

fn parse_mul_x(toks: &Vec<(Token, Span)>, i: usize) -> (r: Result<
    (Ast, usize),
    (ParseError, usize),
>)
    requires
        i <= toks@.len(),
    ensures
        match r {
            Ok((ast, j)) => spec_parse_mul(toks_model(toks@), i as int) == Ok::<
                (SpecAst, int),
                (ParseError, int),
            >((ast_model(ast), j as int)) && ast_wf(ast) && i < j <= toks@.len(),
            Err((e, fi)) => spec_parse_mul(toks_model(toks@), i as int) == Err::<
                (SpecAst, int),
                (ParseError, int),
            >((e, fi as int)) && i <= fi <= toks@.len(),
        },
    decreases toks@.len() - i, 2int,
{
    match parse_primary_x(toks, i) {
        Err(e) => Err(e),
        Ok((a, j)) => parse_muldiv_tail_x(toks, j, a),
    }
}

fn parse_muldiv_tail_x(toks: &Vec<(Token, Span)>, i: usize, acc: Ast) -> (r: Result<
    (Ast, usize),
    (ParseError, usize),
>)
    requires
        i <= toks@.len(),
        ast_wf(acc),
    ensures
        match r {
            Ok((ast, j)) => spec_parse_muldiv_tail(toks_model(toks@), i as int, ast_model(acc))
                == Ok::<(SpecAst, int), (ParseError, int)>((ast_model(ast), j as int)) && ast_wf(
                ast,
            ) && i <= j <= toks@.len(),
            Err((e, fi)) => spec_parse_muldiv_tail(toks_model(toks@), i as int, ast_model(acc))
                == Err::<(SpecAst, int), (ParseError, int)>((e, fi as int)) && i <= fi
                <= toks@.len(),
        },
    decreases toks@.len() - i, 1int,
{
    proof {
        lemma_tm(toks@);
    }
    let n = toks.len();
    if i < n && (matches!(&toks[i].0, Token::Mul) || matches!(&toks[i].0, Token::Div)) {
        let name: String = if matches!(&toks[i].0, Token::Mul) {
            String::from_str("mul")
        } else {
            String::from_str("div")
        };
        match parse_primary_x(toks, i + 1) {
            Err(e) => Err(e),
            Ok((b, j)) => {
                let ghost accm = ast_model(acc);
                let ghost bm = ast_model(b);
                proof {
                    lemma_asts_model2(acc, b);
                }
                let node = Ast::Call(name, vec![acc, b]);
                proof {
                    assert(node->Call_1@ =~= seq![acc, b]);
                    assert(ast_model(node) == SpecAst::Call(
                        if toks@[i as int].0@ is MulOp {
                            "mul"@
                        } else {
                            "div"@
                        },
                        seq![accm, bm],
                    ));
                }
                parse_muldiv_tail_x(toks, j, node)
            },
        }
    } else {
        Ok((acc, i))
    }
}

fn parse_addsub_tail_x(toks: &Vec<(Token, Span)>, i: usize, acc: Ast) -> (r: Result<
    (Ast, usize),
    (ParseError, usize),
>)
    requires
        i <= toks@.len(),
        ast_wf(acc),
    ensures
        match r {
            Ok((ast, j)) => spec_parse_addsub_tail(toks_model(toks@), i as int, ast_model(acc))
                == Ok::<(SpecAst, int), (ParseError, int)>((ast_model(ast), j as int)) && ast_wf(
                ast,
            ) && i <= j <= toks@.len(),
            Err((e, fi)) => spec_parse_addsub_tail(toks_model(toks@), i as int, ast_model(acc))
                == Err::<(SpecAst, int), (ParseError, int)>((e, fi as int)) && i <= fi
                <= toks@.len(),
        },
    decreases toks@.len() - i, 3int,
{
    proof {
        lemma_tm(toks@);
    }
    let n = toks.len();
    if i < n && (matches!(&toks[i].0, Token::Add) || matches!(&toks[i].0, Token::Sub)) {
        let name: String = if matches!(&toks[i].0, Token::Add) {
            String::from_str("add")
        } else {
            String::from_str("sub")
        };
        match parse_mul_x(toks, i + 1) {
            Err(e) => Err(e),
            Ok((b, j)) => {
                let ghost accm = ast_model(acc);
                let ghost bm = ast_model(b);
                proof {
                    lemma_asts_model2(acc, b);
                }
                let node = Ast::Call(name, vec![acc, b]);
                proof {
                    assert(node->Call_1@ =~= seq![acc, b]);
                    assert(ast_model(node) == SpecAst::Call(
                        if toks@[i as int].0@ is AddOp {
                            "add"@
                        } else {
                            "sub"@
                        },
                        seq![accm, bm],
                    ));
                }
                parse_addsub_tail_x(toks, j, node)
            },
        }
    } else {
        Ok((acc, i))
    }
}

fn parse_expr_x(toks: &Vec<(Token, Span)>, i: usize) -> (r: Result<
    (Ast, usize),
    (ParseError, usize),
>)
    requires
        i <= toks@.len(),
    ensures
        match r {
            Ok((ast, j)) => spec_parse_expr(toks_model(toks@), i as int) == Ok::<
                (SpecAst, int),
                (ParseError, int),
            >((ast_model(ast), j as int)) && ast_wf(ast) && i < j <= toks@.len(),
            Err((e, fi)) => spec_parse_expr(toks_model(toks@), i as int) == Err::<
                (SpecAst, int),
                (ParseError, int),
            >((e, fi as int)) && i <= fi <= toks@.len(),
        },
    decreases toks@.len() - i, 4int,
{
    match parse_mul_x(toks, i) {
        Err(e) => Err(e),
        Ok((a, j)) => parse_addsub_tail_x(toks, j, a),
    }
}

fn collect_errors_x(toks: &Vec<(Token, Span)>, i: usize) -> (r: Vec<ParseError>)
    requires
        i <= toks@.len(),
    ensures
        r@ == spec_collect_errors(toks_model(toks@), i as int),
    decreases toks@.len() - i, 8int,
{
    proof {
        lemma_tm(toks@);
    }
    let n = toks.len();
    match parse_expr_x(toks, i) {
        Ok((_, j)) => {
            if j >= n {
                let r: Vec<ParseError> = Vec::new();
                proof {
                    assert(r@ =~= spec_collect_errors(toks_model(toks@), i as int));
                }
                r
            } else {
                let (e, _) = err_at_x(toks, j, ParseErrorKind::TrailingTokens);
                let mut r: Vec<ParseError> = Vec::new();
                r.push(e);
                let mut rest = collect_errors_x(toks, j + 1);
                let ghost restm = rest@;
                let mut k: usize = 0;
                while k < rest.len()
                    invariant
                        k <= restm.len(),
                        rest@ == restm,
                        r@ == seq![e] + restm.subrange(0, k as int),
                    decreases restm.len() - k,
                {
                    let x = rest[k];
                    r.push(x);
                    k += 1;
                    proof {
                        assert(seq![e] + restm.subrange(0, k as int) =~= (seq![e]
                            + restm.subrange(0, k - 1)).push(restm[k - 1]));
                    }
                }
                proof {
                    assert(restm.subrange(0, restm.len() as int) =~= restm);
                    assert(r@ =~= spec_collect_errors(toks_model(toks@), i as int));
                }
                r
            }
        },
        Err((e, fi)) => {
            let mut r: Vec<ParseError> = Vec::new();
            r.push(e);
            if fi >= i && fi < n {
                let mut rest = collect_errors_x(toks, fi + 1);
                let ghost restm = rest@;
                let mut k: usize = 0;
                while k < rest.len()
                    invariant
                        k <= restm.len(),
                        rest@ == restm,
                        r@ == seq![e] + restm.subrange(0, k as int),
                    decreases restm.len() - k,
                {
                    let x = rest[k];
                    r.push(x);
                    k += 1;
                    proof {
                        assert(seq![e] + restm.subrange(0, k as int) =~= (seq![e]
                            + restm.subrange(0, k - 1)).push(restm[k - 1]));
                    }
                }
                proof {
                    assert(restm.subrange(0, restm.len() as int) =~= restm);
                    assert(r@ =~= spec_collect_errors(toks_model(toks@), i as int));
                }
                r
            } else {
                proof {
                    assert(r@ =~= spec_collect_errors(toks_model(toks@), i as int));
                }
                r
            }
        },
    }
}

/// Parses a token list into one tree covering the whole input, or the
/// non-empty collection of errors met across the attempt.
pub fn parser(toks: &Vec<(Token, Span)>) -> (r: Result<Ast, Vec<ParseError>>)
    ensures
        match r {
            Ok(ast) => spec_parse_toks(toks_model(toks@)) == Ok::<SpecAst, Seq<ParseError>>(
                ast_model(ast),
            ) && ast_wf(ast),
            Err(es) => spec_parse_toks(toks_model(toks@)) == Err::<SpecAst, Seq<ParseError>>(es@)
                && es@.len() > 0,
        },
{
    proof {
        lemma_tm(toks@);
    }
    let n = toks.len();
    match parse_expr_x(toks, 0) {
        Ok((ast, j)) => {
            if j == n {
                Ok(ast)
            } else {
                let es = collect_errors_x(toks, 0);
                proof {
                    assert(spec_collect_errors(toks_model(toks@), 0).len() >= 1);
                }
                Err(es)
            }
        },
        Err(_) => {
            let es = collect_errors_x(toks, 0);
            proof {
                assert(spec_collect_errors(toks_model(toks@), 0).len() >= 1);
            }
            Err(es)
        },
    }
}

} // verus!
