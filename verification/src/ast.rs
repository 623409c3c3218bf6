use vstd::prelude::*;

use crate::value::{value_wf, Value, ValueModel};

verus! {

/// The abstract syntax tree: a call of a named function on ordered
/// argument trees, or a fully decoded constant. The four arithmetic
/// operators desugar into calls named `add`, `sub`, `mul` and `div`.
#[derive(Debug)]
pub enum Ast {
    Call(String, Vec<Ast>),
    Constant(Value),
}

/// Mathematical model of an `Ast`.
pub enum SpecAst {
    Call(Seq<char>, Seq<SpecAst>),
    Constant(ValueModel),
}

pub open spec fn ast_model(a: Ast) -> SpecAst
    decreases a, 1int,
    via ast_model_decreases
{
    match a {
        Ast::Constant(v) => SpecAst::Constant(v@),
        Ast::Call(name, args) => SpecAst::Call(name@, asts_model(args@)),
    }
}

pub open spec fn asts_model(s: Seq<Ast>) -> Seq<SpecAst>
    decreases s, 0int,
    via asts_model_decreases
{
    if s.len() == 0 {
        Seq::empty()
    } else {
        seq![ast_model(s[0])] + asts_model(s.subrange(1, s.len() as int))
    }
}

#[via_fn]
proof fn ast_model_decreases(a: Ast) {
    match a {
        Ast::Constant(_) => {},
        Ast::Call(name, args) => {
            assert(decreases_to!(a => args));
            assert(decreases_to!(args => args@));
        },
    }
}

#[via_fn]
proof fn asts_model_decreases(s: Seq<Ast>) {
    if s.len() > 0 {
        assert(decreases_to!(s => s[0]));
        vstd::seq::axiom_seq_len_decreases(s, s.subrange(1, s.len() as int));
    }
}

/// Every constant in the tree is well formed.
pub open spec fn ast_wf(a: Ast) -> bool
    decreases a, 1int,
    via ast_wf_decreases
{
    match a {
        Ast::Constant(v) => value_wf(v),
        Ast::Call(name, args) => asts_wf(args@),
    }
}

pub open spec fn asts_wf(s: Seq<Ast>) -> bool
    decreases s, 0int,
    via asts_wf_decreases
{
    if s.len() == 0 {
        true
    } else {
        ast_wf(s[0]) && asts_wf(s.subrange(1, s.len() as int))
    }
}

#[via_fn]
proof fn ast_wf_decreases(a: Ast) {
    match a {
        Ast::Constant(_) => {},
        Ast::Call(name, args) => {
            assert(decreases_to!(a => args));
            assert(decreases_to!(args => args@));
        },
    }
}

#[via_fn]
proof fn asts_wf_decreases(s: Seq<Ast>) {
    if s.len() > 0 {
        assert(decreases_to!(s => s[0]));
        vstd::seq::axiom_seq_len_decreases(s, s.subrange(1, s.len() as int));
    }
}

/// Model of a two-element argument list, for the operator desugarings.
pub proof fn lemma_asts_model2(a: Ast, b: Ast)
    ensures
        asts_model(seq![a, b]) == seq![ast_model(a), ast_model(b)],
        asts_wf(seq![a, b]) == (ast_wf(a) && ast_wf(b)),
{
    let s = seq![a, b];
    let t = s.subrange(1, 2);
    assert(t =~= seq![b]);
    let u = seq![b].subrange(1, 1);
    assert(u =~= Seq::<Ast>::empty());
    assert(asts_model(u) =~= Seq::<SpecAst>::empty());
    assert(asts_model(seq![b]) == seq![ast_model(b)] + asts_model(u));
    assert(asts_model(seq![b]) =~= seq![ast_model(b)]);
    assert(asts_model(s) == seq![ast_model(a)] + asts_model(t));
    assert(asts_model(seq![a, b]) =~= seq![ast_model(a), ast_model(b)]);
    assert(asts_wf(u));
    assert(asts_wf(seq![b]) == ast_wf(b));
    assert(asts_wf(s) == (ast_wf(a) && ast_wf(b)));
}

/// Appending one tree to an argument list appends its model.
pub proof fn lemma_asts_model_push(s: Seq<Ast>, x: Ast)
    ensures
        asts_model(s.push(x)) == asts_model(s).push(ast_model(x)),
        asts_wf(s.push(x)) == (asts_wf(s) && ast_wf(x)),
    decreases s.len(),
{
    if s.len() == 0 {
        assert(s.push(x) =~= seq![x]);
        let u = seq![x].subrange(1, 1);
        assert(u =~= Seq::<Ast>::empty());
        assert(asts_model(u) =~= Seq::<SpecAst>::empty());
        assert(asts_model(seq![x]) == seq![ast_model(x)] + asts_model(u));
        assert(asts_model(s) =~= Seq::<SpecAst>::empty());
        assert(asts_model(s.push(x)) =~= asts_model(s).push(ast_model(x)));
        assert(asts_wf(u));
    } else {
        let t = s.subrange(1, s.len() as int);
        lemma_asts_model_push(t, x);
        let p = s.push(x);
        assert(p.len() == s.len() + 1);
        assert(p.subrange(1, p.len() as int) =~= t.push(x));
        assert(p[0] == s[0]);
        assert(asts_model(p) == seq![ast_model(s[0])] + asts_model(t.push(x)));
        assert(asts_model(s) == seq![ast_model(s[0])] + asts_model(t));
        assert(asts_model(s.push(x)) =~= asts_model(s).push(ast_model(x)));
        assert(asts_wf(p) == (ast_wf(s[0]) && asts_wf(t.push(x))));
    }
}

} // verus!
