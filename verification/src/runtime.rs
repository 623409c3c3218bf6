use vstd::prelude::*;

use crate::ast::Ast;
use crate::dyn_function::{adapted_behavior, raw_behavior, DynFunction, RawAdapter, IntoDynFn};
use crate::errors::EvalError;
use crate::lexer::{spec_lex, tokenize};
use crate::parser::{parser, spec_parse_toks, toks_model};
use crate::value::{FromValueMulti, IntoValue, Value};

verus! {

/// The callables of the registry, in registration order. Verus cannot
/// follow boxed trait objects through a collection, so the vector
/// stands behind trusted items that state what growing and indexing it
/// do; the names are kept outside, in verified code.
#[verifier::external_body]
pub struct FnTable {
    inner: Vec<Box<dyn DynFunction>>,
}

/// How many callables the table holds.
pub uninterp spec fn table_len(t: FnTable) -> nat;

/// Which results calling the table's i-th callable may give on
/// arguments with these values.
pub uninterp spec fn table_behavior(
    t: FnTable,
    i: int,
    args: Seq<Value>,
    r: Result<Value, EvalError>,
) -> bool;

impl FnTable {
    /// Relies on Vec::new: the empty table.
    #[verifier::external_body]
    fn new() -> (r: FnTable)
        ensures
            table_len(r) == 0,
    {
        FnTable { inner: Vec::new() }
    }

    /// Relies on Vec::push and Box::new: the callable is boxed and
    /// appended at the old length; every earlier place keeps its
    /// callable, and so its behavior. Only callables total in their
    /// arguments enter the table.
    #[verifier::external_body]
    fn push<D: DynFunction + 'static>(&mut self, d: D)
        requires
            forall|v: Vec<Value>| #[trigger] d.callable(v),
        ensures
            table_len(*final(self)) == table_len(*old(self)) + 1,
            forall|args: Seq<Value>, r: Result<Value, EvalError>|
                #[trigger] table_behavior(
                    *final(self),
                    table_len(*old(self)) as int,
                    args,
                    r,
                ) <==> d.behavior(args, r),
            forall|i: int, args: Seq<Value>, r: Result<Value, EvalError>|
                0 <= i < table_len(*old(self)) ==> (#[trigger] table_behavior(
                    *final(self),
                    i,
                    args,
                    r,
                ) <==> table_behavior(*old(self), i, args, r)),
    {
        self.inner.push(Box::new(d));
    }

    /// Relies on Vec indexing: invokes the i-th stored callable, whose
    /// admissible results its behavior names; `push` admits only
    /// callables total in their arguments.
    #[verifier::external_body]
    fn call(&self, i: usize, args: Vec<Value>) -> (r: Result<Value, EvalError>)
        requires
            (i as nat) < table_len(*self),
        ensures
            table_behavior(*self, i as int, args@, r),
    {
        self.inner[i].call_with_vec_value(args)
    }
}

/// Position of the last entry with this name: the latest registration
/// wins.
pub closed spec fn lookup_pos(names: Seq<String>, name: Seq<char>) -> Option<int>
    decreases names.len(),
{
    if names.len() == 0 {
        None
    } else if names.last()@ == name {
        Some(names.len() - 1)
    } else {
        lookup_pos(names.drop_last(), name)
    }
}

pub proof fn lemma_lookup_pos_bounds(names: Seq<String>, name: Seq<char>)
    ensures
        match lookup_pos(names, name) {
            Some(k) => 0 <= k < names.len() && names[k]@ == name,
            None => true,
        },
    decreases names.len(),
{
    if names.len() > 0 && names.last()@ != name {
        lemma_lookup_pos_bounds(names.drop_last(), name);
    }
}

/// Appending a name shadows only that name.
pub proof fn lemma_lookup_pos_push(names: Seq<String>, key: String, n: Seq<char>)
    ensures
        key@ == n ==> lookup_pos(names.push(key), n) == Some(names.len() as int),
        key@ != n ==> lookup_pos(names.push(key), n) == lookup_pos(names, n),
{
    assert(names.push(key).drop_last() =~= names);
}

/// The evaluator: a registry from function name to one adapter,
/// consulted by every evaluated call. Registering a name again
/// overwrites the previous entry.
pub struct Runtime {
    names: Vec<String>,
    table: FnTable,
}

impl Runtime {
    /// The registry holds one callable for each registered name.
    #[verifier::type_invariant]
    pub closed spec fn rt_wf(&self) -> bool {
        self.names@.len() == table_len(self.table)
    }

    /// Where the registry resolves this name, if anywhere.
    pub closed spec fn spec_lookup(&self, name: Seq<char>) -> Option<int> {
        lookup_pos(self.names@, name)
    }

    /// Which results dispatching this name may give.
    pub closed spec fn fn_behavior(
        &self,
        name: Seq<char>,
        args: Seq<Value>,
        r: Result<Value, EvalError>,
    ) -> bool {
        &&& self.spec_lookup(name) is Some
        &&& table_behavior(self.table, self.spec_lookup(name)->Some_0, args, r)
    }
}

/// What dispatching `name` on already-evaluated arguments may return:
/// an unknown name fails with `FunctionNotFound`; otherwise any result
/// the registered adapter admits, its failures wrapped in `InCall`.
pub open spec fn call_result_rel(
    rt: Runtime,
    name: Seq<char>,
    vals: Seq<Value>,
    r: Result<Value, EvalError>,
) -> bool {
    if rt.spec_lookup(name) is None {
        r matches Err(EvalError::FunctionNotFound(n)) && n@ == name
    } else {
        exists|r0: Result<Value, EvalError>|
            #[trigger] rt.fn_behavior(name, vals, r0) && (match r0 {
                Ok(v) => r == Ok::<Value, EvalError>(v),
                Err(e0) => r matches Err(EvalError::InCall(n, b)) && n@ == name && *b == e0,
            })
    }
}

/// Big-step evaluation: constants yield their value; calls evaluate
/// their arguments left to right, stopping at the first failure
/// (wrapped in `InArgs`), then dispatch through the registry.
pub open spec fn eval_rel(rt: Runtime, ast: Ast, r: Result<Value, EvalError>) -> bool
    decreases ast,
    via eval_rel_decreases
{
    match ast {
        Ast::Constant(v) => r == Ok::<Value, EvalError>(v),
        Ast::Call(name, args) => ((r matches Err(EvalError::InArgs(n, b)) && n@ == name@
            && (exists|k: int, vals: Seq<Value>|
            #![trigger vals.len(), args@.subrange(0, k)]
            0 <= k < args@.len() && vals.len() == k && (forall|i: int|
                0 <= i < k ==> eval_rel(rt, #[trigger] args@[i], Ok(vals[i]))) && eval_rel(
                rt,
                args@[k],
                Err(*b),
            ))) || (exists|vals: Seq<Value>|
            #![trigger vals.len(), call_result_rel(rt, name@, vals, r)]
            vals.len() == args@.len() && (forall|i: int|
                0 <= i < args@.len() ==> eval_rel(rt, #[trigger] args@[i], Ok(vals[i])))
                && call_result_rel(rt, name@, vals, r))),
    }
}

#[via_fn]
proof fn eval_rel_decreases(rt: Runtime, ast: Ast, r: Result<Value, EvalError>) {
    match ast {
        Ast::Constant(_) => {},
        Ast::Call(name, args) => {
            assert(decreases_to!(ast => args));
            assert(decreases_to!(args => args@));
            assert forall|k: int| 0 <= k < args@.len() implies decreases_to!(ast => args@[k]) by {
                assert(decreases_to!(args@ => args@[k]));
            }
        },
    }
}

/// Each tree of `args` evaluates to the matching value of `vals`.
pub open spec fn evals_to_rel(rt: Runtime, args: Seq<Ast>, vals: Seq<Value>) -> bool {
    vals.len() == args.len() && (forall|i: int|
        0 <= i < args.len() ==> eval_rel(rt, #[trigger] args[i], Ok(vals[i])))
}

/// Evaluation of a whole source text: a parse failure surfaces all its
/// errors; otherwise the result is an evaluation of the tree the
/// source parses to.
pub open spec fn eval_full(rt: Runtime, src: Seq<char>, r: Result<Value, EvalError>) -> bool {
    match spec_parse_toks(spec_lex(src)) {
        Err(errs) => r matches Err(EvalError::Parse(es)) && es@ == errs,
        Ok(sa) => exists|ast: Ast|
            #[trigger] crate::ast::ast_model(ast) == sa && crate::ast::ast_wf(ast) && eval_rel(
                rt,
                ast,
                r,
            ),
    }
}

impl Runtime {
    /// An empty registry.
    pub(crate) fn empty() -> (r: Runtime)
        ensures
            forall|n: Seq<char>| #[trigger] r.spec_lookup(n) is None,
    {
        let rt = Runtime { names: Vec::new(), table: FnTable::new() };
        rt
    }

    /// Registers a function already shaped `Vec<Value> -> Result`,
    /// overriding any earlier entry under the same name.
    pub fn register_function_raw<F: 'static + Fn(Vec<Value>) -> Result<Value, EvalError>>(
        self,
        name: &str,
        func: F,
    ) -> (r: Runtime)
        requires
            forall|v: Vec<Value>| #[trigger] call_requires(func, (v,)),
        ensures
            r.spec_lookup(name@) is Some,
            forall|args: Seq<Value>, res: Result<Value, EvalError>|
                #[trigger] r.fn_behavior(name@, args, res) ==> raw_behavior(func, args, res),
            forall|n: Seq<char>, args: Seq<Value>, res: Result<Value, EvalError>|
                n != name@ && #[trigger] self.fn_behavior(n, args, res) ==> r.fn_behavior(
                    n,
                    args,
                    res,
                ),
            forall|n: Seq<char>, args: Seq<Value>, res: Result<Value, EvalError>|
                n != name@ && #[trigger] r.fn_behavior(n, args, res) ==> self.fn_behavior(
                    n,
                    args,
                    res,
                ),
            forall|n: Seq<char>|
                n != name@ ==> (#[trigger] r.spec_lookup(n) is Some <==> self.spec_lookup(
                    n,
                ) is Some),
    {
        let ghost gf = func;
        let adapter = RawAdapter { f: func };
        let ghost gad = adapter;
        proof {
            assert(adapter.f == gf);
            assert(forall|v: Vec<Value>| #[trigger] gad.callable(v));
            assert(forall|args: Seq<Value>, res: Result<Value, EvalError>|
                #[trigger] gad.behavior(args, res) ==> raw_behavior(gf, args, res));
        }
        proof {
            use_type_invariant(&self);
        }
        let ghost gself = self;
        let Runtime { names, table } = self;
        let mut names = names;
        let mut table = table;
        let key = String::from_str(name);
        let ghost gkey = key;
        let ghost oldnames = names@;
        names.push(key);
        table.push(adapter);
        let rt = Runtime { names, table };
        proof {
            lemma_lookup_pos_push(oldnames, gkey, name@);
            assert forall|n: Seq<char>| n != name@ implies #[trigger] lookup_pos(rt.names@, n)
                == lookup_pos(oldnames, n) by {
                lemma_lookup_pos_push(oldnames, gkey, n);
            }
            assert forall|n: Seq<char>, args: Seq<Value>, res: Result<Value, EvalError>|
                n != name@ && #[trigger] gself.fn_behavior(n, args, res) implies rt.fn_behavior(
                n,
                args,
                res,
            ) by {
                lemma_lookup_pos_bounds(oldnames, n);
            }
            assert forall|n: Seq<char>, args: Seq<Value>, res: Result<Value, EvalError>|
                n != name@ && #[trigger] rt.fn_behavior(n, args, res) implies gself.fn_behavior(
                n,
                args,
                res,
            ) by {
                lemma_lookup_pos_bounds(oldnames, n);
            }
        }
        rt
    }

    /// Registers a statically typed function under a name: its
    /// arguments and result are marshalled automatically.
    pub fn register_function<F, A, R>(self, name: &str, func: F) -> (r: Runtime) where
        F: IntoDynFn + 'static + Fn(A) -> R,
        A: FromValueMulti + 'static,
        R: IntoValue + 'static,

        requires
            forall|a: A| #[trigger] call_requires(func, (a,)),
        ensures
            r.spec_lookup(name@) is Some,
            forall|args: Seq<Value>, res: Result<Value, EvalError>|
                #[trigger] r.fn_behavior(name@, args, res) ==> adapted_behavior(func, args, res),
            forall|n: Seq<char>, args: Seq<Value>, res: Result<Value, EvalError>|
                n != name@ && #[trigger] self.fn_behavior(n, args, res) ==> r.fn_behavior(
                    n,
                    args,
                    res,
                ),
            forall|n: Seq<char>, args: Seq<Value>, res: Result<Value, EvalError>|
                n != name@ && #[trigger] r.fn_behavior(n, args, res) ==> self.fn_behavior(
                    n,
                    args,
                    res,
                ),
            forall|n: Seq<char>|
                n != name@ ==> (#[trigger] r.spec_lookup(n) is Some <==> self.spec_lookup(
                    n,
                ) is Some),
    {
        let ghost gf = func;
        let adapter = crate::dyn_function::FnAdapter::<F, A, R>::new(func);
        let ghost gad = adapter;
        proof {
            assert(adapter.f == gf);
            assert(forall|v: Vec<Value>| #[trigger] gad.callable(v));
            assert(forall|args: Seq<Value>, res: Result<Value, EvalError>|
                #[trigger] gad.behavior(args, res) ==> adapted_behavior(gf, args, res));
        }
        proof {
            use_type_invariant(&self);
        }
        let ghost gself = self;
        let Runtime { names, table } = self;
        let mut names = names;
        let mut table = table;
        let key = String::from_str(name);
        let ghost gkey = key;
        let ghost oldnames = names@;
        names.push(key);
        table.push(adapter);
        let rt = Runtime { names, table };
        proof {
            lemma_lookup_pos_push(oldnames, gkey, name@);
            assert forall|n: Seq<char>| n != name@ implies #[trigger] lookup_pos(rt.names@, n)
                == lookup_pos(oldnames, n) by {
                lemma_lookup_pos_push(oldnames, gkey, n);
            }
            assert forall|n: Seq<char>, args: Seq<Value>, res: Result<Value, EvalError>|
                n != name@ && #[trigger] gself.fn_behavior(n, args, res) implies rt.fn_behavior(
                n,
                args,
                res,
            ) by {
                lemma_lookup_pos_bounds(oldnames, n);
            }
            assert forall|n: Seq<char>, args: Seq<Value>, res: Result<Value, EvalError>|
                n != name@ && #[trigger] rt.fn_behavior(n, args, res) implies gself.fn_behavior(
                n,
                args,
                res,
            ) by {
                lemma_lookup_pos_bounds(oldnames, n);
            }
        }
        rt
    }

    /// Index of the entry the registry resolves this name to: the last
    /// registration under it.
    fn lookup_idx(&self, name: &String) -> (r: Option<usize>)
        ensures
            match r {
                Some(i) => self.spec_lookup(name@) == Some(i as int),
                None => self.spec_lookup(name@) is None,
            },
    {
        let n = self.names.len();
        let mut i: usize = n;
        proof {
            assert(self.names@.subrange(0, n as int) =~= self.names@);
        }
        while i > 0
            invariant
                i <= n,
                n == self.names@.len(),
                lookup_pos(self.names@, name@) == lookup_pos(
                    self.names@.subrange(0, i as int),
                    name@,
                ),
            decreases i,
        {
            let ghost pre = self.names@.subrange(0, i as int);
            i -= 1;
            proof {
                assert(pre.last() == self.names@[i as int]);
                assert(pre.drop_last() =~= self.names@.subrange(0, i as int));
            }
            if <String as PartialEq>::eq(&self.names[i], name) {
                return Some(i);
            }
        }
        proof {
            assert(self.names@.subrange(0, 0) =~= Seq::<String>::empty());
        }
        None
    }

    /// Walks one tree: constants yield their value, calls evaluate
    /// their arguments eagerly left to right and dispatch through the
    /// registry.
    fn eval_ast(&self, ast: Ast) -> (r: Result<Value, EvalError>)
        ensures
            eval_rel(*self, ast, r),
        decreases ast, 1int,
    {
        let ghost g_ast = ast;
        match ast {
            Ast::Constant(v) => Ok(v),
            Ast::Call(name, args) => self.eval_call(name, args, Ghost(g_ast)),
        }
    }

    /// Dispatches one call node: all arguments first, left to right,
    /// then the named function.
    fn eval_call(&self, name: String, args: Vec<Ast>, m: Ghost<Ast>) -> (r: Result<
        Value,
        EvalError,
    >)
        requires
            m@ is Call,
            m@->Call_0 == name,
            m@->Call_1@ == args@,
        ensures
            eval_rel(*self, m@, r),
        decreases m@, 0int,
    {
        proof {
            use_type_invariant(&*self);
        }
        let ghost orig = args@;
        let mut args = args;
        let mut vals: Vec<Value> = Vec::new();
        let n = args.len();
        let mut k: usize = 0;
        proof {
            assert(orig.subrange(0, 0) =~= Seq::<Ast>::empty());
        }
        while k < n
            invariant
                self.rt_wf(),
                k <= n,
                n == orig.len(),
                args@ == orig.subrange(k as int, n as int),
                vals@.len() == k,
                evals_to_rel(*self, orig.subrange(0, k as int), vals@),
                m@ is Call,
                m@->Call_1@ == orig,
                m@->Call_0 == name,
            decreases n - k,
        {
            let ghost pre = args@;
            proof {
                assert(pre[0] == orig[k as int]);
            }
            let a = args.remove(0);
            proof {
                assert(args@ =~= orig.subrange(k + 1, n as int));
                assert(decreases_to!(m@ => m@->Call_1));
                assert(decreases_to!(m@->Call_1 => m@->Call_1@));
                assert(decreases_to!(orig => orig[k as int]));
            }
            match self.eval_ast(a) {
                Ok(v) => {
                    let ghost old_vals = vals@;
                    vals.push(v);
                    k += 1;
                    proof {
                        assert(orig.subrange(0, k as int) =~= orig.subrange(0, k - 1).push(
                            orig[k - 1]));
                        assert(vals@ =~= old_vals.push(v));
                        assert(evals_to_rel(*self, orig.subrange(0, k as int), vals@)) by {
                            assert(forall|i: int|
                                0 <= i < k - 1 ==> orig.subrange(0, k as int)[i]
                                    == #[trigger] orig.subrange(0, k - 1)[i]);
                            assert(orig.subrange(0, k as int)[k - 1] == orig[k - 1]);
                        }
                    }
                },
                Err(e) => {
                    let ghost ge = e;
                    let ghost gvals = vals@;
                    let out = Err(EvalError::InArgs(name, Box::new(e)));
                    proof {
                        let kk = k as int;
                        let gargs = m@->Call_1;
                        assert(gvals.len() == kk);
                        assert forall|i: int| 0 <= i < kk implies eval_rel(
                            *self,
                            #[trigger] gargs@[i],
                            Ok(gvals[i]),
                        ) by {
                            assert(orig.subrange(0, kk)[i] == gargs@[i]);
                        }
                        assert(eval_rel(*self, gargs@[kk], Err(ge)));
                        assert(out matches Err(EvalError::InArgs(n2, b2)) && n2@ == m@->Call_0@
                            && *b2 == ge);
                        assert(eval_rel(*self, m@, out));
                    }
                    return out;
                },
            }
        }
        proof {
            assert(orig.subrange(0, n as int) =~= orig);
        }
        let ghost gvals_all = vals@;
        proof {
            assert(evals_to_rel(*self, m@->Call_1@, gvals_all));
        }
        match self.lookup_idx(&name) {
            None => {
                let out = Err(EvalError::FunctionNotFound(name));
                proof {
                    assert(call_result_rel(*self, m@->Call_0@, gvals_all, out));
                    assert(m@ == Ast::Call(m@->Call_0, m@->Call_1));
                    assert(eval_rel(*self, Ast::Call(m@->Call_0, m@->Call_1), out));
                    assert(eval_rel(*self, m@, out));
                }
                out
            },
            Some(i) => {
                proof {
                    lemma_lookup_pos_bounds(self.names@, name@);
                }
                let res = self.table.call(i, vals);
                match res {
                    Ok(v) => {
                        let out = Ok(v);
                        proof {
                            let r0 = Ok::<Value, EvalError>(v);
                            assert(self.fn_behavior(name@, gvals_all, r0));
                            assert(call_result_rel(*self, m@->Call_0@, gvals_all, out));
                            assert(m@ == Ast::Call(m@->Call_0, m@->Call_1));
                            assert(eval_rel(*self, Ast::Call(m@->Call_0, m@->Call_1), out));
                            assert(eval_rel(*self, m@, out));
                        }
                        out
                    },
                    Err(e0) => {
                        let ghost ge0 = e0;
                        let out = Err(EvalError::InCall(name, Box::new(e0)));
                        proof {
                            let r0 = Err::<Value, EvalError>(ge0);
                            assert(self.fn_behavior(name@, gvals_all, r0));
                            assert(call_result_rel(*self, m@->Call_0@, gvals_all, out));
                            assert(m@ == Ast::Call(m@->Call_0, m@->Call_1));
                            assert(eval_rel(*self, Ast::Call(m@->Call_0, m@->Call_1), out));
                            assert(eval_rel(*self, m@, out));
                        }
                        out
                    },
                }
            },
        }
    }

    /// Parses and evaluates one expression.
    pub fn eval(&mut self, input: &str) -> (r: Result<Value, EvalError>)
        ensures
            *final(self) == *old(self),
            eval_full(*old(self), input@, r),
    {
        let toks = tokenize(input);
        proof {
            assert(toks_model(toks@) =~= spec_lex(input@));
        }
        match parser(&toks) {
            Err(es) => Err(EvalError::Parse(es)),
            Ok(ast) => {
                let ghost gast = ast;
                let r = self.eval_ast(ast);
                proof {
                    assert(crate::ast::ast_model(gast) == spec_parse_toks(
                        spec_lex(input@),
                    )->Ok_0);
                }
                r
            },
        }
    }
}

/// Parses and evaluates one expression against the given runtime's
/// registry.
pub fn eval(rt: &mut Runtime, input: &str) -> (r: Result<Value, EvalError>)
    ensures
        *final(rt) == *old(rt),
        eval_full(*old(rt), input@, r),
{
    rt.eval(input)
}

} // verus!
