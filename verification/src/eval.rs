use vstd::prelude::*;

use crate::dyn_function::{adapted_behavior, raw_behavior, IntoDynFn};
use crate::errors::EvalError;
use crate::runtime::{eval_full, Runtime};
use crate::stdlib::{install_stdlib, is_stdlib_name, stdlib_installed, Stdlib};
use crate::value::{FromValueMulti, IntoValue, Value};

verus! {

/// The embeddable evaluator: a `Runtime` under the interface the
/// library exposes at its root.
pub struct Rustua {
    rt: Runtime,
}

impl Rustua {
    /// The runtime this evaluator wraps.
    pub closed spec fn inner(&self) -> Runtime {
        self.rt
    }

    /// An evaluator whose registry holds the six standard functions
    /// and nothing else.
    pub fn new() -> (r: Rustua)
        ensures
            stdlib_installed(r.inner()),
            forall|n: Seq<char>| !is_stdlib_name(n) ==> #[trigger] r.inner().spec_lookup(n) is None,
    {
        Rustua { rt: Runtime::new() }
    }

    /// Registers a statically typed function under a name: its
    /// arguments and result are marshalled automatically.
    pub fn register_function<F, A, R>(self, name: &str, func: F) -> (r: Rustua) where
        F: IntoDynFn + 'static + Fn(A) -> R,
        A: FromValueMulti + 'static,
        R: IntoValue + 'static,

        requires
            forall|a: A| #[trigger] call_requires(func, (a,)),
        ensures
            r.inner().spec_lookup(name@) is Some,
            forall|args: Seq<Value>, res: Result<Value, EvalError>|
                #[trigger] r.inner().fn_behavior(name@, args, res) ==> adapted_behavior(
                    func,
                    args,
                    res,
                ),
            forall|n: Seq<char>, args: Seq<Value>, res: Result<Value, EvalError>|
                n != name@ && #[trigger] self.inner().fn_behavior(n, args, res)
                    ==> r.inner().fn_behavior(n, args, res),
    {
        Rustua { rt: self.rt.register_function(name, func) }
    }

    /// Registers a function already shaped `Vec<Value> -> Result`,
    /// overriding any earlier entry under the same name.
    pub fn register_function_raw<F: 'static + Fn(Vec<Value>) -> Result<Value, EvalError>>(
        self,
        name: &str,
        func: F,
    ) -> (r: Rustua)
        requires
            forall|v: Vec<Value>| #[trigger] call_requires(func, (v,)),
        ensures
            r.inner().spec_lookup(name@) is Some,
            forall|args: Seq<Value>, res: Result<Value, EvalError>|
                #[trigger] r.inner().fn_behavior(name@, args, res) ==> raw_behavior(
                    func,
                    args,
                    res,
                ),
            forall|n: Seq<char>, args: Seq<Value>, res: Result<Value, EvalError>|
                n != name@ && #[trigger] self.inner().fn_behavior(n, args, res)
                    ==> r.inner().fn_behavior(n, args, res),
    {
        Rustua { rt: self.rt.register_function_raw(name, func) }
    }

    /// Parses and evaluates one expression.
    pub fn eval(&mut self, input: &str) -> (r: Result<Value, EvalError>)
        ensures
            *final(self) == *old(self),
            eval_full(old(self).inner(), input@, r),
    {
        self.rt.eval(input)
    }
}

impl Stdlib for Rustua {
    open spec fn registry(&self) -> Runtime {
        self.inner()
    }

    /// Registers `add`, `sub`, `mul`, `div`, `float` and `int`.
    fn prepare_stdlib(self) -> (r: Self) {
        Rustua { rt: install_stdlib(self.rt) }
    }
}

} // verus!
