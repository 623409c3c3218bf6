use vstd::prelude::*;

use crate::errors::EvalError;
use crate::value::{models_of, value_wf, FromValueMulti, IntoValue, Value};
use core::marker::PhantomData;

verus! {

/// A uniform callable `Vec<Value> -> Result<Value, EvalError>`, the
/// shape every registered function is stored in.
pub trait DynFunction {
    /// On which argument vectors the callable may be invoked.
    spec fn callable(&self, args: Vec<Value>) -> bool;

    /// Which results a call may give on arguments with these values.
    spec fn behavior(&self, args: Seq<Value>, r: Result<Value, EvalError>) -> bool;

    fn call_with_vec_value(&self, args: Vec<Value>) -> (r: Result<Value, EvalError>)
        requires
            self.callable(args),
        ensures
            self.behavior(args@, r),
    ;
}

/// What calling a raw adapter may yield: whatever the wrapped function
/// may return on a vector holding these values.
pub open spec fn raw_behavior<F: Fn(Vec<Value>) -> Result<Value, EvalError>>(
    f: F,
    args: Seq<Value>,
    r: Result<Value, EvalError>,
) -> bool {
    exists|v: Vec<Value>| v@ == args && #[trigger] call_ensures(f, (v,), r)
}

/// Adapter around a function already shaped `Vec<Value> -> Result`:
/// the escape hatch for variable arity and mixed argument types.
pub struct RawAdapter<F: Fn(Vec<Value>) -> Result<Value, EvalError>> {
    pub f: F,
}

impl<F: Fn(Vec<Value>) -> Result<Value, EvalError>> DynFunction for RawAdapter<F> {
    open spec fn callable(&self, args: Vec<Value>) -> bool {
        call_requires(self.f, (args,))
    }

    open spec fn behavior(&self, args: Seq<Value>, r: Result<Value, EvalError>) -> bool {
        raw_behavior(self.f, args, r)
    }

    fn call_with_vec_value(&self, args: Vec<Value>) -> (r: Result<Value, EvalError>) {
        let ghost gargs = args;
        let r = (self.f)(args);
        proof {
            assert(gargs@ == gargs@ && call_ensures(self.f, (gargs,), r));
        }
        r
    }
}

/// What calling a typed adapter may yield: the argument vector decodes
/// to a native tuple, the function is applied, and its result encodes
/// back; a decode failure is returned as it is.
pub open spec fn adapted_behavior<F: Fn(A) -> R, A: FromValueMulti, R: IntoValue>(
    f: F,
    args: Seq<Value>,
    r: Result<Value, EvalError>,
) -> bool {
    match r {
        Err(e) => A::from_value_multi_spec(models_of(args), Err(e)),
        Ok(val) => exists|a: A, out: R|
            A::from_value_multi_spec(models_of(args), Ok(a)) && #[trigger] call_ensures(
                f,
                (a,),
                out,
            ) && val@ == out.spec_into_value() && value_wf(val),
    }
}

/// Adapter that marshals a statically typed host function: arguments
/// decode positionally into the native tuple, and the return value
/// encodes into a `Value`.
pub struct FnAdapter<F, A, R> {
    pub f: F,
    pub marker: PhantomData<(A, R)>,
}

impl<F: Fn(A) -> R, A: FromValueMulti, R: IntoValue> FnAdapter<F, A, R> {
    pub fn new(f: F) -> (r: FnAdapter<F, A, R>)
        ensures
            r.f == f,
    {
        FnAdapter { f, marker: PhantomData }
    }
}

impl<F: Fn(A) -> R, A: FromValueMulti, R: IntoValue> DynFunction for FnAdapter<F, A, R> {
    open spec fn callable(&self, args: Vec<Value>) -> bool {
        forall|a: A|
            A::from_value_multi_spec(models_of(args@), Ok(a)) ==> call_requires(self.f, (a,))
    }

    open spec fn behavior(&self, args: Seq<Value>, r: Result<Value, EvalError>) -> bool {
        adapted_behavior(self.f, args, r)
    }

    fn call_with_vec_value(&self, args: Vec<Value>) -> (r: Result<Value, EvalError>) {
        let ghost gargs = args@;
        match A::from_value_multi(args) {
            Err(e) => Err(e),
            Ok(a) => {
                let ghost ga = a;
                let out = (self.f)(a);
                let val = out.into_value();
                proof {
                    assert(A::from_value_multi_spec(models_of(gargs), Ok(ga)) && call_ensures(
                        self.f,
                        (ga,),
                        out,
                    ) && val@ == out.spec_into_value() && value_wf(val));
                }
                Ok(val)
            },
        }
    }
}

/// A registered callable, boxed for dynamic dispatch.
pub struct Adapter {
    pub func: Box<dyn DynFunction>,
}

/// Conversion of a typed host function into a boxed dynamic callable.
pub trait IntoDynFn: Sized {
    fn into_dyn_fn<A: FromValueMulti + 'static, R: IntoValue + 'static>(self) -> (r: Adapter) where
        Self: 'static + Fn(A) -> R
        ensures
            forall|args: Vec<Value>|
                #[trigger] r.func.callable(args) <==> (forall|a: A|
                    A::from_value_multi_spec(models_of(args@), Ok(a)) ==> call_requires(
                        self,
                        (a,),
                    )),
            forall|args: Seq<Value>, res: Result<Value, EvalError>|
                #[trigger] r.func.behavior(args, res) <==> adapted_behavior(self, args, res),
    ;
}

impl<F> IntoDynFn for F {
    fn into_dyn_fn<A: FromValueMulti + 'static, R: IntoValue + 'static>(self) -> (r: Adapter) where
        F: 'static + Fn(A) -> R {
        let ghost gf = self;
        let adapter = FnAdapter::<F, A, R>::new(self);
        proof {
            assert(adapter.f == gf);
        }
        Adapter { func: Box::new(adapter) }
    }
}

} // verus!
