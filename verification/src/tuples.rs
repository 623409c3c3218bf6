use vstd::prelude::*;

use crate::errors::EvalError;
use crate::value::{
    models_of, value_wf, ConvertError, FromValue, FromValueMulti, IntoValue, IntoValueMulti,
    Value, ValueModel,
};

verus! {

impl<A: IntoValue> IntoValueMulti for (A,) {
    open spec fn spec_into_value_multi(self) -> Seq<ValueModel> {
        seq![self.0.spec_into_value()]
    }

    fn into_value_multi(self) -> (r: Vec<Value>) {
        let mut v: Vec<Value> = Vec::new();
        v.push(self.0.into_value());
        proof {
            assert(models_of(v@) =~= self.spec_into_value_multi());
        }
        v
    }
}

impl<A: IntoValue, B: IntoValue> IntoValueMulti for (A, B) {
    open spec fn spec_into_value_multi(self) -> Seq<ValueModel> {
        seq![self.0.spec_into_value(), self.1.spec_into_value()]
    }

    fn into_value_multi(self) -> (r: Vec<Value>) {
        let mut v: Vec<Value> = Vec::new();
        v.push(self.0.into_value());
        v.push(self.1.into_value());
        proof {
            assert(models_of(v@) =~= self.spec_into_value_multi());
        }
        v
    }
}

impl<A: IntoValue, B: IntoValue, C: IntoValue> IntoValueMulti for (A, B, C) {
    open spec fn spec_into_value_multi(self) -> Seq<ValueModel> {
        seq![self.0.spec_into_value(), self.1.spec_into_value(), self.2.spec_into_value()]
    }

    fn into_value_multi(self) -> (r: Vec<Value>) {
        let mut v: Vec<Value> = Vec::new();
        v.push(self.0.into_value());
        v.push(self.1.into_value());
        v.push(self.2.into_value());
        proof {
            assert(models_of(v@) =~= self.spec_into_value_multi());
        }
        v
    }
}

impl<A: IntoValue, B: IntoValue, C: IntoValue, D: IntoValue> IntoValueMulti for (A, B, C, D) {
    open spec fn spec_into_value_multi(self) -> Seq<ValueModel> {
        seq![self.0.spec_into_value(), self.1.spec_into_value(), self.2.spec_into_value(), self.3.spec_into_value()]
    }

    fn into_value_multi(self) -> (r: Vec<Value>) {
        let mut v: Vec<Value> = Vec::new();
        v.push(self.0.into_value());
        v.push(self.1.into_value());
        v.push(self.2.into_value());
        v.push(self.3.into_value());
        proof {
            assert(models_of(v@) =~= self.spec_into_value_multi());
        }
        v
    }
}

impl<A: FromValue> FromValueMulti for (A,) {
    open spec fn from_value_multi_spec(vs: Seq<ValueModel>, r: Result<(A,), EvalError>) -> bool {
        if vs.len() != 1 {
            r matches Err(EvalError::ArityMismatch { expected, got }) && expected == 1 && got
                == vs.len()
        } else {
            match r {
                Ok(t) => A::from_value_spec(vs[0], Ok(t.0)),
                Err(e) => match e {
                    EvalError::TypeMismatch { position } => (position == 0 && A::from_value_spec(vs[0], Err(ConvertError::TypeMismatch))),
                    EvalError::RangeOverflow { position } => (position == 0 && A::from_value_spec(vs[0], Err(ConvertError::RangeOverflow))),
                    _ => false,
                },
            }
        }
    }

    fn from_value_multi(v: Vec<Value>) -> (r: Result<(A,), EvalError>) {
        if v.len() != 1 {
            return Err(EvalError::ArityMismatch { expected: 1, got: v.len() });
        }
        let mut v = v;
        let ghost orig = v@;
        proof {
            assert(v@[0] == orig[0]);
            assert(models_of(orig)[0] == orig[0]@);
        }
        let e0 = v.remove(0);
        proof {
            assert(v@ =~= orig.subrange(0int + 1, orig.len() as int));
        }
        let x0 = match A::from_value(e0) {
            Ok(x) => x,
            Err(ConvertError::TypeMismatch) => {
                return Err(EvalError::TypeMismatch { position: 0 });
            },
            Err(ConvertError::RangeOverflow) => {
                return Err(EvalError::RangeOverflow { position: 0 });
            },
        };
        Ok((x0,))
    }
}

impl<A: FromValue, B: FromValue> FromValueMulti for (A, B) {
    open spec fn from_value_multi_spec(vs: Seq<ValueModel>, r: Result<(A, B), EvalError>) -> bool {
        if vs.len() != 2 {
            r matches Err(EvalError::ArityMismatch { expected, got }) && expected == 2 && got
                == vs.len()
        } else {
            match r {
                Ok(t) => A::from_value_spec(vs[0], Ok(t.0)) && B::from_value_spec(vs[1], Ok(t.1)),
                Err(e) => match e {
                    EvalError::TypeMismatch { position } => (position == 0 && A::from_value_spec(vs[0], Err(ConvertError::TypeMismatch))) || ((exists|x0: A| A::from_value_spec(vs[0], Ok(x0))) && position == 1 && B::from_value_spec(vs[1], Err(ConvertError::TypeMismatch))),
                    EvalError::RangeOverflow { position } => (position == 0 && A::from_value_spec(vs[0], Err(ConvertError::RangeOverflow))) || ((exists|x0: A| A::from_value_spec(vs[0], Ok(x0))) && position == 1 && B::from_value_spec(vs[1], Err(ConvertError::RangeOverflow))),
                    _ => false,
                },
            }
        }
    }

    fn from_value_multi(v: Vec<Value>) -> (r: Result<(A, B), EvalError>) {
        if v.len() != 2 {
            return Err(EvalError::ArityMismatch { expected: 2, got: v.len() });
        }
        let mut v = v;
        let ghost orig = v@;
        proof {
            assert(v@[0] == orig[0]);
            assert(models_of(orig)[0] == orig[0]@);
        }
        let e0 = v.remove(0);
        proof {
            assert(v@ =~= orig.subrange(0int + 1, orig.len() as int));
        }
        let x0 = match A::from_value(e0) {
            Ok(x) => x,
            Err(ConvertError::TypeMismatch) => {
                return Err(EvalError::TypeMismatch { position: 0 });
            },
            Err(ConvertError::RangeOverflow) => {
                return Err(EvalError::RangeOverflow { position: 0 });
            },
        };
        proof {
            assert(v@[0] == orig[1]);
            assert(models_of(orig)[1] == orig[1]@);
        }
        let e1 = v.remove(0);
        proof {
            assert(v@ =~= orig.subrange(1int + 1, orig.len() as int));
        }
        let x1 = match B::from_value(e1) {
            Ok(x) => x,
            Err(ConvertError::TypeMismatch) => {
                return Err(EvalError::TypeMismatch { position: 1 });
            },
            Err(ConvertError::RangeOverflow) => {
                return Err(EvalError::RangeOverflow { position: 1 });
            },
        };
        Ok((x0, x1))
    }
}

impl<A: FromValue, B: FromValue, C: FromValue> FromValueMulti for (A, B, C) {
    open spec fn from_value_multi_spec(vs: Seq<ValueModel>, r: Result<(A, B, C), EvalError>) -> bool {
        if vs.len() != 3 {
            r matches Err(EvalError::ArityMismatch { expected, got }) && expected == 3 && got
                == vs.len()
        } else {
            match r {
                Ok(t) => A::from_value_spec(vs[0], Ok(t.0)) && B::from_value_spec(vs[1], Ok(t.1)) && C::from_value_spec(vs[2], Ok(t.2)),
                Err(e) => match e {
                    EvalError::TypeMismatch { position } => (position == 0 && A::from_value_spec(vs[0], Err(ConvertError::TypeMismatch))) || ((exists|x0: A| A::from_value_spec(vs[0], Ok(x0))) && position == 1 && B::from_value_spec(vs[1], Err(ConvertError::TypeMismatch))) || ((exists|x0: A| A::from_value_spec(vs[0], Ok(x0))) && (exists|x1: B| B::from_value_spec(vs[1], Ok(x1))) && position == 2 && C::from_value_spec(vs[2], Err(ConvertError::TypeMismatch))),
                    EvalError::RangeOverflow { position } => (position == 0 && A::from_value_spec(vs[0], Err(ConvertError::RangeOverflow))) || ((exists|x0: A| A::from_value_spec(vs[0], Ok(x0))) && position == 1 && B::from_value_spec(vs[1], Err(ConvertError::RangeOverflow))) || ((exists|x0: A| A::from_value_spec(vs[0], Ok(x0))) && (exists|x1: B| B::from_value_spec(vs[1], Ok(x1))) && position == 2 && C::from_value_spec(vs[2], Err(ConvertError::RangeOverflow))),
                    _ => false,
                },
            }
        }
    }

    fn from_value_multi(v: Vec<Value>) -> (r: Result<(A, B, C), EvalError>) {
        if v.len() != 3 {
            return Err(EvalError::ArityMismatch { expected: 3, got: v.len() });
        }
        let mut v = v;
        let ghost orig = v@;
        proof {
            assert(v@[0] == orig[0]);
            assert(models_of(orig)[0] == orig[0]@);
        }
        let e0 = v.remove(0);
        proof {
            assert(v@ =~= orig.subrange(0int + 1, orig.len() as int));
        }
        let x0 = match A::from_value(e0) {
            Ok(x) => x,
            Err(ConvertError::TypeMismatch) => {
                return Err(EvalError::TypeMismatch { position: 0 });
            },
            Err(ConvertError::RangeOverflow) => {
                return Err(EvalError::RangeOverflow { position: 0 });
            },
        };
        proof {
            assert(v@[0] == orig[1]);
            assert(models_of(orig)[1] == orig[1]@);
        }
        let e1 = v.remove(0);
        proof {
            assert(v@ =~= orig.subrange(1int + 1, orig.len() as int));
        }
        let x1 = match B::from_value(e1) {
            Ok(x) => x,
            Err(ConvertError::TypeMismatch) => {
                return Err(EvalError::TypeMismatch { position: 1 });
            },
            Err(ConvertError::RangeOverflow) => {
                return Err(EvalError::RangeOverflow { position: 1 });
            },
        };
        proof {
            assert(v@[0] == orig[2]);
            assert(models_of(orig)[2] == orig[2]@);
        }
        let e2 = v.remove(0);
        proof {
            assert(v@ =~= orig.subrange(2int + 1, orig.len() as int));
        }
        let x2 = match C::from_value(e2) {
            Ok(x) => x,
            Err(ConvertError::TypeMismatch) => {
                return Err(EvalError::TypeMismatch { position: 2 });
            },
            Err(ConvertError::RangeOverflow) => {
                return Err(EvalError::RangeOverflow { position: 2 });
            },
        };
        Ok((x0, x1, x2))
    }
}

impl<A: FromValue, B: FromValue, C: FromValue, D: FromValue> FromValueMulti for (A, B, C, D) {
    open spec fn from_value_multi_spec(vs: Seq<ValueModel>, r: Result<(A, B, C, D), EvalError>) -> bool {
        if vs.len() != 4 {
            r matches Err(EvalError::ArityMismatch { expected, got }) && expected == 4 && got
                == vs.len()
        } else {
            match r {
                Ok(t) => A::from_value_spec(vs[0], Ok(t.0)) && B::from_value_spec(vs[1], Ok(t.1)) && C::from_value_spec(vs[2], Ok(t.2)) && D::from_value_spec(vs[3], Ok(t.3)),
                Err(e) => match e {
                    EvalError::TypeMismatch { position } => (position == 0 && A::from_value_spec(vs[0], Err(ConvertError::TypeMismatch))) || ((exists|x0: A| A::from_value_spec(vs[0], Ok(x0))) && position == 1 && B::from_value_spec(vs[1], Err(ConvertError::TypeMismatch))) || ((exists|x0: A| A::from_value_spec(vs[0], Ok(x0))) && (exists|x1: B| B::from_value_spec(vs[1], Ok(x1))) && position == 2 && C::from_value_spec(vs[2], Err(ConvertError::TypeMismatch))) || ((exists|x0: A| A::from_value_spec(vs[0], Ok(x0))) && (exists|x1: B| B::from_value_spec(vs[1], Ok(x1))) && (exists|x2: C| C::from_value_spec(vs[2], Ok(x2))) && position == 3 && D::from_value_spec(vs[3], Err(ConvertError::TypeMismatch))),
                    EvalError::RangeOverflow { position } => (position == 0 && A::from_value_spec(vs[0], Err(ConvertError::RangeOverflow))) || ((exists|x0: A| A::from_value_spec(vs[0], Ok(x0))) && position == 1 && B::from_value_spec(vs[1], Err(ConvertError::RangeOverflow))) || ((exists|x0: A| A::from_value_spec(vs[0], Ok(x0))) && (exists|x1: B| B::from_value_spec(vs[1], Ok(x1))) && position == 2 && C::from_value_spec(vs[2], Err(ConvertError::RangeOverflow))) || ((exists|x0: A| A::from_value_spec(vs[0], Ok(x0))) && (exists|x1: B| B::from_value_spec(vs[1], Ok(x1))) && (exists|x2: C| C::from_value_spec(vs[2], Ok(x2))) && position == 3 && D::from_value_spec(vs[3], Err(ConvertError::RangeOverflow))),
                    _ => false,
                },
            }
        }
    }

    fn from_value_multi(v: Vec<Value>) -> (r: Result<(A, B, C, D), EvalError>) {
        if v.len() != 4 {
            return Err(EvalError::ArityMismatch { expected: 4, got: v.len() });
        }
        let mut v = v;
        let ghost orig = v@;
        proof {
            assert(v@[0] == orig[0]);
            assert(models_of(orig)[0] == orig[0]@);
        }
        let e0 = v.remove(0);
        proof {
            assert(v@ =~= orig.subrange(0int + 1, orig.len() as int));
        }
        let x0 = match A::from_value(e0) {
            Ok(x) => x,
            Err(ConvertError::TypeMismatch) => {
                return Err(EvalError::TypeMismatch { position: 0 });
            },
            Err(ConvertError::RangeOverflow) => {
                return Err(EvalError::RangeOverflow { position: 0 });
            },
        };
        proof {
            assert(v@[0] == orig[1]);
            assert(models_of(orig)[1] == orig[1]@);
        }
        let e1 = v.remove(0);
        proof {
            assert(v@ =~= orig.subrange(1int + 1, orig.len() as int));
        }
        let x1 = match B::from_value(e1) {
            Ok(x) => x,
            Err(ConvertError::TypeMismatch) => {
                return Err(EvalError::TypeMismatch { position: 1 });
            },
            Err(ConvertError::RangeOverflow) => {
                return Err(EvalError::RangeOverflow { position: 1 });
            },
        };
        proof {
            assert(v@[0] == orig[2]);
            assert(models_of(orig)[2] == orig[2]@);
        }
        let e2 = v.remove(0);
        proof {
            assert(v@ =~= orig.subrange(2int + 1, orig.len() as int));
        }
        let x2 = match C::from_value(e2) {
            Ok(x) => x,
            Err(ConvertError::TypeMismatch) => {
                return Err(EvalError::TypeMismatch { position: 2 });
            },
            Err(ConvertError::RangeOverflow) => {
                return Err(EvalError::RangeOverflow { position: 2 });
            },
        };
        proof {
            assert(v@[0] == orig[3]);
            assert(models_of(orig)[3] == orig[3]@);
        }
        let e3 = v.remove(0);
        proof {
            assert(v@ =~= orig.subrange(3int + 1, orig.len() as int));
        }
        let x3 = match D::from_value(e3) {
            Ok(x) => x,
            Err(ConvertError::TypeMismatch) => {
                return Err(EvalError::TypeMismatch { position: 3 });
            },
            Err(ConvertError::RangeOverflow) => {
                return Err(EvalError::RangeOverflow { position: 3 });
            },
        };
        Ok((x0, x1, x2, x3))
    }
}
} // verus!
