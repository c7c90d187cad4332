use vstd::prelude::*;

verus! {

/// The payload of a transactional variable.
///
/// The runtime stores every committed payload in this closed-world tagged
/// union; the typed `TVar<T>` layer converts between `T` and `Value` at the
/// boundary, so the log and the commit machinery work on one concrete type.
#[derive(Clone)]
pub enum Value {
    Unit,
    Bool(bool),
    Int(i64),
    List(Vec<i64>),
    Opt(Option<i64>),
}

/// The mathematical shape of a payload.
pub enum ValueV {
    Unit,
    Bool(bool),
    Int(i64),
    List(Seq<i64>),
    Opt(Option<i64>),
}

impl View for Value {
    type V = ValueV;

    open spec fn view(&self) -> ValueV {
        match self {
            Value::Unit => ValueV::Unit,
            Value::Bool(b) => ValueV::Bool(*b),
            Value::Int(n) => ValueV::Int(*n),
            Value::List(v) => ValueV::List(v@),
            Value::Opt(o) => ValueV::Opt(*o),
        }
    }
}

/// An exact copy of a vector of integers.
fn clone_ints(v: &Vec<i64>) -> (r: Vec<i64>)
    ensures
        r@ == v@,
{
    let mut w: Vec<i64> = Vec::new();
    let mut i: usize = 0;
    while i < v.len()
        invariant
            i <= v.len(),
            w@ == v@.take(i as int),
        decreases v.len() - i,
    {
        w.push(v[i]);
        i += 1;
    }
    proof {
        assert(w@ =~= v@);
    }
    w
}

impl Value {
    /// A copy of the payload with the same mathematical shape.
    pub fn dup(&self) -> (r: Value)
        ensures
            r@ == self@,
    {
        match self {
            Value::Unit => Value::Unit,
            Value::Bool(b) => Value::Bool(*b),
            Value::Int(n) => Value::Int(*n),
            Value::List(v) => Value::List(clone_ints(v)),
            Value::Opt(o) => Value::Opt(*o),
        }
    }
}

/// A type that can live in a transactional variable.
///
/// `as_value` is the encoding into the runtime's payload union;
/// `is_value_of(v, x)` says that `x` is a decoding of the payload shape `v`.
/// Decoding a value's own encoding gives the value back. Decoding is total:
/// a payload of a foreign shape decodes to a fixed fallback, though the
/// typed API never stores one, since every handle of a variable carries the
/// variable's one payload type.
pub trait StmValue: Sized {
    spec fn as_value(&self) -> ValueV;

    spec fn is_value_of(v: ValueV, x: Self) -> bool;

    proof fn lemma_roundtrip(&self)
        ensures
            Self::is_value_of(self.as_value(), *self),
    ;

    fn to_value(&self) -> (r: Value)
        ensures
            r@ == self.as_value(),
    ;

    fn from_value(v: Value) -> (r: Self)
        ensures
            Self::is_value_of(v@, r),
    ;
}

impl StmValue for i64 {
    open spec fn as_value(&self) -> ValueV {
        ValueV::Int(*self)
    }

    open spec fn is_value_of(v: ValueV, x: i64) -> bool {
        match v {
            ValueV::Int(n) => x == n,
            _ => x == 0,
        }
    }

    proof fn lemma_roundtrip(&self) {
    }

    fn to_value(&self) -> (r: Value) {
        Value::Int(*self)
    }

    fn from_value(v: Value) -> (r: i64) {
        match v {
            Value::Int(n) => n,
            _ => 0,
        }
    }
}

impl StmValue for bool {
    open spec fn as_value(&self) -> ValueV {
        ValueV::Bool(*self)
    }

    open spec fn is_value_of(v: ValueV, x: bool) -> bool {
        match v {
            ValueV::Bool(b) => x == b,
            _ => x == false,
        }
    }

    proof fn lemma_roundtrip(&self) {
    }

    fn to_value(&self) -> (r: Value) {
        Value::Bool(*self)
    }

    fn from_value(v: Value) -> (r: bool) {
        match v {
            Value::Bool(b) => b,
            _ => false,
        }
    }
}

impl StmValue for Vec<i64> {
    open spec fn as_value(&self) -> ValueV {
        ValueV::List(self@)
    }

    open spec fn is_value_of(v: ValueV, x: Vec<i64>) -> bool {
        match v {
            ValueV::List(s) => x@ == s,
            _ => x@ == Seq::<i64>::empty(),
        }
    }

    proof fn lemma_roundtrip(&self) {
    }

    fn to_value(&self) -> (r: Value) {
        Value::List(clone_ints(self))
    }

    fn from_value(v: Value) -> (r: Vec<i64>) {
        match v {
            Value::List(w) => w,
            _ => {
                let w: Vec<i64> = Vec::new();
                proof {
                    assert(w@ =~= Seq::<i64>::empty());
                }
                w
            }
        }
    }
}

impl StmValue for Option<i64> {
    open spec fn as_value(&self) -> ValueV {
        ValueV::Opt(*self)
    }

    open spec fn is_value_of(v: ValueV, x: Option<i64>) -> bool {
        match v {
            ValueV::Opt(o) => x == o,
            _ => x == None::<i64>,
        }
    }

    proof fn lemma_roundtrip(&self) {
    }

    fn to_value(&self) -> (r: Value) {
        Value::Opt(*self)
    }

    fn from_value(v: Value) -> (r: Option<i64>) {
        match v {
            Value::Opt(o) => o,
            _ => None,
        }
    }
}

impl StmValue for () {
    open spec fn as_value(&self) -> ValueV {
        ValueV::Unit
    }

    open spec fn is_value_of(v: ValueV, x: ()) -> bool {
        true
    }

    proof fn lemma_roundtrip(&self) {
    }

    fn to_value(&self) -> (r: Value) {
        Value::Unit
    }

    fn from_value(v: Value) -> (r: ()) {
    }
}

} // verus!
