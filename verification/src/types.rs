//! WebAssembly types.

use vstd::prelude::*;

verus! {

/// A WebAssembly value type.
#[derive(Clone, Copy, Debug, PartialEq, Eq, Structural)]
pub enum ValueType {
    I32,
    I64,
    F32,
    F64,
    ExternRef,
    FuncRef,
}

/// A WebAssembly numeric type.
#[derive(Clone, Copy, Debug, PartialEq, Eq, Structural)]
pub enum NumType {
    I32,
    I64,
    F32,
    F64,
}

/// A WebAssembly reference type.
#[derive(Clone, Copy, Debug, PartialEq, Eq, Structural)]
pub enum RefType {
    ExternRef,
    FuncRef,
}

/// A WebAssembly function type: the types of its arguments and of its results.
#[derive(Clone, Debug)]
pub struct FuncType {
    args: Vec<ValueType>,
    ret: Vec<ValueType>,
}

impl View for FuncType {
    type V = (Seq<ValueType>, Seq<ValueType>);

    closed spec fn view(&self) -> (Seq<ValueType>, Seq<ValueType>) {
        (self.args@, self.ret@)
    }
}

/// Whether two sequences of value types are equal, compared element by element.
fn same_types(a: &Vec<ValueType>, b: &Vec<ValueType>) -> (r: bool)
    ensures
        r == (a@ == b@),
{
    if a.len() != b.len() {
        return false;
    }
    let mut i: usize = 0;
    while i < a.len()
        invariant
            a@.len() == b@.len(),
            i <= a@.len(),
            forall|j: int| 0 <= j < i ==> a@[j] == b@[j],
        decreases a@.len() - i,
    {
        if a[i] != b[i] {
            return false;
        }
        i = i + 1;
    }
    assert(a@ =~= b@);
    true
}

impl FuncType {
    /// Creates a function type from the types of its arguments and of its results.
    pub fn new(args: Vec<ValueType>, ret: Vec<ValueType>) -> (r: Self)
        ensures
            r@ == (args@, ret@),
    {
        Self { args, ret }
    }

    /// Whether two function types are the same: same arguments and same results.
    pub fn eq(&self, other: &Self) -> (r: bool)
        ensures
            r == (self@ == other@),
    {
        same_types(&self.args, &other.args) && same_types(&self.ret, &other.ret)
    }

    /// The types of the arguments.
    pub fn args(&self) -> (r: &[ValueType])
        ensures
            r@ == self@.0,
    {
        self.args.as_slice()
    }

    /// The types of the results.
    pub fn ret(&self) -> (r: &[ValueType])
        ensures
            r@ == self@.1,
    {
        self.ret.as_slice()
    }
}

} // verus!
