//! Native functions.

use vstd::prelude::*;
use core::marker::PhantomData;

use crate::abi::{WasmParams, WasmResults};
use crate::types::FuncType;

verus! {

/// A native function that can seamelessly be called from WebAssembly.
///
/// Contrary to other native functions, this function is guaranteed to implement the
/// WebAssembly ABI used by the Coral runtime, and can therefore be called directly, without
/// the need for any trampoline. The primary usage of native functions is to implement system
/// calls and runtime functions.
pub struct NativeFunc<Params, Results> {
    _signature: PhantomData<(Params, Results)>,
    ptr: usize,
}

impl<Params, Results> NativeFunc<Params, Results> {
    /// The address of the function.
    pub closed spec fn addr(self) -> usize {
        self.ptr
    }

    /// Wraps the address of a function that follows the WebAssembly ABI for the signature
    /// `Params -> Results`.
    pub fn new(ptr: usize) -> (r: Self)
        ensures
            r.addr() == ptr,
    {
        Self { _signature: PhantomData, ptr }
    }

    /// The address of the function.
    pub fn ptr(&self) -> (r: usize)
        ensures
            r == self.addr(),
    {
        self.ptr
    }
}

impl<Params: WasmParams, Results: WasmResults> NativeFunc<Params, Results> {
    /// The WebAssembly type of the function.
    pub fn ty(&self) -> (r: FuncType)
        ensures
            r@ == (Params::spec_tys(), Results::spec_tys()),
    {
        FuncType::new(Params::ty(), Results::ty())
    }
}

} // verus!
