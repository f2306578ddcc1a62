//! The user-land side of the Coral system calls: the handles and outcomes that system calls
//! hand to WebAssembly programs.

use vstd::prelude::*;

verus! {

/// A handle to a component.
#[derive(Clone, Copy, Debug, PartialEq, Eq, Structural)]
pub struct Component(pub u32);

/// A handle to a module.
#[derive(Clone, Copy, Debug, PartialEq, Eq, Structural)]
pub struct Module(pub u32);

/// The index of an instance within a component.
#[derive(Clone, Copy, Debug, PartialEq, Eq, Structural)]
pub struct InstanceIndex(pub u32);

/// The outcome of a system call, as the kernel encodes it.
#[derive(Clone, Copy, Debug, PartialEq, Eq, Structural)]
pub struct SyscallResult(pub i32);

/// The name of an outcome.
pub open spec fn result_name(code: i32) -> Seq<char> {
    if code == 0 {
        "Success"@
    } else if code == 1 {
        "Invalid Params"@
    } else if code == 2 {
        "Internal Error"@
    } else {
        "Unkonwn Error"@
    }
}

impl SyscallResult {
    /// The name of the outcome.
    pub fn str(self) -> (r: &'static str)
        ensures
            r@ == result_name(self.0),
    {
        match self.0 {
            0 => "Success",
            1 => "Invalid Params",
            2 => "Internal Error",
            _ => "Unkonwn Error",
        }
    }
}

} // verus!
