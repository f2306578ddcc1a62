//! Components: groups of WebAssembly instances that run together, and the calling convention
//! with which the kernel calls into them.

use vstd::prelude::*;

use crate::entity::{FuncIndex, InstanceIndex};

verus! {

/// The maximal number of arguments of a call into an instance.
pub const MAX_ARGS: usize = 5;

/// The ID of a function within a component.
#[derive(Clone, Copy, Debug, PartialEq, Eq, Structural)]
pub struct ComponentFunc {
    pub instance: InstanceIndex,
    pub func: FuncIndex,
}

impl ComponentFunc {
    /// The function `func` of the instance `instance`.
    pub fn new(instance: InstanceIndex, func: FuncIndex) -> (r: Self)
        ensures
            r.instance == instance,
            r.func == func,
    {
        ComponentFunc { instance, func }
    }
}

/// Whether a function of a component could run: a component runs one function at a time.
#[derive(Clone, Copy, Debug, PartialEq, Eq, Structural)]
pub enum RunStatus {
    /// The function ran.
    Completed,
    /// The component was already running a function.
    Busy,
}

impl RunStatus {
    /// Acknowledge run status.
    pub fn ok(self) {
    }
}

/// WebAssembly function call arguments: at most five 64 bits values.
#[derive(Clone, Copy, Debug)]
pub struct Args {
    args: [u64; 5],
    len: usize,
}

/// A value that can be converted to a single WebAssembly argument.
pub trait AsArg {
    /// The argument that the value stands for.
    spec fn spec_as_arg(&self) -> u64;

    /// Returns the argument that the value stands for.
    fn as_arg(&self) -> (r: u64)
        ensures
            r == self.spec_as_arg(),
    ;
}

/// A value that can be converted to a sequence of WebAssembly arguments.
pub trait AsArgs {
    /// The arguments that the value stands for.
    spec fn spec_as_args(&self) -> Seq<u64>;

    /// Returns the arguments that the value stands for.
    fn as_args(&self) -> (r: Args)
        ensures
            r@ == self.spec_as_args(),
    ;
}

impl View for Args {
    type V = Seq<u64>;

    closed spec fn view(&self) -> Seq<u64> {
        self.args@.subrange(0, self.len as int)
    }
}

impl Args {
    #[verifier::type_invariant]
    spec fn len_ok(self) -> bool {
        self.len <= MAX_ARGS
    }

    /// Creates an empty argument list.
    pub fn new() -> (r: Self)
        ensures
            r@ == Seq::<u64>::empty(),
    {
        let r = Self { args: [0x41, 0x41, 0x41, 0x41, 0x41], len: 0 };
        assert(r@ =~= Seq::<u64>::empty());
        r
    }

    /// The number of arguments.
    pub fn len(&self) -> (r: usize)
        ensures
            r == self@.len(),
            r <= MAX_ARGS,
    {
        proof {
            use_type_invariant(self);
        }
        self.len
    }

    /// Adds an argument; at most five arguments are supported.
    pub fn push<T: AsArg>(self, arg: T) -> (r: Self)
        requires
            self@.len() < MAX_ARGS,
        ensures
            r@ == self@.push(arg.spec_as_arg()),
    {
        proof {
            use_type_invariant(&self);
        }
        let mut this = self;
        let v = arg.as_arg();
        let mut args = this.args;
        args.set(this.len, v);
        let r = Args { args, len: this.len + 1 };
        assert(r@ =~= self@.push(arg.spec_as_arg()));
        r
    }

    /// The arguments, in order.
    pub fn as_slice(&self) -> (r: &[u64])
        ensures
            r@ == self@,
    {
        proof {
            use_type_invariant(self);
        }
        let all = vstd::array::array_as_slice(&self.args);
        &all[0..self.len]
    }
}

impl<T: AsArg> AsArgs for T {
    open spec fn spec_as_args(&self) -> Seq<u64> {
        seq![self.spec_as_arg()]
    }

    fn as_args(&self) -> (r: Args) {
        let r = Args::new().push(self.as_arg());
        assert(r@ =~= seq![self.spec_as_arg()]);
        r
    }
}

impl AsArgs for () {
    open spec fn spec_as_args(&self) -> Seq<u64> {
        Seq::empty()
    }

    fn as_args(&self) -> (r: Args) {
        Args::new()
    }
}

impl AsArg for u64 {
    open spec fn spec_as_arg(&self) -> u64 {
        *self
    }

    fn as_arg(&self) -> (r: u64) {
        *self
    }
}

impl AsArg for u32 {
    open spec fn spec_as_arg(&self) -> u64 {
        *self as u64
    }

    fn as_arg(&self) -> (r: u64) {
        *self as u64
    }
}

impl AsArg for u16 {
    open spec fn spec_as_arg(&self) -> u64 {
        *self as u64
    }

    fn as_arg(&self) -> (r: u64) {
        *self as u64
    }
}

impl AsArg for u8 {
    open spec fn spec_as_arg(&self) -> u64 {
        *self as u64
    }

    fn as_arg(&self) -> (r: u64) {
        *self as u64
    }
}

/// The registers that pass the arguments of a call in the System V ABI: rdi, rsi, rdx, rcx, r8
/// and r9, in that order. The arguments come first, then the instance's context pointer; the
/// registers left over are 0.
pub open spec fn spec_call_registers(args: Seq<u64>, vmctx: u64) -> Seq<u64> {
    let values = args.push(vmctx);
    Seq::new(6, |i: int| if i < values.len() { values[i] } else { 0 })
}

/// Computes the registers of a call into an instance function, using the System V ABI.
///
/// At most five arguments can be passed in registers; the others would go on the stack, which
/// instances do not support yet. The number of arguments is that of the function's type, which
/// returns at most two values.
pub fn call_registers(args: &[u64], vmctx: u64, nb_params: usize, nb_results: usize) -> (r: [u64; 6])
    requires
        args@.len() <= MAX_ARGS,
        nb_params == args@.len(),
        nb_results <= 2,
    ensures
        r@ == spec_call_registers(args@, vmctx),
{
    let mut regs: [u64; 6] = [0, 0, 0, 0, 0, 0];
    let n = args.len();
    let mut i: usize = 0;
    while i < n
        invariant
            n == args@.len(),
            n <= MAX_ARGS,
            0 <= i <= n,
            regs@.len() == 6,
            forall|j: int| 0 <= j < i ==> #[trigger] regs@[j] == args@[j],
            forall|j: int| i <= j < 6 ==> #[trigger] regs@[j] == 0,
        decreases n - i,
    {
        regs.set(i, args[i]);
        i = i + 1;
    }
    regs.set(n, vmctx);
    assert(regs@ =~= spec_call_registers(args@, vmctx));
    regs
}

} // verus!
