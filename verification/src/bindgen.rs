//! Bindings generation: patches that turn the integer arguments of imported functions into
//! handles read from a table of external references.
//!
//! A patched import takes external references in place of the patched arguments, and a proxy
//! function with the unpatched signature reads each patched argument's reference from a table
//! before calling the import; calls to the import are redirected to the proxy.

use vstd::prelude::*;

use crate::linker::{contains_id, Function};
use crate::wasm_ir::{lemma_nb_unmarked_update, nb_unmarked, IdMap, Instr, LocalFunction};

verus! {

/// A table of the module, by its index.
#[derive(Clone, Copy, Debug, PartialEq, Eq, Structural)]
pub struct Table(pub u32);

/// The value types of WebAssembly.
#[derive(Clone, Copy, Debug, PartialEq, Eq, Structural)]
pub enum ValType {
    I32,
    I64,
    F32,
    F64,
    V128,
    Externref,
    Funcref,
}

/// The instructions of a proxy function.
#[derive(Clone, Copy, Debug, PartialEq, Eq, Structural)]
pub enum ProxyInstr {
    /// Pushes the parameter of the given position.
    LocalGet(u32),
    /// Replaces the index on top of the stack by the reference at that index in the table.
    TableGet(Table),
    /// Calls the function of the given index.
    Call(u32),
}

/// The first position of `args` whose argument index exceeds `key`, or its length.
pub open spec fn first_greater(args: Seq<(u32, Table)>, key: u32) -> int
    decreases args.len(),
{
    if args.len() == 0 {
        0
    } else if args[0].0 > key {
        0
    } else {
        1 + first_greater(args.drop_first(), key)
    }
}

/// The list with `x` inserted after the leading entries whose index is at most that of `x`.
pub open spec fn insert_by_index(args: Seq<(u32, Table)>, x: (u32, Table)) -> Seq<(u32, Table)> {
    let k = first_greater(args, x.0);
    args.take(k).push(x) + args.skip(k)
}

/// The entries sorted by argument index; entries of equal index keep their order.
pub open spec fn sort_by_index(args: Seq<(u32, Table)>) -> Seq<(u32, Table)>
    decreases args.len(),
{
    if args.len() == 0 {
        args
    } else {
        insert_by_index(sort_by_index(args.drop_last()), args.last())
    }
}

/// The entries are sorted by argument index.
pub open spec fn sorted_by_index(args: Seq<(u32, Table)>) -> bool {
    forall|i: int, j: int| 0 <= i < j < args.len() ==> args[i].0 <= args[j].0
}

proof fn lemma_first_greater(args: Seq<(u32, Table)>, key: u32)
    ensures
        0 <= first_greater(args, key) <= args.len(),
        forall|j: int| 0 <= j < first_greater(args, key) ==> #[trigger] args[j].0 <= key,
        first_greater(args, key) < args.len() ==> args[first_greater(args, key)].0 > key,
    decreases args.len(),
{
    if args.len() > 0 && args[0].0 <= key {
        let rest = args.drop_first();
        lemma_first_greater(rest, key);
        assert forall|j: int| 0 <= j < first_greater(args, key) implies #[trigger] args[j].0
            <= key by {
            if j > 0 {
                assert(args[j] == rest[j - 1]);
            }
        }
    }
}

/// Sorting by argument index gives entries sorted by index, the same entries as before.
pub proof fn lemma_sort_by_index(args: Seq<(u32, Table)>)
    ensures
        sorted_by_index(sort_by_index(args)),
        sort_by_index(args).to_multiset() == args.to_multiset(),
    decreases args.len(),
{
    if args.len() > 0 {
        let t = sort_by_index(args.drop_last());
        let x = args.last();
        lemma_sort_by_index(args.drop_last());
        lemma_first_greater(t, x.0);
        let k = first_greater(t, x.0);
        assert(insert_by_index(t, x) =~= t.insert(k, x));
        vstd::seq_lib::to_multiset_insert(t, k, x);
        vstd::seq_lib::to_multiset_build(args.drop_last(), x);
        assert(args.drop_last().push(x) =~= args);
        let r = t.insert(k, x);
        assert forall|i: int, j: int| 0 <= i < j < r.len() implies r[i].0 <= r[j].0 by {
            if j < k {
            } else if j == k {
                assert(r[i] == t[i]);
            } else if i < k {
                assert(r[j] == t[j - 1]);
                assert(t[i].0 <= x.0);
                if k < t.len() {
                    assert(t[k].0 > x.0);
                    assert(t[k].0 <= t[j - 1].0);
                }
            } else if i == k {
                assert(r[j] == t[j - 1]);
                assert(t[k].0 > x.0);
                assert(t[k].0 <= t[j - 1].0);
            } else {
                assert(r[i] == t[i - 1]);
                assert(r[j] == t[j - 1]);
            }
        }
    }
}

/// The transformation of an imported function: which arguments become handles, and the table
/// of each.
pub struct ImportedFuncPatch {
    args: Vec<(u32, Table)>,
}

/// An object representing a transformation to apply.
pub enum Patch {
    /// Transformations on an imported function.
    ImportedFunc(ImportedFuncPatch),
}

impl ImportedFuncPatch {
    /// The patched arguments and their tables.
    pub closed spec fn spec_args(self) -> Seq<(u32, Table)> {
        self.args@
    }

    /// A patch that changes no argument.
    pub fn new() -> (r: Self)
        ensures
            r.spec_args() == Seq::<(u32, Table)>::empty(),
    {
        Self { args: Vec::new() }
    }

    /// The argument at `args_index` becomes a handle in `table`.
    pub fn replace_with_handle(&mut self, args_index: u32, table: Table)
        ensures
            final(self).spec_args() == old(self).spec_args().push((args_index, table)),
    {
        self.args.push((args_index, table));
    }

    /// Returns the patched arguments and their tables.
    pub fn args(&self) -> (r: &[(u32, Table)])
        ensures
            r@ == self.spec_args(),
    {
        self.args.as_slice()
    }

    /// The patch, with its arguments sorted by index (stably).
    pub fn as_patch(self) -> (r: Patch)
        ensures
            r matches Patch::ImportedFunc(p) && p.spec_args() == sort_by_index(self.spec_args()),
    {
        let mut sorted: Vec<(u32, Table)> = Vec::new();
        let mut i: usize = 0;
        while i < self.args.len()
            invariant
                i <= self.args@.len(),
                sorted@ == sort_by_index(self.args@.take(i as int)),
            decreases self.args@.len() - i,
        {
            let x = self.args[i];
            let mut k: usize = 0;
            proof {
                assert(sorted@.skip(0) =~= sorted@);
            }
            while k < sorted.len() && sorted[k].0 <= x.0
                invariant
                    i < self.args@.len(),
                    x == self.args@[i as int],
                    sorted@ == sort_by_index(self.args@.take(i as int)),
                    k <= sorted@.len(),
                    first_greater(sorted@, x.0) == k + first_greater(sorted@.skip(k as int), x.0),
                decreases sorted@.len() - k,
            {
                proof {
                    assert(sorted@.skip(k as int).drop_first() =~= sorted@.skip(k + 1));
                }
                k = k + 1;
            }
            proof {
                if k < sorted@.len() {
                    assert(sorted@.skip(k as int)[0] == sorted@[k as int]);
                }
                assert(first_greater(sorted@.skip(k as int), x.0) == 0);
                let t = self.args@.take(i + 1);
                assert(t.drop_last() =~= self.args@.take(i as int));
            }
            let ghost before = sorted@;
            sorted.insert(k, x);
            proof {
                assert(sorted@ =~= before.take(k as int).push(x) + before.skip(k as int));
            }
            i = i + 1;
        }
        proof {
            assert(self.args@.take(self.args@.len() as int) =~= self.args@);
            assert(sorted@.skip(0) =~= sorted@);
        }
        Patch::ImportedFunc(ImportedFuncPatch { args: sorted })
    }
}

/// The parameters after a patch, from position `idx` on, with the patch at position `p`: each
/// parameter that the current patch names becomes an external reference, and the patch moves
/// on to the next.
pub open spec fn patch_params_from(
    params: Seq<ValType>,
    args: Seq<(u32, Table)>,
    idx: int,
    p: int,
) -> Seq<ValType>
    decreases params.len() - idx,
{
    if idx < 0 || idx >= params.len() {
        Seq::empty()
    } else if p < args.len() && args[p].0 == idx {
        seq![ValType::Externref] + patch_params_from(params, args, idx + 1, p + 1)
    } else {
        seq![params[idx]] + patch_params_from(params, args, idx + 1, p)
    }
}

/// Some patch names the argument at position `i`.
pub open spec fn is_patched(args: Seq<(u32, Table)>, i: int) -> bool {
    exists|q: int| 0 <= q < args.len() && #[trigger] args[q].0 == i
}

proof fn lemma_patch_params_from(params: Seq<ValType>, args: Seq<(u32, Table)>, idx: int, p: int)
    requires
        forall|a: int, b: int| 0 <= a < b < args.len() ==> args[a].0 < args[b].0,
        forall|q: int| 0 <= q < args.len() ==> #[trigger] args[q].0 < params.len(),
        0 <= p <= args.len(),
        0 <= idx <= params.len(),
        p < args.len() ==> args[p].0 >= idx,
        p > 0 ==> args[p - 1].0 < idx,
    ensures
        patch_params_from(params, args, idx, p).len() == params.len() - idx,
        forall|j: int|
            0 <= j < params.len() - idx ==> #[trigger] patch_params_from(params, args, idx, p)[j]
                == if is_patched(args, idx + j) {
                ValType::Externref
            } else {
                params[idx + j]
            },
    decreases params.len() - idx,
{
    if idx < params.len() {
        if p < args.len() && args[p].0 == idx {
            lemma_patch_params_from(params, args, idx + 1, p + 1);
            assert(is_patched(args, idx));
            let r = patch_params_from(params, args, idx, p);
            assert forall|j: int| 0 < j < params.len() - idx implies #[trigger] r[j] == (
            if is_patched(args, idx + j) {
                ValType::Externref
            } else {
                params[idx + j]
            }) by {
                assert(r[j] == patch_params_from(params, args, idx + 1, p + 1)[j - 1]);
            }
        } else {
            lemma_patch_params_from(params, args, idx + 1, p);
            assert(!is_patched(args, idx)) by {
                if is_patched(args, idx) {
                    let q = choose|q: int| 0 <= q < args.len() && #[trigger] args[q].0 == idx;
                    if q < p {
                        assert(args[q].0 <= args[p - 1].0);
                    } else {
                        assert(args[q].0 >= args[p].0);
                    }
                }
            }
            let r = patch_params_from(params, args, idx, p);
            assert forall|j: int| 0 < j < params.len() - idx implies #[trigger] r[j] == (
            if is_patched(args, idx + j) {
                ValType::Externref
            } else {
                params[idx + j]
            }) by {
                assert(r[j] == patch_params_from(params, args, idx + 1, p)[j - 1]);
            }
        }
    }
}

/// With patches of strictly increasing argument positions, all among the parameters, exactly
/// the patched parameters become external references.
pub proof fn lemma_patch_params(params: Seq<ValType>, args: Seq<(u32, Table)>)
    requires
        forall|a: int, b: int| 0 <= a < b < args.len() ==> args[a].0 < args[b].0,
        forall|q: int| 0 <= q < args.len() ==> #[trigger] args[q].0 < params.len(),
    ensures
        patch_params_from(params, args, 0, 0).len() == params.len(),
        forall|i: int|
            0 <= i < params.len() ==> #[trigger] patch_params_from(params, args, 0, 0)[i] == if is_patched(
                args,
                i,
            ) {
                ValType::Externref
            } else {
                params[i]
            },
{
    lemma_patch_params_from(params, args, 0, 0);
    assert forall|i: int| 0 <= i < params.len() implies #[trigger] patch_params_from(
        params,
        args,
        0,
        0,
    )[i] == if is_patched(args, i) {
        ValType::Externref
    } else {
        params[i]
    } by {
        assert(0 + i == i);
    }
}

/// Returns the parameters of a patched import: the patched arguments become external
/// references.
pub fn patch_params(params: &[ValType], patch: &ImportedFuncPatch) -> (r: Vec<ValType>)
    ensures
        r@ == patch_params_from(params@, patch.spec_args(), 0, 0),
        (forall|a: int, b: int| 0 <= a < b < patch.spec_args().len() ==> patch.spec_args()[a].0 < patch.spec_args()[b].0)
            && (forall|q: int| 0 <= q < patch.spec_args().len() ==> #[trigger] patch.spec_args()[q].0 < params@.len()) ==> {
            &&& r@.len() == params@.len()
            &&& forall|i: int| 0 <= i < params@.len() ==> #[trigger] r@[i] == if is_patched(patch.spec_args(), i) {
                ValType::Externref
            } else {
                params@[i]
            }
        },
{
    proof {
        if (forall|a: int, b: int| 0 <= a < b < patch.spec_args().len() ==> patch.spec_args()[a].0 < patch.spec_args()[b].0)
            && (forall|q: int| 0 <= q < patch.spec_args().len() ==> #[trigger] patch.spec_args()[q].0 < params@.len()) {
            lemma_patch_params(params@, patch.spec_args());
        }
    }
    let args = patch.args();
    let mut out: Vec<ValType> = Vec::new();
    let mut p: usize = 0;
    let mut idx: usize = 0;
    while idx < params.len()
        invariant
            idx <= params@.len(),
            p <= args@.len(),
            args@ == patch.spec_args(),
            out@ + patch_params_from(params@, args@, idx as int, p as int) == patch_params_from(
                params@,
                args@,
                0,
                0,
            ),
        decreases params@.len() - idx,
    {
        let ghost p0 = p;
        let ty = if p < args.len() && args[p].0 as usize == idx {
            p = p + 1;
            ValType::Externref
        } else {
            params[idx]
        };
        proof {
            assert(out@.push(ty) + patch_params_from(params@, args@, idx + 1, p as int) =~= out@
                + patch_params_from(params@, args@, idx as int, p0 as int));
        }
        out.push(ty);
        idx = idx + 1;
    }
    proof {
        assert(out@ + Seq::<ValType>::empty() =~= out@);
    }
    out
}

/// The body of a proxy, from parameter `idx` on, with the patch at position `p`: each
/// parameter is pushed, followed by a table read where the current patch names it; the patch
/// moves on at each parameter while some remain.
pub open spec fn proxy_body_from(nb_params: int, args: Seq<(u32, Table)>, idx: int, p: int) -> Seq<
    ProxyInstr,
>
    decreases nb_params - idx,
{
    if idx < 0 || idx >= nb_params {
        Seq::empty()
    } else {
        let get = seq![ProxyInstr::LocalGet(idx as u32)];
        if p < args.len() {
            let read = if args[p].0 == idx {
                seq![ProxyInstr::TableGet(args[p].1)]
            } else {
                Seq::empty()
            };
            get + read + proxy_body_from(nb_params, args, idx + 1, p + 1)
        } else {
            get + proxy_body_from(nb_params, args, idx + 1, p)
        }
    }
}

/// Every table read of `body` comes right after the push of a parameter, and reads the table
/// that a patch of `args` gives for that parameter.
pub open spec fn reads_patched_tables(body: Seq<ProxyInstr>, args: Seq<(u32, Table)>) -> bool {
    forall|k: int| 0 <= k < body.len() && (#[trigger] body[k]) is TableGet ==> {
        &&& k > 0
        &&& exists|q: int| 0 <= q < args.len() && body[k - 1] == ProxyInstr::LocalGet(#[trigger] args[q].0)
            && body[k] == ProxyInstr::TableGet(args[q].1)
    }
}

proof fn lemma_proxy_body_from_reads(nb_params: int, args: Seq<(u32, Table)>, idx: int, p: int)
    requires
        0 <= p,
    ensures
        reads_patched_tables(proxy_body_from(nb_params, args, idx, p), args),
    decreases nb_params - idx,
{
    if idx < 0 || idx >= nb_params {
    } else {
        let body = proxy_body_from(nb_params, args, idx, p);
        let get = seq![ProxyInstr::LocalGet(idx as u32)];
        if p < args.len() {
            let read = if args[p].0 == idx {
                Seq::empty().push(ProxyInstr::TableGet(args[p].1))
            } else {
                Seq::empty()
            };
            let rest = proxy_body_from(nb_params, args, idx + 1, p + 1);
            lemma_proxy_body_from_reads(nb_params, args, idx + 1, p + 1);
            let m = get.len() + read.len();
            assert(body == get + read + rest);
            assert forall|k: int| 0 <= k < body.len() && (#[trigger] body[k]) is TableGet implies {
                &&& k > 0
                &&& exists|q: int| 0 <= q < args.len() && body[k - 1] == ProxyInstr::LocalGet(#[trigger] args[q].0)
                    && body[k] == ProxyInstr::TableGet(args[q].1)
            } by {
                if k < m {
                    assert(k == 1 && args[p].0 == idx);
                    assert(body[0] == ProxyInstr::LocalGet(args[p].0));
                } else {
                    assert(body[k] == rest[k - m]);
                    assert(rest[k - m] is TableGet);
                    let q = choose|q: int| 0 <= q < args.len() && rest[k - m - 1] == ProxyInstr::LocalGet(#[trigger] args[q].0)
                        && rest[k - m] == ProxyInstr::TableGet(args[q].1);
                    assert(body[k - 1] == rest[k - m - 1]);
                }
            }
        } else {
            let rest = proxy_body_from(nb_params, args, idx + 1, p);
            lemma_proxy_body_from_reads(nb_params, args, idx + 1, p);
            assert(body == get + rest);
            assert forall|k: int| 0 <= k < body.len() && (#[trigger] body[k]) is TableGet implies {
                &&& k > 0
                &&& exists|q: int| 0 <= q < args.len() && body[k - 1] == ProxyInstr::LocalGet(#[trigger] args[q].0)
                    && body[k] == ProxyInstr::TableGet(args[q].1)
            } by {
                assert(k > 0);
                assert(body[k] == rest[k - 1]);
                assert(rest[k - 1] is TableGet);
                let q = choose|q: int| 0 <= q < args.len() && rest[k - 2] == ProxyInstr::LocalGet(#[trigger] args[q].0)
                    && rest[k - 1] == ProxyInstr::TableGet(args[q].1);
                assert(body[k - 1] == rest[k - 2]);
            }
        }
    }
}

/// The parameters that `body` pushes are those from `idx` to `nb_params`, each once, in order.
pub open spec fn pushes_params_in_order(body: Seq<ProxyInstr>, idx: int, nb_params: int) -> bool {
    &&& forall|k: int| 0 <= k < body.len() && (#[trigger] body[k]) is LocalGet ==> idx <= body[k]->LocalGet_0 < nb_params
    &&& forall|a: int, b: int| 0 <= a < b < body.len() && (#[trigger] body[a]) is LocalGet && (#[trigger] body[b]) is LocalGet
        ==> body[a]->LocalGet_0 < body[b]->LocalGet_0
    &&& forall|i: int| idx <= i < nb_params ==> #[trigger] pushes_param(body, i)
    &&& forall|k: int| 0 <= k < body.len() ==> !((#[trigger] body[k]) is Call)
}

/// `body` pushes parameter `i`.
pub open spec fn pushes_param(body: Seq<ProxyInstr>, i: int) -> bool {
    exists|k: int| 0 <= k < body.len() && #[trigger] body[k] == ProxyInstr::LocalGet(i as u32)
}

proof fn lemma_proxy_body_from_pushes(nb_params: int, args: Seq<(u32, Table)>, idx: int, p: int)
    requires
        0 <= idx,
        nb_params <= u32::MAX + 1,
    ensures
        pushes_params_in_order(proxy_body_from(nb_params, args, idx, p), idx, nb_params),
    decreases nb_params - idx,
{
    if idx >= nb_params {
    } else {
        let body = proxy_body_from(nb_params, args, idx, p);
        let get = seq![ProxyInstr::LocalGet(idx as u32)];
        let p2 = if p < args.len() { p + 1 } else { p };
        let rest = proxy_body_from(nb_params, args, idx + 1, p2);
        lemma_proxy_body_from_pushes(nb_params, args, idx + 1, p2);
        let read: Seq<ProxyInstr> = if p < args.len() && args[p].0 == idx {
            Seq::empty().push(ProxyInstr::TableGet(args[p].1))
        } else {
            Seq::empty()
        };
        assert(body =~= get + read + rest);
        let m = 1 + read.len();
        assert forall|k: int| 0 <= k < body.len() && (#[trigger] body[k]) is LocalGet implies idx <= body[k]->LocalGet_0 < nb_params by {
            if k >= m {
                assert(body[k] == rest[k - m]);
            }
        }
        assert forall|a: int, b: int| 0 <= a < b < body.len() && (#[trigger] body[a]) is LocalGet && (#[trigger] body[b]) is LocalGet
            implies body[a]->LocalGet_0 < body[b]->LocalGet_0 by {
            assert(b >= m);
            assert(body[b] == rest[b - m]);
            if a >= m {
                assert(body[a] == rest[a - m]);
            }
        }
        assert forall|i: int| idx <= i < nb_params implies #[trigger] pushes_param(body, i) by {
            if i == idx {
                assert(body[0] == ProxyInstr::LocalGet(i as u32));
            } else {
                assert(pushes_param(rest, i));
                let k = choose|k: int| 0 <= k < rest.len() && #[trigger] rest[k] == ProxyInstr::LocalGet(i as u32);
                assert(body[k + m] == rest[k]);
            }
        }
        assert forall|k: int| 0 <= k < body.len() implies !((#[trigger] body[k]) is Call) by {
            if k >= m {
                assert(body[k] == rest[k - m]);
            }
        }
    }
}

/// A proxy pushes each of its parameters once, in order, and calls the import last: its body
/// holds `LocalGet(i)` for every parameter `i`, the pushed parameters increase along the body,
/// none is out of range, and the only call is the final one, of the import.
pub proof fn lemma_proxy_pushes_params_in_order(func: u32, nb_params: u32, args: Seq<(u32, Table)>)
    ensures ({
        let body = proxy_body_from(nb_params as int, args, 0, 0).push(ProxyInstr::Call(func));
        &&& body.last() == ProxyInstr::Call(func)
        &&& pushes_params_in_order(body.drop_last(), 0, nb_params as int)
    }),
{
    lemma_proxy_body_from_pushes(nb_params as int, args, 0, 0);
    let inner = proxy_body_from(nb_params as int, args, 0, 0);
    assert(inner.push(ProxyInstr::Call(func)).drop_last() =~= inner);
}

/// A proxy reads each handle from the table of the patch that names its parameter: every table
/// read of the body comes right after the push of a parameter `i`, and reads the table `t` of a
/// patch `(i, t)`; the body ends with the call of the import.
pub proof fn lemma_proxy_reads_patched_tables(func: u32, nb_params: u32, args: Seq<(u32, Table)>)
    ensures ({
        let body = proxy_body_from(nb_params as int, args, 0, 0).push(ProxyInstr::Call(func));
        &&& body.last() == ProxyInstr::Call(func)
        &&& forall|k: int| 0 <= k < body.len() && (#[trigger] body[k]) is TableGet ==> {
            &&& k > 0
            &&& exists|q: int| 0 <= q < args.len() && body[k - 1] == ProxyInstr::LocalGet(#[trigger] args[q].0)
                && body[k] == ProxyInstr::TableGet(args[q].1)
        }
    }),
{
    let inner = proxy_body_from(nb_params as int, args, 0, 0);
    lemma_proxy_body_from_reads(nb_params as int, args, 0, 0);
    let body = inner.push(ProxyInstr::Call(func));
    assert forall|k: int| 0 <= k < body.len() && (#[trigger] body[k]) is TableGet implies {
        &&& k > 0
        &&& exists|q: int| 0 <= q < args.len() && body[k - 1] == ProxyInstr::LocalGet(#[trigger] args[q].0)
            && body[k] == ProxyInstr::TableGet(args[q].1)
    } by {
        assert(k < inner.len());
        assert(body[k] == inner[k]);
        assert(inner[k] is TableGet);
        let q = choose|q: int| 0 <= q < args.len() && inner[k - 1] == ProxyInstr::LocalGet(#[trigger] args[q].0)
            && inner[k] == ProxyInstr::TableGet(args[q].1);
        assert(body[k - 1] == inner[k - 1]);
    }
}

/// Returns the body of the proxy of a patched import: its parameters are pushed (each patched
/// one followed by a table read), then the import is called.
pub fn proxy_body(func: u32, nb_params: u32, patch: &ImportedFuncPatch) -> (r: Vec<ProxyInstr>)
    ensures
        r@ == proxy_body_from(nb_params as int, patch.spec_args(), 0, 0).push(
            ProxyInstr::Call(func),
        ),
        reads_patched_tables(r@, patch.spec_args()),
        r@.last() == ProxyInstr::Call(func),
        pushes_params_in_order(r@.drop_last(), 0, nb_params as int),
{
    proof {
        lemma_proxy_reads_patched_tables(func, nb_params, patch.spec_args());
        lemma_proxy_pushes_params_in_order(func, nb_params, patch.spec_args());
    }
    let args = patch.args();
    let mut out: Vec<ProxyInstr> = Vec::new();
    let mut p: usize = 0;
    let mut idx: u32 = 0;
    while idx < nb_params
        invariant
            idx <= nb_params,
            p <= args@.len(),
            args@ == patch.spec_args(),
            out@ + proxy_body_from(nb_params as int, args@, idx as int, p as int)
                == proxy_body_from(nb_params as int, args@, 0, 0),
        decreases nb_params - idx,
    {
        let ghost before = out@;
        let ghost p0 = p;
        out.push(ProxyInstr::LocalGet(idx));
        if p < args.len() {
            if args[p].0 == idx {
                out.push(ProxyInstr::TableGet(args[p].1));
            }
            p = p + 1;
        }
        proof {
            let rest = proxy_body_from(nb_params as int, args@, idx + 1, p as int);
            assert(before + proxy_body_from(nb_params as int, args@, idx as int, p0 as int) =~= out@
                + rest);
        }
        idx = idx + 1;
    }
    proof {
        assert(out@ + Seq::<ProxyInstr>::empty() =~= out@);
    }
    out.push(ProxyInstr::Call(func));
    out
}

// —————————————————————————————— Patch set —————————————————————————————— //

/// The patches to apply, by module and name of the import they apply to.
pub struct PatchSet {
    entries: Vec<(String, String, Patch)>,
}

/// The patches that the registrations make, a later one for the same import winning.
pub open spec fn patches_of(entries: Seq<(String, String, Patch)>) -> Map<(Seq<char>, Seq<char>), Patch>
    decreases entries.len(),
{
    if entries.len() == 0 {
        Map::empty()
    } else {
        patches_of(entries.drop_last()).insert((entries.last().0@, entries.last().1@), entries.last().2)
    }
}

impl PatchSet {
    /// The patch registered for each import, by module and name.
    pub closed spec fn spec_patches(self) -> Map<(Seq<char>, Seq<char>), Patch> {
        patches_of(self.entries@)
    }

    /// No patch.
    pub fn new() -> (r: Self)
        ensures
            r.spec_patches() == Map::<(Seq<char>, Seq<char>), Patch>::empty(),
    {
        PatchSet { entries: Vec::new() }
    }

    /// Registers a patch to apply to the import `name` of `module`, in place of the one
    /// registered before, if any.
    pub fn register_patch(&mut self, module: &str, name: &str, patch: Patch)
        ensures
            final(self).spec_patches() == old(self).spec_patches().insert((module@, name@), patch),
    {
        self.entries.push((module.to_string(), name.to_string(), patch));
        proof {
            assert(self.entries@.drop_last() =~= old(self).entries@);
        }
    }

    /// The patch registered for the import `name` of `module`, if any.
    pub fn get(&self, module: &str, name: &str) -> (r: Option<&Patch>)
        ensures
            r == (if self.spec_patches().contains_key((module@, name@)) {
                Some(&self.spec_patches()[(module@, name@)])
            } else {
                None::<&Patch>
            }),
    {
        let m = module.to_string();
        let n = name.to_string();
        let mut i = self.entries.len();
        proof {
            assert(self.entries@.take(i as int) =~= self.entries@);
        }
        while i > 0
            invariant
                i <= self.entries@.len(),
                m@ == module@,
                n@ == name@,
                patches_of(self.entries@.take(i as int)).contains_key((module@, name@))
                    == self.spec_patches().contains_key((module@, name@)),
                patches_of(self.entries@.take(i as int)).contains_key((module@, name@))
                    ==> patches_of(self.entries@.take(i as int))[(module@, name@)] == self.spec_patches()[(module@, name@)],
            decreases i,
        {
            let e = &self.entries[i - 1];
            proof {
                let t = self.entries@.take(i as int);
                assert(t.drop_last() =~= self.entries@.take(i - 1));
                assert(t.last() == *e);
            }
            if e.0 == m && e.1 == n {
                return Some(&e.2);
            }
            i = i - 1;
        }
        proof {
            assert(self.entries@.take(0) =~= Seq::<(String, String, Patch)>::empty());
        }
        None
    }
}

/// The patch registered last for an import is the one found for it; the patches of the other
/// imports stay as they were.
pub proof fn lemma_get_after_register(
    patches: Map<(Seq<char>, Seq<char>), Patch>,
    module: Seq<char>,
    name: Seq<char>,
    patch: Patch,
    other: (Seq<char>, Seq<char>),
)
    ensures
        patches.insert((module, name), patch).contains_key((module, name)),
        patches.insert((module, name), patch)[(module, name)] == patch,
        other != (module, name) ==> patches.insert((module, name), patch).contains_key(other)
            == patches.contains_key(other),
        other != (module, name) && patches.contains_key(other) ==> patches.insert((module, name), patch)[other]
            == patches[other],
{
}

// ———————————————————————— Redirection of calls ———————————————————————— //

/// The sequences that the redirection of calls moves on to after a sequence holding the
/// instruction: those of blocks, loops, conditional branches, both branches of an if-else, and
/// the targets of a branch table (but not its default one).
pub open spec fn followed(i: Instr) -> Seq<u32> {
    match i {
        Instr::Block(s) => seq![s],
        Instr::Loop(s) => seq![s],
        Instr::BrIf(s) => seq![s],
        Instr::IfElse { consequent, alternative } => seq![consequent, alternative],
        Instr::BrTable { blocks, .. } => blocks@,
        _ => Seq::empty(),
    }
}

/// The instruction, with its call redirected if `funcs` redirects the called function.
pub open spec fn call_replaced(funcs: Map<u32, u32>, i: Instr) -> Instr {
    match i {
        Instr::Call(f) => if funcs.contains_key(f) {
            Instr::Call(funcs[f])
        } else {
            i
        },
        _ => i,
    }
}

/// The sequence with its calls redirected `k` times over.
pub open spec fn replaced_times(funcs: Map<u32, u32>, s: Seq<Instr>, k: nat) -> Seq<Instr>
    decreases k,
{
    if k == 0 {
        s
    } else {
        let prev = replaced_times(funcs, s, (k - 1) as nat);
        Seq::new(prev.len(), |j: int| call_replaced(funcs, prev[j]))
    }
}

/// Every sequence that a visited one moves on to is visited.
pub open spec fn followed_in(blocks: Seq<Vec<Instr>>, b: int, visited: Seq<bool>) -> bool {
    forall|k: int, j: int|
        0 <= k < blocks[b]@.len() && 0 <= j < followed(blocks[b]@[k]).len() ==> {
            let s = #[trigger] followed(blocks[b]@[k])[j];
            s < visited.len() && visited[s as int]
        }
}

/// `reach` holds the entry and is closed under the sequences that one moves on to.
pub open spec fn followable_within(f: LocalFunction, reach: Seq<bool>) -> bool {
    &&& reach.len() == f.blocks@.len()
    &&& f.entry < reach.len()
    &&& reach[f.entry as int]
    &&& forall|b: int| 0 <= b < reach.len() && reach[b] ==> #[trigger] followed_in(f.blocks@, b, reach)
}

/// The sequences reached from the entry of `f` exist.
pub open spec fn followable(f: LocalFunction) -> bool {
    exists|reach: Seq<bool>| followable_within(f, reach)
}

/// One of the instructions of `s` moves on to sequence `x`.
pub open spec fn follows_to(s: Seq<Instr>, x: u32) -> bool {
    exists|k: int, j: int| 0 <= k < s.len() && 0 <= j < followed(s[k]).len() && #[trigger] followed(s[k])[j] == x
}

/// `path` starts at the entry, and each of its sequences moves on to the next one.
pub open spec fn is_follow_path(blocks: Seq<Vec<Instr>>, entry: u32, path: Seq<u32>) -> bool {
    &&& path.len() >= 2
    &&& path[0] == entry
    &&& forall|i: int| 0 <= i < path.len() - 1 ==> #[trigger] path[i] < blocks.len() && follows_to(blocks[path[i] as int]@, path[i + 1])
}

/// Sequence `b` is moved on to, in one step or more, from the entry.
pub open spec fn followed_from(blocks: Seq<Vec<Instr>>, entry: u32, b: u32) -> bool {
    exists|path: Seq<u32>| #[trigger] is_follow_path(blocks, entry, path) && path.last() == b
}

/// The two bodies have the same sequences and instructions, as far as the sequences that the
/// instructions move on to go.
pub open spec fn same_structure(a: Seq<Vec<Instr>>, b: Seq<Vec<Instr>>) -> bool {
    &&& a.len() == b.len()
    &&& forall|i: int| 0 <= i < a.len() ==> (#[trigger] a[i])@.len() == b[i]@.len()
    &&& forall|i: int, k: int| 0 <= i < a.len() && 0 <= k < a[i]@.len() ==> followed(#[trigger] a[i]@[k]) == followed(b[i]@[k])
}

proof fn lemma_followed_from_step(blocks: Seq<Vec<Instr>>, entry: u32, b: u32, x: u32)
    requires
        b == entry || followed_from(blocks, entry, b),
        b < blocks.len(),
        follows_to(blocks[b as int]@, x),
    ensures
        followed_from(blocks, entry, x),
{
    if b == entry {
        let p = seq![entry, x];
        assert forall|i: int| 0 <= i < p.len() - 1 implies #[trigger] p[i] < blocks.len() && follows_to(
            blocks[p[i] as int]@, p[i + 1]) by {
            assert(p[0] == entry && p[1] == x);
        }
        assert(is_follow_path(blocks, entry, p) && p.last() == x);
    } else {
        let path = choose|path: Seq<u32>| #[trigger] is_follow_path(blocks, entry, path) && path.last() == b;
        let p2 = path.push(x);
        assert forall|i: int| 0 <= i < p2.len() - 1 implies #[trigger] p2[i] < blocks.len() && follows_to(
            blocks[p2[i] as int]@, p2[i + 1]) by {
            if i < path.len() - 1 {
                assert(p2[i] == path[i] && p2[i + 1] == path[i + 1]);
            } else {
                assert(p2[i] == b && p2[i + 1] == x);
            }
        }
        assert(is_follow_path(blocks, entry, p2) && p2.last() == x);
    }
}

proof fn lemma_same_structure_trans(a: Seq<Vec<Instr>>, b: Seq<Vec<Instr>>, c: Seq<Vec<Instr>>)
    requires
        same_structure(a, b),
        same_structure(b, c),
    ensures
        same_structure(a, c),
{
    assert forall|i: int| 0 <= i < a.len() implies (#[trigger] a[i])@.len() == c[i]@.len() by {
        assert(a[i]@.len() == b[i]@.len());
    }
    assert forall|i: int, k: int| 0 <= i < a.len() && 0 <= k < a[i]@.len() implies followed(#[trigger] a[i]@[k]) == followed(
        c[i]@[k]) by {
        assert(a[i]@.len() == b[i]@.len());
        assert(followed(a[i]@[k]) == followed(b[i]@[k]));
        assert(followed(b[i]@[k]) == followed(c[i]@[k]));
    }
}

proof fn lemma_same_structure_replaced(funcs: Map<u32, u32>, a: Seq<Vec<Instr>>, b: Seq<Vec<Instr>>, cnt: spec_fn(int) -> nat)
    requires
        a.len() == b.len(),
        forall|c: int| 0 <= c < a.len() ==> (#[trigger] a[c])@ == replaced_times(funcs, b[c]@, cnt(c)),
    ensures
        same_structure(a, b),
{
    assert forall|i: int| 0 <= i < a.len() implies (#[trigger] a[i])@.len() == b[i]@.len() by {
        lemma_replaced_times_len(funcs, b[i]@, cnt(i));
    }
    assert forall|i: int, k: int| 0 <= i < a.len() && 0 <= k < a[i]@.len() implies followed(#[trigger] a[i]@[k]) == followed(
        b[i]@[k]) by {
        lemma_replaced_times_len(funcs, b[i]@, cnt(i));
    }
}

/// The body `after` is `before` with its calls redirected: once in the entry, once in each
/// sequence that `visited` marks (so twice in the entry, if it is marked), where `visited` holds
/// exactly the sequences moved on to, in one step or more, from the entry.
pub open spec fn replaced_in_body(funcs: Map<u32, u32>, before: LocalFunction, after: LocalFunction, visited: Seq<bool>) -> bool {
    let n = before.blocks@.len();
    &&& after.entry == before.entry
    &&& after.args@ == before.args@
    &&& after.blocks@.len() == n
    &&& visited.len() == n
    &&& followed_in(before.blocks@, before.entry as int, visited)
    &&& forall|b: int| 0 <= b < n && visited[b] ==> #[trigger] followed_in(before.blocks@, b, visited)
    &&& forall|b: int| 0 <= b < n ==> (#[trigger] after.blocks@[b])@ == replaced_times(
        funcs,
        before.blocks@[b]@,
        (if b == before.entry { 1nat } else { 0nat }) + (if visited[b] { 1nat } else { 0nat }),
    )
    &&& forall|b: u32| (b as int) < n && #[trigger] visited[b as int] ==> followed_from(before.blocks@, before.entry, b)
}

proof fn lemma_followed_in_same(funcs: Map<u32, u32>, b0: Seq<Vec<Instr>>, b1: Seq<Vec<Instr>>, c: int, v: Seq<bool>, k: nat)
    requires
        0 <= c < b0.len(),
        b1.len() == b0.len(),
        b1[c]@ == replaced_times(funcs, b0[c]@, k),
    ensures
        followed_in(b0, c, v) == followed_in(b1, c, v),
{
    lemma_replaced_times_len(funcs, b0[c]@, k);
    if followed_in(b0, c, v) {
        assert forall|q: int, j: int| 0 <= q < b1[c]@.len() && 0 <= j < followed(b1[c]@[q]).len() implies {
            let s = #[trigger] followed(b1[c]@[q])[j];
            s < v.len() && v[s as int]
        } by {
            assert(followed(b1[c]@[q]) == followed(b0[c]@[q]));
        }
    }
    if followed_in(b1, c, v) {
        assert forall|q: int, j: int| 0 <= q < b0[c]@.len() && 0 <= j < followed(b0[c]@[q]).len() implies {
            let s = #[trigger] followed(b0[c]@[q])[j];
            s < v.len() && v[s as int]
        } by {
            assert(followed(b1[c]@[q]) == followed(b0[c]@[q]));
        }
    }
}

proof fn lemma_replaced_times_add(funcs: Map<u32, u32>, s: Seq<Instr>, a: nat, b: nat)
    ensures
        replaced_times(funcs, replaced_times(funcs, s, a), b) == replaced_times(funcs, s, a + b),
    decreases b,
{
    if b > 0 {
        lemma_replaced_times_add(funcs, s, a, (b - 1) as nat);
    }
}

proof fn lemma_replaced_times_len(funcs: Map<u32, u32>, s: Seq<Instr>, a: nat)
    ensures
        replaced_times(funcs, s, a).len() == s.len(),
        forall|j: int| 0 <= j < s.len() ==> followed(#[trigger] replaced_times(funcs, s, a)[j]) == followed(s[j]),
    decreases a,
{
    if a > 0 {
        lemma_replaced_times_len(funcs, s, (a - 1) as nat);
        let prev = replaced_times(funcs, s, (a - 1) as nat);
        assert forall|j: int| 0 <= j < s.len() implies followed(#[trigger] replaced_times(funcs, s, a)[j]) == followed(s[j]) by {
            assert(followed(prev[j]) == followed(s[j]));
        }
    }
}

/// Redirects the calls of the sequence `block_id`, then goes on, depth first, with each
/// sequence it moves on to that is not visited yet, marking it.
fn replace_funcs_in_block(
    func: &mut LocalFunction,
    block_id: u32,
    visited: &mut Vec<bool>,
    func_patch: &IdMap,
    Ghost(reach): Ghost<Seq<bool>>,
    Ghost(orig): Ghost<Seq<Vec<Instr>>>,
    Ghost(entry): Ghost<u32>,
)
    requires
        same_structure(old(func).blocks@, orig),
        block_id == entry || followed_from(orig, entry, block_id),
        old(visited)@.len() == old(func).blocks@.len(),
        reach.len() == old(func).blocks@.len(),
        forall|b: int| 0 <= b < reach.len() && reach[b] ==> #[trigger] followed_in(old(func).blocks@, b, reach),
        block_id < reach.len(),
        reach[block_id as int],
        forall|b: int| 0 <= b < reach.len() && old(visited)@[b] ==> reach[b],
    ensures
        final(func).entry == old(func).entry,
        final(func).args@ == old(func).args@,
        final(func).blocks@.len() == old(func).blocks@.len(),
        final(visited)@.len() == old(visited)@.len(),
        nb_unmarked(final(visited)@) <= nb_unmarked(old(visited)@),
        forall|b: int| 0 <= b < reach.len() && old(visited)@[b] ==> final(visited)@[b],
        forall|b: int| 0 <= b < reach.len() && final(visited)@[b] ==> reach[b],
        followed_in(old(func).blocks@, block_id as int, final(visited)@),
        forall|b: int| 0 <= b < reach.len() && final(visited)@[b] && !old(visited)@[b]
            ==> #[trigger] followed_in(old(func).blocks@, b, final(visited)@),
        forall|b: u32| (b as int) < reach.len() && #[trigger] final(visited)@[b as int] && !old(visited)@[b as int]
            ==> followed_from(orig, entry, b),
        same_structure(final(func).blocks@, old(func).blocks@),
        forall|b: int| 0 <= b < reach.len() ==> (#[trigger] final(func).blocks@[b])@ == replaced_times(
            func_patch@,
            old(func).blocks@[b]@,
            (if b == block_id { 1nat } else { 0nat }) + (if final(visited)@[b] && !old(visited)@[b] { 1nat } else { 0nat }),
        ),
    decreases nb_unmarked(old(visited)@),
{
    let ghost b0 = func.blocks@;
    let ghost v0 = visited@;
    let ghost n = b0.len();
    let mut block: Vec<Instr> = Vec::new();
    core::mem::swap(&mut block, &mut func.blocks[block_id as usize]);
    let ghost s0 = block@;
    assert(s0 == b0[block_id as int]@);
    let mut next_blocks: Vec<u32> = Vec::new();
    let mut k: usize = 0;
    while k < block.len()
        invariant
            0 <= k <= s0.len(),
            block@.len() == s0.len(),
            s0 == b0[block_id as int]@,
            followed_in(b0, block_id as int, reach),
            reach.len() == n,
            same_structure(b0, orig),
            n == b0.len(),
            block_id < n,
            forall|j: int| 0 <= j < k ==> #[trigger] block@[j] == call_replaced(func_patch@, s0[j]),
            forall|j: int| k <= j < s0.len() ==> #[trigger] block@[j] == s0[j],
            forall|q: int| 0 <= q < next_blocks@.len() ==> #[trigger] next_blocks@[q] < n && reach[next_blocks@[q] as int]
                && follows_to(orig[block_id as int]@, next_blocks@[q]),
            forall|j: int, q: int| 0 <= j < k && 0 <= q < followed(s0[j]).len() ==> next_blocks@.contains(
                #[trigger] followed(s0[j])[q],
            ),
        decreases s0.len() - k,
    {
        let ghost nb = next_blocks@;
        match &block[k] {
            Instr::Call(f) => {
                if let Some(g) = func_patch.get(*f) {
                    block.set(k, Instr::Call(g));
                }
            },
            Instr::Block(s) => next_blocks.push(*s),
            Instr::Loop(s) => next_blocks.push(*s),
            Instr::BrIf(s) => next_blocks.push(*s),
            Instr::IfElse { consequent, alternative } => {
                next_blocks.push(*consequent);
                next_blocks.push(*alternative);
            },
            Instr::BrTable { blocks, .. } => {
                let mut q: usize = 0;
                while q < blocks.len()
                    invariant
                        0 <= q <= blocks@.len(),
                        next_blocks@ == nb + blocks@.take(q as int),
                    decreases blocks@.len() - q,
                {
                    next_blocks.push(blocks[q]);
                    proof {
                        assert(blocks@.take(q + 1) =~= blocks@.take(q as int).push(blocks@[q as int]));
                    }
                    q = q + 1;
                }
                proof {
                    assert(blocks@.take(blocks@.len() as int) =~= blocks@);
                }
            },
            _ => {},
        }
        proof {
            let fs = followed(s0[k as int]);
            assert(next_blocks@ == nb + fs);
            assert(s0[k as int] == b0[block_id as int]@[k as int]);
            assert(followed(b0[block_id as int]@[k as int]) == followed(orig[block_id as int]@[k as int]));
            assert(fs == followed(orig[block_id as int]@[k as int]));
            assert forall|q: int| 0 <= q < next_blocks@.len() implies #[trigger] next_blocks@[q] < n
                && reach[next_blocks@[q] as int] && follows_to(orig[block_id as int]@, next_blocks@[q]) by {
                if q >= nb.len() {
                    assert(next_blocks@[q] == fs[q - nb.len()]);
                    assert(followed(orig[block_id as int]@[k as int])[q - nb.len()] == next_blocks@[q]);
                }
            }
            assert forall|j: int, q: int| 0 <= j <= k && 0 <= q < followed(s0[j]).len() implies next_blocks@.contains(
                #[trigger] followed(s0[j])[q]) by {
                if j < k {
                    let x = followed(s0[j])[q];
                    let w = choose|w: int| 0 <= w < nb.len() && nb[w] == x;
                    assert(next_blocks@[w] == x);
                } else {
                    assert(next_blocks@[nb.len() + q] == fs[q]);
                }
            }
        }
        k = k + 1;
    }
    func.blocks.set(block_id as usize, block);
    proof {
        assert(replaced_times(func_patch@, s0, 0) == s0);
        assert(func.blocks@[block_id as int]@ =~= replaced_times(func_patch@, s0, 1));
        lemma_same_structure_replaced(func_patch@, func.blocks@, b0,
            |c: int| if c == block_id { 1nat } else { 0nat });
    }
    let mut i: usize = 0;
    while i < next_blocks.len()
        invariant
            0 <= i <= next_blocks@.len(),
            b0 == old(func).blocks@,
            v0 == old(visited)@,
            n == b0.len(),
            reach.len() == n,
            forall|b: int| 0 <= b < n && reach[b] ==> #[trigger] followed_in(b0, b, reach),
            forall|q: int| 0 <= q < next_blocks@.len() ==> #[trigger] next_blocks@[q] < n && reach[next_blocks@[q] as int]
                && follows_to(orig[block_id as int]@, next_blocks@[q]),
            forall|j: int, q: int| 0 <= j < s0.len() && 0 <= q < followed(s0[j]).len() ==> next_blocks@.contains(
                #[trigger] followed(s0[j])[q],
            ),
            s0 == b0[block_id as int]@,
            same_structure(b0, orig),
            block_id < n,
            block_id == entry || followed_from(orig, entry, block_id),
            same_structure(func.blocks@, b0),
            forall|b: u32| (b as int) < n && #[trigger] visited@[b as int] && !v0[b as int] ==> followed_from(orig, entry, b),
            func.entry == old(func).entry,
            func.args@ == old(func).args@,
            func.blocks@.len() == n,
            visited@.len() == n,
            nb_unmarked(visited@) <= nb_unmarked(v0),
            forall|b: int| 0 <= b < n && v0[b] ==> visited@[b],
            forall|b: int| 0 <= b < n && visited@[b] ==> reach[b],
            forall|q: int| 0 <= q < i ==> visited@[#[trigger] next_blocks@[q] as int],
            forall|b: int| 0 <= b < n && visited@[b] && !v0[b] ==> #[trigger] followed_in(b0, b, visited@),
            forall|b: int| 0 <= b < n ==> (#[trigger] func.blocks@[b])@ == replaced_times(
                func_patch@,
                b0[b]@,
                (if b == block_id { 1nat } else { 0nat }) + (if visited@[b] && !v0[b] { 1nat } else { 0nat }),
            ),
        decreases next_blocks@.len() - i,
    {
        let b = next_blocks[i];
        if !visited[b as usize] {
            let ghost vb = visited@;
            let ghost fb = func.blocks@;
            proof {
                lemma_nb_unmarked_update(vb, b as int);
            }
            visited.set(b as usize, true);
            proof {
                assert forall|c: int| 0 <= c < n && reach[c] implies #[trigger] followed_in(fb, c, reach) by {
                    lemma_followed_in_same(func_patch@, b0, fb, c, reach,
                        (if c == block_id { 1nat } else { 0nat }) + (if vb[c] && !v0[c] { 1nat } else { 0nat }));
                }
            }
            proof {
                lemma_followed_from_step(orig, entry, block_id, b);
                lemma_same_structure_trans(fb, b0, orig);
            }
            replace_funcs_in_block(func, b, visited, func_patch, Ghost(reach), Ghost(orig), Ghost(entry));
            proof {
                lemma_same_structure_trans(func.blocks@, fb, b0);
            }
            proof {
                let vs = vb.update(b as int, true);
                assert forall|c: int| 0 <= c < n implies (#[trigger] func.blocks@[c])@ == replaced_times(
                    func_patch@,
                    b0[c]@,
                    (if c == block_id { 1nat } else { 0nat }) + (if visited@[c] && !v0[c] { 1nat } else { 0nat }),
                ) by {
                    let c1: nat = (if c == block_id { 1nat } else { 0nat }) + (if vb[c] && !v0[c] { 1nat } else { 0nat });
                    let c2: nat = (if c == b { 1nat } else { 0nat }) + (if visited@[c] && !vs[c] { 1nat } else { 0nat });
                    assert(fb[c]@ == replaced_times(func_patch@, b0[c]@, c1));
                    lemma_replaced_times_add(func_patch@, b0[c]@, c1, c2);
                }
                assert forall|c: int| 0 <= c < n && visited@[c] && !v0[c] implies #[trigger] followed_in(b0, c, visited@) by {
                    lemma_followed_in_same(func_patch@, b0, fb, c, visited@,
                        (if c == block_id { 1nat } else { 0nat }) + (if vb[c] && !v0[c] { 1nat } else { 0nat }));
                    if c != b && vb[c] {
                        assert forall|k: int, j: int|
                            0 <= k < b0[c]@.len() && 0 <= j < followed(b0[c]@[k]).len() implies {
                                let s = #[trigger] followed(b0[c]@[k])[j];
                                s < visited@.len() && visited@[s as int]
                            } by {
                            assert(followed_in(b0, c, vb));
                        }
                    }
                    if c != b && !vb[c] {
                        assert(!vs[c]);
                    }
                }
            }
        }
        i = i + 1;
    }
    proof {
        assert forall|k: int, j: int|
            0 <= k < b0[block_id as int]@.len() && 0 <= j < followed(b0[block_id as int]@[k]).len() implies {
                let s = #[trigger] followed(b0[block_id as int]@[k])[j];
                s < visited@.len() && visited@[s as int]
            } by {
            let x = followed(s0[k])[j];
            assert(next_blocks@.contains(x));
            let w = choose|w: int| 0 <= w < next_blocks@.len() && next_blocks@[w] == x;
            assert(visited@[next_blocks@[w] as int]);
        }
    }
}

/// Redirects the calls of a body, starting from its entry.
pub fn replace_funcs_in_body(func: &mut LocalFunction, func_patch: &IdMap)
    requires
        followable(*old(func)),
    ensures
        exists|visited: Seq<bool>| replaced_in_body(func_patch@, *old(func), *final(func), visited),
{
    let ghost reach = choose|reach: Seq<bool>| followable_within(*old(func), reach);
    let entry_block = func.entry;
    let ghost orig = func.blocks@;
    let mut visited_blocks: Vec<bool> = vec![false; func.blocks.len()];
    replace_funcs_in_block(func, entry_block, &mut visited_blocks, func_patch, Ghost(reach), Ghost(orig), Ghost(entry_block));
    proof {
        let v = visited_blocks@;
        assert(replaced_in_body(func_patch@, *old(func), *func, v));
    }
}

/// The function is left as it is, or, if the module defines it and `ignore` does not hold its
/// id, its calls are redirected.
pub open spec fn func_replaced(funcs: Map<u32, u32>, ignore: Seq<u32>, id: u32, before: Function, after: Function) -> bool {
    match before {
        Function::Local(b) => if ignore.contains(id) {
            after == before
        } else {
            &&& after is Local
            &&& exists|visited: Seq<bool>| replaced_in_body(funcs, b, after->Local_0, visited)
        },
        Function::Imported(_) => after == before,
    }
}

/// Redirects the calls of every function that the module defines, but those in `ignore`; a
/// function's id is its position.
pub fn replace_funcs_in_module(funcs: &mut Vec<Function>, func_patch: &IdMap, ignore: &[u32])
    requires
        old(funcs)@.len() <= u32::MAX,
        forall|i: int| 0 <= i < old(funcs)@.len() && !ignore@.contains(i as u32) ==> match #[trigger] old(funcs)@[i] {
            Function::Local(f) => followable(f),
            Function::Imported(_) => true,
        },
    ensures
        final(funcs)@.len() == old(funcs)@.len(),
        forall|i: int| 0 <= i < old(funcs)@.len() ==> func_replaced(func_patch@, ignore@, i as u32, old(funcs)@[i], #[trigger] final(funcs)@[i]),
{
    let mut i: usize = 0;
    while i < funcs.len()
        invariant
            0 <= i <= funcs@.len(),
            funcs@.len() == old(funcs)@.len(),
            funcs@.len() <= u32::MAX,
            forall|j: int| 0 <= j < old(funcs)@.len() && !ignore@.contains(j as u32) ==> match #[trigger] old(funcs)@[j] {
                Function::Local(f) => followable(f),
                Function::Imported(_) => true,
            },
            forall|j: int| 0 <= j < i ==> func_replaced(func_patch@, ignore@, j as u32, old(funcs)@[j], #[trigger] funcs@[j]),
            forall|j: int| i <= j < funcs@.len() ==> #[trigger] funcs@[j] == old(funcs)@[j],
        decreases funcs@.len() - i,
    {
        if !contains_id(ignore, i as u32) {
            let mut func = Function::Imported(0);
            core::mem::swap(&mut func, &mut funcs[i]);
            match func {
                Function::Local(mut body) => {
                    let ghost before = body;
                    replace_funcs_in_body(&mut body, func_patch);
                    let ghost after = body;
                    funcs.set(i, Function::Local(body));
                    assert(Function::Local(after)->Local_0 == after);
                    assert(func_replaced(func_patch@, ignore@, i as u32, Function::Local(before), Function::Local(after)));
                },
                Function::Imported(ty) => {
                    funcs.set(i, Function::Imported(ty));
                },
            }
        }
        assert(func_replaced(func_patch@, ignore@, i as u32, old(funcs)@[i as int], funcs@[i as int]));
        i = i + 1;
    }
}

} // verus!
