//! Coral system calls.
//!
//! System calls in Coral are provided as a native module that can be linked to any WebAssembly
//! module. User-land refers to kernel objects through handles (`ExternRef`), and system calls
//! report their outcome with a `SyscallResult`.

use vstd::prelude::*;
use std::sync::Arc;
use vstd::slice::SliceAdditionalExecFns;

use crate::abi::{ExternRef64, WasmType};
use crate::entity::{ComponentIndex, EntityRef, ModuleIndex, VmaIndex};
use crate::kernel_objects::{KernelObjectCollection, KoIndex};

verus! {

/// A WebAssembly externref: a handle to a kernel object.
#[derive(Debug, Clone, Copy, PartialEq, Eq, Structural)]
pub enum ExternRef {
    /// An invalid handle.
    Invalid,
    /// A virtual memory area.
    Vma(VmaIndex),
    /// A WebAssembly module.
    Module(ModuleIndex),
    /// A component.
    Component(ComponentIndex),
}

/// The number of values of a 32 bits integer.
pub const TWO_POW_32: u64 = 0x1_0000_0000;

/// The tag of each kind of handle, in the low byte of its ABI representation.
pub open spec fn externref_tag(e: ExternRef) -> u64 {
    match e {
        ExternRef::Invalid => 0,
        ExternRef::Vma(_) => 1,
        ExternRef::Module(_) => 2,
        ExternRef::Component(_) => 3,
    }
}

/// The index carried by a handle, in the high 32 bits of its ABI representation.
pub open spec fn externref_payload(e: ExternRef) -> u64 {
    match e {
        ExternRef::Invalid => 0,
        ExternRef::Vma(i) => i.0 as u64,
        ExternRef::Module(i) => i.0 as u64,
        ExternRef::Component(i) => i.0 as u64,
    }
}

impl WasmType for ExternRef {
    type Abi = ExternRef64;

    /// The tag in the low byte, the index in the high 32 bits.
    open spec fn spec_into_abi(self) -> u64 {
        (externref_payload(self) * TWO_POW_32 + externref_tag(self)) as u64
    }

    /// WebAssembly can neither modify nor create references: only a known tag is accepted.
    open spec fn accepts_abi(val: u64) -> bool {
        val % 256 < 4
    }

    open spec fn spec_from_abi(val: u64) -> ExternRef {
        let idx = (val / TWO_POW_32) as u32;
        if val % 256 == 0 {
            ExternRef::Invalid
        } else if val % 256 == 1 {
            ExternRef::Vma(VmaIndex(idx))
        } else if val % 256 == 2 {
            ExternRef::Module(ModuleIndex(idx))
        } else {
            ExternRef::Component(ComponentIndex(idx))
        }
    }

    fn into_abi(self) -> (r: u64) {
        match self {
            ExternRef::Invalid => 0,
            ExternRef::Vma(i) => (i.0 as u64) * TWO_POW_32 + 1,
            ExternRef::Module(i) => (i.0 as u64) * TWO_POW_32 + 2,
            ExternRef::Component(i) => (i.0 as u64) * TWO_POW_32 + 3,
        }
    }

    fn from_abi(val: u64) -> (r: ExternRef) {
        let idx = (val / TWO_POW_32) as u32;
        let tag = val % 256;
        if tag == 0 {
            ExternRef::Invalid
        } else if tag == 1 {
            ExternRef::Vma(VmaIndex(idx))
        } else if tag == 2 {
            ExternRef::Module(ModuleIndex(idx))
        } else {
            ExternRef::Component(ComponentIndex(idx))
        }
    }
}

/// A handle converted to its ABI representation and back is the same handle.
pub proof fn lemma_externref_roundtrip(e: ExternRef)
    ensures
        ExternRef::accepts_abi(e.spec_into_abi()),
        ExternRef::spec_from_abi(e.spec_into_abi()) == e,
{
    let p = externref_payload(e);
    let t = externref_tag(e);
    assert(p < TWO_POW_32);
    let v = p * TWO_POW_32 + t;
    assert(v < 0x1_0000_0000_0000_0000) by (nonlinear_arith)
        requires
            p < TWO_POW_32,
            t < 4,
            v == p * TWO_POW_32 + t,
    ;
    assert(v % 256 == t) by (nonlinear_arith)
        requires
            v == p * 0x1_0000_0000 + t,
            0 <= t < 4,
            p >= 0,
    ;
    assert(v / TWO_POW_32 as int == p) by (nonlinear_arith)
        requires
            v == p * 0x1_0000_0000 + t,
            0 <= t < 4,
            p >= 0,
    ;
}

/// The outcome of a system call.
#[derive(Clone, Copy, Debug, PartialEq, Eq, Structural)]
pub enum SyscallResult {
    Success,
    InvalidParams,
    InternalError,
    UnknownError,
}

impl WasmType for SyscallResult {
    type Abi = i32;

    open spec fn spec_into_abi(self) -> i32 {
        match self {
            SyscallResult::Success => 0,
            SyscallResult::InvalidParams => 1,
            SyscallResult::InternalError => 2,
            SyscallResult::UnknownError => 3,
        }
    }

    /// User-land never sends an outcome to the kernel: no value is accepted.
    open spec fn accepts_abi(val: i32) -> bool {
        false
    }

    open spec fn spec_from_abi(val: i32) -> SyscallResult {
        SyscallResult::UnknownError
    }

    fn into_abi(self) -> (r: i32) {
        match self {
            SyscallResult::Success => 0,
            SyscallResult::InvalidParams => 1,
            SyscallResult::InternalError => 2,
            SyscallResult::UnknownError => 3,
        }
    }

    fn from_abi(val: i32) -> (r: SyscallResult) {
        SyscallResult::UnknownError
    }
}

/// The kind of object that a handle refers to.
#[derive(Clone, Copy, Debug, PartialEq, Eq, Structural)]
pub enum HandleKind {
    Invalid,
    Vma,
    Module,
    Component,
}

impl WasmType for HandleKind {
    type Abi = u32;

    open spec fn spec_into_abi(self) -> u32 {
        match self {
            HandleKind::Invalid => 0,
            HandleKind::Vma => 1,
            HandleKind::Module => 2,
            HandleKind::Component => 3,
        }
    }

    /// User-land never sends a kind to the kernel: no value is accepted.
    open spec fn accepts_abi(val: u32) -> bool {
        false
    }

    open spec fn spec_from_abi(val: u32) -> HandleKind {
        HandleKind::Invalid
    }

    fn into_abi(self) -> (r: u32) {
        match self {
            HandleKind::Invalid => 0,
            HandleKind::Vma => 1,
            HandleKind::Module => 2,
            HandleKind::Component => 3,
        }
    }

    fn from_abi(val: u32) -> (r: HandleKind) {
        HandleKind::Invalid
    }
}

/// The kind of object that a handle refers to.
pub open spec fn spec_handle_kind(handle: ExternRef) -> HandleKind {
    match handle {
        ExternRef::Invalid => HandleKind::Invalid,
        ExternRef::Vma(_) => HandleKind::Vma,
        ExternRef::Module(_) => HandleKind::Module,
        ExternRef::Component(_) => HandleKind::Component,
    }
}

/// System call: returns the kind of object that a handle refers to.
pub fn handle_kind(handle: ExternRef) -> (r: HandleKind)
    ensures
        r == spec_handle_kind(handle),
{
    match handle {
        ExternRef::Invalid => HandleKind::Invalid,
        ExternRef::Vma(_) => HandleKind::Vma,
        ExternRef::Module(_) => HandleKind::Module,
        ExternRef::Component(_) => HandleKind::Component,
    }
}

/// The object of a collection at the position of an index, or an invalid-parameter error where
/// there is none.
pub open spec fn lookup<Obj>(objects: Seq<Arc<Obj>>, pos: nat) -> Result<Arc<Obj>, SyscallResult> {
    if pos < objects.len() {
        Ok(objects[pos as int])
    } else {
        Err(SyscallResult::InvalidParams)
    }
}

/// Returns the component corresponding to the given handle, if any.
pub fn get_component<Obj>(
    components: &KernelObjectCollection<Obj, ComponentIndex>,
    handle: ExternRef,
) -> (r: Result<Arc<Obj>, SyscallResult>)
    ensures
        r == (match handle {
            ExternRef::Component(i) => lookup(components@, i.pos()),
            _ => Err(SyscallResult::InvalidParams),
        }),
{
    let idx = match handle {
        ExternRef::Component(idx) => idx,
        _ => {
            return Err(SyscallResult::InvalidParams);
        },
    };
    match components.get(idx) {
        Some(c) => Ok(c),
        None => Err(SyscallResult::InvalidParams),
    }
}

/// Returns the module corresponding to the given handle, if any.
pub fn get_module<Obj>(modules: &KernelObjectCollection<Obj, ModuleIndex>, handle: ExternRef) -> (r:
    Result<Arc<Obj>, SyscallResult>)
    ensures
        r == (match handle {
            ExternRef::Module(i) => lookup(modules@, i.pos()),
            _ => Err(SyscallResult::InvalidParams),
        }),
{
    let idx = match handle {
        ExternRef::Module(idx) => idx,
        _ => {
            return Err(SyscallResult::InvalidParams);
        },
    };
    match modules.get(idx) {
        Some(m) => Ok(m),
        None => Err(SyscallResult::InvalidParams),
    }
}

/// Returns the VMA corresponding to the given handle, if any.
pub fn get_vma<Obj>(vmas: &KernelObjectCollection<Obj, VmaIndex>, handle: ExternRef) -> (r: Result<
    Arc<Obj>,
    SyscallResult,
>)
    ensures
        r == (match handle {
            ExternRef::Vma(i) => lookup(vmas@, i.pos()),
            _ => Err(SyscallResult::InvalidParams),
        }),
{
    let idx = match handle {
        ExternRef::Vma(idx) => idx,
        _ => {
            return Err(SyscallResult::InvalidParams);
        },
    };
    match vmas.get(idx) {
        Some(v) => Ok(v),
        None => Err(SyscallResult::InvalidParams),
    }
}

/// The area behind a VMA handle, or an invalid-parameter error.
pub open spec fn vma_lookup<Obj>(vmas: Seq<Arc<Obj>>, handle: ExternRef) -> Result<Arc<Obj>, SyscallResult> {
    match handle {
        ExternRef::Vma(i) => lookup(vmas, i.pos()),
        _ => Err(SyscallResult::InvalidParams),
    }
}

/// System call, first step of `vma_write`: the source and target areas behind the two handles.
/// A handle that is not a live VMA gives an invalid-parameter error, the source's first.
pub fn vma_write_areas<Obj>(vmas: &KernelObjectCollection<Obj, VmaIndex>, source: ExternRef, target: ExternRef) -> (r: Result<
    (Arc<Obj>, Arc<Obj>),
    SyscallResult,
>)
    ensures
        r == (match (vma_lookup(vmas@, source), vma_lookup(vmas@, target)) {
            (Ok(s), Ok(t)) => Ok((s, t)),
            (Err(e), _) => Err(e),
            (Ok(_), Err(e)) => Err(e),
        }),
        r is Err ==> r == Err::<(Arc<Obj>, Arc<Obj>), SyscallResult>(SyscallResult::InvalidParams),
{
    let s = match get_vma(vmas, source) {
        Ok(s) => s,
        Err(e) => {
            return Err(e);
        },
    };
    let t = match get_vma(vmas, target) {
        Ok(t) => t,
        Err(e) => {
            return Err(e);
        },
    };
    Ok((s, t))
}

/// The window of `size` bytes at `offset` lies within an area of `len` bytes.
pub open spec fn window_ok(len: int, offset: int, size: int) -> bool {
    offset + size <= len
}

/// Returns the bounds of the window of `size` bytes at `offset` in an area of `len` bytes, or an
/// invalid-parameter error where the window does not lie within the area.
pub fn vma_window(len: usize, offset: u64, size: u64) -> (r: Result<(usize, usize), SyscallResult>)
    ensures
        window_ok(len as int, offset as int, size as int) <==> r is Ok,
        r matches Err(e) ==> e == SyscallResult::InvalidParams,
        r matches Ok((start, end)) ==> start == offset && end == offset + size,
{
    if offset > usize::MAX as u64 || size > usize::MAX as u64 {
        return Err(SyscallResult::InvalidParams);
    }
    let offset = offset as usize;
    let size = size as usize;
    let end = match offset.checked_add(size) {
        Some(end) => end,
        None => {
            return Err(SyscallResult::InvalidParams);
        },
    };
    if len < end {
        Err(SyscallResult::InvalidParams)
    } else {
        Ok((offset, end))
    }
}

/// Returns a view of the given VMA at the given offset and with the given size.
pub fn vma_as_buf(vma: &[u8], offset: u64, size: u64) -> (r: Result<&[u8], SyscallResult>)
    ensures
        window_ok(vma@.len() as int, offset as int, size as int) <==> r is Ok,
        r matches Err(e) ==> e == SyscallResult::InvalidParams,
        r matches Ok(buf) ==> buf@ == vma@.subrange(offset as int, offset + size),
{
    match vma_window(vma.len(), offset, size) {
        Ok((start, end)) => Ok(&vma[start..end]),
        Err(e) => Err(e),
    }
}

/// System call body: copies `size` bytes at `source_offset` in the source area to
/// `target_offset` in the target area.
///
/// Both windows must lie within their areas, else nothing is written and the call fails with
/// an invalid-parameter error.
pub fn vma_write(
    source: &[u8],
    target: &mut [u8],
    source_offset: u64,
    target_offset: u64,
    size: u64,
) -> (r: SyscallResult)
    ensures
        ({
            let ok = window_ok(source@.len() as int, source_offset as int, size as int)
                && window_ok(old(target)@.len() as int, target_offset as int, size as int);
            &&& ok ==> r == SyscallResult::Success && final(target)@ == old(target)@.subrange(
                0,
                target_offset as int,
            ) + source@.subrange(source_offset as int, source_offset + size) + old(
                target,
            )@.subrange(target_offset + size, old(target)@.len() as int)
            &&& !ok ==> r == SyscallResult::InvalidParams && final(target)@ == old(target)@
        }),
{
    let (s_start, _s_end) = match vma_window(source.len(), source_offset, size) {
        Ok(w) => w,
        Err(e) => {
            return e;
        },
    };
    let (t_start, t_end) = match vma_window(target.len(), target_offset, size) {
        Ok(w) => w,
        Err(e) => {
            return e;
        },
    };
    let n = t_end - t_start;
    let ghost old_target = target@;
    let mut i: usize = 0;
    while i < n
        invariant
            0 <= i <= n,
            n == size,
            s_start == source_offset,
            t_start == target_offset,
            s_start + n <= source@.len(),
            t_start + n <= target@.len(),
            source@.len() == source.len(),
            target@.len() == target.len(),
            target@.len() == old_target.len(),
            forall|j: int| 0 <= j < t_start ==> target@[j] == old_target[j],
            forall|j: int| t_start + n <= j < target@.len() ==> target@[j] == old_target[j],
            forall|j: int|
                t_start <= j < t_start + i ==> #[trigger] target@[j] == source@[s_start + (j
                    - t_start)],
            forall|j: int| t_start + i <= j < t_start + n ==> #[trigger] target@[j] == old_target[j],
        decreases n - i,
    {
        let b = source[s_start + i];
        target.set(t_start + i, b);
        i = i + 1;
    }
    proof {
        let expected = old_target.subrange(0, t_start as int) + source@.subrange(
            s_start as int,
            s_start + n,
        ) + old_target.subrange(t_start + n, old_target.len() as int);
        assert(target@ =~= expected) by {
            assert forall|j: int| 0 <= j < target@.len() implies target@[j] == expected[j] by {
                if j < t_start {
                } else if j < t_start + n {
                } else {
                }
            }
        }
    }
    SyscallResult::Success
}

} // verus!
