//! The vocabulary of modules and instances: their items, how they are referred to, and the
//! interface that a module offers to the runtime.

use vstd::prelude::*;

use crate::collections::{FrozenMap, NameMap};
use crate::entity::{FuncIndex, GlobIndex, HeapIndex, ImportIndex, TableIndex, TypeIndex};
use crate::types::{FuncType, RefType};
use crate::modules::{LayoutView, SimpleVMContextLayout};

verus! {

// ——————————————————————————————— Allocator ———————————————————————————————— //

/// How a heap may grow.
#[derive(Debug, Clone, Copy, PartialEq, Eq, Structural)]
pub enum HeapKind {
    Static { max_size: u32 },
    Dynamic,
}

/// A chunk of addressable memory.
///
/// Proper synchronization when accessing areas must be ensured by both the embedder and the
/// instances.
pub trait MemoryArea {
    /// The address of the begining of the area.
    spec fn addr(&self) -> usize;

    /// The number of bytes that the area was requested with.
    spec fn size(&self) -> usize;

    /// Returns the address of the begining of the area.
    fn as_ptr(&self) -> (r: usize)
        ensures
            r == self.addr(),
    ;

    /// Returns the address of the begining of the area, for writing.
    fn as_mut_ptr(&self) -> (r: usize)
        ensures
            r == self.addr(),
    ;
}

// ————————————————————————————————— Module ————————————————————————————————— //

/// A reference to an item of a module.
#[derive(Debug, Clone, Copy, PartialEq, Eq, Structural, Hash)]
pub enum ItemRef {
    Func(FuncIndex),
    Heap(HeapIndex),
    Table(TableIndex),
    Glob(GlobIndex),
    Import(ImportIndex),
}

impl ItemRef {
    /// The function index, if the item is a function.
    pub fn as_func(self) -> (r: Option<FuncIndex>)
        ensures
            r == (match self {
                ItemRef::Func(idx) => Some(idx),
                _ => None::<FuncIndex>,
            }),
    {
        match self {
            ItemRef::Func(idx) => Some(idx),
            _ => None,
        }
    }

    /// The heap index, if the item is a heap.
    pub fn as_heap(self) -> (r: Option<HeapIndex>)
        ensures
            r == (match self {
                ItemRef::Heap(idx) => Some(idx),
                _ => None::<HeapIndex>,
            }),
    {
        match self {
            ItemRef::Heap(idx) => Some(idx),
            _ => None,
        }
    }

    /// The table index, if the item is a table.
    pub fn as_table(self) -> (r: Option<TableIndex>)
        ensures
            r == (match self {
                ItemRef::Table(idx) => Some(idx),
                _ => None::<TableIndex>,
            }),
    {
        match self {
            ItemRef::Table(idx) => Some(idx),
            _ => None,
        }
    }

    /// The global index, if the item is a global.
    pub fn as_glob(self) -> (r: Option<GlobIndex>)
        ensures
            r == (match self {
                ItemRef::Glob(idx) => Some(idx),
                _ => None::<GlobIndex>,
            }),
    {
        match self {
            ItemRef::Glob(idx) => Some(idx),
            _ => None,
        }
    }
}

/// The address of a native function, never null.
///
/// The function might be called from Wasm instances, and therefore must respect the adequate
/// calling convention: the SystemV calling convention with a `vmctx: u64` as last argument.
#[derive(Clone, Copy, PartialEq, Eq, Structural, Debug)]
pub struct RawFuncPtr(usize);

impl View for RawFuncPtr {
    type V = usize;

    closed spec fn view(&self) -> usize {
        self.0
    }
}

impl RawFuncPtr {
    /// The address is never null.
    #[verifier::type_invariant]
    closed spec fn non_null(self) -> bool {
        self.0 != 0
    }

    /// The function pointer to the function at `addr`.
    pub closed spec fn new_spec(addr: usize) -> Self {
        RawFuncPtr(addr)
    }

    /// Creates a raw function pointer from the address of a function.
    pub fn new(func_ptr: usize) -> (r: Self)
        requires
            func_ptr != 0,
        ensures
            r@ == func_ptr,
            r == Self::new_spec(func_ptr),
    {
        Self(func_ptr)
    }

    /// The address of the function.
    pub fn as_ptr(&self) -> (r: usize)
        ensures
            r == self@,
            r != 0,
    {
        proof {
            use_type_invariant(self);
        }
        self.0
    }
}

/// A value that can be passed to WebAssembly as a 64 bits reference.
pub trait ExternRef64: Copy {
    /// The 64 bits representation of the reference.
    fn to_u64(self) -> u64;
}

/// Where a function comes from.
pub enum FuncInfo {
    Owned { offset: u32 },
    Imported { module: ImportIndex, name: String },
    Native { ptr: RawFuncPtr, ty: TypeIndex },
}

impl FuncInfo {
    /// Whether the function is imported from another module.
    pub fn is_imported(&self) -> (r: bool)
        ensures
            r == (self is Imported),
    {
        match self {
            FuncInfo::Imported { .. } => true,
            FuncInfo::Owned { .. } => false,
            FuncInfo::Native { .. } => false,
        }
    }
}

/// Where a heap comes from.
pub enum HeapInfo {
    Owned { min_size: u32, kind: HeapKind },
    Imported { module: ImportIndex, name: String },
}

/// Where a table comes from.
pub enum TableInfo {
    Owned { min_size: u32, max_size: Option<u32>, ty: RefType },
    Imported { module: ImportIndex, name: String, ty: RefType },
    Native { ptr: Vec<u64>, ty: RefType },
}

/// Possible initial values for a global variable (floats are held as their bits).
#[derive(Clone, Copy, PartialEq, Eq, Structural, Debug)]
pub enum GlobInit {
    I32(i32),
    I64(i64),
    F32(u32),
    F64(u64),
}

/// Where a global comes from.
pub enum GlobInfo {
    Owned { init: GlobInit },
    Imported { module: ImportIndex, name: String },
}

/// A data segment used to initialize memory.
#[derive(Clone)]
pub struct DataSegment {
    /// The heap to which the segment must be applied.
    pub heap_index: HeapIndex,
    /// An optional base, in the form of a global.
    pub base: Option<GlobIndex>,
    /// Offset, relative to the base if any, to 0 otherwise.
    pub offset: u64,
    /// The actual data.
    pub data: Vec<u8>,
}

/// A table segment used to initialize a table.
#[derive(Clone)]
pub struct TableSegment {
    /// The table to which the segment must be applied.
    pub table_index: TableIndex,
    /// An optional base, in the form of a global.
    pub base: Option<GlobIndex>,
    /// Offset, relative to the base if any, to 0 otherwise.
    pub offset: u32,
    /// The actual elements.
    pub elements: Vec<FuncIndex>,
}

/// The items that the VMContext of an instance holds, in order.
pub trait VMContextLayout {
    fn heaps(&self) -> &[HeapIndex];
    fn tables(&self) -> &[TableIndex];
    fn funcs(&self) -> &[FuncIndex];
    fn globs(&self) -> &[GlobIndex];
    fn imports(&self) -> &[ImportIndex];
}

/// The kind of a relocation, one to one with Cranelift's.
#[derive(Clone, Copy, PartialEq, Eq, Structural, Debug)]
pub enum RelocKind {
    Abs4,
    Abs8,
    X86PCRel4,
    X86CallPCRel4,
    X86CallPLTRel4,
    X86GOTPCRel4,
    Arm32Call,
    Arm64Call,
    S390xPCRel32Dbl,
    ElfX86_64TlsGd,
    MachOX86_64Tlv,
    Aarch64TlsGdAdrPage21,
    Aarch64TlsGdAddLo12Nc,
}

/// A relocation to apply to the code of a module.
#[derive(Clone, Copy, Debug)]
pub struct Reloc {
    /// Offset of the relocation, relative to the module's code address.
    pub offset: u32,
    /// The kind of relocation.
    pub kind: RelocKind,
    /// The symbol, whose address corresponds to the new relocation value.
    pub item: ItemRef,
    /// A value to add to the relocation.
    pub addend: i64,
}

/// The error that might occur during module instantiation.
#[derive(Debug, Clone, Copy, PartialEq, Eq, Structural)]
pub enum ModuleError {
    FailedToInstantiate,
    RuntimeError,
}

/// A module that can be instantiated.
pub trait Module {
    /// The function to run once the module is instantiated, if any.
    spec fn spec_start(&self) -> Option<FuncIndex>;
    /// The code of the module.
    spec fn spec_code(&self) -> Seq<u8>;
    /// The heaps of the module.
    spec fn spec_heaps(&self) -> Seq<HeapInfo>;
    /// The tables of the module.
    spec fn spec_tables(&self) -> Seq<TableInfo>;
    /// The functions of the module.
    spec fn spec_funcs(&self) -> Seq<FuncInfo>;
    /// The globals of the module.
    spec fn spec_globs(&self) -> Seq<GlobInfo>;
    /// The names of the modules that the module imports from.
    spec fn spec_imports(&self) -> Seq<String>;
    /// The function types of the module.
    spec fn spec_types(&self) -> Seq<FuncType>;
    /// The data segments of the module.
    spec fn spec_segments(&self) -> Seq<DataSegment>;
    /// The table segments of the module.
    spec fn spec_table_segments(&self) -> Seq<TableSegment>;
    /// The relocations of the code of the module.
    spec fn spec_relocs(&self) -> Seq<Reloc>;
    /// The items that the module exports, by name.
    spec fn spec_exports(&self) -> Map<Seq<char>, ItemRef>;
    /// The layout of the VMContext of the instances of the module.
    spec fn spec_layout(&self) -> LayoutView;

    fn start(&self) -> (r: Option<FuncIndex>)
        ensures
            r == self.spec_start(),
    ;

    fn code(&self) -> (r: &[u8])
        ensures
            r@ == self.spec_code(),
    ;

    fn heaps(&self) -> (r: &FrozenMap<HeapIndex, HeapInfo>)
        ensures
            r@ == self.spec_heaps(),
    ;

    fn tables(&self) -> (r: &FrozenMap<TableIndex, TableInfo>)
        ensures
            r@ == self.spec_tables(),
    ;

    fn funcs(&self) -> (r: &FrozenMap<FuncIndex, FuncInfo>)
        ensures
            r@ == self.spec_funcs(),
    ;

    fn types(&self) -> (r: &FrozenMap<TypeIndex, FuncType>)
        ensures
            r@ == self.spec_types(),
    ;

    fn globs(&self) -> (r: &FrozenMap<GlobIndex, GlobInfo>)
        ensures
            r@ == self.spec_globs(),
    ;

    fn imports(&self) -> (r: &FrozenMap<ImportIndex, String>)
        ensures
            r@ == self.spec_imports(),
    ;

    fn data_segments(&self) -> (r: &[DataSegment])
        ensures
            r@ == self.spec_segments(),
    ;

    fn table_segments(&self) -> (r: &[TableSegment])
        ensures
            r@ == self.spec_table_segments(),
    ;

    fn relocs(&self) -> (r: &[Reloc])
        ensures
            r@ == self.spec_relocs(),
    ;

    fn public_items(&self) -> (r: &NameMap<ItemRef>)
        ensures
            r@ == self.spec_exports(),
    ;

    fn vmctx_layout(&self) -> (r: &SimpleVMContextLayout)
        ensures
            r@ == self.spec_layout(),
    ;
}

} // verus!
