//! The compiler's assembly of a module: from the declarations that the decoding of a
//! WebAssembly module made, to the description of the module that can be instantiated; and the
//! relocations that code generation reports.

use vstd::prelude::*;

use crate::collections::FrozenMap;
use crate::compiler_env::{self, Exportable};
use crate::entity::{EntityRef, FuncIndex, GlobIndex, HeapIndex, ImportIndex, TableIndex, TypeIndex};
use crate::modules::{insert_all, names_of, ModuleInfo};
use crate::traits::{
    DataSegment, FuncInfo, GlobInfo, GlobInit, HeapInfo, HeapKind, ItemRef, Reloc, RelocKind,
    TableInfo, TableSegment,
};
use crate::types::{FuncType, RefType};

verus! {

/// The errors that might occur during compilation.
#[derive(Debug, Clone, Copy, PartialEq, Eq, Structural)]
pub enum CompilerError {
    FailedToParse,
    FailedToCompile,
}

/// The initializer of a global, as the decoder reads it (floats are held as their bits).
#[derive(Debug, Clone, Copy, PartialEq, Eq, Structural)]
pub enum GlobalInit {
    I32Const(i32),
    I64Const(i64),
    F32Const(u32),
    F64Const(u64),
    V128Const(u128),
    GetGlobal(GlobIndex),
    RefNullConst,
    RefFunc(FuncIndex),
    Import,
}

/// A memory, as the decoder reads it: its minimal and maximal number of pages.
#[derive(Debug, Clone, Copy, PartialEq, Eq, Structural)]
pub struct Memory {
    pub minimum: u64,
    pub maximum: Option<u64>,
    pub shared: bool,
}

/// A table, as the decoder reads it.
#[derive(Debug, Clone, Copy, PartialEq, Eq, Structural)]
pub struct Table {
    pub ty: RefType,
    pub minimum: u32,
    pub maximum: Option<u32>,
}

/// A global, as the decoder reads it.
#[derive(Debug, Clone, Copy, PartialEq, Eq, Structural)]
pub struct Global {
    pub mutable: bool,
    pub initializer: GlobalInit,
}

/// The initializers that a module's own globals can have: constants of the number types.
pub open spec fn glob_init_supported(init: GlobalInit) -> bool {
    ||| init is I32Const
    ||| init is I64Const
    ||| init is F32Const
    ||| init is F64Const
}

/// The initial value of a global for a supported initializer.
pub open spec fn spec_convert_glob_init(init: GlobalInit) -> GlobInit {
    match init {
        GlobalInit::I32Const(x) => GlobInit::I32(x),
        GlobalInit::I64Const(x) => GlobInit::I64(x),
        GlobalInit::F32Const(x) => GlobInit::F32(x),
        GlobalInit::F64Const(x) => GlobInit::F64(x),
        _ => GlobInit::I32(0),
    }
}

/// Converts the initializer of one of the module's own globals.
pub fn convert_glob_init(init: GlobalInit) -> (r: GlobInit)
    requires
        glob_init_supported(init),
    ensures
        r == spec_convert_glob_init(init),
{
    match init {
        GlobalInit::I32Const(x) => GlobInit::I32(x),
        GlobalInit::I64Const(x) => GlobInit::I64(x),
        GlobalInit::F32Const(x) => GlobInit::F32(x),
        GlobalInit::F64Const(x) => GlobInit::F64(x),
        _ => GlobInit::I32(0),
    }
}

/// The description of a function: imported where it has an import, else defined by the module
/// at an offset set once the code is laid out.
pub open spec fn spec_func_info(import: Option<compiler_env::ImportedFunc>) -> FuncInfo {
    match import {
        Some(f) => FuncInfo::Imported { module: f.module, name: f.name },
        None => FuncInfo::Owned { offset: 0 },
    }
}

/// The description of a heap: imported where it has an import, else owned, static where it has
/// a maximal size.
pub open spec fn spec_heap_info(memory: Memory, import: Option<compiler_env::ImportedHeap>) -> HeapInfo {
    match import {
        Some(h) => HeapInfo::Imported { module: h.module, name: h.name },
        None => HeapInfo::Owned {
            min_size: memory.minimum as u32,
            kind: match memory.maximum {
                Some(m) => HeapKind::Static { max_size: m as u32 },
                None => HeapKind::Dynamic,
            },
        },
    }
}

/// The description of a table: imported where it has an import, else owned.
pub open spec fn spec_table_info(table: Table, import: Option<compiler_env::ImportedTable>) -> TableInfo {
    match import {
        Some(t) => TableInfo::Imported { module: t.module, name: t.name, ty: table.ty },
        None => TableInfo::Owned { min_size: table.minimum, max_size: table.maximum, ty: table.ty },
    }
}

/// The description of a global: imported where it has an import, else owned with its initial
/// value.
pub open spec fn spec_glob_info(global: Global, import: Option<compiler_env::ImportedGlob>) -> GlobInfo {
    match import {
        Some(g) => GlobInfo::Imported { module: g.module, name: g.name },
        None => GlobInfo::Owned { init: spec_convert_glob_init(global.initializer) },
    }
}

/// The exports after each entity of the list is exported under its names, in order; the
/// `n`-th entity is the item `item(n)`.
pub open spec fn export_all<T>(
    m: Map<Seq<char>, ItemRef>,
    entities: Seq<Exportable<T>>,
    item: spec_fn(nat) -> ItemRef,
) -> Map<Seq<char>, ItemRef>
    decreases entities.len(),
{
    if entities.len() == 0 {
        m
    } else {
        insert_all(
            export_all(m, entities.drop_last(), item),
            names_of(entities.last().export_names@),
            item((entities.len() - 1) as nat),
        )
    }
}

/// The environment is one that the assembly accepts: each entity has its import entry, every
/// global defined by the module has a constant initializer, and the indices fit in 32 bits.
pub open spec fn assembly_ok(env: compiler_env::ModuleInfo<FuncType, Memory, Table, Global>) -> bool {
    &&& env.wf()
    &&& env.funcs@.len() < u32::MAX
    &&& env.heaps@.len() < u32::MAX
    &&& env.tables@.len() < u32::MAX
    &&& env.globs@.len() < u32::MAX
    &&& env.types@.len() <= u32::MAX
    &&& env.modules@.len() <= u32::MAX
    &&& forall|i: int|
        0 <= i < env.globs@.len() && env.imported_globs@[i] is None ==> glob_init_supported(
            #[trigger] env.globs@[i].entity.initializer,
        )
}

/// The two descriptions differ at most by their exports.
pub open spec fn same_but_exports(a: ModuleInfo, b: ModuleInfo) -> bool {
    &&& a.funcs@ == b.funcs@
    &&& a.heaps@ == b.heaps@
    &&& a.tables@ == b.tables@
    &&& a.globs@ == b.globs@
    &&& a.types@ == b.types@
    &&& a.imports@ == b.imports@
    &&& a.segments@ == b.segments@
    &&& a.elements@ == b.elements@
    &&& a.start == b.start
}

/// Assembles the description of a module from the declarations made while decoding it.
///
/// Each function, heap, table and global is described by its declaration and import, exports
/// are registered (functions, then heaps, tables and globals), and the code offsets of the
/// functions the module defines are left to be set once the code is laid out.
pub fn build_module_info(env: compiler_env::ModuleInfo<FuncType, Memory, Table, Global>) -> (r:
    ModuleInfo)
    requires
        assembly_ok(env),
    ensures
        r.funcs@ == Seq::new(env.funcs@.len(), |i: int| spec_func_info(env.imported_funcs@[i])),
        r.heaps@ == Seq::new(
            env.heaps@.len(),
            |i: int| spec_heap_info(env.heaps@[i].entity, env.imported_heaps@[i]),
        ),
        r.tables@ == Seq::new(
            env.tables@.len(),
            |i: int| spec_table_info(env.tables@[i].entity, env.imported_tables@[i]),
        ),
        r.globs@ == Seq::new(
            env.globs@.len(),
            |i: int| spec_glob_info(env.globs@[i].entity, env.imported_globs@[i]),
        ),
        r.types@ == env.types@,
        names_of(r.imports@) == names_of(env.modules@),
        r.start == env.start,
        r.segments@.len() == env.segments@.len(),
        forall|i: int| 0 <= i < env.segments@.len() ==> {
            let s = #[trigger] r.segments@[i];
            &&& s.heap_index == env.segments@[i].memory_index
            &&& s.base == env.segments@[i].base
            &&& s.offset == env.segments@[i].offset
            &&& s.data@ == env.segments@[i].data@
        },
        r.elements@.len() == env.elements@.len(),
        forall|i: int| 0 <= i < env.elements@.len() ==> {
            let e = #[trigger] r.elements@[i];
            &&& e.table_index == env.elements@[i].table_index
            &&& e.base == env.elements@[i].base
            &&& e.offset == env.elements@[i].offset
            &&& e.elements@ == env.elements@[i].elements@
        },
        r.exported_items@ == export_all(
            export_all(
                export_all(
                    export_all(
                        Map::empty(),
                        env.funcs@,
                        |i: nat| ItemRef::Func(FuncIndex::at_pos(i)),
                    ),
                    env.heaps@,
                    |i: nat| ItemRef::Heap(HeapIndex::at_pos(i)),
                ),
                env.tables@,
                |i: nat| ItemRef::Table(TableIndex::at_pos(i)),
            ),
            env.globs@,
            |i: nat| ItemRef::Glob(GlobIndex::at_pos(i)),
        ),
{
    // Functions
    let mut funcs: Vec<FuncInfo> = Vec::new();
    let mut i: usize = 0;
    while i < env.funcs.len()
        invariant
            assembly_ok(env),
            i <= env.funcs@.len(),
            funcs@ == Seq::new(i as nat, |j: int| spec_func_info(env.imported_funcs@[j])),
        decreases env.funcs@.len() - i,
    {
        let info = match &env.imported_funcs[i] {
            Some(f) => FuncInfo::Imported { module: f.module, name: f.name.clone() },
            None => FuncInfo::Owned { offset: 0 },
        };
        funcs.push(info);
        proof {
            assert(funcs@ =~= Seq::new((i + 1) as nat, |j: int| spec_func_info(env.imported_funcs@[j])));
        }
        i = i + 1;
    }

    // Heaps
    let mut heaps: Vec<HeapInfo> = Vec::new();
    let mut i: usize = 0;
    while i < env.heaps.len()
        invariant
            assembly_ok(env),
            i <= env.heaps@.len(),
            heaps@ == Seq::new(
                i as nat,
                |j: int| spec_heap_info(env.heaps@[j].entity, env.imported_heaps@[j]),
            ),
        decreases env.heaps@.len() - i,
    {
        let memory = env.heaps[i].entity;
        let info = match &env.imported_heaps[i] {
            Some(h) => HeapInfo::Imported { module: h.module, name: h.name.clone() },
            None => HeapInfo::Owned {
                min_size: memory.minimum as u32,
                kind: match memory.maximum {
                    Some(m) => HeapKind::Static { max_size: m as u32 },
                    None => HeapKind::Dynamic,
                },
            },
        };
        heaps.push(info);
        proof {
            assert(heaps@ =~= Seq::new(
                (i + 1) as nat,
                |j: int| spec_heap_info(env.heaps@[j].entity, env.imported_heaps@[j]),
            ));
        }
        i = i + 1;
    }

    // Tables
    let mut tables: Vec<TableInfo> = Vec::new();
    let mut i: usize = 0;
    while i < env.tables.len()
        invariant
            assembly_ok(env),
            i <= env.tables@.len(),
            tables@ == Seq::new(
                i as nat,
                |j: int| spec_table_info(env.tables@[j].entity, env.imported_tables@[j]),
            ),
        decreases env.tables@.len() - i,
    {
        let table = env.tables[i].entity;
        let info = match &env.imported_tables[i] {
            Some(t) => TableInfo::Imported { module: t.module, name: t.name.clone(), ty: table.ty },
            None => TableInfo::Owned {
                min_size: table.minimum,
                max_size: table.maximum,
                ty: table.ty,
            },
        };
        tables.push(info);
        proof {
            assert(tables@ =~= Seq::new(
                (i + 1) as nat,
                |j: int| spec_table_info(env.tables@[j].entity, env.imported_tables@[j]),
            ));
        }
        i = i + 1;
    }

    // Globals
    let mut globs: Vec<GlobInfo> = Vec::new();
    let mut i: usize = 0;
    while i < env.globs.len()
        invariant
            assembly_ok(env),
            i <= env.globs@.len(),
            globs@ == Seq::new(
                i as nat,
                |j: int| spec_glob_info(env.globs@[j].entity, env.imported_globs@[j]),
            ),
        decreases env.globs@.len() - i,
    {
        let global = env.globs[i].entity;
        let info = match &env.imported_globs[i] {
            Some(g) => GlobInfo::Imported { module: g.module, name: g.name.clone() },
            None => {
                assert(glob_init_supported(env.globs@[i as int].entity.initializer));
                GlobInfo::Owned { init: convert_glob_init(global.initializer) }
            },
        };
        globs.push(info);
        proof {
            assert(globs@ =~= Seq::new(
                (i + 1) as nat,
                |j: int| spec_glob_info(env.globs@[j].entity, env.imported_globs@[j]),
            ));
        }
        i = i + 1;
    }

    // Imported modules
    let mut imports: Vec<String> = Vec::new();
    let mut i: usize = 0;
    while i < env.modules.len()
        invariant
            i <= env.modules@.len(),
            imports@.len() == i,
            forall|j: int| 0 <= j < i ==> (#[trigger] imports@[j])@ == env.modules@[j]@,
        decreases env.modules@.len() - i,
    {
        imports.push(env.modules[i].clone());
        i = i + 1;
    }
    proof {
        assert(names_of(imports@) =~= names_of(env.modules@));
    }

    // Segments
    let mut segments: Vec<DataSegment> = Vec::new();
    let mut i: usize = 0;
    while i < env.segments.len()
        invariant
            i <= env.segments@.len(),
            segments@.len() == i,
            forall|j: int| 0 <= j < i ==> {
                let s = #[trigger] segments@[j];
                &&& s.heap_index == env.segments@[j].memory_index
                &&& s.base == env.segments@[j].base
                &&& s.offset == env.segments@[j].offset
                &&& s.data@ == env.segments@[j].data@
            },
        decreases env.segments@.len() - i,
    {
        let s = &env.segments[i];
        segments.push(
            DataSegment {
                heap_index: s.memory_index,
                base: s.base,
                offset: s.offset,
                data: vstd::slice::slice_to_vec(s.data.as_slice()),
            },
        );
        i = i + 1;
    }
    let mut elements: Vec<TableSegment> = Vec::new();
    let mut i: usize = 0;
    while i < env.elements.len()
        invariant
            i <= env.elements@.len(),
            elements@.len() == i,
            forall|j: int| 0 <= j < i ==> {
                let e = #[trigger] elements@[j];
                &&& e.table_index == env.elements@[j].table_index
                &&& e.base == env.elements@[j].base
                &&& e.offset == env.elements@[j].offset
                &&& e.elements@ == env.elements@[j].elements@
            },
        decreases env.elements@.len() - i,
    {
        let e = &env.elements[i];
        elements.push(
            TableSegment {
                table_index: e.table_index,
                base: e.base,
                offset: e.offset,
                elements: vstd::slice::slice_to_vec(e.elements.as_slice()),
            },
        );
        i = i + 1;
    }

    let start = env.start;
    let types = env.types;
    let mut info = ModuleInfo::new(
        FrozenMap::freeze(funcs),
        FrozenMap::freeze(types),
        FrozenMap::freeze(heaps),
        FrozenMap::freeze(tables),
        FrozenMap::freeze(globs),
        FrozenMap::freeze(imports),
        segments,
        elements,
        start,
    );

    // Exports
    let ghost before = info;
    let ghost mk_func = |i: nat| ItemRef::Func(FuncIndex::at_pos(i));
    let ghost m0 = info.exported_items@;
    let mut i: usize = 0;
    while i < env.funcs.len()
        invariant
            assembly_ok(env),
            i <= env.funcs@.len(),
            info.exported_items@ == export_all(m0, env.funcs@.take(i as int), mk_func),
            mk_func == (|i: nat| ItemRef::Func(FuncIndex::at_pos(i))),
            same_but_exports(info, before),
        decreases env.funcs@.len() - i,
    {
        info.export_func(FuncIndex::new(i), env.funcs[i].export_names.as_slice());
        proof {
            let t = env.funcs@.take(i + 1);
            assert(t.drop_last() =~= env.funcs@.take(i as int));
        }
        i = i + 1;
    }
    proof {
        assert(env.funcs@.take(env.funcs@.len() as int) =~= env.funcs@);
    }
    let ghost mk_heap = |i: nat| ItemRef::Heap(HeapIndex::at_pos(i));
    let ghost m1 = info.exported_items@;
    let mut i: usize = 0;
    while i < env.heaps.len()
        invariant
            assembly_ok(env),
            i <= env.heaps@.len(),
            info.exported_items@ == export_all(m1, env.heaps@.take(i as int), mk_heap),
            same_but_exports(info, before),
            mk_heap == (|i: nat| ItemRef::Heap(HeapIndex::at_pos(i))),
        decreases env.heaps@.len() - i,
    {
        info.export_heap(HeapIndex::new(i), env.heaps[i].export_names.as_slice());
        proof {
            let t = env.heaps@.take(i + 1);
            assert(t.drop_last() =~= env.heaps@.take(i as int));
        }
        i = i + 1;
    }
    proof {
        assert(env.heaps@.take(env.heaps@.len() as int) =~= env.heaps@);
    }
    let ghost mk_table = |i: nat| ItemRef::Table(TableIndex::at_pos(i));
    let ghost m2 = info.exported_items@;
    let mut i: usize = 0;
    while i < env.tables.len()
        invariant
            assembly_ok(env),
            i <= env.tables@.len(),
            info.exported_items@ == export_all(m2, env.tables@.take(i as int), mk_table),
            same_but_exports(info, before),
            mk_table == (|i: nat| ItemRef::Table(TableIndex::at_pos(i))),
        decreases env.tables@.len() - i,
    {
        info.export_table(TableIndex::new(i), env.tables[i].export_names.as_slice());
        proof {
            let t = env.tables@.take(i + 1);
            assert(t.drop_last() =~= env.tables@.take(i as int));
        }
        i = i + 1;
    }
    proof {
        assert(env.tables@.take(env.tables@.len() as int) =~= env.tables@);
    }
    let ghost mk_glob = |i: nat| ItemRef::Glob(GlobIndex::at_pos(i));
    let ghost m3 = info.exported_items@;
    let mut i: usize = 0;
    while i < env.globs.len()
        invariant
            assembly_ok(env),
            i <= env.globs@.len(),
            info.exported_items@ == export_all(m3, env.globs@.take(i as int), mk_glob),
            same_but_exports(info, before),
            mk_glob == (|i: nat| ItemRef::Glob(GlobIndex::at_pos(i))),
        decreases env.globs@.len() - i,
    {
        info.export_glob(GlobIndex::new(i), env.globs[i].export_names.as_slice());
        proof {
            let t = env.globs@.take(i + 1);
            assert(t.drop_last() =~= env.globs@.take(i as int));
        }
        i = i + 1;
    }
    proof {
        assert(env.globs@.take(env.globs@.len() as int) =~= env.globs@);
    }
    info
}

/// Where in the code a function reported by code generation is named: a user function, by its
/// index, or a library routine.
#[derive(Debug, Clone, Copy, PartialEq, Eq, Structural)]
pub enum ExternalName {
    User { namespace: u32, index: u32 },
    LibCall,
}

/// Does nothing with the traps that code generation reports.
pub struct TrapHandler {}

impl TrapHandler {
    pub fn new() -> (r: Self) {
        Self {}
    }

    /// A trap at `offset` in the code of a function.
    pub fn trap(&mut self, offset: u32) {
    }
}

/// Collects the relocations that code generation reports, function after function.
pub struct RelocationHandler {
    relocs: Vec<Reloc>,
    func_offset: u32,
}

impl RelocationHandler {
    /// The relocations collected so far.
    pub closed spec fn spec_relocs(self) -> Seq<Reloc> {
        self.relocs@
    }

    /// The offset of the function being generated, in the code of the module.
    pub closed spec fn spec_func_offset(self) -> u32 {
        self.func_offset
    }

    /// A handler with no relocation, at offset 0.
    pub fn new() -> (r: Self)
        ensures
            r.spec_relocs() == Seq::<Reloc>::empty(),
            r.spec_func_offset() == 0,
    {
        Self { relocs: Vec::new(), func_offset: 0 }
    }

    /// Sets the offset of the function being generated.
    pub fn set_offset(&mut self, offset: u32)
        ensures
            final(self).spec_func_offset() == offset,
            final(self).spec_relocs() == old(self).spec_relocs(),
    {
        self.func_offset = offset;
    }

    /// The item that the name of a user function refers to.
    ///
    /// Names are given to functions in the exact same order as their indices.
    pub fn translate(&self, name: &ExternalName) -> (r: ItemRef)
        requires
            *name is User,
        ensures
            r == ItemRef::Func(FuncIndex::at_pos(name->index as nat)),
    {
        match name {
            ExternalName::User { index, .. } => ItemRef::Func(FuncIndex(*index)),
            ExternalName::LibCall => ItemRef::Func(FuncIndex(0)),
        }
    }

    /// Records a relocation at `offset` in the function being generated.
    pub fn reloc_external(&mut self, offset: u32, kind: RelocKind, name: &ExternalName, addend: i64)
        requires
            *name is User,
            old(self).spec_func_offset() + offset <= u32::MAX,
        ensures
            final(self).spec_func_offset() == old(self).spec_func_offset(),
            final(self).spec_relocs() == old(self).spec_relocs().push(
                Reloc {
                    offset: (old(self).spec_func_offset() + offset) as u32,
                    kind,
                    item: ItemRef::Func(FuncIndex::at_pos(name->index as nat)),
                    addend,
                },
            ),
    {
        let item = self.translate(name);
        self.relocs.push(Reloc { offset: self.func_offset + offset, kind, item, addend });
    }

    /// Returns the relocations collected.
    pub fn into_relocs(self) -> (r: Vec<Reloc>)
        ensures
            r@ == self.spec_relocs(),
    {
        self.relocs
    }
}

} // verus!
