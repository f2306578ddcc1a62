//! The module environment of the compiler: what the decoding of a WebAssembly module
//! declares (types, functions, heaps, tables, globals, imports, exports, segments), and where
//! each entity lives in the instance's context.
//!
//! The entities themselves (types, memories, tables, globals) are those of the decoder; the
//! environment only records them.

use vstd::prelude::*;

use crate::entity::{EntityRef, FuncIndex, GlobIndex, HeapIndex, ImportIndex, TableIndex, TypeIndex};

verus! {

/// Size of a wasm page, defined by the standard.
pub const WASM_PAGE_SIZE: u64 = 0x10000;

/// Width of a VMContext entry. The width is independent of the architecture: each entry spans 8
/// bytes even on 32 bits architectures.
pub const VMCTX_ENTRY_WIDTH: i32 = 0x8;

/// An entity, with the names under which it is exported.
pub struct Exportable<T> {
    /// A wasm entity.
    pub entity: T,
    /// Names under which the entity is exported.
    pub export_names: Vec<String>,
}

/// The names of a sequence of strings.
pub open spec fn names_of(s: Seq<String>) -> Seq<Seq<char>> {
    Seq::new(s.len(), |i: int| s[i]@)
}

impl<T> Exportable<T> {
    /// An entity exported under no name.
    pub fn new(entity: T) -> (r: Self)
        ensures
            r.entity == entity,
            r.export_names@.len() == 0,
    {
        Self { entity, export_names: Vec::new() }
    }

    /// Exports the entity under one more name.
    pub fn export_as(&mut self, name: String)
        ensures
            final(self).entity == old(self).entity,
            final(self).export_names@ == old(self).export_names@.push(name),
    {
        self.export_names.push(name);
    }
}

/// An imported function.
#[derive(Clone)]
pub struct ImportedFunc {
    /// The index of the module.
    pub module: ImportIndex,
    /// The name of the imported function inside its module.
    pub name: String,
    /// Index of the function in the VMContext.
    pub vmctx_idx: i32,
}

/// An imported heap.
#[derive(Clone)]
pub struct ImportedHeap {
    /// The index of the module.
    pub module: ImportIndex,
    /// The name of the imported heap inside its module.
    pub name: String,
}

/// An imported global.
#[derive(Clone)]
pub struct ImportedGlob {
    /// The index of the module.
    pub module: ImportIndex,
    /// The name of the imported global inside its module.
    pub name: String,
}

/// An imported table.
#[derive(Clone)]
pub struct ImportedTable {
    /// The index of the module.
    pub module: ImportIndex,
    /// The name of the imported table inside its module.
    pub name: String,
}

/// A data segment, to copy into a heap at instantiation.
pub struct DataSegment {
    /// The memory to which the segment must be applied.
    pub memory_index: HeapIndex,
    /// An optional base, in the form of a global.
    pub base: Option<GlobIndex>,
    /// Offset, relative to the base if any, to 0 otherwise.
    pub offset: u64,
    /// The actual data.
    pub data: Vec<u8>,
}

/// A table segment, to copy into a table at instantiation.
pub struct TableSegment {
    /// The table to which the segment must be applied.
    pub table_index: TableIndex,
    /// An optional base, in the form of a global.
    pub base: Option<GlobIndex>,
    /// Offset, relative to the base if any, to 0 otherwise.
    pub offset: u32,
    /// The actual elements.
    pub elements: Vec<FuncIndex>,
}

/// The first position at which `name` occurs, if any.
pub open spec fn first_position(names: Seq<Seq<char>>, name: Seq<char>) -> Option<int>
    decreases names.len(),
{
    if names.len() == 0 {
        None
    } else {
        match first_position(names.drop_last(), name) {
            Some(i) => Some(i),
            None => if names.last() == name {
                Some(names.len() - 1)
            } else {
                None
            },
        }
    }
}

proof fn lemma_first_position(names: Seq<Seq<char>>, name: Seq<char>)
    ensures
        first_position(names, name) matches Some(i) ==> 0 <= i < names.len() && names[i] == name
            && forall|j: int| 0 <= j < i ==> names[j] != name,
        first_position(names, name) is None ==> forall|j: int|
            0 <= j < names.len() ==> names[j] != name,
    decreases names.len(),
{
    if names.len() > 0 {
        let prefix = names.drop_last();
        lemma_first_position(prefix, name);
        assert forall|j: int| 0 <= j < prefix.len() implies prefix[j] == names[j] by {}
    }
}

/// The declarations of a module, as its decoding goes.
///
/// `Ty` is a function type, `Mem`, `Tab` and `Glob` are the memories, tables and globals of the
/// decoder. Each imported entity comes with its import in the parallel list of imports.
pub struct ModuleInfo<Ty, Mem, Tab, Glob> {
    /// FunID -> TypeID
    pub funcs: Vec<Exportable<TypeIndex>>,
    /// TypeID -> Wasm Type
    pub types: Vec<Ty>,
    /// FunID -> Option<imported_func_info>
    pub imported_funcs: Vec<Option<ImportedFunc>>,
    /// The registered memories
    pub heaps: Vec<Exportable<Mem>>,
    /// A mapping MemoryID -> imported_heap_info
    pub imported_heaps: Vec<Option<ImportedHeap>>,
    /// The list of globals
    pub globs: Vec<Exportable<Glob>>,
    /// A mapping GlobalID -> imported_glob_info
    pub imported_globs: Vec<Option<ImportedGlob>>,
    /// The list of tables.
    pub tables: Vec<Exportable<Tab>>,
    /// A mapping TableID -> imported_table_info
    pub imported_tables: Vec<Option<ImportedTable>>,
    /// The list of imported modules
    pub modules: Vec<String>,
    /// The list of data segments to initialize.
    pub segments: Vec<DataSegment>,
    /// The list of table elements to initialize.
    pub elements: Vec<TableSegment>,
    /// The start function, to be called after memory and table initialization.
    pub start: Option<FuncIndex>,
    /// The number of imported funcs. The defined functions go after the imported ones.
    pub nb_imported_funcs: usize,
}

impl<Ty, Mem, Tab, Glob> ModuleInfo<Ty, Mem, Tab, Glob> {
    /// The number of imported functions.
    pub open spec fn spec_nb_imported_funcs(self) -> usize {
        self.nb_imported_funcs
    }

    /// Each list of entities and its list of imports have the same length.
    pub open spec fn wf(self) -> bool {
        &&& self.imported_funcs@.len() == self.funcs@.len()
        &&& self.imported_heaps@.len() == self.heaps@.len()
        &&& self.imported_globs@.len() == self.globs@.len()
        &&& self.imported_tables@.len() == self.tables@.len()
    }

    /// An empty module.
    pub fn new() -> (r: Self)
        ensures
            r.wf(),
            r.funcs@.len() == 0,
            r.types@.len() == 0,
            r.heaps@.len() == 0,
            r.globs@.len() == 0,
            r.tables@.len() == 0,
            r.modules@.len() == 0,
            r.segments@.len() == 0,
            r.elements@.len() == 0,
            r.start is None,
            r.spec_nb_imported_funcs() == 0,
    {
        ModuleInfo {
            funcs: Vec::new(),
            types: Vec::new(),
            imported_funcs: Vec::new(),
            heaps: Vec::new(),
            imported_heaps: Vec::new(),
            globs: Vec::new(),
            imported_globs: Vec::new(),
            tables: Vec::new(),
            imported_tables: Vec::new(),
            modules: Vec::new(),
            segments: Vec::new(),
            elements: Vec::new(),
            start: None,
            nb_imported_funcs: 0,
        }
    }

    /// Returns the number of imported functions.
    pub fn nb_imported_funcs(&self) -> (r: usize)
        ensures
            r == self.spec_nb_imported_funcs(),
    {
        self.nb_imported_funcs
    }

    /// Returns the index of a module. The module is registered if it hasn't been seen yet.
    pub fn get_module_idx(&mut self, module: &str) -> (r: ImportIndex)
        requires
            first_position(names_of(old(self).modules@), module@) matches Some(i) ==> i < u32::MAX,
            first_position(names_of(old(self).modules@), module@) is None ==> old(self).modules@.len() < u32::MAX,
        ensures
            first_position(names_of(old(self).modules@), module@) matches Some(i) ==> r.pos() == i
                && final(self).modules@ == old(self).modules@,
            first_position(names_of(old(self).modules@), module@) is None ==> r.pos()
                == old(self).modules@.len() && names_of(final(self).modules@) == names_of(
                old(self).modules@,
            ).push(module@),
            final(self).funcs@ == old(self).funcs@,
            final(self).imported_funcs@ == old(self).imported_funcs@,
            final(self).heaps@ == old(self).heaps@,
            final(self).imported_heaps@ == old(self).imported_heaps@,
            final(self).globs@ == old(self).globs@,
            final(self).imported_globs@ == old(self).imported_globs@,
            final(self).tables@ == old(self).tables@,
            final(self).imported_tables@ == old(self).imported_tables@,
            final(self).spec_nb_imported_funcs() == old(self).spec_nb_imported_funcs(),
            r.pos() < final(self).modules@.len(),
            names_of(final(self).modules@)[r.pos() as int] == module@,
    {
        let ghost names = names_of(self.modules@);
        proof {
            lemma_first_position(names, module@);
        }
        let key = module.to_owned();
        let mut i: usize = 0;
        while i < self.modules.len()
            invariant
                names == names_of(self.modules@),
                i <= names.len(),
                key@ == module@,
                first_position(names, module@) matches Some(k) ==> k < u32::MAX,
                first_position(names, module@) is None ==> names.len() < u32::MAX,
                forall|j: int| 0 <= j < i ==> names[j] != module@,
            decreases names.len() - i,
        {
            if self.modules[i] == key {
                proof {
                    assert(names[i as int] == module@);
                    lemma_first_position_unique(names, module@, i as int);
                }
                return ImportIndex::new(i);
            }
            i = i + 1;
        }
        proof {
            if first_position(names, module@) is Some {
                let k = first_position(names, module@)->Some_0;
                assert(names[k] == module@);
            }
        }
        let idx = self.modules.len();
        self.modules.push(key);
        proof {
            assert(names_of(self.modules@) =~= names.push(module@));
        }
        ImportIndex::new(idx)
    }

    /// The offset of a table in the instance's context: after the heaps, two entries per table.
    pub fn get_vmctx_table_offset(&self, table: TableIndex) -> (r: i32)
        requires
            (self.heaps@.len() + table.pos() * 2) * VMCTX_ENTRY_WIDTH <= i32::MAX,
        ensures
            r == (self.heaps@.len() + table.pos() * 2) * VMCTX_ENTRY_WIDTH,
    {
        (self.heaps.len() + table.index() * 2) as i32 * VMCTX_ENTRY_WIDTH
    }

    /// The offset of the context of an imported module in the instance's context: after the
    /// heaps, the tables and the imported functions.
    pub fn get_vmctx_imported_vmctx_offset(&self, module: ImportIndex) -> (r: i32)
        requires
            (self.heaps@.len() + self.tables@.len() * 2 + self.spec_nb_imported_funcs()
                + module.pos()) * VMCTX_ENTRY_WIDTH <= i32::MAX,
        ensures
            r == (self.heaps@.len() + self.tables@.len() * 2 + self.spec_nb_imported_funcs()
                + module.pos()) * VMCTX_ENTRY_WIDTH,
    {
        (self.heaps.len() + self.tables.len() * 2 + self.nb_imported_funcs + module.index()) as i32
            * VMCTX_ENTRY_WIDTH
    }

    /// The offset of a global in the instance's context: after the heaps, the tables, the
    /// imported functions and the contexts of the imported modules.
    pub fn get_vmctx_global_offset(&self, global: GlobIndex) -> (r: i32)
        requires
            (self.heaps@.len() + self.tables@.len() * 2 + self.spec_nb_imported_funcs()
                + self.modules@.len() + global.pos()) * VMCTX_ENTRY_WIDTH <= i32::MAX,
        ensures
            r == (self.heaps@.len() + self.tables@.len() * 2 + self.spec_nb_imported_funcs()
                + self.modules@.len() + global.pos()) * VMCTX_ENTRY_WIDTH,
    {
        (self.heaps.len() + self.tables.len() * 2 + self.nb_imported_funcs + self.modules.len()
            + global.index()) as i32 * VMCTX_ENTRY_WIDTH
    }

    /// Declares a function type.
    pub fn declare_type_func(&mut self, ty: Ty)
        ensures
            final(self).types@ == old(self).types@.push(ty),
            final(self).funcs@ == old(self).funcs@,
    {
        self.types.push(ty);
    }

    /// Declares an imported function of type `ty_idx`, `field` of module `module`.
    ///
    /// Its entry in the instance's context is the number of functions imported so far.
    pub fn declare_func_import(&mut self, ty_idx: TypeIndex, module: &str, field: &str)
        requires
            old(self).wf(),
            old(self).modules@.len() < u32::MAX,
            old(self).spec_nb_imported_funcs() < i32::MAX,
        ensures
            final(self).wf(),
            final(self).funcs@.len() == old(self).funcs@.len() + 1,
            final(self).funcs@.last().entity == ty_idx,
            final(self).funcs@.last().export_names@.len() == 0,
            final(self).spec_nb_imported_funcs() == old(self).spec_nb_imported_funcs() + 1,
            final(self).imported_funcs@.drop_last() == old(self).imported_funcs@,
            final(self).imported_funcs@.last() matches Some(f) && f.name@ == field@ && f.vmctx_idx
                == old(self).spec_nb_imported_funcs() + 1 && names_of(final(self).modules@)[f.module.pos() as int]
                == module@,
    {
        self.funcs.push(Exportable::new(ty_idx));
        self.nb_imported_funcs = self.nb_imported_funcs + 1;
        let vmctx_idx = self.nb_imported_funcs as i32;
        proof {
            lemma_first_position(names_of(self.modules@), module@);
        }
        let module_idx = self.get_module_idx(module);
        self.imported_funcs.push(Some(ImportedFunc { module: module_idx, name: field.to_owned(), vmctx_idx }));
    }

    /// Declares an imported table, `field` of module `module`.
    pub fn declare_table_import(&mut self, table: Tab, module: &str, field: &str)
        requires
            old(self).wf(),
            old(self).modules@.len() < u32::MAX,
        ensures
            final(self).wf(),
            final(self).tables@.len() == old(self).tables@.len() + 1,
            final(self).tables@.last().entity == table,
            final(self).imported_tables@.drop_last() == old(self).imported_tables@,
            final(self).imported_tables@.last() matches Some(t) && t.name@ == field@ && names_of(
                final(self).modules@,
            )[t.module.pos() as int] == module@,
    {
        self.tables.push(Exportable::new(table));
        proof {
            lemma_first_position(names_of(self.modules@), module@);
        }
        let module_idx = self.get_module_idx(module);
        self.imported_tables.push(Some(ImportedTable { module: module_idx, name: field.to_owned() }));
    }

    /// Declares an imported memory, `field` of module `module`.
    pub fn declare_memory_import(&mut self, memory: Mem, module: &str, field: &str)
        requires
            old(self).wf(),
            old(self).modules@.len() < u32::MAX,
        ensures
            final(self).wf(),
            final(self).heaps@.len() == old(self).heaps@.len() + 1,
            final(self).heaps@.last().entity == memory,
            final(self).imported_heaps@.drop_last() == old(self).imported_heaps@,
            final(self).imported_heaps@.last() matches Some(h) && h.name@ == field@ && names_of(
                final(self).modules@,
            )[h.module.pos() as int] == module@,
    {
        self.heaps.push(Exportable::new(memory));
        proof {
            lemma_first_position(names_of(self.modules@), module@);
        }
        let module_idx = self.get_module_idx(module);
        self.imported_heaps.push(Some(ImportedHeap { module: module_idx, name: field.to_owned() }));
    }

    /// Declares an imported global, `field` of module `module`.
    pub fn declare_global_import(&mut self, global: Glob, module: &str, field: &str)
        requires
            old(self).wf(),
            old(self).modules@.len() < u32::MAX,
        ensures
            final(self).wf(),
            final(self).globs@.len() == old(self).globs@.len() + 1,
            final(self).globs@.last().entity == global,
            final(self).imported_globs@.drop_last() == old(self).imported_globs@,
            final(self).imported_globs@.last() matches Some(g) && g.name@ == field@ && names_of(
                final(self).modules@,
            )[g.module.pos() as int] == module@,
    {
        self.globs.push(Exportable::new(global));
        proof {
            lemma_first_position(names_of(self.modules@), module@);
        }
        let module_idx = self.get_module_idx(module);
        self.imported_globs.push(Some(ImportedGlob { module: module_idx, name: field.to_owned() }));
    }

    /// Declares a function defined by the module, of type `ty_idx`.
    pub fn declare_func_type(&mut self, ty_idx: TypeIndex)
        requires
            old(self).wf(),
        ensures
            final(self).wf(),
            final(self).funcs@.len() == old(self).funcs@.len() + 1,
            final(self).funcs@.last().entity == ty_idx,
            final(self).imported_funcs@ == old(self).imported_funcs@.push(None),
    {
        self.funcs.push(Exportable::new(ty_idx));
        self.imported_funcs.push(None);
    }

    /// Declares a table defined by the module.
    pub fn declare_table(&mut self, table: Tab)
        requires
            old(self).wf(),
        ensures
            final(self).wf(),
            final(self).tables@.len() == old(self).tables@.len() + 1,
            final(self).tables@.last().entity == table,
            final(self).imported_tables@ == old(self).imported_tables@.push(None),
    {
        self.tables.push(Exportable::new(table));
        self.imported_tables.push(None);
    }

    /// Declares a memory defined by the module.
    pub fn declare_memory(&mut self, memory: Mem)
        requires
            old(self).wf(),
        ensures
            final(self).wf(),
            final(self).heaps@.len() == old(self).heaps@.len() + 1,
            final(self).heaps@.last().entity == memory,
            final(self).imported_heaps@ == old(self).imported_heaps@.push(None),
    {
        self.heaps.push(Exportable::new(memory));
        self.imported_heaps.push(None);
    }

    /// Declares a global defined by the module.
    pub fn declare_global(&mut self, global: Glob)
        requires
            old(self).wf(),
        ensures
            final(self).wf(),
            final(self).globs@.len() == old(self).globs@.len() + 1,
            final(self).globs@.last().entity == global,
            final(self).imported_globs@ == old(self).imported_globs@.push(None),
    {
        self.globs.push(Exportable::new(global));
        self.imported_globs.push(None);
    }

    /// Exports a function under `name`.
    pub fn declare_func_export(&mut self, func_index: FuncIndex, name: String)
        requires
            func_index.pos() < old(self).funcs@.len(),
        ensures
            final(self).funcs@.len() == old(self).funcs@.len(),
            forall|i: int|
                0 <= i < old(self).funcs@.len() && i != func_index.pos() ==> #[trigger] final(self).funcs@[i] == old(self).funcs@[i],
            final(self).funcs@[func_index.pos() as int].entity == old(self).funcs@[func_index.pos() as int].entity,
            final(self).funcs@[func_index.pos() as int].export_names@ == old(self).funcs@[func_index.pos() as int].export_names@.push(name),
    {
        self.funcs[func_index.index()].export_as(name);
    }

    /// Exports a table under `name`.
    pub fn declare_table_export(&mut self, table_index: TableIndex, name: String)
        requires
            table_index.pos() < old(self).tables@.len(),
        ensures
            final(self).tables@.len() == old(self).tables@.len(),
            forall|i: int|
                0 <= i < old(self).tables@.len() && i != table_index.pos() ==> #[trigger] final(self).tables@[i] == old(self).tables@[i],
            final(self).tables@[table_index.pos() as int].export_names@ == old(self).tables@[table_index.pos() as int].export_names@.push(name),
    {
        self.tables[table_index.index()].export_as(name);
    }

    /// Exports a memory under `name`.
    pub fn declare_memory_export(&mut self, memory_index: HeapIndex, name: String)
        requires
            memory_index.pos() < old(self).heaps@.len(),
        ensures
            final(self).heaps@.len() == old(self).heaps@.len(),
            forall|i: int|
                0 <= i < old(self).heaps@.len() && i != memory_index.pos() ==> #[trigger] final(self).heaps@[i] == old(self).heaps@[i],
            final(self).heaps@[memory_index.pos() as int].export_names@ == old(self).heaps@[memory_index.pos() as int].export_names@.push(name),
    {
        self.heaps[memory_index.index()].export_as(name);
    }

    /// Exports a global under `name`.
    pub fn declare_global_export(&mut self, global_index: GlobIndex, name: String)
        requires
            global_index.pos() < old(self).globs@.len(),
        ensures
            final(self).globs@.len() == old(self).globs@.len(),
            forall|i: int|
                0 <= i < old(self).globs@.len() && i != global_index.pos() ==> #[trigger] final(self).globs@[i] == old(self).globs@[i],
            final(self).globs@[global_index.pos() as int].export_names@ == old(self).globs@[global_index.pos() as int].export_names@.push(name),
    {
        self.globs[global_index.index()].export_as(name);
    }

    /// Declares the start function.
    pub fn declare_start_func(&mut self, index: FuncIndex)
        ensures
            final(self).start == Some(index),
            final(self).funcs@ == old(self).funcs@,
    {
        self.start = Some(index);
    }

    /// Declares the elements to copy into a table at instantiation.
    pub fn declare_table_elements(
        &mut self,
        table_index: TableIndex,
        base: Option<GlobIndex>,
        offset: u32,
        elements: Vec<FuncIndex>,
    )
        ensures
            final(self).elements@.len() == old(self).elements@.len() + 1,
            final(self).elements@.drop_last() == old(self).elements@,
            final(self).elements@.last().table_index == table_index,
            final(self).elements@.last().base == base,
            final(self).elements@.last().offset == offset,
            final(self).elements@.last().elements@ == elements@,
    {
        self.elements.push(TableSegment { table_index, base, offset, elements });
    }

    /// Declares the data to copy into a heap at instantiation.
    pub fn declare_data_initialization(
        &mut self,
        memory_index: HeapIndex,
        base: Option<GlobIndex>,
        offset: u64,
        data: &[u8],
    )
        ensures
            final(self).segments@.len() == old(self).segments@.len() + 1,
            final(self).segments@.drop_last() == old(self).segments@,
            final(self).segments@.last().memory_index == memory_index,
            final(self).segments@.last().base == base,
            final(self).segments@.last().offset == offset,
            final(self).segments@.last().data@ == data@,
    {
        let data = vstd::slice::slice_to_vec(data);
        self.segments.push(DataSegment { memory_index, base, offset, data });
    }
}

/// A name found at a position where no earlier position holds it is the first position of it.
proof fn lemma_first_position_unique(names: Seq<Seq<char>>, name: Seq<char>, i: int)
    requires
        0 <= i < names.len(),
        names[i] == name,
        forall|j: int| 0 <= j < i ==> names[j] != name,
    ensures
        first_position(names, name) == Some(i),
{
    lemma_first_position(names, name);
}

} // verus!
