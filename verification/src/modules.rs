//! Modules: compiled WebAssembly modules and native modules, and the layout of the
//! VMContext of their instances.

use vstd::prelude::*;

use crate::abi::{ExternRef64, WasmParams, WasmResults, WasmType};
use crate::collections::{FrozenMap, NameMap};
use crate::entity::{EntityRef, FuncIndex, GlobIndex, HeapIndex, ImportIndex, TableIndex, TypeIndex};
use crate::funcs::NativeFunc;
use crate::traits::{
    DataSegment, FuncInfo, GlobInfo, HeapInfo, ItemRef, Module, RawFuncPtr, Reloc, TableInfo,
    TableSegment, VMContextLayout,
};
use crate::types::{FuncType, RefType};

verus! {

// ————————————————————————————— Specifications ————————————————————————————— //

/// The keys of a map of `n` entries, in order.
pub open spec fn key_seq<K: EntityRef>(n: nat) -> Seq<K> {
    Seq::new(n, |i: int| K::at_pos(i as nat))
}

/// The indices of the imported functions among `funcs`, in order.
pub open spec fn imported_funcs(funcs: Seq<FuncInfo>) -> Seq<FuncIndex>
    decreases funcs.len(),
{
    if funcs.len() == 0 {
        Seq::empty()
    } else {
        let rest = imported_funcs(funcs.drop_last());
        if funcs.last() is Imported {
            rest.push(FuncIndex::at_pos((funcs.len() - 1) as nat))
        } else {
            rest
        }
    }
}

/// `m` after mapping each of `names` to `v`.
pub open spec fn insert_all<V>(m: Map<Seq<char>, V>, names: Seq<Seq<char>>, v: V) -> Map<Seq<char>, V>
    decreases names.len(),
{
    if names.len() == 0 {
        m
    } else {
        insert_all(m, names.drop_last(), v).insert(names.last(), v)
    }
}

/// The names of a sequence of strings.
pub open spec fn names_of(names: Seq<String>) -> Seq<Seq<char>> {
    names.map_values(|s: String| s@)
}

/// The keys `0..n`, as a vector.
fn keys_vec<K: EntityRef>(n: usize) -> (r: Vec<K>)
    requires
        n <= u32::MAX,
    ensures
        r@ == key_seq::<K>(n as nat),
{
    let mut v: Vec<K> = Vec::with_capacity(n);
    let mut i: usize = 0;
    while i < n
        invariant
            i <= n <= u32::MAX,
            v@ == key_seq::<K>(i as nat),
        decreases n - i,
    {
        v.push(K::new(i));
        i = i + 1;
        assert(v@ =~= key_seq::<K>(i as nat));
    }
    v
}

// —————————————————————————————————— VMCS —————————————————————————————————— //

/// The layout of a VMContext: the items that it holds, by kind.
#[derive(Clone)]
pub struct SimpleVMContextLayout {
    funcs: Vec<FuncIndex>,
    heaps: Vec<HeapIndex>,
    tables: Vec<TableIndex>,
    globs: Vec<GlobIndex>,
    imports: Vec<ImportIndex>,
}

/// The items of a VMContext layout.
pub struct LayoutView {
    pub funcs: Seq<FuncIndex>,
    pub heaps: Seq<HeapIndex>,
    pub tables: Seq<TableIndex>,
    pub globs: Seq<GlobIndex>,
    pub imports: Seq<ImportIndex>,
}

impl View for SimpleVMContextLayout {
    type V = LayoutView;

    closed spec fn view(&self) -> LayoutView {
        LayoutView {
            funcs: self.funcs@,
            heaps: self.heaps@,
            tables: self.tables@,
            globs: self.globs@,
            imports: self.imports@,
        }
    }
}

impl SimpleVMContextLayout {
    /// Creates a layout holding the given items.
    pub fn new(
        funcs: Vec<FuncIndex>,
        heaps: Vec<HeapIndex>,
        tables: Vec<TableIndex>,
        globs: Vec<GlobIndex>,
        imports: Vec<ImportIndex>,
    ) -> (r: Self)
        ensures
            r@ == (LayoutView {
                funcs: funcs@,
                heaps: heaps@,
                tables: tables@,
                globs: globs@,
                imports: imports@,
            }),
    {
        Self { funcs, heaps, tables, globs, imports }
    }
}

impl VMContextLayout for SimpleVMContextLayout {
    fn heaps(&self) -> (r: &[HeapIndex])
        ensures
            r@ == self@.heaps,
    {
        self.heaps.as_slice()
    }

    fn tables(&self) -> (r: &[TableIndex])
        ensures
            r@ == self@.tables,
    {
        self.tables.as_slice()
    }

    fn funcs(&self) -> (r: &[FuncIndex])
        ensures
            r@ == self@.funcs,
    {
        self.funcs.as_slice()
    }

    fn globs(&self) -> (r: &[GlobIndex])
        ensures
            r@ == self@.globs,
    {
        self.globs.as_slice()
    }

    fn imports(&self) -> (r: &[ImportIndex])
        ensures
            r@ == self@.imports,
    {
        self.imports.as_slice()
    }
}

// —————————————————————————————— Wasm Module ——————————————————————————————— //

/// What is known of a module once it is parsed, before its code is laid out.
pub struct ModuleInfo {
    pub exported_items: NameMap<ItemRef>,
    pub funcs: FrozenMap<FuncIndex, FuncInfo>,
    pub types: FrozenMap<TypeIndex, FuncType>,
    pub heaps: FrozenMap<HeapIndex, HeapInfo>,
    pub tables: FrozenMap<TableIndex, TableInfo>,
    pub globs: FrozenMap<GlobIndex, GlobInfo>,
    pub imports: FrozenMap<ImportIndex, String>,
    pub segments: Vec<DataSegment>,
    pub elements: Vec<TableSegment>,
    pub start: Option<FuncIndex>,
}

impl ModuleInfo {
    /// Creates the description of a module that exports nothing yet.
    pub fn new(
        funcs: FrozenMap<FuncIndex, FuncInfo>,
        types: FrozenMap<TypeIndex, FuncType>,
        heaps: FrozenMap<HeapIndex, HeapInfo>,
        tables: FrozenMap<TableIndex, TableInfo>,
        globs: FrozenMap<GlobIndex, GlobInfo>,
        imports: FrozenMap<ImportIndex, String>,
        segments: Vec<DataSegment>,
        elements: Vec<TableSegment>,
        start: Option<FuncIndex>,
    ) -> (r: Self)
        ensures
            r.exported_items@ == Map::<Seq<char>, ItemRef>::empty(),
            r.funcs@ == funcs@,
            r.types@ == types@,
            r.heaps@ == heaps@,
            r.tables@ == tables@,
            r.globs@ == globs@,
            r.imports@ == imports@,
            r.segments@ == segments@,
            r.elements@ == elements@,
            r.start == start,
    {
        Self {
            exported_items: NameMap::new(),
            funcs,
            types,
            heaps,
            tables,
            globs,
            imports,
            segments,
            elements,
            start,
        }
    }

    /// Updates the offset of a function defined by the module.
    ///
    /// This is intended for use by the compiler, as the functions might be defined before the
    /// final layout is decided. The offsets can then be set once the layout is known.
    pub fn update_func_offset(&mut self, func_idx: FuncIndex, offset: u32)
        requires
            func_idx.pos() < old(self).funcs@.len(),
            old(self).funcs@[func_idx.pos() as int] is Owned,
        ensures
            final(self).funcs@ == old(self).funcs@.update(func_idx.pos() as int, FuncInfo::Owned { offset }),
            final(self).exported_items@ == old(self).exported_items@,
            final(self).heaps@ == old(self).heaps@,
            final(self).globs@ == old(self).globs@,
            final(self).tables@ == old(self).tables@,
            final(self).imports@ == old(self).imports@,
    {
        let i = func_idx.index();
        self.funcs.set(i, FuncInfo::Owned { offset });
    }

    /// Marks an item as exported under each of the given names.
    fn export_item(&mut self, item: ItemRef, exported_names: &[String])
        ensures
            final(self).exported_items@ == insert_all(old(self).exported_items@, names_of(exported_names@), item),
            final(self).funcs@ == old(self).funcs@,
            final(self).heaps@ == old(self).heaps@,
            final(self).globs@ == old(self).globs@,
            final(self).tables@ == old(self).tables@,
            final(self).imports@ == old(self).imports@,
            final(self).types@ == old(self).types@,
            final(self).segments@ == old(self).segments@,
            final(self).elements@ == old(self).elements@,
            final(self).start == old(self).start,
    {
        let mut i: usize = 0;
        while i < exported_names.len()
            invariant
                i <= exported_names@.len(),
                self.exported_items@ == insert_all(old(self).exported_items@, names_of(exported_names@).take(i as int), item),
                self.funcs@ == old(self).funcs@,
                self.heaps@ == old(self).heaps@,
                self.globs@ == old(self).globs@,
                self.tables@ == old(self).tables@,
                self.imports@ == old(self).imports@,
                self.types@ == old(self).types@,
                self.segments@ == old(self).segments@,
                self.elements@ == old(self).elements@,
                self.start == old(self).start,
            decreases exported_names@.len() - i,
        {
            let name = exported_names[i].clone();
            self.exported_items.insert(name, item);
            proof {
                let names = names_of(exported_names@);
                assert(names.take(i + 1).drop_last() =~= names.take(i as int));
            }
            i = i + 1;
        }
        assert(names_of(exported_names@).take(exported_names@.len() as int) =~= names_of(exported_names@));
    }

    /// Marks a function as exported under the given list of names.
    pub fn export_func(&mut self, func_idx: FuncIndex, exported_names: &[String])
        ensures
            final(self).exported_items@ == insert_all(old(self).exported_items@, names_of(exported_names@), ItemRef::Func(func_idx)),
            final(self).funcs@ == old(self).funcs@,
            final(self).heaps@ == old(self).heaps@,
            final(self).tables@ == old(self).tables@,
            final(self).globs@ == old(self).globs@,
            final(self).imports@ == old(self).imports@,
            final(self).types@ == old(self).types@,
            final(self).segments@ == old(self).segments@,
            final(self).elements@ == old(self).elements@,
            final(self).start == old(self).start,
    {
        self.export_item(ItemRef::Func(func_idx), exported_names);
    }

    /// Marks a heap as exported under the given list of names.
    pub fn export_heap(&mut self, heap_idx: HeapIndex, exported_names: &[String])
        ensures
            final(self).exported_items@ == insert_all(old(self).exported_items@, names_of(exported_names@), ItemRef::Heap(heap_idx)),
            final(self).funcs@ == old(self).funcs@,
            final(self).heaps@ == old(self).heaps@,
            final(self).tables@ == old(self).tables@,
            final(self).globs@ == old(self).globs@,
            final(self).imports@ == old(self).imports@,
            final(self).types@ == old(self).types@,
            final(self).segments@ == old(self).segments@,
            final(self).elements@ == old(self).elements@,
            final(self).start == old(self).start,
    {
        self.export_item(ItemRef::Heap(heap_idx), exported_names);
    }

    /// Marks a table as exported under the given list of names.
    pub fn export_table(&mut self, table_idx: TableIndex, exported_names: &[String])
        ensures
            final(self).exported_items@ == insert_all(old(self).exported_items@, names_of(exported_names@), ItemRef::Table(table_idx)),
            final(self).funcs@ == old(self).funcs@,
            final(self).heaps@ == old(self).heaps@,
            final(self).tables@ == old(self).tables@,
            final(self).globs@ == old(self).globs@,
            final(self).imports@ == old(self).imports@,
            final(self).types@ == old(self).types@,
            final(self).segments@ == old(self).segments@,
            final(self).elements@ == old(self).elements@,
            final(self).start == old(self).start,
    {
        self.export_item(ItemRef::Table(table_idx), exported_names);
    }

    /// Marks a global as exported under the given list of names.
    pub fn export_glob(&mut self, glob_idx: GlobIndex, exported_names: &[String])
        ensures
            final(self).exported_items@ == insert_all(old(self).exported_items@, names_of(exported_names@), ItemRef::Glob(glob_idx)),
            final(self).funcs@ == old(self).funcs@,
            final(self).heaps@ == old(self).heaps@,
            final(self).tables@ == old(self).tables@,
            final(self).globs@ == old(self).globs@,
            final(self).imports@ == old(self).imports@,
            final(self).types@ == old(self).types@,
            final(self).segments@ == old(self).segments@,
            final(self).elements@ == old(self).elements@,
            final(self).start == old(self).start,
    {
        self.export_item(ItemRef::Glob(glob_idx), exported_names);
    }
}

/// A compiled WebAssembly module.
pub struct WasmModule {
    exported_names: NameMap<ItemRef>,
    funcs: FrozenMap<FuncIndex, FuncInfo>,
    types: FrozenMap<TypeIndex, FuncType>,
    heaps: FrozenMap<HeapIndex, HeapInfo>,
    tables: FrozenMap<TableIndex, TableInfo>,
    globs: FrozenMap<GlobIndex, GlobInfo>,
    imports: FrozenMap<ImportIndex, String>,
    segments: Vec<DataSegment>,
    elements: Vec<TableSegment>,
    start: Option<FuncIndex>,
    code: Vec<u8>,
    relocs: Vec<Reloc>,
    vmctx_layout: SimpleVMContextLayout,
}

impl WasmModule {
    /// The names that the module exports, and the items under them.
    pub closed spec fn exports(self) -> Map<Seq<char>, ItemRef> {
        self.exported_names@
    }

    /// The functions of the module.
    pub closed spec fn func_infos(self) -> Seq<FuncInfo> {
        self.funcs@
    }

    /// The code of the module.
    pub closed spec fn code_bytes(self) -> Seq<u8> {
        self.code@
    }

    /// The relocations of the code of the module.
    pub closed spec fn reloc_list(self) -> Seq<Reloc> {
        self.relocs@
    }

    /// The layout of the VMContext of the instances of the module.
    pub closed spec fn layout(self) -> LayoutView {
        self.vmctx_layout@
    }

    /// Creates a module from its description, its code and the relocations of its code.
    ///
    /// The VMContext of its instances holds the imported functions, then all heaps, tables,
    /// globals and imported modules.
    pub fn new(info: ModuleInfo, code: Vec<u8>, relocs: Vec<Reloc>) -> (r: Self)
        requires
            info.funcs@.len() <= u32::MAX,
            info.heaps@.len() <= u32::MAX,
            info.tables@.len() <= u32::MAX,
            info.globs@.len() <= u32::MAX,
            info.imports@.len() <= u32::MAX,
        ensures
            r.exports() == info.exported_items@,
            r.func_infos() == info.funcs@,
            r.code_bytes() == code@,
            r.reloc_list() == relocs@,
            r.layout().funcs == imported_funcs(info.funcs@),
            r.layout().heaps == key_seq::<HeapIndex>(info.heaps@.len()),
            r.layout().tables == key_seq::<TableIndex>(info.tables@.len()),
            r.layout().globs == key_seq::<GlobIndex>(info.globs@.len()),
            r.layout().imports == key_seq::<ImportIndex>(info.imports@.len()),
            r.spec_heaps() == info.heaps@,
            r.spec_tables() == info.tables@,
            r.spec_globs() == info.globs@,
            r.spec_imports() == info.imports@,
            r.spec_types() == info.types@,
            r.spec_segments() == info.segments@,
            r.spec_table_segments() == info.elements@,
            r.spec_start() == info.start,
    {
        // Compute the VMContext layout
        let func_infos = info.funcs.values();
        let mut funcs: Vec<FuncIndex> = Vec::new();
        let mut i: usize = 0;
        while i < func_infos.len()
            invariant
                i <= func_infos@.len(),
                func_infos@ == info.funcs@,
                func_infos@.len() <= u32::MAX,
                funcs@ == imported_funcs(func_infos@.take(i as int)),
            decreases func_infos@.len() - i,
        {
            proof {
                assert(func_infos@.take(i + 1).drop_last() =~= func_infos@.take(i as int));
            }
            if func_infos[i].is_imported() {
                funcs.push(FuncIndex::new(i));
            }
            i = i + 1;
        }
        assert(func_infos@.take(func_infos@.len() as int) =~= func_infos@);
        let heaps = keys_vec::<HeapIndex>(info.heaps.len());
        let tables = keys_vec::<TableIndex>(info.tables.len());
        let globs = keys_vec::<GlobIndex>(info.globs.len());
        let imports = keys_vec::<ImportIndex>(info.imports.len());

        let vmctx_layout = SimpleVMContextLayout::new(funcs, heaps, tables, globs, imports);

        Self {
            exported_names: info.exported_items,
            funcs: info.funcs,
            types: info.types,
            heaps: info.heaps,
            tables: info.tables,
            globs: info.globs,
            imports: info.imports,
            segments: info.segments,
            elements: info.elements,
            start: info.start,
            code,
            relocs,
            vmctx_layout,
        }
    }
}

impl Module for WasmModule {
    closed spec fn spec_start(&self) -> Option<FuncIndex> {
        self.start
    }

    closed spec fn spec_code(&self) -> Seq<u8> {
        self.code@
    }

    closed spec fn spec_heaps(&self) -> Seq<HeapInfo> {
        self.heaps@
    }

    closed spec fn spec_tables(&self) -> Seq<TableInfo> {
        self.tables@
    }

    closed spec fn spec_funcs(&self) -> Seq<FuncInfo> {
        self.funcs@
    }

    closed spec fn spec_globs(&self) -> Seq<GlobInfo> {
        self.globs@
    }

    closed spec fn spec_imports(&self) -> Seq<String> {
        self.imports@
    }

    closed spec fn spec_types(&self) -> Seq<FuncType> {
        self.types@
    }

    closed spec fn spec_segments(&self) -> Seq<DataSegment> {
        self.segments@
    }

    closed spec fn spec_table_segments(&self) -> Seq<TableSegment> {
        self.elements@
    }

    closed spec fn spec_relocs(&self) -> Seq<Reloc> {
        self.relocs@
    }

    closed spec fn spec_exports(&self) -> Map<Seq<char>, ItemRef> {
        self.exported_names@
    }

    closed spec fn spec_layout(&self) -> LayoutView {
        self.vmctx_layout@
    }

    fn start(&self) -> (r: Option<FuncIndex>) {
        self.start
    }

    fn code(&self) -> (r: &[u8]) {
        self.code.as_slice()
    }

    fn heaps(&self) -> (r: &FrozenMap<HeapIndex, HeapInfo>) {
        &self.heaps
    }

    fn tables(&self) -> (r: &FrozenMap<TableIndex, TableInfo>) {
        &self.tables
    }

    fn funcs(&self) -> (r: &FrozenMap<FuncIndex, FuncInfo>) {
        &self.funcs
    }

    fn types(&self) -> (r: &FrozenMap<TypeIndex, FuncType>) {
        &self.types
    }

    fn globs(&self) -> (r: &FrozenMap<GlobIndex, GlobInfo>) {
        &self.globs
    }

    fn imports(&self) -> (r: &FrozenMap<ImportIndex, String>) {
        &self.imports
    }

    fn data_segments(&self) -> (r: &[DataSegment]) {
        self.segments.as_slice()
    }

    fn table_segments(&self) -> (r: &[TableSegment]) {
        self.elements.as_slice()
    }

    fn relocs(&self) -> (r: &[Reloc]) {
        self.relocs.as_slice()
    }

    fn public_items(&self) -> (r: &NameMap<ItemRef>) {
        &self.exported_names
    }

    fn vmctx_layout(&self) -> (r: &SimpleVMContextLayout) {
        &self.vmctx_layout
    }
}

// ————————————————————————————— Native Module —————————————————————————————— //

/// A builder for native modules.
pub struct NativeModuleBuilder {
    exported_names: NameMap<ItemRef>,
    funcs: Vec<FuncInfo>,
    types: Vec<FuncType>,
    tables: Vec<TableInfo>,
}

impl NativeModuleBuilder {
    /// The names exported so far, and the items under them.
    pub closed spec fn exports(self) -> Map<Seq<char>, ItemRef> {
        self.exported_names@
    }

    /// The functions added so far.
    pub closed spec fn func_infos(self) -> Seq<FuncInfo> {
        self.funcs@
    }

    /// The types of the functions added so far, in the order of their addition.
    pub closed spec fn type_list(self) -> Seq<(Seq<crate::types::ValueType>, Seq<crate::types::ValueType>)> {
        self.types@.map_values(|t: FuncType| t@)
    }

    /// The tables added so far.
    pub closed spec fn table_infos(self) -> Seq<TableInfo> {
        self.tables@
    }

    /// Creates a fresh native module builder.
    pub fn new() -> (r: Self)
        ensures
            r.exports() == Map::<Seq<char>, ItemRef>::empty(),
            r.func_infos() == Seq::<FuncInfo>::empty(),
            r.type_list().len() == 0,
            r.table_infos() == Seq::<TableInfo>::empty(),
    {
        Self {
            exported_names: NameMap::new(),
            funcs: Vec::new(),
            types: Vec::new(),
            tables: Vec::new(),
        }
    }

    /// Finalizes the native module: its VMContext holds all its functions and tables.
    pub fn build(self) -> (r: NativeModule)
        requires
            self.func_infos().len() <= u32::MAX,
            self.table_infos().len() <= u32::MAX,
        ensures
            r.exports() == self.exports(),
            r.func_infos() == self.func_infos(),
            r.table_infos() == self.table_infos(),
            r.layout().funcs == key_seq::<FuncIndex>(self.func_infos().len()),
            r.layout().heaps.len() == 0,
            r.layout().tables == key_seq::<TableIndex>(self.table_infos().len()),
            r.layout().globs.len() == 0,
            r.layout().imports.len() == 0,
            r.spec_heaps().len() == 0,
            r.spec_globs().len() == 0,
            r.spec_imports().len() == 0,
            r.spec_code().len() == 0,
            r.spec_types().map_values(|t: FuncType| t@) == self.type_list(),
            r.spec_segments().len() == 0,
            r.spec_table_segments().len() == 0,
            r.spec_relocs().len() == 0,
            r.spec_start() is None,
    {
        let vmctx_layout = SimpleVMContextLayout::new(
            keys_vec::<FuncIndex>(self.funcs.len()),
            Vec::new(),
            keys_vec::<TableIndex>(self.tables.len()),
            Vec::new(),
            Vec::new(),
        );
        NativeModule {
            exported_names: self.exported_names,
            funcs: FrozenMap::freeze(self.funcs),
            types: FrozenMap::freeze(self.types),
            tables: FrozenMap::freeze(self.tables),
            heaps: FrozenMap::empty(),
            globs: FrozenMap::empty(),
            imports: FrozenMap::empty(),
            code: Vec::new(),
            segments: Vec::new(),
            elements: Vec::new(),
            relocs: Vec::new(),
            vmctx_layout,
        }
    }

    /// Adds a native function to the module, exported under `name`.
    ///
    /// There is no typecheck yet: the function might be called with an unexpected number of
    /// arguments from Wasm instances.
    pub fn add_func<P: WasmParams, R: WasmResults>(self, name: String, func: &NativeFunc<P, R>) -> (r: Self)
        requires
            func.addr() != 0,
            self.func_infos().len() < u32::MAX,
            self.type_list().len() < u32::MAX,
        ensures
            r.func_infos() == self.func_infos().push(FuncInfo::Native {
                ptr: RawFuncPtr::new_spec(func.addr()),
                ty: TypeIndex::at_pos(self.type_list().len()),
            }),
            r.type_list() == self.type_list().push((P::spec_tys(), R::spec_tys())),
            r.exports() == self.exports().insert(name@, ItemRef::Func(FuncIndex::at_pos(self.func_infos().len()))),
            r.table_infos() == self.table_infos(),
    {
        let mut this = self;
        let ptr = RawFuncPtr::new(func.ptr());
        let ty = TypeIndex::new(this.types.len());
        let ghost old_types = this.types@;
        this.types.push(func.ty());
        let idx = FuncIndex::new(this.funcs.len());
        this.funcs.push(FuncInfo::Native { ptr, ty });
        this.exported_names.insert(name, ItemRef::Func(idx));
        assert(this.types@.map_values(|t: FuncType| t@) =~= old_types.map_values(|t: FuncType| t@).push((P::spec_tys(), R::spec_tys())));
        this
    }

    /// Adds a native table of references to the module, exported under `name`.
    pub fn add_table<T: WasmType<Abi = ExternRef64>>(self, name: String, table: Vec<T>) -> (r: Self)
        requires
            self.table_infos().len() < u32::MAX,
        ensures
            r.table_infos().len() == self.table_infos().len() + 1,
            r.table_infos().drop_last() == self.table_infos(),
            r.table_infos().last() matches TableInfo::Native { ptr, ty }
                && ptr@ == table@.map_values(|x: T| x.spec_into_abi()) && ty == RefType::ExternRef,
            r.func_infos() == self.func_infos(),
            r.type_list() == self.type_list(),
            r.exports() == self.exports().insert(name@, ItemRef::Table(TableIndex::at_pos(self.table_infos().len()))),
    {
        let mut refs: Vec<u64> = Vec::with_capacity(table.len());
        let mut i: usize = 0;
        while i < table.len()
            invariant
                i <= table@.len(),
                refs@ == table@.take(i as int).map_values(|x: T| x.spec_into_abi()),
            decreases table@.len() - i,
        {
            refs.push(table[i].into_abi());
            i = i + 1;
            assert(refs@ =~= table@.take(i as int).map_values(|x: T| x.spec_into_abi()));
        }
        assert(table@.take(table@.len() as int) =~= table@);
        let mut this = self;
        let idx = TableIndex::new(this.tables.len());
        this.tables.push(TableInfo::Native { ptr: refs, ty: RefType::ExternRef });
        this.exported_names.insert(name, ItemRef::Table(idx));
        this
    }
}

/// A module exposing native (Rust) functions and items.
pub struct NativeModule {
    exported_names: NameMap<ItemRef>,
    funcs: FrozenMap<FuncIndex, FuncInfo>,
    types: FrozenMap<TypeIndex, FuncType>,
    tables: FrozenMap<TableIndex, TableInfo>,
    heaps: FrozenMap<HeapIndex, HeapInfo>,
    globs: FrozenMap<GlobIndex, GlobInfo>,
    imports: FrozenMap<ImportIndex, String>,
    code: Vec<u8>,
    segments: Vec<DataSegment>,
    elements: Vec<TableSegment>,
    relocs: Vec<Reloc>,
    vmctx_layout: SimpleVMContextLayout,
}

impl NativeModule {
    /// The names that the module exports, and the items under them.
    pub closed spec fn exports(self) -> Map<Seq<char>, ItemRef> {
        self.exported_names@
    }

    /// The functions of the module.
    pub closed spec fn func_infos(self) -> Seq<FuncInfo> {
        self.funcs@
    }

    /// The tables of the module.
    pub closed spec fn table_infos(self) -> Seq<TableInfo> {
        self.tables@
    }

    /// The layout of the VMContext of the instances of the module.
    pub closed spec fn layout(self) -> LayoutView {
        self.vmctx_layout@
    }
}

impl Module for NativeModule {
    closed spec fn spec_start(&self) -> Option<FuncIndex> {
        None
    }

    closed spec fn spec_code(&self) -> Seq<u8> {
        self.code@
    }

    closed spec fn spec_heaps(&self) -> Seq<HeapInfo> {
        self.heaps@
    }

    closed spec fn spec_tables(&self) -> Seq<TableInfo> {
        self.tables@
    }

    closed spec fn spec_funcs(&self) -> Seq<FuncInfo> {
        self.funcs@
    }

    closed spec fn spec_globs(&self) -> Seq<GlobInfo> {
        self.globs@
    }

    closed spec fn spec_imports(&self) -> Seq<String> {
        self.imports@
    }

    closed spec fn spec_types(&self) -> Seq<FuncType> {
        self.types@
    }

    closed spec fn spec_segments(&self) -> Seq<DataSegment> {
        self.segments@
    }

    closed spec fn spec_table_segments(&self) -> Seq<TableSegment> {
        self.elements@
    }

    closed spec fn spec_relocs(&self) -> Seq<Reloc> {
        self.relocs@
    }

    closed spec fn spec_exports(&self) -> Map<Seq<char>, ItemRef> {
        self.exported_names@
    }

    closed spec fn spec_layout(&self) -> LayoutView {
        self.vmctx_layout@
    }

    fn start(&self) -> (r: Option<FuncIndex>) {
        None
    }

    fn code(&self) -> (r: &[u8]) {
        self.code.as_slice()
    }

    fn heaps(&self) -> (r: &FrozenMap<HeapIndex, HeapInfo>) {
        &self.heaps
    }

    fn tables(&self) -> (r: &FrozenMap<TableIndex, TableInfo>) {
        &self.tables
    }

    fn funcs(&self) -> (r: &FrozenMap<FuncIndex, FuncInfo>) {
        &self.funcs
    }

    fn types(&self) -> (r: &FrozenMap<TypeIndex, FuncType>) {
        &self.types
    }

    fn globs(&self) -> (r: &FrozenMap<GlobIndex, GlobInfo>) {
        &self.globs
    }

    fn imports(&self) -> (r: &FrozenMap<ImportIndex, String>) {
        &self.imports
    }

    fn data_segments(&self) -> (r: &[DataSegment]) {
        self.segments.as_slice()
    }

    fn table_segments(&self) -> (r: &[TableSegment]) {
        self.elements.as_slice()
    }

    fn relocs(&self) -> (r: &[Reloc]) {
        self.relocs.as_slice()
    }

    fn public_items(&self) -> (r: &NameMap<ItemRef>) {
        &self.exported_names
    }

    fn vmctx_layout(&self) -> (r: &SimpleVMContextLayout) {
        &self.vmctx_layout
    }
}

} // verus!
