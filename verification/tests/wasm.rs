use coral::abi::{WasmParams, WasmType};
use coral::collections::{FrozenMap, NameMap};
use coral::entity::{FuncIndex, GlobIndex, HeapIndex, ImportIndex, TableIndex, VmaIndex};
use coral::funcs::NativeFunc;
use coral::instances::{initialize_heap, relocate, Instance, Runtime};
use coral::modules::{ModuleInfo, NativeModuleBuilder, SimpleVMContextLayout};
use coral::syscalls::ExternRef;
use coral::traits::{
    DataSegment, FuncInfo, HeapKind, ItemRef, MemoryArea, Module, ModuleError, RawFuncPtr, Reloc, RelocKind, TableInfo, TableSegment,
};
use coral::types::{FuncType, RefType, ValueType};
use coral::vmctx::VMContext;

// ——————————————————————————————— Collections ——————————————————————————————— //

#[test]
fn frozen_map_gets_by_index() {
    let map: FrozenMap<FuncIndex, u32> = FrozenMap::freeze(vec![10, 20, 30]);
    assert_eq!(map.len(), 3);
    assert_eq!(map.get(FuncIndex(1)), Some(&20));
    assert_eq!(map.get(FuncIndex(3)), None);
    assert_eq!(map.values(), &[10, 20, 30]);
}

#[test]
fn name_map_last_insert_wins() {
    let mut names: NameMap<u32> = NameMap::new();
    names.insert(String::from("a"), 1);
    names.insert(String::from("b"), 2);
    names.insert(String::from("a"), 3);
    assert_eq!(names.len(), 2);
    assert_eq!(names.get("a"), Some(3));
    assert_eq!(names.get("b"), Some(2));
    assert_eq!(names.get("c"), None);
    let copy = names.duplicate();
    assert_eq!(copy.get("a"), Some(3));
    assert_eq!(copy.len(), 2);
}

// ————————————————————————————————— Types —————————————————————————————————— //

#[test]
fn func_types_compare_args_and_results() {
    let a = FuncType::new(vec![ValueType::I32], vec![ValueType::I64]);
    let b = FuncType::new(vec![ValueType::I32], vec![ValueType::I64]);
    let c = FuncType::new(vec![ValueType::I64], vec![ValueType::I64]);
    assert!(a.eq(&b));
    assert!(!a.eq(&c));
    assert_eq!(a.args(), &[ValueType::I32]);
    assert_eq!(a.ret(), &[ValueType::I64]);
}

#[test]
fn item_refs_give_their_index() {
    let f = ItemRef::Func(FuncIndex(4));
    assert_eq!(f.as_func(), Some(FuncIndex(4)));
    assert_eq!(f.as_heap(), None);
    assert_eq!(ItemRef::Heap(HeapIndex(2)).as_heap(), Some(HeapIndex(2)));
    assert_eq!(ItemRef::Table(TableIndex(1)).as_table(), Some(TableIndex(1)));
    assert_eq!(ItemRef::Glob(GlobIndex(7)).as_glob(), Some(GlobIndex(7)));
    assert_eq!(ItemRef::Import(ImportIndex(0)).as_glob(), None);
}

#[test]
fn raw_func_ptr_keeps_its_address() {
    let p = RawFuncPtr::new(0x1000);
    assert_eq!(p.as_ptr(), 0x1000);
}

#[test]
fn imported_funcs_are_told_apart() {
    let imported = FuncInfo::Imported { module: ImportIndex(0), name: String::from("f") };
    let owned = FuncInfo::Owned { offset: 16 };
    assert!(imported.is_imported());
    assert!(!owned.is_imported());
}

#[test]
fn wasm_types_of_native_values() {
    assert_eq!(<u32 as WasmType>::ty(), ValueType::I32);
    assert_eq!(<i64 as WasmType>::ty(), ValueType::I64);
    assert_eq!(7u32.into_abi(), 7u32);
    assert_eq!(<(u32, u64, i32) as WasmParams>::ty(), vec![ValueType::I32, ValueType::I64, ValueType::I32]);
    assert_eq!(<(u32, u64, i32) as WasmParams>::nb_params(), 3);
    assert_eq!(<() as WasmParams>::nb_params(), 0);
}

// ———————————————————————————————— VMContext ——————————————————————————————— //

#[test]
fn vmctx_places_globals_after_the_other_items() {
    let layout = SimpleVMContextLayout::new(
        vec![FuncIndex(0), FuncIndex(1)],
        vec![HeapIndex(0)],
        vec![TableIndex(0)],
        vec![GlobIndex(0), GlobIndex(1)],
        vec![ImportIndex(0)],
    );
    let vmctx = VMContext::empty(&layout);
    // 1 heap, 1 table (2 slots), 2 functions and 1 import come before the globals.
    assert_eq!(vmctx.get_global_ptr(GlobIndex(0)), 6 * 8);
    assert_eq!(vmctx.get_global_ptr(GlobIndex(1)), 7 * 8);
}

// ———————————————————————————————— Instances ——————————————————————————————— //

#[test]
fn heap_initialization_copies_the_segments_of_the_heap() {
    let mut heap = vec![0u8; 8];
    let segments = vec![
        DataSegment { heap_index: HeapIndex(0), base: None, offset: 2, data: vec![1, 2, 3] },
        DataSegment { heap_index: HeapIndex(1), base: None, offset: 0, data: vec![9] },
    ];
    assert!(initialize_heap(&mut heap, HeapIndex(0), &segments).is_ok());
    assert_eq!(heap, vec![0, 0, 1, 2, 3, 0, 0, 0]);
}

#[test]
fn heap_initialization_zeroes_what_no_segment_covers() {
    let mut heap = vec![7u8; 4];
    let segments = vec![
        DataSegment { heap_index: HeapIndex(0), base: None, offset: 1, data: vec![1, 2] },
        DataSegment { heap_index: HeapIndex(0), base: None, offset: 2, data: vec![5] },
    ];
    assert!(initialize_heap(&mut heap, HeapIndex(0), &segments).is_ok());
    // A later segment overwrites an earlier one.
    assert_eq!(heap, vec![0, 1, 5, 0]);
}

#[test]
fn relocation_writes_absolute_addresses() {
    let mut code = vec![0u8; 16];
    let relocs = vec![Reloc { offset: 4, kind: RelocKind::Abs8, item: ItemRef::Func(FuncIndex(1)), addend: 2 }];
    let func_addrs = vec![0x100u64, 0x200u64];
    assert!(relocate(&mut code, 0x1000, &relocs, &func_addrs).is_ok());
    assert_eq!(&code[4..12], &0x202u64.to_le_bytes());
    assert_eq!(&code[0..4], &[0, 0, 0, 0]);
}

struct TestArea {
    bytes: Vec<u8>,
    requested: usize,
    kind: HeapKind,
}

impl MemoryArea for TestArea {
    fn addr(&self) -> usize {
        self.bytes.as_ptr() as usize
    }

    fn size(&self) -> usize {
        self.requested
    }

    fn as_ptr(&self) -> usize {
        self.bytes.as_ptr() as usize
    }

    fn as_mut_ptr(&self) -> usize {
        self.bytes.as_ptr() as usize
    }
}

struct TestRuntime;

impl Runtime for TestRuntime {
    type MemoryArea = TestArea;
    type Context = ();

    fn received(&self, area: TestArea) -> Vec<u8> {
        area.bytes[..area.requested].to_vec()
    }

    fn heap_kind(&self, area: TestArea) -> HeapKind {
        area.kind
    }

    fn create_context(&self) -> Self::Context {}

    fn alloc_heap(&self, initial: Vec<u8>, kind: HeapKind, _ctx: &mut ()) -> Result<TestArea, ModuleError> {
        Ok(TestArea { requested: initial.len(), bytes: initial, kind })
    }

    fn alloc_table(&self, min_size: u32, _max_size: Option<u32>, _ty: RefType, _ctx: &mut ()) -> Result<Vec<u64>, ModuleError> {
        Ok(vec![0; min_size as usize])
    }

    fn alloc_code(&self, size: usize, _ctx: &mut ()) -> Result<TestArea, ModuleError> {
        Ok(TestArea { bytes: vec![0; size.max(1)], requested: size, kind: HeapKind::Dynamic })
    }

    fn write_code(&self, _area: &TestArea, code: Vec<u8>, _ctx: &mut ()) -> Result<usize, ModuleError> {
        Ok(code.len())
    }
}

fn the_answer() -> u32 {
    42
}

#[test]
fn native_module_instance_exports_its_function_and_table() {
    let answer = NativeFunc::<(), u32>::new(the_answer as usize);
    let module = NativeModuleBuilder::new()
        .add_func(String::from("answer"), &answer)
        .add_table(String::from("handles"), vec![ExternRef::Vma(VmaIndex(3))])
        .build();
    assert_eq!(module.funcs().len(), 1);
    assert_eq!(module.types().len(), 1);
    assert!(module.table_segments().is_empty());
    assert_eq!(module.public_items().get("answer"), Some(ItemRef::Func(FuncIndex(0))));
    assert_eq!(module.public_items().get("handles"), Some(ItemRef::Table(TableIndex(0))));

    let instance = match Instance::instantiate(&module, vec![], &TestRuntime) {
        Ok(instance) => instance,
        Err(_) => panic!("a native module instantiates"),
    };
    assert_eq!(instance.get_func_addr_by_name("answer"), Some(the_answer as usize));
    assert_eq!(instance.get_func_addr_by_name("missing"), None);
    assert_eq!(instance.get_func_addr_by_name("handles"), None);
    let table = instance.get_table_by_name("handles").expect("the table is exported");
    assert_eq!(table, &vec![(3u64 << 32) | 1]);
    assert!(instance.get_table_by_name("answer").is_none());
}

#[test]
fn instantiation_fails_on_a_missing_import() {
    let answer = NativeFunc::<(), u32>::new(the_answer as usize);
    let provider = NativeModuleBuilder::new().add_func(String::from("answer"), &answer).build();
    let provider = match Instance::instantiate(&provider, vec![], &TestRuntime) {
        Ok(instance) => instance,
        Err(_) => panic!("a native module instantiates"),
    };
    let funcs = FrozenMap::freeze(vec![FuncInfo::Imported { module: ImportIndex(0), name: String::from("answer") }]);
    let imports = FrozenMap::freeze(vec![String::from("lib")]);
    let info = ModuleInfo::new(
        funcs,
        FrozenMap::empty(),
        FrozenMap::empty(),
        FrozenMap::empty(),
        FrozenMap::empty(),
        imports,
        vec![],
        vec![],
        None,
    );
    let module = coral::modules::WasmModule::new(info, vec![], vec![]);
    // The import is provided under another name: the module cannot be instantiated.
    let result = Instance::instantiate(&module, vec![(String::from("other"), provider)], &TestRuntime);
    assert!(matches!(result, Err(ModuleError::FailedToInstantiate)));
}

#[test]
fn instantiation_resolves_an_imported_function() {
    let answer = NativeFunc::<(), u32>::new(the_answer as usize);
    let provider = NativeModuleBuilder::new().add_func(String::from("answer"), &answer).build();
    let provider = match Instance::instantiate(&provider, vec![], &TestRuntime) {
        Ok(instance) => instance,
        Err(_) => panic!("a native module instantiates"),
    };
    let funcs = FrozenMap::freeze(vec![FuncInfo::Imported { module: ImportIndex(0), name: String::from("answer") }]);
    let imports = FrozenMap::freeze(vec![String::from("lib")]);
    let mut info = ModuleInfo::new(
        funcs,
        FrozenMap::empty(),
        FrozenMap::empty(),
        FrozenMap::empty(),
        FrozenMap::empty(),
        imports,
        vec![],
        vec![],
        None,
    );
    info.export_func(FuncIndex(0), &[String::from("reexported")]);
    let module = coral::modules::WasmModule::new(info, vec![], vec![]);
    let instance = match Instance::instantiate(&module, vec![(String::from("lib"), provider)], &TestRuntime) {
        Ok(instance) => instance,
        Err(_) => panic!("the import is provided"),
    };
    assert_eq!(instance.get_vmctx_ptr() != 0, true);
    // The function is exported, but not as a table.
    assert!(instance.get_table_by_name("reexported").is_none());
}

/// A runtime that hands out code areas but never writes the code into them.
struct SkippingRuntime;

impl Runtime for SkippingRuntime {
    type MemoryArea = TestArea;
    type Context = ();

    fn received(&self, area: TestArea) -> Vec<u8> {
        area.bytes[..area.requested].to_vec()
    }

    fn heap_kind(&self, area: TestArea) -> HeapKind {
        area.kind
    }

    fn create_context(&self) -> Self::Context {}

    fn alloc_heap(&self, initial: Vec<u8>, kind: HeapKind, _ctx: &mut ()) -> Result<TestArea, ModuleError> {
        Ok(TestArea { requested: initial.len(), bytes: initial, kind })
    }

    fn alloc_table(&self, min_size: u32, _max_size: Option<u32>, _ty: RefType, _ctx: &mut ()) -> Result<Vec<u64>, ModuleError> {
        Ok(vec![0; min_size as usize])
    }

    fn alloc_code(&self, size: usize, _ctx: &mut ()) -> Result<TestArea, ModuleError> {
        Ok(TestArea { bytes: vec![0; size.max(1)], requested: size, kind: HeapKind::Dynamic })
    }

    fn write_code(&self, _area: &TestArea, _code: Vec<u8>, _ctx: &mut ()) -> Result<usize, ModuleError> {
        Ok(0)
    }
}

#[test]
fn instantiation_fails_when_the_runtime_skips_the_code() {
    let funcs = FrozenMap::freeze(vec![FuncInfo::Owned { offset: 0 }]);
    let info = ModuleInfo::new(
        funcs,
        FrozenMap::empty(),
        FrozenMap::empty(),
        FrozenMap::empty(),
        FrozenMap::empty(),
        FrozenMap::empty(),
        vec![],
        vec![],
        None,
    );
    let module = coral::modules::WasmModule::new(info, vec![0xc3; 4], vec![]);
    assert!(Instance::instantiate(&module, vec![], &TestRuntime).is_ok());
    let result = Instance::instantiate(&module, vec![], &SkippingRuntime);
    assert!(matches!(result, Err(ModuleError::RuntimeError)));
}

#[test]
fn instantiation_applies_element_segments() {
    let funcs = FrozenMap::freeze(vec![FuncInfo::Owned { offset: 0 }, FuncInfo::Owned { offset: 8 }]);
    let tables = FrozenMap::freeze(vec![TableInfo::Owned { min_size: 2, max_size: None, ty: RefType::FuncRef }]);
    let elements = vec![TableSegment {
        table_index: TableIndex(0),
        base: None,
        offset: 0,
        elements: vec![FuncIndex(0), FuncIndex(1)],
    }];
    let mut info = ModuleInfo::new(
        funcs,
        FrozenMap::empty(),
        FrozenMap::empty(),
        tables,
        FrozenMap::empty(),
        FrozenMap::empty(),
        vec![],
        elements,
        None,
    );
    info.export_func(FuncIndex(0), &[String::from("one")]);
    info.export_func(FuncIndex(1), &[String::from("two")]);
    info.export_table(TableIndex(0), &[String::from("table")]);
    let module = coral::modules::WasmModule::new(info, vec![0xc3; 16], vec![]);
    let instance = match Instance::instantiate(&module, vec![], &TestRuntime) {
        Ok(instance) => instance,
        Err(_) => panic!("the module instantiates"),
    };
    let one = instance.get_func_addr_by_name("one").expect("one is exported") as u64;
    let two = instance.get_func_addr_by_name("two").expect("two is exported") as u64;
    assert_eq!(two, one + 8);
    assert_eq!(instance.get_table_by_name("table").expect("the table is exported"), &vec![one, two]);
}

#[test]
fn instantiation_fails_on_an_export_out_of_range() {
    let funcs = FrozenMap::freeze(vec![FuncInfo::Owned { offset: 0 }]);
    let mut info = ModuleInfo::new(
        funcs,
        FrozenMap::empty(),
        FrozenMap::empty(),
        FrozenMap::empty(),
        FrozenMap::empty(),
        FrozenMap::empty(),
        vec![],
        vec![],
        None,
    );
    info.export_func(FuncIndex(3), &[String::from("missing")]);
    let module = coral::modules::WasmModule::new(info, vec![0xc3; 4], vec![]);
    let result = Instance::instantiate(&module, vec![], &TestRuntime);
    assert!(matches!(result, Err(ModuleError::FailedToInstantiate)));
}
