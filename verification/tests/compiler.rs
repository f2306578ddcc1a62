use coral::compiler::{
    build_module_info, convert_glob_init, CompilerError, ExternalName, Global, GlobalInit, Memory,
    RelocationHandler, Table, TrapHandler,
};
use coral::compiler_env::{Exportable, ModuleInfo, VMCTX_ENTRY_WIDTH, WASM_PAGE_SIZE};
use coral::entity::{FuncIndex, GlobIndex, HeapIndex, ImportIndex, TableIndex, TypeIndex};
use coral::traits::{FuncInfo, GlobInfo, GlobInit, HeapInfo, HeapKind, ItemRef, RelocKind, TableInfo};
use coral::types::{FuncType, RefType, ValueType};

type Env = ModuleInfo<FuncType, Memory, Table, Global>;

#[test]
fn exportable() {
    let mut e = Exportable::new(3u32);
    assert_eq!(e.entity, 3);
    assert!(e.export_names.is_empty());
    e.export_as(String::from("a"));
    e.export_as(String::from("b"));
    assert_eq!(e.export_names, vec![String::from("a"), String::from("b")]);
}

#[test]
fn module_indices_are_registered_once() {
    let mut env: Env = ModuleInfo::new();
    assert_eq!(env.get_module_idx("env"), ImportIndex(0));
    assert_eq!(env.get_module_idx("coral"), ImportIndex(1));
    assert_eq!(env.get_module_idx("env"), ImportIndex(0));
    assert_eq!(env.modules, vec![String::from("env"), String::from("coral")]);
}

#[test]
fn vmctx_offsets() {
    let mut env: Env = ModuleInfo::new();
    env.declare_memory(Memory { minimum: 1, maximum: None, shared: false });
    env.declare_table(Table { ty: RefType::FuncRef, minimum: 1, maximum: None });
    env.declare_func_import(TypeIndex(0), "env", "f");
    env.declare_func_import(TypeIndex(0), "other", "g");
    assert_eq!(VMCTX_ENTRY_WIDTH, 8);
    assert_eq!(WASM_PAGE_SIZE, 0x10000);
    assert_eq!(env.get_vmctx_table_offset(TableIndex(0)), 8);
    // heaps (1) + tables (2 entries) + imported funcs (2) + module 1
    assert_eq!(env.get_vmctx_imported_vmctx_offset(ImportIndex(1)), 6 * 8);
    // heaps (1) + tables (2) + imported funcs (2) + modules (2) + global 3
    assert_eq!(env.get_vmctx_global_offset(GlobIndex(3)), 10 * 8);
}

#[test]
fn imports_are_recorded() {
    let mut env: Env = ModuleInfo::new();
    env.declare_func_import(TypeIndex(2), "env", "answer");
    env.declare_func_type(TypeIndex(1));
    env.declare_func_import(TypeIndex(3), "env", "other");
    assert_eq!(env.nb_imported_funcs(), 2);
    let f0 = env.imported_funcs[0].as_ref().unwrap();
    assert_eq!(f0.name, "answer");
    assert_eq!(f0.vmctx_idx, 1);
    assert_eq!(f0.module, ImportIndex(0));
    assert!(env.imported_funcs[1].is_none());
    assert_eq!(env.imported_funcs[2].as_ref().unwrap().vmctx_idx, 2);
    assert_eq!(env.funcs[2].entity, TypeIndex(3));

    env.declare_memory_import(Memory { minimum: 1, maximum: Some(2), shared: false }, "coral", "mem");
    env.declare_global_import(Global { mutable: false, initializer: GlobalInit::Import }, "env", "g");
    env.declare_table_import(Table { ty: RefType::ExternRef, minimum: 4, maximum: None }, "coral", "handles");
    assert_eq!(env.imported_heaps[0].as_ref().unwrap().module, ImportIndex(1));
    assert_eq!(env.imported_globs[0].as_ref().unwrap().name, "g");
    assert_eq!(env.imported_tables[0].as_ref().unwrap().name, "handles");
    assert_eq!(env.modules.len(), 2);
}

#[test]
fn exports_and_segments_are_recorded() {
    let mut env: Env = ModuleInfo::new();
    env.declare_func_type(TypeIndex(0));
    env.declare_func_export(FuncIndex(0), String::from("main"));
    env.declare_start_func(FuncIndex(0));
    env.declare_data_initialization(HeapIndex(0), None, 16, &[1, 2, 3]);
    env.declare_table_elements(TableIndex(0), Some(GlobIndex(1)), 2, vec![FuncIndex(0)]);
    assert_eq!(env.funcs[0].export_names, vec![String::from("main")]);
    assert_eq!(env.start, Some(FuncIndex(0)));
    assert_eq!(env.segments[0].data, vec![1, 2, 3]);
    assert_eq!(env.segments[0].offset, 16);
    assert_eq!(env.elements[0].elements, vec![FuncIndex(0)]);
    assert_eq!(env.elements[0].base, Some(GlobIndex(1)));
}

#[test]
fn glob_initializers() {
    assert_eq!(convert_glob_init(GlobalInit::I32Const(-3)), GlobInit::I32(-3));
    assert_eq!(convert_glob_init(GlobalInit::I64Const(42)), GlobInit::I64(42));
    assert_eq!(convert_glob_init(GlobalInit::F32Const(1.5f32.to_bits())), GlobInit::F32(1.5f32.to_bits()));
    assert_eq!(convert_glob_init(GlobalInit::F64Const(2.0f64.to_bits())), GlobInit::F64(2.0f64.to_bits()));
}

#[test]
fn module_assembly() {
    let mut env: Env = ModuleInfo::new();
    env.declare_type_func(FuncType::new(vec![], vec![ValueType::I32]));
    env.declare_func_import(TypeIndex(0), "env", "answer");
    env.declare_func_type(TypeIndex(0));
    env.declare_memory(Memory { minimum: 1, maximum: Some(0x1_0000_0002), shared: false });
    env.declare_memory(Memory { minimum: 2, maximum: None, shared: false });
    env.declare_table(Table { ty: RefType::FuncRef, minimum: 1, maximum: Some(4) });
    env.declare_global(Global { mutable: true, initializer: GlobalInit::I64Const(7) });
    env.declare_global_import(Global { mutable: false, initializer: GlobalInit::Import }, "env", "g");
    env.declare_func_export(FuncIndex(1), String::from("main"));
    env.declare_memory_export(HeapIndex(0), String::from("memory"));
    env.declare_global_export(GlobIndex(0), String::from("counter"));
    env.declare_table_export(TableIndex(0), String::from("table"));
    env.declare_start_func(FuncIndex(1));

    let info = build_module_info(env);
    assert!(matches!(info.funcs.values()[0], FuncInfo::Imported { module: ImportIndex(0), .. }));
    assert!(matches!(info.funcs.values()[1], FuncInfo::Owned { offset: 0 }));
    assert!(matches!(
        info.heaps.values()[0],
        HeapInfo::Owned { min_size: 1, kind: HeapKind::Static { max_size: 2 } }
    ));
    assert!(matches!(info.heaps.values()[1], HeapInfo::Owned { min_size: 2, kind: HeapKind::Dynamic }));
    assert!(matches!(
        info.tables.values()[0],
        TableInfo::Owned { min_size: 1, max_size: Some(4), ty: RefType::FuncRef }
    ));
    assert!(matches!(info.globs.values()[0], GlobInfo::Owned { init: GlobInit::I64(7) }));
    assert!(matches!(info.globs.values()[1], GlobInfo::Imported { .. }));
    assert_eq!(info.imports.values(), &[String::from("env")]);
    assert_eq!(info.types.len(), 1);
    assert_eq!(info.start, Some(FuncIndex(1)));
    assert_eq!(info.exported_items.get("main"), Some(ItemRef::Func(FuncIndex(1))));
    assert_eq!(info.exported_items.get("memory"), Some(ItemRef::Heap(HeapIndex(0))));
    assert_eq!(info.exported_items.get("counter"), Some(ItemRef::Glob(GlobIndex(0))));
    assert_eq!(info.exported_items.get("table"), Some(ItemRef::Table(TableIndex(0))));
    assert_eq!(info.exported_items.get("answer"), None);
}

#[test]
fn relocations_are_offset_by_the_function() {
    let mut relocs = RelocationHandler::new();
    relocs.set_offset(0x100);
    relocs.reloc_external(4, RelocKind::Abs8, &ExternalName::User { namespace: 0, index: 3 }, -2);
    relocs.set_offset(0x200);
    relocs.reloc_external(8, RelocKind::X86CallPCRel4, &ExternalName::User { namespace: 0, index: 1 }, 0);
    assert_eq!(
        relocs.translate(&ExternalName::User { namespace: 0, index: 5 }),
        ItemRef::Func(FuncIndex(5))
    );
    let relocs = relocs.into_relocs();
    assert_eq!(relocs.len(), 2);
    assert_eq!(relocs[0].offset, 0x104);
    assert_eq!(relocs[0].item, ItemRef::Func(FuncIndex(3)));
    assert_eq!(relocs[0].addend, -2);
    assert_eq!(relocs[1].offset, 0x208);
    assert_eq!(relocs[1].kind, RelocKind::X86CallPCRel4);
}

#[test]
fn traps_and_errors() {
    let mut traps = TrapHandler::new();
    traps.trap(12);
    assert_ne!(CompilerError::FailedToParse, CompilerError::FailedToCompile);
}
