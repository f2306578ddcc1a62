use coral::linker::{delete_imports, patch_funcs, Export, ExportItem, Function, Import, ImportKind, Linker};
use coral::bindgen::ValType;
use coral::cloner::clone_func;
use coral::wasm_ir::{IdMap, Instr, LocalFunction, Patch};

#[test]
fn id_maps() {
    let mut m = IdMap::new();
    assert_eq!(m.get(1), None);
    m.insert(1, 10);
    m.insert(2, 20);
    m.insert(1, 11);
    assert_eq!(m.get(1), Some(11));
    assert_eq!(m.get(2), Some(20));
    assert_eq!(m.rename(3), 3);
    assert_eq!(m.rename(2), 20);
}

#[test]
fn patch_renames_entities() {
    let mut p = Patch::new();
    p.remap_func(1, 5);
    p.remap_glob(2, 6);
    p.remap_table(3, 7);
    p.remap_memory(0, 8);
    let mut pending = Vec::new();
    let mut i = Instr::Call(1);
    p.patch_instr(&mut i, &mut pending);
    assert_eq!(i, Instr::Call(5));
    let mut i = Instr::GlobalSet(2);
    p.patch_instr(&mut i, &mut pending);
    assert_eq!(i, Instr::GlobalSet(6));
    let mut i = Instr::CallIndirect { ty: 3, table: 3 };
    p.patch_instr(&mut i, &mut pending);
    assert_eq!(i, Instr::CallIndirect { ty: 3, table: 7 });
    let mut i = Instr::MemoryCopy { src: 0, dst: 1 };
    p.patch_instr(&mut i, &mut pending);
    assert_eq!(i, Instr::MemoryCopy { src: 8, dst: 1 });
    let mut i = Instr::Call(9);
    p.patch_instr(&mut i, &mut pending);
    assert_eq!(i, Instr::Call(9));
    assert!(pending.is_empty());
    let mut i = Instr::IfElse { consequent: 4, alternative: 5 };
    p.patch_instr(&mut i, &mut pending);
    let mut i = Instr::BrTable { blocks: vec![6, 7], default: 8 };
    p.patch_instr(&mut i, &mut pending);
    assert_eq!(pending, vec![4, 5, 6, 7]);
}

fn body() -> LocalFunction {
    LocalFunction {
        args: vec![],
        blocks: vec![
            vec![Instr::Call(1), Instr::Block(2)],
            vec![Instr::Call(1)],
            vec![Instr::Call(1), Instr::Loop(2), Instr::Other(0)],
        ],
        entry: 0,
    }
}

#[test]
fn patch_reaches_the_sequences_from_the_entry_only() {
    let mut p = Patch::new();
    p.remap_func(1, 2);
    let mut f = body();
    p.patch_func(&mut f);
    assert_eq!(f.blocks[0], vec![Instr::Call(2), Instr::Block(2)]);
    assert_eq!(f.blocks[1], vec![Instr::Call(1)]);
    assert_eq!(f.blocks[2], vec![Instr::Call(2), Instr::Loop(2), Instr::Other(0)]);
    assert_eq!(f.entry, 0);
}

fn import(id: u32, module: &str, name: &str, kind: ImportKind) -> Import {
    Import { id, module: String::from(module), name: String::from(name), kind }
}

#[test]
fn imports_from_the_linked_module_are_resolved() {
    let mut linker = Linker::new(String::from("lib"));
    linker.funcs_map.insert(0, 40);
    linker.globals_map.insert(1, 41);
    linker.linkee_imports.push(9);
    let imports = vec![
        import(0, "lib", "f", ImportKind::Function(3)),
        import(1, "env", "f", ImportKind::Function(4)),
        import(9, "lib", "h", ImportKind::Function(5)),
        import(2, "lib", "g", ImportKind::Global(6)),
    ];
    let exports = vec![
        Export { name: String::from("g"), item: ExportItem::Global(1) },
        Export { name: String::from("f"), item: ExportItem::Function(0) },
    ];
    let (patch, to_delete) = linker.resolve_imports(&imports, &exports);
    assert_eq!(to_delete, vec![0, 2]);
    let mut i = Instr::Call(3);
    let mut pending = Vec::new();
    patch.patch_instr(&mut i, &mut pending);
    assert_eq!(i, Instr::Call(40));
    let mut i = Instr::Call(4);
    patch.patch_instr(&mut i, &mut pending);
    assert_eq!(i, Instr::Call(4));
    let mut i = Instr::GlobalGet(6);
    patch.patch_instr(&mut i, &mut pending);
    assert_eq!(i, Instr::GlobalGet(41));
    assert_eq!(linker.new_func_id(0), 40);
    assert_eq!(linker.new_global_id(1), 41);
}

#[test]
fn remove_resolved_imports_rewrites_and_deletes() {
    let mut linker = Linker::new(String::from("lib"));
    linker.funcs_map.insert(0, 40);
    let mut imports = vec![
        import(0, "lib", "f", ImportKind::Function(3)),
        import(1, "env", "x", ImportKind::Memory(0)),
    ];
    let exports = vec![Export { name: String::from("f"), item: ExportItem::Function(0) }];
    let mut funcs = vec![
        Function::Imported(0),
        Function::Local(LocalFunction { args: vec![], blocks: vec![vec![Instr::Call(3)]], entry: 0 }),
    ];
    linker.remove_resolved_imports(&mut imports, &mut funcs, &exports);
    assert_eq!(imports.len(), 1);
    assert_eq!(imports[0].id, 1);
    match &funcs[1] {
        Function::Local(f) => assert_eq!(f.blocks[0], vec![Instr::Call(40)]),
        Function::Imported(_) => panic!("function kind changed"),
    }
}

#[test]
fn imports_are_deleted_by_id() {
    let mut imports = vec![
        import(0, "a", "x", ImportKind::Table(0)),
        import(1, "a", "y", ImportKind::Table(1)),
        import(2, "a", "z", ImportKind::Table(2)),
    ];
    delete_imports(&mut imports, &[2, 0]);
    assert_eq!(imports.len(), 1);
    assert_eq!(imports[0].name, "y");
    let mut funcs = vec![Function::Imported(3)];
    patch_funcs(&Patch::new(), &mut funcs);
    assert!(matches!(funcs[0], Function::Imported(3)));
}

#[test]
fn cloning_renames_entities_and_sequences() {
    let mut linker = Linker::new(String::from("lib"));
    linker.funcs_map.insert(5, 50);
    linker.globals_map.insert(1, 11);
    linker.memories_map.insert(0, 3);
    let func = LocalFunction {
        args: vec![7],
        blocks: vec![
            vec![Instr::Other(9)],
            vec![Instr::LocalGet(7), Instr::Block(2), Instr::Call(5)],
            vec![Instr::GlobalSet(1), Instr::Load { memory: 0, arg: 4 }, Instr::Br(1)],
        ],
        entry: 1,
    };
    let mut locals = vec![ValType::I64, ValType::I32];
    let (cloned, sources) = clone_func(&mut linker, &mut locals, &func, &[ValType::I32]);
    assert_eq!(sources, vec![1, 2, 1]);
    assert_eq!(locals, vec![ValType::I64, ValType::I32, ValType::I32]);
    assert_eq!(cloned.args, vec![2]);
    assert_eq!(linker.locals_map.get(7), Some(2));
    assert_eq!(cloned.entry, 0);
    // The entry, then the block it refers to, then the entry again (as a branch target).
    assert_eq!(cloned.blocks.len(), 3);
    assert_eq!(cloned.blocks[0], vec![Instr::LocalGet(2), Instr::Block(1), Instr::Call(50)]);
    assert_eq!(cloned.blocks[1], vec![Instr::GlobalSet(11), Instr::Load { memory: 3, arg: 4 }, Instr::Br(2)]);
    assert_eq!(cloned.blocks[2], vec![Instr::LocalGet(2), Instr::Block(1), Instr::Call(50)]);
}

#[test]
fn cloning_shares_a_sequence_referred_to_twice() {
    let mut linker = Linker::new(String::from("lib"));
    let func = LocalFunction {
        args: vec![],
        blocks: vec![
            vec![Instr::IfElse { consequent: 1, alternative: 1 }, Instr::BrTable { blocks: vec![2, 1], default: 2 }],
            vec![Instr::Other(1)],
            vec![Instr::Other(2)],
        ],
        entry: 0,
    };
    let mut locals = vec![];
    let (cloned, sources) = clone_func(&mut linker, &mut locals, &func, &[]);
    assert_eq!(sources, vec![0, 1, 2]);
    assert_eq!(cloned.blocks.len(), 3);
    assert_eq!(
        cloned.blocks[0],
        vec![Instr::IfElse { consequent: 1, alternative: 1 }, Instr::BrTable { blocks: vec![2, 1], default: 2 }]
    );
    assert_eq!(cloned.blocks[1], vec![Instr::Other(1)]);
    assert_eq!(cloned.blocks[2], vec![Instr::Other(2)]);
}
