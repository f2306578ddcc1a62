use coral::bindgen::{
    patch_params, proxy_body, replace_funcs_in_body, replace_funcs_in_module, ImportedFuncPatch, Patch, PatchSet,
    ProxyInstr, Table, ValType,
};
use coral::linker::Function;
use coral::wasm_ir::{IdMap, Instr, LocalFunction};
use coral::bindgen_config::{
    as_toml_int, parse_arg_patch, parse_config, parse_function, parse_patch_text, parse_tables, register_function_patches, ArgPatch,
    ConfigError, ConfigValue, FunctionConfig, TableConfig,
};

fn args_of(p: Patch) -> Vec<(u32, Table)> {
    match p {
        Patch::ImportedFunc(p) => p.args().to_vec(),
    }
}

#[test]
fn patches_are_sorted_by_argument() {
    let mut p = ImportedFuncPatch::new();
    p.replace_with_handle(2, Table(0));
    p.replace_with_handle(0, Table(1));
    p.replace_with_handle(2, Table(2));
    p.replace_with_handle(1, Table(3));
    assert_eq!(
        args_of(p.as_patch()),
        vec![(0, Table(1)), (1, Table(3)), (2, Table(0)), (2, Table(2))]
    );
}

#[test]
fn patched_params_become_references() {
    let mut p = ImportedFuncPatch::new();
    p.replace_with_handle(0, Table(0));
    p.replace_with_handle(2, Table(0));
    let params = [ValType::I32, ValType::I64, ValType::I32, ValType::F32];
    assert_eq!(
        patch_params(&params, &p),
        vec![ValType::Externref, ValType::I64, ValType::Externref, ValType::F32]
    );
}

#[test]
fn proxy_reads_handles_before_the_call() {
    let mut p = ImportedFuncPatch::new();
    p.replace_with_handle(0, Table(7));
    let body = proxy_body(3, 2, &p);
    assert_eq!(
        body,
        vec![
            ProxyInstr::LocalGet(0),
            ProxyInstr::TableGet(Table(7)),
            ProxyInstr::LocalGet(1),
            ProxyInstr::Call(3)
        ]
    );
}

#[test]
fn proxy_moves_on_to_the_next_patch_at_each_parameter() {
    let mut p = ImportedFuncPatch::new();
    p.replace_with_handle(1, Table(7));
    let body = proxy_body(9, 2, &p);
    assert_eq!(
        body,
        vec![ProxyInstr::LocalGet(0), ProxyInstr::LocalGet(1), ProxyInstr::Call(9)]
    );
}

fn s(x: &str) -> ConfigValue {
    ConfigValue::String(String::from(x))
}

fn table(entries: Vec<(&str, ConfigValue)>) -> ConfigValue {
    ConfigValue::Table(entries.into_iter().map(|(k, v)| (String::from(k), v)).collect())
}

#[test]
fn integers() {
    assert_eq!(as_toml_int(&ConfigValue::Integer(5)).unwrap(), 5);
    assert!(matches!(as_toml_int(&ConfigValue::Integer(-1)), Err(ConfigError::IntegerOutOfRange)));
    assert!(matches!(
        as_toml_int(&ConfigValue::Integer(1 << 32)),
        Err(ConfigError::IntegerOutOfRange)
    ));
    assert!(matches!(as_toml_int(&s("5")), Err(ConfigError::ExpectedInteger)));
}

#[test]
fn argument_patches() {
    let p = parse_arg_patch(&table(vec![("arg", ConfigValue::Integer(1)), ("table", s("handles"))]))
        .unwrap();
    assert_eq!(p.arg_id, 1);
    assert_eq!(p.table, "handles");
    assert!(matches!(
        parse_arg_patch(&table(vec![("arg", ConfigValue::Integer(1))])),
        Err(ConfigError::MalformedPatch)
    ));
    assert!(matches!(
        parse_arg_patch(&table(vec![("argument", ConfigValue::Integer(1))])),
        Err(ConfigError::UnexpectedPatchField(_))
    ));
    assert!(matches!(parse_arg_patch(&s("x")), Err(ConfigError::ExpectedTable)));
}

#[test]
fn tables() {
    let tables = parse_tables(&table(vec![
        (
            "handles",
            table(vec![
                ("from", s("coral")),
                ("min_size", ConfigValue::Integer(10)),
                ("name", s("handles")),
            ]),
        ),
        (
            "local",
            table(vec![("max_size", ConfigValue::Integer(8)), ("min_size", ConfigValue::Integer(2))]),
        ),
    ]))
    .unwrap();
    assert_eq!(tables.len(), 2);
    assert_eq!(tables[0].0, "handles");
    assert!(matches!(
        &tables[0].1,
        TableConfig::Imported { from, name, min_size: 10, max_size: None } if from == "coral" && name == "handles"
    ));
    assert!(matches!(tables[1].1, TableConfig::Owned { min_size: 2, max_size: Some(8) }));
}

#[test]
fn table_errors() {
    assert!(matches!(
        parse_tables(&table(vec![("t", table(vec![("from", s("coral"))]))])),
        Err(ConfigError::MissingMinSize(name)) if name == "t"
    ));
    assert!(matches!(
        parse_tables(&table(vec![("t", table(vec![("size", ConfigValue::Integer(1))]))])),
        Err(ConfigError::UnexpectedTableField(field)) if field == "size"
    ));
    assert!(matches!(
        parse_tables(&table(vec![("t", table(vec![("min_size", s("1"))]))])),
        Err(ConfigError::ExpectedInteger)
    ));
}

#[test]
fn functions() {
    let patches = ConfigValue::Array(vec![table(vec![
        ("arg", ConfigValue::Integer(0)),
        ("table", s("handles")),
    ])]);
    let fs = parse_function(&table(vec![(
        "vma_write",
        table(vec![("from", s("coral")), ("patches", patches)]),
    )]))
    .unwrap();
    assert_eq!(fs.len(), 1);
    match &fs[0] {
        FunctionConfig::Imported { from, name, patches } => {
            assert_eq!(from, "coral");
            assert_eq!(name, "vma_write");
            assert_eq!(patches.len(), 1);
            assert_eq!(patches[0].arg_id, 0);
        }
    }
    assert!(matches!(
        parse_function(&table(vec![("f", table(vec![]))])),
        Err(ConfigError::OnlyImportedFunctions)
    ));
    assert!(matches!(
        parse_function(&table(vec![("f", table(vec![("patches", s("x"))]))])),
        Err(ConfigError::ExpectedArray)
    ));
}

#[test]
fn configurations() {
    let config = parse_config(&table(vec![
        ("functions", table(vec![("f", table(vec![("from", s("env"))]))])),
        ("tables", table(vec![("t", table(vec![("min_size", ConfigValue::Integer(1))]))])),
    ]))
    .unwrap();
    assert_eq!(config.functions.len(), 1);
    assert_eq!(config.tables.len(), 1);
    assert_eq!(config.tables[0].0, "t");
    assert!(matches!(
        parse_config(&table(vec![("other", table(vec![]))])),
        Err(ConfigError::InvalidTomlTable(k)) if k == "other"
    ));
    assert!(matches!(parse_config(&s("x")), Err(ConfigError::NotATable)));
}

#[test]
fn patch_files_are_read_from_their_text() {
    let text = "[tables.handles]\nmin_size = 10\nmax_size = 20\n\n[functions.vma_write]\nfrom = \"coral\"\npatches = [ { arg = 0, table = \"handles\" } ]\n";
    let config = parse_patch_text(text).unwrap();
    assert_eq!(config.tables.len(), 1);
    assert_eq!(config.tables[0].0, "handles");
    assert!(matches!(config.tables[0].1, TableConfig::Owned { min_size: 10, max_size: Some(20) }));
    assert_eq!(config.functions.len(), 1);
    match &config.functions[0] {
        FunctionConfig::Imported { from, name, patches } => {
            assert_eq!(from, "coral");
            assert_eq!(name, "vma_write");
            assert_eq!(patches.len(), 1);
            assert_eq!(patches[0].arg_id, 0);
            assert_eq!(patches[0].table, "handles");
        }
    }
}

#[test]
fn patch_files_that_are_not_toml_are_refused() {
    assert!(matches!(parse_patch_text("[tables"), Err(ConfigError::InvalidToml)));
    assert!(matches!(
        parse_patch_text("[other]\nx = 1\n"),
        Err(ConfigError::InvalidTomlTable(k)) if k == "other"
    ));
    let empty = parse_patch_text("").unwrap();
    assert!(empty.tables.is_empty() && empty.functions.is_empty());
}

fn redirect(from: u32, to: u32) -> IdMap {
    let mut m = IdMap::new();
    m.insert(from, to);
    m
}

#[test]
fn calls_are_redirected_in_the_sequences_reached() {
    let mut func = LocalFunction {
        args: vec![],
        blocks: vec![
            vec![Instr::Call(1), Instr::Block(1), Instr::Br(2)],
            vec![Instr::Call(1), Instr::Call(3)],
            vec![Instr::Call(1)],
        ],
        entry: 0,
    };
    replace_funcs_in_body(&mut func, &redirect(1, 9));
    assert_eq!(func.blocks[0], vec![Instr::Call(9), Instr::Block(1), Instr::Br(2)]);
    assert_eq!(func.blocks[1], vec![Instr::Call(9), Instr::Call(3)]);
    // A plain branch is not followed.
    assert_eq!(func.blocks[2], vec![Instr::Call(1)]);
}

#[test]
fn an_entry_reached_again_is_redirected_twice() {
    let mut func = LocalFunction {
        args: vec![],
        blocks: vec![vec![Instr::Call(1), Instr::BrIf(0)]],
        entry: 0,
    };
    let mut patch = IdMap::new();
    patch.insert(1, 2);
    patch.insert(2, 3);
    replace_funcs_in_body(&mut func, &patch);
    assert_eq!(func.blocks[0], vec![Instr::Call(3), Instr::BrIf(0)]);
}

#[test]
fn ignored_and_imported_functions_are_left_as_they_are() {
    let body = || LocalFunction { args: vec![], blocks: vec![vec![Instr::Call(0)]], entry: 0 };
    let mut funcs = vec![Function::Imported(0), Function::Local(body()), Function::Local(body())];
    replace_funcs_in_module(&mut funcs, &redirect(0, 2), &[2]);
    assert!(matches!(&funcs[0], Function::Imported(0)));
    match &funcs[1] {
        Function::Local(f) => assert_eq!(f.blocks[0], vec![Instr::Call(2)]),
        Function::Imported(_) => panic!("kind changed"),
    }
    match &funcs[2] {
        Function::Local(f) => assert_eq!(f.blocks[0], vec![Instr::Call(0)]),
        Function::Imported(_) => panic!("kind changed"),
    }
}

#[test]
fn patch_set_keeps_the_last_patch_of_an_import() {
    let mut set = PatchSet::new();
    let mut first = ImportedFuncPatch::new();
    first.replace_with_handle(0, Table(1));
    set.register_patch("coral", "f", first.as_patch());
    let mut second = ImportedFuncPatch::new();
    second.replace_with_handle(1, Table(2));
    set.register_patch("coral", "f", second.as_patch());
    assert!(set.get("coral", "g").is_none());
    match set.get("coral", "f") {
        Some(Patch::ImportedFunc(p)) => assert_eq!(p.args(), &[(1, Table(2))]),
        None => panic!("the patch is registered"),
    }
}

fn function(from: &str, name: &str, patches: Vec<(u32, &str)>) -> FunctionConfig {
    FunctionConfig::Imported {
        from: String::from(from),
        name: String::from(name),
        patches: patches.into_iter().map(|(arg_id, t)| ArgPatch { arg_id, table: String::from(t) }).collect(),
    }
}

#[test]
fn function_patches_use_the_declared_tables() {
    let tables = vec![(String::from("a"), Table(0)), (String::from("b"), Table(1)), (String::from("a"), Table(2))];
    let functions = vec![function("coral", "write", vec![(2, "b"), (0, "a")])];
    let mut set = PatchSet::new();
    assert!(register_function_patches(&functions, &tables, &mut set).is_ok());
    match set.get("coral", "write") {
        Some(Patch::ImportedFunc(p)) => assert_eq!(p.args(), &[(0, Table(2)), (2, Table(1))]),
        None => panic!("the patch is registered"),
    }
}

#[test]
fn function_patches_reject_an_unknown_table() {
    let tables = vec![(String::from("a"), Table(0))];
    let functions = vec![
        function("coral", "ok", vec![(0, "a")]),
        function("coral", "bad", vec![(0, "a"), (1, "nope")]),
        function("coral", "after", vec![]),
    ];
    let mut set = PatchSet::new();
    match register_function_patches(&functions, &tables, &mut set) {
        Err(ConfigError::UnknownTable(name)) => assert_eq!(name, "nope"),
        _ => panic!("the table is unknown"),
    }
    assert!(set.get("coral", "ok").is_some());
    assert!(set.get("coral", "bad").is_none());
    assert!(set.get("coral", "after").is_none());
}
