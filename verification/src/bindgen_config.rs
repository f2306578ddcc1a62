//! The configuration of bindings generation: a TOML document that declares tables of handles
//! and the imported functions to patch.
//!
//! ```toml
//! [tables.handles]
//! from = "coral"      # optional: with `name`, the table is imported
//! name = "handles"
//! min_size = 10
//! max_size = 20        # optional
//!
//! [functions.vma_write]
//! from = "coral"
//! patches = [ { arg = 0, table = "handles" } ]
//! ```
//!
//! The document is read into a `ConfigValue`, whose tables list their entries in key order.

use vstd::prelude::*;

use crate::bindgen::{sort_by_index, ImportedFuncPatch, Patch, PatchSet, Table};

verus! {

/// A TOML value.
pub enum ConfigValue {
    String(String),
    Integer(i64),
    Float,
    Boolean(bool),
    Datetime,
    Array(Vec<ConfigValue>),
    Table(Vec<(String, ConfigValue)>),
}

/// The errors of a configuration.
#[derive(Debug)]
pub enum ConfigError {
    /// The text is not a TOML document.
    InvalidToml,
    /// The document is not a table.
    NotATable,
    /// A top-level entry other than tables and functions.
    InvalidTomlTable(String),
    /// A table was expected.
    ExpectedTable,
    /// An array was expected.
    ExpectedArray,
    /// A string was expected.
    ExpectedString,
    /// An integer was expected.
    ExpectedInteger,
    /// An integer does not fit in 32 bits.
    IntegerOutOfRange,
    /// An unknown field of a table declaration.
    UnexpectedTableField(String),
    /// A table declaration without its minimal size.
    MissingMinSize(String),
    /// An unknown field of a function declaration.
    UnexpectedFunctionField(String),
    /// A function declaration without the module it is imported from.
    OnlyImportedFunctions,
    /// An unknown field of an argument patch.
    UnexpectedPatchField(String),
    /// An argument patch without its argument or its table.
    MalformedPatch,
    /// An argument patch names a table that is not declared.
    UnknownTable(String),
}

/// A table declaration.
pub enum TableConfig {
    Imported { from: String, name: String, min_size: u32, max_size: Option<u32> },
    Owned { min_size: u32, max_size: Option<u32> },
}

/// A function declaration.
pub enum FunctionConfig {
    Imported { from: String, name: String, patches: Vec<ArgPatch> },
}

/// The argument `arg_id` becomes a handle in the table named `table`.
pub struct ArgPatch {
    pub arg_id: u32,
    pub table: String,
}

/// A configuration: its tables, by name, and its functions.
pub struct PatchConfig {
    pub tables: Vec<(String, TableConfig)>,
    pub functions: Vec<FunctionConfig>,
}

// —————————————————————————————— Value access —————————————————————————————— //

/// The entries of a table value.
pub fn as_toml_table(value: &ConfigValue) -> (r: Result<&Vec<(String, ConfigValue)>, ConfigError>)
    ensures
        match value {
            ConfigValue::Table(t) => r == Ok::<&Vec<(String, ConfigValue)>, ConfigError>(t),
            _ => r matches Err(ConfigError::ExpectedTable),
        },
{
    match value {
        ConfigValue::Table(t) => Ok(t),
        _ => Err(ConfigError::ExpectedTable),
    }
}

/// The items of an array value.
pub fn as_toml_array(value: &ConfigValue) -> (r: Result<&Vec<ConfigValue>, ConfigError>)
    ensures
        match value {
            ConfigValue::Array(a) => r == Ok::<&Vec<ConfigValue>, ConfigError>(a),
            _ => r matches Err(ConfigError::ExpectedArray),
        },
{
    match value {
        ConfigValue::Array(a) => Ok(a),
        _ => Err(ConfigError::ExpectedArray),
    }
}

/// The text of a string value.
pub fn as_toml_string(value: &ConfigValue) -> (r: Result<&String, ConfigError>)
    ensures
        match value {
            ConfigValue::String(s) => r == Ok::<&String, ConfigError>(s),
            _ => r matches Err(ConfigError::ExpectedString),
        },
{
    match value {
        ConfigValue::String(s) => Ok(s),
        _ => Err(ConfigError::ExpectedString),
    }
}

/// The integer of an integer value that fits in 32 bits (unsigned).
pub open spec fn spec_as_int(value: ConfigValue) -> Result<u32, ConfigError> {
    match value {
        ConfigValue::Integer(i) => if 0 <= i <= u32::MAX {
            Ok(i as u32)
        } else {
            Err(ConfigError::IntegerOutOfRange)
        },
        _ => Err(ConfigError::ExpectedInteger),
    }
}

/// The integer of an integer value, which must fit in 32 bits (unsigned).
pub fn as_toml_int(value: &ConfigValue) -> (r: Result<u32, ConfigError>)
    ensures
        match *value {
            ConfigValue::Integer(i) => if 0 <= i <= u32::MAX {
                r == Ok::<u32, ConfigError>(i as u32)
            } else {
                r matches Err(ConfigError::IntegerOutOfRange)
            },
            _ => r matches Err(ConfigError::ExpectedInteger),
        },
{
    match value {
        ConfigValue::Integer(i) => {
            if 0 <= *i && *i <= u32::MAX as i64 {
                Ok(*i as u32)
            } else {
                Err(ConfigError::IntegerOutOfRange)
            }
        },
        _ => Err(ConfigError::ExpectedInteger),
    }
}

// ————————————————————————————— Argument patches ————————————————————————————— //

/// The outcome of reading an argument patch's field: its argument, or its table.
pub open spec fn arg_patch_step(
    acc: (Option<u32>, Option<String>),
    item: (String, ConfigValue),
) -> Option<(Option<u32>, Option<String>)> {
    if item.0@ == "arg"@ {
        match item.1 {
            ConfigValue::Integer(i) => if 0 <= i <= u32::MAX {
                Some((Some(i as u32), acc.1))
            } else {
                None
            },
            _ => None,
        }
    } else if item.0@ == "table"@ {
        match item.1 {
            ConfigValue::String(s) => Some((acc.0, Some(s))),
            _ => None,
        }
    } else {
        None
    }
}

/// The fields of an argument patch read from position `i` on, or `None` at the first field
/// that is not accepted.
pub open spec fn arg_patch_fields(
    items: Seq<(String, ConfigValue)>,
    i: int,
    acc: (Option<u32>, Option<String>),
) -> Option<(Option<u32>, Option<String>)>
    decreases items.len() - i,
{
    if i < 0 || i >= items.len() {
        Some(acc)
    } else {
        match arg_patch_step(acc, items[i]) {
            None => None,
            Some(a) => arg_patch_fields(items, i + 1, a),
        }
    }
}

/// Reads an argument patch: a table with the fields `arg` and `table`.
pub fn parse_arg_patch(value: &ConfigValue) -> (r: Result<ArgPatch, ConfigError>)
    ensures
        match value {
            ConfigValue::Table(items) => match arg_patch_fields(items@, 0, (None, None)) {
                None => r is Err,
                Some((Some(arg_id), Some(table))) => r matches Ok(p) && p.arg_id == arg_id
                    && p.table == table,
                Some(_) => r matches Err(ConfigError::MalformedPatch),
            },
            _ => r matches Err(ConfigError::ExpectedTable),
        },
{
    let items = as_toml_table(value)?;
    let mut arg_id: Option<u32> = None;
    let mut table: Option<String> = None;
    let arg_key = "arg".to_owned();
    let table_key = "table".to_owned();
    let mut i: usize = 0;
    while i < items.len()
        invariant
            i <= items@.len(),
            arg_key@ == "arg"@,
            table_key@ == "table"@,
            *value == ConfigValue::Table(*items),
            arg_patch_fields(items@, 0, (None, None)) == arg_patch_fields(
                items@,
                i as int,
                (arg_id, table),
            ),
        decreases items@.len() - i,
    {
        let (key, value) = &items[i];
        if *key == arg_key {
            arg_id = Some(as_toml_int(value)?);
        } else if *key == table_key {
            table = Some(as_toml_string(value)?.clone());
        } else {
            return Err(ConfigError::UnexpectedPatchField(key.clone()));
        }
        i = i + 1;
    }
    match (arg_id, table) {
        (Some(arg_id), Some(table)) => Ok(ArgPatch { arg_id, table }),
        _ => Err(ConfigError::MalformedPatch),
    }
}

/// The argument patches of an array, read from position `i` on, or `None` at the first that is
/// not accepted.
pub open spec fn arg_patches_from(items: Seq<ConfigValue>, i: int) -> bool
    decreases items.len() - i,
{
    if i < 0 || i >= items.len() {
        true
    } else {
        let ok = match items[i] {
            ConfigValue::Table(fields) => match arg_patch_fields(fields@, 0, (None, None)) {
                Some((Some(_), Some(_))) => true,
                _ => false,
            },
            _ => false,
        };
        ok && arg_patches_from(items, i + 1)
    }
}

/// The patch that an accepted argument patch value stands for.
pub open spec fn spec_arg_patch(value: ConfigValue) -> (u32, String) {
    match value {
        ConfigValue::Table(fields) => match arg_patch_fields(fields@, 0, (None, None)) {
            Some((Some(a), Some(t))) => (a, t),
            _ => (0, arbitrary()),
        },
        _ => (0, arbitrary()),
    }
}

/// Reads an array of argument patches.
pub fn parse_arg_patches(value: &ConfigValue) -> (r: Result<Vec<ArgPatch>, ConfigError>)
    ensures
        match value {
            ConfigValue::Array(items) => {
                &&& arg_patches_from(items@, 0) <==> r is Ok
                &&& r matches Ok(ps) ==> ps@.len() == items@.len() && forall|j: int|
                    0 <= j < items@.len() ==> ((#[trigger] ps@[j]).arg_id, ps@[j].table)
                        == spec_arg_patch(items@[j])
            },
            _ => r matches Err(ConfigError::ExpectedArray),
        },
{
    let items = as_toml_array(value)?;
    let mut patches: Vec<ArgPatch> = Vec::new();
    let mut i: usize = 0;
    while i < items.len()
        invariant
            i <= items@.len(),
            *value == ConfigValue::Array(*items),
            patches@.len() == i,
            arg_patches_from(items@, 0) == arg_patches_from(items@, i as int),
            forall|j: int|
                0 <= j < i ==> ((#[trigger] patches@[j]).arg_id, patches@[j].table)
                    == spec_arg_patch(items@[j]),
        decreases items@.len() - i,
    {
        let p = match parse_arg_patch(&items[i]) {
            Ok(p) => p,
            Err(e) => {
                return Err(e);
            },
        };
        patches.push(p);
        i = i + 1;
    }
    Ok(patches)
}

// ——————————————————————————————— Functions ———————————————————————————————— //

/// The fields of a function declaration read from position `i` on (the module it comes from,
/// and the number of its argument patches), or `None` at the first that is not accepted.
pub open spec fn function_fields(items: Seq<(String, ConfigValue)>, i: int, from: Option<String>) -> Option<
    Option<String>,
>
    decreases items.len() - i,
{
    if i < 0 || i >= items.len() {
        Some(from)
    } else if items[i].0@ == "from"@ {
        match items[i].1 {
            ConfigValue::String(s) => function_fields(items, i + 1, Some(s)),
            _ => None,
        }
    } else if items[i].0@ == "patches"@ {
        match items[i].1 {
            ConfigValue::Array(a) => if arg_patches_from(a@, 0) {
                function_fields(items, i + 1, from)
            } else {
                None
            },
            _ => None,
        }
    } else {
        None
    }
}

/// The argument patch that an `ArgPatch` holds: its argument and the name of its table.
pub open spec fn patch_pairs(ps: Seq<ArgPatch>) -> Seq<(u32, String)> {
    ps.map_values(|p: ArgPatch| (p.arg_id, p.table))
}

/// The argument patches that the fields of a function declaration list, from position `i` on:
/// the entries of each `patches` array, in order.
pub open spec fn listed_patches(items: Seq<(String, ConfigValue)>, i: int) -> Seq<(u32, String)>
    decreases items.len() - i,
{
    if i < 0 || i >= items.len() {
        Seq::empty()
    } else {
        let here = if items[i].0@ == "patches"@ {
            match items[i].1 {
                ConfigValue::Array(a) => a@.map_values(|v: ConfigValue| spec_arg_patch(v)),
                _ => Seq::empty(),
            }
        } else {
            Seq::empty()
        };
        here + listed_patches(items, i + 1)
    }
}

proof fn lemma_listed_patches_single(items: Seq<(String, ConfigValue)>, i: int, at: int, a: Seq<ConfigValue>)
    requires
        0 <= i <= items.len(),
        0 <= at < items.len(),
        items[at].0@ == "patches"@,
        items[at].1 matches ConfigValue::Array(v) && v@ == a,
        forall|j: int| 0 <= j < items.len() && j != at ==> (#[trigger] items[j]).0@ != "patches"@,
    ensures
        listed_patches(items, i) == if i <= at { a.map_values(|v: ConfigValue| spec_arg_patch(v)) } else { Seq::empty() },
    decreases items.len() - i,
{
    if i < items.len() {
        lemma_listed_patches_single(items, i + 1, at, a);
        if i == at {
            assert(listed_patches(items, i) =~= a.map_values(|v: ConfigValue| spec_arg_patch(v)));
        } else {
            assert(items[i].0@ != "patches"@);
            assert(listed_patches(items, i) =~= listed_patches(items, i + 1));
        }
    }
}

/// A function declaration with a single `patches` array gets exactly the patches of that array,
/// in order: as many as it has entries, the `k`-th with the argument and table of the `k`-th
/// entry.
pub proof fn lemma_patches_of_one_array(items: Seq<(String, ConfigValue)>, at: int, a: Seq<ConfigValue>)
    requires
        0 <= at < items.len(),
        items[at].0@ == "patches"@,
        items[at].1 matches ConfigValue::Array(v) && v@ == a,
        forall|j: int| 0 <= j < items.len() && j != at ==> (#[trigger] items[j]).0@ != "patches"@,
    ensures
        listed_patches(items, 0).len() == a.len(),
        forall|k: int| 0 <= k < a.len() ==> match #[trigger] a[k] {
            ConfigValue::Table(fields) => match arg_patch_fields(fields@, 0, (None, None)) {
                Some((Some(arg), Some(table))) => listed_patches(items, 0)[k] == (arg, table),
                _ => true,
            },
            _ => true,
        },
{
    lemma_listed_patches_single(items, 0, at, a);
    assert forall|k: int| 0 <= k < a.len() implies match #[trigger] a[k] {
        ConfigValue::Table(fields) => match arg_patch_fields(fields@, 0, (None, None)) {
            Some((Some(arg), Some(table))) => listed_patches(items, 0)[k] == (arg, table),
            _ => true,
        },
        _ => true,
    } by {
        assert(listed_patches(items, 0)[k] == spec_arg_patch(a[k]));
    }
}

/// The argument patches of `f` are those that the fields of the declaration `entry` list.
pub open spec fn patches_listed(f: FunctionConfig, entry: (String, ConfigValue)) -> bool {
    match entry.1 {
        ConfigValue::Table(fields) => patch_pairs(arg_patches(f)) == listed_patches(fields@, 0),
        _ => false,
    }
}

/// The function declarations of a table, read from position `i` on: whether all are accepted
/// (each has the module it is imported from).
pub open spec fn functions_from(entries: Seq<(String, ConfigValue)>, i: int) -> bool
    decreases entries.len() - i,
{
    if i < 0 || i >= entries.len() {
        true
    } else {
        let ok = match entries[i].1 {
            ConfigValue::Table(items) => function_fields(items@, 0, None) matches Some(Some(_)),
            _ => false,
        };
        ok && functions_from(entries, i + 1)
    }
}

/// Reads the function declarations of a table: the name of each entry is the function's, its
/// fields are `from` and `patches`.
pub fn parse_function(value: &ConfigValue) -> (r: Result<Vec<FunctionConfig>, ConfigError>)
    ensures
        match value {
            ConfigValue::Table(entries) => {
                &&& functions_from(entries@, 0) <==> r is Ok
                &&& r matches Ok(fs) ==> function_ids(fs@)
                    == functions_spec(entries@)
                &&& r matches Ok(fs) ==> forall|j: int| 0 <= j < entries@.len() ==> patches_listed(#[trigger] fs@[j], entries@[j])
                &&& r matches Ok(fs) ==> fs@.len() == entries@.len() && forall|j: int|
                    0 <= j < entries@.len() ==> match #[trigger] fs@[j] {
                        FunctionConfig::Imported { from, name, .. } => name == entries@[j].0
                            && (match entries@[j].1 {
                            ConfigValue::Table(items) => function_fields(items@, 0, None)
                                == Some(Some(from)),
                            _ => false,
                        }),
                    }
            },
            _ => r matches Err(ConfigError::ExpectedTable),
        },
{
    let entries = as_toml_table(value)?;
    let mut functions: Vec<FunctionConfig> = Vec::new();
    let from_key = "from".to_owned();
    let patches_key = "patches".to_owned();
    let mut n: usize = 0;
    while n < entries.len()
        invariant
            n <= entries@.len(),
            *value == ConfigValue::Table(*entries),
            from_key@ == "from"@,
            patches_key@ == "patches"@,
            functions@.len() == n,
            functions_from(entries@, 0) == functions_from(entries@, n as int),
            forall|j: int|
                0 <= j < n ==> match #[trigger] functions@[j] {
                    FunctionConfig::Imported { from, name, .. } => name == entries@[j].0 && (
                    match entries@[j].1 {
                        ConfigValue::Table(items) => function_fields(items@, 0, None) == Some(
                            Some(from),
                        ),
                        _ => false,
                    }),
                },
            forall|j: int| 0 <= j < n ==> patches_listed(#[trigger] functions@[j], entries@[j]),
        decreases entries@.len() - n,
    {
        let (name, items) = &entries[n];
        let name = name.clone();
        let items = match as_toml_table(items) {
            Ok(t) => t,
            Err(e) => {
                return Err(e);
            },
        };
        let mut from: Option<String> = None;
        let mut patches: Vec<ArgPatch> = Vec::new();
        let mut i: usize = 0;
        while i < items.len()
            invariant
                i <= items@.len(),
                from_key@ == "from"@,
                patches_key@ == "patches"@,
                function_fields(items@, 0, None) == function_fields(items@, i as int, from),
                n < entries@.len(),
                *value == ConfigValue::Table(*entries),
                entries@[n as int].1 == ConfigValue::Table(*items),
                functions_from(entries@, 0) == functions_from(entries@, n as int),
                patch_pairs(patches@) + listed_patches(items@, i as int) == listed_patches(items@, 0),
            decreases items@.len() - i,
        {
            let (key, value) = &items[i];
            let ghost before = patches@;
            proof {
                reveal_strlit("from");
                reveal_strlit("patches");
            }
            if *key == from_key {
                from = Some(as_toml_string(value)?.clone());
                proof {
                    assert(key@ == "from"@);
                    assert("from"@.len() == 4 && "patches"@.len() == 7);
                    assert(items@[i as int].0@ != "patches"@);
                    assert(listed_patches(items@, i as int) =~= listed_patches(items@, i + 1));
                }
            } else if *key == patches_key {
                let mut more = parse_arg_patches(value)?;
                patches.append(&mut more);
                proof {
                    let added = patches@.skip(before.len() as int);
                    let a = match items@[i as int].1 {
                        ConfigValue::Array(a) => a@,
                        _ => Seq::empty(),
                    };
                    assert(patch_pairs(added) =~= a.map_values(|v: ConfigValue| spec_arg_patch(v)));
                    assert(patch_pairs(patches@) =~= patch_pairs(before) + patch_pairs(added));
                    assert(patch_pairs(patches@) + listed_patches(items@, i + 1) =~= patch_pairs(before)
                        + listed_patches(items@, i as int));
                }
            } else {
                return Err(ConfigError::UnexpectedFunctionField(key.clone()));
            }
            i = i + 1;
        }
        proof {
            assert(patch_pairs(patches@) + Seq::<(u32, String)>::empty() =~= patch_pairs(patches@));
        }
        match from {
            Some(from) => {
                let ghost ps = patches@;
                let ghost old_functions = functions@;
                functions.push(FunctionConfig::Imported { from, name, patches });
                proof {
                    assert(arg_patches(functions@[n as int]) == ps);
                    assert(entries@[n as int].1 == ConfigValue::Table(*items));
                    assert(patch_pairs(ps) == listed_patches(items@, 0));
                    assert forall|j: int| 0 <= j < n + 1 implies patches_listed(#[trigger] functions@[j], entries@[j]) by {
                        if j < n {
                            assert(functions@[j] == old_functions[j]);
                        }
                    }
                    assert forall|j: int| 0 <= j < n + 1 implies match #[trigger] functions@[j] {
                        FunctionConfig::Imported { from, name, .. } => name == entries@[j].0 && (
                        match entries@[j].1 {
                            ConfigValue::Table(items) => function_fields(items@, 0, None) == Some(
                                Some(from),
                            ),
                            _ => false,
                        }),
                    } by {
                        if j < n {
                            assert(functions@[j] == old_functions[j]);
                        }
                    }
                }
            },
            None => {
                return Err(ConfigError::OnlyImportedFunctions);
            },
        }
        n = n + 1;
    }
    proof {
        lemma_function_ids(functions@, entries@);
    }
    Ok(functions)
}

// ————————————————————————————————— Tables ————————————————————————————————— //

/// The fields of a table declaration read so far: module, name, minimal and maximal sizes.
pub type TableFields = (Option<String>, Option<String>, Option<u32>, Option<u32>);

/// The fields of a table declaration read from position `i` on, or `None` at the first field
/// that is not accepted.
pub open spec fn table_fields(items: Seq<(String, ConfigValue)>, i: int, acc: TableFields) -> Option<
    TableFields,
>
    decreases items.len() - i,
{
    if i < 0 || i >= items.len() {
        Some(acc)
    } else {
        let (from, name, min, max) = acc;
        let v = items[i].1;
        let next: Option<TableFields> = if items[i].0@ == "from"@ {
            match v {
                ConfigValue::String(s) => Some((Some(s), name, min, max)),
                _ => None,
            }
        } else if items[i].0@ == "name"@ {
            match v {
                ConfigValue::String(s) => Some((from, Some(s), min, max)),
                _ => None,
            }
        } else if items[i].0@ == "min_size"@ {
            match spec_as_int(v) {
                Ok(x) => Some((from, name, Some(x), max)),
                Err(_) => None,
            }
        } else if items[i].0@ == "max_size"@ {
            match spec_as_int(v) {
                Ok(x) => Some((from, name, min, Some(x))),
                Err(_) => None,
            }
        } else {
            None
        };
        match next {
            None => None,
            Some(a) => table_fields(items, i + 1, a),
        }
    }
}

/// The table that the fields declare: imported where both the module and the name are given,
/// owned otherwise.
pub open spec fn table_of(fields: TableFields) -> TableConfig {
    let (from, name, min, max) = fields;
    match (name, from) {
        (Some(name), Some(from)) => TableConfig::Imported {
            from,
            name,
            min_size: min->0,
            max_size: max,
        },
        _ => TableConfig::Owned { min_size: min->0, max_size: max },
    }
}

/// The tables that the entries of an accepted table of declarations declare, by name.
pub open spec fn tables_spec(entries: Seq<(String, ConfigValue)>) -> Seq<(String, TableConfig)> {
    Seq::new(
        entries.len(),
        |j: int|
            (
                entries[j].0,
                match entries[j].1 {
                    ConfigValue::Table(items) => table_of(
                        table_fields(items@, 0, (None, None, None, None))->0,
                    ),
                    _ => TableConfig::Owned { min_size: 0, max_size: None },
                },
            ),
    )
}

/// The table declarations of a table, read from position `i` on: whether all are accepted (each
/// has its fields accepted and a minimal size).
pub open spec fn tables_from(entries: Seq<(String, ConfigValue)>, i: int) -> bool
    decreases entries.len() - i,
{
    if i < 0 || i >= entries.len() {
        true
    } else {
        let ok = match entries[i].1 {
            ConfigValue::Table(items) => table_fields(items@, 0, (None, None, None, None)) matches Some(
                f,
            ) && f.2 is Some,
            _ => false,
        };
        ok && tables_from(entries, i + 1)
    }
}

/// Reads the table declarations of a table: the name of each entry is the table's, its fields
/// are `from`, `name`, `min_size` and `max_size`.
pub fn parse_tables(values: &ConfigValue) -> (r: Result<Vec<(String, TableConfig)>, ConfigError>)
    ensures
        match values {
            ConfigValue::Table(entries) => {
                &&& tables_from(entries@, 0) <==> r is Ok
                &&& r matches Ok(ts) ==> ts@ == tables_spec(entries@)
                &&& r matches Ok(ts) ==> ts@.len() == entries@.len() && forall|j: int|
                    0 <= j < entries@.len() ==> (#[trigger] ts@[j]).0 == entries@[j].0 && (
                    match entries@[j].1 {
                        ConfigValue::Table(items) => table_fields(
                            items@,
                            0,
                            (None, None, None, None),
                        ) matches Some(f) && ts@[j].1 == table_of(f),
                        _ => false,
                    })
            },
            _ => r matches Err(ConfigError::ExpectedTable),
        },
{
    let entries = as_toml_table(values)?;
    let mut tables: Vec<(String, TableConfig)> = Vec::new();
    let from_key = "from".to_owned();
    let name_key = "name".to_owned();
    let min_key = "min_size".to_owned();
    let max_key = "max_size".to_owned();
    let mut n: usize = 0;
    while n < entries.len()
        invariant
            n <= entries@.len(),
            *values == ConfigValue::Table(*entries),
            from_key@ == "from"@,
            name_key@ == "name"@,
            min_key@ == "min_size"@,
            max_key@ == "max_size"@,
            tables@.len() == n,
            tables_from(entries@, 0) == tables_from(entries@, n as int),
            forall|j: int|
                0 <= j < n ==> (#[trigger] tables@[j]).0 == entries@[j].0 && (match entries@[j].1 {
                    ConfigValue::Table(items) => table_fields(
                        items@,
                        0,
                        (None, None, None, None),
                    ) matches Some(f) && tables@[j].1 == table_of(f),
                    _ => false,
                }),
        decreases entries@.len() - n,
    {
        let (table_name, items) = &entries[n];
        let items = match as_toml_table(items) {
            Ok(t) => t,
            Err(e) => {
                return Err(e);
            },
        };
        let mut from: Option<String> = None;
        let mut name: Option<String> = None;
        let mut min_size: Option<u32> = None;
        let mut max_size: Option<u32> = None;
        let mut i: usize = 0;
        while i < items.len()
            invariant
                i <= items@.len(),
                from_key@ == "from"@,
                name_key@ == "name"@,
                min_key@ == "min_size"@,
                max_key@ == "max_size"@,
                table_fields(items@, 0, (None, None, None, None)) == table_fields(
                    items@,
                    i as int,
                    (from, name, min_size, max_size),
                ),
                n < entries@.len(),
                *values == ConfigValue::Table(*entries),
                entries@[n as int].1 == ConfigValue::Table(*items),
                tables_from(entries@, 0) == tables_from(entries@, n as int),
            decreases items@.len() - i,
        {
            let (key, value) = &items[i];
            if *key == from_key {
                from = Some(as_toml_string(value)?.clone());
            } else if *key == name_key {
                name = Some(as_toml_string(value)?.clone());
            } else if *key == min_key {
                min_size = Some(as_toml_int(value)?);
            } else if *key == max_key {
                max_size = Some(as_toml_int(value)?);
            } else {
                return Err(ConfigError::UnexpectedTableField(key.clone()));
            }
            i = i + 1;
        }
        let min = match min_size {
            Some(size) => size,
            None => {
                return Err(ConfigError::MissingMinSize(table_name.clone()));
            },
        };
        let table = match (name, from) {
            (Some(name), Some(from)) => TableConfig::Imported {
                from,
                name,
                min_size: min,
                max_size,
            },
            _ => TableConfig::Owned { min_size: min, max_size },
        };
        tables.push((table_name.clone(), table));
        n = n + 1;
    }
    assert(tables@ =~= tables_spec(entries@));
    Ok(tables)
}

/// The module and name of each function that the entries of an accepted table of declarations
/// declare.
pub open spec fn functions_spec(entries: Seq<(String, ConfigValue)>) -> Seq<(String, String)> {
    Seq::new(
        entries.len(),
        |j: int|
            (
                match entries[j].1 {
                    ConfigValue::Table(items) => function_fields(items@, 0, None)->0->0,
                    _ => arbitrary(),
                },
                entries[j].0,
            ),
    )
}

/// The module and name of a function declaration.
pub open spec fn function_id(f: FunctionConfig) -> (String, String) {
    match f {
        FunctionConfig::Imported { from, name, .. } => (from, name),
    }
}

/// The functions read from accepted declarations have the modules and names that the
/// declarations give.
proof fn lemma_function_ids(functions: Seq<FunctionConfig>, entries: Seq<(String, ConfigValue)>)
    requires
        functions.len() == entries.len(),
        forall|j: int|
            0 <= j < entries.len() ==> match #[trigger] functions[j] {
                FunctionConfig::Imported { from, name, .. } => name == entries[j].0 && (
                match entries[j].1 {
                    ConfigValue::Table(items) => function_fields(items@, 0, None) == Some(
                        Some(from),
                    ),
                    _ => false,
                }),
            },
    ensures
        function_ids(functions) == functions_spec(entries),
{
    assert forall|j: int| 0 <= j < entries.len() implies function_ids(functions)[j]
        == functions_spec(entries)[j] by {
        let f = functions[j];
        match f {
            FunctionConfig::Imported { from, name, .. } => {
                match entries[j].1 {
                    ConfigValue::Table(items) => {
                        assert(function_fields(items@, 0, None) == Some(Some(from)));
                    },
                    _ => {},
                }
            },
        }
    }
    assert(function_ids(functions) =~= functions_spec(entries));
}

/// The module and name of each function declaration.
pub open spec fn function_ids(fs: Seq<FunctionConfig>) -> Seq<(String, String)> {
    Seq::new(fs.len(), |j: int| function_id(fs[j]))
}

/// A top-level entry is accepted: tables or functions, themselves accepted.
pub open spec fn config_entry_ok(entry: (String, ConfigValue)) -> bool {
    if entry.0@ == "table"@ || entry.0@ == "tables"@ {
        entry.1 matches ConfigValue::Table(t) && tables_from(t@, 0)
    } else if entry.0@ == "function"@ || entry.0@ == "functions"@ {
        entry.1 matches ConfigValue::Table(t) && functions_from(t@, 0)
    } else {
        false
    }
}

/// The tables that the top-level entries declare, from position `i` on.
pub open spec fn config_tables(entries: Seq<(String, ConfigValue)>, i: int) -> Seq<(String, TableConfig)>
    decreases entries.len() - i,
{
    if i < 0 || i >= entries.len() {
        Seq::empty()
    } else {
        let here = if entries[i].0@ == "table"@ || entries[i].0@ == "tables"@ {
            match entries[i].1 {
                ConfigValue::Table(t) => tables_spec(t@),
                _ => Seq::empty(),
            }
        } else {
            Seq::empty()
        };
        here + config_tables(entries, i + 1)
    }
}

/// The module and name of the functions that the top-level entries declare, from position `i`
/// on.
pub open spec fn config_functions(entries: Seq<(String, ConfigValue)>, i: int) -> Seq<(String, String)>
    decreases entries.len() - i,
{
    if i < 0 || i >= entries.len() {
        Seq::empty()
    } else {
        let here = if entries[i].0@ == "function"@ || entries[i].0@ == "functions"@ {
            match entries[i].1 {
                ConfigValue::Table(t) => functions_spec(t@),
                _ => Seq::empty(),
            }
        } else {
            Seq::empty()
        };
        here + config_functions(entries, i + 1)
    }
}

/// A configuration with an entry that is not accepted is not accepted.
proof fn lemma_not_all_ok(file: &ConfigValue, i: int)
    requires
        file matches ConfigValue::Table(entries) && 0 <= i < entries@.len() && !config_entry_ok(
            entries@[i],
        ),
    ensures
        match file {
            ConfigValue::Table(entries) => !(forall|j: int|
                0 <= j < entries@.len() ==> config_entry_ok(#[trigger] entries@[j])),
            _ => false,
        },
{
}

/// What reading a configuration from the document `file` gives: a configuration where every
/// top-level entry is accepted, with the tables and functions they declare.
pub open spec fn config_result(file: ConfigValue, r: Result<PatchConfig, ConfigError>) -> bool {
    match file {
        ConfigValue::Table(entries) => {
            &&& (forall|j: int| 0 <= j < entries@.len() ==> config_entry_ok(#[trigger] entries@[j]))
                <==> r is Ok
            &&& r matches Ok(c) ==> c.tables@ == config_tables(entries@, 0)
                && function_ids(c.functions@)
                == config_functions(entries@, 0)
        },
        _ => r matches Err(ConfigError::NotATable),
    }
}

/// Reads a configuration: a table whose entries `table` (or `tables`) declare tables and
/// `function` (or `functions`) declare functions.
pub fn parse_config(file: &ConfigValue) -> (r: Result<PatchConfig, ConfigError>)
    ensures
        config_result(*file, r),
{
    let entries = match file {
        ConfigValue::Table(t) => t,
        _ => {
            return Err(ConfigError::NotATable);
        },
    };
    proof {
        reveal_strlit("table");
        reveal_strlit("tables");
        reveal_strlit("function");
        reveal_strlit("functions");
    }
    let table_key = "table".to_owned();
    let tables_key = "tables".to_owned();
    let function_key = "function".to_owned();
    let functions_key = "functions".to_owned();
    let mut tables: Vec<(String, TableConfig)> = Vec::new();
    let mut functions: Vec<FunctionConfig> = Vec::new();
    let mut i: usize = 0;
    while i < entries.len()
        invariant
            i <= entries@.len(),
            *file == ConfigValue::Table(*entries),
            table_key@ == "table"@,
            tables_key@ == "tables"@,
            function_key@ == "function"@,
            functions_key@ == "functions"@,
            forall|j: int| 0 <= j < i ==> config_entry_ok(#[trigger] entries@[j]),
            tables@ + config_tables(entries@, i as int) == config_tables(entries@, 0),
            function_ids(functions@) + config_functions(
                entries@,
                i as int,
            ) == config_functions(entries@, 0),
        decreases entries@.len() - i,
    {
        let (key, value) = &entries[i];
        let ghost fs_before = functions@;
        let ghost ts_before = tables@;
        proof {
            reveal_strlit("table");
            reveal_strlit("tables");
            reveal_strlit("function");
            reveal_strlit("functions");
        }
        if *key == table_key || *key == tables_key {
            let mut more = match parse_tables(value) {
                Ok(t) => t,
                Err(e) => {
                    assert(!config_entry_ok(entries@[i as int]));
                    proof {
                        lemma_not_all_ok(file, i as int);
                    }
                    return Err(e);
                },
            };
            tables.append(&mut more);
            proof {
                assert(key@ == "table"@ || key@ == "tables"@);
                assert(entries@[i as int].0 == *key);
                assert("table"@.len() == 5);
                assert("tables"@.len() == 6);
                assert("function"@.len() == 8);
                assert("functions"@.len() == 9);
                assert(!(key@ == "function"@ || key@ == "functions"@));
                assert(config_functions(entries@, i as int) == config_functions(entries@, i + 1));
                assert(tables@ + config_tables(entries@, i + 1) =~= ts_before + config_tables(
                    entries@,
                    i as int,
                ));
                assert(function_ids(functions@) + config_functions(entries@, i + 1)
                    =~= function_ids(fs_before) + config_functions(entries@, i as int));
            }
        } else if *key == function_key || *key == functions_key {
            let mut more = match parse_function(value) {
                Ok(f) => f,
                Err(e) => {
                    assert(!config_entry_ok(entries@[i as int]));
                    proof {
                        lemma_not_all_ok(file, i as int);
                    }
                    return Err(e);
                },
            };
            functions.append(&mut more);
            proof {
                assert(tables@ + config_tables(entries@, i + 1) =~= ts_before + config_tables(
                    entries@,
                    i as int,
                ));
                assert(function_ids(functions@) + config_functions(entries@, i + 1)
                    =~= function_ids(fs_before) + config_functions(entries@, i as int));
            }
        } else {
            assert(!config_entry_ok(entries@[i as int]));
            proof {
                lemma_not_all_ok(file, i as int);
            }
            return Err(ConfigError::InvalidTomlTable(key.clone()));
        }
        i = i + 1;
    }
    proof {
        assert(tables@ + Seq::<(String, TableConfig)>::empty() =~= tables@);
        assert(function_ids(functions@) + Seq::<(String, String)>::empty()
            =~= function_ids(functions@));
    }
    Ok(PatchConfig { tables, functions })
}

// ———————————————————————————— The patch file ———————————————————————————— //

/// The document that toml reads from `text`, or `None` where `text` is not a TOML document.
pub uninterp spec fn toml_document(text: Seq<char>) -> Option<ConfigValue>;

#[verifier::external_type_specification]
#[verifier::external_body]
pub struct ExTomlValue(toml::Value);

/// toml's `Value::from_str` (`text.parse::<toml::Value>()`): reads a TOML document, or fails
/// where `text` is not one. The document comes back as a `ConfigValue`, variant for variant,
/// each table listing its entries in key order as toml's `BTreeMap` holds them. The contract
/// names the result: it depends on `text` alone, and what it is for a given text is not stated.
#[verifier::external_body]
fn toml_parse(text: &str) -> (r: Option<ConfigValue>)
    ensures
        r == toml_document(text@),
{
    match text.parse::<toml::Value>() {
        Ok(value) => Some(toml_config_value(&value)),
        Err(_) => None,
    }
}

/// Turns a toml `Value` into a `ConfigValue`, one variant for the other; floats and dates keep
/// no payload. Only `toml_parse` calls it, on the value that toml read.
#[verifier::external_body]
fn toml_config_value(value: &toml::Value) -> ConfigValue {
    match value {
        toml::Value::String(s) => ConfigValue::String(s.clone()),
        toml::Value::Integer(i) => ConfigValue::Integer(*i),
        toml::Value::Float(_) => ConfigValue::Float,
        toml::Value::Boolean(b) => ConfigValue::Boolean(*b),
        toml::Value::Datetime(_) => ConfigValue::Datetime,
        toml::Value::Array(items) => {
            ConfigValue::Array(items.iter().map(toml_config_value).collect())
        },
        toml::Value::Table(t) => {
            ConfigValue::Table(t.iter().map(|(k, v)| (k.clone(), toml_config_value(v))).collect())
        },
    }
}

/// Reads the configuration that the text of a patch file holds: the TOML document, then the
/// configuration in it.
pub fn parse_patch_text(text: &str) -> (r: Result<PatchConfig, ConfigError>)
    ensures
        match toml_document(text@) {
            Some(file) => config_result(file, r),
            None => r matches Err(ConfigError::InvalidToml),
        },
{
    match toml_parse(text) {
        Some(file) => parse_config(&file),
        None => Err(ConfigError::InvalidToml),
    }
}

// ——————————————————————— Registration of the patches ——————————————————————— //

/// The table declared last under `name` among `ids`, if any.
pub open spec fn table_named(ids: Seq<(String, Table)>, name: Seq<char>) -> Option<Table>
    decreases ids.len(),
{
    if ids.len() == 0 {
        None
    } else if ids.last().0@ == name {
        Some(ids.last().1)
    } else {
        table_named(ids.drop_last(), name)
    }
}

/// The arguments of a function patch with their tables, or the name of the first table that is
/// not declared.
pub open spec fn resolved_args(patches: Seq<ArgPatch>, ids: Seq<(String, Table)>) -> Result<Seq<(u32, Table)>, Seq<char>>
    decreases patches.len(),
{
    if patches.len() == 0 {
        Ok(Seq::empty())
    } else {
        match resolved_args(patches.drop_last(), ids) {
            Err(name) => Err(name),
            Ok(args) => match table_named(ids, patches.last().table@) {
                None => Err(patches.last().table@),
                Some(t) => Ok(args.push((patches.last().arg_id, t))),
            },
        }
    }
}

/// The import that a function patch applies to.
pub open spec fn patch_key(f: FunctionConfig) -> (Seq<char>, Seq<char>) {
    match f {
        FunctionConfig::Imported { from, name, .. } => (from@, name@),
    }
}

/// The argument patches of a function patch.
pub open spec fn arg_patches(f: FunctionConfig) -> Seq<ArgPatch> {
    match f {
        FunctionConfig::Imported { patches, .. } => patches@,
    }
}

/// The position of the last of the first `n` function patches that applies to `key`, if any.
pub open spec fn last_for(fs: Seq<FunctionConfig>, key: (Seq<char>, Seq<char>), n: int) -> Option<int>
    decreases n,
{
    if n <= 0 || n > fs.len() {
        None
    } else if patch_key(fs[n - 1]) == key {
        Some(n - 1)
    } else {
        last_for(fs, key, n - 1)
    }
}

/// The patch changes exactly the arguments `args`.
pub open spec fn patch_has_args(p: Patch, args: Seq<(u32, Table)>) -> bool {
    match p {
        Patch::ImportedFunc(q) => q.spec_args() == args,
    }
}

/// What `after` holds for `key`, after the first `n` function patches are registered on
/// `before`: the last patch for `key`, with its arguments sorted, or what `before` held.
pub open spec fn key_registered(
    before: Map<(Seq<char>, Seq<char>), Patch>,
    after: Map<(Seq<char>, Seq<char>), Patch>,
    fs: Seq<FunctionConfig>,
    ids: Seq<(String, Table)>,
    n: int,
    key: (Seq<char>, Seq<char>),
) -> bool {
    match last_for(fs, key, n) {
        Some(j) => after.contains_key(key) && patch_has_args(
            after[key],
            sort_by_index(resolved_args(arg_patches(fs[j]), ids)->Ok_0),
        ),
        None => after.contains_key(key) == before.contains_key(key) && (before.contains_key(key) ==> after[key]
            == before[key]),
    }
}

/// `after` is `before` with the first `n` function patches registered, in order.
pub open spec fn registered_as(
    before: Map<(Seq<char>, Seq<char>), Patch>,
    after: Map<(Seq<char>, Seq<char>), Patch>,
    fs: Seq<FunctionConfig>,
    ids: Seq<(String, Table)>,
    n: int,
) -> bool {
    forall|key: (Seq<char>, Seq<char>)| #[trigger] key_registered(before, after, fs, ids, n, key)
}

/// The position of the first function patch that names an undeclared table, if any.
pub open spec fn first_unresolved(fs: Seq<FunctionConfig>, ids: Seq<(String, Table)>, i: int) -> Option<int>
    decreases fs.len() - i,
{
    if i < 0 || i >= fs.len() {
        None
    } else if resolved_args(arg_patches(fs[i]), ids) is Err {
        Some(i)
    } else {
        first_unresolved(fs, ids, i + 1)
    }
}

/// The table declared last under `name`.
fn find_table(ids: &[(String, Table)], name: &String) -> (r: Option<Table>)
    ensures
        r == table_named(ids@, name@),
{
    let mut i = ids.len();
    proof {
        assert(ids@.take(i as int) =~= ids@);
    }
    while i > 0
        invariant
            i <= ids@.len(),
            table_named(ids@.take(i as int), name@) == table_named(ids@, name@),
        decreases i,
    {
        proof {
            let t = ids@.take(i as int);
            assert(t.drop_last() =~= ids@.take(i - 1));
        }
        if ids[i - 1].0 == *name {
            return Some(ids[i - 1].1);
        }
        i = i - 1;
    }
    proof {
        assert(ids@.take(0) =~= Seq::<(String, Table)>::empty());
    }
    None
}

/// Registers the patch of each function, in order: each argument patch makes its argument a
/// handle in the table declared under its name (the last one, if several are). The first
/// argument patch whose table is not declared is an error; the patches of the functions before
/// it stay registered.
pub fn register_function_patches(functions: &[FunctionConfig], table_ids: &[(String, Table)], patches: &mut PatchSet) -> (r: Result<(), ConfigError>)
    ensures
        match first_unresolved(functions@, table_ids@, 0) {
            None => r is Ok && registered_as(old(patches).spec_patches(), final(patches).spec_patches(), functions@, table_ids@, functions@.len() as int),
            Some(k) => r matches Err(ConfigError::UnknownTable(name)) && Err::<Seq<(u32, Table)>, Seq<char>>(name@)
                == resolved_args(arg_patches(functions@[k]), table_ids@) && registered_as(
                old(patches).spec_patches(),
                final(patches).spec_patches(),
                functions@,
                table_ids@,
                k,
            ),
        },
{
    let mut i: usize = 0;
    while i < functions.len()
        invariant
            0 <= i <= functions@.len(),
            first_unresolved(functions@, table_ids@, 0) == first_unresolved(functions@, table_ids@, i as int),
            registered_as(old(patches).spec_patches(), patches.spec_patches(), functions@, table_ids@, i as int),
        decreases functions@.len() - i,
    {
        match &functions[i] {
            FunctionConfig::Imported { from, name, patches: arg_list } => {
                let mut builder = ImportedFuncPatch::new();
                let mut k: usize = 0;
                while k < arg_list.len()
                    invariant
                        0 <= k <= arg_list@.len(),
                        i < functions@.len(),
                        arg_patches(functions@[i as int]) == arg_list@,
                        first_unresolved(functions@, table_ids@, 0) == first_unresolved(functions@, table_ids@, i as int),
                        registered_as(old(patches).spec_patches(), patches.spec_patches(), functions@, table_ids@, i as int),
                        resolved_args(arg_list@.take(k as int), table_ids@) == Ok::<Seq<(u32, Table)>, Seq<char>>(
                            builder.spec_args(),
                        ),
                    decreases arg_list@.len() - k,
                {
                    proof {
                        let t = arg_list@.take(k + 1);
                        assert(t.drop_last() =~= arg_list@.take(k as int));
                    }
                    let table = find_table(table_ids, &arg_list[k].table);
                    match table {
                        None => {
                            proof {
                                lemma_resolved_args_err(arg_list@, table_ids@, k as int);
                                lemma_first_unresolved_at(functions@, table_ids@, i as int);
                            }
                            return Err(ConfigError::UnknownTable(arg_list[k].table.clone()));
                        },
                        Some(t) => builder.replace_with_handle(arg_list[k].arg_id, t),
                    }
                    k = k + 1;
                }
                proof {
                    assert(arg_list@.take(k as int) =~= arg_list@);
                }
                let ghost before = patches.spec_patches();
                patches.register_patch(from.as_str(), name.as_str(), builder.as_patch());
                proof {
                    let fs = functions@;
                    assert(resolved_args(arg_patches(fs[i as int]), table_ids@) is Ok);
                    assert(first_unresolved(fs, table_ids@, i as int) == first_unresolved(fs, table_ids@, i + 1));
                    assert forall|key: (Seq<char>, Seq<char>)| #[trigger] key_registered(
                        old(patches).spec_patches(), patches.spec_patches(), fs, table_ids@, i + 1, key) by {
                        assert(key_registered(old(patches).spec_patches(), before, fs, table_ids@, i as int, key));
                    }
                }
            },
        }
        i = i + 1;
    }
    Ok(())
}

proof fn lemma_resolved_args_err(patches: Seq<ArgPatch>, ids: Seq<(String, Table)>, k: int)
    requires
        0 <= k < patches.len(),
        resolved_args(patches.take(k), ids) is Ok,
        table_named(ids, patches[k].table@) is None,
    ensures
        resolved_args(patches, ids) == Err::<Seq<(u32, Table)>, Seq<char>>(patches[k].table@),
    decreases patches.len() - k,
{
    let t = patches.take(k + 1);
    assert(t.drop_last() =~= patches.take(k));
    if k + 1 < patches.len() {
        let p2 = patches.take(patches.len() - 1);
        assert(p2.take(k) =~= patches.take(k));
        assert(p2[k] == patches[k]);
        lemma_resolved_args_err(p2, ids, k);
        assert(patches.drop_last() =~= p2);
    } else {
        assert(patches.drop_last() =~= patches.take(k));
    }
}

proof fn lemma_first_unresolved_at(fs: Seq<FunctionConfig>, ids: Seq<(String, Table)>, i: int)
    requires
        0 <= i < fs.len(),
        resolved_args(arg_patches(fs[i]), ids) is Err,
    ensures
        first_unresolved(fs, ids, i) == Some(i),
{
}

} // verus!
