//! Linking of WebAssembly modules: the imports of a base module that a linked module provides
//! are resolved to the linked module's entities (merged into the base module beforehand), and
//! removed.

use vstd::prelude::*;

use crate::wasm_ir::{
    function_wf, patched_function, renamed, IdMap, LocalFunction, Patch,
};

verus! {

/// What an import imports.
#[derive(Clone, Copy, Debug, PartialEq, Eq, Structural)]
pub enum ImportKind {
    Function(u32),
    Table(u32),
    Memory(u32),
    Global(u32),
}

/// An import: its id, the module and name it is imported from, and what it imports.
pub struct Import {
    pub id: u32,
    pub module: String,
    pub name: String,
    pub kind: ImportKind,
}

/// What an export exports.
#[derive(Clone, Copy, Debug, PartialEq, Eq, Structural)]
pub enum ExportItem {
    Function(u32),
    Table(u32),
    Memory(u32),
    Global(u32),
}

/// An export: its name, and what it exports.
pub struct Export {
    pub name: String,
    pub item: ExportItem,
}

/// A function of a module: imported (of a type), or defined by the module.
pub enum Function {
    Imported(u32),
    Local(LocalFunction),
}

/// The state of a link: where each entity of the linked module went in the base module, the
/// imports that the linked module brought, and the name under which it is linked.
pub struct Linker {
    pub globals_map: IdMap,
    pub tables_map: IdMap,
    pub funcs_map: IdMap,
    pub types_map: IdMap,
    pub locals_map: IdMap,
    pub memories_map: IdMap,
    pub data_map: IdMap,
    pub elements_map: IdMap,
    pub linkee_imports: Vec<u32>,
    pub linkee_name: String,
}

/// The position of the first export named `name`, if any.
pub open spec fn first_export(exports: Seq<Export>, name: Seq<char>, i: int) -> Option<int>
    decreases exports.len() - i,
{
    if i < 0 || i >= exports.len() {
        None
    } else if exports[i].name@ == name {
        Some(i)
    } else {
        first_export(exports, name, i + 1)
    }
}

/// The import comes from the linked module under its name, and not with it.
pub open spec fn is_resolved(l: Linker, imp: Import) -> bool {
    &&& !l.linkee_imports@.contains(imp.id)
    &&& imp.module@ == l.linkee_name@
}

/// The entity of the base module that an import resolves to: the linked module's export of the
/// same name and kind, where the link put it.
pub open spec fn resolution_target(l: Linker, imp: Import, exports: Seq<Export>) -> Option<u32> {
    match first_export(exports, imp.name@, 0) {
        None => None,
        Some(e) => match (imp.kind, exports[e].item) {
            (ImportKind::Function(_), ExportItem::Function(f)) => if l.funcs_map@.contains_key(f) {
                Some(l.funcs_map@[f])
            } else {
                None
            },
            (ImportKind::Table(_), ExportItem::Table(t)) => if l.tables_map@.contains_key(t) {
                Some(l.tables_map@[t])
            } else {
                None
            },
            (ImportKind::Memory(_), ExportItem::Memory(m)) => if l.memories_map@.contains_key(m) {
                Some(l.memories_map@[m])
            } else {
                None
            },
            (ImportKind::Global(_), ExportItem::Global(g)) => if l.globals_map@.contains_key(g) {
                Some(l.globals_map@[g])
            } else {
                None
            },
            _ => None,
        },
    }
}

/// The patch makes the given renamings of functions, tables, memories and globals.
pub open spec fn renames_as(
    p: Patch,
    r: (Map<u32, u32>, Map<u32, u32>, Map<u32, u32>, Map<u32, u32>),
) -> bool {
    &&& p.spec_funcs() == r.0
    &&& p.spec_tables() == r.1
    &&& p.spec_memories() == r.2
    &&& p.spec_globs() == r.3
}

/// Every import that comes from the linked module resolves.
pub open spec fn resolvable(l: Linker, imports: Seq<Import>, exports: Seq<Export>) -> bool {
    forall|i: int|
        0 <= i < imports.len() && is_resolved(l, #[trigger] imports[i]) ==> resolution_target(
            l,
            imports[i],
            exports,
        ) is Some
}

/// The renamings (functions, tables, memories, globals) that resolving the first `n` imports
/// makes.
pub open spec fn renamings(l: Linker, imports: Seq<Import>, exports: Seq<Export>, n: int) -> (
    Map<u32, u32>,
    Map<u32, u32>,
    Map<u32, u32>,
    Map<u32, u32>,
)
    decreases n,
{
    if n <= 0 || n > imports.len() {
        (Map::empty(), Map::empty(), Map::empty(), Map::empty())
    } else {
        let (f, t, m, g) = renamings(l, imports, exports, n - 1);
        let imp = imports[n - 1];
        if !is_resolved(l, imp) {
            (f, t, m, g)
        } else {
            let target = resolution_target(l, imp, exports)->0;
            match imp.kind {
                ImportKind::Function(id) => (f.insert(id, target), t, m, g),
                ImportKind::Table(id) => (f, t.insert(id, target), m, g),
                ImportKind::Memory(id) => (f, t, m.insert(id, target), g),
                ImportKind::Global(id) => (f, t, m, g.insert(id, target)),
            }
        }
    }
}

/// The ids of the imports, among the first `n`, that are resolved.
pub open spec fn resolved_ids(l: Linker, imports: Seq<Import>, n: int) -> Seq<u32>
    decreases n,
{
    if n <= 0 || n > imports.len() {
        Seq::empty()
    } else if is_resolved(l, imports[n - 1]) {
        resolved_ids(l, imports, n - 1).push(imports[n - 1].id)
    } else {
        resolved_ids(l, imports, n - 1)
    }
}

impl Linker {
    /// A link under the given name, with nothing merged yet.
    pub fn new(linkee_name: String) -> (r: Self)
        ensures
            r.linkee_name == linkee_name,
            r.linkee_imports@.len() == 0,
            r.funcs_map@ == Map::<u32, u32>::empty(),
            r.globals_map@ == Map::<u32, u32>::empty(),
            r.tables_map@ == Map::<u32, u32>::empty(),
            r.memories_map@ == Map::<u32, u32>::empty(),
            r.types_map@ == Map::<u32, u32>::empty(),
            r.locals_map@ == Map::<u32, u32>::empty(),
            r.data_map@ == Map::<u32, u32>::empty(),
            r.elements_map@ == Map::<u32, u32>::empty(),
    {
        Linker {
            globals_map: IdMap::new(),
            tables_map: IdMap::new(),
            funcs_map: IdMap::new(),
            types_map: IdMap::new(),
            locals_map: IdMap::new(),
            memories_map: IdMap::new(),
            data_map: IdMap::new(),
            elements_map: IdMap::new(),
            linkee_imports: Vec::new(),
            linkee_name,
        }
    }

    /// Where the linked module's function `id` went.
    pub fn new_func_id(&self, id: u32) -> (r: u32)
        requires
            self.funcs_map@.contains_key(id),
        ensures
            r == self.funcs_map@[id],
    {
        self.funcs_map.get(id).unwrap()
    }

    /// Where the linked module's global `id` went.
    pub fn new_global_id(&self, id: u32) -> (r: u32)
        requires
            self.globals_map@.contains_key(id),
        ensures
            r == self.globals_map@[id],
    {
        self.globals_map.get(id).unwrap()
    }

    /// Where the linked module's table `id` went.
    pub fn new_table_id(&self, id: u32) -> (r: u32)
        requires
            self.tables_map@.contains_key(id),
        ensures
            r == self.tables_map@[id],
    {
        self.tables_map.get(id).unwrap()
    }

    /// Where the linked module's memory `id` went.
    pub fn new_mem_id(&self, id: u32) -> (r: u32)
        requires
            self.memories_map@.contains_key(id),
        ensures
            r == self.memories_map@[id],
    {
        self.memories_map.get(id).unwrap()
    }

    /// Where the linked module's type `id` went.
    pub fn new_type_id(&self, id: u32) -> (r: u32)
        requires
            self.types_map@.contains_key(id),
        ensures
            r == self.types_map@[id],
    {
        self.types_map.get(id).unwrap()
    }

    /// Where the linked module's local `id` went.
    pub fn new_local_id(&self, id: u32) -> (r: u32)
        requires
            self.locals_map@.contains_key(id),
        ensures
            r == self.locals_map@[id],
    {
        self.locals_map.get(id).unwrap()
    }

    /// Where the linked module's data segment `id` went.
    pub fn new_data_id(&self, id: u32) -> (r: u32)
        requires
            self.data_map@.contains_key(id),
        ensures
            r == self.data_map@[id],
    {
        self.data_map.get(id).unwrap()
    }

    /// Where the linked module's element segment `id` went.
    pub fn new_element_id(&self, id: u32) -> (r: u32)
        requires
            self.elements_map@.contains_key(id),
        ensures
            r == self.elements_map@[id],
    {
        self.elements_map.get(id).unwrap()
    }

    /// Records that the linked module's local `old` became `new`.
    pub fn remap_local(&mut self, from: u32, to: u32)
        ensures
            final(self).locals_map@ == old(self).locals_map@.insert(from, to),
            final(self).globals_map == old(self).globals_map,
            final(self).tables_map == old(self).tables_map,
            final(self).funcs_map == old(self).funcs_map,
            final(self).types_map == old(self).types_map,
            final(self).memories_map == old(self).memories_map,
            final(self).data_map == old(self).data_map,
            final(self).elements_map == old(self).elements_map,
            final(self).linkee_imports == old(self).linkee_imports,
            final(self).linkee_name == old(self).linkee_name,
    {
        self.locals_map.insert(from, to);
    }

    /// Resolves the imports of the base module that the linked module provides: returns the
    /// patch that renames each of them to the linked entity that the link put in the base
    /// module, and the ids of the imports to delete.
    pub fn resolve_imports(&self, imports: &[Import], exports: &[Export]) -> (r: (Patch, Vec<u32>))
        requires
            resolvable(*self, imports@, exports@),
        ensures
            ({
                let (f, t, m, g) = renamings(*self, imports@, exports@, imports@.len() as int);
                &&& r.0.spec_funcs() == f
                &&& r.0.spec_tables() == t
                &&& r.0.spec_memories() == m
                &&& r.0.spec_globs() == g
                &&& r.1@ == resolved_ids(*self, imports@, imports@.len() as int)
            }),
    {
        let mut patch = Patch::new();
        let mut to_delete: Vec<u32> = Vec::new();
        let mut i: usize = 0;
        while i < imports.len()
            invariant
                i <= imports@.len(),
                resolvable(*self, imports@, exports@),
                ({
                    let (f, t, m, g) = renamings(*self, imports@, exports@, i as int);
                    &&& patch.spec_funcs() == f
                    &&& patch.spec_tables() == t
                    &&& patch.spec_memories() == m
                    &&& patch.spec_globs() == g
                }),
                to_delete@ == resolved_ids(*self, imports@, i as int),
            decreases imports@.len() - i,
        {
            let import = &imports[i];
            let from_linkee = contains_id(self.linkee_imports.as_slice(), import.id);
            if !from_linkee && import.module == self.linkee_name {
                assert(is_resolved(*self, imports@[i as int]));
                let target = self.resolution_target(import, exports);
                match import.kind {
                    ImportKind::Function(id) => patch.remap_func(id, target),
                    ImportKind::Table(id) => patch.remap_table(id, target),
                    ImportKind::Memory(id) => patch.remap_memory(id, target),
                    ImportKind::Global(id) => patch.remap_glob(id, target),
                }
                to_delete.push(import.id);
            }
            i = i + 1;
        }
        (patch, to_delete)
    }

    /// The entity of the base module that a resolved import resolves to.
    fn resolution_target(&self, import: &Import, exports: &[Export]) -> (r: u32)
        requires
            resolution_target(*self, *import, exports@) is Some,
        ensures
            r == resolution_target(*self, *import, exports@)->0,
    {
        let mut e: usize = 0;
        while e < exports.len() && !(exports[e].name == import.name)
            invariant
                e <= exports@.len(),
                first_export(exports@, import.name@, 0) == first_export(
                    exports@,
                    import.name@,
                    e as int,
                ),
                resolution_target(*self, *import, exports@) is Some,
            decreases exports@.len() - e,
        {
            e = e + 1;
        }
        assert(e < exports@.len());
        match (import.kind, exports[e].item) {
            (ImportKind::Function(_), ExportItem::Function(f)) => self.new_func_id(f),
            (ImportKind::Table(_), ExportItem::Table(t)) => self.new_table_id(t),
            (ImportKind::Memory(_), ExportItem::Memory(m)) => self.new_mem_id(m),
            (ImportKind::Global(_), ExportItem::Global(g)) => self.new_global_id(g),
            _ => 0,
        }
    }
}

/// Each local function of the module is a body that the patch can be applied to.
pub open spec fn functions_wf(funcs: Seq<Function>) -> bool {
    forall|i: int| 0 <= i < funcs.len() ==> (#[trigger] funcs[i] matches Function::Local(f) ==> function_wf(f))
}

/// Applies a patch to the local functions of a module; imported functions are left as they are.
pub fn patch_funcs(patch: &Patch, funcs: &mut Vec<Function>)
    requires
        functions_wf(old(funcs)@),
    ensures
        final(funcs)@.len() == old(funcs)@.len(),
        forall|i: int|
            0 <= i < old(funcs)@.len() ==> match (old(funcs)@[i], #[trigger] final(funcs)@[i]) {
                (Function::Imported(a), Function::Imported(b)) => a == b,
                (Function::Local(a), Function::Local(b)) => patched_function(*patch, a, b),
                _ => false,
            },
{
    let ghost f0 = funcs@;
    let mut i: usize = 0;
    while i < funcs.len()
        invariant
            funcs@.len() == f0.len(),
            f0 == old(funcs)@,
            functions_wf(f0),
            i <= f0.len(),
            forall|j: int|
                0 <= j < i ==> match (f0[j], #[trigger] funcs@[j]) {
                    (Function::Imported(a), Function::Imported(b)) => a == b,
                    (Function::Local(a), Function::Local(b)) => patched_function(*patch, a, b),
                    _ => false,
                },
            forall|j: int| i <= j < f0.len() ==> #[trigger] funcs@[j] == f0[j],
        decreases f0.len() - i,
    {
        match &mut funcs[i] {
            Function::Local(body) => {
                patch.patch_func(body);
            },
            Function::Imported(_) => {},
        }
        i = i + 1;
    }
}

/// The first `n` imports, without those of the given ids.
pub open spec fn kept_imports(imports: Seq<Import>, ids: Seq<u32>, n: int) -> Seq<Import>
    decreases n,
{
    if n <= 0 || n > imports.len() {
        Seq::empty()
    } else if ids.contains(imports[n - 1].id) {
        kept_imports(imports, ids, n - 1)
    } else {
        kept_imports(imports, ids, n - 1).push(imports[n - 1])
    }
}

/// Whether `id` is among `ids`.
pub(crate) fn contains_id(ids: &[u32], id: u32) -> (r: bool)
    ensures
        r == ids@.contains(id),
{
    let mut k: usize = 0;
    while k < ids.len()
        invariant
            k <= ids@.len(),
            !ids@.take(k as int).contains(id),
        decreases ids@.len() - k,
    {
        if ids[k] == id {
            assert(ids@[k as int] == id);
            return true;
        }
        proof {
            assert(ids@.take(k + 1) =~= ids@.take(k as int).push(ids@[k as int]));
        }
        k = k + 1;
    }
    proof {
        assert(ids@.take(ids@.len() as int) =~= ids@);
    }
    false
}

/// Removes the imports of the given ids.
pub fn delete_imports(imports: &mut Vec<Import>, ids: &[u32])
    ensures
        final(imports)@ == kept_imports(old(imports)@, ids@, old(imports)@.len() as int),
{
    let mut rest: Vec<Import> = Vec::new();
    core::mem::swap(&mut rest, imports);
    let ghost i0 = rest@;
    let n = rest.len();
    let mut kept: Vec<Import> = Vec::new();
    let mut i: usize = 0;
    proof {
        assert(i0.skip(0) =~= i0);
    }
    while i < n
        invariant
            n == i0.len(),
            i0 == old(imports)@,
            0 <= i <= n,
            rest@ == i0.skip(i as int),
            kept@ == kept_imports(i0, ids@, i as int),
        decreases n - i,
    {
        let imp = rest.remove(0);
        proof {
            assert(rest@ =~= i0.skip(i + 1));
            assert(imp == i0[i as int]);
        }
        if !contains_id(ids, imp.id) {
            kept.push(imp);
        }
        i = i + 1;
    }
    *imports = kept;
}

impl Linker {
    /// Resolves the imports of the base module that the linked module provides: the local
    /// functions of the base module refer to the linked entities in their place, and those
    /// imports are removed.
    pub fn remove_resolved_imports(
        &self,
        imports: &mut Vec<Import>,
        funcs: &mut Vec<Function>,
        exports: &[Export],
    )
        requires
            resolvable(*self, old(imports)@, exports@),
            functions_wf(old(funcs)@),
        ensures
            final(imports)@ == kept_imports(
                old(imports)@,
                resolved_ids(*self, old(imports)@, old(imports)@.len() as int),
                old(imports)@.len() as int,
            ),
            final(funcs)@.len() == old(funcs)@.len(),
            exists|patch: Patch|
                {
                    &&& #[trigger] renames_as(
                        patch,
                        renamings(*self, old(imports)@, exports@, old(imports)@.len() as int),
                    )
                    &&& forall|i: int|
                        0 <= i < old(funcs)@.len() ==> match (
                            old(funcs)@[i],
                            #[trigger] final(funcs)@[i],
                        ) {
                            (Function::Imported(a), Function::Imported(b)) => a == b,
                            (Function::Local(a), Function::Local(b)) => patched_function(patch, a, b),
                            _ => false,
                        }
                },
    {
        let (patch, to_delete) = self.resolve_imports(imports.as_slice(), exports);
        patch_funcs(&patch, funcs);
        delete_imports(imports, to_delete.as_slice());
        assert(renames_as(patch, renamings(*self, old(imports)@, exports@, old(imports)@.len() as int)));
    }
}

proof fn lemma_resolved_ids_contains(l: Linker, imports: Seq<Import>, m: int, p: int)
    requires
        0 <= p < m <= imports.len(),
        is_resolved(l, imports[p]),
    ensures
        resolved_ids(l, imports, m).contains(imports[p].id),
    decreases m,
{
    if p < m - 1 {
        lemma_resolved_ids_contains(l, imports, m - 1, p);
        if is_resolved(l, imports[m - 1]) {
            let r = resolved_ids(l, imports, m - 1);
            let w = choose|w: int| 0 <= w < r.len() && r[w] == imports[p].id;
            assert(r.push(imports[m - 1].id)[w] == imports[p].id);
        }
    } else {
        let r = resolved_ids(l, imports, m - 1);
        assert(r.push(imports[p].id)[r.len() as int] == imports[p].id);
    }
}

proof fn lemma_kept_unresolved(l: Linker, imports: Seq<Import>, n: int)
    requires
        0 <= n <= imports.len(),
    ensures
        forall|k: int| 0 <= k < kept_imports(imports, resolved_ids(l, imports, imports.len() as int), n).len()
            ==> !is_resolved(l, #[trigger] kept_imports(imports, resolved_ids(l, imports, imports.len() as int), n)[k]),
    decreases n,
{
    let ids = resolved_ids(l, imports, imports.len() as int);
    if n > 0 {
        lemma_kept_unresolved(l, imports, n - 1);
        let prev = kept_imports(imports, ids, n - 1);
        if ids.contains(imports[n - 1].id) {
            assert(kept_imports(imports, ids, n) == prev);
        } else {
            assert(kept_imports(imports, ids, n) == prev.push(imports[n - 1]));
            if is_resolved(l, imports[n - 1]) {
                lemma_resolved_ids_contains(l, imports, imports.len() as int, n - 1);
            }
            assert forall|k: int| 0 <= k < prev.push(imports[n - 1]).len() implies !is_resolved(
                l, #[trigger] prev.push(imports[n - 1])[k]) by {
                if k < prev.len() {
                    assert(prev.push(imports[n - 1])[k] == prev[k]);
                }
            }
        }
    }
}

/// No import that the linked module provides is left after the resolved imports are removed.
pub proof fn lemma_no_resolved_import_left(l: Linker, imports: Seq<Import>)
    ensures
        forall|k: int| 0 <= k < kept_imports(imports, resolved_ids(l, imports, imports.len() as int), imports.len() as int).len()
            ==> !is_resolved(l, #[trigger] kept_imports(imports, resolved_ids(l, imports, imports.len() as int), imports.len() as int)[k]),
{
    lemma_kept_unresolved(l, imports, imports.len() as int);
}

} // verus!
