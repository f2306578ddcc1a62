//! Typed indices.
//!
//! Entities of a module (functions, heaps, tables, globals, ...) are referred to through
//! small typed indices, so that an index of one kind can never be used for another kind.

use vstd::prelude::*;

verus! {

/// A typed index, convertible to and from a `usize`.
pub trait EntityRef: Sized + Copy {
    /// The position that the index stands for.
    spec fn pos(self) -> nat;

    /// The index that stands for position `pos`.
    spec fn at_pos(pos: nat) -> Self;

    /// Creates an index standing for position `index`.
    fn new(index: usize) -> (r: Self)
        requires
            index < u32::MAX,
        ensures
            r.pos() == index,
            r == Self::at_pos(index as nat),
    ;

    /// Returns the position that the index stands for.
    fn index(self) -> (r: usize)
        ensures
            r == self.pos(),
    ;
}

/// The index of a function.
#[derive(Clone, Copy, PartialEq, Eq, Structural, Debug, Hash)]
pub struct FuncIndex(pub u32);

impl EntityRef for FuncIndex {
    open spec fn pos(self) -> nat {
        self.0 as nat
    }

    open spec fn at_pos(pos: nat) -> Self {
        Self(pos as u32)
    }

    fn new(index: usize) -> (r: Self) {
        FuncIndex(index as u32)
    }

    fn index(self) -> (r: usize) {
        self.0 as usize
    }
}

impl FuncIndex {
    /// Returns the index as a `u32`.
    pub fn as_u32(self) -> (r: u32)
        ensures
            r == self.pos(),
    {
        self.0
    }
}

/// The index of a heap (a linear memory).
#[derive(Clone, Copy, PartialEq, Eq, Structural, Debug, Hash)]
pub struct HeapIndex(pub u32);

impl EntityRef for HeapIndex {
    open spec fn pos(self) -> nat {
        self.0 as nat
    }

    open spec fn at_pos(pos: nat) -> Self {
        Self(pos as u32)
    }

    fn new(index: usize) -> (r: Self) {
        HeapIndex(index as u32)
    }

    fn index(self) -> (r: usize) {
        self.0 as usize
    }
}

impl HeapIndex {
    /// Returns the index as a `u32`.
    pub fn as_u32(self) -> (r: u32)
        ensures
            r == self.pos(),
    {
        self.0
    }
}

/// The index of a table.
#[derive(Clone, Copy, PartialEq, Eq, Structural, Debug, Hash)]
pub struct TableIndex(pub u32);

impl EntityRef for TableIndex {
    open spec fn pos(self) -> nat {
        self.0 as nat
    }

    open spec fn at_pos(pos: nat) -> Self {
        Self(pos as u32)
    }

    fn new(index: usize) -> (r: Self) {
        TableIndex(index as u32)
    }

    fn index(self) -> (r: usize) {
        self.0 as usize
    }
}

impl TableIndex {
    /// Returns the index as a `u32`.
    pub fn as_u32(self) -> (r: u32)
        ensures
            r == self.pos(),
    {
        self.0
    }
}

/// The index of a global variable.
#[derive(Clone, Copy, PartialEq, Eq, Structural, Debug, Hash)]
pub struct GlobIndex(pub u32);

impl EntityRef for GlobIndex {
    open spec fn pos(self) -> nat {
        self.0 as nat
    }

    open spec fn at_pos(pos: nat) -> Self {
        Self(pos as u32)
    }

    fn new(index: usize) -> (r: Self) {
        GlobIndex(index as u32)
    }

    fn index(self) -> (r: usize) {
        self.0 as usize
    }
}

impl GlobIndex {
    /// Returns the index as a `u32`.
    pub fn as_u32(self) -> (r: u32)
        ensures
            r == self.pos(),
    {
        self.0
    }
}

/// The index of an imported module.
#[derive(Clone, Copy, PartialEq, Eq, Structural, Debug, Hash)]
pub struct ImportIndex(pub u32);

impl EntityRef for ImportIndex {
    open spec fn pos(self) -> nat {
        self.0 as nat
    }

    open spec fn at_pos(pos: nat) -> Self {
        Self(pos as u32)
    }

    fn new(index: usize) -> (r: Self) {
        ImportIndex(index as u32)
    }

    fn index(self) -> (r: usize) {
        self.0 as usize
    }
}

impl ImportIndex {
    /// Returns the index as a `u32`.
    pub fn as_u32(self) -> (r: u32)
        ensures
            r == self.pos(),
    {
        self.0
    }
}

/// The index of a function type.
#[derive(Clone, Copy, PartialEq, Eq, Structural, Debug, Hash)]
pub struct TypeIndex(pub u32);

impl EntityRef for TypeIndex {
    open spec fn pos(self) -> nat {
        self.0 as nat
    }

    open spec fn at_pos(pos: nat) -> Self {
        Self(pos as u32)
    }

    fn new(index: usize) -> (r: Self) {
        TypeIndex(index as u32)
    }

    fn index(self) -> (r: usize) {
        self.0 as usize
    }
}

impl TypeIndex {
    /// Returns the index as a `u32`.
    pub fn as_u32(self) -> (r: u32)
        ensures
            r == self.pos(),
    {
        self.0
    }
}

/// The index of an instance within a component.
#[derive(Clone, Copy, PartialEq, Eq, Structural, Debug, Hash)]
pub struct InstanceIndex(pub u32);

impl EntityRef for InstanceIndex {
    open spec fn pos(self) -> nat {
        self.0 as nat
    }

    open spec fn at_pos(pos: nat) -> Self {
        Self(pos as u32)
    }

    fn new(index: usize) -> (r: Self) {
        InstanceIndex(index as u32)
    }

    fn index(self) -> (r: usize) {
        self.0 as usize
    }
}

impl InstanceIndex {
    /// Returns the index as a `u32`.
    pub fn as_u32(self) -> (r: u32)
        ensures
            r == self.pos(),
    {
        self.0
    }
}

/// The index of a virtual memory area kernel object.
#[derive(Clone, Copy, PartialEq, Eq, Structural, Debug, Hash)]
pub struct VmaIndex(pub u32);

impl EntityRef for VmaIndex {
    open spec fn pos(self) -> nat {
        self.0 as nat
    }

    open spec fn at_pos(pos: nat) -> Self {
        Self(pos as u32)
    }

    fn new(index: usize) -> (r: Self) {
        VmaIndex(index as u32)
    }

    fn index(self) -> (r: usize) {
        self.0 as usize
    }
}

impl VmaIndex {
    /// Returns the index as a `u32`.
    pub fn as_u32(self) -> (r: u32)
        ensures
            r == self.pos(),
    {
        self.0
    }
}

/// The index of a WebAssembly module kernel object.
#[derive(Clone, Copy, PartialEq, Eq, Structural, Debug, Hash)]
pub struct ModuleIndex(pub u32);

impl EntityRef for ModuleIndex {
    open spec fn pos(self) -> nat {
        self.0 as nat
    }

    open spec fn at_pos(pos: nat) -> Self {
        Self(pos as u32)
    }

    fn new(index: usize) -> (r: Self) {
        ModuleIndex(index as u32)
    }

    fn index(self) -> (r: usize) {
        self.0 as usize
    }
}

impl ModuleIndex {
    /// Returns the index as a `u32`.
    pub fn as_u32(self) -> (r: u32)
        ensures
            r == self.pos(),
    {
        self.0
    }
}

/// The index of a component kernel object.
#[derive(Clone, Copy, PartialEq, Eq, Structural, Debug, Hash)]
pub struct ComponentIndex(pub u32);

impl EntityRef for ComponentIndex {
    open spec fn pos(self) -> nat {
        self.0 as nat
    }

    open spec fn at_pos(pos: nat) -> Self {
        Self(pos as u32)
    }

    fn new(index: usize) -> (r: Self) {
        ComponentIndex(index as u32)
    }

    fn index(self) -> (r: usize) {
        self.0 as usize
    }
}

impl ComponentIndex {
    /// Returns the index as a `u32`.
    pub fn as_u32(self) -> (r: u32)
        ensures
            r == self.pos(),
    {
        self.0
    }
}

} // verus!
