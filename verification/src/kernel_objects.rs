//! Kernel objects.
//!
//! Coral is an object-based kernel, in the sense that user-land interacts with the kernel through
//! handles to kernel-land objects. Kernel objects are reference counted, and each kind of object
//! lives in a collection of its own, in which its index is its handle.

use vstd::prelude::*;
use std::marker::PhantomData;
use std::sync::Arc;

use crate::entity::{ComponentIndex, EntityRef, ModuleIndex, VmaIndex};
use crate::syscalls::ExternRef;

verus! {

/// A kernel object index, with which an object is retrieved from its collection.
pub trait KoIndex: Sized + Copy {
    /// The position in the collection that the index stands for.
    spec fn ko_pos(self) -> nat;

    /// The handle that the index is known by in user-land.
    spec fn spec_externref(self) -> ExternRef;

    /// Creates the index of position `index`.
    fn from(index: usize) -> (r: Self)
        requires
            index <= u32::MAX,
        ensures
            r.ko_pos() == index,
    ;

    /// The position in the collection that the index stands for.
    fn into_usize(self) -> (r: usize)
        ensures
            r == self.ko_pos(),
    ;

    /// The handle that the index is known by in user-land.
    fn into_externref(self) -> (r: ExternRef)
        ensures
            r == self.spec_externref(),
    ;
}

impl KoIndex for VmaIndex {
    open spec fn ko_pos(self) -> nat {
        self.pos()
    }

    open spec fn spec_externref(self) -> ExternRef {
        ExternRef::Vma(self)
    }

    fn from(index: usize) -> (r: Self) {
        VmaIndex(index as u32)
    }

    fn into_usize(self) -> (r: usize) {
        self.0 as usize
    }

    fn into_externref(self) -> (r: ExternRef) {
        ExternRef::Vma(self)
    }
}

impl KoIndex for ModuleIndex {
    open spec fn ko_pos(self) -> nat {
        self.pos()
    }

    open spec fn spec_externref(self) -> ExternRef {
        ExternRef::Module(self)
    }

    fn from(index: usize) -> (r: Self) {
        ModuleIndex(index as u32)
    }

    fn into_usize(self) -> (r: usize) {
        self.0 as usize
    }

    fn into_externref(self) -> (r: ExternRef) {
        ExternRef::Module(self)
    }
}

impl KoIndex for ComponentIndex {
    open spec fn ko_pos(self) -> nat {
        self.pos()
    }

    open spec fn spec_externref(self) -> ExternRef {
        ExternRef::Component(self)
    }

    fn from(index: usize) -> (r: Self) {
        ComponentIndex(index as u32)
    }

    fn into_usize(self) -> (r: usize) {
        self.0 as usize
    }

    fn into_externref(self) -> (r: ExternRef) {
        ExternRef::Component(self)
    }
}

/// Another reference to the object behind an `Arc`.
///
/// `Arc::clone` makes another pointer to the same allocation, so the object is the same.
#[verifier::external_body]
fn arc_clone<T>(a: &Arc<T>) -> (r: Arc<T>)
    ensures
        r == *a,
{
    Arc::clone(a)
}

/// A collection of kernel objects, in which the index of an object is its position.
///
/// Objects are never removed, so an index stays valid for the whole life of the collection.
pub struct KernelObjectCollection<Obj, Idx> {
    collection: Vec<Arc<Obj>>,
    _idx: PhantomData<Idx>,
}

impl<Obj, Idx> View for KernelObjectCollection<Obj, Idx> {
    type V = Seq<Arc<Obj>>;

    closed spec fn view(&self) -> Seq<Arc<Obj>> {
        self.collection@
    }
}

impl<Obj, Idx> KernelObjectCollection<Obj, Idx> {
    /// Creates an empty collection.
    pub fn new() -> (r: Self)
        ensures
            r@ == Seq::<Arc<Obj>>::empty(),
    {
        Self { collection: Vec::new(), _idx: PhantomData }
    }

    /// The number of objects in the collection.
    pub fn len(&self) -> (r: usize)
        ensures
            r == self@.len(),
    {
        self.collection.len()
    }
}

impl<Obj, Idx: KoIndex> KernelObjectCollection<Obj, Idx> {
    /// Inserts a new object into the collection. The corresponding index is returned.
    pub fn insert(&mut self, object: Arc<Obj>) -> (r: Idx)
        requires
            old(self)@.len() <= u32::MAX,
        ensures
            final(self)@ == old(self)@.push(object),
            r.ko_pos() == old(self)@.len(),
    {
        let idx = self.collection.len();
        self.collection.push(object);
        Idx::from(idx)
    }

    /// Retrieves an object from the collection.
    pub fn get(&self, index: Idx) -> (r: Option<Arc<Obj>>)
        ensures
            r == (if index.ko_pos() < self@.len() {
                Some(self@[index.ko_pos() as int])
            } else {
                None::<Arc<Obj>>
            }),
    {
        let i = index.into_usize();
        if i < self.collection.len() {
            Some(arc_clone(&self.collection[i]))
        } else {
            None
        }
    }
}

/// An object inserted into a collection is what the index that the insertion returned
/// retrieves, and the objects inserted before it are retrieved as they were.
pub proof fn lemma_get_after_insert<Obj>(before: Seq<Arc<Obj>>, object: Arc<Obj>, pos: nat)
    requires
        pos <= before.len(),
    ensures
        pos == before.len() ==> before.push(object)[pos as int] == object,
        pos < before.len() ==> before.push(object)[pos as int] == before[pos as int],
{
}

} // verus!
