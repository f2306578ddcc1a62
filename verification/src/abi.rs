//! The WebAssembly ABI: which Rust types cross the boundary between WebAssembly and native
//! code, and how.

use vstd::prelude::*;

use crate::types::ValueType;

verus! {

/// A base WebAssembly type.
///
/// This trait is already implemented for all basic types, custom WebAssembly types should
/// implement `WasmType` instead.
pub trait WasmBaseType: Send {
    type Abi: Copy;

    /// The corresponding WebAssembly value type.
    spec fn spec_value_type() -> ValueType;

    /// Returns the corresponding WebAssembly value type.
    fn value_type() -> (r: ValueType)
        ensures
            r == Self::spec_value_type(),
    ;
}

impl WasmBaseType for i32 {
    type Abi = i32;

    open spec fn spec_value_type() -> ValueType {
        ValueType::I32
    }

    fn value_type() -> (r: ValueType) {
        ValueType::I32
    }
}

impl WasmBaseType for u32 {
    type Abi = u32;

    open spec fn spec_value_type() -> ValueType {
        ValueType::I32
    }

    fn value_type() -> (r: ValueType) {
        ValueType::I32
    }
}

impl WasmBaseType for i64 {
    type Abi = i64;

    open spec fn spec_value_type() -> ValueType {
        ValueType::I64
    }

    fn value_type() -> (r: ValueType) {
        ValueType::I64
    }
}

impl WasmBaseType for u64 {
    type Abi = u64;

    open spec fn spec_value_type() -> ValueType {
        ValueType::I64
    }

    fn value_type() -> (r: ValueType) {
        ValueType::I64
    }
}

/// A WebAssembly externref type, ABI compatible with WebAssembly 64 bits references.
///
/// It serves as a marker of the ABI of reference types; its only value carries nothing.
#[derive(Clone, Copy)]
pub enum ExternRef64 {
    Marker,
}

impl WasmBaseType for ExternRef64 {
    type Abi = u64;

    open spec fn spec_value_type() -> ValueType {
        ValueType::ExternRef
    }

    fn value_type() -> (r: ValueType) {
        ValueType::ExternRef
    }
}

/// A value that is ABI compatible with a WebAssembly type and can be passed across the
/// WebAssembly/Native boundary.
pub trait WasmType: Send + Copy {
    type Abi: WasmBaseType + Copy;

    /// The ABI representation of a value.
    spec fn spec_into_abi(self) -> <Self::Abi as WasmBaseType>::Abi;

    /// Whether an ABI value stands for a value of this type.
    spec fn accepts_abi(val: <Self::Abi as WasmBaseType>::Abi) -> bool;

    /// The value that an accepted ABI value stands for.
    spec fn spec_from_abi(val: <Self::Abi as WasmBaseType>::Abi) -> Self;

    /// Converts a value to its ABI representation.
    fn into_abi(self) -> (r: <Self::Abi as WasmBaseType>::Abi)
        ensures
            r == self.spec_into_abi(),
    ;

    /// Converts an ABI value back to a value.
    fn from_abi(val: <Self::Abi as WasmBaseType>::Abi) -> (r: Self)
        requires
            Self::accepts_abi(val),
        ensures
            r == Self::spec_from_abi(val),
    ;

    /// Returns the corresponding WebAssembly value type.
    fn ty() -> (r: ValueType)
        ensures
            r == <Self::Abi as WasmBaseType>::spec_value_type(),
    {
        Self::Abi::value_type()
    }
}

/// The WebAssembly value type of a type.
pub open spec fn wasm_ty<T: WasmType>() -> ValueType {
    <T::Abi as WasmBaseType>::spec_value_type()
}

impl WasmType for i32 {
    type Abi = i32;

    open spec fn spec_into_abi(self) -> i32 {
        self
    }

    open spec fn accepts_abi(val: i32) -> bool {
        true
    }

    open spec fn spec_from_abi(val: i32) -> i32 {
        val
    }

    fn into_abi(self) -> (r: i32) {
        self
    }

    fn from_abi(val: i32) -> (r: i32) {
        val
    }
}

impl WasmType for u32 {
    type Abi = u32;

    open spec fn spec_into_abi(self) -> u32 {
        self
    }

    open spec fn accepts_abi(val: u32) -> bool {
        true
    }

    open spec fn spec_from_abi(val: u32) -> u32 {
        val
    }

    fn into_abi(self) -> (r: u32) {
        self
    }

    fn from_abi(val: u32) -> (r: u32) {
        val
    }
}

impl WasmType for i64 {
    type Abi = i64;

    open spec fn spec_into_abi(self) -> i64 {
        self
    }

    open spec fn accepts_abi(val: i64) -> bool {
        true
    }

    open spec fn spec_from_abi(val: i64) -> i64 {
        val
    }

    fn into_abi(self) -> (r: i64) {
        self
    }

    fn from_abi(val: i64) -> (r: i64) {
        val
    }
}

impl WasmType for u64 {
    type Abi = u64;

    open spec fn spec_into_abi(self) -> u64 {
        self
    }

    open spec fn accepts_abi(val: u64) -> bool {
        true
    }

    open spec fn spec_from_abi(val: u64) -> u64 {
        val
    }

    fn into_abi(self) -> (r: u64) {
        self
    }

    fn from_abi(val: u64) -> (r: u64) {
        val
    }
}

/// Parameters that can be passed to WebAssembly functions.
pub trait WasmParams {
    type Abi;

    /// The WebAssembly types of the parameters.
    spec fn spec_tys() -> Seq<ValueType>;

    /// The number of parameters.
    fn nb_params() -> (r: usize)
        ensures
            r == Self::spec_tys().len(),
    ;

    /// Returns the WebAssembly types of the parameters.
    fn ty() -> (r: Vec<ValueType>)
        ensures
            r@ == Self::spec_tys(),
    ;
}

// A single value is passed as a tuple of one value.
impl<T: WasmType> WasmParams for T {
    type Abi = <(T,) as WasmParams>::Abi;

    open spec fn spec_tys() -> Seq<ValueType> {
        seq![wasm_ty::<T>()]
    }

    fn nb_params() -> (r: usize) {
        1
    }

    fn ty() -> (r: Vec<ValueType>) {
        <(T,) as WasmParams>::ty()
    }
}

impl WasmParams for () {
    type Abi = ();

    open spec fn spec_tys() -> Seq<ValueType> {
        seq![]
    }

    fn nb_params() -> (r: usize) {
        0
    }

    fn ty() -> (r: Vec<ValueType>) {
        let v: Vec<ValueType> = Vec::new();
        assert(v@ =~= seq![]);
        v
    }
}

impl<T1: WasmType> WasmParams for (T1,) {
    type Abi = (T1::Abi,);

    open spec fn spec_tys() -> Seq<ValueType> {
        seq![wasm_ty::<T1>()]
    }

    fn nb_params() -> (r: usize) {
        1
    }

    fn ty() -> (r: Vec<ValueType>) {
        let mut v: Vec<ValueType> = Vec::new();
        v.push(T1::ty());
        assert(v@ =~= seq![wasm_ty::<T1>()]);
        v
    }
}

impl<T1: WasmType, T2: WasmType> WasmParams for (T1, T2) {
    type Abi = (T1::Abi, T2::Abi);

    open spec fn spec_tys() -> Seq<ValueType> {
        seq![wasm_ty::<T1>(), wasm_ty::<T2>()]
    }

    fn nb_params() -> (r: usize) {
        2
    }

    fn ty() -> (r: Vec<ValueType>) {
        let mut v: Vec<ValueType> = Vec::new();
        v.push(T1::ty());
        v.push(T2::ty());
        assert(v@ =~= seq![wasm_ty::<T1>(), wasm_ty::<T2>()]);
        v
    }
}

impl<T1: WasmType, T2: WasmType, T3: WasmType> WasmParams for (T1, T2, T3) {
    type Abi = (T1::Abi, T2::Abi, T3::Abi);

    open spec fn spec_tys() -> Seq<ValueType> {
        seq![wasm_ty::<T1>(), wasm_ty::<T2>(), wasm_ty::<T3>()]
    }

    fn nb_params() -> (r: usize) {
        3
    }

    fn ty() -> (r: Vec<ValueType>) {
        let mut v: Vec<ValueType> = Vec::new();
        v.push(T1::ty());
        v.push(T2::ty());
        v.push(T3::ty());
        assert(v@ =~= seq![wasm_ty::<T1>(), wasm_ty::<T2>(), wasm_ty::<T3>()]);
        v
    }
}

impl<T1: WasmType, T2: WasmType, T3: WasmType, T4: WasmType> WasmParams for (T1, T2, T3, T4) {
    type Abi = (T1::Abi, T2::Abi, T3::Abi, T4::Abi);

    open spec fn spec_tys() -> Seq<ValueType> {
        seq![wasm_ty::<T1>(), wasm_ty::<T2>(), wasm_ty::<T3>(), wasm_ty::<T4>()]
    }

    fn nb_params() -> (r: usize) {
        4
    }

    fn ty() -> (r: Vec<ValueType>) {
        let mut v: Vec<ValueType> = Vec::new();
        v.push(T1::ty());
        v.push(T2::ty());
        v.push(T3::ty());
        v.push(T4::ty());
        assert(v@ =~= seq![wasm_ty::<T1>(), wasm_ty::<T2>(), wasm_ty::<T3>(), wasm_ty::<T4>()]);
        v
    }
}

impl<T1: WasmType, T2: WasmType, T3: WasmType, T4: WasmType, T5: WasmType> WasmParams for (T1, T2, T3, T4, T5) {
    type Abi = (T1::Abi, T2::Abi, T3::Abi, T4::Abi, T5::Abi);

    open spec fn spec_tys() -> Seq<ValueType> {
        seq![wasm_ty::<T1>(), wasm_ty::<T2>(), wasm_ty::<T3>(), wasm_ty::<T4>(), wasm_ty::<T5>()]
    }

    fn nb_params() -> (r: usize) {
        5
    }

    fn ty() -> (r: Vec<ValueType>) {
        let mut v: Vec<ValueType> = Vec::new();
        v.push(T1::ty());
        v.push(T2::ty());
        v.push(T3::ty());
        v.push(T4::ty());
        v.push(T5::ty());
        assert(v@ =~= seq![wasm_ty::<T1>(), wasm_ty::<T2>(), wasm_ty::<T3>(), wasm_ty::<T4>(), wasm_ty::<T5>()]);
        v
    }
}

impl<T1: WasmType, T2: WasmType, T3: WasmType, T4: WasmType, T5: WasmType, T6: WasmType> WasmParams for (T1, T2, T3, T4, T5, T6) {
    type Abi = (T1::Abi, T2::Abi, T3::Abi, T4::Abi, T5::Abi, T6::Abi);

    open spec fn spec_tys() -> Seq<ValueType> {
        seq![wasm_ty::<T1>(), wasm_ty::<T2>(), wasm_ty::<T3>(), wasm_ty::<T4>(), wasm_ty::<T5>(), wasm_ty::<T6>()]
    }

    fn nb_params() -> (r: usize) {
        6
    }

    fn ty() -> (r: Vec<ValueType>) {
        let mut v: Vec<ValueType> = Vec::new();
        v.push(T1::ty());
        v.push(T2::ty());
        v.push(T3::ty());
        v.push(T4::ty());
        v.push(T5::ty());
        v.push(T6::ty());
        assert(v@ =~= seq![wasm_ty::<T1>(), wasm_ty::<T2>(), wasm_ty::<T3>(), wasm_ty::<T4>(), wasm_ty::<T5>(), wasm_ty::<T6>()]);
        v
    }
}

impl<T1: WasmType, T2: WasmType, T3: WasmType, T4: WasmType, T5: WasmType, T6: WasmType, T7: WasmType> WasmParams for (T1, T2, T3, T4, T5, T6, T7) {
    type Abi = (T1::Abi, T2::Abi, T3::Abi, T4::Abi, T5::Abi, T6::Abi, T7::Abi);

    open spec fn spec_tys() -> Seq<ValueType> {
        seq![wasm_ty::<T1>(), wasm_ty::<T2>(), wasm_ty::<T3>(), wasm_ty::<T4>(), wasm_ty::<T5>(), wasm_ty::<T6>(), wasm_ty::<T7>()]
    }

    fn nb_params() -> (r: usize) {
        7
    }

    fn ty() -> (r: Vec<ValueType>) {
        let mut v: Vec<ValueType> = Vec::new();
        v.push(T1::ty());
        v.push(T2::ty());
        v.push(T3::ty());
        v.push(T4::ty());
        v.push(T5::ty());
        v.push(T6::ty());
        v.push(T7::ty());
        assert(v@ =~= seq![wasm_ty::<T1>(), wasm_ty::<T2>(), wasm_ty::<T3>(), wasm_ty::<T4>(), wasm_ty::<T5>(), wasm_ty::<T6>(), wasm_ty::<T7>()]);
        v
    }
}

impl<T1: WasmType, T2: WasmType, T3: WasmType, T4: WasmType, T5: WasmType, T6: WasmType, T7: WasmType, T8: WasmType> WasmParams for (T1, T2, T3, T4, T5, T6, T7, T8) {
    type Abi = (T1::Abi, T2::Abi, T3::Abi, T4::Abi, T5::Abi, T6::Abi, T7::Abi, T8::Abi);

    open spec fn spec_tys() -> Seq<ValueType> {
        seq![wasm_ty::<T1>(), wasm_ty::<T2>(), wasm_ty::<T3>(), wasm_ty::<T4>(), wasm_ty::<T5>(), wasm_ty::<T6>(), wasm_ty::<T7>(), wasm_ty::<T8>()]
    }

    fn nb_params() -> (r: usize) {
        8
    }

    fn ty() -> (r: Vec<ValueType>) {
        let mut v: Vec<ValueType> = Vec::new();
        v.push(T1::ty());
        v.push(T2::ty());
        v.push(T3::ty());
        v.push(T4::ty());
        v.push(T5::ty());
        v.push(T6::ty());
        v.push(T7::ty());
        v.push(T8::ty());
        assert(v@ =~= seq![wasm_ty::<T1>(), wasm_ty::<T2>(), wasm_ty::<T3>(), wasm_ty::<T4>(), wasm_ty::<T5>(), wasm_ty::<T6>(), wasm_ty::<T7>(), wasm_ty::<T8>()]);
        v
    }
}

/// The results of a WebAssembly-compatible function.
pub trait WasmResults: WasmParams + HostReturnAbi {}

impl<T> WasmResults for T where T: WasmParams + HostReturnAbi {}

/// The ABI between host (native) and WebAssembly functions for returned values.
///
/// This corresponds to Cranelift's "Wasmtime" ABI, which follows the system ABI (so SystemV for
/// Coral) except that return values beyond the first are stored in a return area, whose
/// location is passed as argument. This compensates for the fact that the SystemV ABI does not
/// allow multiple return values.
pub trait HostReturnAbi {
    /// The value returned directly.
    type ReturnAbi;
    /// The values stored in the return area, if any.
    type ReturnArea;

    /// How the returned values are split between the direct value and the return area.
    spec fn spec_into_abi(self) -> (Self::ReturnAbi, Self::ReturnArea);

    /// Splits the returned values between the direct value and the return area.
    fn into_abi(self) -> (r: (Self::ReturnAbi, Self::ReturnArea))
        ensures
            r == self.spec_into_abi(),
    ;
}

// A single value is returned as a tuple of one value.
impl<T: WasmType> HostReturnAbi for T {
    type ReturnAbi = T;
    type ReturnArea = ();

    open spec fn spec_into_abi(self) -> (T, ()) {
        (self, ())
    }

    fn into_abi(self) -> (r: (T, ())) {
        (self, ())
    }
}

impl HostReturnAbi for () {
    type ReturnAbi = ();
    type ReturnArea = ();

    open spec fn spec_into_abi(self) -> ((), ()) {
        ((), ())
    }

    fn into_abi(self) -> (r: ((), ())) {
        ((), ())
    }
}

impl<T1: Copy> HostReturnAbi for (T1,) {
    type ReturnAbi = T1;
    type ReturnArea = ();

    open spec fn spec_into_abi(self) -> (T1, ()) {
        (self.0, ())
    }

    fn into_abi(self) -> (r: (T1, ())) {
        (self.0, ())
    }
}

impl<T1: Copy, T2: Copy> HostReturnAbi for (T1, T2) {
    type ReturnAbi = T1;
    type ReturnArea = (T2,);

    open spec fn spec_into_abi(self) -> (T1, (T2,)) {
        (self.0, (self.1,))
    }

    fn into_abi(self) -> (r: (T1, (T2,))) {
        (self.0, (self.1,))
    }
}

impl<T1: Copy, T2: Copy, T3: Copy> HostReturnAbi for (T1, T2, T3) {
    type ReturnAbi = T1;
    type ReturnArea = (T2, T3);

    open spec fn spec_into_abi(self) -> (T1, (T2, T3)) {
        (self.0, (self.1, self.2))
    }

    fn into_abi(self) -> (r: (T1, (T2, T3))) {
        (self.0, (self.1, self.2))
    }
}

impl<T1: Copy, T2: Copy, T3: Copy, T4: Copy> HostReturnAbi for (T1, T2, T3, T4) {
    type ReturnAbi = T1;
    type ReturnArea = (T2, T3, T4);

    open spec fn spec_into_abi(self) -> (T1, (T2, T3, T4)) {
        (self.0, (self.1, self.2, self.3))
    }

    fn into_abi(self) -> (r: (T1, (T2, T3, T4))) {
        (self.0, (self.1, self.2, self.3))
    }
}

impl<T1: Copy, T2: Copy, T3: Copy, T4: Copy, T5: Copy> HostReturnAbi for (T1, T2, T3, T4, T5) {
    type ReturnAbi = T1;
    type ReturnArea = (T2, T3, T4, T5);

    open spec fn spec_into_abi(self) -> (T1, (T2, T3, T4, T5)) {
        (self.0, (self.1, self.2, self.3, self.4))
    }

    fn into_abi(self) -> (r: (T1, (T2, T3, T4, T5))) {
        (self.0, (self.1, self.2, self.3, self.4))
    }
}

impl<T1: Copy, T2: Copy, T3: Copy, T4: Copy, T5: Copy, T6: Copy> HostReturnAbi for (T1, T2, T3, T4, T5, T6) {
    type ReturnAbi = T1;
    type ReturnArea = (T2, T3, T4, T5, T6);

    open spec fn spec_into_abi(self) -> (T1, (T2, T3, T4, T5, T6)) {
        (self.0, (self.1, self.2, self.3, self.4, self.5))
    }

    fn into_abi(self) -> (r: (T1, (T2, T3, T4, T5, T6))) {
        (self.0, (self.1, self.2, self.3, self.4, self.5))
    }
}

impl<T1: Copy, T2: Copy, T3: Copy, T4: Copy, T5: Copy, T6: Copy, T7: Copy> HostReturnAbi for (T1, T2, T3, T4, T5, T6, T7) {
    type ReturnAbi = T1;
    type ReturnArea = (T2, T3, T4, T5, T6, T7);

    open spec fn spec_into_abi(self) -> (T1, (T2, T3, T4, T5, T6, T7)) {
        (self.0, (self.1, self.2, self.3, self.4, self.5, self.6))
    }

    fn into_abi(self) -> (r: (T1, (T2, T3, T4, T5, T6, T7))) {
        (self.0, (self.1, self.2, self.3, self.4, self.5, self.6))
    }
}

impl<T1: Copy, T2: Copy, T3: Copy, T4: Copy, T5: Copy, T6: Copy, T7: Copy, T8: Copy> HostReturnAbi for (T1, T2, T3, T4, T5, T6, T7, T8) {
    type ReturnAbi = T1;
    type ReturnArea = (T2, T3, T4, T5, T6, T7, T8);

    open spec fn spec_into_abi(self) -> (T1, (T2, T3, T4, T5, T6, T7, T8)) {
        (self.0, (self.1, self.2, self.3, self.4, self.5, self.6, self.7))
    }

    fn into_abi(self) -> (r: (T1, (T2, T3, T4, T5, T6, T7, T8))) {
        (self.0, (self.1, self.2, self.3, self.4, self.5, self.6, self.7))
    }
}

impl<T1: Copy, T2: Copy, T3: Copy, T4: Copy, T5: Copy, T6: Copy, T7: Copy, T8: Copy, T9: Copy> HostReturnAbi for (T1, T2, T3, T4, T5, T6, T7, T8, T9) {
    type ReturnAbi = T1;
    type ReturnArea = (T2, T3, T4, T5, T6, T7, T8, T9);

    open spec fn spec_into_abi(self) -> (T1, (T2, T3, T4, T5, T6, T7, T8, T9)) {
        (self.0, (self.1, self.2, self.3, self.4, self.5, self.6, self.7, self.8))
    }

    fn into_abi(self) -> (r: (T1, (T2, T3, T4, T5, T6, T7, T8, T9))) {
        (self.0, (self.1, self.2, self.3, self.4, self.5, self.6, self.7, self.8))
    }
}

} // verus!
