//! Coral: a kernel for WebAssembly-based operating systems, with the logic of its
//! runtime, allocators, system calls and user-space shell stated and proved.
#![allow(unused_imports)]

pub mod entity;
pub mod collections;
pub mod types;
pub mod traits;
pub mod abi;
pub mod funcs;
pub mod modules;
pub mod vmctx;
pub mod instances;
pub mod allocator;
pub mod fallback;
pub mod global_alloc;
pub mod kernel_objects;
pub mod syscalls;
pub mod memory;
pub mod component;
pub mod runtime;
pub mod vga;
pub mod shell;
pub mod user_syscalls;
pub mod compiler_env;
pub mod compiler;
pub mod bindgen;
pub mod bindgen_config;
pub mod wasm_ir;
pub mod linker;
pub mod cloner;
pub mod userspace_alloc;
pub mod qemu;

use vstd::prelude::*;

verus! {

} // verus!
