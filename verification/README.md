# coral

Coral is a kernel for WebAssembly-based operating systems. This crate holds its logic, stated
in `requires`/`ensures` contracts and proved with Verus:

- `src/`: the library. The WebAssembly runtime (modules, instances, the VMContext, relocation,
  the ABI of native functions), the kernel's allocators, virtual memory areas, kernel objects
  and system calls, the user-space shell, the compiler's module description, and the two
  module-rewriting tools: the bindings generator (patches of imported functions, its TOML
  configuration) and the linker (resolution of imports, cloning of function bodies).
- `tests/`: tests of the library on concrete values.
- `app/`: the command line tools (`bindgen`, `link`) on top of walrus, and the kernel and
  user-space glue that talks to the hardware: page tables, interrupts, the serial port, the
  executor, and the inline assembly that calls into instances.
