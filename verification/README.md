# sandbox

Sandboxing of WebAssembly guest modules inside a supervisor, verified with Verus.

A supervisor keeps memories and instances in a `store::Store`. It decodes an environment definition
into an `environment::GuestEnvironment`, instantiates guest modules in it and invokes their exports.
A guest that calls an imported function is served by the supervisor through
`capabilities::SandboxCapabilities`.

- `mapping`, `names`, `imports`, `environment`: what a guest can import, and what stands behind it.
- `capabilities`, `codec`, `dispatch`, `dispatch_laws`: how a call of a guest reaches the supervisor.
- `guest`, `host`, `state`: the two ways in which engines hand such calls over, and the context that
  they carry.
- `engine_wasmi`, `engine_wasmtime`, `engine_wasmer`: calls into the engines, with what is believed
  of them.
- `backend`, `memory`, `instance`, `instantiation`, `store`, `store_laws`: what the engines create
  and what a store keeps of it.

`app/` lets a function context of `sp_wasm_interface` act as the supervisor.

`Cargo.toml` names two crates for their versions or types alone: `wasmer-types` declares the value type
of wasmer, and `substrate-bip39` is held at the version with which `sp-core` builds against a single
`schnorrkel`.

The tests run guests on the interpreter, and the host functions of the compiled engines by
themselves. They start no compiled engine: `wasmtime` 0.19 stops on processors that describe their
extended features in more than one leaf, and what `wasmer` 1.0 compiles needs the symbol
`__rust_probestack`, which newer toolchains do not provide.
