//! Sandboxing of WebAssembly guest modules inside a supervisor.
//!
//! A supervisor owns a [`store::Store`] of sandboxed memories and instances. It describes the
//! functions and memories that a guest may import, instantiates guest modules on one of several
//! WebAssembly engines and invokes their exports. A call that a guest makes to an imported
//! function travels back to the supervisor through [`capabilities::SandboxCapabilities`].

pub mod backend;
pub mod capabilities;
pub mod codec;
pub mod dispatch;
pub mod dispatch_laws;
pub mod engine_wasmer;
pub mod engine_wasmi;
pub mod engine_wasmtime;
pub mod environment;
pub mod error;
pub mod guest;
pub mod host;
pub mod imports;
pub mod instance;
pub mod instantiation;
pub mod linking_laws;
pub mod mapping;
pub mod memory;
pub mod names;
pub mod state;
pub mod store;
pub mod store_laws;
pub mod turn;
pub mod value;
