//! A single-pass bytecode compiler front-end for a register-machine
//! scripting language: it lowers statement and expression trees into a
//! function prototype, doing register allocation, local-variable binding,
//! constant-pool interning, and compile-time constant folding with the
//! language's numeric promotion rules.

pub mod fbits;
pub mod consts;
pub mod ast;
pub mod proto;
pub mod compiler;
