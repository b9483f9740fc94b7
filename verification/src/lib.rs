//! Code-generation backend for a declarative UI compiler: it turns an
//! already type-checked tree of UI component definitions into C++ source
//! text, together with a flattened, offset-addressed item tree that a
//! runtime can traverse without allocation.

pub mod diagnostics;
pub mod expression_tree;
pub mod object_tree;
pub mod cpp_ast;
pub mod generator;
pub mod itemtree;
pub mod text;
pub mod typeregister;
