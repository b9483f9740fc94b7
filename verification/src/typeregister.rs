//! The semantic property types of the UI language, as a closed set, so that
//! the backend is forced to handle every variant explicitly.

use vstd::prelude::*;

verus! {

/// A semantic type attached to a property declaration by the upstream
/// type checker.  Only a fixed subset has a native C++ equivalent; the
/// rest must surface as a type-mapping diagnostic.
#[derive(Clone, Copy, PartialEq, Eq, Structural, Debug)]
pub enum Type {
    /// A type the upstream analysis could not resolve.
    Invalid,
    /// The type of a declared signal; never a property value.
    Signal,
    Float32,
    Int32,
    String,
    Color,
    Bool,
}

} // verus!
