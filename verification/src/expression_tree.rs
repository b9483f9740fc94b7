//! The semantic expression trees bound to element properties.  Expressions
//! are produced by the upstream analysis passes and read-only here.

use vstd::prelude::*;
use crate::typeregister::Type;

verus! {

/// One semantic expression, as a closed tagged tree.
#[derive(Debug)]
pub enum Expression {
    /// A string literal; its content still needs escaping for C++.
    StringLiteral(String),
    /// A non-negative numeric literal, rendered in decimal.
    NumberLiteral(u64),
    /// A read of the named property's current value.  The qualifiers name
    /// the component and element the reference was resolved against; the
    /// generated read path uses only the property name.
    PropertyReference { component: Option<String>, element: Option<String>, name: String },
    /// A reference to the named signal, resolved against a component and
    /// an element in the same way.
    SignalReference { component: Option<String>, element: Option<String>, name: String },
    /// A conversion from one semantic type to another, wrapping the
    /// expression being converted.
    Cast { from: Box<Expression>, from_ty: Type, to: Type },
    /// An expression shape this backend does not lower yet; it renders as
    /// an inline error marker so the generated code fails to build loudly.
    Unsupported,
}

} // verus!
