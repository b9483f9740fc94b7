//! The validated object tree this backend consumes: components, elements,
//! property declarations.  Elements own their children outright, so the
//! tree is finite and acyclic by construction.

use vstd::prelude::*;
use crate::diagnostics::Span;
use crate::expression_tree::Expression;
use crate::typeregister::Type;

verus! {

/// A built-in widget type from the runtime library: the C++ class that
/// instantiates it and the symbol of its runtime type descriptor.
#[derive(Debug)]
pub struct BuiltinType {
    pub class_name: String,
    pub vtable_symbol: String,
}

/// What an element instantiates: a built-in widget type, or another
/// component (which this backend does not lower yet).
#[derive(Debug)]
pub enum BaseType {
    Builtin(BuiltinType),
    Component(String),
}

/// One property declared in the UI source: its name, its semantic type,
/// and where the type was written (for diagnostics only).
#[derive(Debug)]
pub struct PropertyDeclaration {
    pub name: String,
    pub property_type: Type,
    pub type_location: Span,
}

/// One node of a component's UI tree.
///
/// `children` is in declaration order, which is also the traversal order of
/// everything emitted from the tree.  `bindings` maps property or signal
/// names to bound expressions; keys are unique per element and kept in
/// source order so that emission is deterministic.
#[derive(Debug)]
pub struct Element {
    pub id: String,
    pub base_type: BaseType,
    pub children: Vec<Element>,
    pub bindings: Vec<(String, Expression)>,
    pub property_declarations: Vec<PropertyDeclaration>,
    pub signals_declaration: Vec<String>,
}

/// One compiled UI component: the name of the generated struct and the
/// root of its element tree.
#[derive(Debug)]
pub struct Component {
    pub id: String,
    pub root_element: Element,
}

impl Element {
    /// True when this element instantiates a built-in widget type.
    pub open spec fn is_builtin(self) -> bool {
        self.base_type is Builtin
    }

    /// The runtime type-descriptor symbol of this element's built-in base.
    pub open spec fn vtable_symbol_view(self) -> Seq<char>
        recommends
            self.is_builtin(),
    {
        self.base_type->Builtin_0.vtable_symbol@
    }

    /// The C++ class name of this element's built-in base.
    pub open spec fn class_name_view(self) -> Seq<char>
        recommends
            self.is_builtin(),
    {
        self.base_type->Builtin_0.class_name@
    }
}

/// True when every element of the tree rooted at `e` instantiates a
/// built-in widget type: the precondition of this whole backend, which
/// does not lower components used as base types.
pub open spec fn all_builtin(e: Element) -> bool
    decreases e, 0int,
{
    e.is_builtin() && all_builtin_from(e.children@, 0)
}

/// `all_builtin` for every element of `cs` from position `i` on.
pub open spec fn all_builtin_from(cs: Seq<Element>, i: int) -> bool
    decreases cs, cs.len() - i,
{
    if i < 0 || i >= cs.len() {
        true
    } else {
        all_builtin(cs[i]) && all_builtin_from(cs, i + 1)
    }
}

/// How many elements sit strictly below `e` in its tree.
pub open spec fn descendant_count(e: Element) -> nat
    decreases e, 0int,
{
    descendant_count_from(e.children@, 0)
}

/// Elements of the trees rooted at `cs[i..]`, each counted with its root.
pub open spec fn descendant_count_from(cs: Seq<Element>, i: int) -> nat
    decreases cs, cs.len() - i,
{
    if i < 0 || i >= cs.len() {
        0
    } else {
        1 + descendant_count(cs[i]) + descendant_count_from(cs, i + 1)
    }
}

/// How many elements the tree rooted at `e` holds, `e` included.
pub open spec fn total_count(e: Element) -> nat {
    1 + descendant_count(e)
}

} // verus!
