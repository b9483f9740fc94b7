//! The component emitter: maps property types, compiles expressions,
//! collects member declarations and constructor statements from the
//! element tree, and assembles the generated C++ file.

use vstd::prelude::*;
use vstd::string::StringExecFns;
use crate::cpp_ast::{
    decl_height, decl_view, decls_view, file_renderable, lemma_decls_view_push, members_height,
    render_file, strings_view, CppType, Declaration, DeclView, File, FileView, Function,
    FunctionView, Struct, StructView, Var, VarView,
};
use crate::diagnostics::{diags_view, CompilerDiagnostic, Diagnostics, DiagView};
use crate::expression_tree::Expression;
use crate::itemtree::{build_array, builtin_of, flatten_view, lemma_all_builtin_at, nodes_view, ItemNodeView};
use crate::object_tree::{all_builtin, total_count, Component, Element, PropertyDeclaration};
use crate::text::{dec_view, escape_view, push_escaped, push_u64, u64_to_string};
use crate::typeregister::Type;

verus! {

/// The fixed mapping from semantic property types to native C++ types.
/// Exactly the types outside the supported subset map to nothing.
pub open spec fn cpp_type_of(t: Type) -> Option<Seq<char>> {
    match t {
        Type::Float32 => Some("float"@),
        Type::Int32 => Some("int"@),
        Type::String => Some("sixtyfps::SharedString"@),
        Type::Color => Some("uint32_t"@),
        Type::Bool => Some("bool"@),
        Type::Invalid => None,
        Type::Signal => None,
    }
}

/// The message of every type-mapping diagnostic.
pub open spec fn mapping_message() -> Seq<char> {
    "Cannot map property type to C++"@
}

impl CppType for PropertyDeclaration {
    open spec fn cpp_type_spec(&self) -> Option<Seq<char>> {
        cpp_type_of(self.property_type)
    }

    open spec fn cpp_type_diag(&self) -> DiagView {
        DiagView { message: mapping_message(), span: self.type_location }
    }

    fn cpp_type(&self) -> (r: Result<&str, CompilerDiagnostic>) {
        match self.property_type {
            Type::Float32 => Ok("float"),
            Type::Int32 => Ok("int"),
            Type::String => Ok("sixtyfps::SharedString"),
            Type::Color => Ok("uint32_t"),
            Type::Bool => Ok("bool"),
            Type::Invalid => Err(
                CompilerDiagnostic {
                    message: String::from_str("Cannot map property type to C++"),
                    span: self.type_location,
                },
            ),
            Type::Signal => Err(
                CompilerDiagnostic {
                    message: String::from_str("Cannot map property type to C++"),
                    span: self.type_location,
                },
            ),
        }
    }
}

/// The target-type mapping is fixed and total on the supported subset:
/// each supported semantic type has its documented native name, and
/// exactly the unsupported ones have none.
pub proof fn lemma_type_mapping_fixed()
    ensures
        cpp_type_of(Type::Float32) == Some("float"@),
        cpp_type_of(Type::Int32) == Some("int"@),
        cpp_type_of(Type::String) == Some("sixtyfps::SharedString"@),
        cpp_type_of(Type::Color) == Some("uint32_t"@),
        cpp_type_of(Type::Bool) == Some("bool"@),
        cpp_type_of(Type::Invalid) is None,
        cpp_type_of(Type::Signal) is None,
{
}

/// The inline marker emitted for expression shapes this backend cannot
/// lower; it makes the generated code fail to compile loudly.
pub open spec fn error_marker() -> Seq<char> {
    "\n#error: unsupported expression\n"@
}

/// The C++ expression text `compile_expression` produces.
pub open spec fn compile_expr_view(e: Expression) -> Seq<char>
    decreases e,
{
    match e {
        Expression::StringLiteral(s) => "sixtyfps::SharedString(\""@ + escape_view(s@) + "\")"@,
        Expression::NumberLiteral(n) => dec_view(n as nat),
        Expression::PropertyReference { name, .. } => name@ + ".get(nullptr)"@,
        Expression::Cast { from, from_ty, to } => {
            let f = compile_expr_view(*from);
            if (from_ty is Float32 || from_ty is Int32) && to is String {
                "sixtyfps::SharedString::from_number("@ + f + ")"@
            } else {
                f
            }
        },
        Expression::SignalReference { .. } => error_marker(),
        Expression::Unsupported => error_marker(),
    }
}

/// Renders one expression as C++ text.  Total over every expression shape:
/// unsupported shapes become an inline error marker, never a failure.
pub fn compile_expression(e: &Expression) -> (r: String)
    ensures
        r@ == compile_expr_view(*e),
    decreases *e,
{
    match e {
        Expression::StringLiteral(s) => {
            let mut out = String::from_str("sixtyfps::SharedString(\"");
            push_escaped(s.as_str(), &mut out);
            out.append("\")");
            proof {
                assert(out@ =~= compile_expr_view(*e));
            }
            out
        },
        Expression::NumberLiteral(n) => u64_to_string(*n),
        Expression::PropertyReference { name, .. } => {
            let mut out = name.clone();
            out.append(".get(nullptr)");
            out
        },
        Expression::Cast { from, from_ty, to } => {
            let f = compile_expression(&*from);
            let is_num = match from_ty {
                Type::Float32 => true,
                Type::Int32 => true,
                _ => false,
            };
            let to_string = match to {
                Type::String => true,
                _ => false,
            };
            if is_num && to_string {
                let mut out = String::from_str("sixtyfps::SharedString::from_number(");
                out.append(f.as_str());
                out.append(")");
                proof {
                    assert(out@ =~= compile_expr_view(*e));
                }
                out
            } else {
                f
            }
        },
        Expression::SignalReference { .. } => String::from_str("\n#error: unsupported expression\n"),
        Expression::Unsupported => String::from_str("\n#error: unsupported expression\n"),
    }
}

/// True when some string of `v` has the characters `s`.
pub open spec fn contains_str(v: Seq<String>, s: Seq<char>) -> bool {
    exists|i: int| 0 <= i < v.len() && v[i]@ == s
}

/// Linear search for `s` among the declared names `v`.
pub fn contains_string(v: &Vec<String>, s: &String) -> (r: bool)
    ensures
        r == contains_str(v@, s@),
{
    let mut i: usize = 0;
    while i < v.len()
        invariant
            i <= v@.len(),
            forall|t: int| 0 <= t < i ==> v@[t]@ != s@,
        decreases v@.len() - i,
    {
        if v[i].eq(s) {
            return true;
        }
        i = i + 1;
    }
    false
}

/// The constructor statement one binding compiles to.  A signal binding
/// installs a forwarding handler; every other binding sets the property to
/// the compiled expression.  The accessor is unprefixed exactly when the
/// bound name is declared on the component root (`gs` for signals, `gp`
/// for properties); otherwise it is reached through the element's `id`.
pub open spec fn binding_stmt_view(
    prop: Seq<char>,
    expr: Expression,
    id: Seq<char>,
    gp: Seq<String>,
    gs: Seq<String>,
    ty: Seq<char>,
) -> Seq<char> {
    match expr {
        Expression::SignalReference { name: fwd, .. } => (if contains_str(gs, prop) {
            Seq::empty()
        } else {
            id + "."@
        }) + prop + ".set_handler([](const void *root) { reinterpret_cast<const "@ + ty
            + "*>(root)->"@ + fwd@ + ".emit(root); });"@,
        _ => (if contains_str(gp, prop) {
            Seq::empty()
        } else {
            id + "."@
        }) + prop + ".set("@ + compile_expr_view(expr) + ");"@,
    }
}

/// The statements of the bindings `bs[i..]` of one element, in order.
pub open spec fn bindings_view(
    bs: Seq<(String, Expression)>,
    i: int,
    id: Seq<char>,
    gp: Seq<String>,
    gs: Seq<String>,
    ty: Seq<char>,
) -> Seq<Seq<char>>
    decreases bs.len() - i,
{
    if i < 0 || i >= bs.len() {
        Seq::empty()
    } else {
        seq![binding_stmt_view(bs[i].0@, bs[i].1, id, gp, gs, ty)] + bindings_view(
            bs,
            i + 1,
            id,
            gp,
            gs,
            ty,
        )
    }
}

/// All constructor statements contributed by the tree rooted at `e`:
/// its own bindings first, then each child's, in declaration order.
pub open spec fn init_stmts_view(
    e: Element,
    gp: Seq<String>,
    gs: Seq<String>,
    ty: Seq<char>,
) -> Seq<Seq<char>>
    decreases e, 0int,
{
    bindings_view(e.bindings@, 0, e.id@, gp, gs, ty) + init_children_view(e.children@, 0, gp, gs, ty)
}

/// The constructor statements of the trees rooted at `cs[i..]`.
pub open spec fn init_children_view(
    cs: Seq<Element>,
    i: int,
    gp: Seq<String>,
    gs: Seq<String>,
    ty: Seq<char>,
) -> Seq<Seq<char>>
    decreases cs, cs.len() - i,
{
    if i < 0 || i >= cs.len() {
        Seq::empty()
    } else {
        init_stmts_view(cs[i], gp, gs, ty) + init_children_view(cs, i + 1, gp, gs, ty)
    }
}

/// The member variables contributed by the tree rooted at `e`: one per
/// element, of the element's native widget type, in preorder.
pub open spec fn item_member_views(e: Element) -> Seq<DeclView>
    decreases e, 0int,
{
    seq![
        DeclView::Var(VarView { ty: "sixtyfps::"@ + e.class_name_view(), name: e.id@, init: None }),
    ] + item_member_children(e.children@, 0)
}

/// The member variables of the trees rooted at `cs[i..]`.
pub open spec fn item_member_children(cs: Seq<Element>, i: int) -> Seq<DeclView>
    decreases cs, cs.len() - i,
{
    if i < 0 || i >= cs.len() {
        Seq::empty()
    } else {
        item_member_views(cs[i]) + item_member_children(cs, i + 1)
    }
}

/// Visits the tree rooted at `item` in preorder: adds one member variable
/// per element to `main_struct` and one constructor statement per binding
/// to `init`, resolving binding scope against the component-level names
/// `global_properties` and `global_signals`.
pub fn handle_item(
    item: &Element,
    global_properties: &Vec<String>,
    global_signals: &Vec<String>,
    main_struct: &mut Struct,
    init: &mut Vec<String>,
)
    requires
        all_builtin(*item),
    ensures
        final(main_struct).name == old(main_struct).name,
        decls_view(final(main_struct).members@, 0) == decls_view(old(main_struct).members@, 0)
            + item_member_views(*item),
        strings_view(final(init)@) == strings_view(old(init)@) + init_stmts_view(
            *item,
            global_properties@,
            global_signals@,
            old(main_struct).name@,
        ),
    decreases *item,
{
    let b = builtin_of(item);
    let mut vty = String::from_str("sixtyfps::");
    vty.append(b.class_name.as_str());
    let member = Declaration::Var(Var { ty: vty, name: item.id.clone(), init: None });
    let ghost gd = member;
    main_struct.members.push(member);
    proof {
        lemma_decls_view_push(old(main_struct).members@, gd, 0);
        assert(decl_view(gd) == DeclView::Var(
            VarView { ty: "sixtyfps::"@ + item.class_name_view(), name: item.id@, init: None },
        ));
    }
    let ghost name0 = main_struct.name;
    let ghost ty_v = main_struct.name@;
    let ghost id_v = item.id@;
    let ghost bs = item.bindings@;
    let ghost init0 = strings_view(init@);
    let ghost members1 = main_struct.members@;
    let mut i: usize = 0;
    while i < item.bindings.len()
        invariant
            i <= bs.len(),
            bs == item.bindings@,
            main_struct.name == name0,
            main_struct.members@ == members1,
            ty_v == name0@,
            id_v == item.id@,
            init0 + bindings_view(bs, 0, id_v, global_properties@, global_signals@, ty_v)
                == strings_view(init@) + bindings_view(
                bs,
                i as int,
                id_v,
                global_properties@,
                global_signals@,
                ty_v,
            ),
        decreases bs.len() - i,
    {
        let pair = &item.bindings[i];
        let s = &pair.0;
        let mut st = String::new();
        match &pair.1 {
            Expression::SignalReference { name: fwd, .. } => {
                if !contains_string(global_signals, s) {
                    st.append(item.id.as_str());
                    st.append(".");
                }
                st.append(s.as_str());
                st.append(".set_handler([](const void *root) { reinterpret_cast<const ");
                st.append(main_struct.name.as_str());
                st.append("*>(root)->");
                st.append(fwd.as_str());
                st.append(".emit(root); });");
            },
            _ => {
                if !contains_string(global_properties, s) {
                    st.append(item.id.as_str());
                    st.append(".");
                }
                st.append(s.as_str());
                st.append(".set(");
                let ex = compile_expression(&pair.1);
                st.append(ex.as_str());
                st.append(");");
            },
        }
        proof {
            assert(st@ =~= binding_stmt_view(
                bs[i as int].0@,
                bs[i as int].1,
                id_v,
                global_properties@,
                global_signals@,
                ty_v,
            ));
        }
        init.push(st);
        proof {
            assert(strings_view(init@) =~= strings_view(init@.subrange(0, init@.len() - 1)).push(
                init@[init@.len() - 1]@,
            ));
            assert(init0 + bindings_view(bs, 0, id_v, global_properties@, global_signals@, ty_v)
                =~= strings_view(init@) + bindings_view(
                bs,
                i + 1,
                id_v,
                global_properties@,
                global_signals@,
                ty_v,
            ));
        }
        i = i + 1;
    }
    proof {
        assert(bindings_view(bs, bs.len() as int, id_v, global_properties@, global_signals@, ty_v)
            == Seq::<Seq<char>>::empty());
        assert(strings_view(init@) =~= init0 + bindings_view(
            bs,
            0,
            id_v,
            global_properties@,
            global_signals@,
            ty_v,
        ));
    }
    let ghost cs = item.children@;
    let ghost mid_members = decls_view(main_struct.members@, 0);
    let ghost mid_init = strings_view(init@);
    let mut j: usize = 0;
    while j < item.children.len()
        invariant
            j <= cs.len(),
            cs == item.children@,
            all_builtin(*item),
            main_struct.name == name0,
            ty_v == name0@,
            mid_members + item_member_children(cs, 0) == decls_view(main_struct.members@, 0)
                + item_member_children(cs, j as int),
            mid_init + init_children_view(cs, 0, global_properties@, global_signals@, ty_v)
                == strings_view(init@) + init_children_view(
                cs,
                j as int,
                global_properties@,
                global_signals@,
                ty_v,
            ),
        decreases cs.len() - j,
    {
        proof {
            lemma_all_builtin_at(cs, 0, j as int);
        }
        handle_item(&item.children[j], global_properties, global_signals, main_struct, init);
        proof {
            assert(mid_members + item_member_children(cs, 0) =~= decls_view(
                main_struct.members@,
                0,
            ) + item_member_children(cs, j + 1));
            assert(mid_init + init_children_view(cs, 0, global_properties@, global_signals@, ty_v)
                =~= strings_view(init@) + init_children_view(
                cs,
                j + 1,
                global_properties@,
                global_signals@,
                ty_v,
            ));
        }
        j = j + 1;
    }
    proof {
        assert(item_member_children(cs, cs.len() as int) == Seq::<DeclView>::empty());
        assert(init_children_view(cs, cs.len() as int, global_properties@, global_signals@, ty_v)
            == Seq::<Seq<char>>::empty());
        assert(decls_view(main_struct.members@, 0) =~= decls_view(old(main_struct).members@, 0)
            + item_member_views(*item));
        assert(strings_view(init@) =~= strings_view(old(init)@) + init_stmts_view(
            *item,
            global_properties@,
            global_signals@,
            old(main_struct).name@,
        ));
    }
}

/// The diagnostics the emitter records for the declarations `ps[i..]`:
/// exactly one per declaration whose type has no mapping, carrying that
/// declaration's source span, in declaration order.
pub open spec fn mapping_diags(ps: Seq<PropertyDeclaration>, i: int) -> Seq<DiagView>
    decreases ps.len() - i,
{
    if i < 0 || i >= ps.len() {
        Seq::empty()
    } else {
        (if cpp_type_of(ps[i].property_type) is None {
            seq![DiagView { message: mapping_message(), span: ps[i].type_location }]
        } else {
            Seq::empty()
        }) + mapping_diags(ps, i + 1)
    }
}

/// The reactive-cell member for each declared property `ps[i..]`: a
/// `sixtyfps::Property` of the mapped type, or of a placeholder when the
/// mapping failed.
pub open spec fn prop_member_views(ps: Seq<PropertyDeclaration>, i: int) -> Seq<DeclView>
    decreases ps.len() - i,
{
    if i < 0 || i >= ps.len() {
        Seq::empty()
    } else {
        seq![
            DeclView::Var(
                VarView {
                    ty: "sixtyfps::Property<"@ + (match cpp_type_of(ps[i].property_type) {
                        Some(t) => t,
                        None => Seq::empty(),
                    }) + ">"@,
                    name: ps[i].name@,
                    init: None,
                },
            ),
        ] + prop_member_views(ps, i + 1)
    }
}

/// One `sixtyfps::Signal` member per component-level signal `ss[i..]`.
pub open spec fn signal_member_views(ss: Seq<String>, i: int) -> Seq<DeclView>
    decreases ss.len() - i,
{
    if i < 0 || i >= ss.len() {
        Seq::empty()
    } else {
        seq![DeclView::Var(VarView { ty: "sixtyfps::Signal"@, name: ss[i]@, init: None })]
            + signal_member_views(ss, i + 1)
    }
}

/// The names of the declared properties, in declaration order: the
/// component-level namespace for binding-scope resolution.
pub open spec fn prop_names(ps: Seq<PropertyDeclaration>) -> Seq<String> {
    ps.map_values(|p: PropertyDeclaration| p.name)
}

/// The signature of the static tree-accessor function.
pub open spec fn tree_fn_signature() -> Seq<char> {
    "(sixtyfps::ComponentRef) -> const sixtyfps::ItemTreeNode* "@
}

/// One entry of the static item-tree array literal.
pub open spec fn entry_view(n: ItemNodeView, comp: Seq<char>) -> Seq<char> {
    "sixtyfps::make_item_node(offsetof("@ + comp + ", "@ + n.id + "), &sixtyfps::"@
        + n.vtable_symbol + ", "@ + dec_view(n.children_count as nat) + ", "@ + dec_view(
        n.children_index as nat,
    ) + ")"@
}

/// The item-tree array literal for the descriptors `ns[i..]`, separated by
/// commas.
pub open spec fn tree_array_view(ns: Seq<ItemNodeView>, comp: Seq<char>, i: int) -> Seq<char>
    decreases ns.len() - i,
{
    if i < 0 || i >= ns.len() {
        Seq::empty()
    } else {
        (if i > 0 {
            ", "@
        } else {
            Seq::empty()
        }) + entry_view(ns[i], comp) + tree_array_view(ns, comp, i + 1)
    }
}

/// The members of the generated component struct, in emission order:
/// property cells, element members in preorder, signal members, the
/// constructor holding every binding statement, the tree-accessor
/// declaration, and the type-descriptor declaration.
pub open spec fn main_members_view(c: Component) -> Seq<DeclView> {
    let root = c.root_element;
    prop_member_views(root.property_declarations@, 0) + item_member_views(root)
        + signal_member_views(root.signals_declaration@, 0) + seq![
        DeclView::Function(
            FunctionView {
                name: c.id@,
                signature: "()"@,
                is_constructor: true,
                is_static: false,
                statements: Some(
                    init_stmts_view(
                        root,
                        prop_names(root.property_declarations@),
                        root.signals_declaration@,
                        c.id@,
                    ),
                ),
            },
        ),
        DeclView::Function(
            FunctionView {
                name: "tree_fn"@,
                signature: tree_fn_signature(),
                is_constructor: false,
                is_static: true,
                statements: None,
            },
        ),
        DeclView::Var(
            VarView {
                ty: "static const sixtyfps::ComponentVTable"@,
                name: "component_type"@,
                init: None,
            },
        ),
    ]
}

/// The whole generated file for one component.
pub open spec fn file_view(c: Component) -> FileView {
    FileView {
        includes: seq!["<sixtyfps.h>"@],
        declarations: seq![
            DeclView::Struct(StructView { name: c.id@, members: main_members_view(c) }),
            DeclView::Function(
                FunctionView {
                    name: c.id@ + "::tree_fn"@,
                    signature: tree_fn_signature(),
                    is_constructor: false,
                    is_static: false,
                    statements: Some(
                        seq![
                            "static const sixtyfps::ItemTreeNode children[] {"@,
                            "    "@ + tree_array_view(flatten_view(c.root_element), c.id@, 0)
                                + " };"@,
                            "return children;"@,
                        ],
                    ),
                },
            ),
            DeclView::Var(
                VarView {
                    ty: "const sixtyfps::ComponentVTable"@,
                    name: c.id@ + "::component_type"@,
                    init: Some("{ nullptr, sixtyfps::dummy_destory, tree_fn }"@),
                },
            ),
        ],
    }
}

/// `members_height` is zero when no member is a struct.
pub proof fn lemma_no_struct_height(ms: Seq<DeclView>, i: int)
    requires
        0 <= i <= ms.len(),
        forall|t: int| i <= t < ms.len() ==> !((#[trigger] ms[t]) is Struct),
    ensures
        members_height(ms, i) == 0,
    decreases ms.len() - i,
{
    if i < ms.len() {
        assert(!(ms[i] is Struct));
        assert(decl_height(ms[i]) == 0);
        lemma_no_struct_height(ms, i + 1);
    }
}

/// No property-cell member is a struct.
pub proof fn lemma_prop_members_not_struct(ps: Seq<PropertyDeclaration>, i: int)
    requires
        0 <= i <= ps.len(),
    ensures
        forall|t: int|
            0 <= t < prop_member_views(ps, i).len() ==> !((#[trigger] prop_member_views(ps, i)[t])
                is Struct),
    decreases ps.len() - i,
{
    if i < ps.len() {
        lemma_prop_members_not_struct(ps, i + 1);
    }
}

/// No signal member is a struct.
pub proof fn lemma_signal_members_not_struct(ss: Seq<String>, i: int)
    requires
        0 <= i <= ss.len(),
    ensures
        forall|t: int|
            0 <= t < signal_member_views(ss, i).len() ==> !((#[trigger] signal_member_views(
                ss,
                i,
            )[t]) is Struct),
    decreases ss.len() - i,
{
    if i < ss.len() {
        lemma_signal_members_not_struct(ss, i + 1);
    }
}

/// No element member is a struct.
pub proof fn lemma_item_members_not_struct(e: Element)
    ensures
        forall|t: int|
            0 <= t < item_member_views(e).len() ==> !((#[trigger] item_member_views(e)[t])
                is Struct),
    decreases e, 0int,
{
    lemma_item_children_not_struct(e.children@, 0);
}

/// No element member of the trees rooted at `cs[i..]` is a struct.
pub proof fn lemma_item_children_not_struct(cs: Seq<Element>, i: int)
    requires
        0 <= i <= cs.len(),
    ensures
        forall|t: int|
            0 <= t < item_member_children(cs, i).len() ==> !((#[trigger] item_member_children(
                cs,
                i,
            )[t]) is Struct),
    decreases cs, cs.len() - i,
{
    if i < cs.len() {
        lemma_item_members_not_struct(cs[i]);
        lemma_item_children_not_struct(cs, i + 1);
    }
}

/// The file `file_view` describes always renders within the machine's
/// indentation depth limit.
pub proof fn lemma_file_view_renderable(c: Component)
    ensures
        file_renderable(file_view(c)),
{
    let m = main_members_view(c);
    lemma_prop_members_not_struct(c.root_element.property_declarations@, 0);
    lemma_item_members_not_struct(c.root_element);
    lemma_signal_members_not_struct(c.root_element.signals_declaration@, 0);
    assert forall|t: int| 0 <= t < m.len() implies !((#[trigger] m[t]) is Struct) by {
        let a = prop_member_views(c.root_element.property_declarations@, 0);
        let b = item_member_views(c.root_element);
        let s = signal_member_views(c.root_element.signals_declaration@, 0);
        if t < a.len() {
            assert(m[t] == a[t]);
        } else if t < a.len() + b.len() {
            assert(m[t] == b[t - a.len()]);
        } else if t < a.len() + b.len() + s.len() {
            assert(m[t] == s[t - a.len() - b.len()]);
        }
    }
    lemma_no_struct_height(m, 0);
    let ds = file_view(c).declarations;
    assert(decl_height(ds[0]) == 1);
    assert(decl_height(ds[1]) == 0);
    assert(decl_height(ds[2]) == 0);
}

/// Emits the C++ code for one component.
///
/// The pass always runs to completion, accumulating one diagnostic per
/// property declaration whose type has no native mapping; at the very end
/// the assembled file is returned only when the sink holds no error at
/// all, and is suppressed (`None`) otherwise.
pub fn generate(component: &Component, diag: &mut Diagnostics) -> (r: Option<File>)
    requires
        all_builtin(component.root_element),
        total_count(component.root_element) <= usize::MAX,
    ensures
        diags_view(final(diag).inner@) == diags_view(old(diag).inner@) + mapping_diags(
            component.root_element.property_declarations@,
            0,
        ),
        (r is Some) <==> final(diag).inner@.len() == 0,
        r matches Some(f) ==> f@ == file_view(*component),
        r matches Some(f) ==> file_renderable(f@),
{
    let root = &component.root_element;
    let mut includes: Vec<String> = Vec::new();
    includes.push(String::from_str("<sixtyfps.h>"));
    let mut main_struct = Struct { name: component.id.clone(), members: Vec::new() };
    let ghost ps = root.property_declarations@;
    let ghost diag0 = diags_view(diag.inner@);
    let mut declared_property_members: Vec<String> = Vec::new();
    let mut i: usize = 0;
    while i < root.property_declarations.len()
        invariant
            i <= ps.len(),
            ps == root.property_declarations@,
            main_struct.name@ == component.id@,
            declared_property_members@.len() == i,
            forall|t: int|
                0 <= t < i ==> declared_property_members@[t] == ps[t].name,
            diag0 + mapping_diags(ps, 0) == diags_view(diag.inner@) + mapping_diags(ps, i as int),
            decls_view(main_struct.members@, 0) + prop_member_views(ps, i as int)
                == prop_member_views(ps, 0),
        decreases ps.len() - i,
    {
        let pd = &root.property_declarations[i];
        let cpp_type: String = match pd.cpp_type() {
            Ok(t) => t.to_owned(),
            Err(err) => {
                let ghost gerr = err;
                diag.push_compiler_error(err);
                proof {
                    assert(diags_view(diag.inner@) =~= diags_view(
                        diag.inner@.subrange(0, diag.inner@.len() - 1),
                    ).push(gerr@));
                }
                String::new()
            },
        };
        proof {
            assert(diag0 + mapping_diags(ps, 0) =~= diags_view(diag.inner@) + mapping_diags(
                ps,
                i + 1,
            ));
        }
        declared_property_members.push(pd.name.clone());
        let mut pty = String::from_str("sixtyfps::Property<");
        pty.append(cpp_type.as_str());
        pty.append(">");
        let member = Declaration::Var(Var { ty: pty, name: pd.name.clone(), init: None });
        let ghost gd = member;
        let ghost ms_before = main_struct.members@;
        main_struct.members.push(member);
        proof {
            lemma_decls_view_push(ms_before, gd, 0);
            assert(decls_view(main_struct.members@, 0) + prop_member_views(ps, i + 1)
                =~= prop_member_views(ps, 0));
        }
        i = i + 1;
    }
    proof {
        assert(prop_member_views(ps, ps.len() as int) == Seq::<DeclView>::empty());
        assert(decls_view(main_struct.members@, 0) =~= prop_member_views(ps, 0));
        assert(declared_property_members@ =~= prop_names(ps));
    }
    let mut init: Vec<String> = Vec::new();
    handle_item(
        root,
        &declared_property_members,
        &root.signals_declaration,
        &mut main_struct,
        &mut init,
    );
    let ghost ss = root.signals_declaration@;
    let ghost members2 = decls_view(main_struct.members@, 0);
    let mut j: usize = 0;
    while j < root.signals_declaration.len()
        invariant
            j <= ss.len(),
            ss == root.signals_declaration@,
            main_struct.name@ == component.id@,
            members2 + signal_member_views(ss, 0) == decls_view(main_struct.members@, 0)
                + signal_member_views(ss, j as int),
        decreases ss.len() - j,
    {
        let member = Declaration::Var(
            Var {
                ty: String::from_str("sixtyfps::Signal"),
                name: root.signals_declaration[j].clone(),
                init: None,
            },
        );
        let ghost gd = member;
        let ghost ms_before = main_struct.members@;
        main_struct.members.push(member);
        proof {
            lemma_decls_view_push(ms_before, gd, 0);
            assert(members2 + signal_member_views(ss, 0) =~= decls_view(main_struct.members@, 0)
                + signal_member_views(ss, j + 1));
        }
        j = j + 1;
    }
    proof {
        assert(signal_member_views(ss, ss.len() as int) == Seq::<DeclView>::empty());
        assert(decls_view(main_struct.members@, 0) =~= members2 + signal_member_views(ss, 0));
    }
    let ctor = Declaration::Function(
        Function {
            name: component.id.clone(),
            signature: String::from_str("()"),
            is_constructor: true,
            is_static: false,
            statements: Some(init),
        },
    );
    let ghost gctor = ctor;
    let ghost ms_a = main_struct.members@;
    main_struct.members.push(ctor);
    proof {
        lemma_decls_view_push(ms_a, gctor, 0);
    }
    let tree_decl = Declaration::Function(
        Function {
            name: String::from_str("tree_fn"),
            signature: String::from_str(
                "(sixtyfps::ComponentRef) -> const sixtyfps::ItemTreeNode* ",
            ),
            is_constructor: false,
            is_static: true,
            statements: None,
        },
    );
    let ghost gtree = tree_decl;
    let ghost ms_b = main_struct.members@;
    main_struct.members.push(tree_decl);
    proof {
        lemma_decls_view_push(ms_b, gtree, 0);
    }
    let ctype_decl = Declaration::Var(
        Var {
            ty: String::from_str("static const sixtyfps::ComponentVTable"),
            name: String::from_str("component_type"),
            init: None,
        },
    );
    let ghost gctype = ctype_decl;
    let ghost ms_c = main_struct.members@;
    main_struct.members.push(ctype_decl);
    proof {
        lemma_decls_view_push(ms_c, gctype, 0);
        assert(decls_view(main_struct.members@, 0) =~= main_members_view(*component));
    }
    let ghost main_view = StructView { name: component.id@, members: main_members_view(*component) };
    let mut declarations: Vec<Declaration> = Vec::new();
    declarations.push(Declaration::Struct(main_struct));
    let nodes = build_array(component);
    let ghost nv = flatten_view(component.root_element);
    let mut tree_array = String::new();
    let ghost ta0 = tree_array@;
    let mut t: usize = 0;
    while t < nodes.len()
        invariant
            t <= nodes@.len(),
            nodes_view(nodes@) == nv,
            ta0 == Seq::<char>::empty(),
            ta0 + tree_array_view(nv, component.id@, 0) == tree_array@ + tree_array_view(
                nv,
                component.id@,
                t as int,
            ),
        decreases nodes@.len() - t,
    {
        if t > 0 {
            tree_array.append(", ");
        }
        tree_array.append("sixtyfps::make_item_node(offsetof(");
        tree_array.append(component.id.as_str());
        tree_array.append(", ");
        tree_array.append(nodes[t].id.as_str());
        tree_array.append("), &sixtyfps::");
        tree_array.append(nodes[t].vtable_symbol.as_str());
        tree_array.append(", ");
        push_u64(nodes[t].children_count as u64, &mut tree_array);
        tree_array.append(", ");
        push_u64(nodes[t].children_index as u64, &mut tree_array);
        tree_array.append(")");
        proof {
            assert(nv[t as int] == nodes@[t as int]@);
            assert(ta0 + tree_array_view(nv, component.id@, 0) =~= tree_array@ + tree_array_view(
                nv,
                component.id@,
                t + 1,
            ));
        }
        t = t + 1;
    }
    proof {
        assert(tree_array_view(nv, component.id@, nv.len() as int) == Seq::<char>::empty());
        assert(tree_array@ =~= tree_array_view(nv, component.id@, 0));
    }
    let mut stmt1 = String::from_str("    ");
    stmt1.append(tree_array.as_str());
    stmt1.append(" };");
    let mut tree_stmts: Vec<String> = Vec::new();
    tree_stmts.push(String::from_str("static const sixtyfps::ItemTreeNode children[] {"));
    tree_stmts.push(stmt1);
    tree_stmts.push(String::from_str("return children;"));
    let ghost gstmts = strings_view(tree_stmts@);
    let mut tf_name = component.id.clone();
    tf_name.append("::tree_fn");
    let tree_fn_decl = Declaration::Function(
        Function {
            name: tf_name,
            signature: String::from_str(
                "(sixtyfps::ComponentRef) -> const sixtyfps::ItemTreeNode* ",
            ),
            is_constructor: false,
            is_static: false,
            statements: Some(tree_stmts),
        },
    );
    declarations.push(tree_fn_decl);
    let mut ct_name = component.id.clone();
    ct_name.append("::component_type");
    let ctype_var = Declaration::Var(
        Var {
            ty: String::from_str("const sixtyfps::ComponentVTable"),
            name: ct_name,
            init: Some(String::from_str("{ nullptr, sixtyfps::dummy_destory, tree_fn }")),
        },
    );
    declarations.push(ctype_var);
    let x = File { includes, declarations };
    proof {
        let ds = x.declarations@;
        let fv = file_view(*component);
        assert(strings_view(x.includes@) =~= fv.includes);
        assert(gstmts =~= fv.declarations[1]->Function_0.statements->Some_0);
        assert(ds.len() == 3);
        assert(decl_view(ds[0]) == fv.declarations[0]);
        assert(decl_view(ds[1]) == fv.declarations[1]);
        assert(decl_view(ds[2]) == fv.declarations[2]);
        assert(decls_view(ds, 3) == Seq::<DeclView>::empty());
        assert(decls_view(ds, 2) =~= seq![decl_view(ds[2])]);
        assert(decls_view(ds, 1) =~= seq![decl_view(ds[1])] + decls_view(ds, 2));
        assert(decls_view(ds, 0) =~= seq![decl_view(ds[0])] + decls_view(ds, 1));
        assert(decls_view(ds, 0) =~= fv.declarations);
        assert(x@ == fv);
        lemma_file_view_renderable(*component);
    }
    if diag.has_error() {
        None
    } else {
        Some(x)
    }
}

/// Emitting one component is deterministic: any two files that
/// `generate`'s contract allows for the same component are equal and
/// render to byte-identical text.
pub proof fn lemma_generate_deterministic(c: Component, f1: File, f2: File)
    requires
        f1@ == file_view(c),
        f2@ == file_view(c),
    ensures
        f1@ == f2@,
        render_file(f1@) == render_file(f2@),
{
}

/// Compiling an expression is deterministic: any two results that
/// `compile_expression`'s contract allows for the same expression are
/// byte-identical.
pub proof fn lemma_compile_expression_deterministic(e: Expression, r1: Seq<char>, r2: Seq<char>)
    requires
        r1 == compile_expr_view(e),
        r2 == compile_expr_view(e),
    ensures
        r1 == r2,
{
}

} // verus!
