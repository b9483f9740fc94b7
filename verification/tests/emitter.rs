use cpp_codegen::diagnostics::{Diagnostics, Span};
use cpp_codegen::expression_tree::Expression;
use cpp_codegen::generator::generate;
use cpp_codegen::itemtree::build_array;
use cpp_codegen::object_tree::{
    BaseType, BuiltinType, Component, Element, PropertyDeclaration,
};
use cpp_codegen::cpp_ast::Declaration;
use cpp_codegen::typeregister::Type;

fn elem(id: &str, class: &str, vt: &str) -> Element {
    Element {
        id: id.to_string(),
        base_type: BaseType::Builtin(BuiltinType {
            class_name: class.to_string(),
            vtable_symbol: vt.to_string(),
        }),
        children: vec![],
        bindings: vec![],
        property_declarations: vec![],
        signals_declaration: vec![],
    }
}

fn rect(id: &str) -> Element {
    elem(id, "Rectangle", "RectangleVTable")
}

/// The struct emitted for the component, with its members.
fn main_struct(f: &cpp_codegen::cpp_ast::File) -> &cpp_codegen::cpp_ast::Struct {
    match &f.declarations[0] {
        Declaration::Struct(s) => s,
        _ => panic!("first declaration is not the component struct"),
    }
}

/// The constructor's statements.
fn ctor_statements(f: &cpp_codegen::cpp_ast::File) -> Vec<String> {
    let s = main_struct(f);
    for m in &s.members {
        if let Declaration::Function(func) = m {
            if func.is_constructor {
                return func.statements.clone().unwrap();
            }
        }
    }
    panic!("no constructor found");
}

#[test]
fn flatten_single_root() {
    let c = Component { id: "C".to_string(), root_element: rect("root") };
    let nodes = build_array(&c);
    assert_eq!(nodes.len(), 1);
    assert_eq!(nodes[0].id, "root");
    assert_eq!(nodes[0].vtable_symbol, "RectangleVTable");
    assert_eq!(nodes[0].children_count, 0);
}

#[test]
fn flatten_root_with_one_child() {
    let mut root = elem("root", "Window", "WindowVTable");
    root.children.push(rect("b"));
    let c = Component { id: "C".to_string(), root_element: root };
    let nodes = build_array(&c);
    assert_eq!(nodes.len(), 2);
    assert_eq!(nodes[0].id, "root");
    assert_eq!(nodes[0].children_count, 1);
    assert_eq!(nodes[0].children_index, 1);
    assert_eq!(nodes[1].id, "b");
    assert_eq!(nodes[1].children_count, 0);
}

#[test]
fn flatten_deep_tree_keeps_children_contiguous() {
    // root -> (a -> (a1 -> (a1a), a2), b -> (b1))
    let mut a1 = rect("a1");
    a1.children.push(rect("a1a"));
    let mut a = rect("a");
    a.children.push(a1);
    a.children.push(rect("a2"));
    let mut b = rect("b");
    b.children.push(rect("b1"));
    let mut root = elem("root", "Window", "WindowVTable");
    root.children.push(a);
    root.children.push(b);
    let c = Component { id: "C".to_string(), root_element: root };
    let nodes = build_array(&c);
    let ids: Vec<&str> = nodes.iter().map(|n| n.id.as_str()).collect();
    assert_eq!(ids, ["root", "a", "b", "a1", "a2", "a1a", "b1"]);
    // Every node's direct children occupy one contiguous run starting at
    // its recorded children index, in declaration order.
    let expect = [
        ("root", 2, 1),
        ("a", 2, 3),
        ("b", 1, 6),
        ("a1", 1, 5),
        ("a2", 0, 6),
        ("a1a", 0, 6),
        ("b1", 0, 7),
    ];
    for (i, (id, count, index)) in expect.iter().enumerate() {
        assert_eq!(nodes[i].id, *id);
        assert_eq!(nodes[i].children_count, *count, "children count of {}", id);
        assert_eq!(nodes[i].children_index, *index, "children index of {}", id);
    }
}

#[test]
fn emit_component_with_property_and_child() {
    // One root declaring `p: Int32`, one child `b` of builtin Rectangle
    // with no bindings.
    let mut root = elem("root", "Window", "WindowVTable");
    root.property_declarations.push(PropertyDeclaration {
        name: "p".to_string(),
        property_type: Type::Int32,
        type_location: Span { offset: 0 },
    });
    root.children.push(rect("b"));
    let c = Component { id: "MyComp".to_string(), root_element: root };
    let mut diag = Diagnostics::new();
    let f = generate(&c, &mut diag).unwrap();
    assert!(!diag.has_error());
    let s = main_struct(&f);
    assert_eq!(s.name, "MyComp");
    // property cell, root member, b member, ctor, tree_fn, component_type
    assert_eq!(s.members.len(), 6);
    match &s.members[0] {
        Declaration::Var(v) => {
            assert_eq!(v.ty, "sixtyfps::Property<int>");
            assert_eq!(v.name, "p");
        },
        _ => panic!("expected the property member first"),
    }
    match &s.members[2] {
        Declaration::Var(v) => {
            assert_eq!(v.ty, "sixtyfps::Rectangle");
            assert_eq!(v.name, "b");
        },
        _ => panic!("expected the member for b"),
    }
    assert_eq!(ctor_statements(&f), Vec::<String>::new());
    let nodes = build_array(&c);
    assert_eq!(nodes.len(), 2);
    assert_eq!(nodes[0].children_count, 1);
    assert_eq!(nodes[0].children_index, 1);
    assert_eq!(nodes[1].children_count, 0);
}

#[test]
fn emit_binding_on_child_is_prefixed() {
    // A binding sets b.color to a numeric-to-string cast of a component
    // property: the statement is prefixed with `b.`.
    let mut b = rect("b");
    b.bindings.push((
        "color".to_string(),
        Expression::Cast {
            from: Box::new(Expression::PropertyReference {
                component: None,
                element: None,
                name: "p".to_string(),
            }),
            from_ty: Type::Int32,
            to: Type::String,
        },
    ));
    let mut root = elem("root", "Window", "WindowVTable");
    root.property_declarations.push(PropertyDeclaration {
        name: "p".to_string(),
        property_type: Type::Int32,
        type_location: Span { offset: 0 },
    });
    root.children.push(b);
    let c = Component { id: "MyComp".to_string(), root_element: root };
    let mut diag = Diagnostics::new();
    let f = generate(&c, &mut diag).unwrap();
    assert_eq!(
        ctor_statements(&f),
        vec!["b.color.set(sixtyfps::SharedString::from_number(p.get(nullptr)));".to_string()]
    );
}

#[test]
fn emit_binding_on_declared_root_property_is_unprefixed() {
    // A property declared on the component root and bound directly keeps
    // its accessor unprefixed.
    let mut root = elem("root", "Window", "WindowVTable");
    root.property_declarations.push(PropertyDeclaration {
        name: "p".to_string(),
        property_type: Type::Int32,
        type_location: Span { offset: 0 },
    });
    root.bindings.push(("p".to_string(), Expression::NumberLiteral(42)));
    let c = Component { id: "MyComp".to_string(), root_element: root };
    let mut diag = Diagnostics::new();
    let f = generate(&c, &mut diag).unwrap();
    assert_eq!(ctor_statements(&f), vec!["p.set(42);".to_string()]);
}

#[test]
fn emit_signal_binding_installs_forwarding_handler() {
    let mut b = rect("b");
    b.bindings.push((
        "clicked".to_string(),
        Expression::SignalReference {
            component: None,
            element: None,
            name: "pressed".to_string(),
        },
    ));
    let mut root = elem("root", "Window", "WindowVTable");
    root.signals_declaration.push("pressed".to_string());
    root.children.push(b);
    let c = Component { id: "MyComp".to_string(), root_element: root };
    let mut diag = Diagnostics::new();
    let f = generate(&c, &mut diag).unwrap();
    assert_eq!(
        ctor_statements(&f),
        vec![
            "b.clicked.set_handler([](const void *root) { reinterpret_cast<const MyComp*>(root)->pressed.emit(root); });"
                .to_string()
        ]
    );
    // One sixtyfps::Signal member per component-level signal.
    let s = main_struct(&f);
    let has_signal_member = s.members.iter().any(|m| match m {
        Declaration::Var(v) => v.ty == "sixtyfps::Signal" && v.name == "pressed",
        _ => false,
    });
    assert!(has_signal_member);
}

#[test]
fn emit_unsupported_expression_still_returns_file() {
    // The file is produced; the statement carries the inline error marker.
    let mut root = elem("root", "Window", "WindowVTable");
    root.bindings.push(("width".to_string(), Expression::Unsupported));
    let c = Component { id: "MyComp".to_string(), root_element: root };
    let mut diag = Diagnostics::new();
    let f = generate(&c, &mut diag).unwrap();
    let stmts = ctor_statements(&f);
    assert_eq!(stmts.len(), 1);
    assert!(stmts[0].contains("#error"));
    assert_eq!(stmts[0], "root.width.set(\n#error: unsupported expression\n);");
}

#[test]
fn emit_unmapped_type_suppresses_output() {
    let mut root = elem("root", "Window", "WindowVTable");
    root.property_declarations.push(PropertyDeclaration {
        name: "p".to_string(),
        property_type: Type::Invalid,
        type_location: Span { offset: 21 },
    });
    let c = Component { id: "MyComp".to_string(), root_element: root };
    let mut diag = Diagnostics::new();
    let r = generate(&c, &mut diag);
    assert!(r.is_none());
    assert!(diag.has_error());
    assert_eq!(diag.inner.len(), 1);
    assert_eq!(diag.inner[0].message, "Cannot map property type to C++");
    assert_eq!(diag.inner[0].span, Span { offset: 21 });
}

#[test]
fn emit_preexisting_error_suppresses_output() {
    let mut root = elem("root", "Window", "WindowVTable");
    root.property_declarations.push(PropertyDeclaration {
        name: "p".to_string(),
        property_type: Type::Int32,
        type_location: Span { offset: 0 },
    });
    let c = Component { id: "MyComp".to_string(), root_element: root };
    let mut diag = Diagnostics::new();
    diag.push_compiler_error(cpp_codegen::diagnostics::CompilerDiagnostic {
        message: "earlier failure".to_string(),
        span: Span { offset: 3 },
    });
    let r = generate(&c, &mut diag);
    assert!(r.is_none());
    assert_eq!(diag.inner.len(), 1);
}

fn sample_component() -> Component {
    let mut b = rect("b");
    b.bindings.push((
        "color".to_string(),
        Expression::Cast {
            from: Box::new(Expression::PropertyReference {
                component: None,
                element: None,
                name: "p".to_string(),
            }),
            from_ty: Type::Int32,
            to: Type::String,
        },
    ));
    let mut root = elem("root", "Window", "WindowVTable");
    root.property_declarations.push(PropertyDeclaration {
        name: "p".to_string(),
        property_type: Type::Int32,
        type_location: Span { offset: 0 },
    });
    root.signals_declaration.push("pressed".to_string());
    root.children.push(b);
    Component { id: "MyComp".to_string(), root_element: root }
}

#[test]
fn emit_twice_is_byte_identical() {
    let c = sample_component();
    let mut d1 = Diagnostics::new();
    let mut d2 = Diagnostics::new();
    let t1 = generate(&c, &mut d1).unwrap().render();
    let t2 = generate(&c, &mut d2).unwrap().render();
    assert_eq!(t1, t2);
}

#[test]
fn emit_full_file_text() {
    let mut root = elem("root", "Window", "WindowVTable");
    root.property_declarations.push(PropertyDeclaration {
        name: "p".to_string(),
        property_type: Type::Int32,
        type_location: Span { offset: 0 },
    });
    root.children.push(rect("b"));
    let c = Component { id: "MyComp".to_string(), root_element: root };
    let mut diag = Diagnostics::new();
    let text = generate(&c, &mut diag).unwrap().render();
    let expected = "#include <sixtyfps.h>\n\
\n\
struct MyComp {\n\
\x20   sixtyfps::Property<int> p;\n\
\x20   sixtyfps::Window root;\n\
\x20   sixtyfps::Rectangle b;\n\
\x20   MyComp (){\n\
\x20   }\n\
\x20   static auto tree_fn (sixtyfps::ComponentRef) -> const sixtyfps::ItemTreeNode* ;\n\
\x20   static const sixtyfps::ComponentVTable component_type;\n\
};\n\
\n\
auto MyComp::tree_fn (sixtyfps::ComponentRef) -> const sixtyfps::ItemTreeNode* {\n\
\x20   static const sixtyfps::ItemTreeNode children[] {\n\
\x20       sixtyfps::make_item_node(offsetof(MyComp, root), &sixtyfps::WindowVTable, 1, 1), sixtyfps::make_item_node(offsetof(MyComp, b), &sixtyfps::RectangleVTable, 0, 2) };\n\
\x20   return children;\n\
}\n\
\n\
const sixtyfps::ComponentVTable MyComp::component_type = { nullptr, sixtyfps::dummy_destory, tree_fn };\n";
    assert_eq!(text, expected);
}
