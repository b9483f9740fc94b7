use cpp_codegen::cpp_ast::{indent, Declaration, File, Function, Struct, Var};

#[test]
fn indent_appends_four_spaces_per_level() {
    let mut out = String::new();
    indent(&mut out, 0);
    assert_eq!(out, "");
    indent(&mut out, 2);
    assert_eq!(out, "        ");
}

#[test]
fn render_var_without_initializer() {
    let v = Var { ty: "int".to_string(), name: "x".to_string(), init: None };
    let mut out = String::new();
    v.render(0, &mut out);
    assert_eq!(out, "int x;\n");
}

#[test]
fn render_var_with_initializer_and_depth() {
    let v = Var { ty: "int".to_string(), name: "x".to_string(), init: Some("1".to_string()) };
    let mut out = String::new();
    v.render(1, &mut out);
    assert_eq!(out, "    int x = 1;\n");
}

#[test]
fn render_function_declaration_only() {
    let f = Function {
        name: "tree_fn".to_string(),
        signature: "() -> int".to_string(),
        is_constructor: false,
        is_static: true,
        statements: None,
    };
    let mut out = String::new();
    f.render(0, &mut out);
    assert_eq!(out, "static auto tree_fn () -> int;\n");
}

#[test]
fn render_constructor_with_statements() {
    let f = Function {
        name: "C".to_string(),
        signature: "()".to_string(),
        is_constructor: true,
        is_static: false,
        statements: Some(vec!["a.set(1);".to_string(), "b.set(2);".to_string()]),
    };
    let mut out = String::new();
    f.render(1, &mut out);
    assert_eq!(out, "    C (){\n        a.set(1);\n        b.set(2);\n    }\n");
}

#[test]
fn render_struct_indents_members() {
    let s = Struct {
        name: "S".to_string(),
        members: vec![Declaration::Var(Var {
            ty: "bool".to_string(),
            name: "b".to_string(),
            init: None,
        })],
    };
    let mut out = String::new();
    s.render(0, &mut out);
    assert_eq!(out, "struct S {\n    bool b;\n};\n");
}

#[test]
fn render_file_includes_then_declarations() {
    let f = File {
        includes: vec!["<sixtyfps.h>".to_string()],
        declarations: vec![Declaration::Var(Var {
            ty: "int".to_string(),
            name: "g".to_string(),
            init: None,
        })],
    };
    assert_eq!(f.render(), "#include <sixtyfps.h>\n\nint g;\n");
}

#[test]
fn render_nested_struct() {
    let inner = Struct {
        name: "In".to_string(),
        members: vec![],
    };
    let s = Struct {
        name: "Out".to_string(),
        members: vec![Declaration::Struct(inner)],
    };
    let mut out = String::new();
    s.render(0, &mut out);
    assert_eq!(out, "struct Out {\n    struct In {\n    };\n};\n");
}
