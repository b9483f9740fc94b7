use cpp_codegen::diagnostics::Span;
use cpp_codegen::expression_tree::Expression;
use cpp_codegen::generator::compile_expression;
use cpp_codegen::object_tree::PropertyDeclaration;
use cpp_codegen::cpp_ast::CppType;
use cpp_codegen::typeregister::Type;

fn decl(ty: Type, offset: usize) -> PropertyDeclaration {
    PropertyDeclaration {
        name: "p".to_string(),
        property_type: ty,
        type_location: Span { offset },
    }
}

#[test]
fn cpp_type_maps_each_supported_type() {
    assert_eq!(decl(Type::Float32, 0).cpp_type().unwrap(), "float");
    assert_eq!(decl(Type::Int32, 0).cpp_type().unwrap(), "int");
    assert_eq!(decl(Type::String, 0).cpp_type().unwrap(), "sixtyfps::SharedString");
    assert_eq!(decl(Type::Color, 0).cpp_type().unwrap(), "uint32_t");
    assert_eq!(decl(Type::Bool, 0).cpp_type().unwrap(), "bool");
}

#[test]
fn cpp_type_rejects_unsupported_types_with_span() {
    let err = decl(Type::Invalid, 7).cpp_type().unwrap_err();
    assert_eq!(err.message, "Cannot map property type to C++");
    assert_eq!(err.span, Span { offset: 7 });
    let err = decl(Type::Signal, 13).cpp_type().unwrap_err();
    assert_eq!(err.span, Span { offset: 13 });
}

#[test]
fn compile_string_literal_is_escaped() {
    let e = Expression::StringLiteral("a\"b\\c\nd\te\rf".to_string());
    assert_eq!(
        compile_expression(&e),
        "sixtyfps::SharedString(\"a\\\"b\\\\c\\nd\\te\\rf\")"
    );
}

#[test]
fn compile_empty_string_literal() {
    let e = Expression::StringLiteral(String::new());
    assert_eq!(compile_expression(&e), "sixtyfps::SharedString(\"\")");
}

#[test]
fn compile_number_literal_decimal() {
    assert_eq!(compile_expression(&Expression::NumberLiteral(12034)), "12034");
    assert_eq!(compile_expression(&Expression::NumberLiteral(0)), "0");
    assert_eq!(
        compile_expression(&Expression::NumberLiteral(u64::MAX)),
        "18446744073709551615"
    );
}

#[test]
fn compile_property_reference_reads_value() {
    let e = Expression::PropertyReference {
        component: None,
        element: None,
        name: "width".to_string(),
    };
    assert_eq!(compile_expression(&e), "width.get(nullptr)");
}

#[test]
fn compile_cast_int_to_string_uses_from_number() {
    let e = Expression::Cast {
        from: Box::new(Expression::PropertyReference {
            component: None,
            element: None,
            name: "p".to_string(),
        }),
        from_ty: Type::Int32,
        to: Type::String,
    };
    assert_eq!(
        compile_expression(&e),
        "sixtyfps::SharedString::from_number(p.get(nullptr))"
    );
}

#[test]
fn compile_cast_float_to_string_uses_from_number() {
    let e = Expression::Cast {
        from: Box::new(Expression::NumberLiteral(3)),
        from_ty: Type::Float32,
        to: Type::String,
    };
    assert_eq!(compile_expression(&e), "sixtyfps::SharedString::from_number(3)");
}

#[test]
fn compile_cast_other_pairs_pass_through() {
    let e = Expression::Cast {
        from: Box::new(Expression::NumberLiteral(5)),
        from_ty: Type::Int32,
        to: Type::Float32,
    };
    assert_eq!(compile_expression(&e), "5");
}

#[test]
fn compile_signal_reference_renders_error_marker() {
    let e = Expression::SignalReference {
        component: None,
        element: None,
        name: "clicked".to_string(),
    };
    let out = compile_expression(&e);
    assert!(out.contains("#error"));
}

#[test]
fn compile_unsupported_renders_error_marker() {
    let out = compile_expression(&Expression::Unsupported);
    assert_eq!(out, "\n#error: unsupported expression\n");
}

#[test]
fn compile_twice_is_byte_identical() {
    let e = Expression::Cast {
        from: Box::new(Expression::StringLiteral("x\"y".to_string())),
        from_ty: Type::Int32,
        to: Type::String,
    };
    assert_eq!(compile_expression(&e), compile_expression(&e));
}
