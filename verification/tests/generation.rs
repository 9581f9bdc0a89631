use ion_cli::generator::{check_namespace_balance, generate, is_declared_type, resolve_named};
use ion_cli::java::JavaLanguage;
use ion_cli::model::{AbstractDataType, FieldReference, FullyQualifiedTypeReference};
use ion_cli::model::{NamespaceNode, SequenceType};
use ion_cli::result::ErrorKind;
use ion_cli::rust::RustLanguage;
use ion_cli::schema::{classify, FieldDefinition, SchemaGraph, TypeDefinition, TypeRef, TypeShape};
use ion_cli::utils::Template;

fn package(name: &str) -> NamespaceNode {
    NamespaceNode::Package(name.to_string())
}

fn type_node(name: &str) -> NamespaceNode {
    NamespaceNode::Type(name.to_string())
}

fn simple(name: &str) -> FullyQualifiedTypeReference {
    FullyQualifiedTypeReference::simple(name.to_string())
}

fn named(name: &str) -> TypeRef {
    TypeRef::Named(name.to_string())
}

fn field(name: &str, type_ref: TypeRef, required: bool) -> FieldDefinition {
    FieldDefinition { name: name.to_string(), type_ref, required }
}

fn definition(name: &str, is_alias: bool, shape: TypeShape) -> TypeDefinition {
    TypeDefinition { name: name.to_string(), is_alias, shape }
}

fn resolved(name: &str, type_reference: FullyQualifiedTypeReference, required: bool) -> FieldReference {
    FieldReference { name: name.to_string(), type_reference, required }
}

fn struct_with_fields(required: bool) -> SchemaGraph {
    SchemaGraph {
        nodes: vec![definition(
            "StructWithFields",
            false,
            TypeShape::Fields(vec![
                field("a", named("int"), required),
                field("b", named("string"), required),
                field("c", named("bool"), required),
            ]),
        )],
        top_level: vec![0],
    }
}

fn struct_with_nested_struct() -> SchemaGraph {
    SchemaGraph {
        nodes: vec![
            definition(
                "outer_struct",
                false,
                TypeShape::Fields(vec![
                    field("count", named("int"), true),
                    field("inner", TypeRef::Inline(1), true),
                    field("label", named("string"), true),
                ]),
            ),
            definition(
                "nested_struct",
                false,
                TypeShape::Fields(vec![field("flag", named("bool"), true)]),
            ),
        ],
        top_level: vec![0],
    }
}

#[test]
fn classification_follows_the_shape() {
    let primitive = TypeShape::Primitive("int".to_string());
    assert_eq!(classify(&definition("a", false, primitive.clone())), Ok(AbstractDataType::Scalar));
    assert_eq!(classify(&definition("a", true, primitive)), Ok(AbstractDataType::WrappedScalar));
    let elements = TypeShape::Elements(named("int"), SequenceType::List);
    assert_eq!(classify(&definition("a", false, elements.clone())), Ok(AbstractDataType::Sequence));
    assert_eq!(classify(&definition("a", true, elements)), Ok(AbstractDataType::WrappedSequence));
    let fields = TypeShape::Fields(vec![]);
    assert_eq!(classify(&definition("a", false, fields.clone())), Ok(AbstractDataType::Structure));
    assert_eq!(classify(&definition("a", true, fields)), Ok(AbstractDataType::Structure));
    let one = TypeShape::Variants(vec!["int".to_string()]);
    assert_eq!(classify(&definition("a", true, one)), Ok(AbstractDataType::Scalar));
    let two = TypeShape::Variants(vec!["red".to_string(), "green".to_string()]);
    assert_eq!(classify(&definition("a", false, two)), Ok(AbstractDataType::Enum));
}

#[test]
fn classification_does_not_depend_on_the_name() {
    for name in ["int", "list", "struct", "", "$int", "Anything"] {
        let shape = TypeShape::Elements(named("string"), SequenceType::SExp);
        assert_eq!(classify(&definition(name, false, shape)), Ok(AbstractDataType::Sequence));
    }
}

#[test]
fn classifying_twice_gives_the_same_shape() {
    let subject = definition("a", true, TypeShape::Primitive("int".to_string()));
    assert_eq!(classify(&subject), classify(&subject));
    let unresolved = definition("b", false, TypeShape::Unresolved);
    assert_eq!(classify(&unresolved), classify(&unresolved));
}

#[test]
fn an_undetermined_shape_is_not_classified() {
    let error = classify(&definition("pending", false, TypeShape::Unresolved)).unwrap_err();
    assert_eq!(error.kind, ErrorKind::InvalidAbstractDataType);
    assert_eq!(error.subject, "pending");
    assert_eq!(error.description, "the shape of the type has not been determined");
    let error = classify(&definition("empty", false, TypeShape::Variants(vec![]))).unwrap_err();
    assert_eq!(error.kind, ErrorKind::InvalidAbstractDataType);
    assert_eq!(error.subject, "empty");
}

#[test]
fn struct_with_fields_in_java() {
    let mut namespace = vec![package("org"), package("example")];
    let units = generate::<JavaLanguage>(&struct_with_fields(true), &mut namespace).unwrap();
    assert_eq!(namespace, vec![package("org"), package("example")]);
    assert_eq!(units.len(), 1);
    let unit = &units[0];
    assert_eq!(unit.file_name, "StructWithFields.java");
    assert_eq!(unit.template, Template::Struct);
    assert_eq!(unit.template_name, "class");
    assert_eq!(unit.node.name, "StructWithFields");
    assert_eq!(unit.node.code_gen_type, Some(AbstractDataType::Structure));
    assert_eq!(
        unit.node.qualified_name,
        vec![package("org"), package("example"), type_node("StructWithFields")]
    );
    assert_eq!(
        unit.node.fields,
        vec![
            resolved("a", simple("int"), true),
            resolved("b", simple("String"), true),
            resolved("c", simple("boolean"), true),
        ]
    );
    assert_eq!(unit.node.base_type, None);
    assert_eq!(unit.node.sequence_type, None);
    assert!(unit.node.variants.is_empty());
    assert!(unit.node.nested_types.is_empty());
}

#[test]
fn optional_fields_are_boxed_in_java() {
    let mut namespace = vec![];
    let units = generate::<JavaLanguage>(&struct_with_fields(false), &mut namespace).unwrap();
    assert_eq!(
        units[0].node.fields,
        vec![
            resolved("a", simple("Integer"), false),
            resolved("b", simple("String"), false),
            resolved("c", simple("Boolean"), false),
        ]
    );
}

#[test]
fn struct_with_fields_in_rust() {
    let mut namespace = vec![];
    let units = generate::<RustLanguage>(&struct_with_fields(true), &mut namespace).unwrap();
    assert_eq!(namespace, vec![]);
    assert_eq!(units.len(), 1);
    let unit = &units[0];
    assert_eq!(unit.file_name, "struct_with_fields.rs");
    assert_eq!(unit.template, Template::Struct);
    assert_eq!(unit.template_name, "struct");
    assert_eq!(unit.node.name, "StructWithFields");
    assert_eq!(
        unit.node.qualified_name,
        vec![package("struct_with_fields"), type_node("StructWithFields")]
    );
    assert_eq!(
        unit.node.fields,
        vec![
            resolved("a", simple("i64"), true),
            resolved("b", simple("String"), true),
            resolved("c", simple("bool"), true),
        ]
    );
}

#[test]
fn optional_fields_keep_their_type_in_rust() {
    let mut namespace = vec![];
    let units = generate::<RustLanguage>(&struct_with_fields(false), &mut namespace).unwrap();
    assert_eq!(
        units[0].node.fields,
        vec![
            resolved("a", simple("i64"), false),
            resolved("b", simple("String"), false),
            resolved("c", simple("bool"), false),
        ]
    );
}

#[test]
fn a_bare_list_of_int_is_a_sequence() {
    let graph = SchemaGraph {
        nodes: vec![definition(
            "int_list",
            false,
            TypeShape::Elements(named("int"), SequenceType::List),
        )],
        top_level: vec![0],
    };
    let mut namespace = vec![];
    let units = generate::<JavaLanguage>(&graph, &mut namespace).unwrap();
    assert_eq!(units.len(), 1);
    assert_eq!(units[0].file_name, "IntList.java");
    assert_eq!(units[0].template, Template::Sequence);
    assert_eq!(units[0].template_name, "sequence");
    assert_eq!(units[0].node.code_gen_type, Some(AbstractDataType::Sequence));
    assert_eq!(units[0].node.sequence_type, Some(SequenceType::List));
    let base = units[0].node.base_type.as_ref().unwrap();
    assert_eq!(base.string_representation::<JavaLanguage>(), "java.util.ArrayList<Integer>");
    assert_eq!(base.parameters, vec![simple("Integer")]);

    let units = generate::<RustLanguage>(&graph, &mut namespace).unwrap();
    let base = units[0].node.base_type.as_ref().unwrap();
    assert_eq!(base.string_representation::<RustLanguage>(), "Vec<i64>");
    assert_eq!(units[0].node.code_gen_type, Some(AbstractDataType::Sequence));
    assert_eq!(namespace, vec![]);
}

#[test]
fn a_named_alias_of_a_list_is_a_wrapped_sequence() {
    let graph = SchemaGraph {
        nodes: vec![definition(
            "names",
            true,
            TypeShape::Elements(named("string"), SequenceType::SExp),
        )],
        top_level: vec![0],
    };
    let mut namespace = vec![];
    let units = generate::<RustLanguage>(&graph, &mut namespace).unwrap();
    assert_eq!(units[0].node.code_gen_type, Some(AbstractDataType::WrappedSequence));
    assert_eq!(units[0].node.sequence_type, Some(SequenceType::SExp));
    assert_eq!(units[0].template, Template::Sequence);
    assert_eq!(
        units[0].node.base_type.as_ref().unwrap().string_representation::<RustLanguage>(),
        "Vec<String>"
    );
}

#[test]
fn scalars_bare_and_wrapped() {
    let graph = SchemaGraph {
        nodes: vec![
            definition("age", false, TypeShape::Primitive("int".to_string())),
            definition("price", true, TypeShape::Primitive("float".to_string())),
            definition("alias", false, TypeShape::Variants(vec!["bool".to_string()])),
        ],
        top_level: vec![0, 1, 2],
    };
    let mut namespace = vec![];
    let units = generate::<JavaLanguage>(&graph, &mut namespace).unwrap();
    assert_eq!(units.len(), 3);
    assert_eq!(units[0].node.code_gen_type, Some(AbstractDataType::Scalar));
    assert_eq!(units[0].node.base_type, Some(simple("int")));
    assert_eq!(units[0].file_name, "Age.java");
    assert_eq!(units[0].template_name, "scalar");
    assert_eq!(units[1].node.code_gen_type, Some(AbstractDataType::WrappedScalar));
    assert_eq!(units[1].node.base_type, Some(simple("double")));
    assert_eq!(units[1].node.qualified_name, vec![type_node("Price")]);
    assert_eq!(units[2].node.code_gen_type, Some(AbstractDataType::Scalar));
    assert_eq!(units[2].node.base_type, Some(simple("boolean")));
    assert_eq!(units[2].template, Template::Scalar);
}

#[test]
fn a_closed_set_of_variants_is_an_enum() {
    let graph = SchemaGraph {
        nodes: vec![definition(
            "colour",
            false,
            TypeShape::Variants(vec!["red".to_string(), "green".to_string(), "blue".to_string()]),
        )],
        top_level: vec![0],
    };
    let mut namespace = vec![];
    let units = generate::<JavaLanguage>(&graph, &mut namespace).unwrap();
    assert_eq!(units[0].node.code_gen_type, Some(AbstractDataType::Enum));
    assert_eq!(units[0].node.variants, vec!["red", "green", "blue"]);
    assert_eq!(units[0].template, Template::Enum);
    assert_eq!(units[0].template_name, "enum");
    assert_eq!(units[0].node.base_type, None);
}

#[test]
fn a_nested_struct_in_java() {
    let mut namespace = vec![package("org")];
    let units = generate::<JavaLanguage>(&struct_with_nested_struct(), &mut namespace).unwrap();
    assert_eq!(namespace, vec![package("org")]);
    assert_eq!(units.len(), 1);
    let outer = &units[0].node;
    assert_eq!(outer.qualified_name, vec![package("org"), type_node("OuterStruct")]);
    assert_eq!(outer.nested_types.len(), 1);
    let inner = &outer.nested_types[0];
    assert_eq!(inner.name, "NestedStruct");
    assert_eq!(inner.code_gen_type, Some(AbstractDataType::Structure));
    assert_eq!(
        inner.qualified_name,
        vec![package("org"), type_node("OuterStruct"), type_node("NestedStruct")]
    );
    assert_eq!(inner.fields, vec![resolved("flag", simple("boolean"), true)]);
    let inner_reference = FullyQualifiedTypeReference::new(
        vec![package("org"), type_node("OuterStruct"), type_node("NestedStruct")],
        vec![],
    );
    assert_eq!(
        outer.fields,
        vec![
            resolved("count", simple("int"), true),
            resolved("inner", inner_reference, true),
            resolved("label", simple("String"), true),
        ]
    );
}

#[test]
fn a_nested_struct_in_rust() {
    let mut namespace = vec![];
    let units = generate::<RustLanguage>(&struct_with_nested_struct(), &mut namespace).unwrap();
    assert_eq!(namespace, vec![]);
    let outer = &units[0].node;
    assert_eq!(outer.qualified_name, vec![package("outer_struct"), type_node("OuterStruct")]);
    let inner = &outer.nested_types[0];
    assert_eq!(
        inner.qualified_name,
        vec![package("outer_struct"), package("nested_struct"), type_node("NestedStruct")]
    );
    assert_eq!(
        outer.fields[1].type_reference.string_representation::<RustLanguage>(),
        "outer_struct::nested_struct::NestedStruct"
    );
    assert_eq!(outer.fields[2], resolved("label", simple("String"), true));
}

#[test]
fn nested_types_at_several_depths_leave_the_path_as_it_was() {
    let graph = SchemaGraph {
        nodes: vec![
            definition(
                "a",
                false,
                TypeShape::Fields(vec![
                    field("first", TypeRef::Inline(1), true),
                    field("second", TypeRef::Inline(3), false),
                    field("third", TypeRef::Inline(4), true),
                ]),
            ),
            definition("b", false, TypeShape::Fields(vec![field("deep", TypeRef::Inline(2), true)])),
            definition("c", false, TypeShape::Fields(vec![])),
            definition("d", false, TypeShape::Elements(named("int"), SequenceType::List)),
            definition("e", true, TypeShape::Primitive("string".to_string())),
        ],
        top_level: vec![0, 2],
    };
    for start in [vec![], vec![package("p")], vec![package("p"), type_node("T")]] {
        let mut namespace = start.clone();
        let units = generate::<RustLanguage>(&graph, &mut namespace).unwrap();
        assert_eq!(namespace, start);
        assert_eq!(units.len(), 2);
        assert_eq!(units[0].node.nested_types.len(), 3);
        assert_eq!(units[0].node.nested_types[0].nested_types.len(), 1);
        let mut namespace = start.clone();
        let units = generate::<JavaLanguage>(&graph, &mut namespace).unwrap();
        assert_eq!(namespace, start);
        assert_eq!(units.len(), 2);
    }
}

#[test]
fn a_bare_nested_sequence_is_used_where_it_stands() {
    let graph = SchemaGraph {
        nodes: vec![
            definition("holder", false, TypeShape::Fields(vec![field("items", TypeRef::Inline(1), true)])),
            definition("items", false, TypeShape::Elements(named("int"), SequenceType::List)),
        ],
        top_level: vec![0],
    };
    let mut namespace = vec![];
    let units = generate::<JavaLanguage>(&graph, &mut namespace).unwrap();
    assert_eq!(
        units[0].node.fields[0].type_reference.string_representation::<JavaLanguage>(),
        "java.util.ArrayList<Integer>"
    );
    assert_eq!(units[0].node.nested_types.len(), 1);
    assert_eq!(
        units[0].node.nested_types[0].type_reference().string_representation::<JavaLanguage>(),
        "java.util.ArrayList<Integer>"
    );
    assert_eq!(units[0].node.type_reference().string_representation::<JavaLanguage>(), "Holder");
}

#[test]
fn an_unknown_name_is_resolved_against_the_declared_types() {
    let graph = SchemaGraph {
        nodes: vec![
            definition("order", false, TypeShape::Fields(vec![field("buyer", named("customer info"), true)])),
            definition("customer_info", false, TypeShape::Fields(vec![field("name", named("string"), true)])),
        ],
        top_level: vec![0, 1],
    };
    assert!(is_declared_type(&graph, "CustomerInfo"));
    assert!(is_declared_type(&graph, "Order"));
    assert!(!is_declared_type(&graph, "customer_info"));
    let mut namespace = vec![];
    let units = generate::<JavaLanguage>(&graph, &mut namespace).unwrap();
    assert_eq!(units.len(), 2);
    assert_eq!(units[0].node.fields, vec![resolved("buyer", simple("CustomerInfo"), true)]);
    assert_eq!(
        resolve_named::<RustLanguage>(&graph, "order", "customer-info"),
        Ok(simple("CustomerInfo"))
    );
}

#[test]
fn an_unknown_name_without_a_declaration_is_an_error() {
    let graph = SchemaGraph {
        nodes: vec![definition(
            "order",
            false,
            TypeShape::Fields(vec![field("buyer", named("customer info"), true)]),
        )],
        top_level: vec![0],
    };
    let mut namespace = vec![package("org")];
    let error = generate::<JavaLanguage>(&graph, &mut namespace).unwrap_err();
    assert_eq!(namespace, vec![package("org")]);
    assert_eq!(error.kind, ErrorKind::InvalidAbstractDataType);
    assert_eq!(error.subject, "order");
    assert_eq!(error.description, "unresolved type reference: customer info");
}

#[test]
fn a_nested_type_is_not_a_declared_type() {
    let graph = SchemaGraph {
        nodes: vec![
            definition(
                "outer",
                false,
                TypeShape::Fields(vec![
                    field("inner", TypeRef::Inline(1), true),
                    field("again", named("inner_type"), true),
                ]),
            ),
            definition("inner_type", false, TypeShape::Fields(vec![])),
        ],
        top_level: vec![0],
    };
    assert!(!is_declared_type(&graph, "InnerType"));
    let mut namespace = vec![];
    let error = generate::<RustLanguage>(&graph, &mut namespace).unwrap_err();
    assert_eq!(error.kind, ErrorKind::InvalidAbstractDataType);
    assert_eq!(error.description, "unresolved type reference: inner_type");
    assert_eq!(namespace, vec![]);
}

#[test]
fn unsupported_constructs_abort_generation() {
    for (name, description) in [
        ("decimal", "decimal and timestamp are not supported"),
        ("timestamp", "decimal and timestamp are not supported"),
        ("$int", "built-in types with nulls are not supported"),
        ("document", "open-ended built-in types are not supported"),
        ("list", "open-ended list, sexp and struct types are not supported"),
        ("struct", "open-ended list, sexp and struct types are not supported"),
        ("sexp", "open-ended list, sexp and struct types are not supported"),
    ] {
        let graph = SchemaGraph {
            nodes: vec![
                definition("fine", false, TypeShape::Primitive("int".to_string())),
                definition(
                    "holder",
                    false,
                    TypeShape::Fields(vec![
                        field("good", named("int"), true),
                        field("bad", named(name), true),
                    ]),
                ),
            ],
            top_level: vec![0, 1],
        };
        let mut namespace = vec![package("org")];
        let error = generate::<JavaLanguage>(&graph, &mut namespace).unwrap_err();
        assert_eq!(error.kind, ErrorKind::UnsupportedSchemaConstruct);
        assert_eq!(error.subject, "holder");
        assert_eq!(error.description, description);
        assert_eq!(namespace, vec![package("org")]);
    }
}

#[test]
fn an_error_in_a_nested_type_leaves_the_path_as_it_was() {
    let graph = SchemaGraph {
        nodes: vec![
            definition(
                "outer",
                false,
                TypeShape::Fields(vec![
                    field("first", TypeRef::Inline(1), true),
                    field("second", TypeRef::Inline(2), true),
                ]),
            ),
            definition("good", false, TypeShape::Fields(vec![])),
            definition("bad", false, TypeShape::Fields(vec![field("when", named("timestamp"), true)])),
        ],
        top_level: vec![0],
    };
    for start in [vec![], vec![package("p")], vec![type_node("T")]] {
        let mut namespace = start.clone();
        let error = generate::<RustLanguage>(&graph, &mut namespace).unwrap_err();
        assert_eq!(error.subject, "bad");
        assert_eq!(error.kind, ErrorKind::UnsupportedSchemaConstruct);
        assert_eq!(namespace, start);
        let mut namespace = start.clone();
        assert!(generate::<JavaLanguage>(&graph, &mut namespace).is_err());
        assert_eq!(namespace, start);
    }
}

#[test]
fn a_type_nested_inside_itself_is_reported() {
    let graph = SchemaGraph {
        nodes: vec![definition(
            "endless",
            false,
            TypeShape::Fields(vec![field("again", TypeRef::Inline(0), true)]),
        )],
        top_level: vec![0],
    };
    let mut namespace = vec![];
    let error = generate::<JavaLanguage>(&graph, &mut namespace).unwrap_err();
    assert_eq!(error.kind, ErrorKind::InvalidAbstractDataType);
    assert_eq!(error.description, "types are nested deeper than the schema has types");
    assert_eq!(namespace, vec![]);

    let graph = SchemaGraph {
        nodes: vec![
            definition("ping", false, TypeShape::Elements(TypeRef::Inline(1), SequenceType::List)),
            definition("pong", false, TypeShape::Fields(vec![field("back", TypeRef::Inline(0), true)])),
        ],
        top_level: vec![0],
    };
    let mut namespace = vec![package("org")];
    let error = generate::<RustLanguage>(&graph, &mut namespace).unwrap_err();
    assert_eq!(error.kind, ErrorKind::InvalidAbstractDataType);
    assert_eq!(error.description, "types are nested deeper than the schema has types");
    assert_eq!(namespace, vec![package("org")]);
}

#[test]
fn a_chain_as_long_as_the_schema_is_generated() {
    let graph = SchemaGraph {
        nodes: vec![
            definition("a", false, TypeShape::Fields(vec![field("b", TypeRef::Inline(1), true)])),
            definition("b", false, TypeShape::Fields(vec![field("c", TypeRef::Inline(2), true)])),
            definition("c", false, TypeShape::Fields(vec![])),
        ],
        top_level: vec![0],
    };
    let mut namespace = vec![];
    let units = generate::<JavaLanguage>(&graph, &mut namespace).unwrap();
    assert_eq!(units[0].node.nested_types[0].nested_types[0].name, "C");
    assert_eq!(
        units[0].node.nested_types[0].nested_types[0].qualified_name,
        vec![type_node("A"), type_node("B"), type_node("C")]
    );
}

#[test]
fn positions_outside_the_schema_are_reported() {
    let graph = SchemaGraph {
        nodes: vec![definition("a", false, TypeShape::Fields(vec![field("b", TypeRef::Inline(7), true)]))],
        top_level: vec![0],
    };
    let mut namespace = vec![];
    let error = generate::<JavaLanguage>(&graph, &mut namespace).unwrap_err();
    assert_eq!(error.kind, ErrorKind::InvalidAbstractDataType);
    assert_eq!(error.subject, "a");
    assert_eq!(error.description, "nested type is not part of the schema");

    let graph = SchemaGraph { nodes: vec![], top_level: vec![0] };
    let error = generate::<JavaLanguage>(&graph, &mut namespace).unwrap_err();
    assert_eq!(error.kind, ErrorKind::InvalidAbstractDataType);
    assert_eq!(error.subject, "");
    assert_eq!(error.description, "top-level type is not part of the schema");
    assert_eq!(namespace, vec![]);
}

#[test]
fn an_undetermined_shape_aborts_generation() {
    let graph = SchemaGraph {
        nodes: vec![
            definition("ready", false, TypeShape::Primitive("int".to_string())),
            definition("pending", false, TypeShape::Unresolved),
        ],
        top_level: vec![0, 1],
    };
    let mut namespace = vec![package("org")];
    let error = generate::<RustLanguage>(&graph, &mut namespace).unwrap_err();
    assert_eq!(error.kind, ErrorKind::InvalidAbstractDataType);
    assert_eq!(error.subject, "pending");
    assert_eq!(namespace, vec![package("org")]);
}

#[test]
fn an_empty_schema_generates_nothing() {
    let graph = SchemaGraph { nodes: vec![], top_level: vec![] };
    let mut namespace = vec![package("org")];
    assert_eq!(generate::<JavaLanguage>(&graph, &mut namespace), Ok(vec![]));
    assert_eq!(namespace, vec![package("org")]);
}

#[test]
fn generating_twice_gives_the_same_units() {
    let graph = struct_with_nested_struct();
    let mut namespace = vec![];
    let first = generate::<RustLanguage>(&graph, &mut namespace);
    let second = generate::<RustLanguage>(&graph, &mut namespace);
    assert_eq!(first, second);
}

#[test]
fn a_path_that_was_not_restored_is_an_imbalance() {
    let before = vec![package("org"), type_node("Foo")];
    assert_eq!(check_namespace_balance("Foo", &before, &before), Ok(()));
    for after in [
        vec![package("org")],
        vec![package("org"), type_node("Bar")],
        vec![package("org"), package("Foo")],
        vec![package("org"), type_node("Foo"), type_node("Bar")],
        vec![],
    ] {
        let error = check_namespace_balance("Foo", &before, &after).unwrap_err();
        assert_eq!(error.kind, ErrorKind::NamespaceImbalance);
        assert_eq!(error.subject, "Foo");
        assert_eq!(error.description, "the namespace path was not restored");
        assert_eq!(
            error.message(),
            "namespace imbalance: the namespace path was not restored (in Foo)"
        );
    }
}

#[test]
fn each_type_has_the_file_of_its_name() {
    let graph = SchemaGraph {
        nodes: vec![
            definition("StructWithFields", false, TypeShape::Fields(vec![])),
            definition("order item", true, TypeShape::Primitive("int".to_string())),
            definition("colour", false, TypeShape::Variants(vec!["a".to_string(), "b".to_string()])),
        ],
        top_level: vec![0, 1, 2],
    };
    let mut namespace = vec![];
    let units = generate::<RustLanguage>(&graph, &mut namespace).unwrap();
    let names: Vec<&str> = units.iter().map(|unit| unit.file_name.as_str()).collect();
    assert_eq!(names, vec!["struct_with_fields.rs", "order_item.rs", "colour.rs"]);
    let units = generate::<JavaLanguage>(&graph, &mut namespace).unwrap();
    let names: Vec<&str> = units.iter().map(|unit| unit.file_name.as_str()).collect();
    assert_eq!(names, vec!["StructWithFields.java", "OrderItem.java", "Colour.java"]);
}
