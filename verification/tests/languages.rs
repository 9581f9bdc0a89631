use ion_cli::java::JavaLanguage;
use ion_cli::model::{FullyQualifiedTypeReference, NamespaceNode};
use ion_cli::rust::RustLanguage;
use ion_cli::utils::{IonSchemaType, Language, Template};

fn package(name: &str) -> NamespaceNode {
    NamespaceNode::Package(name.to_string())
}

fn type_node(name: &str) -> NamespaceNode {
    NamespaceNode::Type(name.to_string())
}

fn simple(name: &str) -> FullyQualifiedTypeReference {
    FullyQualifiedTypeReference::simple(name.to_string())
}

#[test]
fn java_constants() {
    assert_eq!(JavaLanguage::file_extension(), "java");
    assert_eq!(JavaLanguage::name(), "java");
    assert_eq!(JavaLanguage::namespace_separator(), ".");
    assert_eq!(JavaLanguage.to_string(), "java");
    assert_eq!(JavaLanguage::template_name(&Template::Struct), "class");
    assert_eq!(JavaLanguage::template_name(&Template::Scalar), "scalar");
    assert_eq!(JavaLanguage::template_name(&Template::Sequence), "sequence");
    assert_eq!(JavaLanguage::template_name(&Template::Enum), "enum");
}

#[test]
fn rust_constants() {
    assert_eq!(RustLanguage::file_extension(), "rs");
    assert_eq!(RustLanguage::name(), "rust");
    assert_eq!(RustLanguage::namespace_separator(), "::");
    assert_eq!(RustLanguage.to_string(), "rust");
    assert_eq!(RustLanguage::template_name(&Template::Struct), "struct");
    assert_eq!(RustLanguage::template_name(&Template::Scalar), "scalar");
    assert_eq!(RustLanguage::template_name(&Template::Sequence), "sequence");
    assert_eq!(RustLanguage::template_name(&Template::Enum), "enum");
}

#[test]
fn file_names_follow_the_language() {
    assert_eq!(JavaLanguage::file_name_for_type("struct_with_fields"), "StructWithFields");
    assert_eq!(JavaLanguage::file_name_for_type("nested type"), "NestedType");
    assert_eq!(RustLanguage::file_name_for_type("StructWithFields"), "struct_with_fields");
    assert_eq!(RustLanguage::file_name_for_type("struct_with_fields"), "struct_with_fields");
    assert_eq!(RustLanguage::file_name_for_type("nested type"), "nested_type");
    assert_eq!(RustLanguage::file_name_for_type("Foo"), "foo");
}

#[test]
fn java_target_types() {
    assert_eq!(JavaLanguage::target_type(&IonSchemaType::Int), Some("int".to_string()));
    assert_eq!(JavaLanguage::target_type(&IonSchemaType::String), Some("String".to_string()));
    assert_eq!(JavaLanguage::target_type(&IonSchemaType::Symbol), Some("String".to_string()));
    assert_eq!(JavaLanguage::target_type(&IonSchemaType::Float), Some("double".to_string()));
    assert_eq!(JavaLanguage::target_type(&IonSchemaType::Bool), Some("boolean".to_string()));
    assert_eq!(JavaLanguage::target_type(&IonSchemaType::Blob), Some("byte[]".to_string()));
    assert_eq!(JavaLanguage::target_type(&IonSchemaType::Clob), Some("byte[]".to_string()));
    assert_eq!(JavaLanguage::target_type(&IonSchemaType::List), None);
    assert_eq!(JavaLanguage::target_type(&IonSchemaType::SExp), None);
    assert_eq!(JavaLanguage::target_type(&IonSchemaType::Struct), None);
    assert_eq!(
        JavaLanguage::target_type(&IonSchemaType::SchemaDefined("Customer".to_string())),
        Some("Customer".to_string())
    );
}

#[test]
fn rust_target_types() {
    assert_eq!(RustLanguage::target_type(&IonSchemaType::Int), Some("i64".to_string()));
    assert_eq!(RustLanguage::target_type(&IonSchemaType::String), Some("String".to_string()));
    assert_eq!(RustLanguage::target_type(&IonSchemaType::Symbol), Some("String".to_string()));
    assert_eq!(RustLanguage::target_type(&IonSchemaType::Float), Some("f64".to_string()));
    assert_eq!(RustLanguage::target_type(&IonSchemaType::Bool), Some("bool".to_string()));
    assert_eq!(RustLanguage::target_type(&IonSchemaType::Blob), Some("Vec<u8>".to_string()));
    assert_eq!(RustLanguage::target_type(&IonSchemaType::Clob), Some("Vec<u8>".to_string()));
    assert_eq!(RustLanguage::target_type(&IonSchemaType::List), None);
    assert_eq!(RustLanguage::target_type(&IonSchemaType::SExp), None);
    assert_eq!(RustLanguage::target_type(&IonSchemaType::Struct), None);
    assert_eq!(
        RustLanguage::target_type(&IonSchemaType::SchemaDefined("Customer".to_string())),
        Some("Customer".to_string())
    );
}

#[test]
fn built_in_types_of_each_language() {
    for name in ["int", "String", "boolean", "byte[]", "double"] {
        assert!(JavaLanguage::is_built_in_type(name.to_string()));
    }
    for name in ["i64", "Integer", "long", "Customer", ""] {
        assert!(!JavaLanguage::is_built_in_type(name.to_string()));
    }
    for name in ["i64", "String", "bool", "Vec<u8>", "f64"] {
        assert!(RustLanguage::is_built_in_type(name.to_string()));
    }
    for name in ["int", "boolean", "Vec", "Customer", ""] {
        assert!(!RustLanguage::is_built_in_type(name.to_string()));
    }
}

#[test]
fn java_wrapper_classes() {
    assert_eq!(JavaLanguage::wrapper_class_or_none("int"), Some("Integer".to_string()));
    assert_eq!(JavaLanguage::wrapper_class_or_none("boolean"), Some("Boolean".to_string()));
    assert_eq!(JavaLanguage::wrapper_class_or_none("double"), Some("Double".to_string()));
    assert_eq!(JavaLanguage::wrapper_class_or_none("long"), Some("Long".to_string()));
    assert_eq!(JavaLanguage::wrapper_class_or_none("String"), None);
    assert_eq!(JavaLanguage::wrapper_class_or_none("Integer"), None);
    assert_eq!(JavaLanguage::wrapper_class("int"), "Integer");
    assert_eq!(JavaLanguage::wrapper_class("boolean"), "Boolean");
    assert_eq!(JavaLanguage::wrapper_class("double"), "Double");
    assert_eq!(JavaLanguage::wrapper_class("long"), "Long");
    assert_eq!(JavaLanguage::wrapper_class("String"), "String");
    assert_eq!(JavaLanguage::wrapper_class("byte[]"), "byte[]");
}

#[test]
fn java_primitive_data_types() {
    assert_eq!(JavaLanguage::primitive_data_type("Integer"), "int");
    assert_eq!(JavaLanguage::primitive_data_type("Boolean"), "boolean");
    assert_eq!(JavaLanguage::primitive_data_type("Double"), "double");
    assert_eq!(JavaLanguage::primitive_data_type("Long"), "long");
    assert_eq!(JavaLanguage::primitive_data_type("Short"), "short");
    assert_eq!(JavaLanguage::primitive_data_type("Byte"), "byte");
    assert_eq!(JavaLanguage::primitive_data_type("Float"), "float");
    assert_eq!(JavaLanguage::primitive_data_type("Character"), "char");
    assert_eq!(JavaLanguage::primitive_data_type("String"), "String");
    assert_eq!(JavaLanguage::primitive_data_type("int"), "int");
}

#[test]
fn unboxing_a_wrapper_class_gives_the_primitive_back() {
    for primitive in ["int", "boolean", "double", "long"] {
        let wrapper = JavaLanguage::wrapper_class(primitive);
        assert_eq!(JavaLanguage::primitive_data_type(&wrapper), primitive);
        assert_eq!(JavaLanguage::wrapper_class_or_none(&wrapper), None);
    }
}

#[test]
fn java_optional_boxes_a_primitive() {
    assert_eq!(JavaLanguage::target_type_as_optional(simple("int")), simple("Integer"));
    assert_eq!(JavaLanguage::target_type_as_optional(simple("boolean")), simple("Boolean"));
    assert_eq!(JavaLanguage::target_type_as_optional(simple("double")), simple("Double"));
    assert_eq!(JavaLanguage::target_type_as_optional(simple("long")), simple("Long"));
}

#[test]
fn java_optional_leaves_a_reference_type_unchanged() {
    assert_eq!(JavaLanguage::target_type_as_optional(simple("String")), simple("String"));
    assert_eq!(JavaLanguage::target_type_as_optional(simple("Integer")), simple("Integer"));
    let list = JavaLanguage::target_type_as_sequence(simple("int"));
    let expected = JavaLanguage::target_type_as_sequence(simple("int"));
    assert_eq!(JavaLanguage::target_type_as_optional(list), expected);
    let qualified = FullyQualifiedTypeReference::new(
        vec![package("org"), package("example"), type_node("Foo")],
        vec![],
    );
    let same = FullyQualifiedTypeReference::new(
        vec![package("org"), package("example"), type_node("Foo")],
        vec![],
    );
    assert_eq!(JavaLanguage::target_type_as_optional(qualified), same);
}

#[test]
fn rust_optional_leaves_the_type_unchanged() {
    assert_eq!(RustLanguage::target_type_as_optional(simple("i64")), simple("i64"));
    assert_eq!(RustLanguage::target_type_as_optional(simple("Foo")), simple("Foo"));
}

#[test]
fn java_sequence_is_an_array_list_of_the_boxed_element() {
    let sequence = JavaLanguage::target_type_as_sequence(simple("int"));
    assert_eq!(
        sequence.qualified_name,
        vec![package("java"), package("util"), type_node("ArrayList")]
    );
    assert_eq!(sequence.parameters, vec![simple("Integer")]);
    assert_eq!(sequence.string_representation::<JavaLanguage>(), "java.util.ArrayList<Integer>");

    let sequence = JavaLanguage::target_type_as_sequence(simple("Foo"));
    assert_eq!(sequence.parameters, vec![simple("Foo")]);
    assert_eq!(sequence.string_representation::<JavaLanguage>(), "java.util.ArrayList<Foo>");
}

#[test]
fn java_sequence_of_a_sequence() {
    let inner = JavaLanguage::target_type_as_sequence(simple("double"));
    let outer = JavaLanguage::target_type_as_sequence(inner);
    assert_eq!(outer.parameters.len(), 1);
    assert_eq!(
        outer.string_representation::<JavaLanguage>(),
        "java.util.ArrayList<java.util.ArrayList<Double>>"
    );
}

#[test]
fn rust_sequence_is_a_vec_of_the_element() {
    let sequence = RustLanguage::target_type_as_sequence(simple("i64"));
    assert_eq!(sequence.qualified_name, vec![type_node("Vec")]);
    assert_eq!(sequence.parameters, vec![simple("i64")]);
    assert_eq!(sequence.string_representation::<RustLanguage>(), "Vec<i64>");
    let nested = RustLanguage::target_type_as_sequence(sequence);
    assert_eq!(nested.string_representation::<RustLanguage>(), "Vec<Vec<i64>>");
}

#[test]
fn qualified_names_are_joined_by_the_separator() {
    let reference = FullyQualifiedTypeReference::new(
        vec![package("org"), package("example"), type_node("Foo")],
        vec![],
    );
    assert_eq!(JavaLanguage::fully_qualified_type_ref(&reference), "org.example.Foo");
    assert_eq!(RustLanguage::fully_qualified_type_ref(&reference), "org::example::Foo");
    assert_eq!(reference.joined_name("/"), "org/example/Foo");
    assert_eq!(reference.string_representation::<JavaLanguage>(), "org.example.Foo");
    assert_eq!(reference.string_representation::<RustLanguage>(), "org::example::Foo");
    let nameless = FullyQualifiedTypeReference::new(vec![], vec![]);
    assert_eq!(JavaLanguage::fully_qualified_type_ref(&nameless), "");
}

#[test]
fn the_qualified_name_leaves_the_parameters_out() {
    let sequence = JavaLanguage::target_type_as_sequence(simple("int"));
    assert_eq!(JavaLanguage::fully_qualified_type_ref(&sequence), "java.util.ArrayList");
}

#[test]
fn parameters_are_written_between_angle_brackets() {
    let map = FullyQualifiedTypeReference::new(
        vec![package("java"), package("util"), type_node("Map")],
        vec![simple("String"), simple("Integer")],
    );
    assert_eq!(map.representation_with("."), "java.util.Map<String, Integer>");
    assert_eq!(map.representation_with("::"), "java::util::Map<String, Integer>");
}

#[test]
fn a_clone_of_a_reference_is_equal_to_it() {
    let map = FullyQualifiedTypeReference::new(
        vec![package("java"), package("util"), type_node("Map")],
        vec![simple("String"), JavaLanguage::target_type_as_sequence(simple("int"))],
    );
    assert_eq!(map.clone(), map);
    assert_eq!(package("a").clone(), package("a"));
    assert_eq!(type_node("A").clone(), type_node("A"));
    assert_eq!(package("a").name(), "a");
    assert_eq!(type_node("A").name(), "A");
}

#[test]
fn java_enters_and_leaves_one_segment() {
    let mut namespace = vec![package("org"), package("example")];
    JavaLanguage::add_type_to_namespace(false, "struct_with_fields", &mut namespace);
    assert_eq!(
        namespace,
        vec![package("org"), package("example"), type_node("StructWithFields")]
    );
    JavaLanguage::add_type_to_namespace(true, "nested_type", &mut namespace);
    assert_eq!(
        namespace,
        vec![
            package("org"),
            package("example"),
            type_node("StructWithFields"),
            type_node("NestedType")
        ]
    );
    JavaLanguage::reset_namespace(&mut namespace);
    assert_eq!(
        namespace,
        vec![package("org"), package("example"), type_node("StructWithFields")]
    );
    JavaLanguage::reset_namespace(&mut namespace);
    assert_eq!(namespace, vec![package("org"), package("example")]);
}

#[test]
fn java_reset_of_an_empty_path_is_empty() {
    let mut namespace: Vec<NamespaceNode> = vec![];
    JavaLanguage::reset_namespace(&mut namespace);
    assert_eq!(namespace, vec![]);
}

#[test]
fn rust_enters_a_module_and_a_type() {
    let mut namespace: Vec<NamespaceNode> = vec![];
    RustLanguage::add_type_to_namespace(false, "Foo", &mut namespace);
    assert_eq!(namespace, vec![package("foo"), type_node("Foo")]);
    RustLanguage::reset_namespace(&mut namespace);
    assert_eq!(namespace, vec![]);
}

#[test]
fn rust_nested_type_replaces_the_type_of_its_parent() {
    let mut namespace = vec![package("foo"), type_node("Foo")];
    RustLanguage::add_type_to_namespace(true, "nested_type", &mut namespace);
    assert_eq!(
        namespace,
        vec![package("foo"), package("nested_type"), type_node("NestedType")]
    );
    RustLanguage::reset_namespace(&mut namespace);
    assert_eq!(namespace, vec![package("foo")]);
    RustLanguage::add_type_to_namespace(true, "other_type", &mut namespace);
    assert_eq!(
        namespace,
        vec![package("foo"), package("other_type"), type_node("OtherType")]
    );
    RustLanguage::reset_namespace(&mut namespace);
    assert_eq!(namespace, vec![package("foo")]);
    RustLanguage::reset_namespace(&mut namespace);
    assert_eq!(namespace, vec![]);
}

#[test]
fn rust_top_level_type_keeps_a_type_at_the_end_of_the_path() {
    let mut namespace = vec![package("foo"), type_node("Foo")];
    RustLanguage::add_type_to_namespace(false, "bar", &mut namespace);
    assert_eq!(
        namespace,
        vec![package("foo"), type_node("Foo"), package("bar"), type_node("Bar")]
    );
    RustLanguage::reset_namespace(&mut namespace);
    assert_eq!(namespace, vec![package("foo"), type_node("Foo")]);
}

#[test]
fn rust_reset_pops_a_lone_type_and_an_empty_path_stays_empty() {
    let mut namespace = vec![type_node("Foo")];
    RustLanguage::reset_namespace(&mut namespace);
    assert_eq!(namespace, vec![]);
    RustLanguage::reset_namespace(&mut namespace);
    assert_eq!(namespace, vec![]);
    let mut namespace = vec![package("a"), package("b")];
    RustLanguage::reset_namespace(&mut namespace);
    assert_eq!(namespace, vec![package("a")]);
}
