use ion_cli::model::{AbstractDataType, DataModelNode};
use ion_cli::result::ErrorKind;
use ion_cli::utils::{IonSchemaType, Template};

fn node_of_shape(shape: Option<AbstractDataType>) -> DataModelNode {
    DataModelNode {
        name: "Foo".to_string(),
        code_gen_type: shape,
        qualified_name: vec![],
        base_type: None,
        sequence_type: None,
        fields: vec![],
        variants: vec![],
        nested_types: vec![],
    }
}

#[test]
fn built_in_names_map_to_built_in_types() {
    assert_eq!(IonSchemaType::from("int"), IonSchemaType::Int);
    assert_eq!(IonSchemaType::from("string"), IonSchemaType::String);
    assert_eq!(IonSchemaType::from("symbol"), IonSchemaType::Symbol);
    assert_eq!(IonSchemaType::from("float"), IonSchemaType::Float);
    assert_eq!(IonSchemaType::from("bool"), IonSchemaType::Bool);
    assert_eq!(IonSchemaType::from("blob"), IonSchemaType::Blob);
    assert_eq!(IonSchemaType::from("clob"), IonSchemaType::Clob);
    assert_eq!(IonSchemaType::from("struct"), IonSchemaType::Struct);
    assert_eq!(IonSchemaType::from("list"), IonSchemaType::List);
    assert_eq!(IonSchemaType::from("sexp"), IonSchemaType::SExp);
}

#[test]
fn built_in_names_are_found_in_any_letter_case() {
    assert_eq!(IonSchemaType::from("INT"), IonSchemaType::Int);
    assert_eq!(IonSchemaType::from("String"), IonSchemaType::String);
    assert_eq!(IonSchemaType::from("SExp"), IonSchemaType::SExp);
    assert_eq!(IonSchemaType::from("Struct"), IonSchemaType::Struct);
}

#[test]
fn other_names_are_schema_defined_in_upper_camel_case() {
    assert_eq!(
        IonSchemaType::from("struct_with_fields"),
        IonSchemaType::SchemaDefined("StructWithFields".to_string())
    );
    assert_eq!(
        IonSchemaType::from("customer"),
        IonSchemaType::SchemaDefined("Customer".to_string())
    );
    assert_eq!(
        IonSchemaType::from("integer"),
        IonSchemaType::SchemaDefined("Integer".to_string())
    );
}

#[test]
fn a_name_that_is_no_identifier_is_schema_defined() {
    assert!(!IonSchemaType::is_unsupported("my-custom type"));
    assert_eq!(
        IonSchemaType::from("my-custom type"),
        IonSchemaType::SchemaDefined("MyCustomType".to_string())
    );
    assert_eq!(
        IonSchemaType::try_from("holder", "my-custom type"),
        Ok(IonSchemaType::SchemaDefined("MyCustomType".to_string()))
    );
    assert_eq!(
        IonSchemaType::try_from("holder", ""),
        Ok(IonSchemaType::SchemaDefined(String::new()))
    );
}

#[test]
fn nullable_built_ins_are_rejected() {
    assert!(IonSchemaType::is_unsupported("$int"));
    assert!(IonSchemaType::is_unsupported("$"));
    let error = IonSchemaType::try_from("holder", "$string").unwrap_err();
    assert_eq!(error.kind, ErrorKind::UnsupportedSchemaConstruct);
    assert_eq!(error.subject, "holder");
    assert_eq!(error.description, "built-in types with nulls are not supported");
}

#[test]
fn open_ended_built_ins_are_rejected() {
    for name in ["number", "text", "lob", "document", "nothing", "Number", "TEXT"] {
        assert!(IonSchemaType::is_unsupported(name));
        let error = IonSchemaType::try_from("holder", name).unwrap_err();
        assert_eq!(error.kind, ErrorKind::UnsupportedSchemaConstruct);
        assert_eq!(error.description, "open-ended built-in types are not supported");
    }
}

#[test]
fn decimal_and_timestamp_are_rejected() {
    for name in ["decimal", "timestamp", "Decimal"] {
        assert!(IonSchemaType::is_unsupported(name));
        let error = IonSchemaType::try_from("holder", name).unwrap_err();
        assert_eq!(error.kind, ErrorKind::UnsupportedSchemaConstruct);
        assert_eq!(error.subject, "holder");
        assert_eq!(error.description, "decimal and timestamp are not supported");
    }
}

#[test]
fn supported_names_are_not_unsupported() {
    for name in ["int", "string", "list", "struct", "sexp", "customer", "numbers", ""] {
        assert!(!IonSchemaType::is_unsupported(name));
    }
}

#[test]
fn every_shape_has_its_template() {
    assert_eq!(Template::for_shape(AbstractDataType::Scalar), Template::Scalar);
    assert_eq!(Template::for_shape(AbstractDataType::WrappedScalar), Template::Scalar);
    assert_eq!(Template::for_shape(AbstractDataType::Sequence), Template::Sequence);
    assert_eq!(Template::for_shape(AbstractDataType::WrappedSequence), Template::Sequence);
    assert_eq!(Template::for_shape(AbstractDataType::Structure), Template::Struct);
    assert_eq!(Template::for_shape(AbstractDataType::Enum), Template::Enum);
}

#[test]
fn a_classified_node_has_a_template() {
    let shapes = [
        (AbstractDataType::Scalar, Template::Scalar),
        (AbstractDataType::WrappedScalar, Template::Scalar),
        (AbstractDataType::Sequence, Template::Sequence),
        (AbstractDataType::WrappedSequence, Template::Sequence),
        (AbstractDataType::Structure, Template::Struct),
        (AbstractDataType::Enum, Template::Enum),
    ];
    for (shape, template) in shapes {
        assert_eq!(Template::try_from(&node_of_shape(Some(shape))), Ok(template));
    }
}

#[test]
fn an_unclassified_node_has_no_template() {
    let error = Template::try_from(&node_of_shape(None)).unwrap_err();
    assert_eq!(error.kind, ErrorKind::InvalidAbstractDataType);
    assert_eq!(error.subject, "Foo");
    assert_eq!(
        error.description,
        "can not get a template without determining data model first"
    );
    assert_eq!(
        error.message(),
        "invalid abstract data type: can not get a template without determining data model first (in Foo)"
    );
}
