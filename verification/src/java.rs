//! The Java adapter.

use vstd::prelude::*;
use crate::model::{path_names, path_view, simple_reference, FullyQualifiedTypeReference};
use crate::model::{representation, NamespaceNode, NamespaceSegment, TypeReference};
use crate::text::{case_converted, str_eq, to_case, CaseStyle};
use crate::utils::{IonSchemaType, Language, SchemaType, Template};

verus! {

/// The Java adapter.
pub struct JavaLanguage;

/// The wrapper class of a Java primitive; none for any other name.
pub open spec fn java_wrapper_class(name: Seq<char>) -> Option<Seq<char>> {
    if name == "int"@ {
        Some("Integer"@)
    } else if name == "boolean"@ {
        Some("Boolean"@)
    } else if name == "double"@ {
        Some("Double"@)
    } else if name == "long"@ {
        Some("Long"@)
    } else {
        None
    }
}

/// The primitive of a Java wrapper class; any other name is itself.
pub open spec fn java_primitive(name: Seq<char>) -> Seq<char> {
    if name == "Integer"@ {
        "int"@
    } else if name == "Boolean"@ {
        "boolean"@
    } else if name == "Double"@ {
        "double"@
    } else if name == "Long"@ {
        "long"@
    } else if name == "Short"@ {
        "short"@
    } else if name == "Byte"@ {
        "byte"@
    } else if name == "Float"@ {
        "float"@
    } else if name == "Character"@ {
        "char"@
    } else {
        name
    }
}

/// A reference with its primitive replaced by the wrapper class: a
/// reference that is written as a primitive becomes the wrapper class, and
/// any other reference is itself.
pub open spec fn java_boxed(target: TypeReference) -> TypeReference {
    match java_wrapper_class(representation(target, "."@)) {
        Some(wrapper) => simple_reference(wrapper),
        None => target,
    }
}

/// The path of Java's list type.
pub open spec fn java_list_path() -> Seq<NamespaceSegment> {
    seq![
        NamespaceSegment::Package("java"@),
        NamespaceSegment::Package("util"@),
        NamespaceSegment::Type("ArrayList"@),
    ]
}

impl JavaLanguage {
    /// Returns the wrapper class for the given primitive data type,
    /// otherwise returns `None`.
    pub fn wrapper_class_or_none(primitive_data_type: &str) -> (wrapper: Option<String>)
        ensures
            match wrapper {
                Some(name) => java_wrapper_class(primitive_data_type@) == Some(name@),
                None => java_wrapper_class(primitive_data_type@) is None,
            },
    {
        if str_eq(primitive_data_type, "int") {
            Some("Integer".to_owned())
        } else if str_eq(primitive_data_type, "boolean") {
            Some("Boolean".to_owned())
        } else if str_eq(primitive_data_type, "double") {
            Some("Double".to_owned())
        } else if str_eq(primitive_data_type, "long") {
            Some("Long".to_owned())
        } else {
            None
        }
    }

    /// Returns the wrapper class for the given primitive data type; a name
    /// that is no primitive is returned as it is.
    pub fn wrapper_class(primitive_data_type: &str) -> (wrapper: String)
        ensures
            wrapper@ == match java_wrapper_class(primitive_data_type@) {
                Some(name) => name,
                None => primitive_data_type@,
            },
    {
        match Self::wrapper_class_or_none(primitive_data_type) {
            None => primitive_data_type.to_owned(),
            Some(wrapper_class) => wrapper_class,
        }
    }

    /// Returns the primitive data type for the given wrapper class, or
    /// `wrapper_class` if it does not have an equivalent primitive type.
    pub fn primitive_data_type(wrapper_class: &str) -> (primitive: &str)
        ensures
            primitive@ == java_primitive(wrapper_class@),
    {
        if str_eq(wrapper_class, "Integer") {
            "int"
        } else if str_eq(wrapper_class, "Boolean") {
            "boolean"
        } else if str_eq(wrapper_class, "Double") {
            "double"
        } else if str_eq(wrapper_class, "Long") {
            "long"
        } else if str_eq(wrapper_class, "Short") {
            "short"
        } else if str_eq(wrapper_class, "Byte") {
            "byte"
        } else if str_eq(wrapper_class, "Float") {
            "float"
        } else if str_eq(wrapper_class, "Character") {
            "char"
        } else {
            wrapper_class
        }
    }

    /// The given type with its primitive replaced by the wrapper class.
    pub fn boxed(target_type: FullyQualifiedTypeReference) -> (boxed: FullyQualifiedTypeReference)
        ensures
            boxed@ == java_boxed(target_type@),
    {
        let written = target_type.representation_with(".");
        match Self::wrapper_class_or_none(written.as_str()) {
            Some(wrapper_name) => FullyQualifiedTypeReference::simple(wrapper_name),
            None => target_type,
        }
    }

    /// The name of the language.
    pub fn to_string(&self) -> (name: String)
        ensures
            name@ == "java"@,
    {
        "java".to_owned()
    }
}

/// A primitive that may be absent is its wrapper class, and a type that is
/// not written as a primitive is itself when it may be absent. So it is
/// with the name of a primitive alone: the wrapper class of `int`, say,
/// is no primitive, and making it optional once more changes nothing.
pub proof fn lemma_optional_boxes_primitives(target: TypeReference, name: Seq<char>)
    ensures
        java_wrapper_class(representation(target, "."@)) matches Some(wrapper)
            ==> JavaLanguage::optional_of(target) == simple_reference(wrapper),
        java_wrapper_class(representation(target, "."@)) is None ==> JavaLanguage::optional_of(
            target,
        ) == target,
        java_wrapper_class(name) matches Some(wrapper) ==> JavaLanguage::optional_of(
            simple_reference(name),
        ) == simple_reference(wrapper) && JavaLanguage::optional_of(simple_reference(wrapper))
            == simple_reference(wrapper),
{
    lemma_simple_representation(name, "."@);
    if let Some(wrapper) = java_wrapper_class(name) {
        lemma_simple_representation(wrapper, "."@);
        lemma_wrapper_is_no_primitive(name);
    }
}

/// A reference by a single name is written as that name.
pub proof fn lemma_simple_representation(name: Seq<char>, separator: Seq<char>)
    ensures
        representation(simple_reference(name), separator) == name,
{
    assert(path_names(simple_reference(name).qualified_name) =~= seq![name]);
}

/// The wrapper class of a primitive is not itself a primitive, and its
/// primitive is the one it wraps.
pub proof fn lemma_wrapper_is_no_primitive(name: Seq<char>)
    ensures
        java_wrapper_class(name) matches Some(wrapper) ==> java_wrapper_class(wrapper) is None
            && java_primitive(wrapper) == name,
{
    reveal_strlit("int");
    reveal_strlit("boolean");
    reveal_strlit("double");
    reveal_strlit("long");
    reveal_strlit("Integer");
    reveal_strlit("Boolean");
    reveal_strlit("Double");
    reveal_strlit("Long");
    if let Some(wrapper) = java_wrapper_class(name) {
        assert(wrapper[0] == 'I' || wrapper[0] == 'B' || wrapper[0] == 'D' || wrapper[0] == 'L');
        assert("int"@[0] == 'i');
        assert("boolean"@[0] == 'b');
        assert("double"@[0] == 'd');
        assert("long"@[0] == 'l');
    }
}

impl Language for JavaLanguage {
    open spec fn extension() -> Seq<char> {
        "java"@
    }

    fn file_extension() -> (extension: String) {
        "java".to_owned()
    }

    open spec fn canonical_name() -> Seq<char> {
        "java"@
    }

    fn name() -> (name: String) {
        "java".to_owned()
    }

    open spec fn file_name(name: Seq<char>) -> Seq<char> {
        case_converted(name, CaseStyle::UpperCamel)
    }

    fn file_name_for_type(name: &str) -> (file_name: String) {
        to_case(name, CaseStyle::UpperCamel)
    }

    open spec fn mapped_type(schema_type: SchemaType) -> Option<Seq<char>> {
        match schema_type {
            SchemaType::Int => Some("int"@),
            SchemaType::String => Some("String"@),
            SchemaType::Symbol => Some("String"@),
            SchemaType::Float => Some("double"@),
            SchemaType::Bool => Some("boolean"@),
            SchemaType::Blob => Some("byte[]"@),
            SchemaType::Clob => Some("byte[]"@),
            SchemaType::List => None,
            SchemaType::SExp => None,
            SchemaType::Struct => None,
            SchemaType::SchemaDefined(name) => Some(name),
        }
    }

    fn target_type(ion_schema_type: &IonSchemaType) -> (target: Option<String>) {
        match ion_schema_type {
            IonSchemaType::Int => Some("int".to_owned()),
            IonSchemaType::String => Some("String".to_owned()),
            IonSchemaType::Symbol => Some("String".to_owned()),
            IonSchemaType::Float => Some("double".to_owned()),
            IonSchemaType::Bool => Some("boolean".to_owned()),
            IonSchemaType::Blob => Some("byte[]".to_owned()),
            IonSchemaType::Clob => Some("byte[]".to_owned()),
            IonSchemaType::List => None,
            IonSchemaType::SExp => None,
            IonSchemaType::Struct => None,
            IonSchemaType::SchemaDefined(name) => Some(name.clone()),
        }
    }

    open spec fn container() -> Seq<NamespaceSegment> {
        java_list_path()
    }

    open spec fn boxed(target: TypeReference) -> TypeReference {
        java_boxed(target)
    }

    open spec fn sequence_of(element: TypeReference) -> TypeReference {
        TypeReference { qualified_name: java_list_path(), parameters: seq![java_boxed(element)] }
    }

    proof fn lemma_sequence_wraps_element(element: TypeReference) {
    }

    fn target_type_as_sequence(target_type: FullyQualifiedTypeReference) -> (sequence:
        FullyQualifiedTypeReference) {
        let element = Self::boxed(target_type);
        let mut path: Vec<NamespaceNode> = Vec::new();
        path.push(NamespaceNode::Package("java".to_owned()));
        path.push(NamespaceNode::Package("util".to_owned()));
        path.push(NamespaceNode::Type("ArrayList".to_owned()));
        let mut parameters: Vec<FullyQualifiedTypeReference> = Vec::new();
        parameters.push(element);
        let sequence = FullyQualifiedTypeReference::new(path, parameters);
        assert(sequence@.qualified_name =~= java_list_path());
        assert(sequence@.parameters =~= seq![java_boxed(target_type@)]);
        sequence
    }

    open spec fn built_in(name: Seq<char>) -> bool {
        name == "int"@ || name == "String"@ || name == "boolean"@ || name == "byte[]"@ || name
            == "double"@
    }

    fn is_built_in_type(name: String) -> (built_in: bool) {
        let name = name.as_str();
        str_eq(name, "int") || str_eq(name, "String") || str_eq(name, "boolean") || str_eq(
            name,
            "byte[]",
        ) || str_eq(name, "double")
    }

    fn fully_qualified_type_ref(name: &FullyQualifiedTypeReference) -> (text: String) {
        name.joined_name(".")
    }

    open spec fn template_file(template: Template) -> Seq<char> {
        match template {
            Template::Struct => "class"@,
            Template::Scalar => "scalar"@,
            Template::Sequence => "sequence"@,
            Template::Enum => "enum"@,
        }
    }

    fn template_name(template: &Template) -> (name: String) {
        match template {
            Template::Struct => "class".to_owned(),
            Template::Scalar => "scalar".to_owned(),
            Template::Sequence => "sequence".to_owned(),
            Template::Enum => "enum".to_owned(),
        }
    }

    open spec fn separator() -> Seq<char> {
        "."@
    }

    fn namespace_separator() -> (separator: &'static str) {
        "."
    }

    open spec fn entered(is_nested: bool, name: Seq<char>, path: Seq<NamespaceSegment>) -> Seq<
        NamespaceSegment,
    > {
        path.push(NamespaceSegment::Type(case_converted(name, CaseStyle::UpperCamel)))
    }

    fn add_type_to_namespace(
        is_nested_type: bool,
        name: &str,
        namespace: &mut Vec<NamespaceNode>,
    ) {
        namespace.push(NamespaceNode::Type(to_case(name, CaseStyle::UpperCamel)));
        assert(path_view(namespace@) =~= Self::entered(
            is_nested_type,
            name@,
            path_view(old(namespace)@),
        ));
    }

    open spec fn left(path: Seq<NamespaceSegment>) -> Seq<NamespaceSegment> {
        if path.len() == 0 {
            path
        } else {
            path.drop_last()
        }
    }

    fn reset_namespace(namespace: &mut Vec<NamespaceNode>) {
        namespace.pop();
        assert(path_view(namespace@) =~= Self::left(path_view(old(namespace)@)));
    }

    open spec fn optional_of(target: TypeReference) -> TypeReference {
        java_boxed(target)
    }

    fn target_type_as_optional(target_type: FullyQualifiedTypeReference) -> (optional:
        FullyQualifiedTypeReference) {
        Self::boxed(target_type)
    }

    open spec fn scope_base(is_nested: bool, path: Seq<NamespaceSegment>) -> Seq<
        NamespaceSegment,
    > {
        path
    }

    open spec fn in_scope(base: Seq<NamespaceSegment>, path: Seq<NamespaceSegment>) -> bool {
        path.len() == base.len() + 1 && path.drop_last() == base
    }

    proof fn lemma_top_level_base(path: Seq<NamespaceSegment>) {
    }

    proof fn lemma_boxing_keeps_well_formed(target: TypeReference) {
        if let Some(wrapper) = java_wrapper_class(representation(target, "."@)) {
            assert(simple_reference(wrapper).well_formed());
        }
    }

    proof fn lemma_scope_is_not_empty(base: Seq<NamespaceSegment>, path: Seq<NamespaceSegment>) {
    }

    proof fn lemma_enter_opens_scope(
        is_nested: bool,
        name: Seq<char>,
        path: Seq<NamespaceSegment>,
    ) {
        assert(Self::entered(is_nested, name, path).drop_last() =~= path);
    }

    proof fn lemma_nested_keeps_scope(base: Seq<NamespaceSegment>, path: Seq<NamespaceSegment>) {
    }

    proof fn lemma_reset_closes_scope(base: Seq<NamespaceSegment>, path: Seq<NamespaceSegment>) {
    }
}

} // verus!
