//! The Rust adapter.

use vstd::prelude::*;
use crate::model::{path_view, FullyQualifiedTypeReference, NamespaceNode, NamespaceSegment};
use crate::model::TypeReference;
use crate::text::{case_converted, str_eq, to_case, CaseStyle};
use crate::utils::{IonSchemaType, Language, SchemaType, Template};

verus! {

/// The Rust adapter.
pub struct RustLanguage;

/// The module and the type that stand for the schema type `name`.
pub open spec fn rust_module_and_type(name: Seq<char>) -> Seq<NamespaceSegment> {
    seq![
        NamespaceSegment::Package(case_converted(name, CaseStyle::Snake)),
        NamespaceSegment::Type(case_converted(name, CaseStyle::UpperCamel)),
    ]
}

/// Whether the path ends in a type segment.
pub open spec fn ends_in_type(path: Seq<NamespaceSegment>) -> bool {
    path.len() > 0 && path.last() is Type
}

impl RustLanguage {
    /// The name of the language.
    pub fn to_string(&self) -> (name: String)
        ensures
            name@ == "rust"@,
    {
        "rust".to_owned()
    }
}

impl Language for RustLanguage {
    open spec fn extension() -> Seq<char> {
        "rs"@
    }

    fn file_extension() -> (extension: String) {
        "rs".to_owned()
    }

    open spec fn canonical_name() -> Seq<char> {
        "rust"@
    }

    fn name() -> (name: String) {
        "rust".to_owned()
    }

    open spec fn file_name(name: Seq<char>) -> Seq<char> {
        case_converted(name, CaseStyle::Snake)
    }

    fn file_name_for_type(name: &str) -> (file_name: String) {
        to_case(name, CaseStyle::Snake)
    }

    open spec fn mapped_type(schema_type: SchemaType) -> Option<Seq<char>> {
        match schema_type {
            SchemaType::Int => Some("i64"@),
            SchemaType::String => Some("String"@),
            SchemaType::Symbol => Some("String"@),
            SchemaType::Float => Some("f64"@),
            SchemaType::Bool => Some("bool"@),
            SchemaType::Blob => Some("Vec<u8>"@),
            SchemaType::Clob => Some("Vec<u8>"@),
            SchemaType::List => None,
            SchemaType::SExp => None,
            SchemaType::Struct => None,
            SchemaType::SchemaDefined(name) => Some(name),
        }
    }

    fn target_type(ion_schema_type: &IonSchemaType) -> (target: Option<String>) {
        match ion_schema_type {
            IonSchemaType::Int => Some("i64".to_owned()),
            IonSchemaType::String => Some("String".to_owned()),
            IonSchemaType::Symbol => Some("String".to_owned()),
            IonSchemaType::Float => Some("f64".to_owned()),
            IonSchemaType::Bool => Some("bool".to_owned()),
            IonSchemaType::Blob => Some("Vec<u8>".to_owned()),
            IonSchemaType::Clob => Some("Vec<u8>".to_owned()),
            IonSchemaType::List => None,
            IonSchemaType::SExp => None,
            IonSchemaType::Struct => None,
            IonSchemaType::SchemaDefined(name) => Some(name.clone()),
        }
    }

    open spec fn container() -> Seq<NamespaceSegment> {
        seq![NamespaceSegment::Type("Vec"@)]
    }

    open spec fn boxed(target: TypeReference) -> TypeReference {
        target
    }

    proof fn lemma_sequence_wraps_element(element: TypeReference) {
    }

    open spec fn sequence_of(element: TypeReference) -> TypeReference {
        TypeReference {
            qualified_name: seq![NamespaceSegment::Type("Vec"@)],
            parameters: seq![element],
        }
    }

    fn target_type_as_sequence(target_type: FullyQualifiedTypeReference) -> (sequence:
        FullyQualifiedTypeReference) {
        let ghost element = target_type@;
        let mut path: Vec<NamespaceNode> = Vec::new();
        path.push(NamespaceNode::Type("Vec".to_owned()));
        let mut parameters: Vec<FullyQualifiedTypeReference> = Vec::new();
        parameters.push(target_type);
        let sequence = FullyQualifiedTypeReference::new(path, parameters);
        assert(sequence@.qualified_name =~= seq![NamespaceSegment::Type("Vec"@)]);
        assert(sequence@.parameters =~= seq![element]);
        sequence
    }

    open spec fn built_in(name: Seq<char>) -> bool {
        name == "i64"@ || name == "String"@ || name == "bool"@ || name == "Vec<u8>"@ || name
            == "f64"@
    }

    fn is_built_in_type(name: String) -> (built_in: bool) {
        let name = name.as_str();
        str_eq(name, "i64") || str_eq(name, "String") || str_eq(name, "bool") || str_eq(
            name,
            "Vec<u8>",
        ) || str_eq(name, "f64")
    }

    fn fully_qualified_type_ref(name: &FullyQualifiedTypeReference) -> (text: String) {
        name.joined_name("::")
    }

    open spec fn template_file(template: Template) -> Seq<char> {
        match template {
            Template::Struct => "struct"@,
            Template::Scalar => "scalar"@,
            Template::Sequence => "sequence"@,
            Template::Enum => "enum"@,
        }
    }

    fn template_name(template: &Template) -> (name: String) {
        match template {
            Template::Struct => "struct".to_owned(),
            Template::Scalar => "scalar".to_owned(),
            Template::Sequence => "sequence".to_owned(),
            Template::Enum => "enum".to_owned(),
        }
    }

    open spec fn separator() -> Seq<char> {
        "::"@
    }

    fn namespace_separator() -> (separator: &'static str) {
        "::"
    }

    open spec fn entered(is_nested: bool, name: Seq<char>, path: Seq<NamespaceSegment>) -> Seq<
        NamespaceSegment,
    > {
        Self::scope_base(is_nested, path) + rust_module_and_type(name)
    }

    fn add_type_to_namespace(
        is_nested_type: bool,
        name: &str,
        namespace: &mut Vec<NamespaceNode>,
    ) {
        if is_nested_type {
            let length = namespace.len();
            if length > 0 {
                let parent_is_type = match &namespace[length - 1] {
                    NamespaceNode::Package(_) => false,
                    NamespaceNode::Type(_) => true,
                };
                if parent_is_type {
                    // the nested type lives in the parent's module, beside the parent
                    namespace.pop();
                }
            }
        }
        assert(path_view(namespace@) =~= Self::scope_base(
            is_nested_type,
            path_view(old(namespace)@),
        ));
        namespace.push(NamespaceNode::Package(to_case(name, CaseStyle::Snake)));
        namespace.push(NamespaceNode::Type(to_case(name, CaseStyle::UpperCamel)));
        assert(path_view(namespace@) =~= Self::entered(
            is_nested_type,
            name@,
            path_view(old(namespace)@),
        ));
    }

    open spec fn left(path: Seq<NamespaceSegment>) -> Seq<NamespaceSegment> {
        if path.len() == 0 {
            path
        } else if path.last() is Package {
            path.drop_last()
        } else if path.len() == 1 {
            path.drop_last()
        } else {
            path.drop_last().drop_last()
        }
    }

    fn reset_namespace(namespace: &mut Vec<NamespaceNode>) {
        let length = namespace.len();
        if length > 0 {
            let ends_in_module = match &namespace[length - 1] {
                NamespaceNode::Package(_) => true,
                NamespaceNode::Type(_) => false,
            };
            namespace.pop();
            if !ends_in_module && !namespace.is_empty() {
                namespace.pop();
            }
        }
        assert(path_view(namespace@) =~= Self::left(path_view(old(namespace)@)));
    }

    open spec fn optional_of(target: TypeReference) -> TypeReference {
        target
    }

    fn target_type_as_optional(target_type: FullyQualifiedTypeReference) -> (optional:
        FullyQualifiedTypeReference) {
        target_type
    }

    open spec fn scope_base(is_nested: bool, path: Seq<NamespaceSegment>) -> Seq<
        NamespaceSegment,
    > {
        if is_nested && ends_in_type(path) {
            path.drop_last()
        } else {
            path
        }
    }

    open spec fn in_scope(base: Seq<NamespaceSegment>, path: Seq<NamespaceSegment>) -> bool {
        ||| {
            &&& path.len() == base.len() + 2
            &&& path.drop_last().drop_last() == base
            &&& path[base.len() as int] is Package
            &&& path.last() is Type
        }
        ||| {
            &&& path.len() == base.len() + 1
            &&& path.drop_last() == base
            &&& path.last() is Package
        }
    }

    proof fn lemma_top_level_base(path: Seq<NamespaceSegment>) {
    }

    proof fn lemma_boxing_keeps_well_formed(target: TypeReference) {
    }

    proof fn lemma_scope_is_not_empty(base: Seq<NamespaceSegment>, path: Seq<NamespaceSegment>) {
    }

    proof fn lemma_enter_opens_scope(
        is_nested: bool,
        name: Seq<char>,
        path: Seq<NamespaceSegment>,
    ) {
        let base = Self::scope_base(is_nested, path);
        let inside = Self::entered(is_nested, name, path);
        assert(inside.drop_last().drop_last() =~= base);
    }

    proof fn lemma_nested_keeps_scope(base: Seq<NamespaceSegment>, path: Seq<NamespaceSegment>) {
        if ends_in_type(path) {
            assert(path.drop_last().drop_last() == base);
            assert(path.drop_last().last() == path[base.len() as int]);
        }
    }

    proof fn lemma_reset_closes_scope(base: Seq<NamespaceSegment>, path: Seq<NamespaceSegment>) {
    }
}

} // verus!
