//! Schema types, template kinds, and what a target language has to decide.

use vstd::prelude::*;
use crate::model::{path_names, path_view, AbstractDataType, DataModelNode};
use crate::model::{FullyQualifiedTypeReference, NamespaceNode, NamespaceSegment, TypeReference};
use crate::result::{invalid_abstract_data_type_error, invalid_shape, unsupported};
use crate::result::{unsupported_schema_construct_error, CodeGenResult};
use crate::text::{ascii_lowercase, ascii_lowered, case_converted, joined, str_eq, to_case};
use crate::text::CaseStyle;

verus! {

/// A schema type: one of the built-in kinds, or a type the schema defines.
#[derive(Clone, Debug, PartialEq, Eq)]
pub enum IonSchemaType {
    Int,
    String,
    Symbol,
    Float,
    Bool,
    Blob,
    Clob,
    SExp,
    List,
    Struct,
    /// A type defined by the schema, under its normalised name.
    SchemaDefined(String),
}

/// The mathematical value of an [`IonSchemaType`].
pub enum SchemaType {
    Int,
    String,
    Symbol,
    Float,
    Bool,
    Blob,
    Clob,
    SExp,
    List,
    Struct,
    SchemaDefined(Seq<char>),
}

impl View for IonSchemaType {
    type V = SchemaType;

    open spec fn view(&self) -> SchemaType {
        match self {
            IonSchemaType::Int => SchemaType::Int,
            IonSchemaType::String => SchemaType::String,
            IonSchemaType::Symbol => SchemaType::Symbol,
            IonSchemaType::Float => SchemaType::Float,
            IonSchemaType::Bool => SchemaType::Bool,
            IonSchemaType::Blob => SchemaType::Blob,
            IonSchemaType::Clob => SchemaType::Clob,
            IonSchemaType::SExp => SchemaType::SExp,
            IonSchemaType::List => SchemaType::List,
            IonSchemaType::Struct => SchemaType::Struct,
            IonSchemaType::SchemaDefined(name) => SchemaType::SchemaDefined(name@),
        }
    }
}

/// Whether `name` begins with `$`, the mark of a built-in type that admits
/// null.
pub open spec fn is_nullable_built_in(name: Seq<char>) -> bool {
    name.len() > 0 && name[0] == '$'
}

/// Whether `name`, in any letter case, is one of the open-ended built-ins.
pub open spec fn is_open_ended_built_in(name: Seq<char>) -> bool {
    let key = ascii_lowered(name);
    key == "number"@ || key == "text"@ || key == "lob"@ || key == "document"@ || key == "nothing"@
}

/// Whether `name`, in any letter case, is a decimal or a timestamp.
pub open spec fn is_unmodelled_scalar(name: Seq<char>) -> bool {
    let key = ascii_lowered(name);
    key == "decimal"@ || key == "timestamp"@
}

/// Whether `name`, in any letter case, is one of the modelled scalars.
pub open spec fn is_modelled_scalar(name: Seq<char>) -> bool {
    let key = ascii_lowered(name);
    key == "int"@ || key == "string"@ || key == "symbol"@ || key == "float"@ || key == "bool"@
        || key == "blob"@ || key == "clob"@
}

/// Whether `name` is a construct that no schema type stands for. The modelled
/// scalars come first in the table, so none of them is unsupported.
pub open spec fn is_unsupported_name(name: Seq<char>) -> bool {
    !is_modelled_scalar(name) && (is_nullable_built_in(name) || is_open_ended_built_in(name)
        || is_unmodelled_scalar(name))
}

/// What the rejected construct is called in an error.
pub open spec fn unsupported_description(name: Seq<char>) -> Seq<char> {
    if is_nullable_built_in(name) {
        "built-in types with nulls are not supported"@
    } else if is_open_ended_built_in(name) {
        "open-ended built-in types are not supported"@
    } else {
        "decimal and timestamp are not supported"@
    }
}

/// The schema type that a supported `name` stands for: the table is
/// searched without regard to letter case, and a name it lacks is a
/// schema-defined type under its upper-camel form.
pub open spec fn schema_type_of(name: Seq<char>) -> SchemaType {
    let key = ascii_lowered(name);
    if key == "int"@ {
        SchemaType::Int
    } else if key == "string"@ {
        SchemaType::String
    } else if key == "symbol"@ {
        SchemaType::Symbol
    } else if key == "float"@ {
        SchemaType::Float
    } else if key == "bool"@ {
        SchemaType::Bool
    } else if key == "blob"@ {
        SchemaType::Blob
    } else if key == "clob"@ {
        SchemaType::Clob
    } else if key == "struct"@ {
        SchemaType::Struct
    } else if key == "list"@ {
        SchemaType::List
    } else if key == "sexp"@ {
        SchemaType::SExp
    } else {
        SchemaType::SchemaDefined(case_converted(name, CaseStyle::UpperCamel))
    }
}

impl IonSchemaType {
    /// Whether `value` names a construct that no schema type stands for.
    pub fn is_unsupported(value: &str) -> (unsupported: bool)
        ensures
            unsupported == is_unsupported_name(value@),
    {
        let key = ascii_lowercase(value);
        let key = key.as_str();
        if str_eq(key, "int") || str_eq(key, "string") || str_eq(key, "symbol") || str_eq(
            key,
            "float",
        ) || str_eq(key, "bool") || str_eq(key, "blob") || str_eq(key, "clob") {
            return false;
        }
        if !value.is_empty() && value.get_char(0) == '$' {
            return true;
        }
        str_eq(key, "number") || str_eq(key, "text") || str_eq(key, "lob") || str_eq(
            key,
            "document",
        ) || str_eq(key, "nothing") || str_eq(key, "decimal") || str_eq(key, "timestamp")
    }

    /// The schema type that `value` names.
    pub fn from(value: &str) -> (schema_type: IonSchemaType)
        requires
            !is_unsupported_name(value@),
        ensures
            schema_type@ == schema_type_of(value@),
    {
        let key = ascii_lowercase(value);
        let key = key.as_str();
        if str_eq(key, "int") {
            IonSchemaType::Int
        } else if str_eq(key, "string") {
            IonSchemaType::String
        } else if str_eq(key, "symbol") {
            IonSchemaType::Symbol
        } else if str_eq(key, "float") {
            IonSchemaType::Float
        } else if str_eq(key, "bool") {
            IonSchemaType::Bool
        } else if str_eq(key, "blob") {
            IonSchemaType::Blob
        } else if str_eq(key, "clob") {
            IonSchemaType::Clob
        } else if str_eq(key, "struct") {
            IonSchemaType::Struct
        } else if str_eq(key, "list") {
            IonSchemaType::List
        } else if str_eq(key, "sexp") {
            IonSchemaType::SExp
        } else {
            IonSchemaType::SchemaDefined(to_case(value, CaseStyle::UpperCamel))
        }
    }

    /// The schema type that `value` names, or the error for a construct that
    /// generation does not model. `subject` is the type being generated.
    pub fn try_from(subject: &str, value: &str) -> (result: CodeGenResult<IonSchemaType>)
        ensures
            match result {
                Ok(schema_type) => !is_unsupported_name(value@) && schema_type@ == schema_type_of(
                    value@,
                ),
                Err(e) => is_unsupported_name(value@) && e@ == unsupported(
                    subject@,
                    unsupported_description(value@),
                ),
            },
    {
        if IonSchemaType::is_unsupported(value) {
            let key = ascii_lowercase(value);
            let key = key.as_str();
            if !value.is_empty() && value.get_char(0) == '$' {
                unsupported_schema_construct_error(
                    subject,
                    "built-in types with nulls are not supported",
                )
            } else if str_eq(key, "number") || str_eq(key, "text") || str_eq(key, "lob") || str_eq(
                key,
                "document",
            ) || str_eq(key, "nothing") {
                unsupported_schema_construct_error(
                    subject,
                    "open-ended built-in types are not supported",
                )
            } else {
                unsupported_schema_construct_error(
                    subject,
                    "decimal and timestamp are not supported",
                )
            }
        } else {
            Ok(IonSchemaType::from(value))
        }
    }
}

/// The kinds of template a type is rendered with.
#[derive(Clone, Copy, Debug, PartialEq, Eq, Structural)]
pub enum Template {
    /// A type with named fields.
    Struct,
    /// A type that holds a sequence.
    Sequence,
    /// A type that holds a scalar.
    Scalar,
    /// A type with a closed set of variants.
    Enum,
}

/// The template that each shape is rendered with.
pub open spec fn template_of(shape: AbstractDataType) -> Template {
    match shape {
        AbstractDataType::Scalar => Template::Scalar,
        AbstractDataType::WrappedScalar => Template::Scalar,
        AbstractDataType::Sequence => Template::Sequence,
        AbstractDataType::WrappedSequence => Template::Sequence,
        AbstractDataType::Structure => Template::Struct,
        AbstractDataType::Enum => Template::Enum,
    }
}

impl Template {
    /// The template for a shape: every shape has one.
    pub fn for_shape(shape: AbstractDataType) -> (template: Template)
        ensures
            template == template_of(shape),
    {
        match shape {
            AbstractDataType::Scalar => Template::Scalar,
            AbstractDataType::WrappedScalar => Template::Scalar,
            AbstractDataType::Sequence => Template::Sequence,
            AbstractDataType::WrappedSequence => Template::Sequence,
            AbstractDataType::Structure => Template::Struct,
            AbstractDataType::Enum => Template::Enum,
        }
    }

    /// The template for a node: that of its shape, and an error for a node
    /// whose shape has not been determined.
    pub fn try_from(value: &DataModelNode) -> (result: CodeGenResult<Template>)
        ensures
            match result {
                Ok(template) => value.code_gen_type matches Some(shape) && template == template_of(
                    shape,
                ),
                Err(e) => value.code_gen_type is None && e@ == invalid_shape(
                    value.name@,
                    "can not get a template without determining data model first"@,
                ),
            },
    {
        match value.code_gen_type {
            Some(shape) => Ok(Template::for_shape(shape)),
            None => invalid_abstract_data_type_error(
                value.name.as_str(),
                "can not get a template without determining data model first",
            ),
        }
    }
}

/// What a target language decides: names, type mappings, and how the
/// namespace path moves when a type is entered and left.
///
/// Each executable capability has a specification function beside it that
/// says what it returns. The last group states what entering and leaving
/// must have in common in every language, so that a traversal which enters
/// each type once and leaves it once restores the path.
pub trait Language {
    /// The extension of a generated file.
    spec fn extension() -> Seq<char>;

    /// Provides the file extension of the language.
    fn file_extension() -> (extension: String)
        ensures
            extension@ == Self::extension(),
    ;

    /// The identifier of the language.
    spec fn canonical_name() -> Seq<char>;

    /// Returns the identifier of the language.
    fn name() -> (name: String)
        ensures
            name@ == Self::canonical_name(),
    ;

    /// The name of the file that holds the type `name`.
    spec fn file_name(name: Seq<char>) -> Seq<char>;

    /// Provides the name of the file that holds the type `name`.
    fn file_name_for_type(name: &str) -> (file_name: String)
        ensures
            file_name@ == Self::file_name(name@),
    ;

    /// The name of the target type that a schema type maps to; none for the
    /// compound types, which have no single target type.
    spec fn mapped_type(schema_type: SchemaType) -> Option<Seq<char>>;

    /// Maps the given schema type to a target type name.
    fn target_type(ion_schema_type: &IonSchemaType) -> (target: Option<String>)
        ensures
            match target {
                Some(name) => Self::mapped_type(ion_schema_type@) == Some(name@),
                None => Self::mapped_type(ion_schema_type@) is None,
            },
    ;

    /// The path of the container type that sequences are generated as.
    spec fn container() -> Seq<NamespaceSegment>;

    /// The form of a type in which it can stand as a parameter of another
    /// type: in a language whose primitives cannot, the boxed form.
    spec fn boxed(target: TypeReference) -> TypeReference;

    /// The type of a sequence whose elements have the given type.
    spec fn sequence_of(element: TypeReference) -> TypeReference;

    /// A sequence is the container of the language, and its one parameter
    /// is the element, boxed where the language asks for it.
    proof fn lemma_sequence_wraps_element(element: TypeReference)
        ensures
            Self::container().len() > 0,
            Self::sequence_of(element).qualified_name == Self::container(),
            Self::sequence_of(element).parameters == seq![Self::boxed(element)],
    ;

    /// Provides the given target type as a sequence.
    fn target_type_as_sequence(target_type: FullyQualifiedTypeReference) -> (sequence:
        FullyQualifiedTypeReference)
        ensures
            sequence@ == Self::sequence_of(target_type@),
    ;

    /// Whether the language itself provides the type `name`.
    spec fn built_in(name: Seq<char>) -> bool;

    /// Returns true if the type is provided by the target language.
    fn is_built_in_type(name: String) -> (built_in: bool)
        ensures
            built_in == Self::built_in(name@),
    ;

    /// Returns the qualified name of a type reference: the names along its
    /// path, joined by the namespace separator.
    fn fully_qualified_type_ref(name: &FullyQualifiedTypeReference) -> (text: String)
        ensures
            text@ == joined(path_names(name@.qualified_name), Self::separator()),
    ;

    /// The name of the template of each kind.
    spec fn template_file(template: Template) -> Seq<char>;

    /// Returns the name of the template of the given kind.
    fn template_name(template: &Template) -> (name: String)
        ensures
            name@ == Self::template_file(*template),
    ;

    /// The separator between the names of a qualified type name.
    spec fn separator() -> Seq<char>;

    /// Returns the namespace separator of the language.
    fn namespace_separator() -> (separator: &'static str)
        ensures
            separator@ == Self::separator(),
    ;

    /// The path after the type `name` has been entered on `path`.
    spec fn entered(is_nested: bool, name: Seq<char>, path: Seq<NamespaceSegment>) -> Seq<
        NamespaceSegment,
    >;

    /// Adds the given type to the namespace path.
    fn add_type_to_namespace(is_nested_type: bool, name: &str, namespace: &mut Vec<NamespaceNode>)
        ensures
            path_view(final(namespace)@) == Self::entered(
                is_nested_type,
                name@,
                path_view(old(namespace)@),
            ),
    ;

    /// The path after the type that `path` ends in has been left.
    spec fn left(path: Seq<NamespaceSegment>) -> Seq<NamespaceSegment>;

    /// Resets the namespace path when a type is complete.
    fn reset_namespace(namespace: &mut Vec<NamespaceNode>)
        ensures
            path_view(final(namespace)@) == Self::left(path_view(old(namespace)@)),
    ;

    /// The type of a value of the given type that may be absent.
    spec fn optional_of(target: TypeReference) -> TypeReference;

    /// Returns the given target type as optional.
    fn target_type_as_optional(target_type: FullyQualifiedTypeReference) -> (optional:
        FullyQualifiedTypeReference)
        ensures
            optional@ == Self::optional_of(target_type@),
    ;

    /// What is boxed or made optional still names a type.
    proof fn lemma_boxing_keeps_well_formed(target: TypeReference)
        requires
            target.well_formed(),
        ensures
            Self::boxed(target).well_formed(),
            Self::optional_of(target).well_formed(),
    ;

    /// The path that a type entered on `path` goes back to when it is left.
    spec fn scope_base(is_nested: bool, path: Seq<NamespaceSegment>) -> Seq<NamespaceSegment>;

    /// Whether `path` is one that a type which goes back to `base` may see
    /// between entering and leaving: right after it was entered, or after
    /// some of the types nested in it were entered and left.
    spec fn in_scope(base: Seq<NamespaceSegment>, path: Seq<NamespaceSegment>) -> bool;

    /// A top-level type goes back to the path it was entered on.
    proof fn lemma_top_level_base(path: Seq<NamespaceSegment>)
        ensures
            Self::scope_base(false, path) == path,
    ;

    /// Entering a type opens its scope.
    proof fn lemma_enter_opens_scope(is_nested: bool, name: Seq<char>, path: Seq<NamespaceSegment>)
        ensures
            Self::in_scope(Self::scope_base(is_nested, path), Self::entered(is_nested, name, path)),
    ;

    /// A path inside a scope is not empty: it ends in what was entered.
    proof fn lemma_scope_is_not_empty(base: Seq<NamespaceSegment>, path: Seq<NamespaceSegment>)
        requires
            Self::in_scope(base, path),
        ensures
            path.len() > 0,
    ;

    /// A nested type that is entered inside a scope goes back into it.
    proof fn lemma_nested_keeps_scope(base: Seq<NamespaceSegment>, path: Seq<NamespaceSegment>)
        requires
            Self::in_scope(base, path),
        ensures
            Self::in_scope(base, Self::scope_base(true, path)),
    ;

    /// Leaving a type closes its scope: the path is the base again.
    proof fn lemma_reset_closes_scope(base: Seq<NamespaceSegment>, path: Seq<NamespaceSegment>)
        requires
            Self::in_scope(base, path),
        ensures
            Self::left(path) == base,
    ;
}

} // verus!
