//! The schema type graph that generation walks, and the classification of
//! its definitions into shapes.

use vstd::prelude::*;
use crate::model::{strings_view, AbstractDataType, SequenceType};
use crate::result::{invalid_abstract_data_type_error, invalid_shape, CodeGenFailure};
use crate::result::CodeGenResult;

verus! {

/// How a definition refers to the type of a field or of an element.
#[derive(Clone, Debug, PartialEq, Eq)]
pub enum TypeRef {
    /// By the name of a built-in type or of a declared type.
    Named(String),
    /// By the position, in the graph, of a definition written in place.
    Inline(usize),
}

/// The mathematical value of a [`TypeRef`].
pub enum TypeRefView {
    Named(Seq<char>),
    Inline(int),
}

impl View for TypeRef {
    type V = TypeRefView;

    open spec fn view(&self) -> TypeRefView {
        match self {
            TypeRef::Named(name) => TypeRefView::Named(name@),
            TypeRef::Inline(index) => TypeRefView::Inline(*index as int),
        }
    }
}

/// A field of a keyed field set.
#[derive(Clone, Debug, PartialEq, Eq)]
pub struct FieldDefinition {
    pub name: String,
    pub type_ref: TypeRef,
    /// Whether a value must be present.
    pub required: bool,
}

/// The mathematical value of a [`FieldDefinition`].
pub struct FieldDefinitionView {
    pub name: Seq<char>,
    pub type_ref: TypeRefView,
    pub required: bool,
}

impl View for FieldDefinition {
    type V = FieldDefinitionView;

    open spec fn view(&self) -> FieldDefinitionView {
        FieldDefinitionView { name: self.name@, type_ref: self.type_ref@, required: self.required }
    }
}

/// The mathematical values of a list of field definitions.
pub open spec fn field_definitions_view(fields: Seq<FieldDefinition>) -> Seq<FieldDefinitionView> {
    fields.map_values(|field: FieldDefinition| field@)
}

/// The structural shape of a definition.
#[derive(Clone, Debug, PartialEq, Eq)]
pub enum TypeShape {
    /// The shape has not been determined yet.
    Unresolved,
    /// One scalar, named by a built-in or a declared type.
    Primitive(String),
    /// One of a list of named variants.
    Variants(Vec<String>),
    /// An ordered list of elements of one type.
    Elements(TypeRef, SequenceType),
    /// A set of named fields.
    Fields(Vec<FieldDefinition>),
}

/// The mathematical value of a [`TypeShape`].
pub enum TypeShapeView {
    Unresolved,
    Primitive(Seq<char>),
    Variants(Seq<Seq<char>>),
    Elements(TypeRefView, SequenceType),
    Fields(Seq<FieldDefinitionView>),
}

impl View for TypeShape {
    type V = TypeShapeView;

    open spec fn view(&self) -> TypeShapeView {
        match self {
            TypeShape::Unresolved => TypeShapeView::Unresolved,
            TypeShape::Primitive(base) => TypeShapeView::Primitive(base@),
            TypeShape::Variants(variants) => TypeShapeView::Variants(strings_view(variants@)),
            TypeShape::Elements(element, sequence_type) => TypeShapeView::Elements(
                element@,
                *sequence_type,
            ),
            TypeShape::Fields(fields) => TypeShapeView::Fields(field_definitions_view(fields@)),
        }
    }
}

/// One type definition of a schema.
#[derive(Clone, Debug, PartialEq, Eq)]
pub struct TypeDefinition {
    /// The name as the schema writes it.
    pub name: String,
    /// Whether the definition is a named alias, which is generated as a
    /// type of its own even where it only holds a scalar or a sequence.
    pub is_alias: bool,
    pub shape: TypeShape,
}

/// The mathematical value of a [`TypeDefinition`].
pub struct TypeDefinitionView {
    pub name: Seq<char>,
    pub is_alias: bool,
    pub shape: TypeShapeView,
}

impl View for TypeDefinition {
    type V = TypeDefinitionView;

    open spec fn view(&self) -> TypeDefinitionView {
        TypeDefinitionView { name: self.name@, is_alias: self.is_alias, shape: self.shape@ }
    }
}

/// A schema as generation sees it: the definitions, top-level and written
/// in place alike, and which of them are top-level, in schema order.
#[derive(Clone, Debug, PartialEq, Eq)]
pub struct SchemaGraph {
    pub nodes: Vec<TypeDefinition>,
    pub top_level: Vec<usize>,
}

/// The mathematical value of a [`SchemaGraph`].
pub struct SchemaGraphView {
    pub nodes: Seq<TypeDefinitionView>,
    pub top_level: Seq<int>,
}

impl View for SchemaGraph {
    type V = SchemaGraphView;

    open spec fn view(&self) -> SchemaGraphView {
        SchemaGraphView {
            nodes: self.nodes@.map_values(|node: TypeDefinition| node@),
            top_level: self.top_level@.map_values(|index: usize| index as int),
        }
    }
}

/// Whether a definition has a shape that can be classified: the shape is
/// determined, and a list of variants is not empty.
pub open spec fn structurally_valid(definition: TypeDefinitionView) -> bool {
    match definition.shape {
        TypeShapeView::Unresolved => false,
        TypeShapeView::Variants(variants) => variants.len() > 0,
        _ => true,
    }
}

/// The shape that a structurally valid definition is generated as. It
/// depends on the structure alone, never on a name.
pub open spec fn shape_of(definition: TypeDefinitionView) -> AbstractDataType {
    match definition.shape {
        TypeShapeView::Primitive(_) => if definition.is_alias {
            AbstractDataType::WrappedScalar
        } else {
            AbstractDataType::Scalar
        },
        TypeShapeView::Variants(variants) => if variants.len() == 1 {
            AbstractDataType::Scalar
        } else {
            AbstractDataType::Enum
        },
        TypeShapeView::Elements(_, _) => if definition.is_alias {
            AbstractDataType::WrappedSequence
        } else {
            AbstractDataType::Sequence
        },
        _ => AbstractDataType::Structure,
    }
}

/// The outcome of classifying a definition.
pub open spec fn classification(definition: TypeDefinitionView) -> Result<
    AbstractDataType,
    CodeGenFailure,
> {
    if structurally_valid(definition) {
        Ok(shape_of(definition))
    } else {
        Err(invalid_shape(definition.name, "the shape of the type has not been determined"@))
    }
}

/// Classifies a definition: a scalar is a `Scalar`, or a `WrappedScalar`
/// where the definition is a named alias; a list of variants is a `Scalar`
/// where it has one variant and an `Enum` where it has more; a list of
/// elements is a `Sequence`, or a `WrappedSequence` where the definition is
/// a named alias; a set of fields is a `Structure`. A definition without a
/// determined shape is an error.
pub fn classify(definition: &TypeDefinition) -> (result: CodeGenResult<AbstractDataType>)
    ensures
        match result {
            Ok(shape) => classification(definition@) == Ok::<AbstractDataType, CodeGenFailure>(
                shape,
            ),
            Err(e) => classification(definition@) == Err::<AbstractDataType, CodeGenFailure>(e@),
        },
{
    match &definition.shape {
        TypeShape::Unresolved => invalid_abstract_data_type_error(
            definition.name.as_str(),
            "the shape of the type has not been determined",
        ),
        TypeShape::Primitive(_) => if definition.is_alias {
            Ok(AbstractDataType::WrappedScalar)
        } else {
            Ok(AbstractDataType::Scalar)
        },
        TypeShape::Variants(variants) => if variants.len() == 0 {
            invalid_abstract_data_type_error(
                definition.name.as_str(),
                "the shape of the type has not been determined",
            )
        } else if variants.len() == 1 {
            Ok(AbstractDataType::Scalar)
        } else {
            Ok(AbstractDataType::Enum)
        },
        TypeShape::Elements(_, _) => if definition.is_alias {
            Ok(AbstractDataType::WrappedSequence)
        } else {
            Ok(AbstractDataType::Sequence)
        },
        TypeShape::Fields(_) => Ok(AbstractDataType::Structure),
    }
}

/// Every structurally valid definition has exactly one shape, and a
/// definition that is not structurally valid has none.
pub proof fn lemma_classification_total(definition: TypeDefinitionView)
    ensures
        structurally_valid(definition) <==> classification(definition) is Ok,
        structurally_valid(definition) ==> classification(definition) == Ok::<
            AbstractDataType,
            CodeGenFailure,
        >(shape_of(definition)),
{
}

/// The shape does not depend on the name: definitions that agree in their
/// structure are classified alike, whatever they are called.
pub proof fn lemma_classification_ignores_name(a: TypeDefinitionView, b: TypeDefinitionView)
    requires
        a.is_alias == b.is_alias,
        a.shape == b.shape,
    ensures
        structurally_valid(a) == structurally_valid(b),
        shape_of(a) == shape_of(b),
        classification(a) is Ok <==> classification(b) is Ok,
{
}

} // verus!
