//! The language-agnostic data model: namespace paths, type references and
//! the canonical shapes a schema type is generated as.

use vstd::prelude::*;
use crate::text::{join, joined, views_of};
use crate::utils::Language;

verus! {

/// One segment of a namespace path.
#[derive(Debug, PartialEq, Eq)]
pub enum NamespaceNode {
    /// A module or package that groups declarations.
    Package(String),
    /// A concrete named declaration.
    Type(String),
}

/// The mathematical value of a [`NamespaceNode`].
pub enum NamespaceSegment {
    Package(Seq<char>),
    Type(Seq<char>),
}

impl NamespaceSegment {
    /// The name the segment carries, whichever kind it is.
    pub open spec fn name(self) -> Seq<char> {
        match self {
            NamespaceSegment::Package(name) => name,
            NamespaceSegment::Type(name) => name,
        }
    }
}

impl View for NamespaceNode {
    type V = NamespaceSegment;

    open spec fn view(&self) -> NamespaceSegment {
        match self {
            NamespaceNode::Package(name) => NamespaceSegment::Package(name@),
            NamespaceNode::Type(name) => NamespaceSegment::Type(name@),
        }
    }
}

impl NamespaceNode {
    /// The name the segment carries, whichever kind it is.
    pub fn name(&self) -> (name: &str)
        ensures
            name@ == self@.name(),
    {
        match self {
            NamespaceNode::Package(name) => name.as_str(),
            NamespaceNode::Type(name) => name.as_str(),
        }
    }
}

impl Clone for NamespaceNode {
    fn clone(&self) -> (copy: Self)
        ensures
            copy@ == self@,
    {
        match self {
            NamespaceNode::Package(name) => NamespaceNode::Package(name.clone()),
            NamespaceNode::Type(name) => NamespaceNode::Type(name.clone()),
        }
    }
}

/// The mathematical value of a namespace path.
pub open spec fn path_view(path: Seq<NamespaceNode>) -> Seq<NamespaceSegment> {
    path.map_values(|node: NamespaceNode| node@)
}

/// The names along a path, first segment first.
pub open spec fn path_names(path: Seq<NamespaceSegment>) -> Seq<Seq<char>> {
    path.map_values(|segment: NamespaceSegment| segment.name())
}

/// A copy of a namespace path.
pub fn clone_path(path: &Vec<NamespaceNode>) -> (copy: Vec<NamespaceNode>)
    ensures
        path_view(copy@) == path_view(path@),
{
    let mut copy: Vec<NamespaceNode> = Vec::new();
    let mut i: usize = 0;
    while i < path.len()
        invariant
            i <= path.len(),
            copy.len() == i,
            forall|k: int| 0 <= k < i ==> copy@[k]@ == path@[k]@,
        decreases path.len() - i,
    {
        copy.push(path[i].clone());
        i += 1;
    }
    assert(path_view(copy@) =~= path_view(path@));
    copy
}

/// A qualified type name together with its generic parameters.
#[derive(Debug, PartialEq, Eq)]
pub struct FullyQualifiedTypeReference {
    /// The qualified path of the type: its namespace segments in order,
    /// the name of the type last. Not empty where the reference names a
    /// type.
    pub qualified_name: Vec<NamespaceNode>,
    /// The types that a generic type is applied to; none for a type that
    /// is not generic.
    pub parameters: Vec<FullyQualifiedTypeReference>,
}

/// The mathematical value of a [`FullyQualifiedTypeReference`].
pub struct TypeReference {
    pub qualified_name: Seq<NamespaceSegment>,
    pub parameters: Seq<TypeReference>,
}

/// The mathematical value of a type reference.
pub open spec fn reference_view(reference: FullyQualifiedTypeReference) -> TypeReference
    decreases reference,
{
    TypeReference {
        qualified_name: path_view(reference.qualified_name@),
        parameters: Seq::new(
            reference.parameters@.len(),
            |i: int|
                if 0 <= i < reference.parameters@.len() {
                    reference_view(reference.parameters@[i])
                } else {
                    arbitrary()
                },
        ),
    }
}

impl View for FullyQualifiedTypeReference {
    type V = TypeReference;

    open spec fn view(&self) -> TypeReference {
        reference_view(*self)
    }
}

/// The mathematical values of a list of type references.
pub open spec fn references_view(references: Seq<FullyQualifiedTypeReference>) -> Seq<
    TypeReference,
> {
    references.map_values(|reference: FullyQualifiedTypeReference| reference@)
}

/// The reference to a type by a single name, without parameters.
pub open spec fn simple_reference(name: Seq<char>) -> TypeReference {
    TypeReference { qualified_name: seq![NamespaceSegment::Type(name)], parameters: Seq::empty() }
}

/// How a type reference is written: its names joined by `separator`, and
/// after them, where it has parameters, their own texts between angle
/// brackets, separated by a comma and a space.
pub open spec fn representation(reference: TypeReference, separator: Seq<char>) -> Seq<char>
    decreases reference, 1int,
{
    let name = joined(path_names(reference.qualified_name), separator);
    if reference.parameters.len() == 0 {
        name
    } else {
        name + "<"@ + joined(representations(reference.parameters, separator), ", "@) + ">"@
    }
}

/// How each of the references is written.
pub open spec fn representations(references: Seq<TypeReference>, separator: Seq<char>) -> Seq<
    Seq<char>,
>
    decreases references, 0int,
{
    Seq::new(
        references.len(),
        |i: int|
            if 0 <= i < references.len() {
                representation(references[i], separator)
            } else {
                Seq::empty()
            },
    )
}

impl TypeReference {
    /// A reference names something: its path is not empty, and the same
    /// holds of each of its parameters.
    pub open spec fn well_formed(self) -> bool
        decreases self,
    {
        &&& self.qualified_name.len() > 0
        &&& forall|i: int|
            0 <= i < self.parameters.len() ==> (#[trigger] self.parameters[i]).well_formed()
    }
}

impl FullyQualifiedTypeReference {
    /// The view of a reference, field by field.
    pub proof fn lemma_view(&self)
        ensures
            self@.qualified_name == path_view(self.qualified_name@),
            self@.parameters == references_view(self.parameters@),
    {
        assert(self@.parameters.len() == self.parameters@.len());
        assert forall|i: int| 0 <= i < self.parameters@.len() implies self@.parameters[i]
            == self.parameters@[i]@ by {}
        assert(self@.parameters =~= references_view(self.parameters@));
    }

    /// A reference with the given path and parameters.
    pub fn new(
        qualified_name: Vec<NamespaceNode>,
        parameters: Vec<FullyQualifiedTypeReference>,
    ) -> (reference: FullyQualifiedTypeReference)
        ensures
            reference@ == (TypeReference {
                qualified_name: path_view(qualified_name@),
                parameters: references_view(parameters@),
            }),
    {
        let reference = FullyQualifiedTypeReference { qualified_name, parameters };
        proof {
            reference.lemma_view();
        }
        reference
    }

    /// The reference to a type by a single name, without parameters.
    pub fn simple(name: String) -> (reference: FullyQualifiedTypeReference)
        ensures
            reference@ == simple_reference(name@),
    {
        let mut qualified_name: Vec<NamespaceNode> = Vec::new();
        qualified_name.push(NamespaceNode::Type(name));
        let reference = FullyQualifiedTypeReference::new(qualified_name, Vec::new());
        assert(reference@.qualified_name =~= simple_reference(name@).qualified_name);
        assert(reference@.parameters =~= simple_reference(name@).parameters);
        reference
    }

    /// The names along the reference's path joined by `separator`.
    pub fn joined_name(&self, separator: &str) -> (text: String)
        ensures
            text@ == joined(path_names(self@.qualified_name), separator@),
    {
        let mut names: Vec<&str> = Vec::new();
        let mut i: usize = 0;
        while i < self.qualified_name.len()
            invariant
                i <= self.qualified_name.len(),
                names.len() == i,
                forall|k: int| 0 <= k < i ==> names@[k]@ == self.qualified_name@[k]@.name(),
            decreases self.qualified_name.len() - i,
        {
            names.push(self.qualified_name[i].name());
            i += 1;
        }
        proof {
            self.lemma_view();
            assert(views_of(names@) =~= path_names(self@.qualified_name));
        }
        join(&names, separator)
    }

    /// How the reference is written with `separator` between its names.
    pub fn representation_with(&self, separator: &str) -> (text: String)
        ensures
            text@ == representation(self@, separator@),
        decreases self,
    {
        let mut text = self.joined_name(separator);
        proof {
            self.lemma_view();
        }
        if self.parameters.len() == 0 {
            return text;
        }
        let mut texts: Vec<String> = Vec::new();
        let mut i: usize = 0;
        while i < self.parameters.len()
            invariant
                i <= self.parameters.len(),
                texts.len() == i,
                forall|k: int|
                    0 <= k < i ==> texts@[k]@ == representation(
                        self.parameters@[k]@,
                        separator@,
                    ),
            decreases self.parameters.len() - i,
        {
            texts.push(self.parameters[i].representation_with(separator));
            i += 1;
        }
        let mut parts: Vec<&str> = Vec::new();
        let mut j: usize = 0;
        while j < texts.len()
            invariant
                j <= texts.len(),
                parts.len() == j,
                forall|k: int| 0 <= k < j ==> parts@[k]@ == texts@[k]@,
            decreases texts.len() - j,
        {
            parts.push(texts[j].as_str());
            j += 1;
        }
        let inner = join(&parts, ", ");
        proof {
            assert(views_of(parts@) =~= representations(self@.parameters, separator@));
        }
        text.append("<");
        text.append(inner.as_str());
        text.append(">");
        text
    }

    /// How the reference is written in the language `L`.
    pub fn string_representation<L: Language>(&self) -> (text: String)
        ensures
            text@ == representation(self@, L::separator()),
    {
        let separator = L::namespace_separator();
        self.representation_with(separator)
    }
}

impl Clone for FullyQualifiedTypeReference {
    fn clone(&self) -> (copy: Self)
        ensures
            copy@ == self@,
        decreases self,
    {
        let qualified_name = clone_path(&self.qualified_name);
        let mut parameters: Vec<FullyQualifiedTypeReference> = Vec::new();
        let mut i: usize = 0;
        while i < self.parameters.len()
            invariant
                i <= self.parameters.len(),
                parameters.len() == i,
                forall|k: int| 0 <= k < i ==> parameters@[k]@ == self.parameters@[k]@,
            decreases self.parameters.len() - i,
        {
            parameters.push(self.parameters[i].clone());
            i += 1;
        }
        let copy = FullyQualifiedTypeReference::new(qualified_name, parameters);
        proof {
            self.lemma_view();
            assert(references_view(parameters@) =~= references_view(self.parameters@));
        }
        copy
    }
}

/// The canonical shapes a schema type is generated as.
#[derive(Clone, Copy, Debug, PartialEq, Eq, Structural)]
pub enum AbstractDataType {
    /// A single scalar value, used where it stands.
    Scalar,
    /// A named type whose only content is one scalar value.
    WrappedScalar,
    /// An ordered list of elements, used where it stands.
    Sequence,
    /// A named type whose only content is one sequence.
    WrappedSequence,
    /// A set of named fields.
    Structure,
    /// A closed set of named variants without data.
    Enum,
}

/// Which of the two schema sequences a sequence is.
#[derive(Clone, Copy, Debug, PartialEq, Eq, Structural)]
pub enum SequenceType {
    List,
    SExp,
}

/// A field of a generated structure: its name and its resolved type.
#[derive(Clone, Debug, PartialEq, Eq)]
pub struct FieldReference {
    pub name: String,
    pub type_reference: FullyQualifiedTypeReference,
    /// Whether a value must be present; the type of a field that may be
    /// absent has already been made optional.
    pub required: bool,
}

/// The mathematical value of a [`FieldReference`].
pub struct Field {
    pub name: Seq<char>,
    pub type_reference: TypeReference,
    pub required: bool,
}

impl View for FieldReference {
    type V = Field;

    open spec fn view(&self) -> Field {
        Field {
            name: self.name@,
            type_reference: self.type_reference@,
            required: self.required,
        }
    }
}

/// The mathematical values of a list of fields.
pub open spec fn fields_view(fields: Seq<FieldReference>) -> Seq<Field> {
    fields.map_values(|field: FieldReference| field@)
}

/// The characters of each of the strings.
pub open spec fn strings_view(strings: Seq<String>) -> Seq<Seq<char>> {
    strings.map_values(|string: String| string@)
}

/// One generated type with everything a template needs to render it: the
/// resolved references, the namespace path it lives at, and the types that
/// are declared inside it.
#[derive(Debug, PartialEq, Eq)]
pub struct DataModelNode {
    /// The name of the type, without its namespace.
    pub name: String,
    /// The shape of the type; `None` until it has been determined.
    pub code_gen_type: Option<AbstractDataType>,
    /// The namespace path of the type.
    pub qualified_name: Vec<NamespaceNode>,
    /// For a scalar, the type of its value; for a sequence, the container
    /// type with the element as its parameter.
    pub base_type: Option<FullyQualifiedTypeReference>,
    /// For a sequence, which kind it is.
    pub sequence_type: Option<SequenceType>,
    /// For a structure, its fields in declaration order.
    pub fields: Vec<FieldReference>,
    /// For an enum, its variants in declaration order.
    pub variants: Vec<String>,
    /// The types declared inside this one, in the order they were met.
    pub nested_types: Vec<DataModelNode>,
}

/// The mathematical value of a [`DataModelNode`].
pub struct DataModel {
    pub name: Seq<char>,
    pub code_gen_type: Option<AbstractDataType>,
    pub qualified_name: Seq<NamespaceSegment>,
    pub base_type: Option<TypeReference>,
    pub sequence_type: Option<SequenceType>,
    pub fields: Seq<Field>,
    pub variants: Seq<Seq<char>>,
    pub nested_types: Seq<DataModel>,
}

/// The mathematical value of an optional type reference.
pub open spec fn optional_reference_view(reference: Option<FullyQualifiedTypeReference>) -> Option<
    TypeReference,
> {
    match reference {
        Some(r) => Some(r@),
        None => None,
    }
}

/// The mathematical value of a data model node.
pub open spec fn model_view(node: DataModelNode) -> DataModel
    decreases node,
{
    DataModel {
        name: node.name@,
        code_gen_type: node.code_gen_type,
        qualified_name: path_view(node.qualified_name@),
        base_type: optional_reference_view(node.base_type),
        sequence_type: node.sequence_type,
        fields: fields_view(node.fields@),
        variants: strings_view(node.variants@),
        nested_types: Seq::new(
            node.nested_types@.len(),
            |i: int|
                if 0 <= i < node.nested_types@.len() {
                    model_view(node.nested_types@[i])
                } else {
                    arbitrary()
                },
        ),
    }
}

impl View for DataModelNode {
    type V = DataModel;

    open spec fn view(&self) -> DataModel {
        model_view(*self)
    }
}

/// The mathematical values of a list of data model nodes.
pub open spec fn models_view(nodes: Seq<DataModelNode>) -> Seq<DataModel> {
    nodes.map_values(|node: DataModelNode| node@)
}

impl DataModel {
    /// Whether the model is complete: it has a shape and a place in the
    /// namespace, a scalar or a sequence has its type, every reference in
    /// it names a type, and the same holds of the types nested in it.
    pub open spec fn well_formed(self) -> bool
        decreases self,
    {
        &&& self.code_gen_type is Some
        &&& self.qualified_name.len() > 0
        &&& self.base_type matches Some(base) ==> base.well_formed()
        &&& (self.code_gen_type == Some(AbstractDataType::Scalar) || self.code_gen_type == Some(
            AbstractDataType::WrappedScalar,
        ) || self.code_gen_type == Some(AbstractDataType::Sequence) || self.code_gen_type == Some(
            AbstractDataType::WrappedSequence,
        )) ==> self.base_type is Some
        &&& forall|i: int|
            0 <= i < self.fields.len() ==> (#[trigger] self.fields[i]).type_reference.well_formed()
        &&& forall|i: int|
            0 <= i < self.nested_types.len() ==> (#[trigger] self.nested_types[i]).well_formed()
    }
}

impl DataModelNode {
    /// The view of a node, field by field.
    pub proof fn lemma_view(&self)
        ensures
            self@ == (DataModel {
                name: self.name@,
                code_gen_type: self.code_gen_type,
                qualified_name: path_view(self.qualified_name@),
                base_type: optional_reference_view(self.base_type),
                sequence_type: self.sequence_type,
                fields: fields_view(self.fields@),
                variants: strings_view(self.variants@),
                nested_types: models_view(self.nested_types@),
            }),
    {
        assert(self@.nested_types =~= models_view(self.nested_types@));
    }
}

} // verus!
