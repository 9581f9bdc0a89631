//! The generation driver: walks the schema type graph depth first and
//! describes, for each top-level type, the unit that is to be rendered.

use vstd::prelude::*;
use crate::model::{clone_path, fields_view, models_view, path_view, simple_reference};
use crate::model::{strings_view, AbstractDataType, DataModel, DataModelNode, Field};
use crate::model::{FieldReference, FullyQualifiedTypeReference, NamespaceNode, NamespaceSegment};
use crate::model::{SequenceType, TypeReference};
use crate::result::{imbalance, invalid_abstract_data_type_error, invalid_shape};
use crate::result::{namespace_imbalance_error, unsupported};
use crate::result::{unsupported_schema_construct_error, CodeGenFailure, ErrorKind};
use crate::result::CodeGenResult;
use crate::schema::{classification, classify, field_definitions_view, shape_of};
use crate::schema::FieldDefinitionView;
use crate::schema::{SchemaGraph, SchemaGraphView, TypeRef, TypeRefView};
use crate::schema::{TypeShape, TypeShapeView};
use crate::text::{case_converted, str_eq, to_case, CaseStyle};
use crate::utils::{is_unsupported_name, schema_type_of, template_of, unsupported_description};
use crate::utils::{IonSchemaType, Language, SchemaType, Template};

verus! {

/// Whether a top-level type of the graph has the normalised name `name`.
pub open spec fn is_declared(graph: SchemaGraphView, name: Seq<char>) -> bool {
    exists|k: int|
        0 <= k < graph.top_level.len() && 0 <= #[trigger] graph.top_level[k] < graph.nodes.len()
            && case_converted(graph.nodes[graph.top_level[k]].name, CaseStyle::UpperCamel) == name
}

/// Whether `name` stands for a schema-defined type that no top-level type
/// of the graph declares.
pub open spec fn is_unresolved(graph: SchemaGraphView, name: Seq<char>) -> bool {
    schema_type_of(name) matches SchemaType::SchemaDefined(normalised) && !is_declared(
        graph,
        normalised,
    )
}

/// What a reference by name resolves to in the language `L`, inside the
/// type `subject`: an unsupported construct and a compound built-in are
/// rejected, a schema-defined name must be declared, and any other name is
/// the target type that the language maps it to.
pub open spec fn named_reference<L: Language>(
    graph: SchemaGraphView,
    subject: Seq<char>,
    name: Seq<char>,
) -> Result<TypeReference, CodeGenFailure> {
    if is_unsupported_name(name) {
        Err(unsupported(subject, unsupported_description(name)))
    } else if is_unresolved(graph, name) {
        Err(invalid_shape(subject, "unresolved type reference: "@ + name))
    } else {
        match L::mapped_type(schema_type_of(name)) {
            Some(target) => Ok(simple_reference(target)),
            None => Err(
                unsupported(subject, "open-ended list, sexp and struct types are not supported"@),
            ),
        }
    }
}

/// How a type that holds `model` refers to it: a bare scalar or sequence
/// is used where it stands, and any other type is referred to by its path.
pub open spec fn reference_to(model: DataModel) -> TypeReference {
    match (model.code_gen_type, model.base_type) {
        (Some(AbstractDataType::Scalar), Some(base)) => base,
        (Some(AbstractDataType::Sequence), Some(base)) => base,
        _ => TypeReference { qualified_name: model.qualified_name, parameters: Seq::empty() },
    }
}

/// A resolved reference, with the type that was generated for it where the
/// reference was to a definition written in place.
pub struct Resolved {
    pub reference: TypeReference,
    pub nested: Seq<DataModel>,
}

/// The resolved fields of a structure, with the types generated for them.
pub struct ResolvedFields {
    pub fields: Seq<Field>,
    pub nested: Seq<DataModel>,
}

/// Whether a reference leads into a definition written in place that can
/// be entered with the given budget of nesting.
pub open spec fn enters_nested(graph: SchemaGraphView, type_ref: TypeRefView, budget: nat) -> bool {
    type_ref matches TypeRefView::Inline(index) && 0 <= index < graph.nodes.len() && budget > 0
}

/// The namespace path after a reference has been resolved.
pub open spec fn path_after_reference<L: Language>(
    graph: SchemaGraphView,
    type_ref: TypeRefView,
    path: Seq<NamespaceSegment>,
    budget: nat,
) -> Seq<NamespaceSegment> {
    if enters_nested(graph, type_ref, budget) {
        L::scope_base(true, path)
    } else {
        path
    }
}

/// The namespace path after the types of the given fields have been
/// resolved one after the other.
pub open spec fn path_after_fields<L: Language>(
    graph: SchemaGraphView,
    fields: Seq<FieldDefinitionView>,
    path: Seq<NamespaceSegment>,
    budget: nat,
) -> Seq<NamespaceSegment>
    decreases fields.len(),
{
    if fields.len() == 0 {
        path
    } else {
        path_after_reference::<L>(
            graph,
            fields.last().type_ref,
            path_after_fields::<L>(graph, fields.drop_last(), path, budget),
            budget,
        )
    }
}

/// What a reference resolves to on the namespace path `path`. A definition
/// written in place is generated as a nested type; `budget` is how many
/// levels of nesting may still be entered.
pub open spec fn resolved_reference<L: Language>(
    graph: SchemaGraphView,
    subject: Seq<char>,
    type_ref: TypeRefView,
    path: Seq<NamespaceSegment>,
    budget: nat,
) -> Result<Resolved, CodeGenFailure>
    decreases budget, 0int, 0nat,
{
    match type_ref {
        TypeRefView::Named(name) => match named_reference::<L>(graph, subject, name) {
            Ok(reference) => Ok(Resolved { reference, nested: Seq::empty() }),
            Err(e) => Err(e),
        },
        TypeRefView::Inline(index) => if !(0 <= index < graph.nodes.len()) {
            Err(invalid_shape(subject, "nested type is not part of the schema"@))
        } else if budget == 0 {
            Err(invalid_shape(subject, "types are nested deeper than the schema has types"@))
        } else {
            match node_model::<L>(graph, index, true, path, (budget - 1) as nat) {
                Ok(model) => Ok(Resolved { reference: reference_to(model), nested: seq![model] }),
                Err(e) => Err(e),
            }
        },
    }
}

/// The field that a definition becomes once its type is resolved: the type
/// of a field that may be absent is made optional.
pub open spec fn resolved_field<L: Language>(
    definition: FieldDefinitionView,
    reference: TypeReference,
) -> Field {
    Field {
        name: definition.name,
        type_reference: if definition.required {
            reference
        } else {
            L::optional_of(reference)
        },
        required: definition.required,
    }
}

/// The fields of a structure, resolved in declaration order; the first
/// field that fails decides the error.
pub open spec fn fields_model<L: Language>(
    graph: SchemaGraphView,
    subject: Seq<char>,
    fields: Seq<FieldDefinitionView>,
    path: Seq<NamespaceSegment>,
    budget: nat,
) -> Result<ResolvedFields, CodeGenFailure>
    decreases budget, 1int, fields.len(),
{
    if fields.len() == 0 {
        Ok(ResolvedFields { fields: Seq::empty(), nested: Seq::empty() })
    } else {
        match fields_model::<L>(graph, subject, fields.drop_last(), path, budget) {
            Err(e) => Err(e),
            Ok(before) => match resolved_reference::<L>(
                graph,
                subject,
                fields.last().type_ref,
                path_after_fields::<L>(graph, fields.drop_last(), path, budget),
                budget,
            ) {
                Err(e) => Err(e),
                Ok(resolved) => Ok(
                    ResolvedFields {
                        fields: before.fields.push(
                            resolved_field::<L>(fields.last(), resolved.reference),
                        ),
                        nested: before.nested + resolved.nested,
                    },
                ),
            },
        }
    }
}

/// A model of the given shape at the given path, with nothing in it yet.
pub open spec fn blank_model(
    name: Seq<char>,
    shape: AbstractDataType,
    inside: Seq<NamespaceSegment>,
) -> DataModel {
    DataModel {
        name: case_converted(name, CaseStyle::UpperCamel),
        code_gen_type: Some(shape),
        qualified_name: inside,
        base_type: None,
        sequence_type: None,
        fields: Seq::empty(),
        variants: Seq::empty(),
        nested_types: Seq::empty(),
    }
}

/// The model of the definition at `index`, once it has been entered and
/// the namespace path is `inside`.
pub open spec fn described<L: Language>(
    graph: SchemaGraphView,
    index: int,
    inside: Seq<NamespaceSegment>,
    budget: nat,
) -> Result<DataModel, CodeGenFailure>
    decreases budget, 2int, 0nat,
{
    let definition = graph.nodes[index];
    match classification(definition) {
        Err(e) => Err(e),
        Ok(shape) => {
            let blank = blank_model(definition.name, shape, inside);
            match definition.shape {
                // not reached: a definition without a shape is not classified
                TypeShapeView::Unresolved => Ok(blank),
                TypeShapeView::Primitive(base) => match named_reference::<L>(
                    graph,
                    definition.name,
                    base,
                ) {
                    Ok(reference) => Ok(DataModel { base_type: Some(reference), ..blank }),
                    Err(e) => Err(e),
                },
                TypeShapeView::Variants(variants) => if variants.len() == 1 {
                    match named_reference::<L>(graph, definition.name, variants[0]) {
                        Ok(reference) => Ok(DataModel { base_type: Some(reference), ..blank }),
                        Err(e) => Err(e),
                    }
                } else {
                    Ok(DataModel { variants, ..blank })
                },
                TypeShapeView::Elements(element, sequence_type) => match resolved_reference::<L>(
                    graph,
                    definition.name,
                    element,
                    inside,
                    budget,
                ) {
                    Ok(resolved) => Ok(
                        DataModel {
                            base_type: Some(L::sequence_of(resolved.reference)),
                            sequence_type: Some(sequence_type),
                            nested_types: resolved.nested,
                            ..blank
                        },
                    ),
                    Err(e) => Err(e),
                },
                TypeShapeView::Fields(fields) => match fields_model::<L>(
                    graph,
                    definition.name,
                    fields,
                    inside,
                    budget,
                ) {
                    Ok(resolved) => Ok(
                        DataModel {
                            fields: resolved.fields,
                            nested_types: resolved.nested,
                            ..blank
                        },
                    ),
                    Err(e) => Err(e),
                },
            }
        },
    }
}

/// The model of the definition at `index` when it is generated on the
/// namespace path `path`: the type is entered, and described inside.
pub open spec fn node_model<L: Language>(
    graph: SchemaGraphView,
    index: int,
    is_nested: bool,
    path: Seq<NamespaceSegment>,
    budget: nat,
) -> Result<DataModel, CodeGenFailure>
    decreases budget, 3int, 0nat,
{
    described::<L>(graph, index, L::entered(is_nested, graph.nodes[index].name, path), budget)
}

/// The name of the definition at a position of the graph.
pub proof fn lemma_graph_view(graph: &SchemaGraph)
    ensures
        graph@.nodes.len() == graph.nodes@.len(),
        graph@.top_level.len() == graph.top_level@.len(),
        forall|i: int| 0 <= i < graph.nodes@.len() ==> #[trigger] graph@.nodes[i] == graph.nodes@[i]@,
        forall|k: int|
            0 <= k < graph.top_level@.len() ==> #[trigger] graph@.top_level[k]
                == graph.top_level@[k] as int,
{
}

/// Whether a top-level type of the graph has the normalised name `name`.
pub fn is_declared_type(graph: &SchemaGraph, name: &str) -> (declared: bool)
    ensures
        declared == is_declared(graph@, name@),
{
    proof {
        lemma_graph_view(graph);
    }
    let mut k: usize = 0;
    while k < graph.top_level.len()
        invariant
            k <= graph.top_level.len(),
            graph@.nodes.len() == graph.nodes@.len(),
            graph@.top_level.len() == graph.top_level@.len(),
            forall|i: int|
                0 <= i < graph.nodes@.len() ==> #[trigger] graph@.nodes[i] == graph.nodes@[i]@,
            forall|j: int|
                0 <= j < graph.top_level@.len() ==> #[trigger] graph@.top_level[j]
                    == graph.top_level@[j] as int,
            forall|j: int|
                0 <= j < k ==> !(0 <= #[trigger] graph@.top_level[j] < graph@.nodes.len()
                    && case_converted(
                    graph@.nodes[graph@.top_level[j]].name,
                    CaseStyle::UpperCamel,
                ) == name@),
        decreases graph.top_level.len() - k,
    {
        let index = graph.top_level[k];
        if index < graph.nodes.len() {
            let normalised = to_case(graph.nodes[index].name.as_str(), CaseStyle::UpperCamel);
            if str_eq(normalised.as_str(), name) {
                assert(0 <= graph@.top_level[k as int] < graph@.nodes.len());
                return true;
            }
        }
        k += 1;
    }
    false
}

/// Resolves a reference by name inside the type `subject`.
pub fn resolve_named<L: Language>(graph: &SchemaGraph, subject: &str, name: &str) -> (result:
    CodeGenResult<FullyQualifiedTypeReference>)
    ensures
        match result {
            Ok(reference) => named_reference::<L>(graph@, subject@, name@) == Ok::<
                TypeReference,
                CodeGenFailure,
            >(reference@),
            Err(e) => named_reference::<L>(graph@, subject@, name@) == Err::<
                TypeReference,
                CodeGenFailure,
            >(e@),
        },
{
    let schema_type = match IonSchemaType::try_from(subject, name) {
        Ok(schema_type) => schema_type,
        Err(e) => {
            return Err(e);
        },
    };
    if let IonSchemaType::SchemaDefined(normalised) = &schema_type {
        if !is_declared_type(graph, normalised.as_str()) {
            let mut description = "unresolved type reference: ".to_owned();
            description.append(name);
            return invalid_abstract_data_type_error(subject, description.as_str());
        }
    }
    match L::target_type(&schema_type) {
        Some(target) => Ok(FullyQualifiedTypeReference::simple(target)),
        None => unsupported_schema_construct_error(
            subject,
            "open-ended list, sexp and struct types are not supported",
        ),
    }
}

impl DataModelNode {
    /// How a type that holds this one refers to it.
    pub fn type_reference(&self) -> (reference: FullyQualifiedTypeReference)
        ensures
            reference@ == reference_to(self@),
    {
        proof {
            self.lemma_view();
        }
        let bare = match self.code_gen_type {
            Some(AbstractDataType::Scalar) => true,
            Some(AbstractDataType::Sequence) => true,
            _ => false,
        };
        if bare {
            if let Some(base) = &self.base_type {
                return base.clone();
            }
        }
        let reference = FullyQualifiedTypeReference::new(
            clone_path(&self.qualified_name),
            Vec::new(),
        );
        assert(reference@.parameters =~= Seq::<TypeReference>::empty());
        reference
    }
}

/// The types generated for a reference: one where it was to a definition
/// written in place, none otherwise.
pub open spec fn nested_view(nested: Option<DataModelNode>) -> Seq<DataModel> {
    match nested {
        Some(node) => seq![node@],
        None => Seq::empty(),
    }
}

/// A copy of a list of strings.
fn clone_strings(strings: &Vec<String>) -> (copy: Vec<String>)
    ensures
        strings_view(copy@) == strings_view(strings@),
{
    let mut copy: Vec<String> = Vec::new();
    let mut i: usize = 0;
    while i < strings.len()
        invariant
            i <= strings.len(),
            copy.len() == i,
            forall|k: int| 0 <= k < i ==> copy@[k]@ == strings@[k]@,
        decreases strings.len() - i,
    {
        copy.push(strings[i].clone());
        i += 1;
    }
    assert(strings_view(copy@) =~= strings_view(strings@));
    copy
}

/// Once a field has failed, the fields after it change nothing.
proof fn lemma_fields_error<L: Language>(
    graph: SchemaGraphView,
    subject: Seq<char>,
    fields: Seq<FieldDefinitionView>,
    k: int,
    path: Seq<NamespaceSegment>,
    budget: nat,
)
    requires
        0 <= k <= fields.len(),
        fields_model::<L>(graph, subject, fields.take(k), path, budget) is Err,
    ensures
        fields_model::<L>(graph, subject, fields, path, budget) == fields_model::<L>(
            graph,
            subject,
            fields.take(k),
            path,
            budget,
        ),
    decreases fields.len() - k,
{
    if k < fields.len() {
        assert(fields.take(k + 1).drop_last() =~= fields.take(k));
        lemma_fields_error::<L>(graph, subject, fields, k + 1, path, budget);
    } else {
        assert(fields.take(k) =~= fields);
    }
}

/// Resolves a reference; a definition written in place is generated as a
/// nested type and handed back beside the reference to it.
fn resolve_reference<L: Language>(
    graph: &SchemaGraph,
    subject: &str,
    type_ref: &TypeRef,
    namespace: &mut Vec<NamespaceNode>,
    budget: usize,
) -> (result: CodeGenResult<(FullyQualifiedTypeReference, Option<DataModelNode>)>)
    ensures
        path_view(final(namespace)@) == path_after_reference::<L>(
            graph@,
            type_ref@,
            path_view(old(namespace)@),
            budget as nat,
        ),
        match result {
            Ok((reference, nested)) => resolved_reference::<L>(
                graph@,
                subject@,
                type_ref@,
                path_view(old(namespace)@),
                budget as nat,
            ) == Ok::<Resolved, CodeGenFailure>(
                Resolved { reference: reference@, nested: nested_view(nested) },
            ),
            Err(e) => resolved_reference::<L>(
                graph@,
                subject@,
                type_ref@,
                path_view(old(namespace)@),
                budget as nat,
            ) == Err::<Resolved, CodeGenFailure>(e@),
        },
    decreases budget, 0int,
{
    proof {
        lemma_graph_view(graph);
    }
    match type_ref {
        TypeRef::Named(name) => match resolve_named::<L>(graph, subject, name.as_str()) {
            Ok(reference) => Ok((reference, None)),
            Err(e) => Err(e),
        },
        TypeRef::Inline(index) => {
            let index = *index;
            if index >= graph.nodes.len() {
                return invalid_abstract_data_type_error(
                    subject,
                    "nested type is not part of the schema",
                );
            }
            if budget == 0 {
                return invalid_abstract_data_type_error(
                    subject,
                    "types are nested deeper than the schema has types",
                );
            }
            match generate_type::<L>(graph, index, true, namespace, budget - 1) {
                Ok(node) => {
                    let reference = node.type_reference();
                    Ok((reference, Some(node)))
                },
                Err(e) => Err(e),
            }
        },
    }
}

/// Describes the definition at `index` after it has been entered. The
/// namespace path stays inside the scope of the type.
#[verifier::loop_isolation(false)]
fn describe_type<L: Language>(
    graph: &SchemaGraph,
    index: usize,
    namespace: &mut Vec<NamespaceNode>,
    budget: usize,
) -> (result: CodeGenResult<DataModelNode>)
    requires
        index < graph.nodes.len(),
    ensures
        forall|base: Seq<NamespaceSegment>|
            #![trigger L::in_scope(base, path_view(old(namespace)@))]
            L::in_scope(base, path_view(old(namespace)@)) ==> L::in_scope(
                base,
                path_view(final(namespace)@),
            ),
        match result {
            Ok(node) => described::<L>(
                graph@,
                index as int,
                path_view(old(namespace)@),
                budget as nat,
            ) == Ok::<DataModel, CodeGenFailure>(node@),
            Err(e) => described::<L>(
                graph@,
                index as int,
                path_view(old(namespace)@),
                budget as nat,
            ) == Err::<DataModel, CodeGenFailure>(e@),
        },
    decreases budget, 1int,
{
    proof {
        lemma_graph_view(graph);
    }
    let ghost inside = path_view(namespace@);
    let definition = &graph.nodes[index];
    let subject = definition.name.as_str();
    let shape = match classify(definition) {
        Ok(shape) => shape,
        Err(e) => {
            return Err(e);
        },
    };
    let mut base_type: Option<FullyQualifiedTypeReference> = None;
    let mut sequence_type: Option<SequenceType> = None;
    let mut fields: Vec<FieldReference> = Vec::new();
    let mut variants: Vec<String> = Vec::new();
    let mut nested_types: Vec<DataModelNode> = Vec::new();
    let qualified_name = clone_path(namespace);
    match &definition.shape {
        TypeShape::Unresolved => {
            // not reached: a definition without a shape is not classified
        },
        TypeShape::Primitive(base) => {
            match resolve_named::<L>(graph, subject, base.as_str()) {
                Ok(reference) => {
                    base_type = Some(reference);
                },
                Err(e) => {
                    return Err(e);
                },
            }
        },
        TypeShape::Variants(names) => {
            if names.len() == 1 {
                match resolve_named::<L>(graph, subject, names[0].as_str()) {
                    Ok(reference) => {
                        base_type = Some(reference);
                    },
                    Err(e) => {
                        return Err(e);
                    },
                }
            } else {
                variants = clone_strings(names);
            }
        },
        TypeShape::Elements(element, kind) => {
            match resolve_reference::<L>(graph, subject, element, namespace, budget) {
                Ok((reference, nested)) => {
                    base_type = Some(L::target_type_as_sequence(reference));
                    sequence_type = Some(*kind);
                    if let Some(node) = nested {
                        nested_types.push(node);
                    }
                    proof {
                        if enters_nested(graph@, element@, budget as nat) {
                            assert forall|base: Seq<NamespaceSegment>|
                                L::in_scope(base, inside) implies L::in_scope(
                                base,
                                path_view(namespace@),
                            ) by {
                                L::lemma_nested_keeps_scope(base, inside);
                            }
                        }
                        assert(models_view(nested_types@) =~= nested_view(nested));
                    }
                },
                Err(e) => {
                    proof {
                        if enters_nested(graph@, element@, budget as nat) {
                            assert forall|base: Seq<NamespaceSegment>|
                                L::in_scope(base, inside) implies L::in_scope(
                                base,
                                path_view(namespace@),
                            ) by {
                                L::lemma_nested_keeps_scope(base, inside);
                            }
                        }
                    }
                    return Err(e);
                },
            }
        },
        TypeShape::Fields(definitions) => {
            let ghost all = field_definitions_view(definitions@);
            let mut i: usize = 0;
            proof {
                assert(fields_view(fields@) =~= Seq::<Field>::empty());
                assert(models_view(nested_types@) =~= Seq::<DataModel>::empty());
            }
            while i < definitions.len()
                invariant
                    i <= definitions.len(),
                    all == field_definitions_view(definitions@),
                    subject@ == graph@.nodes[index as int].name,
                    fields_model::<L>(graph@, subject@, all.take(i as int), inside, budget as nat)
                        == Ok::<ResolvedFields, CodeGenFailure>(
                        ResolvedFields {
                            fields: fields_view(fields@),
                            nested: models_view(nested_types@),
                        },
                    ),
                    path_view(namespace@) == path_after_fields::<L>(
                        graph@,
                        all.take(i as int),
                        inside,
                        budget as nat,
                    ),
                    forall|base: Seq<NamespaceSegment>|
                        #![trigger L::in_scope(base, inside)]
                        L::in_scope(base, inside) ==> L::in_scope(base, path_view(namespace@)),
                decreases definitions.len() - i,
            {
                let definition = &definitions[i];
                let ghost before = path_view(namespace@);
                proof {
                    assert(all.take(i + 1).drop_last() =~= all.take(i as int));
                    assert(all.take(i + 1).last() == definition@);
                }
                let resolved = resolve_reference::<L>(
                    graph,
                    subject,
                    &definition.type_ref,
                    namespace,
                    budget,
                );
                proof {
                    assert forall|base: Seq<NamespaceSegment>|
                        L::in_scope(base, inside) implies L::in_scope(
                        base,
                        path_view(namespace@),
                    ) by {
                        if enters_nested(graph@, definition@.type_ref, budget as nat) {
                            L::lemma_nested_keeps_scope(base, before);
                        }
                    }
                }
                match resolved {
                    Ok((reference, nested)) => {
                        let type_reference = if definition.required {
                            reference
                        } else {
                            L::target_type_as_optional(reference)
                        };
                        let ghost old_fields = fields@;
                        let ghost old_nested = nested_types@;
                        fields.push(
                            FieldReference {
                                name: definition.name.clone(),
                                type_reference,
                                required: definition.required,
                            },
                        );
                        if let Some(node) = nested {
                            nested_types.push(node);
                        }
                        proof {
                            assert(fields_view(fields@) =~= fields_view(old_fields).push(
                                resolved_field::<L>(definition@, reference@),
                            ));
                            assert(models_view(nested_types@) =~= models_view(old_nested)
                                + nested_view(nested));
                        }
                    },
                    Err(e) => {
                        proof {
                            lemma_fields_error::<L>(
                                graph@,
                                subject@,
                                all,
                                i + 1,
                                inside,
                                budget as nat,
                            );
                        }
                        return Err(e);
                    },
                }
                i += 1;
            }
            proof {
                assert(all.take(i as int) =~= all);
            }
        },
    }
    let node = DataModelNode {
        name: to_case(subject, CaseStyle::UpperCamel),
        code_gen_type: Some(shape),
        qualified_name,
        base_type,
        sequence_type,
        fields,
        variants,
        nested_types,
    };
    proof {
        node.lemma_view();
        assert(fields_view(Seq::<FieldReference>::empty()) =~= Seq::<Field>::empty());
        assert(strings_view(Seq::<String>::empty()) =~= Seq::<Seq<char>>::empty());
        assert(models_view(Seq::<DataModelNode>::empty()) =~= Seq::<DataModel>::empty());
    }
    Ok(node)
}

/// Generates the definition at `index`: enters it, describes it, and
/// leaves it again whether or not the description succeeded.
fn generate_type<L: Language>(
    graph: &SchemaGraph,
    index: usize,
    is_nested: bool,
    namespace: &mut Vec<NamespaceNode>,
    budget: usize,
) -> (result: CodeGenResult<DataModelNode>)
    requires
        index < graph.nodes.len(),
    ensures
        path_view(final(namespace)@) == L::scope_base(is_nested, path_view(old(namespace)@)),
        match result {
            Ok(node) => node_model::<L>(
                graph@,
                index as int,
                is_nested,
                path_view(old(namespace)@),
                budget as nat,
            ) == Ok::<DataModel, CodeGenFailure>(node@),
            Err(e) => node_model::<L>(
                graph@,
                index as int,
                is_nested,
                path_view(old(namespace)@),
                budget as nat,
            ) == Err::<DataModel, CodeGenFailure>(e@),
        },
    decreases budget, 2int,
{
    proof {
        lemma_graph_view(graph);
    }
    let ghost path = path_view(namespace@);
    let ghost base = L::scope_base(is_nested, path);
    let definition = &graph.nodes[index];
    L::add_type_to_namespace(is_nested, definition.name.as_str(), namespace);
    proof {
        L::lemma_enter_opens_scope(is_nested, definition.name@, path);
    }
    let result = describe_type::<L>(graph, index, namespace, budget);
    proof {
        L::lemma_reset_closes_scope(base, path_view(namespace@));
    }
    L::reset_namespace(namespace);
    result
}

/// What is handed to the renderer for one top-level type: the file that
/// the rendered text goes to, the template to render with, and the
/// described type with the types nested in it.
#[derive(Debug, PartialEq, Eq)]
pub struct GeneratedUnit {
    pub file_name: String,
    pub template: Template,
    pub template_name: String,
    pub node: DataModelNode,
}

/// The mathematical value of a [`GeneratedUnit`].
pub struct GeneratedUnitView {
    pub file_name: Seq<char>,
    pub template: Template,
    pub template_name: Seq<char>,
    pub node: DataModel,
}

impl View for GeneratedUnit {
    type V = GeneratedUnitView;

    open spec fn view(&self) -> GeneratedUnitView {
        GeneratedUnitView {
            file_name: self.file_name@,
            template: self.template,
            template_name: self.template_name@,
            node: self.node@,
        }
    }
}

/// The mathematical values of a list of units.
pub open spec fn units_view(units: Seq<GeneratedUnit>) -> Seq<GeneratedUnitView> {
    units.map_values(|unit: GeneratedUnit| unit@)
}

/// How many levels of nesting a top-level type may enter: a type that is
/// nested deeper than the schema has types is nested inside itself.
pub open spec fn nesting_budget(graph: SchemaGraphView) -> nat {
    if graph.nodes.len() == 0 {
        0
    } else {
        (graph.nodes.len() - 1) as nat
    }
}

/// The unit for the top-level type at `index`, generated on `path`.
pub open spec fn unit_model<L: Language>(
    graph: SchemaGraphView,
    index: int,
    path: Seq<NamespaceSegment>,
) -> Result<GeneratedUnitView, CodeGenFailure> {
    if !(0 <= index < graph.nodes.len()) {
        Err(invalid_shape(Seq::empty(), "top-level type is not part of the schema"@))
    } else {
        match node_model::<L>(graph, index, false, path, nesting_budget(graph)) {
            Err(e) => Err(e),
            Ok(node) => {
                let template = template_of(shape_of(graph.nodes[index]));
                Ok(
                    GeneratedUnitView {
                        file_name: L::file_name(graph.nodes[index].name) + "."@ + L::extension(),
                        template,
                        template_name: L::template_file(template),
                        node,
                    },
                )
            },
        }
    }
}

/// The units for the given top-level types, in order; the first type that
/// fails decides the error, and then no unit is handed out.
pub open spec fn units_model<L: Language>(
    graph: SchemaGraphView,
    roots: Seq<int>,
    path: Seq<NamespaceSegment>,
) -> Result<Seq<GeneratedUnitView>, CodeGenFailure>
    decreases roots.len(),
{
    if roots.len() == 0 {
        Ok(Seq::empty())
    } else {
        match units_model::<L>(graph, roots.drop_last(), path) {
            Err(e) => Err(e),
            Ok(before) => match unit_model::<L>(graph, roots.last(), path) {
                Err(e) => Err(e),
                Ok(unit) => Ok(before.push(unit)),
            },
        }
    }
}

/// Once a top-level type has failed, the types after it change nothing.
proof fn lemma_units_error<L: Language>(
    graph: SchemaGraphView,
    roots: Seq<int>,
    k: int,
    path: Seq<NamespaceSegment>,
)
    requires
        0 <= k <= roots.len(),
        units_model::<L>(graph, roots.take(k), path) is Err,
    ensures
        units_model::<L>(graph, roots, path) == units_model::<L>(graph, roots.take(k), path),
    decreases roots.len() - k,
{
    if k < roots.len() {
        assert(roots.take(k + 1).drop_last() =~= roots.take(k));
        lemma_units_error::<L>(graph, roots, k + 1, path);
    } else {
        assert(roots.take(k) =~= roots);
    }
}

/// Generates the unit of the top-level type at `index`.
fn generate_unit<L: Language>(
    graph: &SchemaGraph,
    index: usize,
    namespace: &mut Vec<NamespaceNode>,
) -> (result: CodeGenResult<GeneratedUnit>)
    ensures
        path_view(final(namespace)@) == path_view(old(namespace)@),
        match result {
            Ok(unit) => unit_model::<L>(graph@, index as int, path_view(old(namespace)@)) == Ok::<
                GeneratedUnitView,
                CodeGenFailure,
            >(unit@),
            Err(e) => unit_model::<L>(graph@, index as int, path_view(old(namespace)@)) == Err::<
                GeneratedUnitView,
                CodeGenFailure,
            >(e@),
        },
{
    proof {
        lemma_graph_view(graph);
        L::lemma_top_level_base(path_view(namespace@));
    }
    if index >= graph.nodes.len() {
        proof {
            reveal_strlit("");
            assert(""@ =~= Seq::<char>::empty());
        }
        return invalid_abstract_data_type_error("", "top-level type is not part of the schema");
    }
    let budget = graph.nodes.len() - 1;
    let node = match generate_type::<L>(graph, index, false, namespace, budget) {
        Ok(node) => node,
        Err(e) => {
            return Err(e);
        },
    };
    proof {
        node.lemma_view();
    }
    let template = match node.code_gen_type {
        Some(shape) => Template::for_shape(shape),
        None => {
            return invalid_abstract_data_type_error(
                node.name.as_str(),
                "can not get a template without determining data model first",
            );
        },
    };
    let mut file_name = L::file_name_for_type(graph.nodes[index].name.as_str());
    file_name.append(".");
    file_name.append(L::file_extension().as_str());
    let template_name = L::template_name(&template);
    Ok(GeneratedUnit { file_name, template, template_name, node })
}

/// Generates every top-level type of the schema, in schema order, for the
/// language `L`.
///
/// Each type is classified, entered on the namespace path, described with
/// its fields or its element resolved to types of the language, and left
/// again. Definitions written in place are generated depth first and
/// embedded in the type that holds them. On success there is one unit for
/// each top-level type. The first type that cannot be generated ends the
/// run with its error, and then no unit is handed out. A type that is
/// nested deeper than the schema has types is nested inside itself, and is
/// reported as such. Either way the namespace path is afterwards what it
/// was before.
#[verifier::loop_isolation(false)]
pub fn generate<L: Language>(graph: &SchemaGraph, namespace: &mut Vec<NamespaceNode>) -> (result:
    CodeGenResult<Vec<GeneratedUnit>>)
    ensures
        path_view(final(namespace)@) == path_view(old(namespace)@),
        match result {
            Ok(units) => units_model::<L>(graph@, graph@.top_level, path_view(old(namespace)@))
                == Ok::<Seq<GeneratedUnitView>, CodeGenFailure>(units_view(units@)),
            Err(e) => units_model::<L>(graph@, graph@.top_level, path_view(old(namespace)@))
                == Err::<Seq<GeneratedUnitView>, CodeGenFailure>(e@),
        },
{
    proof {
        lemma_graph_view(graph);
    }
    let ghost path = path_view(namespace@);
    let ghost roots = graph@.top_level;
    let mut units: Vec<GeneratedUnit> = Vec::new();
    let mut k: usize = 0;
    proof {
        assert(units_view(units@) =~= Seq::<GeneratedUnitView>::empty());
    }
    while k < graph.top_level.len()
        invariant
            k <= graph.top_level.len(),
            roots == graph@.top_level,
            roots.len() == graph.top_level@.len(),
            forall|j: int|
                0 <= j < graph.top_level@.len() ==> #[trigger] roots[j] == graph.top_level@[j] as int,
            path_view(namespace@) == path,
            units_model::<L>(graph@, roots.take(k as int), path) == Ok::<
                Seq<GeneratedUnitView>,
                CodeGenFailure,
            >(units_view(units@)),
        decreases graph.top_level.len() - k,
    {
        proof {
            assert(roots.take(k + 1).drop_last() =~= roots.take(k as int));
            assert(roots.take(k + 1).last() == graph.top_level@[k as int] as int);
        }
        match generate_unit::<L>(graph, graph.top_level[k], namespace) {
            Ok(unit) => {
                let ghost before = units@;
                units.push(unit);
                proof {
                    assert(units_view(units@) =~= units_view(before).push(unit@));
                }
            },
            Err(e) => {
                proof {
                    lemma_units_error::<L>(graph@, roots, k + 1, path);
                }
                return Err(e);
            },
        }
        k += 1;
    }
    proof {
        assert(roots.take(k as int) =~= roots);
    }
    Ok(units)
}

/// Checks that a namespace path is what it was before a type was entered.
/// Generation restores the path by itself; this is for callers that enter
/// and leave types on their own.
pub fn check_namespace_balance(
    subject: &str,
    before: &Vec<NamespaceNode>,
    after: &Vec<NamespaceNode>,
) -> (result: CodeGenResult<()>)
    ensures
        match result {
            Ok(_) => path_view(after@) == path_view(before@),
            Err(e) => path_view(after@) != path_view(before@) && e@ == imbalance(
                subject@,
                "the namespace path was not restored"@,
            ),
        },
{
    let mut same = before.len() == after.len();
    let mut i: usize = 0;
    proof {
        if !same {
            assert(path_view(after@).len() != path_view(before@).len());
        }
    }
    while same && i < before.len()
        invariant
            i <= before.len(),
            same ==> before.len() == after.len(),
            same ==> forall|k: int| 0 <= k < i ==> before@[k]@ == after@[k]@,
            !same ==> path_view(after@) != path_view(before@),
        decreases before.len() - i,
    {
        let equal = match (&before[i], &after[i]) {
            (NamespaceNode::Package(a), NamespaceNode::Package(b)) => str_eq(
                a.as_str(),
                b.as_str(),
            ),
            (NamespaceNode::Type(a), NamespaceNode::Type(b)) => str_eq(a.as_str(), b.as_str()),
            _ => false,
        };
        if !equal {
            same = false;
            assert(path_view(after@)[i as int] != path_view(before@)[i as int]);
        }
        i += 1;
    }
    if same {
        assert(path_view(after@) =~= path_view(before@));
        Ok(())
    } else {
        namespace_imbalance_error(subject, "the namespace path was not restored")
    }
}

/// Entering a type and leaving it at once gives the path that the type
/// goes back to; for a top-level type that is the path it was entered on.
pub proof fn lemma_enter_then_leave<L: Language>(
    is_nested: bool,
    name: Seq<char>,
    path: Seq<NamespaceSegment>,
)
    ensures
        L::left(L::entered(is_nested, name, path)) == L::scope_base(is_nested, path),
        L::left(L::entered(false, name, path)) == path,
{
    L::lemma_enter_opens_scope(is_nested, name, path);
    L::lemma_reset_closes_scope(
        L::scope_base(is_nested, path),
        L::entered(is_nested, name, path),
    );
    L::lemma_enter_opens_scope(false, name, path);
    L::lemma_reset_closes_scope(L::scope_base(false, path), L::entered(false, name, path));
    L::lemma_top_level_base(path);
}

/// Whether a failure is one that generation reports: an unsupported
/// construct or an undetermined shape, never an imbalance.
pub open spec fn is_generation_failure(failure: CodeGenFailure) -> bool {
    failure.kind == ErrorKind::UnsupportedSchemaConstruct || failure.kind
        == ErrorKind::InvalidAbstractDataType
}

/// What a reference by name resolves to names a type.
proof fn lemma_named_reference<L: Language>(
    graph: SchemaGraphView,
    subject: Seq<char>,
    name: Seq<char>,
)
    ensures
        match named_reference::<L>(graph, subject, name) {
            Ok(reference) => reference.well_formed(),
            Err(e) => is_generation_failure(e),
        },
{
}

/// What a reference resolves to names a type, and what was generated for
/// it is complete.
proof fn lemma_resolved_reference<L: Language>(
    graph: SchemaGraphView,
    subject: Seq<char>,
    type_ref: TypeRefView,
    path: Seq<NamespaceSegment>,
    budget: nat,
)
    ensures
        match resolved_reference::<L>(graph, subject, type_ref, path, budget) {
            Ok(resolved) => resolved.reference.well_formed() && forall|i: int|
                0 <= i < resolved.nested.len() ==> (#[trigger] resolved.nested[i]).well_formed(),
            Err(e) => is_generation_failure(e),
        },
    decreases budget, 0int, 0nat,
{
    match type_ref {
        TypeRefView::Named(name) => {
            lemma_named_reference::<L>(graph, subject, name);
        },
        TypeRefView::Inline(index) => {
            if 0 <= index < graph.nodes.len() && budget > 0 {
                lemma_node_model::<L>(graph, index, true, path, (budget - 1) as nat);
            }
        },
    }
}

/// The resolved fields of a structure name types, and what was generated
/// for them is complete.
proof fn lemma_fields_model<L: Language>(
    graph: SchemaGraphView,
    subject: Seq<char>,
    fields: Seq<FieldDefinitionView>,
    path: Seq<NamespaceSegment>,
    budget: nat,
)
    ensures
        match fields_model::<L>(graph, subject, fields, path, budget) {
            Ok(resolved) => {
                &&& forall|i: int|
                    0 <= i < resolved.fields.len() ==> (
                    #[trigger] resolved.fields[i]).type_reference.well_formed()
                &&& forall|i: int|
                    0 <= i < resolved.nested.len() ==> (#[trigger] resolved.nested[i]).well_formed()
            },
            Err(e) => is_generation_failure(e),
        },
    decreases budget, 1int, fields.len(),
{
    if fields.len() > 0 {
        lemma_fields_model::<L>(graph, subject, fields.drop_last(), path, budget);
        let at = path_after_fields::<L>(graph, fields.drop_last(), path, budget);
        lemma_resolved_reference::<L>(graph, subject, fields.last().type_ref, at, budget);
        if let Ok(before) = fields_model::<L>(graph, subject, fields.drop_last(), path, budget) {
            if let Ok(resolved) = resolved_reference::<L>(
                graph,
                subject,
                fields.last().type_ref,
                at,
                budget,
            ) {
                L::lemma_boxing_keeps_well_formed(resolved.reference);
            }
        }
    }
}

/// A generated type is complete, and a failure of generation is never an
/// imbalance of the namespace path.
pub proof fn lemma_node_model<L: Language>(
    graph: SchemaGraphView,
    index: int,
    is_nested: bool,
    path: Seq<NamespaceSegment>,
    budget: nat,
)
    requires
        0 <= index < graph.nodes.len(),
    ensures
        match node_model::<L>(graph, index, is_nested, path, budget) {
            Ok(model) => model.well_formed() && model.code_gen_type == Some(
                shape_of(graph.nodes[index]),
            ),
            Err(e) => is_generation_failure(e),
        },
    decreases budget, 2int, 0nat,
{
    let definition = graph.nodes[index];
    let inside = L::entered(is_nested, definition.name, path);
    L::lemma_enter_opens_scope(is_nested, definition.name, path);
    L::lemma_scope_is_not_empty(L::scope_base(is_nested, path), inside);
    match definition.shape {
        TypeShapeView::Primitive(base) => {
            lemma_named_reference::<L>(graph, definition.name, base);
        },
        TypeShapeView::Variants(variants) => {
            if variants.len() == 1 {
                lemma_named_reference::<L>(graph, definition.name, variants[0]);
            }
        },
        TypeShapeView::Elements(element, _) => {
            lemma_resolved_reference::<L>(graph, definition.name, element, inside, budget);
            if let Ok(resolved) = resolved_reference::<L>(
                graph,
                definition.name,
                element,
                inside,
                budget,
            ) {
                L::lemma_sequence_wraps_element(resolved.reference);
                L::lemma_boxing_keeps_well_formed(resolved.reference);
            }
        },
        TypeShapeView::Fields(fields) => {
            lemma_fields_model::<L>(graph, definition.name, fields, inside, budget);
        },
        TypeShapeView::Unresolved => {},
    }
}

/// Every unit that generation hands out holds a complete type, rendered
/// with the template of its shape; and where generation fails, it is for
/// an unsupported construct or an undetermined shape.
pub proof fn lemma_units_model<L: Language>(
    graph: SchemaGraphView,
    roots: Seq<int>,
    path: Seq<NamespaceSegment>,
)
    ensures
        match units_model::<L>(graph, roots, path) {
            Ok(units) => units.len() == roots.len() && forall|k: int|
                0 <= k < units.len() ==> (#[trigger] units[k]).node.well_formed()
                    && units[k].node.code_gen_type is Some && units[k].template == template_of(
                    units[k].node.code_gen_type->0,
                ),
            Err(e) => is_generation_failure(e),
        },
    decreases roots.len(),
{
    if roots.len() > 0 {
        lemma_units_model::<L>(graph, roots.drop_last(), path);
        if 0 <= roots.last() < graph.nodes.len() {
            lemma_node_model::<L>(graph, roots.last(), false, path, nesting_budget(graph));
        }
    }
}

/// Whether the definition at `holder` has the definition at `nested`
/// written in place, as the type of its element or of one of its fields.
pub open spec fn nests(graph: SchemaGraphView, holder: int, nested: int) -> bool {
    match graph.nodes[holder].shape {
        TypeShapeView::Elements(element, _) => element == TypeRefView::Inline(nested),
        TypeShapeView::Fields(fields) => exists|k: int|
            0 <= k < fields.len() && (#[trigger] fields[k]).type_ref == TypeRefView::Inline(nested),
        _ => false,
    }
}

/// Whether `rank` gives every definition a number that is larger than the
/// number of each definition written inside it. A schema has such numbers
/// exactly when no type is nested inside itself.
pub open spec fn is_ranking(graph: SchemaGraphView, rank: spec_fn(int) -> nat) -> bool {
    forall|holder: int, nested: int|
        0 <= holder < graph.nodes.len() && 0 <= nested < graph.nodes.len() && #[trigger] nests(
            graph,
            holder,
            nested,
        ) ==> rank(nested) < rank(holder)
}

/// Whether a reference leads at most to a definition of a rank below
/// `bound`.
pub open spec fn ranked_below(
    graph: SchemaGraphView,
    rank: spec_fn(int) -> nat,
    type_ref: TypeRefView,
    bound: nat,
) -> bool {
    type_ref matches TypeRefView::Inline(index) ==> (0 <= index < graph.nodes.len() ==> rank(index)
        < bound)
}

/// With a budget of at least the rank of what holds a reference, the
/// budget does not decide what the reference resolves to.
proof fn lemma_reference_within_budget<L: Language>(
    graph: SchemaGraphView,
    rank: spec_fn(int) -> nat,
    subject: Seq<char>,
    type_ref: TypeRefView,
    path: Seq<NamespaceSegment>,
    bound: nat,
    budget: nat,
    other: nat,
)
    requires
        is_ranking(graph, rank),
        ranked_below(graph, rank, type_ref, bound),
        budget >= bound,
        other >= bound,
    ensures
        resolved_reference::<L>(graph, subject, type_ref, path, budget) == resolved_reference::<L>(
            graph,
            subject,
            type_ref,
            path,
            other,
        ),
        path_after_reference::<L>(graph, type_ref, path, budget) == path_after_reference::<L>(
            graph,
            type_ref,
            path,
            other,
        ),
    decreases budget, 0int, 0nat,
{
    if let TypeRefView::Inline(index) = type_ref {
        if 0 <= index < graph.nodes.len() {
            lemma_budget_does_not_decide::<L>(
                graph,
                rank,
                index,
                true,
                path,
                (budget - 1) as nat,
                (other - 1) as nat,
            );
        }
    }
}

/// With a budget of at least the rank of a structure, the budget does not
/// decide what its fields resolve to.
proof fn lemma_fields_within_budget<L: Language>(
    graph: SchemaGraphView,
    rank: spec_fn(int) -> nat,
    subject: Seq<char>,
    fields: Seq<FieldDefinitionView>,
    path: Seq<NamespaceSegment>,
    bound: nat,
    budget: nat,
    other: nat,
)
    requires
        is_ranking(graph, rank),
        forall|k: int|
            0 <= k < fields.len() ==> ranked_below(graph, rank, (#[trigger] fields[k]).type_ref, bound),
        budget >= bound,
        other >= bound,
    ensures
        fields_model::<L>(graph, subject, fields, path, budget) == fields_model::<L>(
            graph,
            subject,
            fields,
            path,
            other,
        ),
        path_after_fields::<L>(graph, fields, path, budget) == path_after_fields::<L>(
            graph,
            fields,
            path,
            other,
        ),
    decreases budget, 1int, fields.len(),
{
    if fields.len() > 0 {
        let front = fields.drop_last();
        assert forall|k: int| 0 <= k < front.len() implies ranked_below(
            graph,
            rank,
            (#[trigger] front[k]).type_ref,
            bound,
        ) by {
            assert(front[k] == fields[k]);
        }
        lemma_fields_within_budget::<L>(graph, rank, subject, front, path, bound, budget, other);
        assert(ranked_below(graph, rank, fields[fields.len() - 1].type_ref, bound));
        lemma_reference_within_budget::<L>(
            graph,
            rank,
            subject,
            fields.last().type_ref,
            path_after_fields::<L>(graph, front, path, budget),
            bound,
            budget,
            other,
        );
    }
}

/// In a schema where no type is nested inside itself, the limit on the
/// depth of nesting never decides: with any two budgets of at least the
/// rank of a definition, generation of the definition gives the same.
pub proof fn lemma_budget_does_not_decide<L: Language>(
    graph: SchemaGraphView,
    rank: spec_fn(int) -> nat,
    index: int,
    is_nested: bool,
    path: Seq<NamespaceSegment>,
    budget: nat,
    other: nat,
)
    requires
        is_ranking(graph, rank),
        0 <= index < graph.nodes.len(),
        budget >= rank(index),
        other >= rank(index),
    ensures
        node_model::<L>(graph, index, is_nested, path, budget) == node_model::<L>(
            graph,
            index,
            is_nested,
            path,
            other,
        ),
    decreases budget, 2int, 0nat,
{
    let definition = graph.nodes[index];
    let inside = L::entered(is_nested, definition.name, path);
    match definition.shape {
        TypeShapeView::Elements(element, _) => {
            if let TypeRefView::Inline(nested) = element {
                if 0 <= nested < graph.nodes.len() {
                    assert(nests(graph, index, nested));
                }
            }
            lemma_reference_within_budget::<L>(
                graph,
                rank,
                definition.name,
                element,
                inside,
                rank(index),
                budget,
                other,
            );
        },
        TypeShapeView::Fields(fields) => {
            assert forall|k: int| 0 <= k < fields.len() implies ranked_below(
                graph,
                rank,
                (#[trigger] fields[k]).type_ref,
                rank(index),
            ) by {
                if let TypeRefView::Inline(nested) = fields[k].type_ref {
                    if 0 <= nested < graph.nodes.len() {
                        assert(nests(graph, index, nested));
                    }
                }
            }
            lemma_fields_within_budget::<L>(
                graph,
                rank,
                definition.name,
                fields,
                inside,
                rank(index),
                budget,
                other,
            );
        },
        _ => {},
    }
}

} // verus!
