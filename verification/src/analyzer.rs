//! The schema analyzer: builds the containment graph of a schema, decides
//! per field whether its payload is stored behind a heap indirection, and
//! derives the ordered variant list of the tagged union from a root message.

use crate::error::SchemaError;
use crate::graph::{as_ints, MessageGraph};
use crate::names::{identifier, last_segment, pascal_case, type_identifier, unqualified};
use crate::schema::{Field, FieldModel, FieldType, Message, Schema};
use vstd::prelude::*;

verus! {

/// One arm of the tagged union.
#[derive(Debug, Clone, PartialEq, Eq)]
pub struct NodeVariant {
    /// Tag identifier, derived from the root field's name.
    pub name: String,
    /// Payload type identifier, derived from the field's message name.
    pub payload_type: String,
    /// Whether the owned arm stores its payload behind a heap indirection.
    pub boxed: bool,
}

/// Mathematical value of a [`NodeVariant`].
pub struct NodeVariantModel {
    pub name: Seq<char>,
    pub payload_type: Seq<char>,
    pub boxed: bool,
}

impl View for NodeVariant {
    type V = NodeVariantModel;

    open spec fn view(&self) -> NodeVariantModel {
        NodeVariantModel { name: self.name@, payload_type: self.payload_type@, boxed: self.boxed }
    }
}

/// What is known of one field of a message.
#[derive(Debug, Clone, PartialEq, Eq)]
pub struct FieldInfo {
    pub name: String,
    pub payload_type: String,
    pub boxed: bool,
    pub field_number: u32,
    pub is_repeated: bool,
    pub is_optional: bool,
}

/// Mathematical value of a [`FieldInfo`].
pub struct FieldInfoModel {
    pub name: Seq<char>,
    pub payload_type: Seq<char>,
    pub boxed: bool,
    pub field_number: u32,
    pub is_repeated: bool,
    pub is_optional: bool,
}

impl View for FieldInfo {
    type V = FieldInfoModel;

    open spec fn view(&self) -> FieldInfoModel {
        FieldInfoModel {
            name: self.name@,
            payload_type: self.payload_type@,
            boxed: self.boxed,
            field_number: self.field_number,
            is_repeated: self.is_repeated,
            is_optional: self.is_optional,
        }
    }
}

/// The values of a list of variants.
pub open spec fn variant_models(variants: Seq<NodeVariant>) -> Seq<NodeVariantModel> {
    Seq::new(variants.len(), |k: int| variants[k]@)
}

/// The values of a list of field descriptions.
pub open spec fn field_models(fields: Seq<FieldInfo>) -> Seq<FieldInfoModel> {
    Seq::new(fields.len(), |k: int| fields[k]@)
}

/// No payload type is claimed by two variants.
pub open spec fn distinct_payloads(variants: Seq<NodeVariantModel>) -> bool {
    forall|a: int, b: int|
        0 <= a < b < variants.len() ==> variants[a].payload_type != variants[b].payload_type
}

/// Some field of the list holds a message.
pub open spec fn has_reference(fields: Seq<FieldModel>) -> bool {
    exists|i: int| 0 <= i < fields.len() && (#[trigger] fields[i]).is_reference()
}

/// Some field of the list holds no message.
pub open spec fn has_scalar(fields: Seq<FieldModel>) -> bool {
    exists|i: int| 0 <= i < fields.len() && !(#[trigger] fields[i]).is_reference()
}

/// Type name reported for a field that holds no message.
pub open spec fn scalar_type_name() -> Seq<char> {
    "unknown"@
}

/// Whether every payload type belongs to exactly one variant, so that a
/// payload alone determines its tag.
pub fn payloads_distinct(variants: &Vec<NodeVariant>) -> (distinct: bool)
    ensures
        distinct == distinct_payloads(variant_models(variants@)),
{
    let ghost models = variant_models(variants@);
    let mut b: usize = 0;
    while b < variants.len()
        invariant
            b <= variants@.len(),
            models == variant_models(variants@),
            forall|x: int, y: int| 0 <= x < y < b ==> models[x].payload_type != models[y].payload_type,
        decreases variants@.len() - b,
    {
        let mut a: usize = 0;
        while a < b
            invariant
                a <= b < variants@.len(),
                models == variant_models(variants@),
                forall|x: int| 0 <= x < a ==> models[x].payload_type != models[b as int].payload_type,
            decreases b - a,
        {
            if variants[a].payload_type == variants[b].payload_type {
                proof {
                    assert(models[a as int].payload_type == models[b as int].payload_type);
                }
                return false;
            }
            a += 1;
        }
        b += 1;
    }
    true
}

/// A schema together with its containment graph.
pub struct ProtoAnalyzer {
    pub schema: Schema,
    pub message_graph: MessageGraph,
}

impl ProtoAnalyzer {
    /// The graph is the containment graph of the schema, and the schema has
    /// no dangling reference.
    pub open spec fn well_formed(&self) -> bool {
        &&& self.schema@.resolves()
        &&& self.message_graph.well_formed()
        &&& self.message_graph.size() == self.schema@.size()
        &&& forall|m: int|
            0 <= m < self.schema@.size() ==> #[trigger] self.message_graph.targets(m)
                == self.schema@.dependencies(m)
    }

    /// Whether the message named `from` transitively holds the message named
    /// `to` by value. A name reaches itself, whether or not the schema holds it.
    pub open spec fn transitively_contains(&self, from: Seq<char>, to: Seq<char>) -> bool {
        from == to || match (self.schema@.position(from), self.schema@.position(to)) {
            (Some(a), Some(b)) => self.message_graph.reaches(a, b),
            _ => false,
        }
    }

    /// The boxing decision for `field` of the message named `parent`: a
    /// singular message field is indirected exactly when its target
    /// transitively holds the parent.
    pub open spec fn boxing_decision(&self, parent: Seq<char>, field: FieldModel) -> bool {
        field.is_singular_reference() && self.transitively_contains(field.target_name(), parent)
    }

    /// The variant that a message-typed field of the root gives.
    pub open spec fn variant_of(&self, root: Seq<char>, field: FieldModel) -> NodeVariantModel {
        NodeVariantModel {
            name: pascal_case(field.name),
            payload_type: pascal_case(last_segment(field.target_name())),
            boxed: self.boxing_decision(root, field),
        }
    }

    /// The variants of the root message named `root`: one for each of its
    /// fields, in declaration order.
    pub open spec fn variants(&self, root: Seq<char>) -> Seq<NodeVariantModel> {
        match self.schema@.position(root) {
            Some(r) => Seq::new(
                self.schema@.messages[r].fields.len(),
                |j: int| self.variant_of(root, self.schema@.messages[r].fields[j]),
            ),
            None => Seq::empty(),
        }
    }

    /// Why no representation can be generated for the root named `root`, if
    /// anything: the root is missing, it has no message-typed field, one of
    /// its fields holds no message, or two of its fields share a payload
    /// type.
    pub open spec fn generation_error(&self, root: Seq<char>) -> Option<SchemaError> {
        if self.schema@.position(root) is None {
            Some(SchemaError::MissingRoot)
        } else if !has_reference(self.schema@.messages[self.schema@.position(root).unwrap()].fields) {
            Some(SchemaError::NoVariants)
        } else if has_scalar(self.schema@.messages[self.schema@.position(root).unwrap()].fields) {
            Some(SchemaError::ScalarVariant)
        } else if !distinct_payloads(self.variants(root)) {
            Some(SchemaError::DuplicatePayload)
        } else {
            None
        }
    }

    /// The description of one field of the message named `parent`.
    pub open spec fn field_info_of(&self, parent: Seq<char>, field: FieldModel) -> FieldInfoModel {
        FieldInfoModel {
            name: field.name,
            payload_type: if field.is_reference() {
                last_segment(field.target_name())
            } else {
                scalar_type_name()
            },
            boxed: self.boxing_decision(parent, field),
            field_number: field.number,
            is_repeated: field.repeated,
            is_optional: true,
        }
    }

    /// The descriptions of all fields of the message named `name`.
    pub open spec fn field_infos(&self, name: Seq<char>) -> Seq<FieldInfoModel> {
        match self.schema@.position(name) {
            Some(m) => Seq::new(
                self.schema@.messages[m].fields.len(),
                |j: int| self.field_info_of(name, self.schema@.messages[m].fields[j]),
            ),
            None => Seq::empty(),
        }
    }

    /// Collects what message `m` holds by value, resolving each name.
    pub fn add_message_to_graph(schema: &Schema, m: usize) -> (r: Result<Vec<usize>, SchemaError>)
        requires
            m < schema@.size(),
        ensures
            match r {
                Ok(deps) => schema@.message_resolves(m as int) && as_ints(deps@)
                    == schema@.dependencies(m as int) && forall|k: int|
                    0 <= k < deps@.len() ==> deps@[k] < schema@.size(),
                Err(e) => e == SchemaError::DanglingReference && !schema@.message_resolves(
                    m as int,
                ),
            },
    {
        let message = &schema.messages[m];
        let mut deps: Vec<usize> = Vec::new();
        let mut j: usize = 0;
        while j < message.fields.len()
            invariant
                m < schema@.size(),
                message@ == schema@.messages[m as int],
                j <= message.fields@.len(),
                as_ints(deps@) =~= schema@.dependencies_upto(m as int, j as int),
                forall|k: int| 0 <= k < deps@.len() ==> deps@[k] < schema@.size(),
                forall|i: int|
                    0 <= i < j && (#[trigger] message@.fields[i]).is_reference()
                        ==> schema@.position(message@.fields[i].target_name()) is Some,
            decreases message.fields@.len() - j,
        {
            let field = &message.fields[j];
            let ghost before = deps@;
            proof {
                assert(message@.fields[j as int] == field@);
            }
            match &field.target {
                FieldType::Message(name) => {
                    match schema.find(name) {
                        None => {
                            proof {
                                assert(schema@.messages[m as int].fields[j as int].is_reference());
                            }
                            return Err(SchemaError::DanglingReference);
                        },
                        Some(t) => {
                            if !field.repeated {
                                deps.push(t);
                                proof {
                                    assert(as_ints(deps@) =~= as_ints(before).push(t as int));
                                }
                            }
                        },
                    }
                },
                FieldType::Scalar => {},
            }
            j += 1;
        }
        Ok(deps)
    }

    /// Builds the containment graph of `schema`: one node per message, one
    /// edge per message-typed field that is no list.
    pub fn build_message_graph(schema: &Schema) -> (r: Result<MessageGraph, SchemaError>)
        ensures
            match r {
                Ok(g) => schema@.resolves() && g.well_formed() && g.size() == schema@.size()
                    && forall|m: int|
                    0 <= m < schema@.size() ==> #[trigger] g.targets(m) == schema@.dependencies(m),
                Err(e) => e == SchemaError::DanglingReference && !schema@.resolves(),
            },
    {
        let mut edges: Vec<Vec<usize>> = Vec::new();
        let mut i: usize = 0;
        while i < schema.messages.len()
            invariant
                i <= schema@.size(),
                schema@.size() == schema.messages@.len(),
                edges@.len() == i,
                forall|m: int| 0 <= m < i ==> #[trigger] schema@.message_resolves(m),
                forall|m: int| 0 <= m < i ==> as_ints(#[trigger] edges@[m]@) == schema@.dependencies(m),
                forall|m: int, k: int|
                    0 <= m < i && 0 <= k < edges@[m]@.len() ==> (#[trigger] edges@[m]@[k])
                        < schema@.size(),
            decreases schema@.size() - i,
        {
            match Self::add_message_to_graph(schema, i) {
                Err(e) => {
                    return Err(e);
                },
                Ok(deps) => {
                    edges.push(deps);
                },
            }
            i += 1;
        }
        Ok(MessageGraph { edges })
    }

    /// Analyzes a schema. Succeeds exactly when every message-typed field
    /// names a message of the schema.
    pub fn from(schema: Schema) -> (r: Result<ProtoAnalyzer, SchemaError>)
        ensures
            match r {
                Ok(a) => a.well_formed() && a.schema == schema,
                Err(e) => e == SchemaError::DanglingReference && !schema@.resolves(),
            },
    {
        match Self::build_message_graph(&schema) {
            Ok(message_graph) => Ok(ProtoAnalyzer { schema, message_graph }),
            Err(e) => Err(e),
        }
    }

    /// Whether the message named `from` transitively holds the message named
    /// `to`, itself included.
    pub fn is_nested(&self, from: &String, to: &String) -> (nested: bool)
        requires
            self.well_formed(),
        ensures
            nested == self.transitively_contains(from@, to@),
            from@ == to@ ==> nested,
    {
        if *from == *to {
            return true;
        }
        match self.schema.find(from) {
            None => false,
            Some(a) => match self.schema.find(to) {
                None => false,
                Some(b) => self.message_graph.is_nested(a, b),
            },
        }
    }

    /// Whether `field`, declared in the message named `fq_message_name`, is
    /// stored behind a heap indirection.
    pub fn is_boxed(&self, fq_message_name: &String, field: &Field) -> (boxed: bool)
        requires
            self.well_formed(),
        ensures
            boxed == self.boxing_decision(fq_message_name@, field@),
    {
        if field.repeated || field.map {
            return false;
        }
        match &field.target {
            FieldType::Message(field_type_name) => self.is_nested(field_type_name, fq_message_name),
            FieldType::Scalar => false,
        }
    }

    /// The boxing decision for `field` of `parent_message`.
    pub fn is_field_boxed(&self, field: &Field, parent_message: &Message) -> (boxed: bool)
        requires
            self.well_formed(),
        ensures
            boxed == self.boxing_decision(parent_message.name@, field@),
    {
        self.is_boxed(&parent_message.name, field)
    }

    /// The ordered variants of the tagged union whose root message is
    /// `root`: one for each field of the root, in declaration order.
    ///
    /// Fails when the root is missing, when it has no message-typed field,
    /// when one of its fields holds no message, and when two of its fields
    /// share a payload type.
    pub fn node_variants(&self, root: &String) -> (r: Result<Vec<NodeVariant>, SchemaError>)
        requires
            self.well_formed(),
        ensures
            match r {
                Ok(variants) => self.generation_error(root@) is None && variant_models(variants@)
                    == self.variants(root@) && variants@.len() == self.variants(root@).len(),
                Err(e) => self.generation_error(root@) == Some(e),
            },
    {
        let node = match self.schema.find(root) {
            None => {
                return Err(SchemaError::MissingRoot);
            },
            Some(r) => &self.schema.messages[r],
        };
        let no_target = String::new();
        let mut any_message = false;
        let mut any_scalar = false;
        let mut variants: Vec<NodeVariant> = Vec::new();
        let mut j: usize = 0;
        while j < node.fields.len()
            invariant
                self.well_formed(),
                j <= node.fields@.len(),
                node@.fields.len() == node.fields@.len(),
                node.name@ == root@,
                no_target@ == Seq::<char>::empty(),
                variants@.len() == j,
                forall|i: int|
                    0 <= i < j ==> (#[trigger] variants@[i])@ == self.variant_of(
                        root@,
                        node@.fields[i],
                    ),
                any_message == has_reference(node@.fields.subrange(0, j as int)),
                any_scalar == has_scalar(node@.fields.subrange(0, j as int)),
            decreases node.fields@.len() - j,
        {
            let field = &node.fields[j];
            let ghost seen = node@.fields.subrange(0, j as int);
            let ghost next = node@.fields.subrange(0, j + 1);
            proof {
                assert(node@.fields[j as int] == field@);
                assert(next[j as int] == field@);
                assert forall|i: int| 0 <= i < j implies seen[i] == next[i] by {}
                if has_reference(seen) {
                    let i = choose|i: int| 0 <= i < seen.len() && (#[trigger] seen[i]).is_reference();
                    assert(next[i].is_reference());
                }
                if has_scalar(seen) {
                    let i = choose|i: int| 0 <= i < seen.len() && !(#[trigger] seen[i]).is_reference();
                    assert(!next[i].is_reference());
                }
                if has_reference(next) && !field@.is_reference() {
                    let i = choose|i: int| 0 <= i < next.len() && (#[trigger] next[i]).is_reference();
                    assert(seen[i].is_reference());
                }
                if has_scalar(next) && field@.is_reference() {
                    let i = choose|i: int| 0 <= i < next.len() && !(#[trigger] next[i]).is_reference();
                    assert(!seen[i].is_reference());
                }
            }
            let name = identifier(field.name.as_str());
            let payload_type = match &field.target {
                FieldType::Message(target) => {
                    any_message = true;
                    type_identifier(target.as_str())
                },
                FieldType::Scalar => {
                    any_scalar = true;
                    type_identifier(no_target.as_str())
                },
            };
            let boxed = self.is_field_boxed(field, node);
            variants.push(NodeVariant { name, payload_type, boxed });
            j += 1;
        }
        proof {
            assert(node@.fields.subrange(0, j as int) =~= node@.fields);
            assert(variant_models(variants@) =~= self.variants(root@));
        }
        if !any_message {
            return Err(SchemaError::NoVariants);
        }
        if any_scalar {
            return Err(SchemaError::ScalarVariant);
        }
        if !payloads_distinct(&variants) {
            return Err(SchemaError::DuplicatePayload);
        }
        Ok(variants)
    }

    /// The fields of the message named `message_name`, in declaration
    /// order, each with its boxing decision. The schema must hold a message
    /// of that name.
    pub fn message_fields(&self, message_name: &String) -> (fields: Vec<FieldInfo>)
        requires
            self.well_formed(),
            self.schema@.position(message_name@) is Some,
        ensures
            field_models(fields@) == self.field_infos(message_name@),
            fields@.len() == self.field_infos(message_name@).len(),
    {
        let m = self.schema.find(message_name).unwrap();
        let message = &self.schema.messages[m];
        let mut fields: Vec<FieldInfo> = Vec::new();
        let mut j: usize = 0;
        while j < message.fields.len()
            invariant
                self.well_formed(),
                j <= message.fields@.len(),
                message.name@ == message_name@,
                fields@.len() == j,
                forall|i: int|
                    0 <= i < j ==> (#[trigger] fields@[i])@ == self.field_info_of(
                        message_name@,
                        message.fields@[i]@,
                    ),
            decreases message.fields@.len() - j,
        {
            let field = &message.fields[j];
            let boxed = self.is_field_boxed(field, message);
            let payload_type = match &field.target {
                FieldType::Message(target) => unqualified(target.as_str()),
                FieldType::Scalar => "unknown".to_owned(),
            };
            fields.push(
                FieldInfo {
                    name: field.name.clone(),
                    payload_type,
                    boxed,
                    field_number: field.number,
                    is_repeated: field.repeated,
                    is_optional: true,
                },
            );
            j += 1;
        }
        proof {
            assert(field_models(fields@) =~= self.field_infos(message_name@));
        }
        fields
    }
}

} // verus!
