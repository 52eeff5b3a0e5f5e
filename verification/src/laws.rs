//! What holds of the boxing analysis on every schema.

use crate::analyzer::ProtoAnalyzer;
use crate::schema::SchemaModel;
use vstd::prelude::*;

verus! {

/// The dependencies found in the first `j` fields stay in place when more
/// fields are read.
pub proof fn lemma_dependencies_prefix(schema: SchemaModel, m: int, j: int, k: int)
    requires
        0 <= j <= k,
    ensures
        schema.dependencies_upto(m, j).len() <= schema.dependencies_upto(m, k).len(),
        forall|i: int|
            0 <= i < schema.dependencies_upto(m, j).len() ==> schema.dependencies_upto(m, k)[i]
                == schema.dependencies_upto(m, j)[i],
    decreases k - j,
{
    if j < k {
        lemma_dependencies_prefix(schema, m, j, k - 1);
    }
}

/// Every message-typed field outside a list is an edge of the containment
/// graph, from the message that declares it to the message that it names.
pub proof fn lemma_field_is_edge(analyzer: &ProtoAnalyzer, m: int, j: int)
    requires
        analyzer.well_formed(),
        0 <= m < analyzer.schema@.size(),
        0 <= j < analyzer.schema@.messages[m].fields.len(),
        analyzer.schema@.messages[m].fields[j].holds_by_value(),
    ensures
        analyzer.schema@.position(analyzer.schema@.messages[m].fields[j].target_name()) is Some,
        analyzer.message_graph.has_edge(
            m,
            analyzer.schema@.position(
                analyzer.schema@.messages[m].fields[j].target_name(),
            ).unwrap(),
        ),
{
    let schema = analyzer.schema@;
    let field = schema.messages[m].fields[j];
    assert(schema.message_resolves(m));
    assert(field.is_reference());
    let t = schema.position(field.target_name()).unwrap();
    let idx = schema.dependencies_upto(m, j).len() as int;
    assert(schema.dependencies_upto(m, j + 1) == schema.dependencies_upto(m, j).push(t));
    lemma_dependencies_prefix(schema, m, j + 1, schema.messages[m].fields.len() as int);
    assert(schema.dependencies(m)[idx] == t);
    assert(analyzer.message_graph.targets(m) == schema.dependencies(m));
    assert(analyzer.message_graph.targets(m)[idx] == t);
    assert(analyzer.message_graph.edges@[m]@[idx] == t);
}

/// Every dependency found in the first `j` fields of a message is the
/// target of one of those fields, one outside a list.
pub proof fn lemma_dependency_has_field(schema: SchemaModel, m: int, j: int, k: int)
    requires
        0 <= k < schema.dependencies_upto(m, j).len(),
    ensures
        exists|i: int|
            0 <= i < j && (#[trigger] schema.messages[m].fields[i]).holds_by_value()
                && schema.position(schema.messages[m].fields[i].target_name()) == Some(
                schema.dependencies_upto(m, j)[k],
            ),
    decreases j,
{
    let prev = schema.dependencies_upto(m, j - 1);
    if k < prev.len() {
        lemma_dependency_has_field(schema, m, j - 1, k);
        let i = choose|i: int|
            0 <= i < j - 1 && (#[trigger] schema.messages[m].fields[i]).holds_by_value()
                && schema.position(schema.messages[m].fields[i].target_name()) == Some(prev[k]);
        assert(schema.messages[m].fields[i].holds_by_value());
    } else {
        assert(schema.messages[m].fields[j - 1].holds_by_value());
    }
}

/// Every edge of the containment graph comes from a message-typed field
/// outside a list: list fields and scalars give none.
pub proof fn lemma_edge_is_field(analyzer: &ProtoAnalyzer, m: int, t: int)
    requires
        analyzer.well_formed(),
        analyzer.message_graph.has_edge(m, t),
    ensures
        exists|i: int|
            0 <= i < analyzer.schema@.messages[m].fields.len() && (
            #[trigger] analyzer.schema@.messages[m].fields[i]).holds_by_value()
                && analyzer.schema@.position(analyzer.schema@.messages[m].fields[i].target_name())
                == Some(t),
{
    let schema = analyzer.schema@;
    let k = choose|k: int|
        0 <= k < analyzer.message_graph.edges@[m]@.len()
            && #[trigger] analyzer.message_graph.edges@[m]@[k] == t;
    assert(analyzer.message_graph.targets(m) == schema.dependencies(m));
    assert(analyzer.message_graph.targets(m)[k] == t);
    lemma_dependency_has_field(schema, m, schema.messages[m].fields.len() as int, k);
}

/// In a schema whose containment graph has no cycle, no field of any
/// message is boxed.
pub proof fn lemma_acyclic_schema_boxes_nothing(analyzer: &ProtoAnalyzer, m: int, j: int)
    requires
        analyzer.well_formed(),
        analyzer.message_graph.acyclic(),
        0 <= m < analyzer.schema@.size(),
        analyzer.schema@.position(analyzer.schema@.messages[m].name) == Some(m),
        0 <= j < analyzer.schema@.messages[m].fields.len(),
    ensures
        !analyzer.boxing_decision(
            analyzer.schema@.messages[m].name,
            analyzer.schema@.messages[m].fields[j],
        ),
{
    let field = analyzer.schema@.messages[m].fields[j];
    if field.is_singular_reference() {
        lemma_field_is_edge(analyzer, m, j);
        let t = analyzer.schema@.position(field.target_name()).unwrap();
        analyzer.message_graph.lemma_acyclic_never_nested(m, t);
        if t == m {
            analyzer.message_graph.lemma_reaches_self(m);
        }
        analyzer.schema@.lemma_position_from(field.target_name(), 0);
    }
}

/// In a schema whose containment graph has no cycle, no variant is boxed.
pub proof fn lemma_acyclic_schema_boxes_no_variant(analyzer: &ProtoAnalyzer, root: Seq<char>, k: int)
    requires
        analyzer.well_formed(),
        analyzer.message_graph.acyclic(),
        0 <= k < analyzer.variants(root).len(),
    ensures
        !analyzer.variants(root)[k].boxed,
{
    let r = analyzer.schema@.position(root).unwrap();
    analyzer.schema@.lemma_position_from(root, 0);
    lemma_acyclic_schema_boxes_nothing(analyzer, r, k);
}

/// The variant list follows the root's fields: it has one variant for each
/// field, and the variant at each place is the one of the field at that
/// place, so that no field is skipped, repeated or moved.
pub proof fn lemma_variants_follow_fields(analyzer: &ProtoAnalyzer, root: Seq<char>, r: int)
    requires
        analyzer.schema@.position(root) == Some(r),
    ensures
        analyzer.variants(root).len() == analyzer.schema@.messages[r].fields.len(),
        forall|j: int|
            0 <= j < analyzer.schema@.messages[r].fields.len() ==> (
            #[trigger] analyzer.variants(root)[j]) == analyzer.variant_of(
                root,
                analyzer.schema@.messages[r].fields[j],
            ),
{
}

/// A field through which a message holds itself is always boxed.
pub proof fn lemma_self_recursive_field_is_boxed(analyzer: &ProtoAnalyzer, m: int, j: int)
    requires
        0 <= m < analyzer.schema@.size(),
        0 <= j < analyzer.schema@.messages[m].fields.len(),
        analyzer.schema@.messages[m].fields[j].is_singular_reference(),
        analyzer.schema@.messages[m].fields[j].target_name() == analyzer.schema@.messages[m].name,
    ensures
        analyzer.boxing_decision(
            analyzer.schema@.messages[m].name,
            analyzer.schema@.messages[m].fields[j],
        ),
{
}

/// Generation is a function of the schema's content: two analyzers of
/// schemas of one value give the same variants, in the same order and under
/// the same names.
pub proof fn lemma_variants_are_reproducible(a: &ProtoAnalyzer, b: &ProtoAnalyzer, root: Seq<char>)
    requires
        a.well_formed(),
        b.well_formed(),
        a.schema@ == b.schema@,
    ensures
        a.variants(root) == b.variants(root),
{
    assert forall|m: int, t: int|
        a.message_graph.has_edge(m, t) == b.message_graph.has_edge(m, t) by {
        if 0 <= m < a.schema@.size() {
            assert(a.message_graph.targets(m) == b.message_graph.targets(m));
            let ea = a.message_graph.edges@[m]@;
            let eb = b.message_graph.edges@[m]@;
            assert(ea.len() == a.message_graph.targets(m).len());
            assert(eb.len() == b.message_graph.targets(m).len());
            if a.message_graph.has_edge(m, t) {
                let k = choose|k: int| 0 <= k < ea.len() && #[trigger] ea[k] == t;
                assert(a.message_graph.targets(m)[k] == t);
                assert(b.message_graph.targets(m)[k] == eb[k] as int);
            }
            if b.message_graph.has_edge(m, t) {
                let k = choose|k: int| 0 <= k < eb.len() && #[trigger] eb[k] == t;
                assert(b.message_graph.targets(m)[k] == t);
                assert(a.message_graph.targets(m)[k] == ea[k] as int);
            }
        }
    }
    assert forall|from: Seq<char>, to: Seq<char>|
        a.transitively_contains(from, to) == b.transitively_contains(from, to) by {
        match (a.schema@.position(from), a.schema@.position(to)) {
            (Some(x), Some(y)) => {
                a.message_graph.lemma_same_edges_same_reach(&b.message_graph, x, y);
            },
            _ => {},
        }
    }
    assert(a.variants(root) =~= b.variants(root));
}

} // verus!
