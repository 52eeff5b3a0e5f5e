//! Generation of the borrowing view and its conversions.

use crate::analyzer::{variant_models, NodeVariant, NodeVariantModel, ProtoAnalyzer};
use crate::emit::{emit_arms, with_arms, Arm};
use crate::error::SchemaError;
use crate::text::append;
use vstd::prelude::*;

verus! {

/// Opening of the borrowing view: a copyable enumeration over a borrow scope.
pub open spec fn ref_enum_open() -> Seq<char> {
    "#[derive(Debug, Copy, Clone)]\npub enum NodeRef<'a> {\n"@
}

/// Opening of the total conversion from the borrowing view to the owned union.
pub open spec fn ref_to_owned_open() -> Seq<char> {
    "}\n\nimpl<'a> From<NodeRef<'a>> for NodeEnum {\n    fn from(n: NodeRef<'a>) -> NodeEnum {\n        match n {\n"@
}

/// Opening of the total conversion from the owned union to the borrowing view.
pub open spec fn owned_to_ref_open() -> Seq<char> {
    "        }\n    }\n}\n\nimpl<'a> From<&'a NodeEnum> for NodeRef<'a> {\n    fn from(n: &'a NodeEnum) -> NodeRef<'a> {\n        match n {\n"@
}

/// Closing of the last conversion.
pub open spec fn conversion_close() -> Seq<char> {
    "        }\n    }\n}\n"@
}

/// The source text of the borrowing view for a variant list: its
/// enumeration and the two conversions, each with one line per variant in
/// list order.
pub open spec fn node_ref_text(variants: Seq<NodeVariantModel>) -> Seq<char> {
    let n = variants.len() as int;
    let t1 = with_arms(ref_enum_open(), Arm::RefVariant, variants, n);
    let t2 = with_arms(t1 + ref_to_owned_open(), Arm::RefToOwned, variants, n);
    let t3 = with_arms(t2 + owned_to_ref_open(), Arm::OwnedToRef, variants, n);
    t3 + conversion_close()
}

/// Renders the borrowing view for a variant list.
pub fn node_ref_source(variants: &Vec<NodeVariant>) -> (source: String)
    ensures
        source@ == node_ref_text(variant_models(variants@)),
{
    let mut source = "#[derive(Debug, Copy, Clone)]\npub enum NodeRef<'a> {\n".to_owned();
    emit_arms(&mut source, Arm::RefVariant, variants);
    append(
        &mut source,
        "}\n\nimpl<'a> From<NodeRef<'a>> for NodeEnum {\n    fn from(n: NodeRef<'a>) -> NodeEnum {\n        match n {\n",
    );
    emit_arms(&mut source, Arm::RefToOwned, variants);
    append(
        &mut source,
        "        }\n    }\n}\n\nimpl<'a> From<&'a NodeEnum> for NodeRef<'a> {\n    fn from(n: &'a NodeEnum) -> NodeRef<'a> {\n        match n {\n",
    );
    emit_arms(&mut source, Arm::OwnedToRef, variants);
    append(&mut source, "        }\n    }\n}\n");
    source
}

/// Generates the borrowing view of the union rooted at `root`. Fails as
/// the variant extraction does, and only then.
pub fn node_ref_mod(analyser: &ProtoAnalyzer, root: &String) -> (r: Result<String, SchemaError>)
    requires
        analyser.well_formed(),
    ensures
        match r {
            Ok(source) => analyser.generation_error(root@) is None && source@ == node_ref_text(
                analyser.variants(root@),
            ),
            Err(e) => analyser.generation_error(root@) == Some(e),
        },
{
    match analyser.node_variants(root) {
        Ok(variants) => Ok(node_ref_source(&variants)),
        Err(e) => Err(e),
    }
}

} // verus!
