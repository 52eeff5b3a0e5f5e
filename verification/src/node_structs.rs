//! Generation of the payload types' own constructors of their arms.

use crate::analyzer::{variant_models, NodeVariant, NodeVariantModel, ProtoAnalyzer};
use crate::emit::{emit_arms, with_arms, Arm};
use crate::error::SchemaError;
use vstd::prelude::*;

verus! {

/// The source text of the per-payload constructors: for each variant, in
/// list order, the payload type's `as_ref` and `as_mut`, each building the
/// arm tagged with that variant.
pub open spec fn node_structs_text(variants: Seq<NodeVariantModel>) -> Seq<char> {
    with_arms(Seq::empty(), Arm::Accessors, variants, variants.len() as int)
}

/// Renders the per-payload constructors for a variant list.
pub fn node_structs_source(variants: &Vec<NodeVariant>) -> (source: String)
    ensures
        source@ == node_structs_text(variant_models(variants@)),
{
    let mut source = String::new();
    emit_arms(&mut source, Arm::Accessors, variants);
    source
}

/// Generates the per-payload constructors of the union rooted at `root`.
/// Fails as the variant extraction does, and only then.
pub fn node_structs_mod(analyser: &ProtoAnalyzer, root: &String) -> (r: Result<
    String,
    SchemaError,
>)
    requires
        analyser.well_formed(),
    ensures
        match r {
            Ok(source) => analyser.generation_error(root@) is None && source@
                == node_structs_text(analyser.variants(root@)),
            Err(e) => analyser.generation_error(root@) == Some(e),
        },
{
    match analyser.node_variants(root) {
        Ok(variants) => Ok(node_structs_source(&variants)),
        Err(e) => Err(e),
    }
}

} // verus!
