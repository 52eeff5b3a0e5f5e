//! Generation of the exclusive view and its conversions.

use crate::analyzer::{variant_models, NodeVariant, NodeVariantModel, ProtoAnalyzer};
use crate::emit::{emit_arms, with_arms, Arm};
use crate::error::SchemaError;
use crate::text::append;
use vstd::prelude::*;

verus! {

/// Opening of the exclusive view: a copyable enumeration of addresses.
pub open spec fn mut_enum_open() -> Seq<char> {
    "#[derive(Debug, Copy, Clone)]\npub enum NodeMut {\n"@
}

/// Opening of the fallible conversion from the exclusive view to the owned
/// union, which alone checks for the null address.
pub open spec fn mut_to_owned_open() -> Seq<char> {
    "}\n\nimpl TryFrom<NodeMut> for NodeEnum {\n    type Error = Error;\n\n    fn try_from(value: NodeMut) -> Result<Self> {\n        unsafe {\n            let err = Error::InvalidPointer;\n            match value {\n"@
}

/// Opening of the total conversion from the owned union to the exclusive view.
pub open spec fn owned_to_mut_open() -> Seq<char> {
    "                _ => Err(Error::InvalidPointer),\n            }\n        }\n    }\n}\n\nimpl From<&mut NodeEnum> for NodeMut {\n    fn from(n: &mut NodeEnum) -> NodeMut {\n        match n {\n"@
}

/// Closing of the last conversion.
pub open spec fn mut_close() -> Seq<char> {
    "        }\n    }\n}\n"@
}

/// The source text of the exclusive view for a variant list: its
/// enumeration and the two conversions, each with one line per variant in
/// list order.
pub open spec fn node_mut_text(variants: Seq<NodeVariantModel>) -> Seq<char> {
    let n = variants.len() as int;
    let t1 = with_arms(mut_enum_open(), Arm::MutVariant, variants, n);
    let t2 = with_arms(t1 + mut_to_owned_open(), Arm::MutToOwned, variants, n);
    let t3 = with_arms(t2 + owned_to_mut_open(), Arm::OwnedToMut, variants, n);
    t3 + mut_close()
}

/// Renders the exclusive view for a variant list.
pub fn node_mut_source(variants: &Vec<NodeVariant>) -> (source: String)
    ensures
        source@ == node_mut_text(variant_models(variants@)),
{
    let mut source = "#[derive(Debug, Copy, Clone)]\npub enum NodeMut {\n".to_owned();
    emit_arms(&mut source, Arm::MutVariant, variants);
    append(
        &mut source,
        "}\n\nimpl TryFrom<NodeMut> for NodeEnum {\n    type Error = Error;\n\n    fn try_from(value: NodeMut) -> Result<Self> {\n        unsafe {\n            let err = Error::InvalidPointer;\n            match value {\n",
    );
    emit_arms(&mut source, Arm::MutToOwned, variants);
    append(
        &mut source,
        "                _ => Err(Error::InvalidPointer),\n            }\n        }\n    }\n}\n\nimpl From<&mut NodeEnum> for NodeMut {\n    fn from(n: &mut NodeEnum) -> NodeMut {\n        match n {\n",
    );
    emit_arms(&mut source, Arm::OwnedToMut, variants);
    append(&mut source, "        }\n    }\n}\n");
    source
}

/// Generates the exclusive view of the union rooted at `root`. Fails as
/// the variant extraction does, and only then.
pub fn node_mut_mod(analyser: &ProtoAnalyzer, root: &String) -> (r: Result<String, SchemaError>)
    requires
        analyser.well_formed(),
    ensures
        match r {
            Ok(source) => analyser.generation_error(root@) is None && source@ == node_mut_text(
                analyser.variants(root@),
            ),
            Err(e) => analyser.generation_error(root@) == Some(e),
        },
{
    match analyser.node_variants(root) {
        Ok(variants) => Ok(node_mut_source(&variants)),
        Err(e) => Err(e),
    }
}

} // verus!
