//! Source text of the generated representations, one arm at a time.
//!
//! Every generated item is a fixed frame around one line per variant. The
//! frame and the lines are plain text; each line holds the variant's tag
//! and, where the arm names its payload, the payload type.

use crate::analyzer::{variant_models, NodeVariant, NodeVariantModel};
use crate::text::append;
use vstd::prelude::*;

verus! {

/// The kinds of per-variant lines.
#[derive(Debug, Clone, Copy, PartialEq, Eq, Structural)]
pub enum Arm {
    /// Arm of the borrowing view: a shared reference to the payload.
    RefVariant,
    /// Borrowed to owned: clone the payload, into a box where the arm is boxed.
    RefToOwned,
    /// Owned to borrowed: a reference to the payload.
    OwnedToRef,
    /// Arm of the exclusive view: the payload's address.
    MutVariant,
    /// Exclusive to owned: fail on the null address, else clone as for the
    /// borrowed view.
    MutToOwned,
    /// Owned to exclusive: the payload's address, through the box where the
    /// arm is boxed.
    OwnedToMut,
    /// The payload type's own constructors of its borrowed and exclusive arm.
    Accessors,
}

/// The text before the tag in a line of kind `arm`.
pub open spec fn arm_head(arm: Arm) -> Seq<char> {
    match arm {
        Arm::RefVariant => "    "@,
        Arm::RefToOwned => "            NodeRef::"@,
        Arm::OwnedToRef => "            NodeEnum::"@,
        Arm::MutVariant => "    "@,
        Arm::MutToOwned => "                    NodeMut::"@,
        Arm::OwnedToMut => "            NodeEnum::"@,
        Arm::Accessors => "impl protobuf::"@,
    }
}

/// The text between the line's first and second name.
pub open spec fn arm_middle(arm: Arm) -> Seq<char> {
    match arm {
        Arm::RefVariant => "(&'a protobuf::"@,
        Arm::RefToOwned => "(n) => NodeEnum::"@,
        Arm::OwnedToRef => "(n) => NodeRef::"@,
        Arm::MutVariant => "(*mut protobuf::"@,
        Arm::MutToOwned => "(n) => Ok(NodeEnum::"@,
        Arm::OwnedToMut => "(n) => NodeMut::"@,
        Arm::Accessors => " {\n    pub fn as_ref(&self) -> NodeRef {\n        NodeRef::"@,
    }
}

/// The text behind the line's second name; it depends on the boxing
/// decision where the line converts to or from the owned arm.
pub open spec fn arm_tail(arm: Arm, boxed: bool) -> Seq<char> {
    match arm {
        Arm::RefVariant => "),\n"@,
        Arm::RefToOwned => if boxed {
            "(::prost::alloc::boxed::Box::new((*n).clone())),\n"@
        } else {
            "((*n).clone()),\n"@
        },
        Arm::OwnedToRef => "(&n),\n"@,
        Arm::MutVariant => "),\n"@,
        Arm::MutToOwned => if boxed {
            "(Box::new(n.as_ref().ok_or(err)?.clone()))),\n"@
        } else {
            "(n.as_ref().ok_or(err)?.clone())),\n"@
        },
        Arm::OwnedToMut => if boxed {
            "(&mut **n as *mut _),\n"@
        } else {
            "(n as *mut _),\n"@
        },
        Arm::Accessors => "(self)\n    }\n\n    pub fn as_mut(&mut self) -> NodeMut {\n        NodeMut::"@,
    }
}

/// The first name of a line: the payload type for the payload's own
/// constructors, the tag otherwise.
pub open spec fn arm_first(arm: Arm, v: NodeVariantModel) -> Seq<char> {
    match arm {
        Arm::Accessors => v.payload_type,
        _ => v.name,
    }
}

/// The second name of a line: the payload type where the arm is declared,
/// the tag where it is matched or built.
pub open spec fn arm_second(arm: Arm, v: NodeVariantModel) -> Seq<char> {
    match arm {
        Arm::RefVariant => v.payload_type,
        Arm::MutVariant => v.payload_type,
        _ => v.name,
    }
}

/// What closes a line: empty, but for the payload's own constructors, which
/// name the tag a second time.
pub open spec fn arm_close(arm: Arm, v: NodeVariantModel) -> Seq<char> {
    match arm {
        Arm::Accessors => v.name + "(self)\n    }\n}\n"@,
        _ => Seq::empty(),
    }
}

/// The line of kind `arm` for variant `v`.
pub open spec fn arm_text(arm: Arm, v: NodeVariantModel) -> Seq<char> {
    arm_head(arm) + arm_first(arm, v) + arm_middle(arm) + arm_second(arm, v) + arm_tail(
        arm,
        v.boxed,
    ) + arm_close(arm, v)
}

/// `buf` followed by the lines of kind `arm` for the first `j` variants, in
/// order.
pub open spec fn with_arms(buf: Seq<char>, arm: Arm, variants: Seq<NodeVariantModel>, j: int)
    -> Seq<char>
    decreases j,
{
    if j <= 0 {
        buf
    } else {
        with_arms(buf, arm, variants, j - 1) + arm_text(arm, variants[j - 1])
    }
}

/// The head of a line, as text.
pub fn head_of(arm: Arm) -> (r: &'static str)
    ensures
        r@ == arm_head(arm),
{
    match arm {
        Arm::RefVariant => "    ",
        Arm::RefToOwned => "            NodeRef::",
        Arm::OwnedToRef => "            NodeEnum::",
        Arm::MutVariant => "    ",
        Arm::MutToOwned => "                    NodeMut::",
        Arm::OwnedToMut => "            NodeEnum::",
        Arm::Accessors => "impl protobuf::",
    }
}

/// The middle of a line, as text.
pub fn middle_of(arm: Arm) -> (r: &'static str)
    ensures
        r@ == arm_middle(arm),
{
    match arm {
        Arm::RefVariant => "(&'a protobuf::",
        Arm::RefToOwned => "(n) => NodeEnum::",
        Arm::OwnedToRef => "(n) => NodeRef::",
        Arm::MutVariant => "(*mut protobuf::",
        Arm::MutToOwned => "(n) => Ok(NodeEnum::",
        Arm::OwnedToMut => "(n) => NodeMut::",
        Arm::Accessors => " {\n    pub fn as_ref(&self) -> NodeRef {\n        NodeRef::",
    }
}

/// The tail of a line, as text.
pub fn tail_of(arm: Arm, boxed: bool) -> (r: &'static str)
    ensures
        r@ == arm_tail(arm, boxed),
{
    match arm {
        Arm::RefVariant => "),\n",
        Arm::RefToOwned => if boxed {
            "(::prost::alloc::boxed::Box::new((*n).clone())),\n"
        } else {
            "((*n).clone()),\n"
        },
        Arm::OwnedToRef => "(&n),\n",
        Arm::MutVariant => "),\n",
        Arm::MutToOwned => if boxed {
            "(Box::new(n.as_ref().ok_or(err)?.clone()))),\n"
        } else {
            "(n.as_ref().ok_or(err)?.clone())),\n"
        },
        Arm::OwnedToMut => if boxed {
            "(&mut **n as *mut _),\n"
        } else {
            "(n as *mut _),\n"
        },
        Arm::Accessors => "(self)\n    }\n\n    pub fn as_mut(&mut self) -> NodeMut {\n        NodeMut::",
    }
}

/// Renders the line of kind `arm` for one variant.
pub fn render_arm(arm: Arm, v: &NodeVariant) -> (line: String)
    ensures
        line@ == arm_text(arm, v@),
{
    let mut line = head_of(arm).to_owned();
    let accessors = match arm {
        Arm::Accessors => true,
        _ => false,
    };
    let declares = match arm {
        Arm::RefVariant => true,
        Arm::MutVariant => true,
        _ => false,
    };
    if accessors {
        append(&mut line, v.payload_type.as_str());
    } else {
        append(&mut line, v.name.as_str());
    }
    append(&mut line, middle_of(arm));
    if declares {
        append(&mut line, v.payload_type.as_str());
    } else {
        append(&mut line, v.name.as_str());
    }
    append(&mut line, tail_of(arm, v.boxed));
    if accessors {
        let ghost before = line@;
        append(&mut line, v.name.as_str());
        append(&mut line, "(self)\n    }\n}\n");
        proof {
            assert(line@ =~= before + (v.name@ + "(self)\n    }\n}\n"@));
        }
    } else {
        proof {
            assert(line@ + Seq::<char>::empty() =~= line@);
        }
    }
    line
}

/// Appends the lines of kind `arm` for all variants, in order.
pub fn emit_arms(buf: &mut String, arm: Arm, variants: &Vec<NodeVariant>)
    ensures
        final(buf)@ == with_arms(
            old(buf)@,
            arm,
            variant_models(variants@),
            variants@.len() as int,
        ),
{
    let mut j: usize = 0;
    while j < variants.len()
        invariant
            j <= variants@.len(),
            buf@ == with_arms(old(buf)@, arm, variant_models(variants@), j as int),
        decreases variants@.len() - j,
    {
        let line = render_arm(arm, &variants[j]);
        append(buf, line.as_str());
        j += 1;
    }
}

} // verus!
