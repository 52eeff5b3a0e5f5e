//! The three parallel representations of one tree node and the conversions
//! among them.
//!
//! A payload is kept in its encoded form. The owned arm stores it inline or
//! behind a heap indirection, as the variant's boxing decision says; the
//! borrowed arm holds a shared reference; the exclusive arm holds an address
//! into the statement list of the tree it was taken from, with the null
//! address 0 as its sentinel.

use crate::analyzer::NodeVariant;
use crate::error::Error;
use vstd::prelude::*;

verus! {

/// The encoded fields of one payload message.
#[derive(Debug, PartialEq, Eq)]
pub struct Payload {
    pub data: Vec<u8>,
}

impl View for Payload {
    type V = Seq<u8>;

    open spec fn view(&self) -> Seq<u8> {
        self.data@
    }
}

impl Payload {
    /// A deep copy of the payload.
    pub fn deep_clone(&self) -> (copy: Payload)
        ensures
            copy@ == self@,
    {
        let mut data: Vec<u8> = Vec::new();
        let mut i: usize = 0;
        while i < self.data.len()
            invariant
                i <= self.data@.len(),
                data@ =~= self.data@.subrange(0, i as int),
            decreases self.data@.len() - i,
        {
            data.push(self.data[i]);
            i += 1;
        }
        proof {
            assert(self.data@.subrange(0, self.data@.len() as int) =~= self.data@);
        }
        Payload { data }
    }

    /// The borrowed arm for this payload, tagged with its variant.
    pub fn as_ref(&self, variant: usize) -> (view: NodeRef<'_>)
        ensures
            view@ == (RefModel { variant, payload: self@ }),
    {
        NodeRef { variant, payload: self }
    }
}

/// How an owned arm stores its payload.
#[derive(Debug, PartialEq, Eq)]
pub enum Slot {
    Inline(Payload),
    Boxed(Box<Payload>),
}

/// The owned tagged union: arm `variant` of the variant list, with its payload.
#[derive(Debug, PartialEq, Eq)]
pub struct NodeEnum {
    pub variant: usize,
    pub slot: Slot,
}

/// Mathematical value of an owned node.
pub struct NodeModel {
    pub variant: usize,
    pub boxed: bool,
    pub payload: Seq<u8>,
}

impl View for NodeEnum {
    type V = NodeModel;

    open spec fn view(&self) -> NodeModel {
        NodeModel {
            variant: self.variant,
            boxed: self.slot is Boxed,
            payload: match self.slot {
                Slot::Inline(p) => p@,
                Slot::Boxed(b) => b@,
            },
        }
    }
}

/// Mathematical value of a borrowed view.
pub struct RefModel {
    pub variant: usize,
    pub payload: Seq<u8>,
}

/// The borrowed view of an owned node: same arm, same payload, no storage.
pub open spec fn borrowed(node: NodeModel) -> RefModel {
    RefModel { variant: node.variant, payload: node.payload }
}

/// The owned node cloned from a borrowed view: same arm, same payload,
/// stored as the arm's boxing decision says.
pub open spec fn owned(view: RefModel, variants: Seq<NodeVariant>) -> NodeModel {
    NodeModel {
        variant: view.variant,
        boxed: variants[view.variant as int].boxed,
        payload: view.payload,
    }
}

impl NodeEnum {
    /// The node is an arm of `variants` and stores its payload as that arm's
    /// boxing decision says.
    pub open spec fn conforms(&self, variants: Seq<NodeVariant>) -> bool {
        self.variant < variants.len() && self@.boxed == variants[self.variant as int].boxed
    }

    /// Builds the arm `variant` around `payload`, boxed as the variant asks.
    pub fn wrap(variants: &Vec<NodeVariant>, variant: usize, payload: Payload) -> (node: NodeEnum)
        requires
            variant < variants@.len(),
        ensures
            node@ == owned(RefModel { variant, payload: payload@ }, variants@),
            node.conforms(variants@),
    {
        if variants[variant].boxed {
            NodeEnum { variant, slot: Slot::Boxed(Box::new(payload)) }
        } else {
            NodeEnum { variant, slot: Slot::Inline(payload) }
        }
    }

    /// The payload, reached through the indirection where there is one.
    pub fn payload(&self) -> (p: &Payload)
        ensures
            p@ == self@.payload,
    {
        match &self.slot {
            Slot::Inline(p) => p,
            Slot::Boxed(b) => &**b,
        }
    }

    /// Shared access to an owned node as a borrowed view.
    pub fn to_ref(&self) -> (view: NodeRef<'_>)
        ensures
            view@ == borrowed(self@),
    {
        NodeRef { variant: self.variant, payload: self.payload() }
    }
}

/// The borrowing view: the arm's tag and a shared reference to its payload.
#[derive(Debug, Clone, Copy)]
pub struct NodeRef<'a> {
    pub variant: usize,
    pub payload: &'a Payload,
}

impl<'a> View for NodeRef<'a> {
    type V = RefModel;

    open spec fn view(&self) -> RefModel {
        RefModel { variant: self.variant, payload: self.payload@ }
    }
}

impl<'a> NodeRef<'a> {
    /// Deep-clones the viewed payload into an owned arm. Never fails.
    pub fn to_enum(&self, variants: &Vec<NodeVariant>) -> (node: NodeEnum)
        requires
            self.variant < variants@.len(),
        ensures
            node@ == owned(self@, variants@),
            node.conforms(variants@),
    {
        NodeEnum::wrap(variants, self.variant, self.payload.deep_clone())
    }
}

/// The index of the variant whose payload type is `payload_type`.
pub open spec fn tag_position(variants: Seq<NodeVariant>, payload_type: Seq<char>, start: int)
    -> Option<int>
    decreases variants.len() - start,
{
    if start < 0 || start >= variants.len() {
        None
    } else if variants[start].payload_type@ == payload_type {
        Some(start)
    } else {
        tag_position(variants, payload_type, start + 1)
    }
}

/// Maps a payload type back to its variant: the first, and in an accepted
/// variant list the only, variant with that payload type.
pub fn tag_of_payload(variants: &Vec<NodeVariant>, payload_type: &String) -> (tag: Option<usize>)
    ensures
        match tag {
            Some(k) => k < variants@.len() && variants@[k as int].payload_type@ == payload_type@
                && tag_position(variants@, payload_type@, 0) == Some(k as int),
            None => tag_position(variants@, payload_type@, 0) is None,
        },
{
    let mut k: usize = 0;
    while k < variants.len()
        invariant
            k <= variants@.len(),
            tag_position(variants@, payload_type@, 0) == tag_position(
                variants@,
                payload_type@,
                k as int,
            ),
        decreases variants@.len() - k,
    {
        if variants[k].payload_type == *payload_type {
            return Some(k);
        }
        k += 1;
    }
    None
}

/// The exclusive accessor: the arm's tag and the address of a statement's
/// node. It is freely copyable; copying it copies no payload. Address 0 is
/// the null sentinel, address `i + 1` names statement `i`.
#[derive(Debug, Clone, Copy, PartialEq, Eq, Structural)]
pub struct NodeMut {
    pub variant: usize,
    pub address: usize,
}

/// A parse tree node: possibly empty wrapper around one owned arm.
#[derive(Debug, PartialEq, Eq)]
pub struct Node {
    pub node: Option<NodeEnum>,
}

/// One top-level statement with its position in the source text.
#[derive(Debug, PartialEq, Eq)]
pub struct RawStmt {
    pub stmt: Option<Node>,
    pub stmt_location: i32,
    pub stmt_len: i32,
}

/// An owned parse tree: the statements of one source text.
#[derive(Debug, PartialEq, Eq)]
pub struct ParseTree {
    pub version: i32,
    pub stmts: Vec<RawStmt>,
}

impl RawStmt {
    /// The owned arm of the statement, where it has one.
    pub open spec fn arm(&self) -> Option<NodeEnum> {
        match self.stmt {
            Some(n) => n.node,
            None => None,
        }
    }

    /// The owned arm of the statement, where it has one.
    pub fn node(&self) -> (r: Option<&NodeEnum>)
        ensures
            match r {
                Some(n) => self.arm() == Some(*n),
                None => self.arm() is None,
            },
    {
        match &self.stmt {
            Some(n) => match &n.node {
                Some(e) => Some(e),
                None => None,
            },
            None => None,
        }
    }
}

impl ParseTree {
    /// The tree is exactly one statement at position 0 that wraps a node of
    /// value `node`.
    pub open spec fn is_sole_statement(&self, node: NodeModel, version: i32) -> bool {
        &&& self.version == version
        &&& self.stmts@.len() == 1
        &&& self.stmts@[0].stmt_location == 0
        &&& self.stmts@[0].stmt_len == 0
        &&& self.stmts@[0].arm() is Some
        &&& self.stmts@[0].arm().unwrap()@ == node
    }

    /// Exclusive access to the node of statement `index`, as an accessor
    /// that points at it. `None` where there is no such statement or it has
    /// no node; the tree itself is left as it was.
    pub fn node_mut(&mut self, index: usize) -> (r: Option<NodeMut>)
        ensures
            *final(self) == *old(self),
            match r {
                Some(a) => index < old(self).stmts@.len()
                    && old(self).stmts@[index as int].arm() is Some
                    && a == NodeMut::at(old(self), index as int)
                    && a.points_into(old(self)) && !a.is_null(),
                None => index >= old(self).stmts@.len()
                    || old(self).stmts@[index as int].arm() is None,
            },
    {
        if index >= self.stmts.len() {
            return None;
        }
        match self.stmts[index].node() {
            Some(n) => Some(NodeMut { variant: n.variant, address: index + 1 }),
            None => None,
        }
    }

    /// Wraps `node` as the only statement of a new tree.
    pub fn sole_statement(node: NodeEnum, version: i32) -> (tree: ParseTree)
        ensures
            tree.is_sole_statement(node@, version),
            tree.stmts@[0].arm() == Some(node),
    {
        let mut stmts: Vec<RawStmt> = Vec::new();
        stmts.push(RawStmt { stmt: Some(Node { node: Some(node) }), stmt_location: 0, stmt_len: 0 });
        ParseTree { version, stmts }
    }
}

impl NodeMut {
    /// The accessor holds the null address.
    pub open spec fn is_null(&self) -> bool {
        self.address == 0
    }

    /// The accessor names a statement of `tree` whose arm carries its tag.
    pub open spec fn points_into(&self, tree: &ParseTree) -> bool {
        &&& 1 <= self.address <= tree.stmts@.len()
        &&& tree.stmts@[self.address - 1].arm() is Some
        &&& tree.stmts@[self.address - 1].arm().unwrap().variant == self.variant
    }

    /// The node that a valid accessor names.
    pub open spec fn target(&self, tree: &ParseTree) -> NodeEnum {
        tree.stmts@[self.address - 1].arm().unwrap()
    }

    /// The owned node that dereferencing a valid accessor gives.
    pub open spec fn dereferenced(&self, tree: &ParseTree, variants: Seq<NodeVariant>) -> NodeModel {
        owned(borrowed(self.target(tree)@), variants)
    }

    /// The accessor to statement `i` of `tree`.
    pub open spec fn at(tree: &ParseTree, i: int) -> NodeMut {
        NodeMut { variant: tree.stmts@[i].arm().unwrap().variant, address: (i + 1) as usize }
    }

    /// The null accessor for arm `variant`.
    pub fn null(variant: usize) -> (accessor: NodeMut)
        ensures
            accessor.variant == variant,
            accessor.is_null(),
    {
        NodeMut { variant, address: 0 }
    }

    /// Deep-clones the node behind the accessor into an owned arm, boxed as
    /// its variant asks. The null accessor fails with
    /// [`Error::InvalidPointer`] and gives no node; every other accessor must
    /// point into `tree`.
    pub fn to_enum(&self, tree: &ParseTree, variants: &Vec<NodeVariant>) -> (r: Result<
        NodeEnum,
        Error,
    >)
        requires
            self.is_null() || (self.points_into(tree) && self.variant < variants@.len()),
        ensures
            self.is_null() ==> r == Err::<NodeEnum, Error>(Error::InvalidPointer),
            !self.is_null() ==> r is Ok && r.unwrap()@ == self.dereferenced(tree, variants@)
                && r.unwrap().conforms(variants@),
    {
        if self.address == 0 {
            return Err(Error::InvalidPointer);
        }
        match tree.stmts[self.address - 1].node() {
            Some(n) => Ok(n.to_ref().to_enum(variants)),
            None => Err(Error::InvalidPointer),
        }
    }

    /// Renders the node behind the accessor: clones it, wraps the clone as
    /// the sole statement of a synthetic tree of the given version, and hands
    /// that tree to `render`, whose answer is returned as it is. The null
    /// accessor fails before `render` is called.
    pub fn deparse<F: Fn(&ParseTree) -> Result<String, Error>>(
        &self,
        tree: &ParseTree,
        variants: &Vec<NodeVariant>,
        version: i32,
        render: F,
    ) -> (r: Result<String, Error>)
        requires
            self.is_null() || (self.points_into(tree) && self.variant < variants@.len()),
            forall|t: &ParseTree| #[trigger] render.requires((t,)),
        ensures
            self.is_null() ==> r == Err::<String, Error>(Error::InvalidPointer),
            !self.is_null() ==> exists|t: &ParseTree|
                t.is_sole_statement(self.dereferenced(tree, variants@), version)
                    && #[trigger] render.ensures((t,), r),
    {
        match self.to_enum(tree, variants) {
            Err(e) => Err(e),
            Ok(node) => {
                let synthetic = ParseTree::sole_statement(node, version);
                let r = render(&synthetic);
                proof {
                    assert(render.ensures((&synthetic,), r));
                }
                r
            },
        }
    }

    /// Starts a traversal at the node behind the accessor.
    pub fn iter_mut(&self) -> (iter: NodeMutIterator)
        ensures
            iter.pending@ == seq![*self],
    {
        NodeMutIterator::new(*self)
    }
}

/// A traversal that hands out exclusive accessors, the starting node first.
#[derive(Debug)]
pub struct NodeMutIterator {
    pub pending: Vec<NodeMut>,
}

impl NodeMutIterator {
    /// A traversal that starts at `start`.
    pub fn new(start: NodeMut) -> (iter: NodeMutIterator)
        ensures
            iter.pending@ == seq![start],
    {
        let mut pending: Vec<NodeMut> = Vec::new();
        pending.push(start);
        NodeMutIterator { pending }
    }

    /// The next accessor of the traversal: the one most recently pending.
    pub fn advance(&mut self) -> (r: Option<NodeMut>)
        ensures
            old(self).pending@.len() == 0 ==> r is None
                && final(self).pending@ == old(self).pending@,
            old(self).pending@.len() > 0 ==> r == Some(old(self).pending@.last())
                && final(self).pending@ == old(self).pending@.drop_last(),
    {
        self.pending.pop()
    }
}

/// Converting an owned node to its borrowed view and back gives a node of
/// the same value: same arm, same storage, same payload.
pub proof fn lemma_borrowed_round_trip(v: NodeEnum, variants: Seq<NodeVariant>)
    requires
        v.conforms(variants),
    ensures
        owned(borrowed(v@), variants) == v@,
{
}

/// Taking the exclusive accessor to a statement's node and converting it
/// back gives a node of the same value; the accessor is not null.
pub proof fn lemma_exclusive_round_trip(tree: &ParseTree, i: int, variants: Seq<NodeVariant>)
    requires
        0 <= i < tree.stmts@.len(),
        tree.stmts@.len() <= usize::MAX,
        tree.stmts@[i].arm() is Some,
        tree.stmts@[i].arm().unwrap().conforms(variants),
    ensures
        !NodeMut::at(tree, i).is_null(),
        NodeMut::at(tree, i).points_into(tree),
        NodeMut::at(tree, i).dereferenced(tree, variants) == tree.stmts@[i].arm().unwrap()@,
{
}

/// A copy of an accessor names the same node as the accessor itself:
/// copying duplicates the address, never the payload.
pub proof fn lemma_copy_aliases(accessor: NodeMut, copy: NodeMut, tree: &ParseTree)
    requires
        copy == accessor,
    ensures
        copy.is_null() == accessor.is_null(),
        copy.points_into(tree) == accessor.points_into(tree),
        copy.target(tree) == accessor.target(tree),
{
}

} // verus!
