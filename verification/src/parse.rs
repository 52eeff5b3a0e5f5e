//! The result of parsing one source text: the owned tree and the warnings
//! that the parser printed, with access to the statements' nodes.

use crate::error::Error;
use crate::text::{has_prefix, lines_of, split_lines, starts_with, texts, trim, trimmed};
use crate::tree::{NodeEnum, NodeMut, ParseTree, RawStmt};
use vstd::prelude::*;

verus! {

/// The result of parsing a SQL query.
#[derive(Debug)]
pub struct ParseResult {
    /// The parsed tree.
    pub protobuf: ParseTree,
    /// Warnings captured during parsing.
    pub warnings: Vec<String>,
}

/// The marker that begins a warning line of the parser's diagnostic output.
pub open spec fn warning_marker() -> Seq<char> {
    "WARNING"@
}

/// The warnings among the first `j` lines: each line that begins with the
/// warning marker, trimmed, in order.
pub open spec fn warnings_upto(lines: Seq<Seq<char>>, j: int) -> Seq<Seq<char>>
    decreases j,
{
    if j <= 0 {
        Seq::empty()
    } else {
        let prev = warnings_upto(lines, j - 1);
        if starts_with(lines[j - 1], warning_marker()) {
            prev.push(trimmed(lines[j - 1]))
        } else {
            prev
        }
    }
}

/// The warnings among `lines`.
pub open spec fn warnings_of(lines: Seq<Seq<char>>) -> Seq<Seq<char>> {
    warnings_upto(lines, lines.len() as int)
}

/// The nodes of the first `j` statements, in order; a statement without a
/// node gives none.
pub open spec fn arms_upto(stmts: Seq<RawStmt>, j: int) -> Seq<NodeEnum>
    decreases j,
{
    if j <= 0 {
        Seq::empty()
    } else {
        let prev = arms_upto(stmts, j - 1);
        match stmts[j - 1].arm() {
            Some(n) => prev.push(n),
            None => prev,
        }
    }
}

/// The accessors to the nodes of the first `j` statements, in order.
pub open spec fn accessors_upto(tree: &ParseTree, j: int) -> Seq<NodeMut>
    decreases j,
{
    if j <= 0 {
        Seq::empty()
    } else {
        let prev = accessors_upto(tree, j - 1);
        if tree.stmts@[j - 1].arm() is Some {
            prev.push(NodeMut::at(tree, j - 1))
        } else {
            prev
        }
    }
}

/// The nodes behind a list of references.
pub open spec fn referents(refs: Seq<&NodeEnum>) -> Seq<NodeEnum> {
    Seq::new(refs.len(), |k: int| *refs[k])
}

/// Picks the warnings out of the lines of the parser's diagnostic output.
pub fn warnings_from_lines(lines: &Vec<String>) -> (warnings: Vec<String>)
    ensures
        texts(warnings@) == warnings_of(texts(lines@)),
        warnings@.len() == warnings_of(texts(lines@)).len(),
{
    let mut warnings: Vec<String> = Vec::new();
    let mut j: usize = 0;
    while j < lines.len()
        invariant
            j <= lines@.len(),
            texts(warnings@) =~= warnings_upto(texts(lines@), j as int),
        decreases lines@.len() - j,
    {
        let line = lines[j].as_str();
        let ghost before = warnings@;
        if has_prefix(line, "WARNING") {
            warnings.push(trim(line));
            proof {
                assert(texts(warnings@) =~= texts(before).push(trimmed(line@)));
            }
        }
        j += 1;
    }
    warnings
}

impl ParseResult {
    /// Pairs a tree with the warnings found in the parser's diagnostic
    /// output: its lines that begin with `WARNING`, trimmed.
    pub fn new(protobuf: ParseTree, stderr: String) -> (result: ParseResult)
        ensures
            result.protobuf == protobuf,
            texts(result.warnings@) == warnings_of(lines_of(stderr@)),
            result.warnings@.len() == warnings_of(lines_of(stderr@)).len(),
    {
        let lines = split_lines(stderr.as_str());
        let warnings = warnings_from_lines(&lines);
        ParseResult { protobuf, warnings }
    }

    /// Renders the tree back to source text with `render`, whose answer is
    /// returned as it is.
    pub fn deparse<F: Fn(&ParseTree) -> Result<String, Error>>(&self, render: F) -> (r: Result<
        String,
        Error,
    >)
        requires
            render.requires((&self.protobuf,)),
        ensures
            render.ensures((&self.protobuf,), r),
    {
        render(&self.protobuf)
    }

    /// The nodes of all statements that have one, in statement order.
    pub fn stmts(&self) -> (nodes: Vec<&NodeEnum>)
        ensures
            referents(nodes@) == arms_upto(self.protobuf.stmts@, self.protobuf.stmts@.len() as int),
            nodes@.len() == arms_upto(
                self.protobuf.stmts@,
                self.protobuf.stmts@.len() as int,
            ).len(),
    {
        let mut nodes: Vec<&NodeEnum> = Vec::new();
        let mut j: usize = 0;
        while j < self.protobuf.stmts.len()
            invariant
                j <= self.protobuf.stmts@.len(),
                referents(nodes@) =~= arms_upto(self.protobuf.stmts@, j as int),
            decreases self.protobuf.stmts@.len() - j,
        {
            let ghost before = nodes@;
            match self.protobuf.stmts[j].node() {
                Some(n) => {
                    nodes.push(n);
                    proof {
                        assert(referents(nodes@) =~= referents(before).push(*n));
                    }
                },
                None => {},
            }
            j += 1;
        }
        nodes
    }

    /// Exclusive accessors to the nodes of all statements that have one, in
    /// statement order. Each points into this result's tree.
    pub fn stmts_mut(&mut self) -> (accessors: Vec<NodeMut>)
        ensures
            *final(self) == *old(self),
            accessors@ == accessors_upto(
                &old(self).protobuf,
                old(self).protobuf.stmts@.len() as int,
            ),
            forall|k: int|
                0 <= k < accessors@.len() ==> (#[trigger] accessors@[k]).points_into(
                    &old(self).protobuf,
                ),
    {
        let mut accessors: Vec<NodeMut> = Vec::new();
        let mut j: usize = 0;
        while j < self.protobuf.stmts.len()
            invariant
                *self == *old(self),
                j <= self.protobuf.stmts@.len(),
                accessors@ =~= accessors_upto(&self.protobuf, j as int),
                forall|k: int|
                    0 <= k < accessors@.len() ==> (#[trigger] accessors@[k]).points_into(
                        &self.protobuf,
                    ),
            decreases self.protobuf.stmts@.len() - j,
        {
            match self.protobuf.node_mut(j) {
                Some(a) => {
                    accessors.push(a);
                },
                None => {},
            }
            j += 1;
        }
        accessors
    }

    /// The root node of the tree: the node of its only statement. `None`
    /// unless there is exactly one statement and it has a node.
    pub fn root(&self) -> (r: Option<&NodeEnum>)
        ensures
            match r {
                Some(n) => self.protobuf.stmts@.len() == 1 && self.protobuf.stmts@[0].arm()
                    == Some(*n),
                None => self.protobuf.stmts@.len() != 1 || self.protobuf.stmts@[0].arm() is None,
            },
    {
        if self.protobuf.stmts.len() != 1 {
            return None;
        }
        self.protobuf.stmts[0].node()
    }

    /// An exclusive accessor to the root node. `None` unless there is
    /// exactly one statement and it has a node.
    pub fn root_mut(&mut self) -> (r: Option<NodeMut>)
        ensures
            *final(self) == *old(self),
            match r {
                Some(a) => old(self).protobuf.stmts@.len() == 1
                    && old(self).protobuf.stmts@[0].arm() is Some
                    && a == NodeMut::at(&old(self).protobuf, 0)
                    && a.points_into(&old(self).protobuf),
                None => old(self).protobuf.stmts@.len() != 1
                    || old(self).protobuf.stmts@[0].arm() is None,
            },
    {
        if self.protobuf.stmts.len() != 1 {
            return None;
        }
        self.protobuf.node_mut(0)
    }
}

} // verus!
