//! The rule-tagged parse tree: rule identifiers and span-carrying nodes.

use vstd::prelude::*;

verus! {

/// A named grammar production. Terminal rules carry matched text; composite
/// rules carry children. `Eoi` and `Backslash` only ever appear in diagnostic
/// expected / rejected sets, never as tree nodes.
#[derive(Clone, Copy, PartialEq, Eq, Structural, Debug)]
pub enum Rule {
    Root,
    Namespace,
    Import,
    Path,
    Backslash,
    Type,
    QualifiedName,
    ClassField,
    Modifier,
    Ident,
    DottedIdent,
    Enum,
    EnumMember,
    Integer,
    Class,
    Interface,
    Method,
    Eoi,
}

/// A node of the parse tree: the rule that matched, the matched span
/// (character offsets into the input), and the ordered child matches.
#[derive(Debug)]
pub struct Node {
    pub rule: Rule,
    pub start: usize,
    pub end: usize,
    pub children: Vec<Node>,
}

/// Mathematical model of a parse tree node.
#[verifier::ext_equal]
pub ghost struct NodeV {
    pub rule: Rule,
    pub start: int,
    pub end: int,
    pub children: Seq<NodeV>,
}

impl Node {
    pub open spec fn view(&self) -> NodeV
        decreases *self,
    {
        NodeV {
            rule: self.rule,
            start: self.start as int,
            end: self.end as int,
            children: Seq::new(
                self.children@.len(),
                |i: int|
                    if 0 <= i < self.children@.len() {
                        self.children@[i].view()
                    } else {
                        NodeV { rule: Rule::Root, start: 0, end: 0, children: Seq::empty() }
                    },
            ),
        }
    }
}

/// The rules whose nodes are leaves: they carry matched text, no children.
pub open spec fn is_leaf_rule(r: Rule) -> bool {
    r == Rule::Ident || r == Rule::DottedIdent || r == Rule::Path || r == Rule::Integer
        || r == Rule::Modifier || r == Rule::QualifiedName
}

} // verus!
