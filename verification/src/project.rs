//! The Tree Projector: turns a parse tree into a generic JSON-like structured
//! value (objects, arrays, strings, numbers, booleans). Total and
//! deterministic over any tree.

use vstd::prelude::*;
use vstd::string::StringExecFns;
use crate::tree::{Rule, Node, NodeV, is_leaf_rule};
use crate::diag::{sp_rule_name, rule_name};
use crate::text::{subvec, chars_to_string};

verus! {

/// A generic JSON-compatible value: the externally consumed artifact of a
/// successful parse. Objects keep their fields in insertion order.
#[derive(Debug, PartialEq)]
pub enum Value {
    Object(Vec<(String, Value)>),
    Array(Vec<Value>),
    Str(String),
    Num(u64),
    Bool(bool),
}

/// Mathematical model of a [`Value`].
#[verifier::ext_equal]
pub ghost enum ValueV {
    Object(Seq<(Seq<char>, ValueV)>),
    Array(Seq<ValueV>),
    Str(Seq<char>),
    Num(u64),
    Bool(bool),
}

impl Value {
    pub open spec fn view(&self) -> ValueV
        decreases *self,
    {
        match self {
            Value::Object(pairs) => ValueV::Object(
                Seq::new(
                    pairs@.len(),
                    |i: int|
                        if 0 <= i < pairs@.len() {
                            (pairs@[i].0@, pairs@[i].1.view())
                        } else {
                            (Seq::empty(), ValueV::Bool(false))
                        },
                ),
            ),
            Value::Array(items) => ValueV::Array(
                Seq::new(
                    items@.len(),
                    |i: int|
                        if 0 <= i < items@.len() {
                            items@[i].view()
                        } else {
                            ValueV::Bool(false)
                        },
                ),
            ),
            Value::Str(s) => ValueV::Str(s@),
            Value::Num(n) => ValueV::Num(*n),
            Value::Bool(b) => ValueV::Bool(*b),
        }
    }
}

/// The matched text of a span, empty when the span does not lie in the input.
pub open spec fn sp_text(inp: Seq<char>, start: int, end: int) -> Seq<char> {
    if 0 <= start <= end <= inp.len() {
        inp.subrange(start, end)
    } else {
        Seq::empty()
    }
}

/// A span offset as a number.
pub open spec fn sp_num(i: int) -> u64 {
    if 0 <= i <= u64::MAX {
        i as u64
    } else {
        0
    }
}

/// The children of a node, projected in order.
pub open spec fn sp_project_children(inp: Seq<char>, n: NodeV) -> Seq<ValueV>
    decreases n, 0int,
{
    Seq::new(
        n.children.len(),
        |i: int|
            if 0 <= i < n.children.len() {
                sp_project(inp, n.children[i])
            } else {
                ValueV::Bool(false)
            },
    )
}

/// The projection of one parse tree node: an object naming the rule and the
/// matched span, with the matched text for a terminal and the projected
/// children for a composite rule.
pub open spec fn sp_head(n: NodeV) -> Seq<(Seq<char>, ValueV)> {
    seq![
        ("rule"@, ValueV::Str(sp_rule_name(n.rule))),
        (
            "span"@,
            ValueV::Array(seq![ValueV::Num(sp_num(n.start)), ValueV::Num(sp_num(n.end))]),
        ),
    ]
}

pub open spec fn sp_project(inp: Seq<char>, n: NodeV) -> ValueV
    decreases n, 1int,
{
    if is_leaf_rule(n.rule) {
        ValueV::Object(sp_head(n) + seq![("text"@, ValueV::Str(sp_text(inp, n.start, n.end)))])
    } else {
        ValueV::Object(
            sp_head(n) + seq![("children"@, ValueV::Array(sp_project_children(inp, n)))],
        )
    }
}

fn leaf_rule(r: Rule) -> (b: bool)
    ensures
        b == is_leaf_rule(r),
{
    r == Rule::Ident || r == Rule::DottedIdent || r == Rule::Path || r == Rule::Integer
        || r == Rule::Modifier || r == Rule::QualifiedName
}

/// Project a parse tree into its structured value.
pub fn project(inp: &Vec<char>, n: &Node) -> (v: Value)
    ensures
        v@ == sp_project(inp@, n@),
    decreases n@, 1int,
{
    let mut pairs: Vec<(String, Value)> = Vec::new();
    let name = rule_name(n.rule);
    pairs.push((String::from_str("rule"), Value::Str(String::from_str(name))));
    let mut span_items: Vec<Value> = Vec::new();
    span_items.push(Value::Num(n.start as u64));
    span_items.push(Value::Num(n.end as u64));
    let ghost siv = span_items@;
    pairs.push((String::from_str("span"), Value::Array(span_items)));
    proof {
        assert(siv.len() == 2);
        assert(siv[0]@ == ValueV::Num(sp_num(n@.start)));
        assert(siv[1]@ == ValueV::Num(sp_num(n@.end)));
        assert(pairs@[1].1@ is Array);
        assert(pairs@[1].1@->Array_0 =~= seq![
            ValueV::Num(sp_num(n@.start)),
            ValueV::Num(sp_num(n@.end)),
        ]);
        assert(pairs@[1].1@ == ValueV::Array(pairs@[1].1@->Array_0));
        assert(pairs@[1].1@ == ValueV::Array(
            seq![ValueV::Num(sp_num(n@.start)), ValueV::Num(sp_num(n@.end))],
        ));
        assert(pairs@[0].1@ == ValueV::Str(sp_rule_name(n@.rule)));
        assert(pairs@[0].0@ == "rule"@);
        assert(pairs@[1].0@ == "span"@);
        assert((pairs@[0].0@, pairs@[0].1@) == sp_head(n@)[0]);
        assert((pairs@[1].0@, pairs@[1].1@) == sp_head(n@)[1]);
    }
    if leaf_rule(n.rule) {
        let text = if n.start <= n.end && n.end <= inp.len() {
            chars_to_string(&subvec(inp, n.start, n.end))
        } else {
            String::new()
        };
        pairs.push((String::from_str("text"), Value::Str(text)));
        let ghost pv = pairs@;
        let v = Value::Object(pairs);
        proof {
            assert(pv.len() == 3);
            assert(pv[2].0@ == "text"@);
            assert(pv[2].1@ == ValueV::Str(sp_text(inp@, n@.start, n@.end)));
            assert(v@ is Object);
            assert(v@->Object_0 =~= sp_head(n@) + seq![
                ("text"@, ValueV::Str(sp_text(inp@, n@.start, n@.end))),
            ]);
            assert(v@ == ValueV::Object(v@->Object_0));
            assert(v@ == sp_project(inp@, n@));
        }
        v
    } else {
        let mut items: Vec<Value> = Vec::new();
        let mut i: usize = 0;
        while i < n.children.len()
            invariant
                0 <= i <= n.children@.len(),
                n.children@.len() == n@.children.len(),
                forall|j: int| 0 <= j < i ==> n@.children[j] == n.children@[j]@,
                items@.len() == i,
                forall|j: int|
                    0 <= j < i ==> items@[j]@ == sp_project(inp@, n@.children[j]),
            decreases n.children@.len() - i,
        {
            proof {
                assert(n.children@[i as int]@ == n@.children[i as int]);
                assert(decreases_to!(n@ => n@.children));
                assert(decreases_to!(n@.children => n@.children[i as int]));
            }
            let c = project(inp, &n.children[i]);
            items.push(c);
            i += 1;
        }
        pairs.push((String::from_str("children"), Value::Array(items)));
        let ghost pv = pairs@;
        let v = Value::Object(pairs);
        proof {
            assert(pv.len() == 3);
            assert(pv[2].0@ == "children"@);
            assert(pv[2].1@ is Array);
            assert(pv[2].1@->Array_0 =~= sp_project_children(inp@, n@));
            assert(pv[2].1@ == ValueV::Array(pv[2].1@->Array_0));
            assert(pv[2].1@ == ValueV::Array(sp_project_children(inp@, n@)));
            assert(v@ is Object);
            assert(v@->Object_0 =~= sp_head(n@) + seq![
                ("children"@, ValueV::Array(sp_project_children(inp@, n@))),
            ]);
            assert(v@ == ValueV::Object(v@->Object_0));
            assert(v@ == sp_project(inp@, n@));
        }
        v
    }
}

} // verus!
