//! The grammar of the schema language, as a mathematical function from input
//! text to parse trees and failures.
//!
//! Each `sp_*` function is the meaning of one grammar rule under ordered-choice
//! (PEG) semantics: at a given position it either matches a prefix and yields a
//! tree node plus the position after the match, or fails with the furthest
//! failure seen during the attempt, carrying the rules expected there and the
//! rules that explicitly rejected. Positions count characters.

use vstd::prelude::*;
use crate::tree::{Rule, NodeV};

verus! {

/// How many levels of generic-type nesting a parse will follow before it
/// reports a bounded "nesting too deep" failure instead of recursing further.
pub const NESTING_LIMIT: usize = 64;

/// A parse failure: position, the rules that were expected there, the rules
/// that explicitly rejected there, and whether the nesting limit was hit.
pub ghost struct FailV {
    pub pos: int,
    pub expected: Seq<Rule>,
    pub negatives: Seq<Rule>,
    pub deep: bool,
}

/// A successful match: the node built and the position after the match.
pub ghost struct OkV {
    pub node: NodeV,
    pub end: int,
}

/// The outcome of a repetition: the nodes matched, the position after the last
/// match, and the failure that stopped the repetition.
pub ghost struct StarV {
    pub nodes: Seq<NodeV>,
    pub end: int,
    pub fail: FailV,
}

/// A failure expecting exactly one rule.
pub open spec fn fail1(pos: int, r: Rule) -> FailV {
    FailV { pos, expected: seq![r], negatives: Seq::empty(), deep: false }
}

/// Of two failures, keep the one further into the input; at equal positions,
/// combine the expected and rejected sets.
pub open spec fn merge(a: FailV, b: FailV) -> FailV {
    if b.pos > a.pos {
        b
    } else if b.pos < a.pos {
        a
    } else {
        FailV {
            pos: a.pos,
            expected: a.expected + b.expected,
            negatives: a.negatives + b.negatives,
            deep: a.deep || b.deep,
        }
    }
}

/// A leaf node: a terminal match with no children.
pub open spec fn leaf(rule: Rule, start: int, end: int) -> NodeV {
    NodeV { rule, start, end, children: Seq::empty() }
}

// ---------------------------------------------------------------------------
// Character classes
// ---------------------------------------------------------------------------

/// Whitespace of the schema language.
pub open spec fn is_ws(c: char) -> bool {
    c == ' ' || c == '\t' || c == '\r' || c == '\n'
}

/// Decimal digit.
pub open spec fn is_digit(c: char) -> bool {
    '0' <= c && c <= '9'
}

/// A character that may start an identifier.
pub open spec fn is_ident_start(c: char) -> bool {
    ('a' <= c && c <= 'z') || ('A' <= c && c <= 'Z') || c == '_'
}

/// A character that may continue an identifier.
pub open spec fn is_ident_cont(c: char) -> bool {
    is_ident_start(c) || is_digit(c)
}

// ---------------------------------------------------------------------------
// Whitespace and comments
// ---------------------------------------------------------------------------

/// The position just past the end of the line comment starting before `pos`:
/// just past the next newline, or the end of input.
pub open spec fn sp_line_end(inp: Seq<char>, pos: int) -> int
    decreases inp.len() - pos,
{
    if 0 <= pos && pos < inp.len() {
        if inp[pos] == '\n' {
            pos + 1
        } else {
            sp_line_end(inp, pos + 1)
        }
    } else {
        inp.len() as int
    }
}

/// The position just past the closing `*/` at or after `pos`, if any.
pub open spec fn sp_block_close(inp: Seq<char>, pos: int) -> Option<int>
    decreases inp.len() - pos,
{
    if 0 <= pos && pos + 2 <= inp.len() {
        if inp[pos] == '*' && inp[pos + 1] == '/' {
            Some(pos + 2)
        } else {
            sp_block_close(inp, pos + 1)
        }
    } else {
        None
    }
}

/// Skip whitespace, `//` line comments and terminated `/* */` block comments.
/// An unterminated block comment is not skipped: parsing then fails at it.
pub open spec fn sp_skip(inp: Seq<char>, pos: int) -> int
    decreases inp.len() - pos,
{
    if 0 <= pos && pos < inp.len() && is_ws(inp[pos]) {
        sp_skip(inp, pos + 1)
    } else if 0 <= pos && pos + 2 <= inp.len() && inp[pos] == '/' && inp[pos + 1] == '/' {
        let e = sp_line_end(inp, pos + 2);
        if pos < e <= inp.len() {
            sp_skip(inp, e)
        } else {
            pos
        }
    } else if 0 <= pos && pos + 2 <= inp.len() && inp[pos] == '/' && inp[pos + 1] == '*' {
        match sp_block_close(inp, pos + 2) {
            Some(e) => if pos < e <= inp.len() {
                sp_skip(inp, e)
            } else {
                pos
            },
            None => pos,
        }
    } else {
        pos
    }
}

/// The literal word `kw` stands at `pos`.
pub open spec fn sp_lit(inp: Seq<char>, pos: int, kw: Seq<char>) -> bool {
    0 <= pos && pos + kw.len() <= inp.len() && inp.subrange(pos, pos + kw.len()) == kw
}

// ---------------------------------------------------------------------------
// Terminals
// ---------------------------------------------------------------------------

/// The end of the identifier-continuation run starting at `pos`.
pub open spec fn sp_ident_end(inp: Seq<char>, pos: int) -> int
    decreases inp.len() - pos,
{
    if 0 <= pos && pos < inp.len() && is_ident_cont(inp[pos]) {
        sp_ident_end(inp, pos + 1)
    } else {
        pos
    }
}

/// `ident`: a letter or underscore followed by letters, digits and underscores.
pub open spec fn sp_ident(inp: Seq<char>, pos: int) -> Result<OkV, FailV> {
    if 0 <= pos && pos < inp.len() && is_ident_start(inp[pos]) {
        let e = sp_ident_end(inp, pos + 1);
        Ok(OkV { node: leaf(Rule::Ident, pos, e), end: e })
    } else {
        Err(fail1(pos, Rule::Ident))
    }
}

/// The further `.` `ident` segments of a dotted identifier, with no
/// whitespace inside; a dot not followed by an identifier is left unconsumed.
pub open spec fn sp_dotted_more(inp: Seq<char>, pos: int) -> int
    decreases inp.len() - pos,
{
    if 0 <= pos && pos + 2 <= inp.len() && inp[pos] == '.' && is_ident_start(inp[pos + 1]) {
        let e = sp_ident_end(inp, pos + 2);
        if pos < e <= inp.len() {
            sp_dotted_more(inp, e)
        } else {
            pos
        }
    } else {
        pos
    }
}

/// `dotted_ident`: `ident` (`.` `ident`)*, atomic.
pub open spec fn sp_dotted(inp: Seq<char>, pos: int) -> Result<OkV, FailV> {
    match sp_ident(inp, pos) {
        Ok(ok) => {
            let e = sp_dotted_more(inp, ok.end);
            Ok(OkV { node: leaf(Rule::DottedIdent, pos, e), end: e })
        },
        Err(f) => Err(FailV { expected: seq![Rule::DottedIdent], ..f }),
    }
}

/// The end of the digit run starting at `pos`.
pub open spec fn sp_digits_end(inp: Seq<char>, pos: int) -> int
    decreases inp.len() - pos,
{
    if 0 <= pos && pos < inp.len() && is_digit(inp[pos]) {
        sp_digits_end(inp, pos + 1)
    } else {
        pos
    }
}

/// `integer`: one or more decimal digits.
pub open spec fn sp_integer(inp: Seq<char>, pos: int) -> Result<OkV, FailV> {
    if 0 <= pos && pos < inp.len() && is_digit(inp[pos]) {
        let e = sp_digits_end(inp, pos + 1);
        Ok(OkV { node: leaf(Rule::Integer, pos, e), end: e })
    } else {
        Err(fail1(pos, Rule::Integer))
    }
}

/// The end of the import-path run: any character but the closing quote and
/// the rejected backslash.
pub open spec fn sp_path_end(inp: Seq<char>, pos: int) -> int
    decreases inp.len() - pos,
{
    if 0 <= pos && pos < inp.len() && inp[pos] != '"' && inp[pos] != '\\' {
        sp_path_end(inp, pos + 1)
    } else {
        pos
    }
}

/// An optional leading `required` / `optional` field modifier.
pub open spec fn sp_modifier(inp: Seq<char>, pos: int) -> Option<OkV> {
    if sp_lit(inp, pos, "required"@) {
        Some(OkV { node: leaf(Rule::Modifier, pos, pos + "required"@.len()), end: pos + "required"@.len() })
    } else if sp_lit(inp, pos, "optional"@) {
        Some(OkV { node: leaf(Rule::Modifier, pos, pos + "optional"@.len()), end: pos + "optional"@.len() })
    } else {
        None
    }
}

// ---------------------------------------------------------------------------
// Types
// ---------------------------------------------------------------------------

/// `type`: a possibly `Namespace.Name`-qualified identifier, optionally
/// followed by `<` comma-separated `type` arguments `>`, nested at most
/// `depth` levels further.
pub open spec fn sp_type(inp: Seq<char>, pos: int, depth: nat) -> Result<OkV, FailV>
    decreases depth, inp.len() - pos, 1int,
{
    if !(0 <= pos && pos < inp.len() && is_ident_start(inp[pos])) {
        Err(fail1(pos, Rule::Type))
    } else {
        let e1 = sp_ident_end(inp, pos + 1);
        let q = if 0 <= e1 && e1 + 2 <= inp.len() && inp[e1] == '.' && is_ident_start(inp[e1 + 1]) {
            sp_ident_end(inp, e1 + 2)
        } else {
            e1
        };
        let name = leaf(Rule::QualifiedName, pos, q);
        let g = sp_skip(inp, q);
        if 0 <= g && g < inp.len() && inp[g] == '<' {
            if depth == 0 {
                Err(FailV { pos: g, expected: Seq::empty(), negatives: Seq::empty(), deep: true })
            } else {
                let a0 = sp_skip(inp, g + 1);
                if pos < a0 <= inp.len() {
                    match sp_type(inp, a0, (depth - 1) as nat) {
                        Err(f) => Err(f),
                        Ok(first) => if pos < first.end <= inp.len() {
                            match sp_type_args(inp, first.end, (depth - 1) as nat) {
                                Err(f) => Err(f),
                                Ok((rest, close)) => Ok(OkV {
                                    node: NodeV {
                                        rule: Rule::Type,
                                        start: pos,
                                        end: close,
                                        children: seq![name, first.node] + rest,
                                    },
                                    end: close,
                                }),
                            }
                        } else {
                            Err(fail1(first.end, Rule::Type))
                        },
                    }
                } else {
                    Err(fail1(g, Rule::Type))
                }
            }
        } else {
            Ok(OkV {
                node: NodeV { rule: Rule::Type, start: pos, end: q, children: seq![name] },
                end: q,
            })
        }
    }
}

/// The remaining `,` `type` arguments and the closing `>` of a generic
/// instantiation; yields the argument nodes and the position past the `>`.
pub open spec fn sp_type_args(inp: Seq<char>, pos: int, depth: nat) -> Result<(Seq<NodeV>, int), FailV>
    decreases depth, inp.len() - pos, 2int,
{
    let p = sp_skip(inp, pos);
    if 0 <= p && p < inp.len() && inp[p] == '>' {
        Ok((Seq::empty(), p + 1))
    } else if 0 <= p && p < inp.len() && inp[p] == ',' && pos < p + 1 <= inp.len() {
        let a = sp_skip(inp, p + 1);
        if pos < a <= inp.len() {
            match sp_type(inp, a, depth) {
                Err(f) => Err(f),
                Ok(arg) => if pos < arg.end <= inp.len() {
                    match sp_type_args(inp, arg.end, depth) {
                        Err(f) => Err(f),
                        Ok((rest, close)) => Ok((seq![arg.node] + rest, close)),
                    }
                } else {
                    Err(fail1(arg.end, Rule::Type))
                },
            }
        } else {
            Err(fail1(p, Rule::Type))
        }
    } else {
        Err(fail1(p, Rule::Type))
    }
}

// ---------------------------------------------------------------------------
// Fields
// ---------------------------------------------------------------------------

/// `class_field`: an optional `required` / `optional` modifier, a `type` and a
/// field-name identifier. A missing modifier is preserved as the absence of a
/// `Modifier` child, not resolved to a default.
pub open spec fn sp_class_field(inp: Seq<char>, pos: int, depth: nat) -> Result<OkV, FailV> {
    let (mods, p1) = match sp_modifier(inp, pos) {
        Some(m) => (seq![m.node], sp_skip(inp, m.end)),
        None => (Seq::<NodeV>::empty(), pos),
    };
    match sp_type(inp, p1, depth) {
        Err(f) => Err(f),
        Ok(t) => {
            let p2 = sp_skip(inp, t.end);
            match sp_ident(inp, p2) {
                Err(f) => Err(f),
                Ok(n) => Ok(OkV {
                    node: NodeV {
                        rule: Rule::ClassField,
                        start: pos,
                        end: n.end,
                        children: mods + seq![t.node, n.node],
                    },
                    end: n.end,
                }),
            }
        },
    }
}

// ---------------------------------------------------------------------------
// Top-level declarations
// ---------------------------------------------------------------------------

/// `namespace <scope> <dotted name>`.
pub open spec fn sp_namespace(inp: Seq<char>, pos: int) -> Result<OkV, FailV> {
    if !sp_lit(inp, pos, "namespace"@) {
        Err(fail1(pos, Rule::Namespace))
    } else {
        let p1 = sp_skip(inp, pos + "namespace"@.len());
        match sp_ident(inp, p1) {
            Err(f) => Err(f),
            Ok(scope) => {
                let p2 = sp_skip(inp, scope.end);
                match sp_dotted(inp, p2) {
                    Err(f) => Err(f),
                    Ok(name) => Ok(OkV {
                        node: NodeV {
                            rule: Rule::Namespace,
                            start: pos,
                            end: name.end,
                            children: seq![scope.node, name.node],
                        },
                        end: name.end,
                    }),
                }
            },
        }
    }
}

/// `import "<relative path>"`. A backslash in the path is rejected
/// explicitly; the failure carries it in the negatives set.
pub open spec fn sp_import(inp: Seq<char>, pos: int) -> Result<OkV, FailV> {
    if !sp_lit(inp, pos, "import"@) {
        Err(fail1(pos, Rule::Import))
    } else {
        let p1 = sp_skip(inp, pos + "import"@.len());
        if 0 <= p1 && p1 < inp.len() && inp[p1] == '"' {
            let e = sp_path_end(inp, p1 + 1);
            if 0 <= e && e < inp.len() && inp[e] == '"' {
                Ok(OkV {
                    node: NodeV {
                        rule: Rule::Import,
                        start: pos,
                        end: e + 1,
                        children: seq![leaf(Rule::Path, p1 + 1, e)],
                    },
                    end: e + 1,
                })
            } else if 0 <= e && e < inp.len() && inp[e] == '\\' {
                Err(FailV {
                    pos: e,
                    expected: seq![Rule::Path],
                    negatives: seq![Rule::Backslash],
                    deep: false,
                })
            } else {
                Err(fail1(e, Rule::Path))
            }
        } else {
            Err(fail1(p1, Rule::Path))
        }
    }
}

/// `<ident> = <integer>`, one enum member.
pub open spec fn sp_enum_member(inp: Seq<char>, pos: int) -> Result<OkV, FailV> {
    match sp_ident(inp, pos) {
        Err(f) => Err(FailV { expected: seq![Rule::EnumMember], ..f }),
        Ok(n) => {
            let p1 = sp_skip(inp, n.end);
            if 0 <= p1 && p1 < inp.len() && inp[p1] == '=' {
                let p2 = sp_skip(inp, p1 + 1);
                match sp_integer(inp, p2) {
                    Err(f) => Err(f),
                    Ok(v) => Ok(OkV {
                        node: NodeV {
                            rule: Rule::EnumMember,
                            start: pos,
                            end: v.end,
                            children: seq![n.node, v.node],
                        },
                        end: v.end,
                    }),
                }
            } else {
                Err(fail1(p1, Rule::EnumMember))
            }
        },
    }
}

/// The `, <member>` continuations of an enum body; a trailing comma before
/// the closing brace is permitted.
pub open spec fn sp_members_more(inp: Seq<char>, pos: int) -> StarV
    decreases inp.len() - pos,
{
    let p = sp_skip(inp, pos);
    if 0 <= p && p < inp.len() && inp[p] == ',' {
        let q = sp_skip(inp, p + 1);
        match sp_enum_member(inp, q) {
            Err(f) => StarV { nodes: Seq::empty(), end: p + 1, fail: f },
            Ok(m) => if pos < m.end <= inp.len() {
                let rest = sp_members_more(inp, m.end);
                StarV { nodes: seq![m.node] + rest.nodes, end: rest.end, fail: rest.fail }
            } else {
                StarV { nodes: Seq::empty(), end: p + 1, fail: fail1(m.end, Rule::EnumMember) }
            },
        }
    } else {
        StarV { nodes: Seq::empty(), end: pos, fail: fail1(p, Rule::Enum) }
    }
}

/// `enum <Name> { <member> (, <member>)* ,? }`; an empty body is valid.
pub open spec fn sp_enum(inp: Seq<char>, pos: int) -> Result<OkV, FailV> {
    if !sp_lit(inp, pos, "enum"@) {
        Err(fail1(pos, Rule::Enum))
    } else {
        let p1 = sp_skip(inp, pos + "enum"@.len());
        match sp_ident(inp, p1) {
            Err(f) => Err(f),
            Ok(name) => {
                let p2 = sp_skip(inp, name.end);
                if !(0 <= p2 && p2 < inp.len() && inp[p2] == '{') {
                    Err(fail1(p2, Rule::Enum))
                } else {
                    let p3 = sp_skip(inp, p2 + 1);
                    let (members, end, mfail) = match sp_enum_member(inp, p3) {
                        Err(f) => (Seq::<NodeV>::empty(), p2 + 1, f),
                        Ok(m) => {
                            let rest = sp_members_more(inp, m.end);
                            (seq![m.node] + rest.nodes, rest.end, rest.fail)
                        },
                    };
                    let pe = sp_skip(inp, end);
                    if 0 <= pe && pe < inp.len() && inp[pe] == '}' {
                        Ok(OkV {
                            node: NodeV {
                                rule: Rule::Enum,
                                start: pos,
                                end: pe + 1,
                                children: seq![name.node] + members,
                            },
                            end: pe + 1,
                        })
                    } else {
                        Err(merge(mfail, fail1(pe, Rule::Enum)))
                    }
                }
            },
        }
    }
}

/// Zero or more `class_field`s, separated only by skippable text.
pub open spec fn sp_fields(inp: Seq<char>, pos: int, depth: nat) -> StarV
    decreases inp.len() - pos,
{
    let p = sp_skip(inp, pos);
    match sp_class_field(inp, p, depth) {
        Err(f) => StarV { nodes: Seq::empty(), end: pos, fail: f },
        Ok(ok) => if pos < ok.end <= inp.len() {
            let rest = sp_fields(inp, ok.end, depth);
            StarV { nodes: seq![ok.node] + rest.nodes, end: rest.end, fail: rest.fail }
        } else {
            StarV { nodes: Seq::empty(), end: pos, fail: fail1(ok.end, Rule::ClassField) }
        },
    }
}

/// `class <Name> { <class_field>* }`.
pub open spec fn sp_class(inp: Seq<char>, pos: int, depth: nat) -> Result<OkV, FailV> {
    if !sp_lit(inp, pos, "class"@) {
        Err(fail1(pos, Rule::Class))
    } else {
        let p1 = sp_skip(inp, pos + "class"@.len());
        match sp_ident(inp, p1) {
            Err(f) => Err(f),
            Ok(name) => {
                let p2 = sp_skip(inp, name.end);
                if !(0 <= p2 && p2 < inp.len() && inp[p2] == '{') {
                    Err(fail1(p2, Rule::Class))
                } else {
                    let st = sp_fields(inp, p2 + 1, depth);
                    let pe = sp_skip(inp, st.end);
                    if 0 <= pe && pe < inp.len() && inp[pe] == '}' {
                        Ok(OkV {
                            node: NodeV {
                                rule: Rule::Class,
                                start: pos,
                                end: pe + 1,
                                children: seq![name.node] + st.nodes,
                            },
                            end: pe + 1,
                        })
                    } else {
                        Err(merge(st.fail, fail1(pe, Rule::Class)))
                    }
                }
            },
        }
    }
}

/// The `, <param>` continuations of a parameter list; params are
/// `class_field`-shaped.
pub open spec fn sp_params_more(inp: Seq<char>, pos: int, depth: nat) -> StarV
    decreases inp.len() - pos,
{
    let p = sp_skip(inp, pos);
    if 0 <= p && p < inp.len() && inp[p] == ',' {
        let q = sp_skip(inp, p + 1);
        match sp_class_field(inp, q, depth) {
            Err(f) => StarV { nodes: Seq::empty(), end: p + 1, fail: f },
            Ok(m) => if pos < m.end <= inp.len() {
                let rest = sp_params_more(inp, m.end, depth);
                StarV { nodes: seq![m.node] + rest.nodes, end: rest.end, fail: rest.fail }
            } else {
                StarV { nodes: Seq::empty(), end: p + 1, fail: fail1(m.end, Rule::ClassField) }
            },
        }
    } else {
        StarV { nodes: Seq::empty(), end: pos, fail: fail1(p, Rule::Method) }
    }
}

/// `method`: `<type> <name> ( <param> (, <param>)* )` with an optional empty
/// parameter list.
pub open spec fn sp_method(inp: Seq<char>, pos: int, depth: nat) -> Result<OkV, FailV> {
    match sp_type(inp, pos, depth) {
        Err(f) => Err(f),
        Ok(t) => {
            let p1 = sp_skip(inp, t.end);
            match sp_ident(inp, p1) {
                Err(f) => Err(f),
                Ok(name) => {
                    let p2 = sp_skip(inp, name.end);
                    if !(0 <= p2 && p2 < inp.len() && inp[p2] == '(') {
                        Err(fail1(p2, Rule::Method))
                    } else {
                        let p3 = sp_skip(inp, p2 + 1);
                        let (params, end, pfail) = match sp_class_field(inp, p3, depth) {
                            Err(f) => (Seq::<NodeV>::empty(), p2 + 1, f),
                            Ok(first) => {
                                let rest = sp_params_more(inp, first.end, depth);
                                (seq![first.node] + rest.nodes, rest.end, rest.fail)
                            },
                        };
                        let pe = sp_skip(inp, end);
                        if 0 <= pe && pe < inp.len() && inp[pe] == ')' {
                            Ok(OkV {
                                node: NodeV {
                                    rule: Rule::Method,
                                    start: pos,
                                    end: pe + 1,
                                    children: seq![t.node, name.node] + params,
                                },
                                end: pe + 1,
                            })
                        } else {
                            Err(merge(pfail, fail1(pe, Rule::Method)))
                        }
                    }
                },
            }
        },
    }
}

/// Zero or more `method`s.
pub open spec fn sp_methods(inp: Seq<char>, pos: int, depth: nat) -> StarV
    decreases inp.len() - pos,
{
    let p = sp_skip(inp, pos);
    match sp_method(inp, p, depth) {
        Err(f) => StarV { nodes: Seq::empty(), end: pos, fail: f },
        Ok(ok) => if pos < ok.end <= inp.len() {
            let rest = sp_methods(inp, ok.end, depth);
            StarV { nodes: seq![ok.node] + rest.nodes, end: rest.end, fail: rest.fail }
        } else {
            StarV { nodes: Seq::empty(), end: pos, fail: fail1(ok.end, Rule::Method) }
        },
    }
}

/// `interface <Name> { <method>* }`.
pub open spec fn sp_interface(inp: Seq<char>, pos: int, depth: nat) -> Result<OkV, FailV> {
    if !sp_lit(inp, pos, "interface"@) {
        Err(fail1(pos, Rule::Interface))
    } else {
        let p1 = sp_skip(inp, pos + "interface"@.len());
        match sp_ident(inp, p1) {
            Err(f) => Err(f),
            Ok(name) => {
                let p2 = sp_skip(inp, name.end);
                if !(0 <= p2 && p2 < inp.len() && inp[p2] == '{') {
                    Err(fail1(p2, Rule::Interface))
                } else {
                    let st = sp_methods(inp, p2 + 1, depth);
                    let pe = sp_skip(inp, st.end);
                    if 0 <= pe && pe < inp.len() && inp[pe] == '}' {
                        Ok(OkV {
                            node: NodeV {
                                rule: Rule::Interface,
                                start: pos,
                                end: pe + 1,
                                children: seq![name.node] + st.nodes,
                            },
                            end: pe + 1,
                        })
                    } else {
                        Err(merge(st.fail, fail1(pe, Rule::Interface)))
                    }
                }
            },
        }
    }
}

// ---------------------------------------------------------------------------
// The root rule
// ---------------------------------------------------------------------------

/// `enum` / `class` / `interface`, ordered choice.
pub open spec fn sp_decl(inp: Seq<char>, pos: int, depth: nat) -> Result<OkV, FailV> {
    match sp_enum(inp, pos) {
        Ok(ok) => Ok(ok),
        Err(f1) => match sp_class(inp, pos, depth) {
            Ok(ok) => Ok(ok),
            Err(f2) => match sp_interface(inp, pos, depth) {
                Ok(ok) => Ok(ok),
                Err(f3) => Err(merge(merge(f1, f2), f3)),
            },
        },
    }
}

/// Zero or more `namespace` declarations.
pub open spec fn sp_namespaces(inp: Seq<char>, pos: int) -> StarV
    decreases inp.len() - pos,
{
    let p = sp_skip(inp, pos);
    match sp_namespace(inp, p) {
        Err(f) => StarV { nodes: Seq::empty(), end: pos, fail: f },
        Ok(ok) => if pos < ok.end <= inp.len() {
            let rest = sp_namespaces(inp, ok.end);
            StarV { nodes: seq![ok.node] + rest.nodes, end: rest.end, fail: rest.fail }
        } else {
            StarV { nodes: Seq::empty(), end: pos, fail: fail1(ok.end, Rule::Namespace) }
        },
    }
}

/// Zero or more `import` declarations.
pub open spec fn sp_imports(inp: Seq<char>, pos: int) -> StarV
    decreases inp.len() - pos,
{
    let p = sp_skip(inp, pos);
    match sp_import(inp, p) {
        Err(f) => StarV { nodes: Seq::empty(), end: pos, fail: f },
        Ok(ok) => if pos < ok.end <= inp.len() {
            let rest = sp_imports(inp, ok.end);
            StarV { nodes: seq![ok.node] + rest.nodes, end: rest.end, fail: rest.fail }
        } else {
            StarV { nodes: Seq::empty(), end: pos, fail: fail1(ok.end, Rule::Import) }
        },
    }
}

/// Zero or more declarations.
pub open spec fn sp_decls(inp: Seq<char>, pos: int, depth: nat) -> StarV
    decreases inp.len() - pos,
{
    let p = sp_skip(inp, pos);
    match sp_decl(inp, p, depth) {
        Err(f) => StarV { nodes: Seq::empty(), end: pos, fail: f },
        Ok(ok) => if pos < ok.end <= inp.len() {
            let rest = sp_decls(inp, ok.end, depth);
            StarV { nodes: seq![ok.node] + rest.nodes, end: rest.end, fail: rest.fail }
        } else {
            StarV { nodes: Seq::empty(), end: pos, fail: fail1(ok.end, Rule::Eoi) }
        },
    }
}

/// `root`: namespaces, then imports, then declarations, consuming the whole
/// input. On failure the reported failure merges what each repetition and the
/// end-of-input check expected, keeping the furthest.
pub open spec fn sp_root(inp: Seq<char>, depth: nat) -> Result<OkV, FailV> {
    let ns = sp_namespaces(inp, 0);
    let im = sp_imports(inp, ns.end);
    let ds = sp_decls(inp, im.end, depth);
    let pe = sp_skip(inp, ds.end);
    if pe == inp.len() {
        Ok(OkV {
            node: NodeV {
                rule: Rule::Root,
                start: 0,
                end: inp.len() as int,
                children: ns.nodes + im.nodes + ds.nodes,
            },
            end: inp.len() as int,
        })
    } else {
        Err(merge(merge(merge(ns.fail, im.fail), ds.fail), fail1(pe, Rule::Eoi)))
    }
}

/// The meaning of parsing any entry rule at the start of the input. Entry
/// rules other than `root` match a prefix; `root` anchors at end of input.
pub open spec fn sp_rule(rule: Rule, inp: Seq<char>) -> Result<OkV, FailV> {
    match rule {
        Rule::Root => sp_root(inp, NESTING_LIMIT as nat),
        Rule::Namespace => sp_namespace(inp, 0),
        Rule::Import => sp_import(inp, 0),
        Rule::Type => sp_type(inp, 0, NESTING_LIMIT as nat),
        Rule::ClassField => sp_class_field(inp, 0, NESTING_LIMIT as nat),
        Rule::Enum => sp_enum(inp, 0),
        Rule::Class => sp_class(inp, 0, NESTING_LIMIT as nat),
        Rule::Interface => sp_interface(inp, 0, NESTING_LIMIT as nat),
        Rule::Method => sp_method(inp, 0, NESTING_LIMIT as nat),
        Rule::EnumMember => sp_enum_member(inp, 0),
        Rule::Ident => sp_ident(inp, 0),
        Rule::DottedIdent => sp_dotted(inp, 0),
        Rule::Integer => sp_integer(inp, 0),
        _ => Err(fail1(0, rule)),
    }
}

} // verus!
