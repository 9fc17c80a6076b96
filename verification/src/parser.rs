//! The parser: executable recursive descent over the input characters, proved
//! to return exactly what the grammar in [`crate::grammar`] means.

use vstd::prelude::*;
use vstd::string::StrSliceExecFns;
use crate::tree::{Rule, Node, NodeV};
use crate::grammar::{
    FailV, OkV, StarV, fail1, merge, leaf, is_ws, is_digit, is_ident_start, is_ident_cont,
    sp_line_end, sp_block_close, sp_skip, sp_lit, sp_ident_end, sp_ident, sp_dotted_more,
    sp_dotted, sp_digits_end, sp_integer, sp_path_end, sp_modifier, sp_type, sp_type_args,
    sp_class_field, sp_namespace, sp_import, sp_enum_member, sp_members_more, sp_enum,
    sp_fields, sp_class, sp_params_more, sp_method, sp_methods, sp_interface, sp_decl,
    sp_namespaces, sp_imports, sp_decls, sp_root, sp_rule, NESTING_LIMIT,
};

verus! {

/// An executable parse failure; its model is [`FailV`].
pub struct Failure {
    pub pos: usize,
    pub expected: Vec<Rule>,
    pub negatives: Vec<Rule>,
    pub deep: bool,
}

impl View for Failure {
    type V = FailV;

    open spec fn view(&self) -> FailV {
        FailV {
            pos: self.pos as int,
            expected: self.expected@,
            negatives: self.negatives@,
            deep: self.deep,
        }
    }
}

/// The model of a sequence of nodes.
pub open spec fn nodes_view(v: Seq<Node>) -> Seq<NodeV> {
    Seq::new(v.len(), |i: int| v[i]@)
}

/// The model of an executable parse step.
pub open spec fn stv(r: Result<(Node, usize), Failure>) -> Result<OkV, FailV> {
    match r {
        Ok((n, e)) => Ok(OkV { node: n@, end: e as int }),
        Err(f) => Err(f@),
    }
}

/// An executable repetition outcome; its model is [`StarV`].
pub struct StarRes {
    pub nodes: Vec<Node>,
    pub end: usize,
    pub fail: Failure,
}

impl View for StarRes {
    type V = StarV;

    open spec fn view(&self) -> StarV {
        StarV { nodes: nodes_view(self.nodes@), end: self.end as int, fail: self.fail@ }
    }
}

/// A repetition with `prefix` already matched ahead of the rest `s`.
pub open spec fn star_cat(prefix: Seq<NodeV>, s: StarV) -> StarV {
    StarV { nodes: prefix + s.nodes, end: s.end, fail: s.fail }
}

pub(crate) fn mk_fail1(pos: usize, r: Rule) -> (f: Failure)
    ensures
        f@ == fail1(pos as int, r),
{
    let mut expected: Vec<Rule> = Vec::new();
    expected.push(r);
    let f = Failure { pos, expected, negatives: Vec::new(), deep: false };
    proof {
        assert(f@.expected =~= seq![r]);
        assert(f@.negatives =~= Seq::<Rule>::empty());
        assert(f@ =~= fail1(pos as int, r));
    }
    f
}

pub(crate) fn merge_fail(a: Failure, b: Failure) -> (r: Failure)
    ensures
        r@ == merge(a@, b@),
{
    if b.pos > a.pos {
        b
    } else if b.pos < a.pos {
        a
    } else {
        let mut expected = a.expected;
        let mut negatives = a.negatives;
        let mut i: usize = 0;
        while i < b.expected.len()
            invariant
                0 <= i <= b.expected@.len(),
                expected@ == a.expected@ + b.expected@.subrange(0, i as int),
            decreases b.expected@.len() - i,
        {
            expected.push(b.expected[i]);
            proof {
                assert(a.expected@ + b.expected@.subrange(0, i as int) + seq![b.expected@[i as int]]
                    =~= a.expected@ + b.expected@.subrange(0, i + 1));
            }
            i += 1;
        }
        let mut j: usize = 0;
        while j < b.negatives.len()
            invariant
                0 <= j <= b.negatives@.len(),
                negatives@ == a.negatives@ + b.negatives@.subrange(0, j as int),
            decreases b.negatives@.len() - j,
        {
            negatives.push(b.negatives[j]);
            proof {
                assert(a.negatives@ + b.negatives@.subrange(0, j as int) + seq![b.negatives@[j as int]]
                    =~= a.negatives@ + b.negatives@.subrange(0, j + 1));
            }
            j += 1;
        }
        proof {
            assert(b.expected@.subrange(0, b.expected@.len() as int) =~= b.expected@);
            assert(b.negatives@.subrange(0, b.negatives@.len() as int) =~= b.negatives@);
        }
        let r = Failure { pos: a.pos, expected, negatives, deep: a.deep || b.deep };
        proof {
            assert(r@ =~= merge(a@, b@));
        }
        r
    }
}

/// A leaf node carrying only its span.
pub(crate) fn mk_leaf(rule: Rule, start: usize, end: usize) -> (n: Node)
    ensures
        n@ == leaf(rule, start as int, end as int),
{
    let n = Node { rule, start, end, children: Vec::new() };
    proof {
        assert(n@.children =~= Seq::<NodeV>::empty());
        assert(n@ =~= leaf(rule, start as int, end as int));
    }
    n
}

/// A node with exactly two children.
pub(crate) fn mk_node2(rule: Rule, start: usize, end: usize, a: Node, b: Node) -> (n: Node)
    ensures
        n@ == (NodeV {
            rule,
            start: start as int,
            end: end as int,
            children: seq![a@, b@],
        }),
{
    let ghost av = a@;
    let ghost bv = b@;
    let mut children: Vec<Node> = Vec::new();
    children.push(a);
    children.push(b);
    let n = Node { rule, start, end, children };
    proof {
        assert(n@.children =~= seq![av, bv]);
        assert(n@ =~= NodeV { rule, start: start as int, end: end as int, children: seq![av, bv] });
    }
    n
}

// ---------------------------------------------------------------------------
// Scanners
// ---------------------------------------------------------------------------

fn ws_char(c: char) -> (r: bool)
    ensures
        r == is_ws(c),
{
    c == ' ' || c == '\t' || c == '\r' || c == '\n'
}

fn digit_char(c: char) -> (r: bool)
    ensures
        r == is_digit(c),
{
    '0' <= c && c <= '9'
}

fn ident_start_char(c: char) -> (r: bool)
    ensures
        r == is_ident_start(c),
{
    ('a' <= c && c <= 'z') || ('A' <= c && c <= 'Z') || c == '_'
}

fn ident_cont_char(c: char) -> (r: bool)
    ensures
        r == is_ident_cont(c),
{
    ident_start_char(c) || digit_char(c)
}

fn line_end(inp: &Vec<char>, pos: usize) -> (r: usize)
    requires
        pos <= inp@.len(),
    ensures
        r == sp_line_end(inp@, pos as int),
        pos <= r <= inp@.len(),
{
    let mut cur = pos;
    while cur < inp.len() && inp[cur] != '\n'
        invariant
            pos <= cur <= inp@.len(),
            sp_line_end(inp@, pos as int) == sp_line_end(inp@, cur as int),
        decreases inp@.len() - cur,
    {
        cur += 1;
    }
    if cur < inp.len() {
        cur + 1
    } else {
        cur
    }
}

fn block_close(inp: &Vec<char>, pos: usize) -> (r: Option<usize>)
    requires
        pos <= inp@.len(),
    ensures
        match r {
            Some(e) => sp_block_close(inp@, pos as int) == Some(e as int) && pos < e <= inp@.len(),
            None => sp_block_close(inp@, pos as int) is None,
        },
{
    let mut cur = pos;
    while cur < inp.len() && cur + 1 < inp.len() && !(inp[cur] == '*' && inp[cur + 1] == '/')
        invariant
            pos <= cur <= inp@.len(),
            sp_block_close(inp@, pos as int) == sp_block_close(inp@, cur as int),
        decreases inp@.len() - cur,
    {
        cur += 1;
    }
    if cur < inp.len() && cur + 1 < inp.len() {
        Some(cur + 2)
    } else {
        None
    }
}

fn skip_ws(inp: &Vec<char>, pos: usize) -> (r: usize)
    requires
        pos <= inp@.len(),
    ensures
        r == sp_skip(inp@, pos as int),
        pos <= r <= inp@.len(),
{
    let mut cur = pos;
    loop
        invariant
            pos <= cur <= inp@.len(),
            sp_skip(inp@, pos as int) == sp_skip(inp@, cur as int),
        decreases inp@.len() - cur,
    {
        if cur < inp.len() && ws_char(inp[cur]) {
            cur += 1;
        } else if cur < inp.len() && cur + 1 < inp.len() && inp[cur] == '/' && inp[cur + 1] == '/' {
            let e = line_end(inp, cur + 2);
            proof {
                assert(sp_skip(inp@, cur as int) == sp_skip(inp@, e as int));
            }
            cur = e;
        } else if cur < inp.len() && cur + 1 < inp.len() && inp[cur] == '/' && inp[cur + 1] == '*' {
            match block_close(inp, cur + 2) {
                Some(e) => {
                    proof {
                        assert(sp_skip(inp@, cur as int) == sp_skip(inp@, e as int));
                    }
                    cur = e;
                },
                None => {
                    return cur;
                },
            }
        } else {
            return cur;
        }
    }
}

/// The literal word `kw` stands at `pos` in the input.
fn match_lit(inp: &Vec<char>, pos: usize, kw: &str) -> (r: bool)
    requires
        pos <= inp@.len(),
    ensures
        r == sp_lit(inp@, pos as int, kw@),
{
    let klen = kw.unicode_len();
    if klen > inp.len() - pos {
        return false;
    }
    let mut i: usize = 0;
    while i < klen
        invariant
            0 <= i <= klen,
            klen == kw@.len(),
            pos + klen <= inp@.len(),
            inp@.len() <= usize::MAX,
            forall|j: int| 0 <= j < i ==> inp@[pos + j] == kw@[j],
        decreases klen - i,
    {
        proof {
            assert(pos + i < inp@.len());
        }
        if inp[pos + i] != kw.get_char(i) {
            proof {
                let sub = inp@.subrange(pos as int, pos as int + kw@.len());
                assert(sub[i as int] == inp@[pos + i]);
                assert(sub != kw@);
            }
            return false;
        }
        i += 1;
    }
    proof {
        assert(inp@.subrange(pos as int, pos as int + kw@.len()) =~= kw@);
    }
    true
}

fn scan_ident_end(inp: &Vec<char>, pos: usize) -> (r: usize)
    requires
        pos <= inp@.len(),
    ensures
        r == sp_ident_end(inp@, pos as int),
        pos <= r <= inp@.len(),
{
    let mut cur = pos;
    while cur < inp.len() && ident_cont_char(inp[cur])
        invariant
            pos <= cur <= inp@.len(),
            sp_ident_end(inp@, pos as int) == sp_ident_end(inp@, cur as int),
        decreases inp@.len() - cur,
    {
        cur += 1;
    }
    cur
}

fn scan_digits_end(inp: &Vec<char>, pos: usize) -> (r: usize)
    requires
        pos <= inp@.len(),
    ensures
        r == sp_digits_end(inp@, pos as int),
        pos <= r <= inp@.len(),
{
    let mut cur = pos;
    while cur < inp.len() && digit_char(inp[cur])
        invariant
            pos <= cur <= inp@.len(),
            sp_digits_end(inp@, pos as int) == sp_digits_end(inp@, cur as int),
        decreases inp@.len() - cur,
    {
        cur += 1;
    }
    cur
}

fn scan_path_end(inp: &Vec<char>, pos: usize) -> (r: usize)
    requires
        pos <= inp@.len(),
    ensures
        r == sp_path_end(inp@, pos as int),
        pos <= r <= inp@.len(),
{
    let mut cur = pos;
    while cur < inp.len() && inp[cur] != '"' && inp[cur] != '\\'
        invariant
            pos <= cur <= inp@.len(),
            sp_path_end(inp@, pos as int) == sp_path_end(inp@, cur as int),
        decreases inp@.len() - cur,
    {
        cur += 1;
    }
    cur
}

// ---------------------------------------------------------------------------
// Terminals
// ---------------------------------------------------------------------------

fn parse_ident(inp: &Vec<char>, pos: usize) -> (r: Result<(Node, usize), Failure>)
    requires
        pos <= inp@.len(),
    ensures
        stv(r) == sp_ident(inp@, pos as int),
        r matches Ok(t) ==> pos < t.1 <= inp@.len(),
{
    if pos < inp.len() && ident_start_char(inp[pos]) {
        let e = scan_ident_end(inp, pos + 1);
        Ok((mk_leaf(Rule::Ident, pos, e), e))
    } else {
        Err(mk_fail1(pos, Rule::Ident))
    }
}

fn parse_dotted(inp: &Vec<char>, pos: usize) -> (r: Result<(Node, usize), Failure>)
    requires
        pos <= inp@.len(),
    ensures
        stv(r) == sp_dotted(inp@, pos as int),
        r matches Ok(t) ==> pos < t.1 <= inp@.len(),
{
    match parse_ident(inp, pos) {
        Err(f) => {
            let g = mk_fail1(f.pos, Rule::DottedIdent);
            let r = Failure { pos: f.pos, expected: g.expected, negatives: f.negatives, deep: f.deep };
            proof {
                assert(r@ =~= (FailV { expected: seq![Rule::DottedIdent], ..f@ }));
            }
            Err(r)
        },
        Ok((_n, e0)) => {
            let mut cur = e0;
            while cur < inp.len() && cur + 1 < inp.len() && inp[cur] == '.'
                && ident_start_char(inp[cur + 1])
                invariant
                    pos < cur <= inp@.len(),
                    sp_dotted_more(inp@, e0 as int) == sp_dotted_more(inp@, cur as int),
                decreases inp@.len() - cur,
            {
                let e = scan_ident_end(inp, cur + 2);
                proof {
                    assert(sp_dotted_more(inp@, cur as int) == sp_dotted_more(inp@, e as int));
                }
                cur = e;
            }
            Ok((mk_leaf(Rule::DottedIdent, pos, cur), cur))
        },
    }
}

fn parse_integer(inp: &Vec<char>, pos: usize) -> (r: Result<(Node, usize), Failure>)
    requires
        pos <= inp@.len(),
    ensures
        stv(r) == sp_integer(inp@, pos as int),
        r matches Ok(t) ==> pos < t.1 <= inp@.len(),
{
    if pos < inp.len() && digit_char(inp[pos]) {
        let e = scan_digits_end(inp, pos + 1);
        Ok((mk_leaf(Rule::Integer, pos, e), e))
    } else {
        Err(mk_fail1(pos, Rule::Integer))
    }
}

fn parse_modifier(inp: &Vec<char>, pos: usize) -> (r: Option<(Node, usize)>)
    requires
        pos <= inp@.len(),
    ensures
        match r {
            Some(t) => sp_modifier(inp@, pos as int) == Some(OkV { node: t.0@, end: t.1 as int })
                && pos < t.1 <= inp@.len(),
            None => sp_modifier(inp@, pos as int) is None,
        },
{
    let req = "required";
    let opt = "optional";
    proof {
        reveal_strlit("required");
        reveal_strlit("optional");
    }
    let ilen = inp.len();
    if match_lit(inp, pos, req) {
        let klen = req.unicode_len();
        proof {
            assert(pos + klen <= ilen);
        }
        let e = pos + klen;
        Some((mk_leaf(Rule::Modifier, pos, e), e))
    } else if match_lit(inp, pos, opt) {
        let klen = opt.unicode_len();
        proof {
            assert(pos + klen <= ilen);
        }
        let e = pos + klen;
        Some((mk_leaf(Rule::Modifier, pos, e), e))
    } else {
        None
    }
}

// ---------------------------------------------------------------------------
// Declarations
// ---------------------------------------------------------------------------

fn parse_namespace(inp: &Vec<char>, pos: usize) -> (r: Result<(Node, usize), Failure>)
    requires
        pos <= inp@.len(),
    ensures
        stv(r) == sp_namespace(inp@, pos as int),
        r matches Ok(t) ==> pos < t.1 <= inp@.len(),
        r matches Err(f) ==> f.pos <= inp@.len(),
{
    let kw = "namespace";
    if !match_lit(inp, pos, kw) {
        return Err(mk_fail1(pos, Rule::Namespace));
    }
    let klen = kw.unicode_len();
    let ilen = inp.len();
    proof {
        assert(pos + klen <= ilen);
    }
    let p1 = skip_ws(inp, pos + klen);
    let (scope, e1) = match parse_ident(inp, p1) {
        Err(f) => {
            return Err(f);
        },
        Ok(t) => t,
    };
    let p2 = skip_ws(inp, e1);
    let (name, e2) = match parse_dotted(inp, p2) {
        Err(f) => {
            return Err(f);
        },
        Ok(t) => t,
    };
    Ok((mk_node2(Rule::Namespace, pos, e2, scope, name), e2))
}

fn parse_import(inp: &Vec<char>, pos: usize) -> (r: Result<(Node, usize), Failure>)
    requires
        pos <= inp@.len(),
    ensures
        stv(r) == sp_import(inp@, pos as int),
        r matches Ok(t) ==> pos < t.1 <= inp@.len(),
        r matches Err(f) ==> f.pos <= inp@.len(),
{
    let kw = "import";
    if !match_lit(inp, pos, kw) {
        return Err(mk_fail1(pos, Rule::Import));
    }
    let klen = kw.unicode_len();
    let ilen = inp.len();
    proof {
        assert(pos + klen <= ilen);
    }
    let p1 = skip_ws(inp, pos + klen);
    if p1 < inp.len() && inp[p1] == '"' {
        let e = scan_path_end(inp, p1 + 1);
        if e < inp.len() && inp[e] == '"' {
            let path = mk_leaf(Rule::Path, p1 + 1, e);
            let ghost pv = path@;
            let mut children: Vec<Node> = Vec::new();
            children.push(path);
            let n = Node { rule: Rule::Import, start: pos, end: e + 1, children };
            proof {
                assert(n@.children =~= seq![pv]);
                assert(n@ =~= (NodeV {
                    rule: Rule::Import,
                    start: pos as int,
                    end: e + 1 as int,
                    children: seq![leaf(Rule::Path, p1 + 1 as int, e as int)],
                }));
            }
            Ok((n, e + 1))
        } else if e < inp.len() && inp[e] == '\\' {
            let mut expected: Vec<Rule> = Vec::new();
            expected.push(Rule::Path);
            let mut negatives: Vec<Rule> = Vec::new();
            negatives.push(Rule::Backslash);
            let f = Failure { pos: e, expected, negatives, deep: false };
            proof {
                assert(f@.expected =~= seq![Rule::Path]);
                assert(f@.negatives =~= seq![Rule::Backslash]);
                assert(f@ =~= (FailV {
                    pos: e as int,
                    expected: seq![Rule::Path],
                    negatives: seq![Rule::Backslash],
                    deep: false,
                }));
            }
            Err(f)
        } else {
            Err(mk_fail1(e, Rule::Path))
        }
    } else {
        Err(mk_fail1(p1, Rule::Path))
    }
}

fn parse_enum_member(inp: &Vec<char>, pos: usize) -> (r: Result<(Node, usize), Failure>)
    requires
        pos <= inp@.len(),
    ensures
        stv(r) == sp_enum_member(inp@, pos as int),
        r matches Ok(t) ==> pos < t.1 <= inp@.len(),
        r matches Err(f) ==> f.pos <= inp@.len(),
{
    let (name, e1) = match parse_ident(inp, pos) {
        Err(f) => {
            let g = mk_fail1(f.pos, Rule::EnumMember);
            let r = Failure { pos: f.pos, expected: g.expected, negatives: f.negatives, deep: f.deep };
            proof {
                assert(r@ =~= (FailV { expected: seq![Rule::EnumMember], ..f@ }));
            }
            return Err(r);
        },
        Ok(t) => t,
    };
    let p1 = skip_ws(inp, e1);
    if p1 < inp.len() && inp[p1] == '=' {
        let p2 = skip_ws(inp, p1 + 1);
        match parse_integer(inp, p2) {
            Err(f) => Err(f),
            Ok((value, e2)) => Ok((mk_node2(Rule::EnumMember, pos, e2, name, value), e2)),
        }
    } else {
        Err(mk_fail1(p1, Rule::EnumMember))
    }
}

// ---------------------------------------------------------------------------
// Types and fields
// ---------------------------------------------------------------------------

/// The model of an executable type-argument-list step.
pub open spec fn stargs(r: Result<(Vec<Node>, usize), Failure>) -> Result<(Seq<NodeV>, int), FailV> {
    match r {
        Ok((v, e)) => Ok((nodes_view(v@), e as int)),
        Err(f) => Err(f@),
    }
}

fn parse_type(inp: &Vec<char>, pos: usize, depth: usize) -> (r: Result<(Node, usize), Failure>)
    requires
        pos <= inp@.len(),
    ensures
        stv(r) == sp_type(inp@, pos as int, depth as nat),
        r matches Ok(t) ==> pos < t.1 <= inp@.len(),
        r matches Err(f) ==> f.pos <= inp@.len(),
    decreases depth, inp@.len() - pos,
{
    if !(pos < inp.len() && ident_start_char(inp[pos])) {
        return Err(mk_fail1(pos, Rule::Type));
    }
    let e1 = scan_ident_end(inp, pos + 1);
    let q = if e1 < inp.len() && e1 + 1 < inp.len() && inp[e1] == '.' && ident_start_char(
        inp[e1 + 1],
    ) {
        scan_ident_end(inp, e1 + 2)
    } else {
        e1
    };
    let name = mk_leaf(Rule::QualifiedName, pos, q);
    let g = skip_ws(inp, q);
    if g < inp.len() && inp[g] == '<' {
        if depth == 0 {
            let f = Failure { pos: g, expected: Vec::new(), negatives: Vec::new(), deep: true };
            proof {
                assert(f@ =~= (FailV {
                    pos: g as int,
                    expected: Seq::empty(),
                    negatives: Seq::empty(),
                    deep: true,
                }));
            }
            return Err(f);
        }
        let a0 = skip_ws(inp, g + 1);
        match parse_type(inp, a0, depth - 1) {
            Err(f) => Err(f),
            Ok((first, fe)) => match parse_type_args(inp, fe, depth - 1) {
                Err(f) => Err(f),
                Ok((rest, close)) => {
                    let ghost namev = name@;
                    let ghost firstv = first@;
                    let ghost restv = nodes_view(rest@);
                    let mut children: Vec<Node> = Vec::new();
                    children.push(name);
                    children.push(first);
                    let mut rest = rest;
                    children.append(&mut rest);
                    let n = Node { rule: Rule::Type, start: pos, end: close, children };
                    proof {
                        assert(n@.children =~= seq![namev, firstv] + restv);
                        assert(n@ =~= (NodeV {
                            rule: Rule::Type,
                            start: pos as int,
                            end: close as int,
                            children: seq![namev, firstv] + restv,
                        }));
                    }
                    Ok((n, close))
                },
            },
        }
    } else {
        let ghost namev = name@;
        let mut children: Vec<Node> = Vec::new();
        children.push(name);
        let n = Node { rule: Rule::Type, start: pos, end: q, children };
        proof {
            assert(n@.children =~= seq![namev]);
            assert(n@ =~= (NodeV {
                rule: Rule::Type,
                start: pos as int,
                end: q as int,
                children: seq![namev],
            }));
        }
        Ok((n, q))
    }
}

fn parse_type_args(inp: &Vec<char>, pos: usize, depth: usize) -> (r: Result<
    (Vec<Node>, usize),
    Failure,
>)
    requires
        pos <= inp@.len(),
    ensures
        stargs(r) == sp_type_args(inp@, pos as int, depth as nat),
        r matches Ok(t) ==> pos < t.1 <= inp@.len(),
        r matches Err(f) ==> f.pos <= inp@.len(),
    decreases depth, inp@.len() - pos,
{
    let p = skip_ws(inp, pos);
    if p < inp.len() && inp[p] == '>' {
        let out: Vec<Node> = Vec::new();
        proof {
            assert(nodes_view(out@) =~= Seq::<NodeV>::empty());
        }
        Ok((out, p + 1))
    } else if p < inp.len() && inp[p] == ',' {
        let a = skip_ws(inp, p + 1);
        match parse_type(inp, a, depth) {
            Err(f) => Err(f),
            Ok((arg, ae)) => match parse_type_args(inp, ae, depth) {
                Err(f) => Err(f),
                Ok((rest, close)) => {
                    let ghost argv = arg@;
                    let ghost restv = nodes_view(rest@);
                    let mut out: Vec<Node> = Vec::new();
                    out.push(arg);
                    let mut rest = rest;
                    out.append(&mut rest);
                    proof {
                        assert(nodes_view(out@) =~= seq![argv] + restv);
                    }
                    Ok((out, close))
                },
            },
        }
    } else {
        Err(mk_fail1(p, Rule::Type))
    }
}

fn parse_class_field(inp: &Vec<char>, pos: usize, depth: usize) -> (r: Result<
    (Node, usize),
    Failure,
>)
    requires
        pos <= inp@.len(),
    ensures
        stv(r) == sp_class_field(inp@, pos as int, depth as nat),
        r matches Ok(t) ==> pos < t.1 <= inp@.len(),
        r matches Err(f) ==> f.pos <= inp@.len(),
{
    let (modifier, p1) = match parse_modifier(inp, pos) {
        Some((m, me)) => (Some(m), skip_ws(inp, me)),
        None => (None, pos),
    };
    match parse_type(inp, p1, depth) {
        Err(f) => Err(f),
        Ok((t, te)) => {
            let p2 = skip_ws(inp, te);
            match parse_ident(inp, p2) {
                Err(f) => Err(f),
                Ok((nm, ne)) => {
                    let ghost tv = t@;
                    let ghost nv = nm@;
                    let mut children: Vec<Node> = Vec::new();
                    let ghost modsv: Seq<NodeV> = match modifier {
                        Some(ref m) => seq![m@],
                        None => Seq::empty(),
                    };
                    match modifier {
                        Some(m) => {
                            children.push(m);
                        },
                        None => {},
                    }
                    children.push(t);
                    children.push(nm);
                    let n = Node { rule: Rule::ClassField, start: pos, end: ne, children };
                    proof {
                        assert(n@.children =~= modsv + seq![tv, nv]);
                        assert(n@ =~= (NodeV {
                            rule: Rule::ClassField,
                            start: pos as int,
                            end: ne as int,
                            children: modsv + seq![tv, nv],
                        }));
                    }
                    Ok((n, ne))
                },
            }
        },
    }
}

// ---------------------------------------------------------------------------
// Repetitions
// ---------------------------------------------------------------------------

fn parse_members_more(inp: &Vec<char>, pos: usize) -> (r: StarRes)
    requires
        pos <= inp@.len(),
    ensures
        r@ == sp_members_more(inp@, pos as int),
        pos <= r.end <= inp@.len(),
        r.fail.pos <= inp@.len(),
{
    let mut nodes: Vec<Node> = Vec::new();
    let mut cur = pos;
    proof {
        assert(star_cat(nodes_view(nodes@), sp_members_more(inp@, pos as int)) =~= sp_members_more(
            inp@,
            pos as int,
        ));
    }
    loop
        invariant
            pos <= cur <= inp@.len(),
            sp_members_more(inp@, pos as int) == star_cat(
                nodes_view(nodes@),
                sp_members_more(inp@, cur as int),
            ),
        decreases inp@.len() - cur,
    {
        let p = skip_ws(inp, cur);
        if p < inp.len() && inp[p] == ',' {
            let q = skip_ws(inp, p + 1);
            match parse_enum_member(inp, q) {
                Err(f) => {
                    proof {
                        assert(star_cat(nodes_view(nodes@), sp_members_more(inp@, cur as int)) =~= (
                        StarV { nodes: nodes_view(nodes@), end: p + 1 as int, fail: f@ }));
                    }
                    return StarRes { nodes, end: p + 1, fail: f };
                },
                Ok((m, e)) => {
                    let ghost prev = nodes@;
                    let ghost mv = m@;
                    let ghost rest = sp_members_more(inp@, e as int);
                    nodes.push(m);
                    proof {
                        assert(nodes_view(nodes@) =~= nodes_view(prev) + seq![mv]);
                        assert(sp_members_more(inp@, cur as int) == (StarV {
                            nodes: seq![mv] + rest.nodes,
                            end: rest.end,
                            fail: rest.fail,
                        }));
                        assert(nodes_view(prev) + (seq![mv] + rest.nodes) =~= (nodes_view(prev)
                            + seq![mv]) + rest.nodes);
                        assert(star_cat(nodes_view(prev), sp_members_more(inp@, cur as int))
                            == star_cat(nodes_view(nodes@), rest));
                    }
                    cur = e;
                },
            }
        } else {
            let f = mk_fail1(p, Rule::Enum);
            proof {
                assert(star_cat(nodes_view(nodes@), sp_members_more(inp@, cur as int)) =~= (StarV {
                    nodes: nodes_view(nodes@),
                    end: cur as int,
                    fail: f@,
                }));
            }
            return StarRes { nodes, end: cur, fail: f };
        }
    }
}

fn parse_params_more(inp: &Vec<char>, pos: usize, depth: usize) -> (r: StarRes)
    requires
        pos <= inp@.len(),
    ensures
        r@ == sp_params_more(inp@, pos as int, depth as nat),
        pos <= r.end <= inp@.len(),
        r.fail.pos <= inp@.len(),
{
    let mut nodes: Vec<Node> = Vec::new();
    let mut cur = pos;
    proof {
        assert(star_cat(nodes_view(nodes@), sp_params_more(inp@, pos as int, depth as nat))
            =~= sp_params_more(inp@, pos as int, depth as nat));
    }
    loop
        invariant
            pos <= cur <= inp@.len(),
            sp_params_more(inp@, pos as int, depth as nat) == star_cat(
                nodes_view(nodes@),
                sp_params_more(inp@, cur as int, depth as nat),
            ),
        decreases inp@.len() - cur,
    {
        let p = skip_ws(inp, cur);
        if p < inp.len() && inp[p] == ',' {
            let q = skip_ws(inp, p + 1);
            match parse_class_field(inp, q, depth) {
                Err(f) => {
                    proof {
                        assert(star_cat(
                            nodes_view(nodes@),
                            sp_params_more(inp@, cur as int, depth as nat),
                        ) =~= (StarV { nodes: nodes_view(nodes@), end: p + 1 as int, fail: f@ }));
                    }
                    return StarRes { nodes, end: p + 1, fail: f };
                },
                Ok((m, e)) => {
                    let ghost prev = nodes@;
                    let ghost mv = m@;
                    let ghost rest = sp_params_more(inp@, e as int, depth as nat);
                    nodes.push(m);
                    proof {
                        assert(nodes_view(nodes@) =~= nodes_view(prev) + seq![mv]);
                        assert(sp_params_more(inp@, cur as int, depth as nat) == (StarV {
                            nodes: seq![mv] + rest.nodes,
                            end: rest.end,
                            fail: rest.fail,
                        }));
                        assert(nodes_view(prev) + (seq![mv] + rest.nodes) =~= (nodes_view(prev)
                            + seq![mv]) + rest.nodes);
                        assert(star_cat(nodes_view(prev), sp_params_more(inp@, cur as int, depth as nat))
                            == star_cat(nodes_view(nodes@), rest));
                    }
                    cur = e;
                },
            }
        } else {
            let f = mk_fail1(p, Rule::Method);
            proof {
                assert(star_cat(nodes_view(nodes@), sp_params_more(inp@, cur as int, depth as nat))
                    =~= (StarV { nodes: nodes_view(nodes@), end: cur as int, fail: f@ }));
            }
            return StarRes { nodes, end: cur, fail: f };
        }
    }
}

fn parse_fields(inp: &Vec<char>, pos: usize, depth: usize) -> (r: StarRes)
    requires
        pos <= inp@.len(),
    ensures
        r@ == sp_fields(inp@, pos as int, depth as nat),
        pos <= r.end <= inp@.len(),
        r.fail.pos <= inp@.len(),
{
    let mut nodes: Vec<Node> = Vec::new();
    let mut cur = pos;
    proof {
        assert(star_cat(nodes_view(nodes@), sp_fields(inp@, pos as int, depth as nat))
            =~= sp_fields(inp@, pos as int, depth as nat));
    }
    loop
        invariant
            pos <= cur <= inp@.len(),
            sp_fields(inp@, pos as int, depth as nat) == star_cat(
                nodes_view(nodes@),
                sp_fields(inp@, cur as int, depth as nat),
            ),
        decreases inp@.len() - cur,
    {
        let p = skip_ws(inp, cur);
        match parse_class_field(inp, p, depth) {
            Err(f) => {
                proof {
                    assert(star_cat(nodes_view(nodes@), sp_fields(inp@, cur as int, depth as nat))
                        =~= (StarV { nodes: nodes_view(nodes@), end: cur as int, fail: f@ }));
                }
                return StarRes { nodes, end: cur, fail: f };
            },
            Ok((n, e)) => {
                let ghost prev = nodes@;
                let ghost nv = n@;
                let ghost rest = sp_fields(inp@, e as int, depth as nat);
                nodes.push(n);
                proof {
                    assert(nodes_view(nodes@) =~= nodes_view(prev) + seq![nv]);
                    assert(sp_fields(inp@, cur as int, depth as nat) == (StarV {
                        nodes: seq![nv] + rest.nodes,
                        end: rest.end,
                        fail: rest.fail,
                    }));
                    assert(nodes_view(prev) + (seq![nv] + rest.nodes) =~= (nodes_view(prev)
                        + seq![nv]) + rest.nodes);
                    assert(star_cat(nodes_view(prev), sp_fields(inp@, cur as int, depth as nat))
                        == star_cat(nodes_view(nodes@), rest));
                }
                cur = e;
            },
        }
    }
}

fn parse_methods(inp: &Vec<char>, pos: usize, depth: usize) -> (r: StarRes)
    requires
        pos <= inp@.len(),
    ensures
        r@ == sp_methods(inp@, pos as int, depth as nat),
        pos <= r.end <= inp@.len(),
        r.fail.pos <= inp@.len(),
{
    let mut nodes: Vec<Node> = Vec::new();
    let mut cur = pos;
    proof {
        assert(star_cat(nodes_view(nodes@), sp_methods(inp@, pos as int, depth as nat))
            =~= sp_methods(inp@, pos as int, depth as nat));
    }
    loop
        invariant
            pos <= cur <= inp@.len(),
            sp_methods(inp@, pos as int, depth as nat) == star_cat(
                nodes_view(nodes@),
                sp_methods(inp@, cur as int, depth as nat),
            ),
        decreases inp@.len() - cur,
    {
        let p = skip_ws(inp, cur);
        match parse_method(inp, p, depth) {
            Err(f) => {
                proof {
                    assert(star_cat(nodes_view(nodes@), sp_methods(inp@, cur as int, depth as nat))
                        =~= (StarV { nodes: nodes_view(nodes@), end: cur as int, fail: f@ }));
                }
                return StarRes { nodes, end: cur, fail: f };
            },
            Ok((n, e)) => {
                let ghost prev = nodes@;
                let ghost nv = n@;
                let ghost rest = sp_methods(inp@, e as int, depth as nat);
                nodes.push(n);
                proof {
                    assert(nodes_view(nodes@) =~= nodes_view(prev) + seq![nv]);
                    assert(sp_methods(inp@, cur as int, depth as nat) == (StarV {
                        nodes: seq![nv] + rest.nodes,
                        end: rest.end,
                        fail: rest.fail,
                    }));
                    assert(nodes_view(prev) + (seq![nv] + rest.nodes) =~= (nodes_view(prev)
                        + seq![nv]) + rest.nodes);
                    assert(star_cat(nodes_view(prev), sp_methods(inp@, cur as int, depth as nat))
                        == star_cat(nodes_view(nodes@), rest));
                }
                cur = e;
            },
        }
    }
}

// ---------------------------------------------------------------------------
// Braced declarations
// ---------------------------------------------------------------------------

fn parse_enum(inp: &Vec<char>, pos: usize) -> (r: Result<(Node, usize), Failure>)
    requires
        pos <= inp@.len(),
    ensures
        stv(r) == sp_enum(inp@, pos as int),
        r matches Ok(t) ==> pos < t.1 <= inp@.len(),
        r matches Err(f) ==> f.pos <= inp@.len(),
{
    let kw = "enum";
    if !match_lit(inp, pos, kw) {
        return Err(mk_fail1(pos, Rule::Enum));
    }
    let klen = kw.unicode_len();
    let ilen = inp.len();
    proof {
        assert(pos + klen <= ilen);
    }
    let p1 = skip_ws(inp, pos + klen);
    let (name, e1) = match parse_ident(inp, p1) {
        Err(f) => {
            return Err(f);
        },
        Ok(t) => t,
    };
    let p2 = skip_ws(inp, e1);
    if !(p2 < inp.len() && inp[p2] == '{') {
        return Err(mk_fail1(p2, Rule::Enum));
    }
    let p3 = skip_ws(inp, p2 + 1);
    let (members, end, mfail) = match parse_enum_member(inp, p3) {
        Err(f) => (Vec::<Node>::new(), p2 + 1, f),
        Ok((m, me)) => {
            let rest = parse_members_more(inp, me);
            let ghost mv = m@;
            let ghost restv = nodes_view(rest.nodes@);
            let mut members: Vec<Node> = Vec::new();
            members.push(m);
            let mut tail = rest.nodes;
            members.append(&mut tail);
            proof {
                assert(nodes_view(members@) =~= seq![mv] + restv);
            }
            (members, rest.end, rest.fail)
        },
    };
    let pe = skip_ws(inp, end);
    if pe < inp.len() && inp[pe] == '}' {
        let ghost namev = name@;
        let ghost membersv = nodes_view(members@);
        let mut children: Vec<Node> = Vec::new();
        children.push(name);
        let mut tail = members;
        children.append(&mut tail);
        let n = Node { rule: Rule::Enum, start: pos, end: pe + 1, children };
        proof {
            assert(n@.children =~= seq![namev] + membersv);
            assert(n@ =~= (NodeV {
                rule: Rule::Enum,
                start: pos as int,
                end: pe + 1 as int,
                children: seq![namev] + membersv,
            }));
        }
        Ok((n, pe + 1))
    } else {
        Err(merge_fail(mfail, mk_fail1(pe, Rule::Enum)))
    }
}

fn parse_class(inp: &Vec<char>, pos: usize, depth: usize) -> (r: Result<(Node, usize), Failure>)
    requires
        pos <= inp@.len(),
    ensures
        stv(r) == sp_class(inp@, pos as int, depth as nat),
        r matches Ok(t) ==> pos < t.1 <= inp@.len(),
        r matches Err(f) ==> f.pos <= inp@.len(),
{
    let kw = "class";
    if !match_lit(inp, pos, kw) {
        return Err(mk_fail1(pos, Rule::Class));
    }
    let klen = kw.unicode_len();
    let ilen = inp.len();
    proof {
        assert(pos + klen <= ilen);
    }
    let p1 = skip_ws(inp, pos + klen);
    let (name, e1) = match parse_ident(inp, p1) {
        Err(f) => {
            return Err(f);
        },
        Ok(t) => t,
    };
    let p2 = skip_ws(inp, e1);
    if !(p2 < inp.len() && inp[p2] == '{') {
        return Err(mk_fail1(p2, Rule::Class));
    }
    let st = parse_fields(inp, p2 + 1, depth);
    let pe = skip_ws(inp, st.end);
    if pe < inp.len() && inp[pe] == '}' {
        let ghost namev = name@;
        let ghost fieldsv = nodes_view(st.nodes@);
        let mut children: Vec<Node> = Vec::new();
        children.push(name);
        let mut tail = st.nodes;
        children.append(&mut tail);
        let n = Node { rule: Rule::Class, start: pos, end: pe + 1, children };
        proof {
            assert(n@.children =~= seq![namev] + fieldsv);
            assert(n@ =~= (NodeV {
                rule: Rule::Class,
                start: pos as int,
                end: pe + 1 as int,
                children: seq![namev] + fieldsv,
            }));
        }
        Ok((n, pe + 1))
    } else {
        Err(merge_fail(st.fail, mk_fail1(pe, Rule::Class)))
    }
}

fn parse_method(inp: &Vec<char>, pos: usize, depth: usize) -> (r: Result<(Node, usize), Failure>)
    requires
        pos <= inp@.len(),
    ensures
        stv(r) == sp_method(inp@, pos as int, depth as nat),
        r matches Ok(t) ==> pos < t.1 <= inp@.len(),
        r matches Err(f) ==> f.pos <= inp@.len(),
{
    let (t, te) = match parse_type(inp, pos, depth) {
        Err(f) => {
            return Err(f);
        },
        Ok(x) => x,
    };
    let p1 = skip_ws(inp, te);
    let (name, ne) = match parse_ident(inp, p1) {
        Err(f) => {
            return Err(f);
        },
        Ok(x) => x,
    };
    let p2 = skip_ws(inp, ne);
    if !(p2 < inp.len() && inp[p2] == '(') {
        return Err(mk_fail1(p2, Rule::Method));
    }
    let p3 = skip_ws(inp, p2 + 1);
    let (params, end, pfail) = match parse_class_field(inp, p3, depth) {
        Err(f) => (Vec::<Node>::new(), p2 + 1, f),
        Ok((first, fe)) => {
            let rest = parse_params_more(inp, fe, depth);
            let ghost firstv = first@;
            let ghost restv = nodes_view(rest.nodes@);
            let mut params: Vec<Node> = Vec::new();
            params.push(first);
            let mut tail = rest.nodes;
            params.append(&mut tail);
            proof {
                assert(nodes_view(params@) =~= seq![firstv] + restv);
            }
            (params, rest.end, rest.fail)
        },
    };
    let pe = skip_ws(inp, end);
    if pe < inp.len() && inp[pe] == ')' {
        let ghost tv = t@;
        let ghost namev = name@;
        let ghost paramsv = nodes_view(params@);
        let mut children: Vec<Node> = Vec::new();
        children.push(t);
        children.push(name);
        let mut tail = params;
        children.append(&mut tail);
        let n = Node { rule: Rule::Method, start: pos, end: pe + 1, children };
        proof {
            assert(n@.children =~= seq![tv, namev] + paramsv);
            assert(n@ =~= (NodeV {
                rule: Rule::Method,
                start: pos as int,
                end: pe + 1 as int,
                children: seq![tv, namev] + paramsv,
            }));
        }
        Ok((n, pe + 1))
    } else {
        Err(merge_fail(pfail, mk_fail1(pe, Rule::Method)))
    }
}

fn parse_interface(inp: &Vec<char>, pos: usize, depth: usize) -> (r: Result<(Node, usize), Failure>)
    requires
        pos <= inp@.len(),
    ensures
        stv(r) == sp_interface(inp@, pos as int, depth as nat),
        r matches Ok(t) ==> pos < t.1 <= inp@.len(),
        r matches Err(f) ==> f.pos <= inp@.len(),
{
    let kw = "interface";
    if !match_lit(inp, pos, kw) {
        return Err(mk_fail1(pos, Rule::Interface));
    }
    let klen = kw.unicode_len();
    let ilen = inp.len();
    proof {
        assert(pos + klen <= ilen);
    }
    let p1 = skip_ws(inp, pos + klen);
    let (name, e1) = match parse_ident(inp, p1) {
        Err(f) => {
            return Err(f);
        },
        Ok(t) => t,
    };
    let p2 = skip_ws(inp, e1);
    if !(p2 < inp.len() && inp[p2] == '{') {
        return Err(mk_fail1(p2, Rule::Interface));
    }
    let st = parse_methods(inp, p2 + 1, depth);
    let pe = skip_ws(inp, st.end);
    if pe < inp.len() && inp[pe] == '}' {
        let ghost namev = name@;
        let ghost methodsv = nodes_view(st.nodes@);
        let mut children: Vec<Node> = Vec::new();
        children.push(name);
        let mut tail = st.nodes;
        children.append(&mut tail);
        let n = Node { rule: Rule::Interface, start: pos, end: pe + 1, children };
        proof {
            assert(n@.children =~= seq![namev] + methodsv);
            assert(n@ =~= (NodeV {
                rule: Rule::Interface,
                start: pos as int,
                end: pe + 1 as int,
                children: seq![namev] + methodsv,
            }));
        }
        Ok((n, pe + 1))
    } else {
        Err(merge_fail(st.fail, mk_fail1(pe, Rule::Interface)))
    }
}

// ---------------------------------------------------------------------------
// The root rule
// ---------------------------------------------------------------------------

fn parse_decl(inp: &Vec<char>, pos: usize, depth: usize) -> (r: Result<(Node, usize), Failure>)
    requires
        pos <= inp@.len(),
    ensures
        stv(r) == sp_decl(inp@, pos as int, depth as nat),
        r matches Ok(t) ==> pos < t.1 <= inp@.len(),
        r matches Err(f) ==> f.pos <= inp@.len(),
{
    match parse_enum(inp, pos) {
        Ok(t) => Ok(t),
        Err(f1) => match parse_class(inp, pos, depth) {
            Ok(t) => Ok(t),
            Err(f2) => match parse_interface(inp, pos, depth) {
                Ok(t) => Ok(t),
                Err(f3) => Err(merge_fail(merge_fail(f1, f2), f3)),
            },
        },
    }
}

fn parse_namespaces(inp: &Vec<char>, pos: usize) -> (r: StarRes)
    requires
        pos <= inp@.len(),
    ensures
        r@ == sp_namespaces(inp@, pos as int),
        pos <= r.end <= inp@.len(),
        r.fail.pos <= inp@.len(),
{
    let mut nodes: Vec<Node> = Vec::new();
    let mut cur = pos;
    proof {
        assert(star_cat(nodes_view(nodes@), sp_namespaces(inp@, pos as int)) =~= sp_namespaces(
            inp@,
            pos as int,
        ));
    }
    loop
        invariant
            pos <= cur <= inp@.len(),
            sp_namespaces(inp@, pos as int) == star_cat(
                nodes_view(nodes@),
                sp_namespaces(inp@, cur as int),
            ),
        decreases inp@.len() - cur,
    {
        let p = skip_ws(inp, cur);
        match parse_namespace(inp, p) {
            Err(f) => {
                proof {
                    assert(star_cat(nodes_view(nodes@), sp_namespaces(inp@, cur as int)) =~= (StarV {
                        nodes: nodes_view(nodes@),
                        end: cur as int,
                        fail: f@,
                    }));
                }
                return StarRes { nodes, end: cur, fail: f };
            },
            Ok((n, e)) => {
                let ghost prev = nodes@;
                let ghost nv = n@;
                let ghost rest = sp_namespaces(inp@, e as int);
                nodes.push(n);
                proof {
                    assert(nodes_view(nodes@) =~= nodes_view(prev) + seq![nv]);
                    assert(sp_namespaces(inp@, cur as int) == (StarV {
                        nodes: seq![nv] + rest.nodes,
                        end: rest.end,
                        fail: rest.fail,
                    }));
                    assert(nodes_view(prev) + (seq![nv] + rest.nodes) =~= (nodes_view(prev)
                        + seq![nv]) + rest.nodes);
                    assert(star_cat(nodes_view(prev), sp_namespaces(inp@, cur as int)) == star_cat(
                        nodes_view(nodes@),
                        rest,
                    ));
                }
                cur = e;
            },
        }
    }
}

fn parse_imports(inp: &Vec<char>, pos: usize) -> (r: StarRes)
    requires
        pos <= inp@.len(),
    ensures
        r@ == sp_imports(inp@, pos as int),
        pos <= r.end <= inp@.len(),
        r.fail.pos <= inp@.len(),
{
    let mut nodes: Vec<Node> = Vec::new();
    let mut cur = pos;
    proof {
        assert(star_cat(nodes_view(nodes@), sp_imports(inp@, pos as int)) =~= sp_imports(
            inp@,
            pos as int,
        ));
    }
    loop
        invariant
            pos <= cur <= inp@.len(),
            sp_imports(inp@, pos as int) == star_cat(
                nodes_view(nodes@),
                sp_imports(inp@, cur as int),
            ),
        decreases inp@.len() - cur,
    {
        let p = skip_ws(inp, cur);
        match parse_import(inp, p) {
            Err(f) => {
                proof {
                    assert(star_cat(nodes_view(nodes@), sp_imports(inp@, cur as int)) =~= (StarV {
                        nodes: nodes_view(nodes@),
                        end: cur as int,
                        fail: f@,
                    }));
                }
                return StarRes { nodes, end: cur, fail: f };
            },
            Ok((n, e)) => {
                let ghost prev = nodes@;
                let ghost nv = n@;
                let ghost rest = sp_imports(inp@, e as int);
                nodes.push(n);
                proof {
                    assert(nodes_view(nodes@) =~= nodes_view(prev) + seq![nv]);
                    assert(sp_imports(inp@, cur as int) == (StarV {
                        nodes: seq![nv] + rest.nodes,
                        end: rest.end,
                        fail: rest.fail,
                    }));
                    assert(nodes_view(prev) + (seq![nv] + rest.nodes) =~= (nodes_view(prev)
                        + seq![nv]) + rest.nodes);
                    assert(star_cat(nodes_view(prev), sp_imports(inp@, cur as int)) == star_cat(
                        nodes_view(nodes@),
                        rest,
                    ));
                }
                cur = e;
            },
        }
    }
}

fn parse_decls(inp: &Vec<char>, pos: usize, depth: usize) -> (r: StarRes)
    requires
        pos <= inp@.len(),
    ensures
        r@ == sp_decls(inp@, pos as int, depth as nat),
        pos <= r.end <= inp@.len(),
        r.fail.pos <= inp@.len(),
{
    let mut nodes: Vec<Node> = Vec::new();
    let mut cur = pos;
    proof {
        assert(star_cat(nodes_view(nodes@), sp_decls(inp@, pos as int, depth as nat)) =~= sp_decls(
            inp@,
            pos as int,
            depth as nat,
        ));
    }
    loop
        invariant
            pos <= cur <= inp@.len(),
            sp_decls(inp@, pos as int, depth as nat) == star_cat(
                nodes_view(nodes@),
                sp_decls(inp@, cur as int, depth as nat),
            ),
        decreases inp@.len() - cur,
    {
        let p = skip_ws(inp, cur);
        match parse_decl(inp, p, depth) {
            Err(f) => {
                proof {
                    assert(star_cat(nodes_view(nodes@), sp_decls(inp@, cur as int, depth as nat))
                        =~= (StarV { nodes: nodes_view(nodes@), end: cur as int, fail: f@ }));
                }
                return StarRes { nodes, end: cur, fail: f };
            },
            Ok((n, e)) => {
                let ghost prev = nodes@;
                let ghost nv = n@;
                let ghost rest = sp_decls(inp@, e as int, depth as nat);
                nodes.push(n);
                proof {
                    assert(nodes_view(nodes@) =~= nodes_view(prev) + seq![nv]);
                    assert(sp_decls(inp@, cur as int, depth as nat) == (StarV {
                        nodes: seq![nv] + rest.nodes,
                        end: rest.end,
                        fail: rest.fail,
                    }));
                    assert(nodes_view(prev) + (seq![nv] + rest.nodes) =~= (nodes_view(prev)
                        + seq![nv]) + rest.nodes);
                    assert(star_cat(nodes_view(prev), sp_decls(inp@, cur as int, depth as nat))
                        == star_cat(nodes_view(nodes@), rest));
                }
                cur = e;
            },
        }
    }
}

fn parse_root(inp: &Vec<char>, depth: usize) -> (r: Result<(Node, usize), Failure>)
    ensures
        stv(r) == sp_root(inp@, depth as nat),
        r matches Ok(t) ==> t.1 <= inp@.len(),
        r matches Err(f) ==> f.pos <= inp@.len(),
{
    let ns = parse_namespaces(inp, 0);
    let im = parse_imports(inp, ns.end);
    let ds = parse_decls(inp, im.end, depth);
    let pe = skip_ws(inp, ds.end);
    if pe == inp.len() {
        let ghost nsv = nodes_view(ns.nodes@);
        let ghost imv = nodes_view(im.nodes@);
        let ghost dsv = nodes_view(ds.nodes@);
        let mut children = ns.nodes;
        let mut imn = im.nodes;
        let mut dsn = ds.nodes;
        children.append(&mut imn);
        children.append(&mut dsn);
        let n = Node { rule: Rule::Root, start: 0, end: inp.len(), children };
        proof {
            assert(n@.children =~= nsv + imv + dsv);
            assert(n@ =~= (NodeV {
                rule: Rule::Root,
                start: 0,
                end: inp@.len() as int,
                children: nsv + imv + dsv,
            }));
        }
        Ok((n, inp.len()))
    } else {
        Err(merge_fail(merge_fail(merge_fail(ns.fail, im.fail), ds.fail), mk_fail1(pe, Rule::Eoi)))
    }
}

/// Parse the given entry rule at the start of `input`. Entry rules other than
/// `Root` match a prefix of the input; `Root` must consume it entirely. On
/// success the result holds the single matched tree.
pub(crate) fn parse_entry(rule: Rule, inp: &Vec<char>) -> (r: Result<(Node, usize), Failure>)
    ensures
        stv(r) == sp_rule(rule, inp@),
        r matches Ok(t) ==> t.1 <= inp@.len(),
        r matches Err(f) ==> f.pos <= inp@.len(),
{
    match rule {
        Rule::Root => parse_root(inp, NESTING_LIMIT),
        Rule::Namespace => parse_namespace(inp, 0),
        Rule::Import => parse_import(inp, 0),
        Rule::Type => parse_type(inp, 0, NESTING_LIMIT),
        Rule::ClassField => parse_class_field(inp, 0, NESTING_LIMIT),
        Rule::Enum => parse_enum(inp, 0),
        Rule::Class => parse_class(inp, 0, NESTING_LIMIT),
        Rule::Interface => parse_interface(inp, 0, NESTING_LIMIT),
        Rule::Method => parse_method(inp, 0, NESTING_LIMIT),
        Rule::EnumMember => parse_enum_member(inp, 0),
        Rule::Ident => parse_ident(inp, 0),
        Rule::DottedIdent => parse_dotted(inp, 0),
        Rule::Integer => parse_integer(inp, 0),
        _ => Err(mk_fail1(0, rule)),
    }
}

} // verus!
