//! Diagnostic helpers: line and column positions and the rendering of
//! expected / rejected rule sets into a human-readable message.

use vstd::prelude::*;
use crate::tree::Rule;
use crate::text::push_str_chars;

verus! {

/// How many newline characters stand before `pos`.
pub open spec fn sp_nl_count(inp: Seq<char>, pos: int) -> int
    decreases pos,
{
    if pos <= 0 {
        0
    } else {
        sp_nl_count(inp, pos - 1) + if 0 <= pos - 1 < inp.len() && inp[pos - 1] == '\n' {
            1int
        } else {
            0int
        }
    }
}

/// The position where the line holding `pos` starts: just past the last
/// newline before `pos`.
pub open spec fn sp_line_start(inp: Seq<char>, pos: int) -> int
    decreases pos,
{
    if pos <= 0 {
        0
    } else if 0 <= pos - 1 < inp.len() && inp[pos - 1] == '\n' {
        pos
    } else {
        sp_line_start(inp, pos - 1)
    }
}

/// The 1-based line of `pos`.
pub open spec fn sp_line(inp: Seq<char>, pos: int) -> int {
    sp_nl_count(inp, pos) + 1
}

/// The 1-based column of `pos` within its line.
pub open spec fn sp_col(inp: Seq<char>, pos: int) -> int {
    pos - sp_line_start(inp, pos) + 1
}

/// Newline counts only grow along the input.
pub proof fn lemma_nl_count_mono(inp: Seq<char>, i: int, j: int)
    requires
        i <= j,
    ensures
        sp_nl_count(inp, i) <= sp_nl_count(inp, j),
    decreases j - i,
{
    if i < j {
        lemma_nl_count_mono(inp, i, j - 1);
    }
}

/// Newlines before `pos` are fewer than the characters before `pos`.
pub proof fn lemma_nl_count_le(inp: Seq<char>, pos: int)
    requires
        0 <= pos,
    ensures
        0 <= sp_nl_count(inp, pos) <= pos,
    decreases pos,
{
    if pos > 0 {
        lemma_nl_count_le(inp, pos - 1);
    }
}

/// A line starts no later than the position that names it.
pub proof fn lemma_line_start_bounds(inp: Seq<char>, pos: int)
    requires
        0 <= pos,
    ensures
        0 <= sp_line_start(inp, pos) <= pos,
    decreases pos,
{
    if pos > 0 && !(0 <= pos - 1 < inp.len() && inp[pos - 1] == '\n') {
        lemma_line_start_bounds(inp, pos - 1);
    }
}

/// The 1-based line and column of `pos`.
pub(crate) fn line_col(inp: &Vec<char>, pos: usize) -> (r: (usize, usize))
    requires
        pos <= inp@.len(),
        inp@.len() < usize::MAX,
    ensures
        r.0 == sp_line(inp@, pos as int),
        r.1 == sp_col(inp@, pos as int),
{
    let mut line: usize = 1;
    let mut start: usize = 0;
    let mut i: usize = 0;
    while i < pos
        invariant
            0 <= i <= pos <= inp@.len() < usize::MAX,
            line == sp_nl_count(inp@, i as int) + 1,
            start == sp_line_start(inp@, i as int),
        decreases pos - i,
    {
        proof {
            lemma_nl_count_le(inp@, i as int);
        }
        if inp[i] == '\n' {
            line += 1;
            start = i + 1;
        }
        i += 1;
    }
    proof {
        lemma_line_start_bounds(inp@, pos as int);
    }
    (line, pos - start + 1)
}

// ---------------------------------------------------------------------------
// Rule names and messages
// ---------------------------------------------------------------------------

/// The printable name of a rule.
pub open spec fn sp_rule_name(r: Rule) -> Seq<char> {
    match r {
        Rule::Root => "root"@,
        Rule::Namespace => "namespace"@,
        Rule::Import => "import"@,
        Rule::Path => "path"@,
        Rule::Backslash => "backslash"@,
        Rule::Type => "type"@,
        Rule::QualifiedName => "qualified_name"@,
        Rule::ClassField => "class_field"@,
        Rule::Modifier => "modifier"@,
        Rule::Ident => "ident"@,
        Rule::DottedIdent => "dotted_ident"@,
        Rule::Enum => "enum"@,
        Rule::EnumMember => "enum_member"@,
        Rule::Integer => "integer"@,
        Rule::Class => "class"@,
        Rule::Interface => "interface"@,
        Rule::Method => "method"@,
        Rule::Eoi => "EOI"@,
    }
}

/// Exec mirror of [`sp_rule_name`].
pub(crate) fn rule_name(r: Rule) -> (s: &'static str)
    ensures
        s@ == sp_rule_name(r),
{
    match r {
        Rule::Root => "root",
        Rule::Namespace => "namespace",
        Rule::Import => "import",
        Rule::Path => "path",
        Rule::Backslash => "backslash",
        Rule::Type => "type",
        Rule::QualifiedName => "qualified_name",
        Rule::ClassField => "class_field",
        Rule::Modifier => "modifier",
        Rule::Ident => "ident",
        Rule::DottedIdent => "dotted_ident",
        Rule::Enum => "enum",
        Rule::EnumMember => "enum_member",
        Rule::Integer => "integer",
        Rule::Class => "class",
        Rule::Interface => "interface",
        Rule::Method => "method",
        Rule::Eoi => "EOI",
    }
}

/// The rules of `rs` from index `i` on, named and comma-separated.
pub open spec fn sp_rule_list_from(rs: Seq<Rule>, i: int) -> Seq<char>
    decreases rs.len() - i,
{
    if i < 0 || i >= rs.len() {
        Seq::empty()
    } else if i == rs.len() - 1 {
        sp_rule_name(rs[i])
    } else {
        sp_rule_name(rs[i]) + ", "@ + sp_rule_list_from(rs, i + 1)
    }
}

/// The message summarizing an expected / rejected rule-set mismatch.
pub open spec fn sp_message_sets(positives: Seq<Rule>, negatives: Seq<Rule>) -> Seq<char> {
    "expected one of ["@ + sp_rule_list_from(positives, 0) + "], rejected ["@ + sp_rule_list_from(
        negatives,
        0,
    ) + "]"@
}

fn push_rule_list(out: &mut Vec<char>, rs: &Vec<Rule>, i: usize)
    requires
        i <= rs@.len(),
    ensures
        final(out)@ == old(out)@ + sp_rule_list_from(rs@, i as int),
    decreases rs@.len() - i,
{
    if i >= rs.len() {
        proof {
            assert(out@ =~= out@ + Seq::<char>::empty());
        }
        return ;
    }
    push_str_chars(out, rule_name(rs[i]));
    if i + 1 < rs.len() {
        push_str_chars(out, ", ");
        push_rule_list(out, rs, i + 1);
        proof {
            assert(old(out)@ + (sp_rule_name(rs@[i as int]) + ", "@ + sp_rule_list_from(
                rs@,
                i + 1,
            )) =~= old(out)@ + sp_rule_name(rs@[i as int]) + ", "@ + sp_rule_list_from(rs@, i + 1));
        }
    }
}

/// Render the expected / rejected sets of a failure into its message.
pub(crate) fn render_message_sets(positives: &Vec<Rule>, negatives: &Vec<Rule>) -> (r: Vec<char>)
    ensures
        r@ == sp_message_sets(positives@, negatives@),
{
    let mut out: Vec<char> = Vec::new();
    proof {
        assert(out@ =~= Seq::<char>::empty());
    }
    push_str_chars(&mut out, "expected one of [");
    push_rule_list(&mut out, positives, 0);
    push_str_chars(&mut out, "], rejected [");
    push_rule_list(&mut out, negatives, 0);
    push_str_chars(&mut out, "]");
    proof {
        assert(out@ =~= sp_message_sets(positives@, negatives@));
    }
    out
}

} // verus!
