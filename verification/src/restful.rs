//! The parser's public face: parsing any entry rule, the serializable check
//! result for lint / editor integration, and the tree-or-error entry point
//! for generation pipelines.

use vstd::prelude::*;
use crate::tree::{Rule, Node};
use crate::grammar::{FailV, sp_rule, sp_root, NESTING_LIMIT};
use crate::parser::{Failure, parse_entry};
use crate::diag::{
    sp_line, sp_col, sp_nl_count, sp_message_sets, line_col, render_message_sets,
    lemma_nl_count_mono, lemma_line_start_bounds,
};
use crate::text::{to_chars, chars_to_string};
use crate::project::{Value, ValueV, project, sp_project, sp_project_children};
use crate::error::{Error, CustomError};
use vstd::string::StringExecFns;

verus! {

/// Drives the grammar over an input string.
pub struct RestfulParser;

/// Where in the input a raw failure lies: a single point or a range of
/// character offsets.
#[derive(Debug, Clone, Copy, PartialEq, Eq)]
pub enum InputLocation {
    Pos(usize),
    Span((usize, usize)),
}

/// The same place as 1-based line/column pairs.
#[derive(Debug, Clone, Copy, PartialEq, Eq)]
pub enum LineColLocation {
    Pos((usize, usize)),
    Span((usize, usize), (usize, usize)),
}

/// What went wrong: a rule-set mismatch, or a single custom message.
#[derive(Debug)]
pub enum ErrorVariant {
    ParsingError { positives: Vec<Rule>, negatives: Vec<Rule> },
    CustomError { message: String },
}

/// Mathematical model of an [`ErrorVariant`].
pub ghost enum ErrorVariantV {
    Parsing { positives: Seq<Rule>, negatives: Seq<Rule> },
    Custom { message: Seq<char> },
}

impl View for ErrorVariant {
    type V = ErrorVariantV;

    open spec fn view(&self) -> ErrorVariantV {
        match self {
            ErrorVariant::ParsingError { positives, negatives } => ErrorVariantV::Parsing {
                positives: positives@,
                negatives: negatives@,
            },
            ErrorVariant::CustomError { message } => ErrorVariantV::Custom { message: message@ },
        }
    }
}

/// A raw parse failure as returned by [`RestfulParser::parse`]: what was
/// expected or rejected, and where, both as an offset and as line/column.
#[derive(Debug)]
pub struct ParseError {
    pub variant: ErrorVariant,
    pub location: InputLocation,
    pub line_col: LineColLocation,
}

/// Mathematical model of a [`ParseError`].
pub ghost struct ParseErrorV {
    pub variant: ErrorVariantV,
    pub location: InputLocation,
    pub line_col: LineColLocation,
}

impl View for ParseError {
    type V = ParseErrorV;

    open spec fn view(&self) -> ParseErrorV {
        ParseErrorV { variant: self.variant@, location: self.location, line_col: self.line_col }
    }
}

/// The parse error that reports the raw failure `f` on input `inp`.
pub open spec fn sp_parse_error(inp: Seq<char>, f: FailV) -> ParseErrorV {
    ParseErrorV {
        variant: if f.deep {
            ErrorVariantV::Custom { message: "type nesting too deep"@ }
        } else {
            ErrorVariantV::Parsing { positives: f.expected, negatives: f.negatives }
        },
        location: InputLocation::Pos(f.pos as usize),
        line_col: LineColLocation::Pos(
            ((sp_line(inp, f.pos) as usize), (sp_col(inp, f.pos) as usize)),
        ),
    }
}

fn build_parse_error(inp: &Vec<char>, f: Failure) -> (r: ParseError)
    requires
        f.pos <= inp@.len(),
        inp@.len() < usize::MAX,
    ensures
        r@ == sp_parse_error(inp@, f@),
{
    let (line, col) = line_col(inp, f.pos);
    proof {
        crate::diag::lemma_nl_count_le(inp@, f.pos as int);
        lemma_line_start_bounds(inp@, f.pos as int);
    }
    let variant = if f.deep {
        ErrorVariant::CustomError { message: String::from_str("type nesting too deep") }
    } else {
        ErrorVariant::ParsingError { positives: f.expected, negatives: f.negatives }
    };
    ParseError {
        variant,
        location: InputLocation::Pos(f.pos),
        line_col: LineColLocation::Pos((line, col)),
    }
}

impl RestfulParser {
    /// Parse the entry rule `rule` at the start of `input`. Entry rules other
    /// than `Rule::Root` match a prefix of the input; `Rule::Root` must
    /// consume all of it. On success the single matched tree is returned.
    pub fn parse(rule: Rule, input: &str) -> (r: Result<Vec<Node>, ParseError>)
        requires
            input@.len() < usize::MAX,
        ensures
            match r {
                Ok(pairs) => sp_rule(rule, input@) matches Ok(ok) && pairs@.len() == 1
                    && pairs@[0]@ == ok.node,
                Err(e) => sp_rule(rule, input@) matches Err(f) && e@ == sp_parse_error(input@, f),
            },
            (r is Ok) <==> (sp_rule(rule, input@) is Ok),
            r matches Err(e) ==> (e.location matches InputLocation::Pos(p) && p <= input@.len()),
    {
        let chars = to_chars(input);
        match parse_entry(rule, &chars) {
            Ok((n, _end)) => {
                let mut pairs: Vec<Node> = Vec::new();
                pairs.push(n);
                Ok(pairs)
            },
            Err(f) => Err(build_parse_error(&chars, f)),
        }
    }
}

// ---------------------------------------------------------------------------
// The check result
// ---------------------------------------------------------------------------

/// A caller-facing failure place, as an offset or a range, plain or as
/// line/column pairs.
#[derive(Debug, Clone, Copy, PartialEq, Eq)]
pub enum ErrorLocation {
    Pos(usize),
    PosLine((usize, usize)),
    Span((usize, usize)),
    SpanLine((usize, usize), (usize, usize)),
}

/// The stable diagnostic shape: either `success` with nothing else, or a
/// failure with both locations and a message populated.
#[derive(Debug)]
pub struct CheckResult {
    pub success: bool,
    pub location: Option<ErrorLocation>,
    pub line_col: Option<ErrorLocation>,
    pub message: Option<String>,
}

/// Mathematical model of a [`CheckResult`].
pub ghost struct CheckResultV {
    pub success: bool,
    pub location: Option<ErrorLocation>,
    pub line_col: Option<ErrorLocation>,
    pub message: Option<Seq<char>>,
}

impl View for CheckResult {
    type V = CheckResultV;

    open spec fn view(&self) -> CheckResultV {
        CheckResultV {
            success: self.success,
            location: self.location,
            line_col: self.line_col,
            message: match self.message {
                Option::Some(ref m) => Option::Some(m@),
                Option::None => Option::None,
            },
        }
    }
}

/// The successful check result: no location, no message.
pub open spec fn sp_check_ok() -> CheckResultV {
    CheckResultV { success: true, location: None, line_col: None, message: None }
}

impl Default for CheckResult {
    fn default() -> (r: Self)
        ensures
            r@ == sp_check_ok(),
    {
        CheckResult { success: true, location: None, line_col: None, message: None }
    }
}

/// The caller-facing location of a raw point-or-span offset location.
pub open spec fn sp_loc_of_input(v: InputLocation) -> ErrorLocation {
    match v {
        InputLocation::Pos(p) => ErrorLocation::Pos(p),
        InputLocation::Span(t) => ErrorLocation::Span(t),
    }
}

/// The caller-facing location of a raw point-or-span line/column location.
pub open spec fn sp_loc_of_line_col(v: LineColLocation) -> ErrorLocation {
    match v {
        LineColLocation::Pos(t) => ErrorLocation::PosLine(t),
        LineColLocation::Span(a, b) => ErrorLocation::SpanLine(a, b),
    }
}

impl From<InputLocation> for ErrorLocation {
    fn from(v: InputLocation) -> Self {
        match v {
            InputLocation::Pos(p) => ErrorLocation::Pos(p),
            InputLocation::Span(t) => ErrorLocation::Span(t),
        }
    }
}

impl vstd::std_specs::convert::FromSpecImpl<InputLocation> for ErrorLocation {
    open spec fn obeys_from_spec() -> bool {
        true
    }

    open spec fn from_spec(v: InputLocation) -> ErrorLocation {
        sp_loc_of_input(v)
    }
}

impl From<LineColLocation> for ErrorLocation {
    fn from(v: LineColLocation) -> Self {
        match v {
            LineColLocation::Pos(t) => ErrorLocation::PosLine(t),
            LineColLocation::Span(a, b) => ErrorLocation::SpanLine(a, b),
        }
    }
}

impl vstd::std_specs::convert::FromSpecImpl<LineColLocation> for ErrorLocation {
    open spec fn obeys_from_spec() -> bool {
        true
    }

    open spec fn from_spec(v: LineColLocation) -> ErrorLocation {
        sp_loc_of_line_col(v)
    }
}

/// The check result that reports the parse error `e`.
pub open spec fn sp_check_of_error(e: ParseErrorV) -> CheckResultV {
    CheckResultV {
        success: false,
        location: Some(sp_loc_of_input(e.location)),
        line_col: Some(sp_loc_of_line_col(e.line_col)),
        message: Some(
            match e.variant {
                ErrorVariantV::Parsing { positives, negatives } => sp_message_sets(
                    positives,
                    negatives,
                ),
                ErrorVariantV::Custom { message } => message,
            },
        ),
    }
}

impl CheckResult {
    /// The diagnostic reporting a raw parse failure: both locations and the
    /// rendered message populated, `success` false.
    pub fn from(value: ParseError) -> (r: CheckResult)
        ensures
            r@ == sp_check_of_error(value@),
    {
        let location = Some(ErrorLocation::from(value.location));
        let line_col = Some(ErrorLocation::from(value.line_col));
        let message = Some(
            match value.variant {
                ErrorVariant::ParsingError { positives, negatives } => chars_to_string(
                    &render_message_sets(&positives, &negatives),
                ),
                ErrorVariant::CustomError { message } => message,
            },
        );
        CheckResult { success: false, location, line_col, message }
    }
}

// ---------------------------------------------------------------------------
// Entry points
// ---------------------------------------------------------------------------

/// A failed diagnostic points into its input: the offset lies within the
/// input, the line within the input's lines, the column within the line
/// bound, and a message is present.
pub open spec fn sp_diag_located(r: CheckResultV, inp: Seq<char>) -> bool {
    &&& r.location matches Some(loc) && loc matches ErrorLocation::Pos(p) && p <= inp.len()
    &&& r.line_col matches Some(lc) && lc matches ErrorLocation::PosLine(t) && 1 <= t.0
        <= sp_nl_count(inp, inp.len() as int) + 1 && 1 <= t.1 <= inp.len() + 1
    &&& r.message matches Some(m) && m.len() > 0
}

/// The diagnostic that checking `inp` against the root rule produces.
pub open spec fn sp_check(inp: Seq<char>) -> CheckResultV {
    match sp_root(inp, NESTING_LIMIT as nat) {
        Ok(_) => sp_check_ok(),
        Err(f) => sp_check_of_error(sp_parse_error(inp, f)),
    }
}

/// Check the input against the root rule and report a diagnostic: success
/// with no other field, or failure with offset location, line/column location
/// and message all populated. On failure the offset lies within the input and
/// the line within the input's lines.
#[verifier::rlimit(60)]
pub fn check_restful_code_err(content: &str) -> (r: CheckResult)
    requires
        content@.len() < usize::MAX,
    ensures
        r@ == sp_check(content@),
        r.success <==> (sp_root(content@, NESTING_LIMIT as nat) is Ok),
        !r.success ==> sp_diag_located(r@, content@),
{
    let chars = to_chars(content);
    let result = parse_entry(Rule::Root, &chars);
    match result {
        Ok(_) => {
            let r = CheckResult::default();
            proof {
                assert(r.success);
            }
            r
        },
        Err(f) => {
            proof {
                crate::diag::lemma_nl_count_le(chars@, f.pos as int);
                crate::diag::lemma_nl_count_le(chars@, chars@.len() as int);
                lemma_nl_count_mono(chars@, f.pos as int, chars@.len() as int);
                lemma_line_start_bounds(chars@, f.pos as int);
            }
            let r = CheckResult::from(build_parse_error(&chars, f));
            proof {
                assert(r@.location == Some(ErrorLocation::Pos(f.pos)));
                assert(f.pos <= content@.len());
                assert(r@.line_col == Some(ErrorLocation::PosLine(
                    ((sp_line(chars@, f.pos as int) as usize), (sp_col(chars@, f.pos as int) as usize)),
                )));
                assert(1 <= sp_line(chars@, f.pos as int) <= sp_nl_count(chars@, chars@.len() as int) + 1);
                assert(1 <= sp_col(chars@, f.pos as int) <= chars@.len() + 1);
                reveal_strlit("expected one of [");
                reveal_strlit("type nesting too deep");
                assert(r@.message matches Some(m) && m.len() > 0);
                assert(sp_diag_located(r@, content@));
            }
            r
        },
    }
}

/// Parse the input against the root rule and project the matched tree: the
/// projected values of the root's children on success, the raw failure
/// wrapped as an [`Error`] otherwise. Succeeds exactly on the inputs the
/// grammar's root rule accepts.
pub fn parse_json_from_string(content: String) -> (r: Result<Value, Error>)
    requires
        content@.len() < usize::MAX,
    ensures
        match r {
            Ok(v) => sp_root(content@, NESTING_LIMIT as nat) matches Ok(ok) && v@
                == ValueV::Array(sp_project_children(content@, ok.node)),
            Err(e) => sp_root(content@, NESTING_LIMIT as nat) matches Err(f) && e@
                == crate::error::ErrorV::ParseRest(sp_parse_error(content@, f)),
        },
        (r is Ok) <==> (sp_root(content@, NESTING_LIMIT as nat) is Ok),
{
    let result = RestfulParser::parse(Rule::Root, content.as_str());
    match result {
        Err(e) => Err(Error::ParseRestError(e)),
        Ok(pairs) => {
            if pairs.len() == 0 {
                // The root rule always yields one tree; a missing top-level
                // node would be a structural invariant violation, reported as
                // a domain error rather than defaulted to a valid result.
                return Err(
                    Error::OnebootError(
                        CustomError::new(
                            String::from_str("import restful_dsl failed. missing root!"),
                        ),
                    ),
                );
            }
            let root = &pairs[0];
            let chars = to_chars(content.as_str());
            let ghost rootv = root@;
            let mut items: Vec<Value> = Vec::new();
            let mut i: usize = 0;
            while i < root.children.len()
                invariant
                    0 <= i <= root.children@.len(),
                    root.children@.len() == rootv.children.len(),
                    rootv == root@,
                    chars@ == content@,
                    forall|j: int| 0 <= j < i ==> rootv.children[j] == root.children@[j]@,
                    items@.len() == i,
                    forall|j: int|
                        0 <= j < i ==> items@[j]@ == sp_project(content@, rootv.children[j]),
                decreases root.children@.len() - i,
            {
                let c = project(&chars, &root.children[i]);
                items.push(c);
                i += 1;
            }
            let v = Value::Array(items);
            proof {
                assert(v@ is Array);
                assert(v@->Array_0 =~= sp_project_children(content@, rootv));
                assert(v@ == ValueV::Array(v@->Array_0));
            }
            Ok(v)
        },
    }
}

} // verus!
