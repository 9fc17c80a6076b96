//! The library's general guarantees, stated and proved once over the
//! grammar's meaning.

use vstd::prelude::*;
use crate::grammar::{OkV, FailV, sp_root, NESTING_LIMIT};
use crate::restful::{sp_check, sp_check_ok};

verus! {

/// Totality on valid input: an input the root rule accepts checks as a plain
/// success carrying no location and no message, and an input it rejects
/// checks as a failure.
pub proof fn lemma_check_totality(inp: Seq<char>)
    ensures
        (sp_root(inp, NESTING_LIMIT as nat) is Ok) ==> sp_check(inp) == sp_check_ok(),
        sp_check(inp).success <==> (sp_root(inp, NESTING_LIMIT as nat) is Ok),
{
}

/// Determinism: parsing is a function of the input text alone, so any two
/// parses of identical input yield identical trees, or identical failures.
pub proof fn lemma_parse_deterministic(
    inp: Seq<char>,
    r1: Result<OkV, FailV>,
    r2: Result<OkV, FailV>,
)
    requires
        r1 == sp_root(inp, NESTING_LIMIT as nat),
        r2 == sp_root(inp, NESTING_LIMIT as nat),
    ensures
        r1 == r2,
{
}

/// A successful root parse spans the entire input: the tree starts at the
/// first character and ends at the last, and the match consumes everything.
pub proof fn lemma_root_spans_input(inp: Seq<char>)
    requires
        sp_root(inp, NESTING_LIMIT as nat) is Ok,
    ensures
        sp_root(inp, NESTING_LIMIT as nat) matches Ok(ok) && ok.node.start == 0 && ok.node.end
            == inp.len() && ok.end == inp.len(),
{
}

} // verus!
