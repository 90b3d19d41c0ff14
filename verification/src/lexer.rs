//! Classification of raw source lines.
//!
//! A line that is blank (only whitespace) or whose first non-whitespace
//! characters are the comment marker `//` is a skip: it carries no
//! command and is not an error. Every other line is handed to the parser.
//! Whitespace here means ASCII whitespace, the same notion the parser's
//! tokenization splits on.

use vstd::prelude::*;

use crate::command::{spec_parse, Command, ParseError};
use crate::text::{is_ws, is_ws_char, lemma_tokens_of_ws, tokens};

verus! {

/// The outcome of reading one raw source line: either a line to skip, or
/// a parsed command.
#[derive(Debug, Clone, Copy, PartialEq, Eq)]
pub struct LexedResult {
    /// The parsed command, when the line held one.
    pub command: Option<Command>,
    /// Whether the converter should skip this line; true exactly for
    /// blank lines and comment lines.
    pub skippable: bool,
}

/// The index of the first non-whitespace character at or after `i`, or
/// the length of `s` when only whitespace remains.
pub open spec fn ws_end(s: Seq<char>, i: int) -> int
    decreases s.len() - i when 0 <= i
{
    if i >= s.len() || !is_ws(s[i]) {
        i
    } else {
        ws_end(s, i + 1)
    }
}

/// What [`ws_end`] returns: a position in range, with whitespace strictly
/// before it and a non-whitespace character (or the end) at it.
pub proof fn lemma_ws_end_bounds(s: Seq<char>, i: int)
    requires
        0 <= i <= s.len(),
    ensures
        i <= ws_end(s, i) <= s.len(),
        forall|m: int| i <= m < ws_end(s, i) ==> is_ws(#[trigger] s[m]),
        ws_end(s, i) < s.len() ==> !is_ws(s[ws_end(s, i)]),
    decreases s.len() - i,
{
    if i < s.len() && is_ws(s[i]) {
        lemma_ws_end_bounds(s, i + 1);
    }
}

/// Whether a line holds only whitespace.
pub open spec fn spec_is_blank(s: Seq<char>) -> bool {
    ws_end(s, 0) == s.len()
}

/// Whether a line's first non-whitespace characters are the comment
/// marker `//`.
pub open spec fn spec_is_comment(s: Seq<char>) -> bool {
    let i = ws_end(s, 0);
    i + 1 < s.len() && s[i] == '/' && s[i + 1] == '/'
}

/// What lexing one raw line returns.
pub open spec fn spec_lex(s: Seq<char>) -> Result<LexedResult, ParseError> {
    if spec_is_blank(s) || spec_is_comment(s) {
        Ok(LexedResult { command: None, skippable: true })
    } else {
        match spec_parse(s) {
            Ok(c) => Ok(LexedResult { command: Some(c), skippable: false }),
            Err(e) => Err(e),
        }
    }
}

/// Classifies one raw source line: a skip marker for blank and comment
/// lines, otherwise the parsed command or its parse error.
pub fn lex_line(line: &str) -> (r: Result<LexedResult, ParseError>)
    ensures
        r == spec_lex(line@),
{
    let n = line.unicode_len();
    let mut i: usize = 0;
    while i < n && is_ws_char(line.get_char(i))
        invariant
            n == line@.len(),
            i <= n,
            ws_end(line@, 0) == ws_end(line@, i as int),
        decreases n - i,
    {
        i = i + 1;
    }
    proof {
        assert(ws_end(line@, 0) == i as int);
    }
    if i == n {
        return Ok(LexedResult { command: None, skippable: true });
    }
    if i + 1 < n {
        let c0 = line.get_char(i);
        let c1 = line.get_char(i + 1);
        if c0 == '/' && c1 == '/' {
            return Ok(LexedResult { command: None, skippable: true });
        }
    }
    match Command::from(line) {
        Ok(c) => Ok(LexedResult { command: Some(c), skippable: false }),
        Err(e) => Err(e),
    }
}

/// A line of nothing but whitespace has no tokens, so the parser rejects
/// it with `EmptyLine`: it handles blank input defensively even when the
/// lexer has not filtered it out first.
pub proof fn lemma_blank_line_parses_empty(s: Seq<char>)
    requires
        spec_is_blank(s),
    ensures
        spec_parse(s) == Err::<Command, ParseError>(ParseError::EmptyLine),
{
    lemma_ws_end_bounds(s, 0);
    lemma_tokens_of_ws(s, 0);
    assert(tokens(s).len() == 0);
}

/// Blank lines and comment lines lex to the skip marker: they carry no
/// command and are never an error, so they are never handed to the code
/// generator.
pub proof fn lemma_skip_lines(s: Seq<char>)
    requires
        spec_is_blank(s) || spec_is_comment(s),
    ensures
        spec_lex(s) == Ok::<LexedResult, ParseError>(LexedResult { command: None, skippable: true }),
{
}

} // verus!
