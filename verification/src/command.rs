//! The instruction model and the parser.
//!
//! A source line is split into whitespace-separated tokens; the first
//! token selects the instruction kind, and `push`/`pop` take a segment
//! name and a decimal index in `0..=65535`.

use vstd::prelude::*;
use vstd::string::*;

use crate::text::{
    all_digits,
    dec_digits,
    dec_val,
    is_digit,
    is_ws,
    lemma_dec_digits_val,
    lemma_dec_val_monotone,
    lemma_dec_val_take_step,
    lemma_digits_not_ws,
    lemma_tokens_of_three,
    str_eq,
    tokenize,
    tokens,
};

verus! {

/// A memory segment a `push` or `pop` instruction addresses.
#[derive(Debug, Clone, Copy, PartialEq, Eq, Structural)]
pub enum Segment {
    Argument,
    Local,
    Static,
    Constant,
    This,
    That,
    Pointer,
    Temp,
}

/// One parsed instruction.
#[derive(Debug, Clone, Copy, PartialEq, Eq, Structural)]
pub enum Command {
    Push { segment: Segment, index: u16 },
    Pop { segment: Segment, index: u16 },
    Add,
    Sub,
    Neg,
    Eq,
    Gt,
    Lt,
    And,
    Or,
    Not,
}

/// Why a source line failed to parse.
///
/// `MissingSegment` and `MissingIndex` record whether the truncated
/// instruction was a `pop`, so that the reported message can name it.
#[derive(Debug, Clone, Copy, PartialEq, Eq, Structural)]
pub enum ParseError {
    EmptyLine,
    UnknownCommand,
    MissingSegment { pop: bool },
    MissingIndex { pop: bool },
    UnknownSegment,
    InvalidIndex,
}

/// The lower-case segment name used in source text.
pub open spec fn spec_segment_name(seg: Segment) -> Seq<char> {
    match seg {
        Segment::Argument => "argument"@,
        Segment::Local => "local"@,
        Segment::Static => "static"@,
        Segment::Constant => "constant"@,
        Segment::This => "this"@,
        Segment::That => "that"@,
        Segment::Pointer => "pointer"@,
        Segment::Temp => "temp"@,
    }
}

/// The segment a token names, if any.
pub open spec fn spec_segment_of(tok: Seq<char>) -> Option<Segment> {
    if tok == "argument"@ {
        Some(Segment::Argument)
    } else if tok == "local"@ {
        Some(Segment::Local)
    } else if tok == "static"@ {
        Some(Segment::Static)
    } else if tok == "constant"@ {
        Some(Segment::Constant)
    } else if tok == "this"@ {
        Some(Segment::This)
    } else if tok == "that"@ {
        Some(Segment::That)
    } else if tok == "pointer"@ {
        Some(Segment::Pointer)
    } else if tok == "temp"@ {
        Some(Segment::Temp)
    } else {
        None
    }
}

impl Segment {
    /// The lower-case name of this segment in source text.
    pub fn name(&self) -> (r: &'static str)
        ensures
            r@ == spec_segment_name(*self),
    {
        match self {
            Segment::Argument => "argument",
            Segment::Local => "local",
            Segment::Static => "static",
            Segment::Constant => "constant",
            Segment::This => "this",
            Segment::That => "that",
            Segment::Pointer => "pointer",
            Segment::Temp => "temp",
        }
    }

    /// Parses a segment name token.
    pub fn from_name(tok: &str) -> (r: Option<Segment>)
        ensures
            r == spec_segment_of(tok@),
    {
        if str_eq(tok, "argument") {
            Some(Segment::Argument)
        } else if str_eq(tok, "local") {
            Some(Segment::Local)
        } else if str_eq(tok, "static") {
            Some(Segment::Static)
        } else if str_eq(tok, "constant") {
            Some(Segment::Constant)
        } else if str_eq(tok, "this") {
            Some(Segment::This)
        } else if str_eq(tok, "that") {
            Some(Segment::That)
        } else if str_eq(tok, "pointer") {
            Some(Segment::Pointer)
        } else if str_eq(tok, "temp") {
            Some(Segment::Temp)
        } else {
            None
        }
    }
}

/// The digit part of an index token: everything after an optional leading
/// `'+'`.
pub open spec fn spec_u16_digits(s: Seq<char>) -> Seq<char> {
    if s.len() > 0 && s[0] == '+' {
        s.drop_first()
    } else {
        s
    }
}

/// Whether a token denotes an unsigned 16-bit number the way
/// `u16::from_str` accepts one: an optional leading `'+'`, then one or
/// more decimal digits, with a value of at most 65535.
pub open spec fn is_u16_token(s: Seq<char>) -> bool {
    let d = spec_u16_digits(s);
    d.len() > 0 && all_digits(d) && dec_val(d) <= 0xffff
}

/// The number an index token denotes.
pub open spec fn spec_u16_val(s: Seq<char>) -> nat {
    dec_val(spec_u16_digits(s))
}

/// Parses an index token as an unsigned 16-bit number.
pub fn parse_u16(tok: &str) -> (r: Option<u16>)
    ensures
        (match r {
            Some(v) => is_u16_token(tok@) && v as nat == spec_u16_val(tok@),
            None => !is_u16_token(tok@),
        }),
{
    let n = tok.unicode_len();
    if n == 0 {
        return None;
    }
    let first = tok.get_char(0);
    let start: usize = if first == '+' {
        1
    } else {
        0
    };
    let ghost d = spec_u16_digits(tok@);
    proof {
        assert(d =~= tok@.skip(start as int));
    }
    if n == start {
        return None;
    }
    let mut i: usize = start;
    let mut val: u32 = 0;
    while i < n
        invariant
            n == tok@.len(),
            start <= i <= n,
            start <= 1,
            start < n,
            d == spec_u16_digits(tok@),
            d =~= tok@.skip(start as int),
            val <= 0xffff,
            val as nat == dec_val(d.take(i - start)),
            forall|m: int| 0 <= m < i - start ==> is_digit(#[trigger] d[m]),
        decreases n - i,
    {
        let c = tok.get_char(i);
        proof {
            assert(d[i - start] == tok@[i as int]);
        }
        let dv: u32 = if c == '0' {
            0
        } else if c == '1' {
            1
        } else if c == '2' {
            2
        } else if c == '3' {
            3
        } else if c == '4' {
            4
        } else if c == '5' {
            5
        } else if c == '6' {
            6
        } else if c == '7' {
            7
        } else if c == '8' {
            8
        } else if c == '9' {
            9
        } else {
            proof {
                assert(!is_digit(d[i - start]));
            }
            return None;
        };
        proof {
            assert(dv as nat == crate::text::digit_val(c));
            lemma_dec_val_take_step(d, i - start);
        }
        let next = val * 10 + dv;
        if next > 0xffff {
            proof {
                lemma_dec_val_monotone(d, i + 1 - start, d.len() as int);
                assert(d.take(d.len() as int) =~= d);
            }
            return None;
        }
        val = next;
        i = i + 1;
    }
    proof {
        assert(d.take(i - start) =~= d);
    }
    Some(val as u16)
}

/// What parsing means, as a function of the token list alone.
pub open spec fn spec_parse_tokens(toks: Seq<Seq<char>>) -> Result<Command, ParseError> {
    if toks.len() == 0 {
        Err(ParseError::EmptyLine)
    } else if toks[0] == "push"@ {
        spec_parse_push_pop(toks, false)
    } else if toks[0] == "pop"@ {
        spec_parse_push_pop(toks, true)
    } else if toks[0] == "add"@ {
        Ok(Command::Add)
    } else if toks[0] == "sub"@ {
        Ok(Command::Sub)
    } else if toks[0] == "neg"@ {
        Ok(Command::Neg)
    } else if toks[0] == "eq"@ {
        Ok(Command::Eq)
    } else if toks[0] == "gt"@ {
        Ok(Command::Gt)
    } else if toks[0] == "lt"@ {
        Ok(Command::Lt)
    } else if toks[0] == "and"@ {
        Ok(Command::And)
    } else if toks[0] == "or"@ {
        Ok(Command::Or)
    } else if toks[0] == "not"@ {
        Ok(Command::Not)
    } else {
        Err(ParseError::UnknownCommand)
    }
}

/// Parsing the operands of a `push` or `pop` from its token list.
pub open spec fn spec_parse_push_pop(toks: Seq<Seq<char>>, pop: bool) -> Result<
    Command,
    ParseError,
> {
    if toks.len() < 2 {
        Err(ParseError::MissingSegment { pop })
    } else if toks.len() < 3 {
        Err(ParseError::MissingIndex { pop })
    } else {
        match spec_segment_of(toks[1]) {
            Option::None => Err(ParseError::UnknownSegment),
            Option::Some(segment) => {
                if is_u16_token(toks[2]) {
                    if pop {
                        Ok(Command::Pop { segment, index: spec_u16_val(toks[2]) as u16 })
                    } else {
                        Ok(Command::Push { segment, index: spec_u16_val(toks[2]) as u16 })
                    }
                } else {
                    Err(ParseError::InvalidIndex)
                }
            },
        }
    }
}

/// What parsing a line of source text returns.
pub open spec fn spec_parse(s: Seq<char>) -> Result<Command, ParseError> {
    spec_parse_tokens(tokens(s))
}

impl Command {
    /// Parses one line of source text into a command.
    pub fn from(input: &str) -> (r: Result<Command, ParseError>)
        ensures
            r == spec_parse(input@),
    {
        let toks = tokenize(input);
        let ghost tv = tokens(input@);
        if toks.len() == 0 {
            return Err(ParseError::EmptyLine);
        }
        let first: &String = &toks[0];
        proof {
            assert(tv[0] == first@);
        }
        if str_eq(first.as_str(), "push") {
            Self::parse_push_pop(&toks, false)
        } else if str_eq(first.as_str(), "pop") {
            Self::parse_push_pop(&toks, true)
        } else if str_eq(first.as_str(), "add") {
            Ok(Command::Add)
        } else if str_eq(first.as_str(), "sub") {
            Ok(Command::Sub)
        } else if str_eq(first.as_str(), "neg") {
            Ok(Command::Neg)
        } else if str_eq(first.as_str(), "eq") {
            Ok(Command::Eq)
        } else if str_eq(first.as_str(), "gt") {
            Ok(Command::Gt)
        } else if str_eq(first.as_str(), "lt") {
            Ok(Command::Lt)
        } else if str_eq(first.as_str(), "and") {
            Ok(Command::And)
        } else if str_eq(first.as_str(), "or") {
            Ok(Command::Or)
        } else if str_eq(first.as_str(), "not") {
            Ok(Command::Not)
        } else {
            Err(ParseError::UnknownCommand)
        }
    }

    fn parse_push_pop(toks: &Vec<String>, pop: bool) -> (r: Result<Command, ParseError>)
        ensures
            r == spec_parse_push_pop(toks.deep_view(), pop),
    {
        let ghost tv = toks.deep_view();
        if toks.len() < 2 {
            return Err(ParseError::MissingSegment { pop });
        }
        if toks.len() < 3 {
            return Err(ParseError::MissingIndex { pop });
        }
        let seg_tok: &String = &toks[1];
        let idx_tok: &String = &toks[2];
        proof {
            assert(tv[1] == seg_tok@);
            assert(tv[2] == idx_tok@);
        }
        match Segment::from_name(seg_tok.as_str()) {
            Option::None => Err(ParseError::UnknownSegment),
            Option::Some(segment) => {
                match parse_u16(idx_tok.as_str()) {
                    Option::Some(index) => {
                        if pop {
                            Ok(Command::Pop { segment, index })
                        } else {
                            Ok(Command::Push { segment, index })
                        }
                    },
                    Option::None => Err(ParseError::InvalidIndex),
                }
            },
        }
    }
}

impl ParseError {
    /// The message reported for this error, matching the wording the
    /// translator prints.
    pub fn message(&self) -> (r: &'static str)
        ensures
            r@ == spec_parse_error_message(*self),
    {
        match self {
            ParseError::EmptyLine => "Empty line",
            ParseError::UnknownCommand => "Unknown command",
            ParseError::MissingSegment { pop } => {
                if *pop {
                    "pop missing segment"
                } else {
                    "push missing segment"
                }
            },
            ParseError::MissingIndex { pop } => {
                if *pop {
                    "pop missing index"
                } else {
                    "push missing index"
                }
            },
            ParseError::UnknownSegment => "Unknown segment",
            ParseError::InvalidIndex => "Invalid index",
        }
    }
}

/// Parsing depends only on the whitespace-separated tokens of the line:
/// two lines with the same tokens parse identically, so leading, trailing
/// and repeated whitespace never change the result.
pub proof fn lemma_parse_whitespace_insensitive(a: Seq<char>, b: Seq<char>)
    requires
        tokens(a) == tokens(b),
    ensures
        spec_parse(a) == spec_parse(b),
{
}

/// Segment names are nonempty words without whitespace.
proof fn lemma_segment_name_wordlike(seg: Segment)
    ensures
        spec_segment_name(seg).len() > 0,
        forall|i: int|
            0 <= i < spec_segment_name(seg).len() ==> !is_ws(#[trigger] spec_segment_name(seg)[i]),
{
    reveal_strlit("argument");
    reveal_strlit("local");
    reveal_strlit("static");
    reveal_strlit("constant");
    reveal_strlit("this");
    reveal_strlit("that");
    reveal_strlit("pointer");
    reveal_strlit("temp");
    let nm = spec_segment_name(seg);
    assert forall|i: int| 0 <= i < nm.len() implies !is_ws(nm[i]) by {
        assert(spec_segment_name(seg)[i] == nm[i]);
    }
}

/// Each segment name parses back to its segment.
proof fn lemma_segment_name_roundtrip(seg: Segment)
    ensures
        spec_segment_of(spec_segment_name(seg)) == Some(seg),
{
    reveal_strlit("argument");
    reveal_strlit("local");
    reveal_strlit("static");
    reveal_strlit("constant");
    reveal_strlit("this");
    reveal_strlit("that");
    reveal_strlit("pointer");
    reveal_strlit("temp");
    assert("argument"@.len() == 8);
    assert("local"@.len() == 5);
    assert("static"@.len() == 6);
    assert("constant"@.len() == 8);
    assert("this"@.len() == 4);
    assert("that"@.len() == 4);
    assert("pointer"@.len() == 7);
    assert("temp"@.len() == 4);
    assert("constant"@[0] == 'c' && "argument"@[0] == 'a');
    assert("this"@[2] == 'i' && "that"@[2] == 'a');
    assert("temp"@[1] == 'e' && "this"@[1] == 'h' && "that"@[1] == 'h');
}

/// Every well-formed `push`/`pop` line parses back to its command: for
/// any segment and any index within `0..=65535`, the line
/// `<push-or-pop> <segment-name> <index>` yields exactly that command.
pub proof fn lemma_parse_push_pop_roundtrip(pop: bool, segment: Segment, index: u16)
    ensures
        spec_parse(
            (if pop {
                "pop"@
            } else {
                "push"@
            }) + " "@ + spec_segment_name(segment) + " "@ + dec_digits(index as nat),
        ) == Ok::<Command, ParseError>(
            (if pop {
                Command::Pop { segment, index }
            } else {
                Command::Push { segment, index }
            }),
        ),
{
    reveal_strlit("push");
    reveal_strlit("pop");
    let kw: Seq<char> = if pop {
        "pop"@
    } else {
        "push"@
    };
    let nm = spec_segment_name(segment);
    let d = dec_digits(index as nat);
    let s = kw + " "@ + nm + " "@ + d;
    lemma_segment_name_wordlike(segment);
    lemma_dec_digits_val(index as nat);
    lemma_digits_not_ws(d);
    assert forall|i: int| 0 <= i < kw.len() implies !is_ws(kw[i]) by {}
    lemma_tokens_of_three(kw, nm, d);
    let toks = tokens(s);
    assert(toks.len() == 3 && toks[0] == kw && toks[1] == nm && toks[2] == d);
    lemma_segment_name_roundtrip(segment);
    assert(is_digit(d[0]));
    assert(d[0] != '+');
    assert(spec_u16_digits(d) == d);
    assert(is_u16_token(d));
    assert(spec_u16_val(d) == index as nat);
    if pop {
        assert(kw != "push"@);
    }
}

/// A `push`/`pop` line whose index token is not an in-range number — a
/// word of non-digits, a negative number, or a value above 65535 — is
/// rejected with `InvalidIndex`.
pub proof fn lemma_parse_bad_index(pop: bool, segment: Segment, w: Seq<char>)
    requires
        w.len() > 0,
        forall|i: int| 0 <= i < w.len() ==> !is_ws(#[trigger] w[i]),
        !is_u16_token(w),
    ensures
        spec_parse(
            (if pop {
                "pop"@
            } else {
                "push"@
            }) + " "@ + spec_segment_name(segment) + " "@ + w,
        ) == Err::<Command, ParseError>(ParseError::InvalidIndex),
{
    reveal_strlit("push");
    reveal_strlit("pop");
    let kw: Seq<char> = if pop {
        "pop"@
    } else {
        "push"@
    };
    let nm = spec_segment_name(segment);
    let s = kw + " "@ + nm + " "@ + w;
    lemma_segment_name_wordlike(segment);
    assert forall|i: int| 0 <= i < kw.len() implies !is_ws(kw[i]) by {}
    lemma_tokens_of_three(kw, nm, w);
    let toks = tokens(s);
    assert(toks.len() == 3 && toks[0] == kw && toks[1] == nm && toks[2] == w);
    lemma_segment_name_roundtrip(segment);
    if pop {
        assert(kw != "push"@);
    }
}

/// A `push`/`pop` line whose segment token names none of the eight
/// segments is rejected with `UnknownSegment`, whatever its index token.
pub proof fn lemma_parse_unknown_segment(pop: bool, w: Seq<char>, idx: Seq<char>)
    requires
        w.len() > 0,
        forall|i: int| 0 <= i < w.len() ==> !is_ws(#[trigger] w[i]),
        spec_segment_of(w) is None,
        idx.len() > 0,
        forall|i: int| 0 <= i < idx.len() ==> !is_ws(#[trigger] idx[i]),
    ensures
        spec_parse(
            (if pop {
                "pop"@
            } else {
                "push"@
            }) + " "@ + w + " "@ + idx,
        ) == Err::<Command, ParseError>(ParseError::UnknownSegment),
{
    reveal_strlit("push");
    reveal_strlit("pop");
    let kw: Seq<char> = if pop {
        "pop"@
    } else {
        "push"@
    };
    let s = kw + " "@ + w + " "@ + idx;
    assert forall|i: int| 0 <= i < kw.len() implies !is_ws(kw[i]) by {}
    lemma_tokens_of_three(kw, w, idx);
    let toks = tokens(s);
    assert(toks.len() == 3 && toks[0] == kw && toks[1] == w && toks[2] == idx);
    if pop {
        assert(kw != "push"@);
    }
}

/// The message text for each parse error.
pub open spec fn spec_parse_error_message(e: ParseError) -> Seq<char> {
    match e {
        ParseError::EmptyLine => "Empty line"@,
        ParseError::UnknownCommand => "Unknown command"@,
        ParseError::MissingSegment { pop } => {
            if pop {
                "pop missing segment"@
            } else {
                "push missing segment"@
            }
        },
        ParseError::MissingIndex { pop } => {
            if pop {
                "pop missing index"@
            } else {
                "push missing index"@
            }
        },
        ParseError::UnknownSegment => "Unknown segment"@,
        ParseError::InvalidIndex => "Invalid index"@,
    }
}

} // verus!
