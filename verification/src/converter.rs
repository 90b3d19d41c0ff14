//! The code generator: from parsed commands to Hack assembly text.
//!
//! Every emission is specified exactly, as a function of the command, the
//! generator's translation-unit name, and its label counters. The
//! counters exist so that the branch labels of the comparison commands
//! (`eq`, `gt`, `lt`) are unique across one translation run; the `pop`
//! scratch-cell counter is keyed by command kind alone, so two pops of
//! the same target still get fresh scratch names.

use vstd::prelude::*;
use vstd::string::*;

use crate::command::{spec_segment_name, Command, Segment};
use crate::text::{
    all_digits,
    dec_digits,
    is_digit,
    lemma_dec_digits_injective,
    lemma_dec_digits_val,
    u64_to_string,
};

verus! {

/// The code generator's only failure: the constant segment is not
/// addressable storage, so it cannot be popped.
#[derive(Debug, Clone, Copy, PartialEq, Eq, Structural)]
pub enum GenerationError {
    InvalidPop,
}

impl GenerationError {
    /// The message reported for this error, matching the wording the
    /// translator prints.
    pub fn message(&self) -> (r: &'static str)
        ensures
            r@ == "Cannot pop constant"@,
    {
        "Cannot pop constant"
    }
}

/// Whether a segment is addressed through a base pointer held in a fixed
/// cell.
pub open spec fn is_indirect(seg: Segment) -> bool {
    seg is Argument || seg is Local || seg is This || seg is That
}

/// The Hack symbol holding the base pointer of an indirect segment; the
/// empty string for the segments that have no such pointer.
pub open spec fn spec_segment_label(seg: Segment) -> Seq<char> {
    match seg {
        Segment::Argument => "ARG"@,
        Segment::Local => "LCL"@,
        Segment::This => "THIS"@,
        Segment::That => "THAT"@,
        _ => Seq::empty(),
    }
}

/// Exec mirror of [`spec_segment_label`].
pub fn get_segment_label(segment: &Segment) -> (r: String)
    ensures
        r@ == spec_segment_label(*segment),
{
    match segment {
        Segment::Argument => String::from_str("ARG"),
        Segment::Local => String::from_str("LCL"),
        Segment::This => String::from_str("THIS"),
        Segment::That => String::from_str("THAT"),
        _ => String::new(),
    }
}

/// Code that leaves the target address of a non-constant `push`/`pop` in
/// register D: base pointer plus index for the indirect segments, fixed
/// base 5 plus index for `temp`, fixed base 3 (the cells holding the
/// `this`/`that` pointers) plus index for `pointer`, and the named cell
/// `<unit>.<index>` for `static`.
pub open spec fn spec_addr_text(unit: Seq<char>, seg: Segment, idx: u16) -> Seq<char> {
    if is_indirect(seg) {
        "@"@ + spec_segment_label(seg) + "\nD=M\n@"@ + dec_digits(idx as nat) + "\nD=D+A\n"@
    } else if seg is Temp {
        "@5\nD=A\n@"@ + dec_digits(idx as nat) + "\nD=D+A\n"@
    } else if seg is Pointer {
        "@3\nD=A\n@"@ + dec_digits(idx as nat) + "\nD=D+A\n"@
    } else if seg is Static {
        "@"@ + unit + "."@ + dec_digits(idx as nat) + "\nD=A\n"@
    } else {
        Seq::empty()
    }
}

/// Code that leaves the pushed value in register D: the index itself for
/// `constant`, the contents of the named static cell for `static`, and a
/// dereference of the computed address otherwise.
pub open spec fn spec_load_text(unit: Seq<char>, seg: Segment, idx: u16) -> Seq<char> {
    if seg is Constant {
        "@"@ + dec_digits(idx as nat) + "\nD=A\n"@
    } else if seg is Static {
        "@"@ + unit + "."@ + dec_digits(idx as nat) + "\nD=M\n"@
    } else {
        spec_addr_text(unit, seg, idx) + "A=D\nD=M\n"@
    }
}

/// The translation of `push <segment> <index>`: a trace comment, code
/// leaving the value in D, then code storing D at the stack top and
/// advancing the stack pointer.
pub open spec fn spec_push_text(unit: Seq<char>, seg: Segment, idx: u16) -> Seq<char> {
    "//push "@ + spec_segment_name(seg) + " "@ + dec_digits(idx as nat) + "\n"@ + spec_load_text(
        unit,
        seg,
        idx,
    ) + "@SP\nA=M\nM=D\n@SP\nM=M+1\n"@
}

/// The first scratch cell of a `pop`, holding the popped value while the
/// destination address is computed: the fixed cell `tmp` for `temp`, a
/// counter-suffixed cell otherwise.
pub open spec fn spec_scratch1(seg: Segment, n: u64) -> Seq<char> {
    if seg is Temp {
        "tmp"@
    } else {
        "tmp."@ + dec_digits(n as nat)
    }
}

/// The second scratch cell of a `pop`, holding the destination address.
pub open spec fn spec_scratch2(seg: Segment, n: u64) -> Seq<char> {
    if seg is Temp {
        "tmp2"@
    } else {
        "tmp2."@ + dec_digits(n as nat)
    }
}

/// The translation of `pop <segment> <index>` for a non-constant
/// segment: a trace comment, code popping the stack top into the first
/// scratch cell, code leaving the destination address in D, then code
/// storing the address in the second scratch cell and copying the saved
/// value through it. Two scratch cells are needed because the address
/// computation and the popped value would otherwise clobber each other
/// in the machine's single D register.
pub open spec fn spec_pop_text(unit: Seq<char>, seg: Segment, idx: u16, n: u64) -> Seq<char> {
    "//pop "@ + spec_segment_name(seg) + " "@ + dec_digits(idx as nat) + "\n"@
        + "@SP\nM=M-1\nA=M\nD=M\n@"@ + spec_scratch1(seg, n) + "\nM=D\n"@ + spec_addr_text(
        unit,
        seg,
        idx,
    ) + "@"@ + spec_scratch2(seg, n) + "\nM=D\n@"@ + spec_scratch1(seg, n) + "\nD=M\n@"@
        + spec_scratch2(seg, n) + "\nA=M\nM=D\n"@
}

/// The translation of `add`: pop two values, leave their sum at the new
/// stack top (the pointer retreats by one net).
pub open spec fn spec_add_text() -> Seq<char> {
    "//add\n@SP\nM=M-1\nA=M\nD=M\nA=A-1\nM=D+M\n"@
}

/// The translation of `sub`: like `add`, leaving `second - first`.
pub open spec fn spec_sub_text() -> Seq<char> {
    "//sub\n@SP\nM=M-1\nA=M\nD=M\nA=A-1\nM=M-D\n"@
}

/// The translation of `and`: like `add`, with bitwise and.
pub open spec fn spec_and_text() -> Seq<char> {
    "//and\n@SP\nM=M-1\nA=M\nD=M\nA=A-1\nM=D&M\n"@
}

/// The translation of `or`: like `add`, with bitwise or.
pub open spec fn spec_or_text() -> Seq<char> {
    "//or\n@SP\nM=M-1\nA=M\nD=M\nA=A-1\nM=D|M\n"@
}

/// The translation of `neg`: negate the stack top in place; the stack
/// pointer does not move.
pub open spec fn spec_neg_text() -> Seq<char> {
    "//neg\n@SP\nA=M-1\nM=-M\n"@
}

/// The translation of `not`: complement the stack top in place.
pub open spec fn spec_not_text() -> Seq<char> {
    "//not\n@SP\nA=M-1\nM=!M\n"@
}

/// Whether a command is one of the three comparisons, which need branch
/// labels.
pub open spec fn is_cmp(cmd: Command) -> bool {
    cmd is Eq || cmd is Gt || cmd is Lt
}

/// The label prefixes of a comparison emission: the true-branch target,
/// the false-branch target, and the join label, each ending in `'.'`
/// before the counter digits.
pub open spec fn spec_cmp_prefix(cmd: Command, i: int) -> Seq<char> {
    match cmd {
        Command::Eq => if i == 0 {
            "IsEqual."@
        } else if i == 1 {
            "NotEqual."@
        } else {
            "EqEnd."@
        },
        Command::Gt => if i == 0 {
            "IsGreaterThan."@
        } else if i == 1 {
            "NotGreaterThan."@
        } else {
            "GtEnd."@
        },
        Command::Lt => if i == 0 {
            "IsLessThan."@
        } else if i == 1 {
            "NotLessThan."@
        } else {
            "LtEnd."@
        },
        _ => Seq::empty(),
    }
}

/// The three branch labels of the emission of a comparison command whose
/// counter stands at `n`.
pub open spec fn spec_cmp_labels(cmd: Command, n: u64) -> Seq<Seq<char>> {
    Seq::new(3, |i: int| spec_cmp_prefix(cmd, i) + dec_digits(n as nat))
}

/// The trace comment of a comparison emission.
pub open spec fn spec_cmp_comment(cmd: Command) -> Seq<char> {
    match cmd {
        Command::Eq => "//eq\n"@,
        Command::Gt => "//gt\n"@,
        Command::Lt => "//lt\n"@,
        _ => Seq::empty(),
    }
}

/// The conditional jump taken when the comparison holds.
pub open spec fn spec_cmp_jump_true(cmd: Command) -> Seq<char> {
    match cmd {
        Command::Eq => "D;JEQ\n"@,
        Command::Gt => "D;JGT\n"@,
        Command::Lt => "D;JLT\n"@,
        _ => Seq::empty(),
    }
}

/// The conditional jump taken when the comparison fails.
pub open spec fn spec_cmp_jump_false(cmd: Command) -> Seq<char> {
    match cmd {
        Command::Eq => "D;JNE\n"@,
        Command::Gt => "D;JLE\n"@,
        Command::Lt => "D;JGE\n"@,
        _ => Seq::empty(),
    }
}

/// The translation of a comparison: pop two values, subtract, branch to
/// push all-ones when the comparison holds and zero when it fails, then
/// advance the stack pointer past the result. The three labels of
/// [`spec_cmp_labels`] are each defined once in this text.
pub open spec fn spec_cmp_text(cmd: Command, n: u64) -> Seq<char> {
    let labs = spec_cmp_labels(cmd, n);
    spec_cmp_comment(cmd) + "@SP\nM=M-1\nA=M\nD=M\n@SP\nM=M-1\nA=M\nD=M-D\n@"@ + labs[0] + "\n"@
        + spec_cmp_jump_true(cmd) + "@"@ + labs[1] + "\n"@ + spec_cmp_jump_false(cmd) + "("@
        + labs[0] + ")\n@SP\nA=M\nM=-1\n@"@ + labs[2] + "\n0;JMP\n("@ + labs[1]
        + ")\n@SP\nA=M\nM=0\n("@ + labs[2] + ")\n@SP\nM=M+1\n"@
}

/// The view of an emission result: the text's characters.
pub open spec fn emitted_view(r: Result<String, GenerationError>) -> Result<
    Seq<char>,
    GenerationError,
> {
    match r {
        Ok(s) => Ok(s@),
        Err(e) => Err(e),
    }
}

/// A code generator from commands to target assembly text.
///
/// The spec functions give an implementation's mathematical meaning: the
/// text an emission returns and the successor state it leaves behind.
/// `convert` must return exactly the specified text and step the state
/// exactly as specified, so one instruction's output depends on the
/// instructions before it only through that state.
pub trait Converter: Sized {
    /// Whether the generator can still emit: its label counters have not
    /// reached their bound.
    spec fn emit_ready(&self) -> bool;

    /// The text (or failure) that emitting `command` returns.
    spec fn emit_spec(&self, command: Command) -> Result<Seq<char>, GenerationError>;

    /// The generator state after emitting `command`.
    spec fn step_spec(&self, command: Command) -> Self;

    /// Translates one command to assembly text, updating label counters.
    fn convert(&mut self, command: Command) -> (r: Result<String, GenerationError>)
        requires
            old(self).emit_ready(),
        ensures
            *final(self) == old(self).step_spec(command),
            emitted_view(r) == old(self).emit_spec(command),
    ;
}

/// The Hack code generator. It owns the counters that keep generated
/// labels and scratch cells unique within one translation run, and the
/// name of the translation unit, which prefixes the cells backing the
/// `static` segment.
#[derive(Debug)]
pub struct HackConverter {
    /// Counter of `eq` emissions, starting at 1.
    pub eq_count: u64,
    /// Counter of `gt` emissions, starting at 1.
    pub gt_count: u64,
    /// Counter of `lt` emissions, starting at 1.
    pub lt_count: u64,
    /// Counter of non-constant, non-temp `pop` emissions, starting at 1.
    /// It is keyed by command kind alone, so two pops of the same target
    /// still get distinct scratch-cell names.
    pub pop_count: u64,
    /// The translation unit's name; static cell `i` is `<unit>.<i>`.
    pub unit: String,
}

impl HackConverter {
    /// A fresh generator for a translation unit named `Main`, with every
    /// counter at its starting value.
    pub fn new() -> (r: HackConverter)
        ensures
            r.eq_count == 1 && r.gt_count == 1 && r.lt_count == 1 && r.pop_count == 1,
            r.unit@ == "Main"@,
    {
        HackConverter {
            eq_count: 1,
            gt_count: 1,
            lt_count: 1,
            pop_count: 1,
            unit: String::from_str("Main"),
        }
    }

    /// A fresh generator for the translation unit named `unit`.
    pub fn with_unit(unit: String) -> (r: HackConverter)
        ensures
            r.eq_count == 1 && r.gt_count == 1 && r.lt_count == 1 && r.pop_count == 1,
            r.unit@ == unit@,
    {
        HackConverter { eq_count: 1, gt_count: 1, lt_count: 1, pop_count: 1, unit }
    }

    /// Whether another command can be emitted without a counter
    /// overflowing; unverified callers test this before `convert`.
    pub fn can_emit(&self) -> (r: bool)
        ensures
            r == self.emit_ready(),
    {
        self.eq_count < u64::MAX && self.gt_count < u64::MAX && self.lt_count < u64::MAX
            && self.pop_count < u64::MAX
    }

    /// Appends [`spec_addr_text`] for a non-constant segment.
    fn append_addr(&self, s: &mut String, segment: Segment, idx: u16)
        requires
            !(segment is Constant),
        ensures
            final(s)@ == old(s)@ + spec_addr_text(self.unit@, segment, idx),
    {
        let d = u64_to_string(idx as u64);
        match segment {
            Segment::Temp => {
                s.append("@5\nD=A\n@");
                s.append(d.as_str());
                s.append("\nD=D+A\n");
            },
            Segment::Pointer => {
                s.append("@3\nD=A\n@");
                s.append(d.as_str());
                s.append("\nD=D+A\n");
            },
            Segment::Static => {
                s.append("@");
                s.append(self.unit.as_str());
                s.append(".");
                s.append(d.as_str());
                s.append("\nD=A\n");
            },
            _ => {
                let label = get_segment_label(&segment);
                s.append("@");
                s.append(label.as_str());
                s.append("\nD=M\n@");
                s.append(d.as_str());
                s.append("\nD=D+A\n");
            },
        }
        proof {
            assert(s@ =~= old(s)@ + spec_addr_text(self.unit@, segment, idx));
        }
    }

    /// Translates `push <segment> <idx>`; it succeeds for every segment
    /// and index and leaves the generator untouched.
    pub fn convert_push(&self, segment: Segment, idx: u16) -> (r: Result<String, GenerationError>)
        ensures
            emitted_view(r) == Ok::<Seq<char>, GenerationError>(
                spec_push_text(self.unit@, segment, idx),
            ),
    {
        match segment {
            Segment::Constant => {
                let r = convert_push_constant(idx);
                proof {
                    assert(spec_push_text(self.unit@, segment, idx) =~= spec_push_text(
                        Seq::empty(),
                        segment,
                        idx,
                    ));
                }
                Ok(r)
            },
            Segment::Temp => {
                let r = convert_push_temp(idx);
                proof {
                    assert(spec_push_text(self.unit@, segment, idx) =~= spec_push_text(
                        Seq::empty(),
                        segment,
                        idx,
                    ));
                }
                Ok(r)
            },
            Segment::Static => {
                let mut s = String::new();
                s.append("//push ");
                s.append(segment.name());
                s.append(" ");
                let d = u64_to_string(idx as u64);
                s.append(d.as_str());
                s.append("\n");
                s.append("@");
                s.append(self.unit.as_str());
                s.append(".");
                s.append(d.as_str());
                s.append("\nD=M\n");
                s.append("@SP\nA=M\nM=D\n@SP\nM=M+1\n");
                proof {
                    assert(s@ =~= spec_push_text(self.unit@, segment, idx));
                }
                Ok(s)
            },
            _ => {
                let mut s = String::new();
                s.append("//push ");
                s.append(segment.name());
                s.append(" ");
                let d = u64_to_string(idx as u64);
                s.append(d.as_str());
                s.append("\n");
                self.append_addr(&mut s, segment, idx);
                s.append("A=D\nD=M\n");
                s.append("@SP\nA=M\nM=D\n@SP\nM=M+1\n");
                proof {
                    assert(s@ =~= spec_push_text(self.unit@, segment, idx));
                }
                Ok(s)
            },
        }
    }

    /// Translates `pop <segment> <idx>`. Popping `constant` fails with
    /// `InvalidPop` and changes nothing; any other segment succeeds, and
    /// every one but `temp` consumes one value of the scratch-cell
    /// counter.
    pub fn convert_pop(&mut self, segment: Segment, idx: u16) -> (r: Result<
        String,
        GenerationError,
    >)
        requires
            old(self).pop_count < u64::MAX,
        ensures
            (if segment is Constant {
                emitted_view(r) == Err::<Seq<char>, GenerationError>(GenerationError::InvalidPop)
                    && *final(self) == *old(self)
            } else {
                emitted_view(r) == Ok::<Seq<char>, GenerationError>(
                    spec_pop_text(old(self).unit@, segment, idx, old(self).pop_count),
                ) && *final(self) == (if segment is Temp {
                    *old(self)
                } else {
                    HackConverter { pop_count: (old(self).pop_count + 1) as u64, ..*old(self) }
                })
            }),
    {
        match segment {
            Segment::Constant => Err(GenerationError::InvalidPop),
            Segment::Temp => {
                let r = convert_pop_temp(idx);
                proof {
                    assert(spec_pop_text(old(self).unit@, segment, idx, old(self).pop_count)
                        =~= spec_pop_text(Seq::empty(), segment, idx, 0));
                }
                Ok(r)
            },
            _ => {
                let n = self.pop_count;
                let nd = u64_to_string(n);
                let mut s = String::new();
                s.append("//pop ");
                s.append(segment.name());
                s.append(" ");
                let d = u64_to_string(idx as u64);
                s.append(d.as_str());
                s.append("\n");
                s.append("@SP\nM=M-1\nA=M\nD=M\n@");
                s.append("tmp.");
                s.append(nd.as_str());
                s.append("\nM=D\n");
                self.append_addr(&mut s, segment, idx);
                s.append("@");
                s.append("tmp2.");
                s.append(nd.as_str());
                s.append("\nM=D\n@");
                s.append("tmp.");
                s.append(nd.as_str());
                s.append("\nD=M\n@");
                s.append("tmp2.");
                s.append(nd.as_str());
                s.append("\nA=M\nM=D\n");
                self.pop_count = n + 1;
                proof {
                    assert(s@ =~= spec_pop_text(old(self).unit@, segment, idx, n));
                }
                Ok(s)
            },
        }
    }

    /// Translates `add`.
    pub fn convert_add(&self) -> (r: Result<String, GenerationError>)
        ensures
            emitted_view(r) == Ok::<Seq<char>, GenerationError>(spec_add_text()),
    {
        Ok(String::from_str("//add\n@SP\nM=M-1\nA=M\nD=M\nA=A-1\nM=D+M\n"))
    }

    /// Translates `sub`.
    pub fn convert_sub(&self) -> (r: Result<String, GenerationError>)
        ensures
            emitted_view(r) == Ok::<Seq<char>, GenerationError>(spec_sub_text()),
    {
        Ok(String::from_str("//sub\n@SP\nM=M-1\nA=M\nD=M\nA=A-1\nM=M-D\n"))
    }

    /// Translates `neg`.
    pub fn convert_neg(&self) -> (r: Result<String, GenerationError>)
        ensures
            emitted_view(r) == Ok::<Seq<char>, GenerationError>(spec_neg_text()),
    {
        Ok(String::from_str("//neg\n@SP\nA=M-1\nM=-M\n"))
    }

    /// Translates `and`.
    pub fn convert_and(&self) -> (r: Result<String, GenerationError>)
        ensures
            emitted_view(r) == Ok::<Seq<char>, GenerationError>(spec_and_text()),
    {
        Ok(String::from_str("//and\n@SP\nM=M-1\nA=M\nD=M\nA=A-1\nM=D&M\n"))
    }

    /// Translates `or`.
    pub fn convert_or(&self) -> (r: Result<String, GenerationError>)
        ensures
            emitted_view(r) == Ok::<Seq<char>, GenerationError>(spec_or_text()),
    {
        Ok(String::from_str("//or\n@SP\nM=M-1\nA=M\nD=M\nA=A-1\nM=D|M\n"))
    }

    /// Translates `not`.
    pub fn convert_not(&self) -> (r: Result<String, GenerationError>)
        ensures
            emitted_view(r) == Ok::<Seq<char>, GenerationError>(spec_not_text()),
    {
        Ok(String::from_str("//not\n@SP\nA=M-1\nM=!M\n"))
    }

    /// Translates `eq` with this emission's unique branch labels,
    /// advancing the `eq` label counter.
    pub fn convert_eq(&mut self) -> (r: Result<String, GenerationError>)
        requires
            old(self).eq_count < u64::MAX,
        ensures
            emitted_view(r) == Ok::<Seq<char>, GenerationError>(
                spec_cmp_text(Command::Eq, old(self).eq_count),
            ),
            *final(self) == (HackConverter { eq_count: (old(self).eq_count + 1) as u64, ..*old(self) }),
    {
        let n = self.eq_count;
        let nd = u64_to_string(n);
        let mut s = String::new();
        s.append("//eq\n");
        s.append("@SP\nM=M-1\nA=M\nD=M\n@SP\nM=M-1\nA=M\nD=M-D\n@");
        s.append("IsEqual.");
        s.append(nd.as_str());
        s.append("\n");
        s.append("D;JEQ\n");
        s.append("@");
        s.append("NotEqual.");
        s.append(nd.as_str());
        s.append("\n");
        s.append("D;JNE\n");
        s.append("(");
        s.append("IsEqual.");
        s.append(nd.as_str());
        s.append(")\n@SP\nA=M\nM=-1\n@");
        s.append("EqEnd.");
        s.append(nd.as_str());
        s.append("\n0;JMP\n(");
        s.append("NotEqual.");
        s.append(nd.as_str());
        s.append(")\n@SP\nA=M\nM=0\n(");
        s.append("EqEnd.");
        s.append(nd.as_str());
        s.append(")\n@SP\nM=M+1\n");
        self.eq_count = n + 1;
        proof {
            assert(s@ =~= spec_cmp_text(Command::Eq, n));
        }
        Ok(s)
    }

    /// Translates `gt` with this emission's unique branch labels,
    /// advancing the `gt` label counter.
    pub fn convert_gt(&mut self) -> (r: Result<String, GenerationError>)
        requires
            old(self).gt_count < u64::MAX,
        ensures
            emitted_view(r) == Ok::<Seq<char>, GenerationError>(
                spec_cmp_text(Command::Gt, old(self).gt_count),
            ),
            *final(self) == (HackConverter { gt_count: (old(self).gt_count + 1) as u64, ..*old(self) }),
    {
        let n = self.gt_count;
        let nd = u64_to_string(n);
        let mut s = String::new();
        s.append("//gt\n");
        s.append("@SP\nM=M-1\nA=M\nD=M\n@SP\nM=M-1\nA=M\nD=M-D\n@");
        s.append("IsGreaterThan.");
        s.append(nd.as_str());
        s.append("\n");
        s.append("D;JGT\n");
        s.append("@");
        s.append("NotGreaterThan.");
        s.append(nd.as_str());
        s.append("\n");
        s.append("D;JLE\n");
        s.append("(");
        s.append("IsGreaterThan.");
        s.append(nd.as_str());
        s.append(")\n@SP\nA=M\nM=-1\n@");
        s.append("GtEnd.");
        s.append(nd.as_str());
        s.append("\n0;JMP\n(");
        s.append("NotGreaterThan.");
        s.append(nd.as_str());
        s.append(")\n@SP\nA=M\nM=0\n(");
        s.append("GtEnd.");
        s.append(nd.as_str());
        s.append(")\n@SP\nM=M+1\n");
        self.gt_count = n + 1;
        proof {
            assert(s@ =~= spec_cmp_text(Command::Gt, n));
        }
        Ok(s)
    }

    /// Translates `lt` with this emission's unique branch labels,
    /// advancing the `lt` label counter.
    pub fn convert_lt(&mut self) -> (r: Result<String, GenerationError>)
        requires
            old(self).lt_count < u64::MAX,
        ensures
            emitted_view(r) == Ok::<Seq<char>, GenerationError>(
                spec_cmp_text(Command::Lt, old(self).lt_count),
            ),
            *final(self) == (HackConverter { lt_count: (old(self).lt_count + 1) as u64, ..*old(self) }),
    {
        let n = self.lt_count;
        let nd = u64_to_string(n);
        let mut s = String::new();
        s.append("//lt\n");
        s.append("@SP\nM=M-1\nA=M\nD=M\n@SP\nM=M-1\nA=M\nD=M-D\n@");
        s.append("IsLessThan.");
        s.append(nd.as_str());
        s.append("\n");
        s.append("D;JLT\n");
        s.append("@");
        s.append("NotLessThan.");
        s.append(nd.as_str());
        s.append("\n");
        s.append("D;JGE\n");
        s.append("(");
        s.append("IsLessThan.");
        s.append(nd.as_str());
        s.append(")\n@SP\nA=M\nM=-1\n@");
        s.append("LtEnd.");
        s.append(nd.as_str());
        s.append("\n0;JMP\n(");
        s.append("NotLessThan.");
        s.append(nd.as_str());
        s.append(")\n@SP\nA=M\nM=0\n(");
        s.append("LtEnd.");
        s.append(nd.as_str());
        s.append(")\n@SP\nM=M+1\n");
        self.lt_count = n + 1;
        proof {
            assert(s@ =~= spec_cmp_text(Command::Lt, n));
        }
        Ok(s)
    }
}

/// Translates `push constant <idx>`: the index is an immediate, so no
/// memory is read.
pub fn convert_push_constant(idx: u16) -> (r: String)
    ensures
        r@ == spec_push_text(Seq::empty(), Segment::Constant, idx),
{
    let mut s = String::new();
    s.append("//push ");
    s.append("constant");
    s.append(" ");
    let d = u64_to_string(idx as u64);
    s.append(d.as_str());
    s.append("\n");
    s.append("@");
    s.append(d.as_str());
    s.append("\nD=A\n");
    s.append("@SP\nA=M\nM=D\n@SP\nM=M+1\n");
    proof {
        assert(s@ =~= spec_push_text(Seq::empty(), Segment::Constant, idx));
    }
    s
}

/// Translates `push temp <idx>`: a direct load from cell `5 + idx`.
pub fn convert_push_temp(idx: u16) -> (r: String)
    ensures
        r@ == spec_push_text(Seq::empty(), Segment::Temp, idx),
{
    let mut s = String::new();
    s.append("//push ");
    s.append("temp");
    s.append(" ");
    let d = u64_to_string(idx as u64);
    s.append(d.as_str());
    s.append("\n");
    s.append("@5\nD=A\n@");
    s.append(d.as_str());
    s.append("\nD=D+A\n");
    s.append("A=D\nD=M\n");
    s.append("@SP\nA=M\nM=D\n@SP\nM=M+1\n");
    proof {
        assert(s@ =~= spec_push_text(Seq::empty(), Segment::Temp, idx));
    }
    s
}

/// Translates `pop temp <idx>`, using the fixed scratch cells `tmp` and
/// `tmp2`.
pub fn convert_pop_temp(idx: u16) -> (r: String)
    ensures
        r@ == spec_pop_text(Seq::empty(), Segment::Temp, idx, 0),
{
    let mut s = String::new();
    s.append("//pop ");
    s.append("temp");
    s.append(" ");
    let d = u64_to_string(idx as u64);
    s.append(d.as_str());
    s.append("\n");
    s.append("@SP\nM=M-1\nA=M\nD=M\n@");
    s.append("tmp");
    s.append("\nM=D\n");
    s.append("@5\nD=A\n@");
    s.append(d.as_str());
    s.append("\nD=D+A\n");
    s.append("@");
    s.append("tmp2");
    s.append("\nM=D\n@");
    s.append("tmp");
    s.append("\nD=M\n@");
    s.append("tmp2");
    s.append("\nA=M\nM=D\n");
    proof {
        assert(s@ =~= spec_pop_text(Seq::empty(), Segment::Temp, idx, 0));
    }
    s
}

impl Converter for HackConverter {
    /// Every label counter is below its bound, so an emission cannot
    /// overflow one.
    open spec fn emit_ready(&self) -> bool {
        self.eq_count < u64::MAX && self.gt_count < u64::MAX && self.lt_count < u64::MAX
            && self.pop_count < u64::MAX
    }

    open spec fn emit_spec(&self, command: Command) -> Result<Seq<char>, GenerationError> {
        match command {
            Command::Push { segment, index } => Ok(spec_push_text(self.unit@, segment, index)),
            Command::Pop { segment, index } => if segment is Constant {
                Err(GenerationError::InvalidPop)
            } else {
                Ok(spec_pop_text(self.unit@, segment, index, self.pop_count))
            },
            Command::Add => Ok(spec_add_text()),
            Command::Sub => Ok(spec_sub_text()),
            Command::Neg => Ok(spec_neg_text()),
            Command::Eq => Ok(spec_cmp_text(command, self.eq_count)),
            Command::Gt => Ok(spec_cmp_text(command, self.gt_count)),
            Command::Lt => Ok(spec_cmp_text(command, self.lt_count)),
            Command::And => Ok(spec_and_text()),
            Command::Or => Ok(spec_or_text()),
            Command::Not => Ok(spec_not_text()),
        }
    }

    open spec fn step_spec(&self, command: Command) -> HackConverter {
        match command {
            Command::Eq => HackConverter { eq_count: (self.eq_count + 1) as u64, ..*self },
            Command::Gt => HackConverter { gt_count: (self.gt_count + 1) as u64, ..*self },
            Command::Lt => HackConverter { lt_count: (self.lt_count + 1) as u64, ..*self },
            Command::Pop { segment, index } => if segment is Constant || segment is Temp {
                *self
            } else {
                HackConverter { pop_count: (self.pop_count + 1) as u64, ..*self }
            },
            _ => *self,
        }
    }

    fn convert(&mut self, command: Command) -> (r: Result<String, GenerationError>) {
        match command {
            Command::Push { segment, index } => self.convert_push(segment, index),
            Command::Pop { segment, index } => self.convert_pop(segment, index),
            Command::Add => self.convert_add(),
            Command::Sub => self.convert_sub(),
            Command::Neg => self.convert_neg(),
            Command::Eq => self.convert_eq(),
            Command::Gt => self.convert_gt(),
            Command::Lt => self.convert_lt(),
            Command::And => self.convert_and(),
            Command::Or => self.convert_or(),
            Command::Not => self.convert_not(),
        }
    }
}

/// Popping the constant segment always fails with `InvalidPop`, whatever
/// the generator's state and the index.
pub proof fn lemma_pop_constant_rejected(c: HackConverter, idx: u16)
    ensures
        c.emit_spec(Command::Pop { segment: Segment::Constant, index: idx }) == Err::<
            Seq<char>,
            GenerationError,
        >(GenerationError::InvalidPop),
{
}

/// Pushing never fails, whatever the segment and the index.
pub proof fn lemma_push_never_fails(c: HackConverter, segment: Segment, idx: u16)
    ensures
        c.emit_spec(Command::Push { segment, index: idx }) is Ok,
{
}

/// The label counter a comparison command draws from.
pub open spec fn cmp_counter(c: HackConverter, cmd: Command) -> u64 {
    match cmd {
        Command::Eq => c.eq_count,
        Command::Gt => c.gt_count,
        Command::Lt => c.lt_count,
        _ => 0,
    }
}

/// A label of the form `<prefix>.<digits>` determines its parts: two such
/// labels are equal only when both the dot-terminated prefixes and the
/// digit suffixes are.
proof fn lemma_dotted_label_distinct(p1: Seq<char>, d1: Seq<char>, p2: Seq<char>, d2: Seq<char>)
    requires
        p1.len() > 0,
        p2.len() > 0,
        p1.last() == '.',
        p2.last() == '.',
        all_digits(d1),
        all_digits(d2),
        p1 != p2 || d1 != d2,
    ensures
        p1 + d1 != p2 + d2,
{
    if p1 + d1 == p2 + d2 {
        assert((p1 + d1).len() == (p2 + d2).len());
        if p1.len() < p2.len() {
            let k = p2.len() - 1;
            assert((p2 + d2)[k] == '.');
            assert(k - p1.len() < d1.len());
            assert((p1 + d1)[k] == d1[k - p1.len()]);
            assert(is_digit(d1[k - p1.len()]));
        } else if p2.len() < p1.len() {
            let k = p1.len() - 1;
            assert((p1 + d1)[k] == '.');
            assert(k - p2.len() < d2.len());
            assert((p2 + d2)[k] == d2[k - p2.len()]);
            assert(is_digit(d2[k - p2.len()]));
        } else {
            assert forall|k: int| 0 <= k < p1.len() implies p1[k] == p2[k] by {
                assert((p1 + d1)[k] == p1[k]);
                assert((p2 + d2)[k] == p2[k]);
            }
            assert(p1 =~= p2);
            assert forall|k: int| 0 <= k < d1.len() implies d1[k] == d2[k] by {
                assert((p1 + d1)[p1.len() + k] == d1[k]);
                assert((p2 + d2)[p2.len() + k] == d2[k]);
            }
            assert(d1 =~= d2);
        }
    }
}

/// Branch-label uniqueness: two comparison labels coincide only when they
/// come from the same command kind, the same counter value, and the same
/// position in the label triple. In particular the three labels of one
/// emission are pairwise distinct, and two emissions with distinct
/// counter values share no label at all.
pub proof fn lemma_cmp_labels_distinct(c1: Command, n1: u64, c2: Command, n2: u64, i: int, j: int)
    requires
        is_cmp(c1),
        is_cmp(c2),
        0 <= i < 3,
        0 <= j < 3,
        c1 != c2 || n1 != n2 || i != j,
    ensures
        spec_cmp_labels(c1, n1)[i] != spec_cmp_labels(c2, n2)[j],
{
    reveal_strlit("IsEqual.");
    reveal_strlit("NotEqual.");
    reveal_strlit("EqEnd.");
    reveal_strlit("IsGreaterThan.");
    reveal_strlit("NotGreaterThan.");
    reveal_strlit("GtEnd.");
    reveal_strlit("IsLessThan.");
    reveal_strlit("NotLessThan.");
    reveal_strlit("LtEnd.");
    let p1 = spec_cmp_prefix(c1, i);
    let p2 = spec_cmp_prefix(c2, j);
    let d1 = dec_digits(n1 as nat);
    let d2 = dec_digits(n2 as nat);
    lemma_dec_digits_val(n1 as nat);
    lemma_dec_digits_val(n2 as nat);
    if n1 != n2 {
        lemma_dec_digits_injective(n1 as nat, n2 as nat);
    }
    assert(p1.len() > 0 && p1.last() == '.');
    assert(p2.len() > 0 && p2.last() == '.');
    assert(!(p1 == p2 && n1 == n2)) by {
        if p1 == p2 && n1 == n2 {
            assert(p1.len() == p2.len());
            assert(p1[0] == p2[0]);
            assert(p1[1] == p2[1]);
        }
    }
    lemma_dotted_label_distinct(p1, d1, p2, d2);
    assert(spec_cmp_labels(c1, n1)[i] == p1 + d1);
    assert(spec_cmp_labels(c2, n2)[j] == p2 + d2);
}

/// The two scratch cells of one pop emission are always distinct, for
/// every segment: the popped value and the destination address never
/// land in the same cell.
pub proof fn lemma_pop_scratch_pair_distinct(seg: Segment, n: u64)
    ensures
        spec_scratch1(seg, n) != spec_scratch2(seg, n),
{
    reveal_strlit("tmp");
    reveal_strlit("tmp2");
    reveal_strlit("tmp.");
    reveal_strlit("tmp2.");
    if seg is Temp {
        assert("tmp"@.len() == 3 && "tmp2"@.len() == 4);
    } else {
        let d = dec_digits(n as nat);
        lemma_dec_digits_val(n as nat);
        assert("tmp."@.len() == 4 && "tmp2."@.len() == 5);
        assert("tmp."@.last() == '.' && "tmp2."@.last() == '.');
        lemma_dotted_label_distinct("tmp."@, d, "tmp2."@, d);
    }
}

/// Scratch-cell uniqueness across emissions: two counted pop emissions
/// with distinct counter values share no scratch cell, so the emitted
/// text never reuses a scratch name within one run.
pub proof fn lemma_pop_scratch_distinct(seg1: Segment, n1: u64, seg2: Segment, n2: u64)
    requires
        !(seg1 is Temp),
        !(seg2 is Temp),
        n1 != n2,
    ensures
        spec_scratch1(seg1, n1) != spec_scratch1(seg2, n2),
        spec_scratch2(seg1, n1) != spec_scratch2(seg2, n2),
        spec_scratch1(seg1, n1) != spec_scratch2(seg2, n2),
{
    reveal_strlit("tmp.");
    reveal_strlit("tmp2.");
    let d1 = dec_digits(n1 as nat);
    let d2 = dec_digits(n2 as nat);
    lemma_dec_digits_val(n1 as nat);
    lemma_dec_digits_val(n2 as nat);
    lemma_dec_digits_injective(n1 as nat, n2 as nat);
    assert("tmp."@.len() == 4 && "tmp2."@.len() == 5);
    assert("tmp."@.last() == '.' && "tmp2."@.last() == '.');
    lemma_dotted_label_distinct("tmp."@, d1, "tmp."@, d2);
    lemma_dotted_label_distinct("tmp2."@, d1, "tmp2."@, d2);
    lemma_dotted_label_distinct("tmp."@, d1, "tmp2."@, d2);
}

/// Emitting the same comparison twice in a row yields two fully disjoint
/// label triples: the second emission draws the incremented counter, so
/// no generated label is ever defined twice in one run's output.
pub proof fn lemma_successive_cmp_labels_unique(c: HackConverter, cmd: Command, i: int, j: int)
    requires
        is_cmp(cmd),
        c.emit_ready(),
        0 <= i < 3,
        0 <= j < 3,
    ensures
        spec_cmp_labels(cmd, cmp_counter(c, cmd))[i] != spec_cmp_labels(
            cmd,
            cmp_counter(c.step_spec(cmd), cmd),
        )[j],
{
    lemma_cmp_labels_distinct(
        cmd,
        cmp_counter(c, cmd),
        cmd,
        cmp_counter(c.step_spec(cmd), cmd),
        i,
        j,
    );
}

} // verus!
