use vtranslate::command::{Command, Segment};
use vtranslate::converter::{
    convert_pop_temp, convert_push_constant, convert_push_temp, get_segment_label, Converter,
    GenerationError, HackConverter,
};
use vtranslate::lexer::lex_line;

/// Runs the driver loop over raw lines: skip blank/comment lines, parse
/// the rest, and hand each command to the converter.
fn translate_lines(lines: &[&str]) -> Result<Vec<String>, String> {
    let mut converter = HackConverter::with_unit(String::from("Test"));
    let mut out = Vec::new();
    for line in lines {
        let lexed = lex_line(line).map_err(|e| e.message().to_string())?;
        if lexed.skippable {
            continue;
        }
        let command = lexed.command.ok_or_else(|| "Command not found".to_string())?;
        if !converter.can_emit() {
            return Err("label counter exhausted".to_string());
        }
        let converted = converter
            .convert(command)
            .map_err(|e| e.message().to_string())?;
        out.push(converted);
    }
    Ok(out)
}

#[test]
fn test_convert_push_constant_snapshot() {
    assert_eq!(
        convert_push_constant(7),
        "//push constant 7\n@7\nD=A\n@SP\nA=M\nM=D\n@SP\nM=M+1\n"
    );
    assert_eq!(
        convert_push_constant(65535),
        "//push constant 65535\n@65535\nD=A\n@SP\nA=M\nM=D\n@SP\nM=M+1\n"
    );
}

#[test]
fn test_convert_push_segment_snapshots() {
    let converter = HackConverter::with_unit(String::from("Foo"));
    assert_eq!(
        converter.convert_push(Segment::Local, 5).unwrap(),
        "//push local 5\n@LCL\nD=M\n@5\nD=D+A\nA=D\nD=M\n@SP\nA=M\nM=D\n@SP\nM=M+1\n"
    );
    assert_eq!(
        converter.convert_push(Segment::Argument, 2).unwrap(),
        "//push argument 2\n@ARG\nD=M\n@2\nD=D+A\nA=D\nD=M\n@SP\nA=M\nM=D\n@SP\nM=M+1\n"
    );
    assert_eq!(
        converter.convert_push(Segment::This, 3).unwrap(),
        "//push this 3\n@THIS\nD=M\n@3\nD=D+A\nA=D\nD=M\n@SP\nA=M\nM=D\n@SP\nM=M+1\n"
    );
    assert_eq!(
        converter.convert_push(Segment::That, 4).unwrap(),
        "//push that 4\n@THAT\nD=M\n@4\nD=D+A\nA=D\nD=M\n@SP\nA=M\nM=D\n@SP\nM=M+1\n"
    );
    assert_eq!(
        converter.convert_push(Segment::Temp, 6).unwrap(),
        "//push temp 6\n@5\nD=A\n@6\nD=D+A\nA=D\nD=M\n@SP\nA=M\nM=D\n@SP\nM=M+1\n"
    );
    assert_eq!(
        converter.convert_push(Segment::Pointer, 1).unwrap(),
        "//push pointer 1\n@3\nD=A\n@1\nD=D+A\nA=D\nD=M\n@SP\nA=M\nM=D\n@SP\nM=M+1\n"
    );
    assert_eq!(
        converter.convert_push(Segment::Static, 3).unwrap(),
        "//push static 3\n@Foo.3\nD=M\n@SP\nA=M\nM=D\n@SP\nM=M+1\n"
    );
    // The free helpers agree with the method.
    assert_eq!(
        convert_push_temp(6),
        converter.convert_push(Segment::Temp, 6).unwrap()
    );
}

#[test]
fn test_convert_pop_snapshots() {
    let mut converter = HackConverter::with_unit(String::from("Foo"));
    assert_eq!(
        converter.convert_pop(Segment::Local, 2).unwrap(),
        "//pop local 2\n@SP\nM=M-1\nA=M\nD=M\n@tmp.1\nM=D\n@LCL\nD=M\n@2\nD=D+A\n@tmp2.1\nM=D\n@tmp.1\nD=M\n@tmp2.1\nA=M\nM=D\n"
    );
    // The scratch-cell counter is keyed by command kind alone: a pop of a
    // different segment still draws the next counter value.
    assert_eq!(
        converter.convert_pop(Segment::Argument, 2).unwrap(),
        "//pop argument 2\n@SP\nM=M-1\nA=M\nD=M\n@tmp.2\nM=D\n@ARG\nD=M\n@2\nD=D+A\n@tmp2.2\nM=D\n@tmp.2\nD=M\n@tmp2.2\nA=M\nM=D\n"
    );
    // The same pop target again gets a fresh counter value too.
    assert_eq!(
        converter.convert_pop(Segment::Local, 2).unwrap(),
        "//pop local 2\n@SP\nM=M-1\nA=M\nD=M\n@tmp.3\nM=D\n@LCL\nD=M\n@2\nD=D+A\n@tmp2.3\nM=D\n@tmp.3\nD=M\n@tmp2.3\nA=M\nM=D\n"
    );
    // A temp pop uses the fixed scratch cells and leaves the counter
    // untouched.
    assert_eq!(
        converter.convert_pop(Segment::Temp, 3).unwrap(),
        "//pop temp 3\n@SP\nM=M-1\nA=M\nD=M\n@tmp\nM=D\n@5\nD=A\n@3\nD=D+A\n@tmp2\nM=D\n@tmp\nD=M\n@tmp2\nA=M\nM=D\n"
    );
    assert_eq!(convert_pop_temp(3), converter.convert_pop(Segment::Temp, 3).unwrap());
    assert_eq!(
        converter.convert_pop(Segment::Pointer, 0).unwrap(),
        "//pop pointer 0\n@SP\nM=M-1\nA=M\nD=M\n@tmp.4\nM=D\n@3\nD=A\n@0\nD=D+A\n@tmp2.4\nM=D\n@tmp.4\nD=M\n@tmp2.4\nA=M\nM=D\n"
    );
    assert_eq!(
        converter.convert_pop(Segment::Static, 8).unwrap(),
        "//pop static 8\n@SP\nM=M-1\nA=M\nD=M\n@tmp.5\nM=D\n@Foo.8\nD=A\n@tmp2.5\nM=D\n@tmp.5\nD=M\n@tmp2.5\nA=M\nM=D\n"
    );
}

#[test]
fn test_pop_constant_fails_push_constant_succeeds() {
    let mut converter = HackConverter::new();
    for idx in [0u16, 1, 7, 65535] {
        assert_eq!(
            converter.convert_pop(Segment::Constant, idx),
            Err(GenerationError::InvalidPop)
        );
        assert!(converter.convert_push(Segment::Constant, idx).is_ok());
    }
    assert_eq!(
        GenerationError::InvalidPop.message(),
        "Cannot pop constant"
    );
}

#[test]
fn test_convert_arithmetic_snapshots() {
    let mut converter = HackConverter::new();
    assert_eq!(
        converter.convert(Command::Add).unwrap(),
        "//add\n@SP\nM=M-1\nA=M\nD=M\nA=A-1\nM=D+M\n"
    );
    assert_eq!(
        converter.convert(Command::Sub).unwrap(),
        "//sub\n@SP\nM=M-1\nA=M\nD=M\nA=A-1\nM=M-D\n"
    );
    assert_eq!(
        converter.convert(Command::And).unwrap(),
        "//and\n@SP\nM=M-1\nA=M\nD=M\nA=A-1\nM=D&M\n"
    );
    assert_eq!(
        converter.convert(Command::Or).unwrap(),
        "//or\n@SP\nM=M-1\nA=M\nD=M\nA=A-1\nM=D|M\n"
    );
    assert_eq!(converter.convert(Command::Neg).unwrap(), "//neg\n@SP\nA=M-1\nM=-M\n");
    assert_eq!(converter.convert(Command::Not).unwrap(), "//not\n@SP\nA=M-1\nM=!M\n");
}

#[test]
fn test_convert_eq_snapshot() {
    let mut converter = HackConverter::new();
    assert_eq!(
        converter.convert_eq().unwrap(),
        "//eq\n@SP\nM=M-1\nA=M\nD=M\n@SP\nM=M-1\nA=M\nD=M-D\n\
         @IsEqual.1\nD;JEQ\n@NotEqual.1\nD;JNE\n\
         (IsEqual.1)\n@SP\nA=M\nM=-1\n@EqEnd.1\n0;JMP\n\
         (NotEqual.1)\n@SP\nA=M\nM=0\n(EqEnd.1)\n@SP\nM=M+1\n"
    );
}

#[test]
fn test_convert_gt_lt_snapshots() {
    let mut converter = HackConverter::new();
    assert_eq!(
        converter.convert_gt().unwrap(),
        "//gt\n@SP\nM=M-1\nA=M\nD=M\n@SP\nM=M-1\nA=M\nD=M-D\n\
         @IsGreaterThan.1\nD;JGT\n@NotGreaterThan.1\nD;JLE\n\
         (IsGreaterThan.1)\n@SP\nA=M\nM=-1\n@GtEnd.1\n0;JMP\n\
         (NotGreaterThan.1)\n@SP\nA=M\nM=0\n(GtEnd.1)\n@SP\nM=M+1\n"
    );
    assert_eq!(
        converter.convert_lt().unwrap(),
        "//lt\n@SP\nM=M-1\nA=M\nD=M\n@SP\nM=M-1\nA=M\nD=M-D\n\
         @IsLessThan.1\nD;JLT\n@NotLessThan.1\nD;JGE\n\
         (IsLessThan.1)\n@SP\nA=M\nM=-1\n@LtEnd.1\n0;JMP\n\
         (NotLessThan.1)\n@SP\nA=M\nM=0\n(LtEnd.1)\n@SP\nM=M+1\n"
    );
}

#[test]
fn test_repeated_comparisons_use_distinct_labels() {
    let mut converter = HackConverter::new();
    let eq1 = converter.convert(Command::Eq).unwrap();
    let eq2 = converter.convert(Command::Eq).unwrap();
    assert_ne!(eq1, eq2);
    assert!(eq1.contains("(IsEqual.1)"));
    assert!(eq1.contains("(NotEqual.1)"));
    assert!(eq1.contains("(EqEnd.1)"));
    assert!(eq2.contains("(IsEqual.2)"));
    assert!(eq2.contains("(NotEqual.2)"));
    assert!(eq2.contains("(EqEnd.2)"));
    assert!(!eq2.contains("(IsEqual.1)"));

    let gt1 = converter.convert(Command::Gt).unwrap();
    let gt2 = converter.convert(Command::Gt).unwrap();
    assert_ne!(gt1, gt2);
    assert!(gt1.contains("(IsGreaterThan.1)"));
    assert!(gt2.contains("(IsGreaterThan.2)"));

    // The counters are independent per kind: lt still starts at 1.
    let lt1 = converter.convert(Command::Lt).unwrap();
    assert!(lt1.contains("(IsLessThan.1)"));
}

#[test]
fn test_end_to_end_push_push_add() {
    // The program leaves 7 + 8 = 15 at the stack top; snapshot-compare
    // the emitted text against the fixed templates with 7 and 8
    // substituted.
    let out = translate_lines(&["push constant 7", "push constant 8", "add"]).unwrap();
    assert_eq!(
        out,
        vec![
            "//push constant 7\n@7\nD=A\n@SP\nA=M\nM=D\n@SP\nM=M+1\n".to_string(),
            "//push constant 8\n@8\nD=A\n@SP\nA=M\nM=D\n@SP\nM=M+1\n".to_string(),
            "//add\n@SP\nM=M-1\nA=M\nD=M\nA=A-1\nM=D+M\n".to_string(),
        ]
    );
}

#[test]
fn test_comments_and_blanks_do_not_perturb_output_or_counters() {
    let with_noise = translate_lines(&[
        "// a leading comment",
        "push constant 1",
        "",
        "eq",
        "   ",
        "//interleaved",
        "eq",
    ])
    .unwrap();
    let without_noise = translate_lines(&["push constant 1", "eq", "eq"]).unwrap();
    assert_eq!(with_noise, without_noise);
    assert_eq!(with_noise.len(), 3);
    assert!(with_noise[1].contains("(IsEqual.1)"));
    assert!(with_noise[2].contains("(IsEqual.2)"));
}

#[test]
fn test_first_parse_error_stops_translation() {
    let result = translate_lines(&["push constant 1", "push oops 2", "add"]);
    assert_eq!(result, Err("Unknown segment".to_string()));
}

#[test]
fn test_new_and_get_segment_label() {
    let converter = HackConverter::new();
    assert!(converter.can_emit());
    assert_eq!(converter.eq_count, 1);
    assert_eq!(converter.gt_count, 1);
    assert_eq!(converter.lt_count, 1);
    assert_eq!(converter.pop_count, 1);
    // The default unit name shows up in static cells.
    assert_eq!(
        converter.convert_push(Segment::Static, 0).unwrap(),
        "//push static 0\n@Main.0\nD=M\n@SP\nA=M\nM=D\n@SP\nM=M+1\n"
    );
    assert_eq!(get_segment_label(&Segment::Argument), "ARG");
    assert_eq!(get_segment_label(&Segment::Local), "LCL");
    assert_eq!(get_segment_label(&Segment::This), "THIS");
    assert_eq!(get_segment_label(&Segment::That), "THAT");
    assert_eq!(get_segment_label(&Segment::Temp), "");
}
