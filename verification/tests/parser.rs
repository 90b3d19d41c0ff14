use vtranslate::command::{Command, ParseError, Segment};

#[test]
fn test_parse_push_commands() {
    let test_cases = [
        ("push argument 2", Segment::Argument, 2),
        ("push local 0", Segment::Local, 0),
        ("push static 5", Segment::Static, 5),
        ("push constant 10", Segment::Constant, 10),
        ("push this 3", Segment::This, 3),
        ("push that 7", Segment::That, 7),
        ("push pointer 1", Segment::Pointer, 1),
        ("push temp 6", Segment::Temp, 6),
    ];

    for (input, expected_segment, expected_index) in test_cases {
        let result = Command::from(input);
        assert!(result.is_ok(), "Failed to parse: {}", input);
        assert_eq!(
            result.unwrap(),
            Command::Push {
                segment: expected_segment,
                index: expected_index
            },
            "Mismatch for: {}",
            input
        );
    }
}

#[test]
fn test_parse_pop_commands() {
    let test_cases = [
        ("pop argument 2", Segment::Argument, 2),
        ("pop local 0", Segment::Local, 0),
        ("pop static 8", Segment::Static, 8),
        ("pop this 4", Segment::This, 4),
        ("pop that 9", Segment::That, 9),
        ("pop pointer 0", Segment::Pointer, 0),
        ("pop temp 3", Segment::Temp, 3),
    ];

    for (input, expected_segment, expected_index) in test_cases {
        let result = Command::from(input);
        assert!(result.is_ok(), "Failed to parse: {}", input);
        assert_eq!(
            result.unwrap(),
            Command::Pop {
                segment: expected_segment,
                index: expected_index
            },
            "Mismatch for: {}",
            input
        );
    }
}

#[test]
fn test_parse_arithmetic_commands() {
    let test_cases = [
        ("add", Command::Add),
        ("sub", Command::Sub),
        ("neg", Command::Neg),
        ("eq", Command::Eq),
        ("gt", Command::Gt),
        ("lt", Command::Lt),
        ("and", Command::And),
        ("or", Command::Or),
        ("not", Command::Not),
    ];

    for (input, expected) in test_cases {
        let result = Command::from(input);
        assert!(result.is_ok(), "Failed to parse: {}", input);
        assert_eq!(result.unwrap(), expected, "Mismatch for: {}", input);
    }
}

#[test]
fn test_parse_errors() {
    let test_cases = [
        ("", "Empty line"),
        ("   ", "Empty line"),
        ("invalid", "Unknown command"),
        ("push", "push missing segment"),
        ("push local", "push missing index"),
        ("push invalid 5", "Unknown segment"),
        ("push local abc", "Invalid index"),
        ("push local -1", "Invalid index"),
        ("pop", "pop missing segment"),
        ("pop argument", "pop missing index"),
        ("pop unknown 3", "Unknown segment"),
        ("pop local xyz", "Invalid index"),
        ("push constant 65536", "Invalid index"),
    ];

    for (input, expected_error) in test_cases {
        let result = Command::from(input);
        assert!(result.is_err(), "Expected error for: {}", input);
        assert!(
            result.unwrap_err().message().contains(expected_error),
            "Wrong error message for: {}",
            input
        );
    }
}

#[test]
fn test_parse_whitespace_handling() {
    let test_cases = [
        ("  push   local   5  ", Segment::Local, 5),
        ("push\tlocal\t5", Segment::Local, 5),
        ("  add  ", Segment::Local, 0), // Will verify command type separately
    ];

    // Test push commands with various whitespace
    for (input, expected_segment, expected_index) in &test_cases[..2] {
        let result = Command::from(input);
        assert!(result.is_ok(), "Failed to parse: {}", input);
        assert_eq!(
            result.unwrap(),
            Command::Push {
                segment: *expected_segment,
                index: *expected_index
            },
            "Mismatch for: {}",
            input
        );
    }

    // Test arithmetic command with whitespace
    let result = Command::from("  add  ");
    assert!(result.is_ok());
    assert_eq!(result.unwrap(), Command::Add);
}

#[test]
fn test_parse_boundary_values() {
    // Test max u16 value
    let result = Command::from("push constant 65535");
    assert!(result.is_ok());
    assert_eq!(
        result.unwrap(),
        Command::Push {
            segment: Segment::Constant,
            index: 65535
        }
    );

    // Test overflow
    let result = Command::from("push constant 65536");
    assert!(result.is_err());
    assert!(result.unwrap_err().message().contains("Invalid index"));
}

#[test]
fn test_parse_error_variants() {
    assert_eq!(Command::from(""), Err(ParseError::EmptyLine));
    assert_eq!(Command::from("   "), Err(ParseError::EmptyLine));
    assert_eq!(Command::from("frobnicate"), Err(ParseError::UnknownCommand));
    assert_eq!(
        Command::from("push"),
        Err(ParseError::MissingSegment { pop: false })
    );
    assert_eq!(
        Command::from("pop"),
        Err(ParseError::MissingSegment { pop: true })
    );
    assert_eq!(
        Command::from("push local"),
        Err(ParseError::MissingIndex { pop: false })
    );
    assert_eq!(
        Command::from("pop that"),
        Err(ParseError::MissingIndex { pop: true })
    );
    assert_eq!(Command::from("push heap 1"), Err(ParseError::UnknownSegment));
    assert_eq!(Command::from("pop local 99999"), Err(ParseError::InvalidIndex));
    assert_eq!(Command::from("push local 1.5"), Err(ParseError::InvalidIndex));
}

#[test]
fn test_parse_plus_sign_and_leading_zeros() {
    // u16 parsing accepts an optional leading '+' and leading zeros.
    assert_eq!(
        Command::from("push local +5"),
        Ok(Command::Push {
            segment: Segment::Local,
            index: 5
        })
    );
    assert_eq!(
        Command::from("push temp 007"),
        Ok(Command::Push {
            segment: Segment::Temp,
            index: 7
        })
    );
    // A bare '+' is not a number.
    assert_eq!(Command::from("push local +"), Err(ParseError::InvalidIndex));
}

#[test]
fn test_parse_trailing_tokens_ignored() {
    // Extra tokens after a zero-argument command are ignored, as are
    // extra tokens after a complete push/pop.
    assert_eq!(Command::from("add extra words"), Ok(Command::Add));
    assert_eq!(
        Command::from("push local 5 trailing"),
        Ok(Command::Push {
            segment: Segment::Local,
            index: 5
        })
    );
}

#[test]
fn test_segment_names_round_trip() {
    let segments = [
        Segment::Argument,
        Segment::Local,
        Segment::Static,
        Segment::Constant,
        Segment::This,
        Segment::That,
        Segment::Pointer,
        Segment::Temp,
    ];
    for seg in segments {
        assert_eq!(Segment::from_name(seg.name()), Some(seg));
        let line = format!("push {} 0", seg.name());
        assert_eq!(
            Command::from(&line),
            Ok(Command::Push {
                segment: seg,
                index: 0
            })
        );
    }
    assert_eq!(Segment::from_name("Argument"), None);
    assert_eq!(Segment::from_name(""), None);
}
