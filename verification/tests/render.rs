use rlang::error::{excerpt, Error, ErrorKind, FileLocation, SourceInfo};

fn at(line: usize, col: usize) -> FileLocation {
    FileLocation::new("file.rl", line, col)
}

#[test]
fn file_location_renders_name_line_and_column() {
    assert_eq!(at(3, 7).full_string(), "file.rl:3:7");
    assert_eq!(at(123, 45).full_string(), "file.rl:123:45");
    assert_eq!(at(0, 0).full_string(), "file.rl:0:0");
}

#[test]
fn error_kind_names() {
    let e = Error::new(ErrorKind::UnboundImplication, &at(0, 0));
    assert_eq!(e.err_type(), "UnboundImplication");
    let e = Error::new(ErrorKind::NoBinding { name: "x".to_string() }, &at(0, 0));
    assert_eq!(e.err_type(), "NoBinding");
    let e = Error::new(ErrorKind::UnboundTheorem, &at(0, 0));
    assert_eq!(e.err_type(), "UnboundTheorem");
}

#[test]
fn no_binding_message() {
    let e = Error::new(ErrorKind::NoBinding { name: "x".to_string() }, &at(0, 0));
    assert_eq!(e.message(), "no binding found for `x`");
}

#[test]
fn binding_exists_message() {
    let e = Error::new(ErrorKind::BindingExists { name: "P".to_string() }, &at(0, 0));
    assert_eq!(e.message(), "duplicate binding of `P`");
}

#[test]
fn type_mismatch_messages() {
    let e = Error::new(
        ErrorKind::ITypeMismatch { found: "o".to_string(), expected: "(o -> o)".to_string() },
        &at(0, 0),
    );
    assert_eq!(e.message(), "found type `o`, expected type `(o -> o)`");
    let e = Error::new(
        ErrorKind::MTypeMismatch { found: "Type".to_string(), expected: "Term _".to_string() },
        &at(0, 0),
    );
    assert_eq!(
        e.message(),
        "found metalogical type `Type`, expected metalogical type `Term _`"
    );
}

#[test]
fn nullary_messages() {
    let e = Error::new(ErrorKind::UnboundImplication, &at(0, 0));
    assert_eq!(e.message(), "implication between non-nullary formulae");
    let e = Error::new(ErrorKind::UnboundTheorem, &at(0, 0));
    assert_eq!(e.message(), "axiom/theorem accepts logical arguments");
}

#[test]
fn unexpected_token_message_lists_expectations() {
    let e = Error::new(
        ErrorKind::UnexpectedToken {
            found: "}".to_string(),
            expected: vec!["let".to_string(), "axiom".to_string()],
        },
        &at(0, 0),
    );
    assert_eq!(
        e.message(),
        "found token \"}\", expected one of [\"let\", \"axiom\"]"
    );
    let e = Error::new(
        ErrorKind::UnexpectedToken { found: "x".to_string(), expected: Vec::new() },
        &at(0, 0),
    );
    assert_eq!(e.message(), "found token \"x\", expected one of []");
}

#[test]
fn file_failure_messages_carry_the_os_classification() {
    let e = Error::new(
        ErrorKind::FileOpenFailure {
            filename: "f.rl".to_string(),
            rust_err: "NotFound".to_string(),
        },
        &at(0, 0),
    );
    assert_eq!(
        e.message(),
        "could not open source file \"f.rl\" because of error `NotFound`"
    );
    let e = Error::new(
        ErrorKind::FileReadFailure {
            filename: "f.rl".to_string(),
            line: 12,
            rust_err: "InvalidData".to_string(),
        },
        &at(0, 0),
    );
    assert_eq!(
        e.message(),
        "could not read source file \"f.rl\" at line 12 because of error `InvalidData`"
    );
}

#[test]
fn console_rendering_without_excerpt() {
    let e = Error::new(ErrorKind::NoBinding { name: "x".to_string() }, &at(1, 2));
    assert_eq!(
        e.to_console_noexcerpt(),
        "At file.rl:1:2:\nNoBinding : no binding found for `x`\n"
    );
}

fn sample_source() -> SourceInfo {
    SourceInfo::from_lines(
        "file.rl".to_string(),
        vec!["let x\n".to_string(), "axiom y\n".to_string()],
    )
}

#[test]
fn console_rendering_with_excerpt() {
    let source = sample_source();
    let e = Error::new(ErrorKind::NoBinding { name: "x".to_string() }, &at(0, 4));
    assert_eq!(
        e.to_console(&source),
        "At file.rl:0:4:\n|\n|\tlet x\n|\t    ^\nNoBinding : no binding found for `x`\n"
    );
}

#[test]
fn excerpt_points_at_the_column() {
    let source = sample_source();
    assert_eq!(excerpt(&source, &at(1, 6)), "|\n|\taxiom y\n|\t      ^\n");
    assert_eq!(excerpt(&source, &at(0, 0)), "|\n|\tlet x\n|\t^\n");
}

#[test]
fn get_line_strips_terminators() {
    let source = sample_source();
    assert_eq!(source.get_line(0), "let x");
    assert_eq!(source.get_line(1), "axiom y");

    let crlf = SourceInfo::from_lines("w.rl".to_string(), vec!["ab\r\n".to_string()]);
    assert_eq!(crlf.get_line(0), "ab\u{200B}");
}

#[test]
fn to_file_location_finds_line_and_column() {
    // Lines of 6 and 8 bytes: running totals 6 and 14.
    let source = sample_source();
    let l = source.to_file_location(0);
    assert_eq!((l.line, l.col), (0, 0));
    let l = source.to_file_location(4);
    assert_eq!((l.line, l.col), (0, 4));
    // An offset equal to a stored total is reported at column 0.
    let l = source.to_file_location(6);
    assert_eq!((l.line, l.col), (0, 0));
    let l = source.to_file_location(9);
    assert_eq!((l.line, l.col), (1, 3));
    // Past the end: the line after the last.
    let l = source.to_file_location(15);
    assert_eq!((l.line, l.col), (2, 1));
    assert_eq!(l.full_string(), "file.rl:2:1");
}

#[test]
fn error_new_keeps_the_location() {
    let e = Error::new(ErrorKind::UnboundTheorem, &at(9, 9));
    assert_eq!(e.location_string(), "file.rl:9:9");
    assert_eq!(e.location.filename, "file.rl");
    assert_eq!(e.location.line, 9);
}
