use ler_datagen::parser::{ParseErrorKind, Parser, ParserExt, State};

#[test]
fn parses_two_samples() {
    let text = "alpha started\nLEVEL INFO\nID 7\n\nbeta stopped\nLEVEL WARN\n\n";
    let mut p = text.samples();

    let s1 = p.next().unwrap().unwrap();
    assert_eq!(s1.input, "alpha started");
    assert_eq!(s1.target, "LEVEL INFO\nID 7");

    let s2 = p.next().unwrap().unwrap();
    assert_eq!(s2.input, "beta stopped");
    assert_eq!(s2.target, "LEVEL WARN");

    assert!(p.next().unwrap().is_none());
    assert!(p.next().unwrap().is_none());
}

#[test]
fn blank_lines_between_blocks_are_skipped() {
    let text = "\n\nonly line\nTAG v\n\n\n";
    let mut p = text.samples();
    let s = p.next().unwrap().unwrap();
    assert_eq!(s.input, "only line");
    assert_eq!(s.target, "TAG v");
    assert!(p.next().unwrap().is_none());
}

#[test]
fn carriage_returns_are_stripped() {
    let text = "a b\r\nTAG v\r\n\r\n";
    let mut p = text.samples();
    let s = p.next().unwrap().unwrap();
    assert_eq!(s.input, "a b");
    assert_eq!(s.target, "TAG v");
}

#[test]
fn unterminated_block_is_dropped() {
    let text = "line one\nTAG val";
    let mut p = text.samples();
    assert!(p.next().unwrap().is_none());
}

#[test]
fn annotation_without_space_is_an_error() {
    let text = "logline\nnospace\n";
    let mut p = text.samples();
    let e = p.next().unwrap_err();
    assert_eq!(e.line, 2);
    assert!(matches!(e.kind, ParseErrorKind::InvalidAnnotationLine));
    // After an error the parser stays exhausted.
    assert!(p.next().unwrap().is_none());
}

#[test]
fn blank_line_after_text_is_an_error() {
    // A log line must be followed by at least one annotation line; a
    // blank line in that position is no annotation.
    let text = "logline\n\nTAG v\n\n";
    let mut p = text.samples();
    let e = p.next().unwrap_err();
    assert_eq!(e.line, 2);
    assert!(matches!(e.kind, ParseErrorKind::InvalidAnnotationLine));
}

#[test]
fn empty_text_has_no_samples() {
    let mut p = "".samples();
    assert!(p.next().unwrap().is_none());
}

#[test]
fn state_machine_steps() {
    let st = State::Init;
    let st = st.next("hello x").unwrap();
    let st = st.next("TAG value").unwrap();
    let mut st = st.next("").unwrap();
    let sample = st.take_sample().unwrap();
    assert_eq!(sample.input, "hello x");
    assert_eq!(sample.target, "TAG value");
    assert!(st.take_sample().is_none());
}

#[test]
fn unused_sample_is_an_error() {
    let st = State::Init;
    let st = st.next("hello x").unwrap();
    let st = st.next("TAG value").unwrap();
    let st = st.next("").unwrap();
    // A finished sample survives further non-blank lines untaken...
    let st = st.next("whatever").unwrap();
    // ...but a blank line finds it still unused.
    let e = st.next("").unwrap_err();
    assert!(matches!(e, ParseErrorKind::SampleNotUsed));
}

#[test]
fn from_lines_parses_pre_split_input() {
    let lines = vec![
        "svc up".to_string(),
        "LEVEL INFO".to_string(),
        "".to_string(),
    ];
    let mut p = Parser::from_lines(lines);
    let s = p.next().unwrap().unwrap();
    assert_eq!(s.input, "svc up");
    assert_eq!(s.target, "LEVEL INFO");
}
