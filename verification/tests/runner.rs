use beacon::command::CommandSpec;
use beacon::runner::{command_output, StreamingRedactor};

#[test]
fn streaming_redactor_handles_secrets_split_across_chunks() {
    let mut redactor = StreamingRedactor::new(Some("/Users/alice"));
    let mut output = Vec::new();
    output.extend(redactor.push(b"token=sec"));
    output.extend(redactor.push(b"ret next /Users/"));
    output.extend(redactor.push(b"alice/project"));
    output.extend(redactor.finish());
    let output = String::from_utf8(output).unwrap();

    assert_eq!(output, "token=[REDACTED] next ~/project");
}

#[test]
fn streaming_redactor_emits_bounded_partial_lines() {
    let mut redactor = StreamingRedactor::new(None);
    let output = redactor.push(b"downloading a long status without a newline");

    assert!(!output.is_empty());
    assert!(redactor.buffered_len() < 16);
}

#[test]
fn a_secret_at_the_end_of_the_stream_is_dropped() {
    let mut redactor = StreamingRedactor::new(None);
    let mut output = redactor.push(b"password=hunter2");
    output.extend(redactor.finish());
    assert_eq!(String::from_utf8(output).unwrap(), "password=[REDACTED]");
}

#[test]
fn failed_commands_report_a_redacted_message() {
    let spec = CommandSpec::new("sh", &["-c", "exit 7"]);
    let error = command_output(
        &spec,
        false,
        Some(7),
        "exit status: 7",
        &b"".to_vec(),
        &b" token=secret /Users/alice/private \n".to_vec(),
        Some("/Users/alice"),
    )
    .err()
    .unwrap();
    assert_eq!(error, "sh -c \"exit 7\" failed (exit status: 7): token=[REDACTED] ~/private");
    let accepted = spec.accepting_exit_code(7);
    let output = command_output(&accepted, false, Some(7), "exit status: 7", &b" ok \xff\n".to_vec(), &vec![], None).unwrap();
    assert_eq!(output.stdout, "ok \u{fffd}");
}

#[test]
fn cutting_the_stream_elsewhere_changes_nothing() {
    let text: &[u8] = b"Bearer abc token=xyz /Users/alice/x PASSWORD=p q";
    let mut whole = StreamingRedactor::new(Some("/Users/alice"));
    let mut expected = whole.push(text);
    expected.extend(whole.finish());
    for cut in 0..=text.len() {
        let mut split = StreamingRedactor::new(Some("/Users/alice"));
        let mut output = split.push(&text[..cut]);
        output.extend(split.push(&text[cut..]));
        output.extend(split.finish());
        assert_eq!(output, expected, "cut at {}", cut);
    }
    let mut bytewise = StreamingRedactor::new(Some("/Users/alice"));
    let mut output = Vec::new();
    for b in text {
        output.extend(bytewise.push(&[*b]));
    }
    output.extend(bytewise.finish());
    assert_eq!(output, expected);
    assert_eq!(
        String::from_utf8(expected).unwrap(),
        "Bearer [REDACTED] token=[REDACTED] ~/x PASSWORD=[REDACTED] q"
    );
}
