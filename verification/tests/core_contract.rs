use beacon::command::CommandSpec;
use beacon::envelope::{Envelope, EnvelopeStatus, ErrorDetail};
use beacon::orchestrator::{RunStep, RunUntilFailure};
use beacon::redact::redact;
use beacon::ToolStatus;

#[test]
fn homebrew_upgrade_always_has_a_target() {
    assert!(CommandSpec::brew_upgrade("").is_err());
    let command = CommandSpec::brew_upgrade("wget").unwrap();
    assert_eq!(command.program, "brew");
    assert_eq!(command.args, ["upgrade", "wget"]);
}

#[test]
fn sensitive_output_is_redacted() {
    let text = "Authorization: Bearer abc123 token=secret /Users/alice/project";
    let result = redact(text, Some("/Users/alice"));
    assert!(!result.contains("abc123"));
    assert!(!result.contains("secret"));
    assert!(!result.contains("/Users/alice"));
}

#[test]
fn redaction_keeps_text_without_secrets() {
    assert_eq!(redact("nothing to hide here", None), "nothing to hide here");
    assert_eq!(redact("/Users/alice/project", Some("/Users/alice")), "~/project");
    assert_eq!(redact("token=abc def", None), "token=[REDACTED] def");
}

#[test]
fn envelope_statuses_have_stable_names_and_exit_codes() {
    let ok = Envelope::ok(vec![ToolStatus::Current]);
    assert_eq!(ok.status, EnvelopeStatus::Complete);
    assert_eq!(ok.status.as_str(), "ok");
    assert!(ok.errors.is_empty());
    assert_eq!(ok.exit_code(), 0);

    let partial = Envelope::partial(
        vec![ToolStatus::Current],
        vec![ErrorDetail::new("manager_failed", Some("manager:homebrew"), "failed")],
    );
    assert_eq!(partial.status.as_str(), "partial");
    assert_eq!(partial.errors[0].code, "manager_failed");
    assert_eq!(partial.errors[0].target.as_deref(), Some("manager:homebrew"));
    assert_eq!(partial.exit_code(), 2);

    let fatal: Envelope<Vec<ToolStatus>> =
        Envelope::error(vec![], vec![ErrorDetail::new("fatal_error", None, "boom")]);
    assert_eq!(fatal.status.as_str(), "error");
    assert_eq!(fatal.exit_code(), 1);
    assert_eq!(fatal.schema_version, 2);
}

#[test]
fn upgrade_queue_stops_at_the_first_failure() {
    let items = ["node", "go", "rust"];
    let mut queue = RunUntilFailure::new(items.len());
    let mut calls = Vec::new();
    loop {
        match queue.next() {
            RunStep::Run(index) => {
                calls.push(items[index]);
                queue.finish(items[index] != "go");
            }
            RunStep::Completed => panic!("the queue must stop at the failure"),
            RunStep::Stopped => break,
        }
    }
    assert_eq!(calls, ["node", "go"]);
}

#[test]
fn upgrade_queue_completes_when_every_item_succeeds() {
    let mut queue = RunUntilFailure::new(2);
    assert_eq!(queue.next(), RunStep::Run(0));
    queue.finish(true);
    assert_eq!(queue.next(), RunStep::Run(1));
    queue.finish(true);
    assert_eq!(queue.next(), RunStep::Completed);
    assert_eq!(RunUntilFailure::new(0).next(), RunStep::Completed);
}

#[test]
fn no_home_path_survives_redaction() {
    let home = "/home/ann";
    let result = redact("/home/ann/a:/home/ann token=/home/ann/b /home/an", Some(home));
    assert!(!result.contains(home));
    assert_eq!(result, "~/a:~ token=[REDACTED] /home/an");
}

#[test]
fn every_secret_marker_is_followed_by_a_redaction() {
    let result = redact("Bearer Basic x cookie=a;b COOKIE= TOKEN=t\tpassword=", None);
    assert_eq!(
        result,
        "Bearer [REDACTED] x cookie=[REDACTED] COOKIE=[REDACTED] TOKEN=[REDACTED]\tpassword=[REDACTED]"
    );
}

#[test]
fn redacting_twice_changes_nothing() {
    let inputs = [
        "token=abc /home/ann/x Bearer q",
        "Basic Bearer token=[REDACTED] password=",
        "plain text",
    ];
    for input in inputs {
        for home in [None, Some("/home/ann")] {
            let once = redact(input, home);
            assert_eq!(redact(&once, home), once);
        }
    }
}
