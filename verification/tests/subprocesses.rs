use oab_providers::instant::Duration;
use oab_providers::subprocess;
use oab_providers::subprocess::{
    Exit, ReadFailure, RunEvent, RunState, RunStep, StderrClassifier, SubprocessError,
    SubprocessRequest,
};

fn request() -> SubprocessRequest {
    SubprocessRequest::new(
        b"/usr/bin/true".to_vec(),
        vec![b"--version".to_vec()],
        Duration::from_secs(5),
        1024,
        1024,
    )
    .ok()
    .unwrap()
}

#[test]
fn first_matching_rule_wins() {
    let rules = vec![(1, "denied"), (2, "permission denied")];
    let classifier = StderrClassifier::ascii_case_insensitive(&rules).ok().unwrap();
    assert_eq!(classifier.classify(b"Permission DENIED"), Some(1));
    assert_eq!(classifier.classify(b"fine"), None);
}

#[test]
fn last_change_of_a_variable_wins() {
    let changed = request()
        .with_environment(b"A".to_vec(), b"1".to_vec())
        .ok()
        .unwrap()
        .with_environment(b"A".to_vec(), b"2".to_vec())
        .ok()
        .unwrap();
    let last: Vec<_> = changed.environment.iter().filter(|c| c.name == b"A").collect();
    assert_eq!(last.len(), 1);
    assert_eq!(last[0].value.as_deref(), Some(b"2".as_slice()));
    let removed = request().without_environment(b"A".to_vec()).ok().unwrap();
    assert_eq!(removed.environment[0].value, None);
    assert!(request().with_environment(b"A=B".to_vec(), b"1".to_vec()).is_err());
    assert!(request().with_cleared_environment().clear_environment);
}

#[test]
fn invocations_are_checked() {
    let none = SubprocessRequest::new(Vec::new(), Vec::new(), Duration::from_secs(1), 1, 1);
    assert!(matches!(none.err(), Some(SubprocessError::InvalidConfiguration)));
    let endless = SubprocessRequest::new(b"/x".to_vec(), Vec::new(), Duration::from_secs(0), 1, 1);
    assert!(endless.is_err());
    assert!(subprocess::validate_arguments(&vec![b"a\0b".to_vec()]).is_err());
    assert!(subprocess::validate_arguments(&vec![b"a".to_vec()]).is_ok());
    assert!(subprocess::holds_byte(b"abc", b'c'));
}

#[test]
fn output_is_bounded() {
    let mut output = vec![1];
    assert!(subprocess::append_output(&mut output, &[2], 2).is_ok());
    assert_eq!(
        subprocess::append_output(&mut output, &[3], 2).err(),
        Some(ReadFailure::TooLarge)
    );
}

#[test]
fn runs_end_with_output_and_exit() {
    let state = match RunState::start().on_event(RunEvent::Stdout(Ok(b"out".to_vec()))) {
        RunStep::Continue(state) => state,
        _ => panic!("continues"),
    };
    let state = match state.on_event(RunEvent::Stderr(Ok(Vec::new()))) {
        RunStep::Continue(state) => state,
        _ => panic!("continues"),
    };
    assert!(!state.is_complete());
    let state = match state.on_event(RunEvent::Exited(Some(Exit { success: true, code: Some(0) }))) {
        RunStep::Continue(state) => state,
        _ => panic!("continues"),
    };
    assert!(state.is_complete());
    let output = subprocess::finish(
        state.exit.unwrap(),
        state.stdout.unwrap(),
        state.stderr.unwrap(),
        &None,
    )
    .ok()
    .unwrap();
    assert_eq!(output.stdout(), b"out");
    assert!(output.stderr().is_empty());
    assert_eq!(output.into_stdout(), b"out");
}

#[test]
fn failed_runs_tell_why() {
    let rules = vec![(7, "login")];
    let classifier = StderrClassifier::ascii_case_insensitive(&rules).ok();
    let failed = subprocess::finish(
        Exit { success: false, code: Some(2) },
        Vec::new(),
        b"please LOGIN".to_vec(),
        &classifier,
    );
    assert_eq!(
        failed.err(),
        Some(SubprocessError::NonZero { code: Some(2), stderr_tag: Some(7) })
    );
    assert!(matches!(
        RunState::start().on_event(RunEvent::Cancelled),
        RunStep::Terminate(SubprocessError::Cancelled)
    ));
    assert!(matches!(
        RunState::start().on_event(RunEvent::Deadline),
        RunStep::Terminate(SubprocessError::Timeout)
    ));
    assert!(matches!(
        RunState::start().on_event(RunEvent::Stdout(Err(ReadFailure::TooLarge))),
        RunStep::Terminate(SubprocessError::StdoutTooLarge)
    ));
}
