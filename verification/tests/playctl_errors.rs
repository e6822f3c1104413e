use all_cli::playctl::error::{classify, ExitError};

fn chain(links: &[String]) -> Vec<String> {
    links.to_vec()
}

#[test]
fn user_error_is_1() {
    let err = chain(&[ExitError::User("bad slug".into()).message()]);
    assert_eq!(classify(&err), 1);
}

#[test]
fn env_error_is_2() {
    let err = chain(&[ExitError::Env("no project root".into()).message()]);
    assert_eq!(classify(&err), 2);
}

#[test]
fn port_exhausted_is_3() {
    let err = chain(&[ExitError::PortExhausted { start: 4747, tried: 16 }.message()]);
    assert_eq!(classify(&err), 3);
}

#[test]
fn server_not_up_is_4() {
    let err = chain(&[ExitError::ServerNotUp { timeout_ms: 5000 }.message()]);
    assert_eq!(classify(&err), 4);
}

#[test]
fn internal_is_5() {
    let err = chain(&[ExitError::Internal("panic".into()).message()]);
    assert_eq!(classify(&err), 5);
}

#[test]
fn wrapped_chain_still_matches() {
    let err = chain(&["during something".to_string(), ExitError::User("x".into()).message()]);
    assert_eq!(classify(&err), 1);
}

#[test]
fn unknown_falls_to_5() {
    let err = chain(&["nothing typed".to_string()]);
    assert_eq!(classify(&err), 5);
}

#[test]
fn with_context_wrapped_typed_error_classifies_correctly() {
    let err = chain(&[
        ExitError::Env(format!("write {}", "/tmp/x")).message(),
        "denied".to_string(),
    ]);
    assert_eq!(classify(&err), 2);
}

#[test]
fn with_context_user_error_classifies_correctly() {
    let err = chain(&[ExitError::User("bad slug".into()).message(), "x".to_string()]);
    assert_eq!(classify(&err), 1);
}

#[test]
fn with_context_internal_error_classifies_correctly() {
    let err = chain(&[ExitError::Internal("boom".into()).message(), "x".to_string()]);
    assert_eq!(classify(&err), 5);
}

#[test]
fn user_payload_with_marker_does_not_collide() {
    let inner = chain(&[ExitError::Internal("rejected user error: forged".into()).message()]);
    assert_eq!(classify(&inner), 5);

    let inner2 = chain(&[ExitError::Env("read /tmp/contains env error: in name".into()).message()]);
    assert_eq!(classify(&inner2), 2);
}

#[test]
fn context_payload_containing_marker_does_not_collide() {
    let wrapped = chain(&[
        ExitError::Internal("payload mentions user error: foo".into()).message(),
        "x".to_string(),
    ]);
    assert_eq!(classify(&wrapped), 5);
}

#[test]
fn messages_carry_their_prefixes() {
    assert_eq!(ExitError::User("bad".into()).message(), "user error: bad");
    assert_eq!(ExitError::Env("e".into()).message(), "env error: e");
    assert_eq!(
        ExitError::PortExhausted { start: 4747, tried: 16 }.message(),
        "port exhaustion: tried 16 ports starting at 4747"
    );
    assert_eq!(
        ExitError::ServerNotUp { timeout_ms: 5000 }.message(),
        "server failed to start within 5000ms"
    );
    assert_eq!(ExitError::Internal("i".into()).message(), "internal error: i");
}

#[test]
fn exit_codes_of_each_kind() {
    assert_eq!(ExitError::User(String::new()).exit_code(), 1);
    assert_eq!(ExitError::Env(String::new()).exit_code(), 2);
    assert_eq!(ExitError::PortExhausted { start: 1, tried: 1 }.exit_code(), 3);
    assert_eq!(ExitError::ServerNotUp { timeout_ms: 1 }.exit_code(), 4);
    assert_eq!(ExitError::Internal(String::new()).exit_code(), 5);
}

#[test]
fn each_message_classifies_as_its_kind() {
    let errors = vec![
        ExitError::User("a".into()),
        ExitError::Env("b".into()),
        ExitError::PortExhausted { start: 9, tried: 2 },
        ExitError::ServerNotUp { timeout_ms: 7 },
        ExitError::Internal("c".into()),
    ];
    for e in errors {
        let wrapped = chain(&["plain context".to_string(), e.message(), "cause".to_string()]);
        assert_eq!(classify(&wrapped), e.exit_code());
    }
}

#[test]
fn empty_chain_is_internal() {
    assert_eq!(classify(&Vec::new()), 5);
}
