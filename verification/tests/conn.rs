use kvline::codec::{encode, Command, Outcome};
use kvline::conn::{farewell_line, notice_line, on_read, unavailable_line, SessionStep};
use kvline::service::Service;

#[test]
fn zero_bytes_read_yields_the_farewell() {
    match on_read(0, "") {
        SessionStep::Farewell(line) => assert_eq!(line, "bye\r\n"),
        _ => panic!("expected a farewell"),
    }
}

#[test]
fn a_command_line_is_acknowledged_and_submitted() {
    match on_read(16, "set color blue\r\n") {
        SessionStep::Submit { notice, command } => {
            assert_eq!(notice, "consumed 16 bytes\r\n");
            match command {
                Command::Put(k, v) => {
                    assert_eq!(k, "color");
                    assert_eq!(v, "blue");
                }
                _ => panic!("expected a put"),
            }
        }
        _ => panic!("expected a submission"),
    }
}

#[test]
fn a_bad_line_is_rejected_and_the_session_goes_on() {
    match on_read(12, "set onlykey\n") {
        SessionStep::Reject { notice, error } => {
            assert_eq!(notice, "consumed 12 bytes\r\n");
            assert_eq!(
                error,
                "bad request - set: expected min 3 parts but received 2\r\n"
            );
        }
        _ => panic!("expected a rejection"),
    }
    // The connection stays usable: the next read decodes as usual.
    match on_read(10, "get color\n") {
        SessionStep::Submit { command, .. } => {
            assert!(matches!(command, Command::Get(_)));
        }
        _ => panic!("expected a submission"),
    }
}

#[test]
fn helper_lines_are_terminated_and_distinct() {
    assert_eq!(farewell_line(), "bye\r\n");
    assert_eq!(unavailable_line(), "service unavailable\r\n");
    assert_eq!(notice_line(0), "consumed 0 bytes\r\n");
    assert_eq!(notice_line(117), "consumed 117 bytes\r\n");
}

#[test]
fn a_whole_session_against_the_service() {
    // One connection's reads, driven the way the handler loop drives them.
    let mut svc = Service::new();
    let lines = [
        (15u32, "set color blue\n"),
        (10u32, "get color\n"),
        (12u32, "get missing\n"),
        (8u32, "bogus x\n"),
    ];
    let mut replies: Vec<String> = Vec::new();
    for (n, line) in lines {
        match on_read(n as usize, line) {
            SessionStep::Submit { command, .. } => {
                let (outcome, _) = svc.step(command);
                replies.push(encode(&outcome));
            }
            SessionStep::Reject { error, .. } => replies.push(error),
            SessionStep::Farewell(_) => panic!("the peer did not close"),
        }
    }
    match on_read(0, "") {
        SessionStep::Farewell(line) => replies.push(line),
        _ => panic!("expected a farewell"),
    }
    assert_eq!(
        replies,
        vec![
            String::from("response: ok\r\n"),
            String::from("response: value blue\r\n"),
            String::from("response: not-found missing\r\n"),
            String::from("bad request - unknown verb: bogus\r\n"),
            String::from("bye\r\n"),
        ]
    );
}

#[test]
fn outcome_lines_tell_success_from_failure() {
    assert_eq!(encode(&Outcome::Done), "response: ok\r\n");
    assert_eq!(
        encode(&Outcome::Value(String::from("ok"))),
        "response: value ok\r\n"
    );
    assert_eq!(
        encode(&Outcome::NotFound(String::from("ok"))),
        "response: not-found ok\r\n"
    );
}
