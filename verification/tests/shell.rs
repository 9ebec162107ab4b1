use ssg::formatted_text::shell::{Action, Event, Supervisor, POLL_MILLIS};

fn millis(n: u128) -> u128 {
    n * 1_000_000
}

fn watching(has_input: bool, timeout: u128, shown: &str) -> Supervisor {
    let mut s = Supervisor::new(has_input, millis(timeout), shown.to_string());
    let first = s.advance(Event::Spawned(Ok(())));
    if has_input {
        assert!(matches!(first, Action::Feed { millis: 10 }));
        assert!(matches!(s.advance(Event::Fed(Ok(()))), Action::ReadClock));
    } else {
        assert!(matches!(first, Action::ReadClock));
    }
    s
}

#[test]
fn fast_command_returns_its_output() {
    let mut s = watching(false, 100, "100ms");
    assert!(matches!(s.advance(Event::Clock { elapsed_nanos: 0 }), Action::Poll));
    assert!(matches!(s.advance(Event::Polled(Ok(Some(true)))), Action::ReadOutput));
    match s.advance(Event::Output(Ok("1\n".to_string()))) {
        Action::Finish(result) => assert_eq!(result, Ok("1\n".to_string())),
        _ => panic!("expected the result"),
    }
    assert!(s.is_done());
}

#[test]
fn command_with_input_is_fed_first() {
    let mut s = watching(true, 100, "100ms");
    assert!(matches!(s.advance(Event::Clock { elapsed_nanos: millis(1) }), Action::Poll));
    assert!(matches!(s.advance(Event::Polled(Ok(Some(true)))), Action::ReadOutput));
    match s.advance(Event::Output(Ok("a\nb\n".to_string()))) {
        Action::Finish(result) => assert_eq!(result, Ok("a\nb\n".to_string())),
        _ => panic!("expected the result"),
    }
}

#[test]
fn slow_command_is_killed_once_with_a_timeout_error() {
    let mut s = watching(false, 10, "10ms");
    assert!(matches!(s.advance(Event::Clock { elapsed_nanos: 0 }), Action::Poll));
    match s.advance(Event::Polled(Ok(None))) {
        Action::Sleep { millis } => assert_eq!(millis, POLL_MILLIS),
        _ => panic!("expected a pause"),
    }
    assert!(matches!(s.advance(Event::Clock { elapsed_nanos: millis(10) }), Action::Poll));
    assert!(matches!(s.advance(Event::Polled(Ok(None))), Action::Sleep { millis: 10 }));
    assert!(!s.is_done());
    match s.advance(Event::Clock { elapsed_nanos: millis(10) + 1 }) {
        Action::Kill { error } => assert_eq!(error, "Timeout after 10ms"),
        _ => panic!("expected the child to be killed"),
    }
    assert!(s.is_done());
    match s.advance(Event::Clock { elapsed_nanos: millis(30) }) {
        Action::Finish(Err(e)) => assert_eq!(e, "Process error: event out of turn"),
        _ => panic!("expected no further action on the child"),
    }
}

#[test]
fn failed_command_returns_its_error_output() {
    let mut s = watching(false, 100, "100ms");
    s.advance(Event::Clock { elapsed_nanos: 5 });
    assert!(matches!(s.advance(Event::Polled(Ok(Some(false)))), Action::ReadOutput));
    assert!(matches!(
        s.advance(Event::Output(Ok("partial".to_string()))),
        Action::ReadErrorOutput
    ));
    match s.advance(Event::ErrorOutput(Ok("bad input".to_string()))) {
        Action::Finish(result) => assert_eq!(result, Err("Process failed: bad input".to_string())),
        _ => panic!("expected the result"),
    }
}

#[test]
fn failures_of_the_steps_are_reported() {
    let mut s = Supervisor::new(false, 1, "1ns".to_string());
    match s.advance(Event::Spawned(Err("not found".to_string()))) {
        Action::Finish(r) => assert_eq!(r, Err("Failed to spawn process: not found".to_string())),
        _ => panic!("expected the result"),
    }
    let mut s = Supervisor::new(true, 1, "1ns".to_string());
    s.advance(Event::Spawned(Ok(())));
    match s.advance(Event::Fed(Err("broken pipe".to_string()))) {
        Action::Finish(r) => assert_eq!(r, Err("Stdin write failed: broken pipe".to_string())),
        _ => panic!("expected the result"),
    }
    let mut s = Supervisor::new(true, 1, "1ns".to_string());
    s.advance(Event::Spawned(Ok(())));
    match s.advance(Event::InputUnavailable) {
        Action::Finish(r) => assert_eq!(r, Err("No stdin available".to_string())),
        _ => panic!("expected the result"),
    }
    let mut s = watching(false, 100, "100ms");
    s.advance(Event::Clock { elapsed_nanos: 0 });
    match s.advance(Event::Polled(Err("gone".to_string()))) {
        Action::Finish(r) => assert_eq!(r, Err("Process error: gone".to_string())),
        _ => panic!("expected the result"),
    }
    let mut s = watching(false, 100, "100ms");
    s.advance(Event::Clock { elapsed_nanos: 0 });
    s.advance(Event::Polled(Ok(Some(true))));
    match s.advance(Event::Output(Err("invalid utf-8".to_string()))) {
        Action::Finish(r) => assert_eq!(r, Err("Output read failed: invalid utf-8".to_string())),
        _ => panic!("expected the result"),
    }
    let mut s = watching(false, 100, "100ms");
    s.advance(Event::Clock { elapsed_nanos: 0 });
    s.advance(Event::Polled(Ok(Some(false))));
    s.advance(Event::Output(Ok(String::new())));
    match s.advance(Event::ErrorOutput(Err("closed".to_string()))) {
        Action::Finish(r) => assert_eq!(r, Err("Error read failed: closed".to_string())),
        _ => panic!("expected the result"),
    }
}

#[test]
fn event_out_of_turn_ends_the_run() {
    let mut s = Supervisor::new(false, 1, "1ns".to_string());
    match s.advance(Event::Polled(Ok(None))) {
        Action::Finish(r) => assert_eq!(r, Err("Process error: event out of turn".to_string())),
        _ => panic!("expected the result"),
    }
    assert!(s.is_done());
}

#[test]
fn limit_holds_while_the_input_is_written() {
    let mut s = Supervisor::new(true, millis(10), "10ms".to_string());
    assert!(matches!(s.advance(Event::Spawned(Ok(()))), Action::Feed { millis: 10 }));
    match s.advance(Event::Clock { elapsed_nanos: millis(10) }) {
        Action::AwaitFed { millis } => assert_eq!(millis, POLL_MILLIS),
        _ => panic!("expected a wait for the write"),
    }
    assert!(!s.is_done());
    match s.advance(Event::Clock { elapsed_nanos: millis(20) }) {
        Action::Kill { error } => assert_eq!(error, "Timeout after 10ms"),
        _ => panic!("expected the child to be killed"),
    }
    assert!(s.is_done());
}

#[test]
fn write_that_ends_in_time_goes_on_to_watching() {
    let mut s = Supervisor::new(true, millis(100), "100ms".to_string());
    s.advance(Event::Spawned(Ok(())));
    assert!(matches!(s.advance(Event::Clock { elapsed_nanos: millis(10) }), Action::AwaitFed { .. }));
    assert!(matches!(s.advance(Event::Fed(Ok(()))), Action::ReadClock));
    assert!(matches!(s.advance(Event::Clock { elapsed_nanos: millis(101) }), Action::Kill { .. }));
}
