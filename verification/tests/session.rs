use autowc::command::AutomationCommand;
use autowc::session::{
    autowc_args, command_failed, finish_screenshot, first_window_list, interpret_response,
    last_screenshot, next_run_step, observe_response, screenshot_failed, screenshot_plan,
    AutoWcSessionConfig, AutowcResponse, DecodedResponse, ExpectedResponse, Observation,
    ObservedResponse, RunError, RunErrorStage, RunStep, Screenshot, SessionError, WindowInfo,
};

fn decoded(ok: bool) -> DecodedResponse {
    DecodedResponse { ok, response_type: None, path: None, windows: None, error: None }
}

#[test]
fn plans_screenshot_without_hidden_sync_when_no_delay() {
    let plan = screenshot_plan(None, Some(4), 0).unwrap();

    assert_eq!(plan.len(), 1);
    assert_eq!(plan[0].line, r#"{"type":"screenshot","window":4}"#);
    assert_eq!(plan[0].expected, ExpectedResponse::Screenshot);
}

#[test]
fn plans_hidden_sleep_before_delayed_screenshot() {
    let plan = screenshot_plan(None, Some(4), 250).unwrap();

    assert_eq!(plan.len(), 2);
    assert_eq!(plan[0].line, r#"{"ms":250,"type":"sleep","window":4}"#);
    assert_eq!(plan[0].expected, ExpectedResponse::Success);
    assert_eq!(plan[1].line, r#"{"type":"screenshot","window":4}"#);
    assert_eq!(plan[1].expected, ExpectedResponse::Screenshot);
}

#[test]
fn builds_launch_args_with_stay_alive() {
    let args = autowc_args(&AutoWcSessionConfig {
        autowc_binary: "autowc".into(),
        command: vec!["gtk4-demo".into()],
        stay_alive: true,
    });

    assert_eq!(args, ["--json", "--stay-alive", "gtk4-demo"]);
}

#[test]
fn omits_default_sizing_args() {
    let args = autowc_args(&AutoWcSessionConfig {
        autowc_binary: "autowc".into(),
        command: vec!["foot".into()],
        stay_alive: false,
    });

    assert_eq!(args, ["--json", "foot"]);
}

#[test]
fn parses_screenshot_response() {
    let response = interpret_response(DecodedResponse {
        ok: true,
        response_type: Some("screenshot".into()),
        path: Some("/tmp/autowc.png".into()),
        windows: None,
        error: None,
    })
    .unwrap();
    match response {
        AutowcResponse::Screenshot { path } => assert_eq!(path, "/tmp/autowc.png"),
        other => panic!("expected screenshot response, got {other:?}"),
    }
}

#[test]
fn parses_ok_response() {
    assert!(matches!(interpret_response(decoded(true)).unwrap(), AutowcResponse::Success));
}

#[test]
fn parses_error_response() {
    let mut response = decoded(false);
    response.error = Some("unsupported key".into());
    match interpret_response(response).unwrap() {
        AutowcResponse::Error(err) => assert_eq!(err, "unsupported key"),
        other => panic!("expected error response, got {other:?}"),
    }
}

#[test]
fn parses_window_list_response() {
    let mut response = decoded(true);
    response.windows = Some(vec![WindowInfo {
        id: 2,
        title: "Dialog".into(),
        width: 640,
        height: 480,
        fixed: true,
    }]);
    match interpret_response(response).unwrap() {
        AutowcResponse::WindowList { windows } => {
            assert_eq!(
                windows,
                vec![WindowInfo {
                    id: 2,
                    title: "Dialog".into(),
                    width: 640,
                    height: 480,
                    fixed: true,
                }]
            );
        }
        other => panic!("expected window list response, got {other:?}"),
    }
}

#[test]
fn interprets_malformed_responses() {
    match interpret_response(decoded(false)).unwrap() {
        AutowcResponse::Error(err) => {
            assert_eq!(err, "AutoWC returned ok=false without an error message")
        }
        other => panic!("expected error response, got {other:?}"),
    }
    let mut no_path = decoded(true);
    no_path.response_type = Some("screenshot".into());
    assert_eq!(
        interpret_response(no_path).unwrap_err(),
        "AutoWC returned screenshot without a path"
    );
    let mut empty_path = decoded(true);
    empty_path.response_type = Some("screenshot".into());
    empty_path.path = Some(String::new());
    assert_eq!(
        interpret_response(empty_path).unwrap_err(),
        "AutoWC returned an empty screenshot path"
    );
    let mut other = decoded(true);
    other.response_type = Some("mystery".into());
    assert_eq!(
        interpret_response(other).unwrap_err(),
        "unexpected AutoWC response type: mystery"
    );
}

#[test]
fn observes_autowc_error_as_session_error() {
    let err = observe_response(
        AutowcResponse::Error("unknown window: 9".into()),
        ExpectedResponse::Success,
    )
    .unwrap_err();

    assert_eq!(err.message, "unknown window: 9");
}

#[test]
fn rejects_unexpected_ok_for_screenshot() {
    let err = observe_response(AutowcResponse::Success, ExpectedResponse::Screenshot).unwrap_err();

    assert_eq!(err.message, "unexpected ok response while awaiting screenshot");
}

#[test]
fn rejects_every_mismatched_response() {
    let list = || AutowcResponse::WindowList { windows: vec![] };
    let shot = || AutowcResponse::Screenshot { path: "/tmp/a.png".into() };
    assert_eq!(
        observe_response(AutowcResponse::Success, ExpectedResponse::WindowList).unwrap_err().message,
        "unexpected ok response while awaiting window list"
    );
    assert_eq!(
        observe_response(shot(), ExpectedResponse::Success).unwrap_err().message,
        "unexpected screenshot response while awaiting ok"
    );
    assert_eq!(
        observe_response(shot(), ExpectedResponse::WindowList).unwrap_err().message,
        "unexpected screenshot response while awaiting window list"
    );
    assert_eq!(
        observe_response(list(), ExpectedResponse::Success).unwrap_err().message,
        "unexpected window list response while awaiting ok"
    );
    assert_eq!(
        observe_response(list(), ExpectedResponse::Screenshot).unwrap_err().message,
        "unexpected window list response while awaiting screenshot"
    );
    assert!(matches!(
        observe_response(shot(), ExpectedResponse::Screenshot).unwrap(),
        Observation::ScreenshotAt { path } if path == "/tmp/a.png"
    ));
}

#[test]
fn encodes_screenshot_bytes_in_base64() {
    let shot = Screenshot::from_png_bytes("/tmp/a.png".into(), b"abcd");
    assert_eq!(shot.path, "/tmp/a.png");
    assert_eq!(shot.mime_type, "image/png");
    assert_eq!(shot.data_base64, "YWJjZA==");

    match finish_screenshot("/tmp/b.png".into(), Ok(vec![0xff, 0x00])).unwrap() {
        ObservedResponse::Screenshot(s) => assert_eq!(s.data_base64, "/wA="),
        other => panic!("expected screenshot, got {other:?}"),
    }
    assert_eq!(
        finish_screenshot("/tmp/b.png".into(), Err("No such file".into())).unwrap_err().message,
        "failed reading screenshot: No such file"
    );
}

#[test]
fn picks_results_out_of_plan_answers() {
    let shot = Screenshot::from_png_bytes("/tmp/a.png".into(), b"");
    let found = last_screenshot(vec![ObservedResponse::Success, ObservedResponse::Screenshot(shot)])
        .unwrap();
    assert_eq!(found.path, "/tmp/a.png");
    assert_eq!(
        last_screenshot(vec![ObservedResponse::Success]).unwrap_err().message,
        "internal error: screenshot plan did not return a screenshot"
    );
    let list = first_window_list(vec![ObservedResponse::WindowList(vec![])]).unwrap();
    assert!(list.is_empty());
    assert_eq!(
        first_window_list(vec![]).unwrap_err().message,
        "internal error: list plan did not return a window list"
    );
}

#[test]
fn steps_through_a_batch() {
    let commands = vec![
        AutomationCommand::Sleep { ms: 5 },
        AutomationCommand::Chord { keys: vec![] },
    ];
    match next_run_step(&commands, Some(3), 0) {
        RunStep::Send(line) => assert_eq!(line, r#"{"ms":5,"type":"sleep","window":3}"#),
        other => panic!("expected a line, got {other:?}"),
    }
    match next_run_step(&commands, Some(3), 1) {
        RunStep::Stop(err) => {
            assert_eq!(err.stage, RunErrorStage::Prepare);
            assert_eq!(err.commands_executed, 1);
            assert_eq!(err.failed_command_index, Some(1));
            assert_eq!(err.error.message, "chord requires at least one key");
        }
        other => panic!("expected a stop, got {other:?}"),
    }
    assert!(matches!(next_run_step(&commands, None, 2), RunStep::Done));

    let failed = command_failed(1, SessionError::new("unknown key: CTRL".into()));
    assert_eq!(failed.stage, RunErrorStage::Command);
    assert_eq!(failed.failed_command_index, Some(1));
    assert_eq!(failed.stage.name(), "command");
    let late = screenshot_failed(2, SessionError::new("gone".into()));
    assert_eq!(late.stage, RunErrorStage::Screenshot);
    assert_eq!(late.failed_command_index, None);
    let early = RunError::new(SessionError::with_process(
        "AutoWC process has exited".into(),
        Some("exit status: 1".into()),
        "log".into(),
    ));
    assert_eq!(early.stage, RunErrorStage::Session);
    assert_eq!(early.commands_executed, 0);
    assert_eq!(early.error.exit_status.as_deref(), Some("exit status: 1"));
    assert_eq!(early.error.stderr, "log");
}
