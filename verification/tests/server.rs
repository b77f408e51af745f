use autowc::command::AutomationCommand;
use autowc::server::{RunParams, DEFAULT_SCREENSHOT_DELAY_MS, SERVER_INSTRUCTIONS};

#[test]
fn server_instructions_are_the_canonical_usage_guide() {
    assert!(SERVER_INSTRUCTIONS.contains("Typical flow"));
    assert!(SERVER_INSTRUCTIONS.contains("one AutoWC compositor session"));
    assert!(SERVER_INSTRUCTIONS.contains("starts AutoWC automatically"));
    assert!(SERVER_INSTRUCTIONS.contains("call `list`"));
    assert!(SERVER_INSTRUCTIONS.contains("W3C KeyboardEvent.code"));
    assert!(SERVER_INSTRUCTIONS.contains("Prefer the `keys` command"));
    assert!(!SERVER_INSTRUCTIONS.contains("return_screenshot"));
    assert!(!SERVER_INSTRUCTIONS.contains("The close tool only sends a close request"));
    assert!(!SERVER_INSTRUCTIONS.contains("close stops"));
    assert!(!SERVER_INSTRUCTIONS.contains("KEY_*"));
    assert!(!SERVER_INSTRUCTIONS.contains("newline characters"));
    assert!(!SERVER_INSTRUCTIONS.contains("`text`"));
}

#[test]
fn run_defaults_to_a_delayed_screenshot() {
    let params = RunParams {
        commands: vec![AutomationCommand::Sleep { ms: 1 }],
        window: None,
        return_screenshot: None,
        screenshot_delay_ms: None,
    };
    assert!(params.wants_screenshot());
    assert_eq!(params.screenshot_delay(), DEFAULT_SCREENSHOT_DELAY_MS);
    assert_eq!(params.screenshot_delay(), 500);

    let explicit = RunParams {
        commands: vec![],
        window: Some(2),
        return_screenshot: Some(false),
        screenshot_delay_ms: Some(0),
    };
    assert!(!explicit.wants_screenshot());
    assert_eq!(explicit.screenshot_delay(), 0);
}
