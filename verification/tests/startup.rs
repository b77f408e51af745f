use autowc::protocol::Protocol;
use autowc::startup::{
    check_rgba_len, output_sizing, protocol_from_flag, screenshot_file_name, split_launch_command,
    OutputSizing, ScreenshotRequest, DEFAULT_INITIAL_HEIGHT, DEFAULT_INITIAL_WIDTH,
};
use autowc::window::Size;

#[test]
fn output_sizing_defaults_to_dynamic_without_resolution_options() {
    // autowc foot
    assert_eq!(
        output_sizing(None, None, false).unwrap(),
        OutputSizing {
            initial_size: Size { w: DEFAULT_INITIAL_WIDTH, h: DEFAULT_INITIAL_HEIGHT },
            dynamic_resize: true,
        }
    );
}

#[test]
fn output_sizing_uses_fixed_size_when_resolution_options_are_specified() {
    // autowc --width 800 --height 600 foot
    assert_eq!(
        output_sizing(Some(800), Some(600), false).unwrap(),
        OutputSizing { initial_size: Size { w: 800, h: 600 }, dynamic_resize: false }
    );
}

#[test]
fn output_sizing_rejects_partial_resolution_options() {
    // autowc --width 800 foot
    assert_eq!(
        output_sizing(Some(800), None, false).unwrap_err(),
        "width and height must be specified together"
    );
}

#[test]
fn output_sizing_rejects_dynamic_resize_with_resolution_options() {
    // autowc --dynamic-resize --width 800 --height 600 foot
    assert_eq!(
        output_sizing(Some(800), Some(600), true).unwrap_err(),
        "dynamic resize cannot be used with explicit width or height"
    );
}

#[test]
fn output_sizing_rejects_non_positive_fixed_size() {
    // autowc --width 0 --height 600 foot
    assert_eq!(
        output_sizing(Some(0), Some(600), false).unwrap_err(),
        "width and height must be positive"
    );
}

#[test]
fn dynamic_resize_flag_alone_keeps_the_default_size() {
    assert_eq!(
        output_sizing(None, None, true).unwrap(),
        OutputSizing { initial_size: Size { w: 1280, h: 720 }, dynamic_resize: true }
    );
    assert_eq!(
        output_sizing(None, Some(600), false).unwrap_err(),
        "width and height must be specified together"
    );
}

#[test]
fn picks_protocol_and_launch_command() {
    assert_eq!(protocol_from_flag(true), Protocol::Json);
    assert_eq!(protocol_from_flag(false), Protocol::Plain);
    let (program, args) =
        split_launch_command(&vec!["foot".to_string(), "-e".to_string(), "sh".to_string()]).unwrap();
    assert_eq!(program, "foot");
    assert_eq!(args, vec!["-e".to_string(), "sh".to_string()]);
    assert_eq!(split_launch_command(&vec![]).unwrap_err(), "missing launch command");
}

#[test]
fn names_screenshot_files_and_checks_frames() {
    assert_eq!(screenshot_file_name(4321, 7), "autowc-screenshot-4321-7.png");
    let request = ScreenshotRequest { path: "/tmp/x.png".to_string() };
    assert_eq!(request.path, "/tmp/x.png");
    assert!(check_rgba_len(16, 2, 2).is_ok());
    assert_eq!(
        check_rgba_len(15, 2, 2).unwrap_err(),
        "expected 16 screenshot bytes, got 15"
    );
}
