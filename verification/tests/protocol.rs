use autowc::clipboard::preferred_clipboard_mime_type;
use autowc::protocol::{Protocol, WindowInfo};

#[test]
fn formats_plain_responses() {
    assert_eq!(Protocol::Plain.format_ok(), "ok");
    assert_eq!(
        Protocol::Plain.format_ok_with_new_windows(&[WindowInfo {
            id: 2,
            title: "GTK Demo".to_string(),
        }]),
        "ok 2 GTK Demo"
    );
    assert_eq!(Protocol::Plain.format_error("bad input"), "error bad input");
    assert_eq!(
        Protocol::Plain.format_screenshot("/tmp/autowc.png"),
        "screenshot /tmp/autowc.png"
    );
}

#[test]
fn formats_json_responses() {
    assert_eq!(Protocol::Json.format_ok(), r#"{"ok":true}"#);
    assert_eq!(
        Protocol::Json.format_ok_with_new_windows(&[WindowInfo {
            id: 2,
            title: "GTK Demo".to_string(),
        }]),
        r#"{"ok":true,"new_windows":[{"id":2,"title":"GTK Demo"}]}"#
    );
    assert_eq!(
        Protocol::Json.format_error("bad \"input\""),
        r#"{"ok":false,"error":"bad \"input\""}"#
    );
    assert_eq!(
        Protocol::Json.format_screenshot("/tmp/autowc.png"),
        r#"{"ok":true,"type":"screenshot","path":"/tmp/autowc.png"}"#
    );
    assert_eq!(
        Protocol::Json.format_window_list(&[WindowInfo {
            id: 2,
            title: "GTK Demo".to_string(),
        }]),
        r#"{"ok":true,"windows":[{"id":2,"title":"GTK Demo"}]}"#
    );
}

#[test]
fn formats_several_and_no_windows() {
    let windows = [
        WindowInfo { id: 1, title: "a".to_string() },
        WindowInfo { id: 10, title: "b\nc".to_string() },
    ];
    assert_eq!(Protocol::Plain.format_ok_with_new_windows(&windows), "ok 1 a 10 b\nc");
    assert_eq!(
        Protocol::Json.format_window_list(&windows),
        r#"{"ok":true,"windows":[{"id":1,"title":"a"},{"id":10,"title":"b\nc"}]}"#
    );
    assert_eq!(Protocol::Json.format_window_list(&[]), r#"{"ok":true,"windows":[]}"#);
    assert_eq!(Protocol::Plain.format_window_list(&windows), "ok");
    assert_eq!(Protocol::Plain.format_ok_with_new_windows(&[]), "ok");
}

#[test]
fn prefers_utf8_plain_text_clipboard_mime_type() {
    let mime_types = vec!["text/html".into(), "text/plain;charset=utf-8".into()];

    assert_eq!(
        preferred_clipboard_mime_type(&mime_types),
        Some("text/plain;charset=utf-8".into())
    );
}

#[test]
fn falls_back_to_first_clipboard_mime_type() {
    let mime_types = vec!["image/png".into(), "application/octet-stream".into()];

    assert_eq!(preferred_clipboard_mime_type(&mime_types), Some("image/png".into()));
}

#[test]
fn clipboard_prefers_plain_text_and_handles_no_formats() {
    let mime_types = vec!["image/png".into(), "text/plain".into()];
    assert_eq!(preferred_clipboard_mime_type(&mime_types), Some("text/plain".into()));
    assert_eq!(preferred_clipboard_mime_type(&[]), None);
}
