//! Responses written on stdout, in the plain-text or the JSON protocol.
use vstd::prelude::*;

use crate::text::{
    chars_to_string, decimal, json_quote, json_string_text, push_decimal, push_str, str_to_chars,
};

verus! {

/// The syntax of the control channel.
#[derive(Debug, Clone, Copy, PartialEq, Eq, Structural)]
pub enum Protocol {
    /// One command per line, words separated by whitespace.
    Plain,
    /// One JSON object per line.
    Json,
}

/// A window as reported to the controlling process.
#[derive(Debug, Clone, PartialEq, Eq)]
pub struct WindowInfo {
    pub id: u64,
    pub title: String,
}

/// `{"id":<id>,"title":<title>}`.
pub open spec fn window_json(id: u64, title: Seq<char>) -> Seq<char> {
    "{\"id\":"@ + decimal(id as nat) + ",\"title\":"@ + json_string_text(title) + "}"@
}

/// The windows as JSON objects separated by commas.
pub open spec fn windows_json(ws: Seq<WindowInfo>) -> Seq<char>
    decreases ws.len(),
{
    if ws.len() == 0 {
        Seq::empty()
    } else if ws.len() == 1 {
        window_json(ws[0].id, ws[0].title@)
    } else {
        windows_json(ws.drop_last()) + ","@ + window_json(ws.last().id, ws.last().title@)
    }
}

/// ` <id> <title>` for each window, in order.
pub open spec fn windows_plain(ws: Seq<WindowInfo>) -> Seq<char>
    decreases ws.len(),
{
    if ws.len() == 0 {
        Seq::empty()
    } else {
        windows_plain(ws.drop_last()) + " "@ + decimal(ws.last().id as nat) + " "@ + ws.last().title@
    }
}

fn push_window_json(out: &mut Vec<char>, w: &WindowInfo)
    ensures
        final(out)@ == old(out)@ + window_json(w.id, w.title@),
{
    push_str(out, "{\"id\":");
    push_decimal(out, w.id);
    push_str(out, ",\"title\":");
    let q = json_quote(w.title.as_str());
    push_str(out, q.as_str());
    push_str(out, "}");
    assert(final(out)@ =~= old(out)@ + window_json(w.id, w.title@));
}

fn push_windows_json(out: &mut Vec<char>, ws: &[WindowInfo])
    ensures
        final(out)@ == old(out)@ + windows_json(ws@),
{
    let mut i: usize = 0;
    assert(windows_json(ws@.take(0)) =~= Seq::<char>::empty());
    assert(out@ =~= old(out)@ + windows_json(ws@.take(0)));
    while i < ws.len()
        invariant
            i <= ws@.len(),
            out@ == old(out)@ + windows_json(ws@.take(i as int)),
        decreases ws@.len() - i,
    {
        let ghost before = out@;
        assert(ws@.take(i + 1).drop_last() =~= ws@.take(i as int));
        assert(ws@.take(i + 1).last() == ws@[i as int]);
        if i > 0 {
            push_str(out, ",");
        }
        push_window_json(out, &ws[i]);
        proof {
            if i == 0 {
                assert(out@ =~= old(out)@ + windows_json(ws@.take(1)));
            } else {
                assert(out@ =~= old(out)@ + windows_json(ws@.take(i + 1)));
            }
        }
        i += 1;
    }
    assert(ws@.take(ws@.len() as int) =~= ws@);
}

impl Protocol {
    /// The success response.
    pub fn format_ok(self) -> (r: String)
        ensures
            r@ == (match self {
                Protocol::Plain => "ok"@,
                Protocol::Json => "{\"ok\":true}"@,
            }),
    {
        match self {
            Protocol::Plain => chars_to_string(&str_to_chars("ok")),
            Protocol::Json => chars_to_string(&str_to_chars("{\"ok\":true}")),
        }
    }

    /// The success response that lists windows that appeared.
    pub fn format_ok_with_new_windows(self, new_windows: &[WindowInfo]) -> (r: String)
        ensures
            r@ == (match self {
                Protocol::Plain => "ok"@ + windows_plain(new_windows@),
                Protocol::Json => "{\"ok\":true,\"new_windows\":["@ + windows_json(new_windows@)
                    + "]}"@,
            }),
    {
        let mut out: Vec<char> = Vec::new();
        match self {
            Protocol::Plain => {
                push_str(&mut out, "ok");
                let mut i: usize = 0;
                while i < new_windows.len()
                    invariant
                        i <= new_windows@.len(),
                        out@ == "ok"@ + windows_plain(new_windows@.take(i as int)),
                    decreases new_windows@.len() - i,
                {
                    let w = &new_windows[i];
                    push_str(&mut out, " ");
                    push_decimal(&mut out, w.id);
                    push_str(&mut out, " ");
                    push_str(&mut out, w.title.as_str());
                    assert(new_windows@.take(i + 1).drop_last() =~= new_windows@.take(i as int));
                    assert(new_windows@.take(i + 1).last() == new_windows@[i as int]);
                    assert(out@ =~= "ok"@ + windows_plain(new_windows@.take(i + 1)));
                    i += 1;
                }
                assert(new_windows@.take(new_windows@.len() as int) =~= new_windows@);
            },
            Protocol::Json => {
                push_str(&mut out, "{\"ok\":true,\"new_windows\":[");
                push_windows_json(&mut out, new_windows);
                push_str(&mut out, "]}");
            },
        }
        chars_to_string(&out)
    }

    /// The error response carrying `error`.
    pub fn format_error(self, error: &str) -> (r: String)
        ensures
            r@ == (match self {
                Protocol::Plain => "error "@ + error@,
                Protocol::Json => "{\"ok\":false,\"error\":"@ + json_string_text(error@) + "}"@,
            }),
    {
        let mut out: Vec<char> = Vec::new();
        match self {
            Protocol::Plain => {
                push_str(&mut out, "error ");
                push_str(&mut out, error);
            },
            Protocol::Json => {
                push_str(&mut out, "{\"ok\":false,\"error\":");
                let q = json_quote(error);
                push_str(&mut out, q.as_str());
                push_str(&mut out, "}");
            },
        }
        chars_to_string(&out)
    }

    /// The response to a screenshot written to `path`.
    pub fn format_screenshot(self, path: &str) -> (r: String)
        ensures
            r@ == (match self {
                Protocol::Plain => "screenshot "@ + path@,
                Protocol::Json => "{\"ok\":true,\"type\":\"screenshot\",\"path\":"@
                    + json_string_text(path@) + "}"@,
            }),
    {
        let mut out: Vec<char> = Vec::new();
        match self {
            Protocol::Plain => {
                push_str(&mut out, "screenshot ");
                push_str(&mut out, path);
            },
            Protocol::Json => {
                push_str(&mut out, "{\"ok\":true,\"type\":\"screenshot\",\"path\":");
                let q = json_quote(path);
                push_str(&mut out, q.as_str());
                push_str(&mut out, "}");
            },
        }
        chars_to_string(&out)
    }

    /// The response to a window list request; the plain protocol answers
    /// only `ok`.
    pub fn format_window_list(self, windows: &[WindowInfo]) -> (r: String)
        ensures
            r@ == (match self {
                Protocol::Plain => "ok"@,
                Protocol::Json => "{\"ok\":true,\"windows\":["@ + windows_json(windows@) + "]}"@,
            }),
    {
        let mut out: Vec<char> = Vec::new();
        match self {
            Protocol::Plain => {
                push_str(&mut out, "ok");
            },
            Protocol::Json => {
                push_str(&mut out, "{\"ok\":true,\"windows\":[");
                push_windows_json(&mut out, windows);
                push_str(&mut out, "]}");
            },
        }
        chars_to_string(&out)
    }
}

} // verus!
