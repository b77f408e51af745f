//! Start-up decisions of the compositor: the size of its virtual output, its
//! protocol, the program it launches, and where screenshots go.
use vstd::prelude::*;

use crate::protocol::Protocol;
use crate::text::{chars_to_string, decimal, fixed, push_decimal, push_str};
use crate::window::Size;

verus! {

/// Width of the virtual output when no size is given.
pub const DEFAULT_INITIAL_WIDTH: i32 = 1280;

/// Height of the virtual output when no size is given.
pub const DEFAULT_INITIAL_HEIGHT: i32 = 720;

/// How the virtual output starts and whether it follows the host window.
#[derive(Debug, Clone, Copy, PartialEq, Eq, Structural)]
pub struct OutputSizing {
    pub initial_size: Size,
    pub dynamic_resize: bool,
}

/// The output sizing asked for on the command line: dynamic resizing, or a
/// fixed size given by both width and height.
pub open spec fn output_sizing_spec(width: Option<i32>, height: Option<i32>, dynamic_resize: bool) -> Result<
    OutputSizing,
    Seq<char>,
> {
    if dynamic_resize && (width is Some || height is Some) {
        Err("dynamic resize cannot be used with explicit width or height"@)
    } else if dynamic_resize || (width is None && height is None) {
        Ok(
            OutputSizing {
                initial_size: Size { w: DEFAULT_INITIAL_WIDTH, h: DEFAULT_INITIAL_HEIGHT },
                dynamic_resize: true,
            },
        )
    } else {
        match (width, height) {
            (Some(w), Some(h)) => if w <= 0 || h <= 0 {
                Err("width and height must be positive"@)
            } else {
                Ok(OutputSizing { initial_size: Size { w, h }, dynamic_resize: false })
            },
            _ => Err("width and height must be specified together"@),
        }
    }
}

/// Decides the output sizing from the `--width`, `--height` and
/// `--dynamic-resize` options.
pub fn output_sizing(width: Option<i32>, height: Option<i32>, dynamic_resize: bool) -> (r: Result<
    OutputSizing,
    String,
>)
    ensures
        match output_sizing_spec(width, height, dynamic_resize) {
            Ok(s) => r == Ok::<OutputSizing, String>(s),
            Err(e) => r matches Err(m) && m@ == e,
        },
{
    let has_width = width.is_some();
    let has_height = height.is_some();
    if dynamic_resize && (has_width || has_height) {
        return Err(fixed("dynamic resize cannot be used with explicit width or height"));
    }
    let dynamic = dynamic_resize || (!has_width && !has_height);
    if dynamic {
        return Ok(
            OutputSizing {
                initial_size: Size { w: DEFAULT_INITIAL_WIDTH, h: DEFAULT_INITIAL_HEIGHT },
                dynamic_resize: true,
            },
        );
    }
    match (width, height) {
        (Some(w), Some(h)) => {
            if w <= 0 || h <= 0 {
                Err(fixed("width and height must be positive"))
            } else {
                Ok(OutputSizing { initial_size: Size { w, h }, dynamic_resize: false })
            }
        },
        _ => Err(fixed("width and height must be specified together")),
    }
}

/// The protocol chosen by the `--json` flag.
pub fn protocol_from_flag(json: bool) -> (r: Protocol)
    ensures
        r == (if json {
            Protocol::Json
        } else {
            Protocol::Plain
        }),
{
    if json {
        Protocol::Json
    } else {
        Protocol::Plain
    }
}

/// The program to launch and its arguments.
pub fn split_launch_command(command: &Vec<String>) -> (r: Result<(String, Vec<String>), String>)
    ensures
        command@.len() == 0 ==> (r matches Err(e) && e@ == "missing launch command"@),
        command@.len() > 0 ==> (r matches Ok((program, args)) && program == command@[0]
            && args@ == command@.skip(1)),
{
    if command.len() == 0 {
        return Err(fixed("missing launch command"));
    }
    let program = command[0].clone();
    let mut args: Vec<String> = Vec::new();
    let mut i: usize = 1;
    while i < command.len()
        invariant
            1 <= i <= command@.len(),
            args@ == command@.subrange(1, i as int),
        decreases command@.len() - i,
    {
        args.push(command[i].clone());
        assert(args@ =~= command@.subrange(1, i + 1));
        i += 1;
    }
    assert(command@.subrange(1, command@.len() as int) =~= command@.skip(1));
    Ok((program, args))
}

/// A screenshot waiting to be taken, and the file it goes to.
#[derive(Debug, Clone)]
pub struct ScreenshotRequest {
    pub path: String,
}

/// `autowc-screenshot-<pid>-<counter>.png`.
pub open spec fn screenshot_file_name_spec(pid: u32, counter: u64) -> Seq<char> {
    "autowc-screenshot-"@ + decimal(pid as nat) + "-"@ + decimal(counter as nat) + ".png"@
}

/// The name of the `counter`-th screenshot file of process `pid`, in the
/// temporary directory.
pub fn screenshot_file_name(pid: u32, counter: u64) -> (r: String)
    ensures
        r@ == screenshot_file_name_spec(pid, counter),
{
    let mut out: Vec<char> = Vec::new();
    push_str(&mut out, "autowc-screenshot-");
    push_decimal(&mut out, pid as u64);
    push_str(&mut out, "-");
    push_decimal(&mut out, counter);
    push_str(&mut out, ".png");
    assert(out@ =~= screenshot_file_name_spec(pid, counter));
    chars_to_string(&out)
}

/// `expected <n> screenshot bytes, got <len>`.
pub open spec fn rgba_length_message(expected: nat, got: nat) -> Seq<char> {
    "expected "@ + decimal(expected) + " screenshot bytes, got "@ + decimal(got)
}

/// Checks that a frame of `width` by `height` pixels holds four bytes per
/// pixel.
pub fn check_rgba_len(len: usize, width: u32, height: u32) -> (r: Result<(), String>)
    requires
        (width as int) * (height as int) * 4 <= u64::MAX,
    ensures
        len == (width as int) * (height as int) * 4 <==> r is Ok,
        r matches Err(e) ==> e@ == rgba_length_message(
            ((width as int) * (height as int) * 4) as nat,
            len as nat,
        ),
{
    let w = width as u64;
    let h = height as u64;
    assert(w * h <= u64::MAX) by (nonlinear_arith)
        requires
            (w as int) * (h as int) * 4 <= u64::MAX,
    ;
    let expected: u64 = w * h * 4;
    if len as u64 == expected {
        Ok(())
    } else {
        let mut out: Vec<char> = Vec::new();
        push_str(&mut out, "expected ");
        push_decimal(&mut out, expected);
        push_str(&mut out, " screenshot bytes, got ");
        push_decimal(&mut out, len as u64);
        assert(out@ =~= rgba_length_message(expected as nat, len as nat));
        Err(chars_to_string(&out))
    }
}

} // verus!
