//! The decisions of a session with a compositor process: its command line,
//! the commands planned for each request, and how each response is read.
use vstd::prelude::*;

use crate::command::{automation_line, screenshot_line, screenshot_line_spec, AutomationCommand};
use crate::text::{fixed, prefixed, str_to_chars};

verus! {

/// How the compositor process is started.
#[derive(Debug, Clone)]
pub struct AutoWcSessionConfig {
    pub autowc_binary: String,
    pub command: Vec<String>,
    pub stay_alive: bool,
}

/// A captured frame: where it was written, its format and its bytes in
/// base64.
#[derive(Debug, Clone)]
pub struct Screenshot {
    pub path: String,
    pub mime_type: String,
    pub data_base64: String,
}

/// A window as the compositor lists it.
#[derive(Debug, Clone, PartialEq, Eq)]
pub struct WindowInfo {
    pub id: u64,
    pub title: String,
    pub width: i32,
    pub height: i32,
    pub fixed: bool,
}

/// The result of a batch that ran to its end.
#[derive(Debug)]
pub struct RunOutcome {
    pub commands_executed: usize,
    pub screenshot: Option<Screenshot>,
}

/// The result of a batch that stopped on an error.
#[derive(Debug)]
pub struct RunError {
    pub error: SessionError,
    pub stage: RunErrorStage,
    pub commands_executed: usize,
    pub failed_command_index: Option<usize>,
    pub screenshot: Option<Screenshot>,
}

/// Where a batch stopped.
#[derive(Debug, Clone, Copy, PartialEq, Eq, Structural)]
pub enum RunErrorStage {
    /// The compositor process could not be used.
    Session,
    /// A command could not be turned into a control line.
    Prepare,
    /// The compositor refused a command or did not answer it.
    Command,
    /// The closing screenshot failed.
    Screenshot,
}

/// An error of the session, with what is known of the process.
#[derive(Debug, Clone)]
pub struct SessionError {
    pub message: String,
    pub exit_status: Option<String>,
    pub stderr: String,
}

/// What the compositor answered to one control line.
#[derive(Debug)]
pub enum AutowcResponse {
    Success,
    Error(String),
    Screenshot { path: String },
    WindowList { windows: Vec<WindowInfo> },
}

/// The fields of a JSON response line, as decoded.
#[derive(Debug)]
pub struct DecodedResponse {
    pub ok: bool,
    pub response_type: Option<String>,
    pub path: Option<String>,
    pub windows: Option<Vec<WindowInfo>>,
    pub error: Option<String>,
}

/// The kind of answer a control line calls for.
#[derive(Debug, Clone, Copy, PartialEq, Eq, Structural)]
pub enum ExpectedResponse {
    Success,
    Screenshot,
    WindowList,
}

/// A control line to send, with the kind of answer it calls for.
#[derive(Debug)]
pub struct PlannedCommand {
    pub line: String,
    pub expected: ExpectedResponse,
}

/// An answer that matched what its line called for, before a screenshot file
/// is read.
#[derive(Debug)]
pub enum Observation {
    Success,
    /// A screenshot was written to `path`; its bytes are still to be read.
    ScreenshotAt { path: String },
    WindowList(Vec<WindowInfo>),
}

/// An answer that matched what its line called for.
#[derive(Debug)]
pub enum ObservedResponse {
    Success,
    Screenshot(Screenshot),
    WindowList(Vec<WindowInfo>),
}

pub open spec fn strings_of(v: Seq<String>) -> Seq<Seq<char>> {
    v.map_values(|s: String| s@)
}

/// The compositor's arguments: the JSON protocol, `--stay-alive` when asked
/// for, then the command to run.
pub open spec fn autowc_args_spec(stay_alive: bool, command: Seq<Seq<char>>) -> Seq<Seq<char>> {
    seq!["--json"@] + (if stay_alive {
        seq!["--stay-alive"@]
    } else {
        Seq::empty()
    }) + command
}

fn copy_strings(v: &Vec<String>) -> (r: Vec<String>)
    ensures
        strings_of(r@) == strings_of(v@),
        r@ == v@,
{
    let mut r: Vec<String> = Vec::new();
    let mut i: usize = 0;
    while i < v.len()
        invariant
            i <= v@.len(),
            r@ == v@.take(i as int),
        decreases v@.len() - i,
    {
        r.push(v[i].clone());
        assert(r@ =~= v@.take(i + 1));
        i += 1;
    }
    assert(v@.take(v@.len() as int) =~= v@);
    r
}

/// The arguments the compositor process is started with.
pub fn autowc_args(config: &AutoWcSessionConfig) -> (r: Vec<String>)
    ensures
        strings_of(r@) == autowc_args_spec(config.stay_alive, strings_of(config.command@)),
{
    let mut args: Vec<String> = Vec::new();
    args.push(fixed("--json"));
    if config.stay_alive {
        args.push(fixed("--stay-alive"));
    }
    let ghost head = args@;
    let mut i: usize = 0;
    while i < config.command.len()
        invariant
            i <= config.command@.len(),
            args@ == head + config.command@.take(i as int),
        decreases config.command@.len() - i,
    {
        args.push(config.command[i].clone());
        assert(args@ =~= head + config.command@.take(i + 1));
        i += 1;
    }
    assert(config.command@.take(config.command@.len() as int) =~= config.command@);
    assert(strings_of(args@) =~= autowc_args_spec(config.stay_alive, strings_of(config.command@)));
    args
}

/// The character of the standard base64 alphabet for the value `v` below 64:
/// `A`-`Z`, `a`-`z`, `0`-`9`, `+`, `/`.
pub open spec fn base64_char(v: int) -> char {
    if v < 26 {
        ('A' as int + v) as char
    } else if v < 52 {
        ('a' as int + (v - 26)) as char
    } else if v < 62 {
        ('0' as int + (v - 52)) as char
    } else if v == 62 {
        '+'
    } else {
        '/'
    }
}

/// Standard base64 with padding (RFC 4648): each group of three bytes becomes
/// four characters of six bits each; a last group of one or two bytes is
/// filled with zero bits and padded with `=` to four characters.
pub open spec fn base64_standard_text(bytes: Seq<u8>) -> Seq<char>
    decreases bytes.len(),
{
    if bytes.len() == 0 {
        Seq::empty()
    } else if bytes.len() == 1 {
        let a = bytes[0] as int;
        seq![base64_char(a / 4), base64_char((a % 4) * 16), '=', '=']
    } else if bytes.len() == 2 {
        let a = bytes[0] as int;
        let b = bytes[1] as int;
        seq![
            base64_char(a / 4),
            base64_char((a % 4) * 16 + b / 16),
            base64_char((b % 16) * 4),
            '=',
        ]
    } else {
        let a = bytes[0] as int;
        let b = bytes[1] as int;
        let c = bytes[2] as int;
        seq![
            base64_char(a / 4),
            base64_char((a % 4) * 16 + b / 16),
            base64_char((b % 16) * 4 + c / 64),
            base64_char(c % 64),
        ] + base64_standard_text(bytes.skip(3))
    }
}

/// `base64::engine::general_purpose::STANDARD.encode`; the contract claims
/// that the text is the standard padded base64 encoding of the bytes, as
/// [`base64_standard_text`] spells it out.
#[verifier::external_body]
fn encode_base64(bytes: &[u8]) -> (r: String)
    ensures
        r@ == base64_standard_text(bytes@),
{
    base64::Engine::encode(&base64::engine::general_purpose::STANDARD, bytes)
}

impl Screenshot {
    /// The screenshot written to `path`, whose file holds `bytes`.
    pub fn from_png_bytes(path: String, bytes: &[u8]) -> (r: Screenshot)
        ensures
            r.path == path,
            r.mime_type@ == "image/png"@,
            r.data_base64@ == base64_standard_text(bytes@),
    {
        Screenshot { path, mime_type: fixed("image/png"), data_base64: encode_base64(bytes) }
    }
}

impl SessionError {
    /// An error with a message and nothing known of the process.
    pub fn new(message: String) -> (r: SessionError)
        ensures
            r.message == message,
            r.exit_status is None,
            r.stderr@ == Seq::<char>::empty(),
    {
        SessionError { message, exit_status: None, stderr: String::new() }
    }

    /// An error with the process's exit status, when it has exited, and the
    /// last lines it wrote on stderr.
    pub fn with_process(message: String, exit_status: Option<String>, stderr: String) -> (r:
        SessionError)
        ensures
            r.message == message,
            r.exit_status == exit_status,
            r.stderr == stderr,
    {
        SessionError { message, exit_status, stderr }
    }
}

impl RunError {
    /// A batch that failed before any command, because of the session.
    pub fn new(error: SessionError) -> (r: RunError)
        ensures
            r.error == error,
            r.stage == RunErrorStage::Session,
            r.commands_executed == 0,
            r.failed_command_index is None,
            r.screenshot is None,
    {
        RunError {
            error,
            stage: RunErrorStage::Session,
            commands_executed: 0,
            failed_command_index: None,
            screenshot: None,
        }
    }
}

impl RunErrorStage {
    /// The stage's name in reports: `session`, `prepare`, `command` or
    /// `screenshot`.
    pub fn name(self) -> (r: String)
        ensures
            r@ == (match self {
                RunErrorStage::Session => "session"@,
                RunErrorStage::Prepare => "prepare"@,
                RunErrorStage::Command => "command"@,
                RunErrorStage::Screenshot => "screenshot"@,
            }),
    {
        match self {
            RunErrorStage::Session => fixed("session"),
            RunErrorStage::Prepare => fixed("prepare"),
            RunErrorStage::Command => fixed("command"),
            RunErrorStage::Screenshot => fixed("screenshot"),
        }
    }
}

impl PlannedCommand {
    pub fn expect_ok(line: String) -> (r: PlannedCommand)
        ensures
            r.line == line,
            r.expected == ExpectedResponse::Success,
    {
        PlannedCommand { line, expected: ExpectedResponse::Success }
    }

    pub fn expect_screenshot(line: String) -> (r: PlannedCommand)
        ensures
            r.line == line,
            r.expected == ExpectedResponse::Screenshot,
    {
        PlannedCommand { line, expected: ExpectedResponse::Screenshot }
    }

    pub fn expect_window_list(line: String) -> (r: PlannedCommand)
        ensures
            r.line == line,
            r.expected == ExpectedResponse::WindowList,
    {
        PlannedCommand { line, expected: ExpectedResponse::WindowList }
    }
}

pub open spec fn opt_view(o: Option<&str>) -> Option<Seq<char>> {
    match o {
        Some(p) => Some(p@),
        None => None,
    }
}

/// The lines that take a screenshot of `window` after `delay_ms`: a sleep
/// first when there is a delay, then the screenshot.
pub fn screenshot_plan(path: Option<&str>, window: Option<u64>, delay_ms: u64) -> (r: Result<
    Vec<PlannedCommand>,
    SessionError,
>)
    ensures
        r matches Ok(plan) && ({
            let shot = plan@[plan@.len() - 1];
            &&& plan@.len() == (if delay_ms > 0 {
                2int
            } else {
                1int
            })
            &&& shot.expected == ExpectedResponse::Screenshot
            &&& shot.line@ == screenshot_line_spec(opt_view(path), window)
            &&& delay_ms > 0 ==> {
                &&& plan@[0].expected == ExpectedResponse::Success
                &&& automation_line(AutomationCommand::Sleep { ms: delay_ms }, window) == Ok::<
                    Seq<char>,
                    Seq<char>,
                >(plan@[0].line@)
            }
        }),
{
    let mut plan: Vec<PlannedCommand> = Vec::new();
    if delay_ms > 0 {
        let sleep = AutomationCommand::Sleep { ms: delay_ms };
        match sleep.to_autowc_line(window) {
            Ok(line) => plan.push(PlannedCommand::expect_ok(line)),
            Err(e) => return Err(SessionError::new(e)),
        }
    }
    match screenshot_line(path, window) {
        Ok(line) => plan.push(PlannedCommand::expect_screenshot(line)),
        Err(e) => return Err(SessionError::new(e)),
    }
    Ok(plan)
}


/// The value of an [`AutowcResponse`].
pub enum ResponseView {
    Success,
    Error(Seq<char>),
    Screenshot(Seq<char>),
    WindowList(Seq<WindowInfo>),
}

impl View for AutowcResponse {
    type V = ResponseView;

    open spec fn view(&self) -> ResponseView {
        match self {
            AutowcResponse::Success => ResponseView::Success,
            AutowcResponse::Error(e) => ResponseView::Error(e@),
            AutowcResponse::Screenshot { path } => ResponseView::Screenshot(path@),
            AutowcResponse::WindowList { windows } => ResponseView::WindowList(windows@),
        }
    }
}

/// How a decoded response line reads: an error message wins, then a refusal
/// without message, then a window list, then the response type.
pub open spec fn interpret_spec(raw: DecodedResponse) -> Result<ResponseView, Seq<char>> {
    match raw.error {
        Some(e) => Ok(ResponseView::Error(e@)),
        None => if !raw.ok {
            Ok(ResponseView::Error("AutoWC returned ok=false without an error message"@))
        } else {
            match raw.windows {
                Some(ws) => Ok(ResponseView::WindowList(ws@)),
                None => match raw.response_type {
                    None => Ok(ResponseView::Success),
                    Some(t) => if t@ == "screenshot"@ {
                        match raw.path {
                            None => Err("AutoWC returned screenshot without a path"@),
                            Some(p) => if p@.len() == 0 {
                                Err("AutoWC returned an empty screenshot path"@)
                            } else {
                                Ok(ResponseView::Screenshot(p@))
                            },
                        }
                    } else {
                        Err("unexpected AutoWC response type: "@ + t@)
                    },
                },
            }
        },
    }
}

fn is_screenshot_type(t: &String) -> (r: bool)
    ensures
        r == (t@ == "screenshot"@),
{
    let v = str_to_chars(t.as_str());
    crate::text::text_is(&v, "screenshot")
}

/// Reads a decoded response line.
pub fn interpret_response(raw: DecodedResponse) -> (r: Result<AutowcResponse, String>)
    ensures
        r is Ok <==> interpret_spec(raw) is Ok,
        r matches Ok(resp) ==> interpret_spec(raw) == Ok::<ResponseView, Seq<char>>(resp@),
        r matches Err(e) ==> interpret_spec(raw) == Err::<ResponseView, Seq<char>>(e@),
{
    let ghost raw0 = raw;
    let DecodedResponse { ok, response_type, path, windows, error } = raw;
    if let Some(e) = error {
        return Ok(AutowcResponse::Error(e));
    }
    if !ok {
        return Ok(AutowcResponse::Error(fixed("AutoWC returned ok=false without an error message")));
    }
    if let Some(ws) = windows {
        return Ok(AutowcResponse::WindowList { windows: ws });
    }
    match response_type {
        None => Ok(AutowcResponse::Success),
        Some(t) => {
            if is_screenshot_type(&t) {
                match path {
                    None => Err(fixed("AutoWC returned screenshot without a path")),
                    Some(p) => {
                        if p.as_str().is_empty() {
                            Err(fixed("AutoWC returned an empty screenshot path"))
                        } else {
                            Ok(AutowcResponse::Screenshot { path: p })
                        }
                    },
                }
            } else {
                let tv = str_to_chars(t.as_str());
                Err(prefixed("unexpected AutoWC response type: ", &tv))
            }
        },
    }
}

/// The value of an [`Observation`].
pub enum ObservationView {
    Success,
    ScreenshotAt(Seq<char>),
    WindowList(Seq<WindowInfo>),
}

impl View for Observation {
    type V = ObservationView;

    open spec fn view(&self) -> ObservationView {
        match self {
            Observation::Success => ObservationView::Success,
            Observation::ScreenshotAt { path } => ObservationView::ScreenshotAt(path@),
            Observation::WindowList(ws) => ObservationView::WindowList(ws@),
        }
    }
}

/// Checks an answer against what its line called for: an error answer is an
/// error whatever was expected; an answer of another kind is refused.
pub open spec fn observe_spec(resp: ResponseView, expected: ExpectedResponse) -> Result<
    ObservationView,
    Seq<char>,
> {
    match (resp, expected) {
        (ResponseView::Error(e), _) => Err(e),
        (ResponseView::Success, ExpectedResponse::Success) => Ok(ObservationView::Success),
        (ResponseView::Screenshot(p), ExpectedResponse::Screenshot) => Ok(
            ObservationView::ScreenshotAt(p),
        ),
        (ResponseView::WindowList(ws), ExpectedResponse::WindowList) => Ok(
            ObservationView::WindowList(ws),
        ),
        (ResponseView::Success, ExpectedResponse::Screenshot) => Err(
            "unexpected ok response while awaiting screenshot"@,
        ),
        (ResponseView::Success, ExpectedResponse::WindowList) => Err(
            "unexpected ok response while awaiting window list"@,
        ),
        (ResponseView::Screenshot(_), ExpectedResponse::Success) => Err(
            "unexpected screenshot response while awaiting ok"@,
        ),
        (ResponseView::Screenshot(_), ExpectedResponse::WindowList) => Err(
            "unexpected screenshot response while awaiting window list"@,
        ),
        (ResponseView::WindowList(_), ExpectedResponse::Success) => Err(
            "unexpected window list response while awaiting ok"@,
        ),
        (ResponseView::WindowList(_), ExpectedResponse::Screenshot) => Err(
            "unexpected window list response while awaiting screenshot"@,
        ),
    }
}

/// Checks the compositor's answer against what the line called for.
pub fn observe_response(response: AutowcResponse, expected: ExpectedResponse) -> (r: Result<
    Observation,
    SessionError,
>)
    ensures
        r is Ok <==> observe_spec(response@, expected) is Ok,
        r matches Ok(o) ==> observe_spec(response@, expected) == Ok::<ObservationView, Seq<char>>(
            o@,
        ),
        r matches Err(e) ==> {
            &&& observe_spec(response@, expected) == Err::<ObservationView, Seq<char>>(e.message@)
            &&& e.exit_status is None
            &&& e.stderr@ == Seq::<char>::empty()
        },
{
    match response {
        AutowcResponse::Error(e) => Err(SessionError::new(e)),
        AutowcResponse::Success => match expected {
            ExpectedResponse::Success => Ok(Observation::Success),
            ExpectedResponse::Screenshot => Err(
                SessionError::new(fixed("unexpected ok response while awaiting screenshot")),
            ),
            ExpectedResponse::WindowList => Err(
                SessionError::new(fixed("unexpected ok response while awaiting window list")),
            ),
        },
        AutowcResponse::Screenshot { path } => match expected {
            ExpectedResponse::Screenshot => Ok(Observation::ScreenshotAt { path }),
            ExpectedResponse::Success => Err(
                SessionError::new(fixed("unexpected screenshot response while awaiting ok")),
            ),
            ExpectedResponse::WindowList => Err(
                SessionError::new(
                    fixed("unexpected screenshot response while awaiting window list"),
                ),
            ),
        },
        AutowcResponse::WindowList { windows } => match expected {
            ExpectedResponse::WindowList => Ok(Observation::WindowList(windows)),
            ExpectedResponse::Success => Err(
                SessionError::new(fixed("unexpected window list response while awaiting ok")),
            ),
            ExpectedResponse::Screenshot => Err(
                SessionError::new(
                    fixed("unexpected window list response while awaiting screenshot"),
                ),
            ),
        },
    }
}

/// Completes a screenshot answer with the result of reading its file: the
/// bytes, or the reason they could not be read.
pub fn finish_screenshot(path: String, read: Result<Vec<u8>, String>) -> (r: Result<
    ObservedResponse,
    SessionError,
>)
    ensures
        read is Ok <==> r is Ok,
        read matches Ok(bytes) ==> (r matches Ok(ObservedResponse::Screenshot(shot)) && shot.path
            == path && shot.mime_type@ == "image/png"@ && shot.data_base64@
            == base64_standard_text(bytes@)),
        read matches Err(why) ==> (r matches Err(e) && e.message@ == "failed reading screenshot: "@
            + why@),
{
    match read {
        Ok(bytes) => Ok(ObservedResponse::Screenshot(Screenshot::from_png_bytes(path, &bytes))),
        Err(why) => {
            let wv = str_to_chars(why.as_str());
            Err(SessionError::new(prefixed("failed reading screenshot: ", &wv)))
        },
    }
}

/// The screenshot that ends the answers to a screenshot plan.
pub fn last_screenshot(observed: Vec<ObservedResponse>) -> (r: Result<Screenshot, SessionError>)
    ensures
        (observed@.len() > 0 && observed@.last() is Screenshot) <==> r is Ok,
        r matches Ok(shot) ==> observed@.last() matches ObservedResponse::Screenshot(s) && s
            == shot,
        r matches Err(e) ==> e.message@
            == "internal error: screenshot plan did not return a screenshot"@,
{
    let mut observed = observed;
    match observed.pop() {
        Some(ObservedResponse::Screenshot(shot)) => Ok(shot),
        _ => Err(
            SessionError::new(fixed("internal error: screenshot plan did not return a screenshot")),
        ),
    }
}

/// The window list that answers a list plan.
pub fn first_window_list(observed: Vec<ObservedResponse>) -> (r: Result<
    Vec<WindowInfo>,
    SessionError,
>)
    ensures
        (observed@.len() > 0 && observed@[0] is WindowList) <==> r is Ok,
        r matches Ok(ws) ==> observed@[0] matches ObservedResponse::WindowList(w) && w@ == ws@,
        r matches Err(e) ==> e.message@
            == "internal error: list plan did not return a window list"@,
{
    let mut observed = observed;
    if observed.len() > 0 {
        match observed.remove(0) {
            ObservedResponse::WindowList(ws) => {
                return Ok(ws);
            },
            _ => {},
        }
    }
    Err(SessionError::new(fixed("internal error: list plan did not return a window list")))
}

/// What a batch does after `executed` of its commands have run.
#[derive(Debug)]
pub enum RunStep {
    /// Send this line for the next command.
    Send(String),
    /// The next command cannot be sent; the batch stops with this error.
    Stop(RunError),
    /// Every command has run.
    Done,
}

/// The next step of a batch of `commands` aimed at `window`, when the first
/// `executed` of them have run.
pub fn next_run_step(commands: &Vec<AutomationCommand>, window: Option<u64>, executed: usize) -> (r:
    RunStep)
    requires
        executed <= commands@.len(),
    ensures
        executed == commands@.len() ==> r is Done,
        executed < commands@.len() ==> match automation_line(commands@[executed as int], window) {
            Ok(line) => r matches RunStep::Send(l) && l@ == line,
            Err(why) => r matches RunStep::Stop(e) && {
                &&& e.error.message@ == why
                &&& e.error.exit_status is None
                &&& e.stage == RunErrorStage::Prepare
                &&& e.commands_executed == executed
                &&& e.failed_command_index == Some(executed)
                &&& e.screenshot is None
            },
        },
{
    if executed == commands.len() {
        return RunStep::Done;
    }
    match commands[executed].to_autowc_line(window) {
        Ok(line) => RunStep::Send(line),
        Err(why) => RunStep::Stop(
            RunError {
                error: SessionError::new(why),
                stage: RunErrorStage::Prepare,
                commands_executed: executed,
                failed_command_index: Some(executed),
                screenshot: None,
            },
        ),
    }
}

/// The error of a batch whose command at index `executed` was refused or not
/// answered.
pub fn command_failed(executed: usize, error: SessionError) -> (r: RunError)
    ensures
        r.error == error,
        r.stage == RunErrorStage::Command,
        r.commands_executed == executed,
        r.failed_command_index == Some(executed),
        r.screenshot is None,
{
    RunError {
        error,
        stage: RunErrorStage::Command,
        commands_executed: executed,
        failed_command_index: Some(executed),
        screenshot: None,
    }
}

/// The error of a batch whose commands all ran but whose closing screenshot
/// failed.
pub fn screenshot_failed(executed: usize, error: SessionError) -> (r: RunError)
    ensures
        r.error == error,
        r.stage == RunErrorStage::Screenshot,
        r.commands_executed == executed,
        r.failed_command_index is None,
        r.screenshot is None,
{
    RunError {
        error,
        stage: RunErrorStage::Screenshot,
        commands_executed: executed,
        failed_command_index: None,
        screenshot: None,
    }
}

} // verus!
