//! Expansion of a control command into the timed low-level actions that the
//! compositor replays against its target window.
use vstd::prelude::*;

use crate::control::{
    button_states_spec, char_events, char_to_key_spec, key_states_spec, text_events_spec,
    text_to_key_events, ButtonState, ControlCommand, ControlCommandVariant, KeyState, Number,
    PressAction, VariantView,
};
use crate::keys_sequence::{actions_view, KeysAction, KeysSequenceAction};
use crate::text::{chars_to_string, decimal, push_decimal, push_str};
use crate::window::{
    index_of_handle, is_empty_view, registry_wf, AutoWindowId, RegistryView, WindowRegistry,
};

verus! {

/// Default pause after each key event, in milliseconds.
pub const DEFAULT_KEY_EVENT_INTERVAL_MS: u64 = 20;

/// Default pause between the key presses of a chord, in milliseconds.
pub const DEFAULT_CHORD_KEY_INTERVAL_MS: u64 = 10;

/// Default time a chord is held once all its keys are down, in milliseconds.
pub const DEFAULT_CHORD_HOLD_DURATION_MS: u64 = 75;

/// Default pause after each command, in milliseconds.
pub const DEFAULT_COMMAND_INTERVAL_MS: u64 = 0;

/// The pauses between synthetic events, in milliseconds.
#[derive(Debug, Clone, Copy, PartialEq, Eq, Structural)]
pub struct TimingOptions {
    pub key_event_interval_ms: u64,
    pub chord_key_interval_ms: u64,
    pub chord_hold_ms: u64,
    pub command_interval_ms: u64,
}

impl TimingOptions {
    /// The default pauses.
    pub fn defaults() -> (r: TimingOptions)
        ensures
            r.key_event_interval_ms == DEFAULT_KEY_EVENT_INTERVAL_MS,
            r.chord_key_interval_ms == DEFAULT_CHORD_KEY_INTERVAL_MS,
            r.chord_hold_ms == DEFAULT_CHORD_HOLD_DURATION_MS,
            r.command_interval_ms == DEFAULT_COMMAND_INTERVAL_MS,
    {
        TimingOptions {
            key_event_interval_ms: DEFAULT_KEY_EVENT_INTERVAL_MS,
            chord_key_interval_ms: DEFAULT_CHORD_KEY_INTERVAL_MS,
            chord_hold_ms: DEFAULT_CHORD_HOLD_DURATION_MS,
            command_interval_ms: DEFAULT_COMMAND_INTERVAL_MS,
        }
    }
}

/// One low-level step of a command.
#[derive(Debug, PartialEq)]
pub enum QueuedActionKind {
    /// A key event, by Linux input code.
    Key { code: u32, state: KeyState },
    /// Moves the pointer to a position in the target window.
    PointerMove { x: Number, y: Number },
    /// A pointer button event.
    PointerButton { button: u32, state: ButtonState },
    /// A wheel event, in 1/120 detents on each axis.
    Scroll { dx_v120: i32, dy_v120: i32 },
    /// Captures the target window, then waits.
    Screenshot { path: Option<String>, delay_after_ms: u64 },
    /// Asks the target window to close.
    Close,
    /// A pause.
    Delay { ms: u64 },
    /// Answers the command with success, then waits.
    RespondOk { delay_after_ms: u64 },
}

/// Mathematical value of a [`QueuedActionKind`].
pub enum ActionView {
    Key { code: u32, state: KeyState },
    PointerMove { x: Seq<char>, y: Seq<char> },
    PointerButton { button: u32, state: ButtonState },
    Scroll { dx_v120: i32, dy_v120: i32 },
    Screenshot { path: Option<Seq<char>>, delay_after_ms: u64 },
    Close,
    Delay { ms: u64 },
    RespondOk { delay_after_ms: u64 },
}

impl View for QueuedActionKind {
    type V = ActionView;

    open spec fn view(&self) -> ActionView {
        match self {
            QueuedActionKind::Key { code, state } => ActionView::Key { code: *code, state: *state },
            QueuedActionKind::PointerMove { x, y } => ActionView::PointerMove { x: x@, y: y@ },
            QueuedActionKind::PointerButton { button, state } => ActionView::PointerButton {
                button: *button,
                state: *state,
            },
            QueuedActionKind::Scroll { dx_v120, dy_v120 } => ActionView::Scroll {
                dx_v120: *dx_v120,
                dy_v120: *dy_v120,
            },
            QueuedActionKind::Screenshot { path, delay_after_ms } => ActionView::Screenshot {
                path: match path {
                    Some(p) => Some(p@),
                    None => None,
                },
                delay_after_ms: *delay_after_ms,
            },
            QueuedActionKind::Close => ActionView::Close,
            QueuedActionKind::Delay { ms } => ActionView::Delay { ms: *ms },
            QueuedActionKind::RespondOk { delay_after_ms } => ActionView::RespondOk {
                delay_after_ms: *delay_after_ms,
            },
        }
    }
}

pub open spec fn kinds_view(v: Seq<QueuedActionKind>) -> Seq<ActionView> {
    v.map_values(|k: QueuedActionKind| k@)
}

/// Each key state of `action` for `code`, each followed by the key interval.
pub open spec fn key_press_spec(code: u32, action: PressAction, interval: u64) -> Seq<ActionView> {
    let states = key_states_spec(action);
    if states.len() == 1 {
        seq![ActionView::Key { code, state: states[0] }, ActionView::Delay { ms: interval }]
    } else {
        seq![
            ActionView::Key { code, state: states[0] },
            ActionView::Delay { ms: interval },
            ActionView::Key { code, state: states[1] },
            ActionView::Delay { ms: interval },
        ]
    }
}

/// The key presses of a sequence of key events, in order.
pub open spec fn key_events_spec(events: Seq<(u32, PressAction)>, interval: u64) -> Seq<ActionView>
    decreases events.len(),
{
    if events.len() == 0 {
        Seq::empty()
    } else {
        key_events_spec(events.drop_last(), interval) + key_press_spec(
            events.last().0,
            events.last().1,
            interval,
        )
    }
}

/// The chord's keys pressed in order, with the chord interval between two
/// presses.
pub open spec fn chord_presses(codes: Seq<u32>, interval: u64) -> Seq<ActionView>
    decreases codes.len(),
{
    if codes.len() == 0 {
        Seq::empty()
    } else if codes.len() == 1 {
        seq![ActionView::Key { code: codes[0], state: KeyState::Pressed }]
    } else {
        chord_presses(codes.drop_last(), interval) + seq![
            ActionView::Delay { ms: interval },
            ActionView::Key { code: codes.last(), state: KeyState::Pressed },
        ]
    }
}

/// The chord's keys released, last pressed first.
pub open spec fn chord_releases(codes: Seq<u32>) -> Seq<ActionView>
    decreases codes.len(),
{
    if codes.len() == 0 {
        Seq::empty()
    } else {
        seq![ActionView::Key { code: codes.last(), state: KeyState::Released }] + chord_releases(
            codes.drop_last(),
        )
    }
}

/// A chord: the presses, the hold, the releases in reverse order, then the
/// key interval.
pub open spec fn chord_spec(codes: Seq<u32>, t: TimingOptions) -> Seq<ActionView> {
    chord_presses(codes, t.chord_key_interval_ms) + seq![ActionView::Delay { ms: t.chord_hold_ms }]
        + chord_releases(codes) + seq![ActionView::Delay { ms: t.key_event_interval_ms }]
}

/// The steps of a key sequence, or the error of its first text that cannot be
/// typed. Nothing is queued for a sequence with such a text.
pub open spec fn keys_sequence_steps(actions: Seq<KeysAction>, t: TimingOptions) -> Result<
    Seq<ActionView>,
    Seq<char>,
>
    decreases actions.len(),
{
    if actions.len() == 0 {
        Ok(Seq::empty())
    } else {
        match keys_sequence_steps(actions.drop_last(), t) {
            Err(e) => Err(e),
            Ok(prev) => match actions.last() {
                KeysAction::Text(s) => match text_events_spec(s) {
                    Ok(evs) => Ok(prev + key_events_spec(evs, t.key_event_interval_ms)),
                    Err(e) => Err(e),
                },
                KeysAction::Chord(codes) => Ok(prev + chord_spec(codes, t)),
                KeysAction::Wait(ms) => Ok(prev + seq![ActionView::Delay { ms }]),
            },
        }
    }
}

/// The button events of `action`.
pub open spec fn button_spec(button: u32, action: PressAction) -> Seq<ActionView> {
    let states = button_states_spec(action);
    if states.len() == 1 {
        seq![ActionView::PointerButton { button, state: states[0] }]
    } else {
        seq![
            ActionView::PointerButton { button, state: states[0] },
            ActionView::PointerButton { button, state: states[1] },
        ]
    }
}

/// A scroll amount on both axes, already converted to 1/120 detents, or why
/// it could not be.
pub struct ScrollPrep {
    pub dx: Result<i32, String>,
    pub dy: Result<i32, String>,
}

pub open spec fn prep_view(r: Result<i32, String>) -> Result<i32, Seq<char>> {
    match r {
        Ok(v) => Ok(v),
        Err(e) => Err(e@),
    }
}

/// Whether a command's own steps answer it (a screenshot answers with its
/// file, a close with its outcome).
pub open spec fn answers_itself(v: VariantView) -> bool {
    v is Screenshot || v is Close
}

/// Whether the compositor handles the command at once, without a target
/// window.
pub open spec fn is_immediate(v: VariantView) -> bool {
    v is Launch || v is List || v is Quit
}

/// The steps of a command aimed at a window, before the answer.
pub open spec fn command_steps(
    v: VariantView,
    t: TimingOptions,
    scroll: Option<(Result<i32, Seq<char>>, Result<i32, Seq<char>>)>,
) -> Result<Seq<ActionView>, Seq<char>> {
    match v {
        VariantView::Key { code, action } => Ok(
            key_press_spec(code, action, t.key_event_interval_ms),
        ),
        VariantView::Chord { codes } => Ok(chord_spec(codes, t)),
        VariantView::Text(s) => match text_events_spec(s) {
            Ok(evs) => Ok(key_events_spec(evs, t.key_event_interval_ms)),
            Err(e) => Err(e),
        },
        VariantView::KeysSequence { actions } => keys_sequence_steps(actions, t),
        VariantView::PointerMove { x, y } => Ok(seq![ActionView::PointerMove { x, y }]),
        VariantView::PointerButton { button, action } => Ok(button_spec(button, action)),
        VariantView::Click { x, y, button } => Ok(
            seq![
                ActionView::PointerMove { x, y },
                ActionView::PointerButton { button, state: ButtonState::Pressed },
                ActionView::PointerButton { button, state: ButtonState::Released },
            ],
        ),
        VariantView::PointerDrag { start_x, start_y, end_x, end_y, button } => Ok(
            seq![
                ActionView::PointerMove { x: start_x, y: start_y },
                ActionView::PointerButton { button, state: ButtonState::Pressed },
                ActionView::PointerMove { x: end_x, y: end_y },
                ActionView::PointerButton { button, state: ButtonState::Released },
            ],
        ),
        VariantView::Scroll { .. } => match scroll {
            Some((Err(e), _)) => Err(e),
            Some((Ok(_), Err(e))) => Err(e),
            Some((Ok(dx), Ok(dy))) => if dx != 0 || dy != 0 {
                Ok(seq![ActionView::Scroll { dx_v120: dx, dy_v120: dy }])
            } else {
                Ok(Seq::empty())
            },
            None => Ok(Seq::empty()),
        },
        VariantView::Screenshot { path } => Ok(
            seq![ActionView::Screenshot { path, delay_after_ms: t.command_interval_ms }],
        ),
        VariantView::Close => Ok(seq![ActionView::Close]),
        VariantView::Sleep { duration_ms } => Ok(seq![ActionView::Delay { ms: duration_ms }]),
        _ => Ok(Seq::empty()),
    }
}

/// The whole plan of a command aimed at a window: its steps, then the success
/// answer unless the steps answer the command themselves.
pub open spec fn plan_spec(
    v: VariantView,
    t: TimingOptions,
    scroll: Option<(Result<i32, Seq<char>>, Result<i32, Seq<char>>)>,
) -> Result<Seq<ActionView>, Seq<char>> {
    match command_steps(v, t, scroll) {
        Err(e) => Err(e),
        Ok(steps) => if answers_itself(v) {
            Ok(steps)
        } else {
            Ok(steps + seq![ActionView::RespondOk { delay_after_ms: t.command_interval_ms }])
        },
    }
}

fn push_action(out: &mut Vec<QueuedActionKind>, k: QueuedActionKind)
    ensures
        kinds_view(final(out)@) == kinds_view(old(out)@).push(k@),
{
    let ghost kv = k@;
    out.push(k);
    assert(kinds_view(out@) =~= kinds_view(old(out)@).push(kv));
}

fn push_key_press(out: &mut Vec<QueuedActionKind>, code: u32, action: PressAction, interval: u64)
    ensures
        kinds_view(final(out)@) == kinds_view(old(out)@) + key_press_spec(code, action, interval),
{
    let states = action.key_states();
    let mut i: usize = 0;
    while i < states.len()
        invariant
            states@ == key_states_spec(action),
            i <= states@.len(),
            kinds_view(out@) == kinds_view(old(out)@) + key_press_spec(code, action, interval).take(
                2 * i,
            ),
        decreases states@.len() - i,
    {
        push_action(out, QueuedActionKind::Key { code, state: states[i] });
        push_action(out, QueuedActionKind::Delay { ms: interval });
        assert(key_press_spec(code, action, interval).take(2 * i + 2) =~= key_press_spec(
            code,
            action,
            interval,
        ).take(2 * i).push(ActionView::Key { code, state: states@[i as int] }).push(
            ActionView::Delay { ms: interval },
        ));
        i += 1;
    }
    assert(key_press_spec(code, action, interval).take(2 * states@.len() as int) =~= key_press_spec(
        code,
        action,
        interval,
    ));
}

fn push_key_events(out: &mut Vec<QueuedActionKind>, events: &Vec<(u32, PressAction)>, interval: u64)
    ensures
        kinds_view(final(out)@) == kinds_view(old(out)@) + key_events_spec(events@, interval),
{
    let mut i: usize = 0;
    while i < events.len()
        invariant
            i <= events@.len(),
            kinds_view(out@) == kinds_view(old(out)@) + key_events_spec(
                events@.take(i as int),
                interval,
            ),
        decreases events@.len() - i,
    {
        let (code, action) = events[i];
        let ghost before = kinds_view(out@);
        push_key_press(out, code, action, interval);
        assert(events@.take(i + 1).drop_last() =~= events@.take(i as int));
        assert(kinds_view(out@) =~= kinds_view(old(out)@) + key_events_spec(
            events@.take(i + 1),
            interval,
        ));
        i += 1;
    }
    assert(events@.take(events@.len() as int) =~= events@);
}

fn push_chord(out: &mut Vec<QueuedActionKind>, codes: &Vec<u32>, t: TimingOptions)
    ensures
        kinds_view(final(out)@) == kinds_view(old(out)@) + chord_spec(codes@, t),
{
    let mut i: usize = 0;
    while i < codes.len()
        invariant
            i <= codes@.len(),
            kinds_view(out@) == kinds_view(old(out)@) + chord_presses(
                codes@.take(i as int),
                t.chord_key_interval_ms,
            ),
        decreases codes@.len() - i,
    {
        assert(codes@.take(i + 1).drop_last() =~= codes@.take(i as int));
        if i > 0 {
            push_action(out, QueuedActionKind::Delay { ms: t.chord_key_interval_ms });
        }
        push_action(out, QueuedActionKind::Key { code: codes[i], state: KeyState::Pressed });
        assert(kinds_view(out@) =~= kinds_view(old(out)@) + chord_presses(
            codes@.take(i + 1),
            t.chord_key_interval_ms,
        ));
        i += 1;
    }
    assert(codes@.take(codes@.len() as int) =~= codes@);
    push_action(out, QueuedActionKind::Delay { ms: t.chord_hold_ms });
    let ghost mid = kinds_view(out@);
    proof {
        lemma_chord_releases_len(codes@);
    }
    let mut j: usize = codes.len();
    assert(codes@.take(codes@.len() as int).skip(codes@.len() as int) =~= Seq::<u32>::empty());
    while j > 0
        invariant
            j <= codes@.len(),
            kinds_view(out@) == mid + chord_releases(codes@).take(codes@.len() - j),
            chord_releases(codes@).len() == codes@.len(),
        decreases j,
    {
        proof {
            lemma_chord_releases_at(codes@, codes@.len() - j);
        }
        push_action(out, QueuedActionKind::Key { code: codes[j - 1], state: KeyState::Released });
        assert(chord_releases(codes@).take(codes@.len() - j + 1) =~= chord_releases(codes@).take(
            codes@.len() - j,
        ).push(ActionView::Key { code: codes@[j - 1], state: KeyState::Released }));
        j -= 1;
    }
    assert(chord_releases(codes@).take(codes@.len() as int) =~= chord_releases(codes@));
    push_action(out, QueuedActionKind::Delay { ms: t.key_event_interval_ms });
    assert(kinds_view(out@) =~= kinds_view(old(out)@) + chord_spec(codes@, t));
}

/// The `k`-th release of a chord releases the `k`-th key counted from the end.
pub proof fn lemma_chord_releases_at(codes: Seq<u32>, k: int)
    requires
        0 <= k < codes.len(),
    ensures
        chord_releases(codes).len() == codes.len(),
        chord_releases(codes)[k] == (ActionView::Key {
            code: codes[codes.len() - 1 - k],
            state: KeyState::Released,
        }),
    decreases codes.len(),
{
    lemma_chord_releases_len(codes);
    if k > 0 {
        lemma_chord_releases_at(codes.drop_last(), k - 1);
    }
}

pub proof fn lemma_chord_releases_len(codes: Seq<u32>)
    ensures
        chord_releases(codes).len() == codes.len(),
    decreases codes.len(),
{
    if codes.len() > 0 {
        lemma_chord_releases_len(codes.drop_last());
    }
}


fn push_keys_sequence(
    out: &mut Vec<QueuedActionKind>,
    actions: &Vec<KeysSequenceAction>,
    t: TimingOptions,
) -> (r: Result<(), String>)
    ensures
        match keys_sequence_steps(actions_view(actions@), t) {
            Ok(steps) => r is Ok && kinds_view(final(out)@) == kinds_view(old(out)@) + steps,
            Err(e) => r matches Err(m) && m@ == e,
        },
{
    let mut i: usize = 0;
    while i < actions.len()
        invariant
            i <= actions@.len(),
            keys_sequence_steps(actions_view(actions@.take(i as int)), t) matches Ok(steps)
                && kinds_view(out@) == kinds_view(old(out)@) + steps,
        decreases actions@.len() - i,
    {
        let ghost prefix = actions_view(actions@.take(i as int));
        let ghost next = actions_view(actions@.take(i + 1));
        assert(next.drop_last() =~= prefix);
        assert(next.last() == actions@[i as int]@);
        let ghost before = kinds_view(out@);
        match &actions[i] {
            KeysSequenceAction::Text(text) => {
                match text_to_key_events(text.as_str()) {
                    Ok(events) => {
                        push_key_events(out, &events, t.key_event_interval_ms);
                    },
                    Err(e) => {
                        proof {
                            lemma_keys_sequence_error_persists(actions_view(actions@), t, i + 1);
                        }
                        assert(actions_view(actions@).take(i + 1) =~= next);
                        return Err(e);
                    },
                }
            },
            KeysSequenceAction::Chord(codes) => {
                push_chord(out, codes, t);
            },
            KeysSequenceAction::Wait { duration_ms } => {
                push_action(out, QueuedActionKind::Delay { ms: *duration_ms });
            },
        }
        assert(kinds_view(out@) =~= kinds_view(old(out)@) + keys_sequence_steps(next, t)->Ok_0);
        i += 1;
    }
    assert(actions@.take(actions@.len() as int) =~= actions@);
    Ok(())
}

/// Once a prefix of a key sequence fails, the whole sequence fails with the
/// same error.
pub proof fn lemma_keys_sequence_error_persists(actions: Seq<KeysAction>, t: TimingOptions, n: int)
    requires
        0 <= n <= actions.len(),
        keys_sequence_steps(actions.take(n), t) is Err,
    ensures
        keys_sequence_steps(actions, t) == keys_sequence_steps(actions.take(n), t),
    decreases actions.len() - n,
{
    if n < actions.len() {
        assert(actions.take(n + 1).drop_last() =~= actions.take(n));
        lemma_keys_sequence_error_persists(actions, t, n + 1);
    } else {
        assert(actions.take(n) =~= actions);
    }
}

/// The actions that carry out a command aimed at a window, ending with the
/// success answer unless the command answers itself; or the error that
/// refuses the command, in which case nothing is to be queued. `scroll` holds
/// a scroll command's amounts, converted to 1/120 detents.
pub fn plan_command(
    variant: ControlCommandVariant,
    t: TimingOptions,
    scroll: Option<ScrollPrep>,
) -> (r: Result<Vec<QueuedActionKind>, String>)
    requires
        !is_immediate(variant@),
        variant@ is Scroll ==> scroll is Some,
    ensures
        ({
            let sv = match scroll {
                Some(p) => Some((prep_view(p.dx), prep_view(p.dy))),
                None => None,
            };
            match plan_spec(variant@, t, sv) {
                Ok(steps) => r matches Ok(plan) && kinds_view(plan@) == steps,
                Err(e) => r matches Err(m) && m@ == e,
            }
        }),
{
    let ghost v = variant@;
    let responds = match &variant {
        ControlCommandVariant::Screenshot { .. } => false,
        ControlCommandVariant::Close => false,
        _ => true,
    };
    let mut out: Vec<QueuedActionKind> = Vec::new();
    assert(kinds_view(out@) =~= Seq::<ActionView>::empty());
    match variant {
        ControlCommandVariant::Key { code, action } => {
            push_key_press(&mut out, code, action, t.key_event_interval_ms);
        },
        ControlCommandVariant::Chord { codes } => {
            push_chord(&mut out, &codes, t);
        },
        ControlCommandVariant::Text(text) => {
            match text_to_key_events(text.as_str()) {
                Ok(events) => push_key_events(&mut out, &events, t.key_event_interval_ms),
                Err(e) => {
                    return Err(e);
                },
            }
        },
        ControlCommandVariant::KeysSequence { actions } => {
            match push_keys_sequence(&mut out, &actions, t) {
                Ok(()) => {},
                Err(e) => {
                    return Err(e);
                },
            }
        },
        ControlCommandVariant::PointerMove { x, y } => {
            push_action(&mut out, QueuedActionKind::PointerMove { x, y });
        },
        ControlCommandVariant::PointerButton { button, action } => {
            let states = action.button_states();
            push_action(&mut out, QueuedActionKind::PointerButton { button, state: states[0] });
            if states.len() > 1 {
                push_action(&mut out, QueuedActionKind::PointerButton { button, state: states[1] });
            }
        },
        ControlCommandVariant::Click { x, y, button } => {
            push_action(&mut out, QueuedActionKind::PointerMove { x, y });
            push_action(
                &mut out,
                QueuedActionKind::PointerButton { button, state: ButtonState::Pressed },
            );
            push_action(
                &mut out,
                QueuedActionKind::PointerButton { button, state: ButtonState::Released },
            );
        },
        ControlCommandVariant::PointerDrag { start_x, start_y, end_x, end_y, button } => {
            push_action(&mut out, QueuedActionKind::PointerMove { x: start_x, y: start_y });
            push_action(
                &mut out,
                QueuedActionKind::PointerButton { button, state: ButtonState::Pressed },
            );
            push_action(&mut out, QueuedActionKind::PointerMove { x: end_x, y: end_y });
            push_action(
                &mut out,
                QueuedActionKind::PointerButton { button, state: ButtonState::Released },
            );
        },
        ControlCommandVariant::Scroll { .. } => {
            match scroll {
                Some(ScrollPrep { dx, dy }) => {
                    let dx = match dx {
                        Ok(v) => v,
                        Err(e) => {
                            return Err(e);
                        },
                    };
                    let dy = match dy {
                        Ok(v) => v,
                        Err(e) => {
                            return Err(e);
                        },
                    };
                    if dx != 0 || dy != 0 {
                        push_action(&mut out, QueuedActionKind::Scroll { dx_v120: dx, dy_v120: dy });
                    }
                },
                None => {},
            }
        },
        ControlCommandVariant::Screenshot { path } => {
            push_action(
                &mut out,
                QueuedActionKind::Screenshot { path, delay_after_ms: t.command_interval_ms },
            );
        },
        ControlCommandVariant::Close => {
            push_action(&mut out, QueuedActionKind::Close);
        },
        ControlCommandVariant::Sleep { duration_ms } => {
            push_action(&mut out, QueuedActionKind::Delay { ms: duration_ms });
        },
        _ => {},
    }
    if responds {
        push_action(&mut out, QueuedActionKind::RespondOk { delay_after_ms: t.command_interval_ms });
    }
    Ok(out)
}

/// Whether window `id` exists and shows a toplevel.
pub open spec fn is_alive(r: RegistryView, id: u64) -> bool {
    r.ids.contains(id) && !is_empty_view(r.windows[index_of_handle(r.ids, id)])
}

/// `unknown window: <id>`.
pub open spec fn unknown_window_message(id: u64) -> Seq<char> {
    "unknown window: "@ + decimal(id as nat)
}

/// The message that reports a window that is gone.
pub fn unknown_window(id: u64) -> (r: String)
    ensures
        r@ == unknown_window_message(id),
{
    let mut out: Vec<char> = Vec::new();
    push_str(&mut out, "unknown window: ");
    push_decimal(&mut out, id);
    assert(out@ =~= unknown_window_message(id));
    chars_to_string(&out)
}

/// The window a command acts on: the window it names, which must be alive,
/// or else the alive window with the lowest id.
pub fn resolve_target(window: Option<u64>, registry: &WindowRegistry) -> (r: Result<
    AutoWindowId,
    String,
>)
    requires
        registry_wf(registry@),
    ensures
        window == Some(0u64) ==> (r matches Err(e) && e@ == "invalid window id"@),
        forall|w: u64|
            window == Some(w) && w > 0 ==> {
                &&& is_alive(registry@, w) ==> (r matches Ok(id) && id.id() == w)
                &&& !is_alive(registry@, w) ==> (r matches Err(e) && e@ == unknown_window_message(
                    w,
                ))
            },
        window is None ==> {
            &&& (forall|i: int|
                0 <= i < registry@.windows.len() ==> is_empty_view(#[trigger] registry@.windows[i]))
                ==> (r matches Err(e) && e@ == "no windows are open"@)
            &&& r matches Ok(id) ==> is_alive(registry@, id.id()) && forall|j: int|
                0 <= j < registry@.ids.len() && !is_empty_view(#[trigger] registry@.windows[j])
                    ==> id.id() <= registry@.ids[j]
            &&& r is Ok || (forall|i: int|
                0 <= i < registry@.windows.len() ==> is_empty_view(#[trigger] registry@.windows[i]))
        },
        no_target(window, registry@) ==> (r matches Err(e) && target_error_spec(window, e@)),
        !no_target(window, registry@) ==> (r matches Ok(id) && target_ok(window, registry@, id.id())),
{
    match window {
        Some(w) => match AutoWindowId::from_raw(w) {
            None => Err(crate::text::fixed("invalid window id")),
            Some(id) => {
                if registry.is_gone(id) {
                    Err(unknown_window(id.raw()))
                } else {
                    Ok(id)
                }
            },
        },
        None => match registry.first_alive_id() {
            Some(id) => {
                proof {
                    let k = choose|k: int|
                        0 <= k < registry@.ids.len() && registry@.ids[k] == id.id()
                            && !is_empty_view(#[trigger] registry@.windows[k]);
                    crate::window::lemma_registry_ids_distinct(registry@);
                    crate::window::lemma_index_of_handle_at(registry@.ids, k);
                }
                Ok(id)
            },
            None => Err(crate::text::fixed("no windows are open")),
        },
    }
}


/// An action waiting in the control queue, with the window it acts on and the
/// handle of the command it belongs to.
#[derive(Debug)]
pub struct QueuedAction {
    pub window_id: AutoWindowId,
    pub response: u64,
    pub kind: QueuedActionKind,
}

/// Mathematical value of a [`QueuedAction`].
pub struct QueuedView {
    pub window: u64,
    pub response: u64,
    pub kind: ActionView,
}

impl View for QueuedAction {
    type V = QueuedView;

    open spec fn view(&self) -> QueuedView {
        QueuedView { window: self.window_id.id(), response: self.response, kind: self.kind@ }
    }
}

pub open spec fn queued_view(v: Seq<QueuedAction>) -> Seq<QueuedView> {
    v.map_values(|a: QueuedAction| a@)
}

/// Input, screenshots and close requests act on their window; pauses and
/// answers do not.
pub open spec fn requires_live_window(k: ActionView) -> bool {
    !(k is Delay || k is RespondOk)
}

/// Input is delivered to the window's client.
pub open spec fn delivers_to_window(k: ActionView) -> bool {
    k is Key || k is PointerMove || k is PointerButton || k is Scroll
}

/// How long the queue waits after an action before the next one.
pub open spec fn pause_after(k: ActionView) -> Option<u64> {
    match k {
        ActionView::Delay { ms } => Some(ms),
        ActionView::Screenshot { delay_after_ms, .. } => if delay_after_ms > 0 {
            Some(delay_after_ms)
        } else {
            None
        },
        ActionView::RespondOk { delay_after_ms } => if delay_after_ms > 0 {
            Some(delay_after_ms)
        } else {
            None
        },
        _ => None,
    }
}

/// Keeps the actions of other commands than `response`.
pub open spec fn other_command(response: u64) -> spec_fn(QueuedView) -> bool {
    |a: QueuedView| a.response != response
}

/// The actions of the commands in progress, in the order they are replayed.
#[derive(Debug)]
pub struct ControlQueue {
    actions: Vec<QueuedAction>,
}

impl View for ControlQueue {
    type V = Seq<QueuedView>;

    closed spec fn view(&self) -> Seq<QueuedView> {
        queued_view(self.actions@)
    }
}

/// What the queue asks of the compositor next.
#[derive(Debug)]
pub enum QueueStep {
    /// Nothing is queued.
    Idle,
    /// The window of the command `response` is gone: answer it with
    /// `message`; its other actions were dropped.
    Failed { response: u64, message: String },
    /// Carry out `action`; `deliver` tells whether it reaches the window's
    /// client; `pause_ms`, when present, is the wait before the next action.
    Run { action: QueuedAction, deliver: bool, pause_ms: Option<u64> },
}

impl ControlQueue {
    pub fn new() -> (r: ControlQueue)
        ensures
            r@ == Seq::<QueuedView>::empty(),
    {
        let q = ControlQueue { actions: Vec::new() };
        assert(q@ =~= Seq::<QueuedView>::empty());
        q
    }

    pub fn len(&self) -> (r: usize)
        ensures
            r == self@.len(),
    {
        self.actions.len()
    }

    /// Appends the plan of command `response` aimed at `window_id`.
    pub fn enqueue(&mut self, window_id: AutoWindowId, response: u64, plan: Vec<QueuedActionKind>)
        ensures
            final(self)@.len() == old(self)@.len() + plan@.len(),
            final(self)@.take(old(self)@.len() as int) == old(self)@,
            forall|k: int|
                0 <= k < plan@.len() ==> #[trigger] final(self)@[old(self)@.len() + k] == (
                QueuedView { window: window_id.id(), response, kind: plan@[k]@ }),
    {
        let ghost orig = plan@;
        let ghost start = self@;
        let mut rest = plan;
        let total = rest.len();
        let mut n: usize = 0;
        while rest.len() > 0
            invariant
                orig.len() == total,
                n <= orig.len(),
                rest@ == orig.skip(n as int),
                self@.len() == start.len() + n,
                self@.take(start.len() as int) == start,
                forall|k: int|
                    0 <= k < n ==> #[trigger] self@[start.len() + k] == (QueuedView {
                        window: window_id.id(),
                        response,
                        kind: orig[k]@,
                    }),
            decreases rest@.len(),
        {
            let k = rest.remove(0);
            assert(k == orig[n as int]);
            assert(rest@ =~= orig.skip(n + 1));
            let ghost s0 = self@;
            self.actions.push(QueuedAction { window_id, response, kind: k });
            assert(self@ =~= s0.push(QueuedView { window: window_id.id(), response, kind: k@ }));
            assert(self@.take(start.len() as int) =~= s0.take(start.len() as int));
            n += 1;
        }
    }

    /// Drops every action of command `response`, keeping the others in order.
    pub fn drop_command(&mut self, response: u64)
        ensures
            final(self)@ == old(self)@.filter(other_command(response)),
    {
        let mut kept: Vec<QueuedAction> = Vec::new();
        let ghost orig = self@;
        let mut rest: Vec<QueuedAction> = Vec::new();
        std::mem::swap(&mut rest, &mut self.actions);
        let total = rest.len();
        let mut n: usize = 0;
        while rest.len() > 0
            invariant
                orig.len() == total,
                n <= total,
                queued_view(rest@) == orig.skip(n as int),
                queued_view(kept@) == orig.take(n as int).filter(other_command(response)),
            decreases rest@.len(),
        {
            let ghost r0 = rest@;
            let a = rest.remove(0);
            proof {
                assert(queued_view(r0).len() == r0.len());
                assert(queued_view(r0)[0] == a@);
                assert(orig.skip(n as int)[0] == orig[n as int]);
                assert(a@ == orig[n as int]);
                assert(queued_view(rest@) =~= queued_view(r0).skip(1));
                assert(orig.skip(n as int).skip(1) =~= orig.skip(n + 1));
                assert(queued_view(rest@) =~= orig.skip(n + 1));
                assert(orig.take(n + 1).drop_last() =~= orig.take(n as int));
                reveal(Seq::filter);
            }
            if a.response != response {
                let ghost k0 = kept@;
                kept.push(a);
                assert(queued_view(kept@) =~= queued_view(k0).push(orig[n as int]));
            }
            n += 1;
        }
        assert(orig.take(total as int) =~= orig);
        self.actions = kept;
    }

    /// Takes the next action off the queue. An action that needs its window,
    /// when that window is gone, fails its whole command instead.
    pub fn next_step(&mut self, registry: &WindowRegistry) -> (r: QueueStep)
        ensures
            old(self)@.len() == 0 ==> (r is Idle && final(self)@ == old(self)@),
            old(self)@.len() > 0 ==> ({
                let front = old(self)@[0];
                let rest = old(self)@.skip(1);
                if requires_live_window(front.kind) && !is_alive(registry@, front.window) {
                    &&& r matches QueueStep::Failed { response, message }
                    &&& response == front.response
                    &&& message@ == unknown_window_message(front.window)
                    &&& final(self)@ == rest.filter(other_command(front.response))
                } else {
                    &&& r matches QueueStep::Run { action, deliver, pause_ms }
                    &&& action@ == front
                    &&& deliver == delivers_to_window(front.kind)
                    &&& pause_ms == pause_after(front.kind)
                    &&& final(self)@ == rest
                }
            }),
    {
        if self.actions.len() == 0 {
            return QueueStep::Idle;
        }
        let ghost before = self@;
        let action = self.actions.remove(0);
        assert(self@ =~= before.skip(1));
        assert(action@ == before[0]);
        let needs_window = match action.kind {
            QueuedActionKind::Delay { .. } => false,
            QueuedActionKind::RespondOk { .. } => false,
            _ => true,
        };
        if needs_window && registry.is_gone(action.window_id) {
            let response = action.response;
            let message = unknown_window(action.window_id.raw());
            self.drop_command(response);
            return QueueStep::Failed { response, message };
        }
        let deliver = match action.kind {
            QueuedActionKind::Key { .. } => true,
            QueuedActionKind::PointerMove { .. } => true,
            QueuedActionKind::PointerButton { .. } => true,
            QueuedActionKind::Scroll { .. } => true,
            _ => false,
        };
        let pause_ms = match action.kind {
            QueuedActionKind::Delay { ms } => Some(ms),
            QueuedActionKind::Screenshot { delay_after_ms, .. } => if delay_after_ms > 0 {
                Some(delay_after_ms)
            } else {
                None
            },
            QueuedActionKind::RespondOk { delay_after_ms } => if delay_after_ms > 0 {
                Some(delay_after_ms)
            } else {
                None
            },
            _ => None,
        };
        QueueStep::Run { action, deliver, pause_ms }
    }
}


/// What the compositor does with a control command.
#[derive(Debug)]
pub enum CommandDecision {
    /// Start this program (and arguments) now and answer with the outcome.
    Launch { command: Vec<String> },
    /// Answer with the list of windows now.
    List,
    /// Shut down and answer with success now.
    Quit,
    /// Answer with this error now; nothing is queued.
    Reject { message: String },
    /// Queue these actions against window `window_id`.
    Queue { window_id: AutoWindowId, plan: Vec<QueuedActionKind> },
}

/// Decides how a command is carried out: launch, list and quit at once,
/// other commands against their target window, or an error when the target
/// or the command cannot be used.
pub fn decide_command(
    command: ControlCommand,
    registry: &WindowRegistry,
    t: TimingOptions,
    scroll: Option<ScrollPrep>,
) -> (r: CommandDecision)
    requires
        registry_wf(registry@),
        command.variant@ is Scroll ==> scroll is Some,
    ensures
        command.variant@ matches VariantView::Launch { command: c } ==> (r matches
            CommandDecision::Launch { command: l } && crate::control::strings_view(l@) == c),
        command.variant@ is List ==> r is List,
        command.variant@ is Quit ==> r is Quit,
        !is_immediate(command.variant@) && no_target(command.window, registry@) ==> (r matches
            CommandDecision::Reject { message } && target_error_spec(
            command.window,
            message@,
        )),
        !is_immediate(command.variant@) && !no_target(command.window, registry@) ==> ({
            let sv = match scroll {
                Some(p) => Some((prep_view(p.dx), prep_view(p.dy))),
                None => None,
            };
            match plan_spec(command.variant@, t, sv) {
                Ok(steps) => r matches CommandDecision::Queue { window_id, plan } && target_ok(
                    command.window,
                    registry@,
                    window_id.id(),
                ) && kinds_view(plan@) == steps,
                Err(e) => r matches CommandDecision::Reject { message } && message@ == e,
            }
        }),
{
    let ControlCommand { window, variant } = command;
    match variant {
        ControlCommandVariant::Launch { command } => CommandDecision::Launch { command },
        ControlCommandVariant::List => CommandDecision::List,
        ControlCommandVariant::Quit => CommandDecision::Quit,
        variant => match resolve_target(window, registry) {
            Err(message) => CommandDecision::Reject { message },
            Ok(window_id) => match plan_command(variant, t, scroll) {
                Ok(plan) => CommandDecision::Queue { window_id, plan },
                Err(message) => CommandDecision::Reject { message },
            },
        },
    }
}

/// Whether `id` is the window a command aimed at `window` acts on: the
/// window it names, when alive, or else the alive window with the lowest id.
pub open spec fn target_ok(window: Option<u64>, r: RegistryView, id: u64) -> bool {
    match window {
        Some(w) => w > 0 && is_alive(r, w) && id == w,
        None => is_alive(r, id) && forall|j: int|
            0 <= j < r.ids.len() && !is_empty_view(#[trigger] r.windows[j]) ==> id <= r.ids[j],
    }
}

/// Whether a command aimed at `window` has no window to act on.
pub open spec fn no_target(window: Option<u64>, r: RegistryView) -> bool {
    match window {
        Some(w) => w == 0 || !is_alive(r, w),
        None => forall|i: int| 0 <= i < r.windows.len() ==> is_empty_view(#[trigger] r.windows[i]),
    }
}

/// The error for a command whose target cannot be used.
pub open spec fn target_error_spec(window: Option<u64>, message: Seq<char>) -> bool {
    match window {
        Some(w) => if w == 0 {
            message == "invalid window id"@
        } else {
            message == unknown_window_message(w)
        },
        None => message == "no windows are open"@,
    }
}


/// The codes of the key presses among `actions`, in order.
pub open spec fn pressed_codes(actions: Seq<ActionView>) -> Seq<u32>
    decreases actions.len(),
{
    if actions.len() == 0 {
        Seq::empty()
    } else {
        let rest = pressed_codes(actions.drop_last());
        match actions.last() {
            ActionView::Key { code, state: KeyState::Pressed } => rest.push(code),
            _ => rest,
        }
    }
}

/// The codes of the key releases among `actions`, in order.
pub open spec fn released_codes(actions: Seq<ActionView>) -> Seq<u32>
    decreases actions.len(),
{
    if actions.len() == 0 {
        Seq::empty()
    } else {
        let rest = released_codes(actions.drop_last());
        match actions.last() {
            ActionView::Key { code, state: KeyState::Released } => rest.push(code),
            _ => rest,
        }
    }
}

proof fn lemma_codes_single(a: ActionView)
    ensures
        pressed_codes(seq![a]) == (match a {
            ActionView::Key { code, state: KeyState::Pressed } => seq![code],
            _ => Seq::<u32>::empty(),
        }),
        released_codes(seq![a]) == (match a {
            ActionView::Key { code, state: KeyState::Released } => seq![code],
            _ => Seq::<u32>::empty(),
        }),
{
    assert(seq![a].drop_last() =~= Seq::<ActionView>::empty());
    reveal_with_fuel(pressed_codes, 2);
    reveal_with_fuel(released_codes, 2);
    assert(pressed_codes(Seq::<ActionView>::empty()) == Seq::<u32>::empty());
    assert(released_codes(Seq::<ActionView>::empty()) == Seq::<u32>::empty());
}

proof fn lemma_codes_concat(a: Seq<ActionView>, b: Seq<ActionView>)
    ensures
        pressed_codes(a + b) == pressed_codes(a) + pressed_codes(b),
        released_codes(a + b) == released_codes(a) + released_codes(b),
    decreases b.len(),
{
    if b.len() == 0 {
        assert(a + b =~= a);
    } else {
        lemma_codes_concat(a, b.drop_last());
        assert((a + b).drop_last() =~= a + b.drop_last());
        assert((a + b).last() == b.last());
    }
}

proof fn lemma_chord_presses_codes(codes: Seq<u32>, interval: u64)
    ensures
        pressed_codes(chord_presses(codes, interval)) == codes,
        released_codes(chord_presses(codes, interval)) == Seq::<u32>::empty(),
    decreases codes.len(),
{
    if codes.len() == 1 {
        lemma_codes_single(ActionView::Key { code: codes[0], state: KeyState::Pressed });
        assert(codes =~= seq![codes[0]]);
    } else if codes.len() > 1 {
        lemma_chord_presses_codes(codes.drop_last(), interval);
        let tail = seq![
            ActionView::Delay { ms: interval },
            ActionView::Key { code: codes.last(), state: KeyState::Pressed },
        ];
        lemma_codes_concat(chord_presses(codes.drop_last(), interval), tail);
        let d = seq![ActionView::Delay { ms: interval }];
        let k = seq![ActionView::Key { code: codes.last(), state: KeyState::Pressed }];
        assert(tail =~= d + k);
        lemma_codes_concat(d, k);
        lemma_codes_single(ActionView::Delay { ms: interval });
        lemma_codes_single(ActionView::Key { code: codes.last(), state: KeyState::Pressed });
        assert(pressed_codes(tail) =~= seq![codes.last()]);
        assert(released_codes(tail) =~= Seq::<u32>::empty());
        assert(codes.drop_last().push(codes.last()) =~= codes);
    }
}

proof fn lemma_chord_releases_codes(codes: Seq<u32>)
    ensures
        pressed_codes(chord_releases(codes)) == Seq::<u32>::empty(),
        released_codes(chord_releases(codes)) == codes.reverse(),
    decreases codes.len(),
{
    if codes.len() == 0 {
        assert(codes.reverse() =~= Seq::<u32>::empty());
    } else {
        lemma_chord_releases_codes(codes.drop_last());
        let head = seq![ActionView::Key { code: codes.last(), state: KeyState::Released }];
        lemma_codes_concat(head, chord_releases(codes.drop_last()));
        lemma_codes_single(ActionView::Key { code: codes.last(), state: KeyState::Released });
        assert(released_codes(head) =~= seq![codes.last()]);
        assert(pressed_codes(head) =~= Seq::<u32>::empty());
        assert(codes.reverse() =~= seq![codes.last()] + codes.drop_last().reverse());
    }
}

/// A chord presses its keys in the order given and releases them in the
/// reverse order.
pub proof fn lemma_chord_press_release_order(codes: Seq<u32>, t: TimingOptions)
    ensures
        pressed_codes(chord_spec(codes, t)) == codes,
        released_codes(chord_spec(codes, t)) == codes.reverse(),
{
    let p = chord_presses(codes, t.chord_key_interval_ms);
    let hold = seq![ActionView::Delay { ms: t.chord_hold_ms }];
    let r = chord_releases(codes);
    let last = seq![ActionView::Delay { ms: t.key_event_interval_ms }];
    lemma_chord_presses_codes(codes, t.chord_key_interval_ms);
    lemma_chord_releases_codes(codes);
    lemma_codes_concat(p, hold);
    lemma_codes_concat(p + hold, r);
    lemma_codes_concat(p + hold + r, last);
    lemma_codes_single(ActionView::Delay { ms: t.chord_hold_ms });
    lemma_codes_single(ActionView::Delay { ms: t.key_event_interval_ms });
    assert(pressed_codes(hold) =~= Seq::<u32>::empty());
    assert(released_codes(hold) =~= Seq::<u32>::empty());
    assert(pressed_codes(last) =~= Seq::<u32>::empty());
    assert(released_codes(last) =~= Seq::<u32>::empty());
    assert(pressed_codes(chord_spec(codes, t)) =~= codes);
    assert(released_codes(chord_spec(codes, t)) =~= codes.reverse());
}

/// A command that does not answer itself is answered last, after all its
/// steps, with the command interval as the pause that follows.
pub proof fn lemma_plan_ends_with_answer(
    v: VariantView,
    t: TimingOptions,
    scroll: Option<(Result<i32, Seq<char>>, Result<i32, Seq<char>>)>,
)
    requires
        !answers_itself(v),
        plan_spec(v, t, scroll) is Ok,
    ensures
        plan_spec(v, t, scroll)->Ok_0.len() > 0,
        plan_spec(v, t, scroll)->Ok_0.last() == (ActionView::RespondOk {
            delay_after_ms: t.command_interval_ms,
        }),
{
}

/// Once a command fails, none of its actions stay queued, and every action
/// of another command stays.
pub proof fn lemma_failed_command_is_dropped(q: Seq<QueuedView>, response: u64)
    ensures
        forall|i: int|
            0 <= i < q.filter(other_command(response)).len() ==> (#[trigger] q.filter(
                other_command(response),
            )[i]).response != response,
        forall|i: int|
            0 <= i < q.len() && (#[trigger] q[i]).response != response ==> q.filter(
                other_command(response),
            ).contains(q[i]),
{
    broadcast use vstd::seq_lib::group_filter_ensures;
    assert forall|i: int|
        0 <= i < q.filter(other_command(response)).len() implies (#[trigger] q.filter(
            other_command(response),
        )[i]).response != response by {
        q.lemma_filter_pred(other_command(response), i);
    }
    assert forall|i: int| 0 <= i < q.len() && (#[trigger] q[i]).response != response implies q.filter(
        other_command(response),
    ).contains(q[i]) by {
        q.lemma_filter_contains(other_command(response), i);
    }
}

proof fn lemma_key_press_codes(code: u32, action: PressAction, interval: u64)
    ensures
        pressed_codes(key_press_spec(code, action, interval)) == (match action {
            PressAction::Up => Seq::<u32>::empty(),
            _ => seq![code],
        }),
        released_codes(key_press_spec(code, action, interval)) == (match action {
            PressAction::Down => Seq::<u32>::empty(),
            _ => seq![code],
        }),
{
    let p = ActionView::Key { code, state: KeyState::Pressed };
    let r = ActionView::Key { code, state: KeyState::Released };
    let d = ActionView::Delay { ms: interval };
    lemma_codes_single(p);
    lemma_codes_single(r);
    lemma_codes_single(d);
    match action {
        PressAction::Down => {
            assert(key_press_spec(code, action, interval) =~= seq![p] + seq![d]);
            lemma_codes_concat(seq![p], seq![d]);
        },
        PressAction::Up => {
            assert(key_press_spec(code, action, interval) =~= seq![r] + seq![d]);
            lemma_codes_concat(seq![r], seq![d]);
        },
        PressAction::Press => {
            assert(key_press_spec(code, action, interval) =~= seq![p] + seq![d] + seq![r] + seq![d]);
            lemma_codes_concat(seq![p], seq![d]);
            lemma_codes_concat(seq![p] + seq![d], seq![r]);
            lemma_codes_concat(seq![p] + seq![d] + seq![r], seq![d]);
        },
    }
}

proof fn lemma_key_events_concat(a: Seq<(u32, PressAction)>, b: Seq<(u32, PressAction)>, iv: u64)
    ensures
        key_events_spec(a + b, iv) == key_events_spec(a, iv) + key_events_spec(b, iv),
    decreases b.len(),
{
    if b.len() == 0 {
        assert(a + b =~= a);
        assert(key_events_spec(a, iv) + key_events_spec(b, iv) =~= key_events_spec(a, iv));
    } else {
        lemma_key_events_concat(a, b.drop_last(), iv);
        assert((a + b).drop_last() =~= a + b.drop_last());
        assert((a + b).last() == b.last());
        assert(key_events_spec(a + b, iv) =~= key_events_spec(a, iv) + key_events_spec(b, iv));
    }
}

proof fn lemma_key_events_single(e: (u32, PressAction), iv: u64)
    ensures
        key_events_spec(seq![e], iv) == key_press_spec(e.0, e.1, iv),
{
    assert(seq![e].drop_last() =~= Seq::<(u32, PressAction)>::empty());
    assert(key_events_spec(Seq::<(u32, PressAction)>::empty(), iv) =~= Seq::<ActionView>::empty());
    assert(key_events_spec(seq![e], iv) =~= key_press_spec(e.0, e.1, iv));
}

proof fn lemma_char_events_balanced(code: u32, shifted: bool, iv: u64)
    ensures
        pressed_codes(key_events_spec(char_events(code, shifted), iv)).to_multiset()
            == released_codes(key_events_spec(char_events(code, shifted), iv)).to_multiset(),
{
    broadcast use vstd::seq_lib::lemma_multiset_commutative;

    let sh = crate::control::shift_code();
    if shifted {
        let e1 = seq![(sh, PressAction::Down)];
        let e2 = seq![(code, PressAction::Press)];
        let e3 = seq![(sh, PressAction::Up)];
        assert(char_events(code, shifted) =~= e1 + e2 + e3);
        lemma_key_events_concat(e1, e2, iv);
        lemma_key_events_concat(e1 + e2, e3, iv);
        lemma_key_events_single((sh, PressAction::Down), iv);
        lemma_key_events_single((code, PressAction::Press), iv);
        lemma_key_events_single((sh, PressAction::Up), iv);
        lemma_key_press_codes(sh, PressAction::Down, iv);
        lemma_key_press_codes(code, PressAction::Press, iv);
        lemma_key_press_codes(sh, PressAction::Up, iv);
        let a1 = key_press_spec(sh, PressAction::Down, iv);
        let a2 = key_press_spec(code, PressAction::Press, iv);
        let a3 = key_press_spec(sh, PressAction::Up, iv);
        lemma_codes_concat(a1, a2);
        lemma_codes_concat(a1 + a2, a3);
        let pc = pressed_codes(key_events_spec(char_events(code, shifted), iv));
        let rc = released_codes(key_events_spec(char_events(code, shifted), iv));
        assert(pc =~= seq![sh] + seq![code]);
        assert(rc =~= seq![code] + seq![sh]);
        vstd::seq_lib::lemma_seq_union_to_multiset_commutative(seq![sh], seq![code]);
    } else {
        assert(char_events(code, shifted) =~= seq![(code, PressAction::Press)]);
        lemma_key_events_single((code, PressAction::Press), iv);
        lemma_key_press_codes(code, PressAction::Press, iv);
    }
}

/// Typing text releases every key it presses: over the whole text, the keys
/// released are the keys pressed, counted with repetition.
pub proof fn lemma_text_releases_every_key(text: Seq<char>, iv: u64)
    requires
        text_events_spec(text) is Ok,
    ensures
        pressed_codes(key_events_spec(text_events_spec(text)->Ok_0, iv)).to_multiset()
            == released_codes(key_events_spec(text_events_spec(text)->Ok_0, iv)).to_multiset(),
    decreases text.len(),
{
    broadcast use vstd::seq_lib::lemma_multiset_commutative;

    if text.len() == 0 {
        let evs = text_events_spec(text)->Ok_0;
        assert(evs =~= Seq::<(u32, PressAction)>::empty());
        assert(pressed_codes(key_events_spec(evs, iv)) =~= Seq::<u32>::empty());
        assert(released_codes(key_events_spec(evs, iv)) =~= Seq::<u32>::empty());
    } else {
        lemma_text_releases_every_key(text.drop_last(), iv);
        let prev = text_events_spec(text.drop_last())->Ok_0;
        let (code, shifted) = char_to_key_spec(text.last()).unwrap();
        let ce = char_events(code, shifted);
        assert(text_events_spec(text)->Ok_0 == prev + ce);
        lemma_key_events_concat(prev, ce, iv);
        lemma_codes_concat(key_events_spec(prev, iv), key_events_spec(ce, iv));
        lemma_char_events_balanced(code, shifted, iv);
    }
}

/// A click at (x, y) first moves the pointer there and only then presses and
/// releases the button: its plan is the steps of a pointer move to (x, y),
/// then those of a press of the button, then the answer; no button event
/// comes before that move.
pub proof fn lemma_click_moves_before_pressing(
    x: Seq<char>,
    y: Seq<char>,
    button: u32,
    t: TimingOptions,
    scroll: Option<(Result<i32, Seq<char>>, Result<i32, Seq<char>>)>,
)
    ensures
        plan_spec(VariantView::Click { x, y, button }, t, scroll) == Ok::<Seq<ActionView>, Seq<char>>(
            command_steps(VariantView::PointerMove { x, y }, t, scroll)->Ok_0
                + command_steps(VariantView::PointerButton { button, action: PressAction::Press }, t, scroll)->Ok_0
                + seq![ActionView::RespondOk { delay_after_ms: t.command_interval_ms }],
        ),
        plan_spec(VariantView::Click { x, y, button }, t, scroll)->Ok_0[0] == (ActionView::PointerMove { x, y }),
        forall|i: int| 0 <= i < plan_spec(VariantView::Click { x, y, button }, t, scroll)->Ok_0.len()
            && (#[trigger] plan_spec(VariantView::Click { x, y, button }, t, scroll)->Ok_0[i]) is PointerButton
            ==> i > 0,
{
    let p = plan_spec(VariantView::Click { x, y, button }, t, scroll)->Ok_0;
    assert(button_states_spec(PressAction::Press) =~= seq![ButtonState::Pressed, ButtonState::Released]);
    assert(p =~= command_steps(VariantView::PointerMove { x, y }, t, scroll)->Ok_0
        + command_steps(VariantView::PointerButton { button, action: PressAction::Press }, t, scroll)->Ok_0
        + seq![ActionView::RespondOk { delay_after_ms: t.command_interval_ms }]);
}

/// A drag presses the button only once the pointer is at the start, and
/// releases it only once the pointer is at the end: move to the start, press
/// down, move to the end, release, answer.
pub proof fn lemma_drag_order(
    sx: Seq<char>,
    sy: Seq<char>,
    ex: Seq<char>,
    ey: Seq<char>,
    button: u32,
    t: TimingOptions,
    scroll: Option<(Result<i32, Seq<char>>, Result<i32, Seq<char>>)>,
)
    ensures
        plan_spec(
            VariantView::PointerDrag { start_x: sx, start_y: sy, end_x: ex, end_y: ey, button },
            t,
            scroll,
        ) == Ok::<Seq<ActionView>, Seq<char>>(
            command_steps(VariantView::PointerMove { x: sx, y: sy }, t, scroll)->Ok_0
                + command_steps(VariantView::PointerButton { button, action: PressAction::Down }, t, scroll)->Ok_0
                + command_steps(VariantView::PointerMove { x: ex, y: ey }, t, scroll)->Ok_0
                + command_steps(VariantView::PointerButton { button, action: PressAction::Up }, t, scroll)->Ok_0
                + seq![ActionView::RespondOk { delay_after_ms: t.command_interval_ms }],
        ),
{
    assert(button_states_spec(PressAction::Down) =~= seq![ButtonState::Pressed]);
    assert(button_states_spec(PressAction::Up) =~= seq![ButtonState::Released]);
    let p = plan_spec(
        VariantView::PointerDrag { start_x: sx, start_y: sy, end_x: ex, end_y: ey, button },
        t,
        scroll,
    )->Ok_0;
    assert(p =~= command_steps(VariantView::PointerMove { x: sx, y: sy }, t, scroll)->Ok_0
        + command_steps(VariantView::PointerButton { button, action: PressAction::Down }, t, scroll)->Ok_0
        + command_steps(VariantView::PointerMove { x: ex, y: ey }, t, scroll)->Ok_0
        + command_steps(VariantView::PointerButton { button, action: PressAction::Up }, t, scroll)->Ok_0
        + seq![ActionView::RespondOk { delay_after_ms: t.command_interval_ms }]);
}

} // verus!
