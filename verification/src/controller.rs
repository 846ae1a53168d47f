//! The cycle controller: a repeating four-stage cycle — indicator pulse,
//! display reset, acquire, report — expressed as a state machine from
//! state and event to next state and actions. Whoever owns the hardware
//! performs each action in order (sets the indicator, waits out a delay,
//! drives the display, runs a bus transaction) and feeds the resulting
//! event back in. A failed reading short-circuits only the display write
//! of the report stage, never the cycle itself.

use vstd::prelude::*;
use crate::sensor::{SensorError, Temperature};
use crate::text::{banner, banner_bytes, format_temperature, hstring_bytes, temp_text_bytes};

verus! {

/// Where the cycle stands. One full cycle visits, in order: `Idle`,
/// `IndicatorOn`, `IndicatorOff`, `DisplayCleared`, `ConversionStarted`,
/// `ConversionWait`, `ReadIssued`, then `Formatted` or `Failed`, then
/// `Idle` again. No stage is skipped.
#[derive(Clone, Copy, PartialEq, Eq, Structural, Debug)]
pub enum CycleState {
    Idle,
    IndicatorOn,
    IndicatorOff,
    DisplayCleared,
    ConversionStarted,
    ConversionWait,
    ReadIssued,
    Formatted,
    Failed,
}

/// What the outside world reports back to the controller.
#[derive(Clone, Copy, Debug)]
pub enum Event {
    /// The previous actions finished; no waiting was involved.
    Advance,
    /// A requested delay has elapsed.
    TimerElapsed,
    /// The bus transaction finished: a validated reading, or the failure
    /// of the cycle.
    SensorReply(Result<Temperature, SensorError>),
}

/// What the controller asks the outside world to do.
pub enum Action {
    /// Drive the status indicator on or off.
    SetIndicator(bool),
    /// Suspend for this many milliseconds, then report `TimerElapsed`.
    DelayMs(u64),
    /// Clear the display's visible content.
    ClearDisplay,
    /// Home the display's write cursor.
    HomeCursor,
    /// Write these bytes to the display.
    WriteText(heapless::String<16>),
    /// Move the display cursor to this offset.
    SetCursor(u8),
    /// Enable or disable the display's autoscroll.
    SetAutoscroll(bool),
    /// Write one raw byte (a symbol glyph) to the display.
    WriteRawByte(u8),
    /// Send the start-conversion commands on the bus.
    StartConversion,
    /// Run the read transaction and reply with the validated reading.
    ReadScratchpad,
    /// Emit the diagnostic message for a failed reading.
    LogError,
}

/// An action with its text as the bytes it holds: what the contracts
/// speak of.
pub enum ActionView {
    SetIndicator(bool),
    DelayMs(u64),
    ClearDisplay,
    HomeCursor,
    WriteText(Seq<u8>),
    SetCursor(u8),
    SetAutoscroll(bool),
    WriteRawByte(u8),
    StartConversion,
    ReadScratchpad,
    LogError,
}

impl View for Action {
    type V = ActionView;

    open spec fn view(&self) -> ActionView {
        match self {
            Action::SetIndicator(on) => ActionView::SetIndicator(*on),
            Action::DelayMs(ms) => ActionView::DelayMs(*ms),
            Action::ClearDisplay => ActionView::ClearDisplay,
            Action::HomeCursor => ActionView::HomeCursor,
            Action::WriteText(s) => ActionView::WriteText(hstring_bytes(*s)),
            Action::SetCursor(pos) => ActionView::SetCursor(*pos),
            Action::SetAutoscroll(on) => ActionView::SetAutoscroll(*on),
            Action::WriteRawByte(b) => ActionView::WriteRawByte(*b),
            Action::StartConversion => ActionView::StartConversion,
            Action::ReadScratchpad => ActionView::ReadScratchpad,
            Action::LogError => ActionView::LogError,
        }
    }
}

/// The views of a sequence of actions.
pub open spec fn action_views(s: Seq<Action>) -> Seq<ActionView> {
    s.map_values(|a: Action| a@)
}

/// The display offset of the second line.
pub const SECOND_LINE: u8 = 40;

/// The degree glyph the display understands.
pub const DEGREE_GLYPH: u8 = 0xDF;

/// The unit letter written after the degree glyph.
pub const UNIT_LETTER: u8 = 0x43;

/// The state one step of the cycle moves to. An event a state does not
/// wait for leaves it where it stands.
pub open spec fn next_state(s: CycleState, e: Event) -> CycleState {
    match (s, e) {
        (CycleState::Idle, Event::Advance) => CycleState::IndicatorOn,
        (CycleState::IndicatorOn, Event::TimerElapsed) => CycleState::IndicatorOff,
        (CycleState::IndicatorOff, Event::Advance) => CycleState::DisplayCleared,
        (CycleState::DisplayCleared, Event::Advance) => CycleState::ConversionStarted,
        (CycleState::ConversionStarted, Event::Advance) => CycleState::ConversionWait,
        (CycleState::ConversionWait, Event::TimerElapsed) => CycleState::ReadIssued,
        (CycleState::ReadIssued, Event::SensorReply(Ok(_))) => CycleState::Formatted,
        (CycleState::ReadIssued, Event::SensorReply(Err(_))) => CycleState::Failed,
        (CycleState::Formatted, Event::Advance) => CycleState::Idle,
        (CycleState::Failed, Event::Advance) => CycleState::Idle,
        _ => s,
    }
}

/// The actions one step of the cycle asks for.
pub open spec fn step_actions(s: CycleState, e: Event) -> Seq<ActionView> {
    match (s, e) {
        (CycleState::Idle, Event::Advance) => seq![
            ActionView::SetIndicator(true),
            ActionView::DelayMs(1000),
        ],
        (CycleState::IndicatorOn, Event::TimerElapsed) => seq![ActionView::SetIndicator(false)],
        (CycleState::IndicatorOff, Event::Advance) => seq![
            ActionView::ClearDisplay,
            ActionView::HomeCursor,
            ActionView::WriteText(banner_bytes()),
        ],
        (CycleState::DisplayCleared, Event::Advance) => seq![ActionView::StartConversion],
        (CycleState::ConversionStarted, Event::Advance) => seq![ActionView::DelayMs(1000)],
        (CycleState::ConversionWait, Event::TimerElapsed) => seq![
            ActionView::SetCursor(SECOND_LINE),
            ActionView::SetAutoscroll(false),
            ActionView::ReadScratchpad,
        ],
        (CycleState::ReadIssued, Event::SensorReply(Ok(t))) => seq![
            ActionView::WriteText(temp_text_bytes(t.raw as int)),
            ActionView::WriteRawByte(DEGREE_GLYPH),
            ActionView::WriteRawByte(UNIT_LETTER),
        ],
        (CycleState::ReadIssued, Event::SensorReply(Err(_))) => seq![ActionView::LogError],
        (CycleState::Formatted, Event::Advance) => Seq::empty(),
        (CycleState::Failed, Event::Advance) => Seq::empty(),
        _ => Seq::empty(),
    }
}

/// One step of the cycle: from the state and the event that arrived, the
/// next state and the actions to perform, exactly as `next_state` and
/// `step_actions` give them.
pub fn step(s: CycleState, e: Event) -> (r: (CycleState, Vec<Action>))
    ensures
        r.0 == next_state(s, e),
        action_views(r.1@) == step_actions(s, e),
{
    let r = match (s, e) {
        (CycleState::Idle, Event::Advance) => (
            CycleState::IndicatorOn,
            vec![Action::SetIndicator(true), Action::DelayMs(1000)],
        ),
        (CycleState::IndicatorOn, Event::TimerElapsed) => (
            CycleState::IndicatorOff,
            vec![Action::SetIndicator(false)],
        ),
        (CycleState::IndicatorOff, Event::Advance) => (
            CycleState::DisplayCleared,
            vec![Action::ClearDisplay, Action::HomeCursor, Action::WriteText(banner())],
        ),
        (CycleState::DisplayCleared, Event::Advance) => (
            CycleState::ConversionStarted,
            vec![Action::StartConversion],
        ),
        (CycleState::ConversionStarted, Event::Advance) => (
            CycleState::ConversionWait,
            vec![Action::DelayMs(1000)],
        ),
        (CycleState::ConversionWait, Event::TimerElapsed) => (
            CycleState::ReadIssued,
            vec![
                Action::SetCursor(SECOND_LINE),
                Action::SetAutoscroll(false),
                Action::ReadScratchpad,
            ],
        ),
        (CycleState::ReadIssued, Event::SensorReply(res)) => match res {
            Ok(t) => (
                CycleState::Formatted,
                vec![
                    Action::WriteText(format_temperature(t)),
                    Action::WriteRawByte(DEGREE_GLYPH),
                    Action::WriteRawByte(UNIT_LETTER),
                ],
            ),
            Err(_) => (CycleState::Failed, vec![Action::LogError]),
        },
        (CycleState::Formatted, Event::Advance) => (CycleState::Idle, Vec::new()),
        (CycleState::Failed, Event::Advance) => (CycleState::Idle, Vec::new()),
        _ => (s, Vec::new()),
    };
    proof {
        assert(action_views(r.1@) =~= step_actions(s, e));
    }
    r
}

/// The state after a sequence of events, stepping from `s`.
pub open spec fn run_state(s: CycleState, es: Seq<Event>) -> CycleState
    decreases es.len(),
{
    if es.len() == 0 {
        s
    } else {
        run_state(next_state(s, es[0]), es.subrange(1, es.len() as int))
    }
}

/// Every action a sequence of events asks for, in order, stepping from
/// `s`.
pub open spec fn run_actions(s: CycleState, es: Seq<Event>) -> Seq<ActionView>
    decreases es.len(),
{
    if es.len() == 0 {
        Seq::empty()
    } else {
        step_actions(s, es[0]) + run_actions(next_state(s, es[0]), es.subrange(1, es.len() as int))
    }
}

/// The events of one full cycle whose read transaction ends in `outcome`.
pub open spec fn cycle_events(outcome: Result<Temperature, SensorError>) -> Seq<Event> {
    seq![
        Event::Advance,
        Event::TimerElapsed,
        Event::Advance,
        Event::Advance,
        Event::Advance,
        Event::TimerElapsed,
        Event::SensorReply(outcome),
        Event::Advance,
    ]
}

/// Is this action one the display receives?
pub open spec fn is_display_op(a: ActionView) -> bool {
    match a {
        ActionView::ClearDisplay => true,
        ActionView::HomeCursor => true,
        ActionView::WriteText(_) => true,
        ActionView::SetCursor(_) => true,
        ActionView::SetAutoscroll(_) => true,
        ActionView::WriteRawByte(_) => true,
        _ => false,
    }
}

/// The actions the display receives, in order.
pub open spec fn display_ops(s: Seq<ActionView>) -> Seq<ActionView>
    decreases s.len(),
{
    if s.len() == 0 {
        Seq::empty()
    } else {
        (if is_display_op(s[0]) {
            seq![s[0]]
        } else {
            Seq::empty()
        }) + display_ops(s.subrange(1, s.len() as int))
    }
}

/// The delays the cycle suspends for, in order.
pub open spec fn delay_ops(s: Seq<ActionView>) -> Seq<ActionView>
    decreases s.len(),
{
    if s.len() == 0 {
        Seq::empty()
    } else {
        (if s[0] is DelayMs {
            seq![s[0]]
        } else {
            Seq::empty()
        }) + delay_ops(s.subrange(1, s.len() as int))
    }
}

/// A cycle whose reading succeeds returns to `Idle` and sends the display
/// exactly: clear, home the cursor, the banner, cursor to the second
/// line, autoscroll off, the formatted temperature, the degree glyph and
/// the unit letter, in that order — and suspends exactly for the
/// indicator hold and the conversion wait.
pub proof fn lemma_cycle_success_display(t: Temperature)
    ensures
        run_state(CycleState::Idle, cycle_events(Ok(t))) == CycleState::Idle,
        display_ops(run_actions(CycleState::Idle, cycle_events(Ok(t)))) == seq![
            ActionView::ClearDisplay,
            ActionView::HomeCursor,
            ActionView::WriteText(banner_bytes()),
            ActionView::SetCursor(SECOND_LINE),
            ActionView::SetAutoscroll(false),
            ActionView::WriteText(temp_text_bytes(t.raw as int)),
            ActionView::WriteRawByte(DEGREE_GLYPH),
            ActionView::WriteRawByte(UNIT_LETTER),
        ],
        delay_ops(run_actions(CycleState::Idle, cycle_events(Ok(t)))) == seq![
            ActionView::DelayMs(1000),
            ActionView::DelayMs(1000),
        ],
{
    let es = cycle_events(Ok(t));
    let acts = run_actions(CycleState::Idle, es);
    reveal_with_fuel(run_state, 9);
    reveal_with_fuel(run_actions, 9);
    assert(run_state(CycleState::Idle, es) == CycleState::Idle);
    assert(acts =~= seq![
        ActionView::SetIndicator(true),
        ActionView::DelayMs(1000),
        ActionView::SetIndicator(false),
        ActionView::ClearDisplay,
        ActionView::HomeCursor,
        ActionView::WriteText(banner_bytes()),
        ActionView::StartConversion,
        ActionView::DelayMs(1000),
        ActionView::SetCursor(SECOND_LINE),
        ActionView::SetAutoscroll(false),
        ActionView::ReadScratchpad,
        ActionView::WriteText(temp_text_bytes(t.raw as int)),
        ActionView::WriteRawByte(DEGREE_GLYPH),
        ActionView::WriteRawByte(UNIT_LETTER),
    ]);
    reveal_with_fuel(display_ops, 15);
    reveal_with_fuel(delay_ops, 15);
    assert(display_ops(acts) =~= seq![
        ActionView::ClearDisplay,
        ActionView::HomeCursor,
        ActionView::WriteText(banner_bytes()),
        ActionView::SetCursor(SECOND_LINE),
        ActionView::SetAutoscroll(false),
        ActionView::WriteText(temp_text_bytes(t.raw as int)),
        ActionView::WriteRawByte(DEGREE_GLYPH),
        ActionView::WriteRawByte(UNIT_LETTER),
    ]);
    assert(delay_ops(acts) =~= seq![ActionView::DelayMs(1000), ActionView::DelayMs(1000)]);
}

/// A cycle whose reading fails still returns to `Idle`, still sends the
/// display the clear, home, banner, cursor-move and autoscroll sequence —
/// but no temperature text and no symbol bytes — emits the diagnostic,
/// and suspends only for the same two fixed delays.
pub proof fn lemma_cycle_failure_display(err: SensorError)
    ensures
        run_state(CycleState::Idle, cycle_events(Err(err))) == CycleState::Idle,
        display_ops(run_actions(CycleState::Idle, cycle_events(Err(err)))) == seq![
            ActionView::ClearDisplay,
            ActionView::HomeCursor,
            ActionView::WriteText(banner_bytes()),
            ActionView::SetCursor(SECOND_LINE),
            ActionView::SetAutoscroll(false),
        ],
        run_actions(CycleState::Idle, cycle_events(Err(err))).contains(ActionView::LogError),
        delay_ops(run_actions(CycleState::Idle, cycle_events(Err(err)))) == seq![
            ActionView::DelayMs(1000),
            ActionView::DelayMs(1000),
        ],
{
    let es = cycle_events(Err(err));
    let acts = run_actions(CycleState::Idle, es);
    reveal_with_fuel(run_state, 9);
    reveal_with_fuel(run_actions, 9);
    assert(run_state(CycleState::Idle, es) == CycleState::Idle);
    assert(acts =~= seq![
        ActionView::SetIndicator(true),
        ActionView::DelayMs(1000),
        ActionView::SetIndicator(false),
        ActionView::ClearDisplay,
        ActionView::HomeCursor,
        ActionView::WriteText(banner_bytes()),
        ActionView::StartConversion,
        ActionView::DelayMs(1000),
        ActionView::SetCursor(SECOND_LINE),
        ActionView::SetAutoscroll(false),
        ActionView::ReadScratchpad,
        ActionView::LogError,
    ]);
    reveal_with_fuel(display_ops, 13);
    reveal_with_fuel(delay_ops, 13);
    assert(display_ops(acts) =~= seq![
        ActionView::ClearDisplay,
        ActionView::HomeCursor,
        ActionView::WriteText(banner_bytes()),
        ActionView::SetCursor(SECOND_LINE),
        ActionView::SetAutoscroll(false),
    ]);
    assert(delay_ops(acts) =~= seq![ActionView::DelayMs(1000), ActionView::DelayMs(1000)]);
    assert(acts[11] == ActionView::LogError);
}

} // verus!
