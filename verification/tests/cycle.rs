use tinkerbell::controller::{step, Action, CycleState, Event};
use tinkerbell::sensor::{SensorError, Temperature};

fn run_cycle(outcome: Result<Temperature, SensorError>) -> (CycleState, Vec<Action>) {
    let events = vec![
        Event::Advance,
        Event::TimerElapsed,
        Event::Advance,
        Event::Advance,
        Event::Advance,
        Event::TimerElapsed,
        Event::SensorReply(outcome),
        Event::Advance,
    ];
    let mut state = CycleState::Idle;
    let mut actions: Vec<Action> = Vec::new();
    for event in events {
        let (next, mut acts) = step(state, event);
        state = next;
        actions.append(&mut acts);
    }
    (state, actions)
}

fn display_ops(actions: &[Action]) -> Vec<&Action> {
    actions
        .iter()
        .filter(|a| {
            matches!(
                a,
                Action::ClearDisplay
                    | Action::HomeCursor
                    | Action::WriteText(_)
                    | Action::SetCursor(_)
                    | Action::SetAutoscroll(_)
                    | Action::WriteRawByte(_)
            )
        })
        .collect()
}

#[test]
fn successful_cycle_display_sequence() {
    let (state, actions) = run_cycle(Ok(Temperature { raw: 1360 }));
    assert!(matches!(state, CycleState::Idle));
    let shown = display_ops(&actions);
    assert_eq!(shown.len(), 8);
    assert!(matches!(shown[0], Action::ClearDisplay));
    assert!(matches!(shown[1], Action::HomeCursor));
    match shown[2] {
        Action::WriteText(s) => assert_eq!(s.as_str(), "## TINKERBELL ##"),
        other => panic!("expected the banner, got {:?}", display_op_name(other)),
    }
    assert!(matches!(shown[3], Action::SetCursor(40)));
    assert!(matches!(shown[4], Action::SetAutoscroll(false)));
    match shown[5] {
        Action::WriteText(s) => assert_eq!(s.as_str(), "Temp: 85.0"),
        other => panic!("expected the reading, got {:?}", display_op_name(other)),
    }
    assert!(matches!(shown[6], Action::WriteRawByte(0xDF)));
    assert!(matches!(shown[7], Action::WriteRawByte(b'C')));
}

#[test]
fn successful_cycle_delays_are_the_two_fixed_holds() {
    let (_, actions) = run_cycle(Ok(Temperature { raw: 1360 }));
    let delays: Vec<u64> = actions
        .iter()
        .filter_map(|a| match a {
            Action::DelayMs(ms) => Some(*ms),
            _ => None,
        })
        .collect();
    assert_eq!(delays, vec![1000, 1000]);
}

#[test]
fn failed_cycle_skips_the_report_but_not_the_cycle() {
    let (state, actions) = run_cycle(Err(SensorError::ChecksumMismatch));
    assert!(matches!(state, CycleState::Idle));
    let shown = display_ops(&actions);
    assert_eq!(shown.len(), 5);
    assert!(matches!(shown[0], Action::ClearDisplay));
    assert!(matches!(shown[1], Action::HomeCursor));
    match shown[2] {
        Action::WriteText(s) => assert_eq!(s.as_str(), "## TINKERBELL ##"),
        other => panic!("expected the banner, got {:?}", display_op_name(other)),
    }
    assert!(matches!(shown[3], Action::SetCursor(40)));
    assert!(matches!(shown[4], Action::SetAutoscroll(false)));
    assert!(actions.iter().any(|a| matches!(a, Action::LogError)));
    let delays: Vec<u64> = actions
        .iter()
        .filter_map(|a| match a {
            Action::DelayMs(ms) => Some(*ms),
            _ => None,
        })
        .collect();
    assert_eq!(delays, vec![1000, 1000]);
}

#[test]
fn transport_fault_is_reported_like_any_failure() {
    let (state, actions) = run_cycle(Err(SensorError::TransportFault));
    assert!(matches!(state, CycleState::Idle));
    assert!(actions.iter().any(|a| matches!(a, Action::LogError)));
    assert_eq!(display_ops(&actions).len(), 5);
}

#[test]
fn failed_cycle_is_followed_by_a_fresh_indicator_pulse() {
    let (state, _) = run_cycle(Err(SensorError::ChecksumMismatch));
    let (next, actions) = step(state, Event::Advance);
    assert!(matches!(next, CycleState::IndicatorOn));
    assert!(matches!(actions[0], Action::SetIndicator(true)));
    assert!(matches!(actions[1], Action::DelayMs(1000)));
}

#[test]
fn unexpected_event_leaves_the_state_alone() {
    let (state, actions) = step(CycleState::Idle, Event::TimerElapsed);
    assert!(matches!(state, CycleState::Idle));
    assert!(actions.is_empty());
    let (state, actions) = step(CycleState::ConversionWait, Event::Advance);
    assert!(matches!(state, CycleState::ConversionWait));
    assert!(actions.is_empty());
}

fn display_op_name(a: &Action) -> &'static str {
    match a {
        Action::SetIndicator(_) => "SetIndicator",
        Action::DelayMs(_) => "DelayMs",
        Action::ClearDisplay => "ClearDisplay",
        Action::HomeCursor => "HomeCursor",
        Action::WriteText(_) => "WriteText",
        Action::SetCursor(_) => "SetCursor",
        Action::SetAutoscroll(_) => "SetAutoscroll",
        Action::WriteRawByte(_) => "WriteRawByte",
        Action::StartConversion => "StartConversion",
        Action::ReadScratchpad => "ReadScratchpad",
        Action::LogError => "LogError",
    }
}
