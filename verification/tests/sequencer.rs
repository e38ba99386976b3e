use scan_engine::command::CommandKind;
use scan_engine::engine::Engine;
use scan_engine::value::EngineError;

#[test]
fn start_inside_open_window_is_a_sequence_error() {
    let mut eng = Engine::new();
    eng.start_measure(&None).unwrap();
    let r = eng.start_measure(&None);
    assert!(matches!(r, Err(EngineError::SequenceError)));
    assert_eq!(eng.out.len(), 1);
}

#[test]
fn stop_without_open_window_is_a_sequence_error() {
    let mut eng = Engine::new();
    let r = eng.stop_measure(&None);
    assert!(matches!(r, Err(EngineError::SequenceError)));
    assert_eq!(eng.out.len(), 0);
}

#[test]
fn one_window_brackets_exactly_once() {
    let mut eng = Engine::new();
    eng.start_measure(&None).unwrap();
    eng.move_to(1, 2, &None);
    eng.stop_measure(&None).unwrap();
    let starts = eng
        .out
        .iter()
        .filter(|c| matches!(c.kind, CommandKind::MeasureStart))
        .count();
    let ends = eng
        .out
        .iter()
        .filter(|c| matches!(c.kind, CommandKind::MeasureEnd))
        .count();
    assert_eq!(starts, 1);
    assert_eq!(ends, 1);
    assert!(matches!(eng.out[0].kind, CommandKind::MeasureStart));
    assert!(matches!(eng.out[2].kind, CommandKind::MeasureEnd));
}

#[test]
fn waits_markers_and_triggers_are_state_transparent() {
    let mut eng = Engine::new();
    eng.start_measure(&None).unwrap();
    eng.wait_usec(25_000, &None);
    eng.set_marker(3, &None);
    eng.wait_trigger(&None);
    eng.stop_measure(&None).unwrap();
    assert_eq!(eng.out.len(), 5);
    assert!(matches!(eng.out[1].kind, CommandKind::Wait { usec: 25_000 }));
    assert!(matches!(eng.out[2].kind, CommandKind::Marker { id: 3 }));
    assert!(matches!(eng.out[3].kind, CommandKind::Trigger));
}
