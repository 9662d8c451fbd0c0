use strudel_clap_plugin::eval_state::{BufferAction, EvalState};
use strudel_clap_plugin::event::StrudelEvent;
use strudel_clap_plugin::event_buffer::DoubleEventBuffer;

fn event() -> StrudelEvent {
    StrudelEvent {
        onset: (0, 1),
        duration: (1, 2),
        event_type: "audio".to_string(),
        params: serde_json::Value::Null,
    }
}

#[test]
fn failed_code_clears_and_unloads() {
    let mut s = EvalState::new(4);
    assert_eq!(s.on_code_evaluated(false), BufferAction::Clear);
    assert!(!s.has_pattern);
}

#[test]
fn code_renders_only_while_playing() {
    let buffer = DoubleEventBuffer::new(4);
    let mut s = EvalState::new(4);
    assert_eq!(s.on_code_evaluated(true), BufferAction::Keep);
    assert!(s.has_pattern);
    assert_eq!(
        s.on_transport(true, 2, 2, &buffer),
        BufferAction::Render { start_cycle: 2, end_cycle: 6 }
    );
    assert_eq!(
        s.on_code_evaluated(true),
        BufferAction::Render { start_cycle: 2, end_cycle: 6 }
    );
}

#[test]
fn transport_renders_when_leaving_the_buffer() {
    let mut buffer = DoubleEventBuffer::new(4);
    let mut s = EvalState::new(4);
    s.on_code_evaluated(true);
    let a = s.on_transport(true, 0, 0, &buffer);
    assert_eq!(a, BufferAction::Render { start_cycle: 0, end_cycle: 4 });
    buffer.write_events(vec![event()], 0, 4);
    buffer.swap_buffers();
    assert_eq!(s.on_transport(true, 3, 3, &buffer), BufferAction::Keep);
    assert_eq!(
        s.on_transport(true, 4, 4, &buffer),
        BufferAction::Render { start_cycle: 4, end_cycle: 8 }
    );
    assert_eq!(s.cycle, 4);
}

#[test]
fn stopping_clears_once() {
    let buffer = DoubleEventBuffer::new(4);
    let mut s = EvalState::new(4);
    assert_eq!(s.on_transport(true, 0, 0, &buffer), BufferAction::Keep);
    assert_eq!(s.on_transport(false, 1, 1, &buffer), BufferAction::Clear);
    assert!(!s.playing);
    assert_eq!(s.on_transport(false, 1, 1, &buffer), BufferAction::Keep);
}

#[test]
fn no_render_without_pattern() {
    let buffer = DoubleEventBuffer::new(4);
    let mut s = EvalState::new(8);
    assert_eq!(s.on_transport(true, 5, 5, &buffer), BufferAction::Keep);
    assert_eq!(s.cycle, 5);
}

#[test]
fn repeated_transport_update_keeps() {
    let mut buffer = DoubleEventBuffer::new(4);
    let mut s = EvalState::new(4);
    s.on_code_evaluated(true);
    match s.on_transport(true, 1, 1, &buffer) {
        BufferAction::Render { start_cycle, end_cycle } => buffer.publish(vec![event()], start_cycle, end_cycle),
        other => panic!("expected a render, got {:?}", other),
    }
    let before = s;
    assert_eq!(s.on_transport(true, 1, 1, &buffer), BufferAction::Keep);
    assert_eq!(s, before);
}
