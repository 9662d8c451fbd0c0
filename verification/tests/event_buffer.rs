use strudel_clap_plugin::event::StrudelEvent;
use strudel_clap_plugin::event_buffer::{DoubleEventBuffer, EventBuffer};

fn create_test_event(onset: (i64, i64), duration: (i64, i64)) -> StrudelEvent {
    let mut params = serde_json::Map::new();
    params.insert("s".to_string(), serde_json::Value::String("bd".to_string()));
    StrudelEvent {
        onset,
        duration,
        event_type: "audio".to_string(),
        params: serde_json::Value::Object(params),
    }
}

/// Flags the events whose onset, as a float, lies in `[start_time, end_time)`.
fn onsets_in_range(events: &[StrudelEvent], start_time: f64, end_time: f64) -> Vec<bool> {
    events
        .iter()
        .map(|e| {
            let t = e.onset.0 as f64 / e.onset.1 as f64;
            t >= start_time && t < end_time
        })
        .collect()
}

#[test]
fn test_event_buffer_creation() {
    let buffer = EventBuffer::new(4);
    assert_eq!(buffer.buffer_size_cycles(), 4);
    assert!(buffer.is_empty());
}

#[test]
fn test_event_buffer_update() {
    let mut buffer = EventBuffer::new(4);
    let events = vec![
        create_test_event((0, 1), (1, 4)),
        create_test_event((1, 4), (1, 4)),
    ];

    buffer.update(events.clone(), 0, 1);
    assert_eq!(buffer.len(), 2);
    assert_eq!(buffer.start_cycle(), 0);
    assert_eq!(buffer.end_cycle(), 1);
}

#[test]
fn test_event_buffer_get_events_in_range() {
    let mut buffer = EventBuffer::new(4);
    let events = vec![
        create_test_event((0, 1), (1, 4)),
        create_test_event((1, 4), (1, 4)),
        create_test_event((1, 2), (1, 4)),
        create_test_event((3, 4), (1, 4)),
    ];

    buffer.update(events, 0, 1);

    let keep = onsets_in_range(buffer.get_all_events(), 0.0, 0.5);
    let events_in_range = buffer.events_where(&keep);
    assert_eq!(events_in_range.len(), 2);

    let keep = onsets_in_range(buffer.get_all_events(), 0.25, 1.0);
    let events_in_range = buffer.events_where(&keep);
    assert_eq!(events_in_range.len(), 3);
}

#[test]
fn test_event_buffer_contains_cycle() {
    let mut buffer = EventBuffer::new(4);
    buffer.update(vec![], 5, 9);

    assert!(buffer.contains_cycle(5));
    assert!(buffer.contains_cycle(7));
    assert!(buffer.contains_cycle(8));
    assert!(!buffer.contains_cycle(4));
    assert!(!buffer.contains_cycle(9));
}

#[test]
fn test_double_buffer_creation() {
    let buffer = DoubleEventBuffer::new(4);
    assert_eq!(buffer.read_all_events().len(), 0);
}

#[test]
fn test_double_buffer_write_and_swap() {
    let mut buffer = DoubleEventBuffer::new(4);
    let events = vec![
        create_test_event((0, 1), (1, 4)),
        create_test_event((1, 4), (1, 4)),
    ];

    buffer.write_events(events.clone(), 0, 1);
    assert_eq!(buffer.read_all_events().len(), 0);

    buffer.swap_buffers();

    assert_eq!(buffer.read_all_events().len(), 2);
    assert_eq!(buffer.read_start_cycle(), 0);
    assert_eq!(buffer.read_end_cycle(), 1);
}

#[test]
fn test_double_buffer_read_events_in_range() {
    let mut buffer = DoubleEventBuffer::new(4);
    let events = vec![
        create_test_event((0, 1), (1, 4)),
        create_test_event((1, 2), (1, 4)),
    ];

    buffer.write_events(events, 0, 1);
    buffer.swap_buffers();

    let keep = onsets_in_range(buffer.read_buffer().get_all_events(), 0.0, 0.5);
    let events_in_range = buffer.read_events_where(&keep);
    assert_eq!(events_in_range.len(), 1);
}

#[test]
fn test_double_buffer_clear() {
    let mut buffer = DoubleEventBuffer::new(4);
    let events = vec![create_test_event((0, 1), (1, 4))];

    buffer.write_events(events, 0, 1);
    buffer.swap_buffers();

    assert_eq!(buffer.read_all_events().len(), 1);

    buffer.clear();

    assert_eq!(buffer.read_all_events().len(), 0);
}

#[test]
fn events_where_keeps_flagged_events_in_order() {
    let mut buffer = EventBuffer::new(2);
    buffer.update(
        vec![
            create_test_event((0, 1), (1, 8)),
            create_test_event((1, 8), (1, 8)),
            create_test_event((1, 4), (1, 8)),
        ],
        3,
        5,
    );
    let picked = buffer.events_where(&vec![true, false, true]);
    assert_eq!(picked.len(), 2);
    assert_eq!(picked[0].onset, (0, 1));
    assert_eq!(picked[1].onset, (1, 4));
    assert_eq!(picked[1].event_type, "audio");
    assert_eq!(picked[1].params["s"], serde_json::Value::String("bd".to_string()));
    assert!(buffer.events_where(&vec![false, false, false]).is_empty());
}

#[test]
fn update_replaces_events_and_keeps_size() {
    let mut buffer = EventBuffer::new(8);
    buffer.update(vec![create_test_event((0, 1), (1, 4))], 0, 2);
    buffer.update(vec![], 2, 4);
    assert!(buffer.is_empty());
    assert_eq!(buffer.start_cycle(), 2);
    assert_eq!(buffer.end_cycle(), 4);
    assert_eq!(buffer.buffer_size_cycles(), 8);
}

#[test]
fn clear_resets_range() {
    let mut buffer = EventBuffer::new(8);
    buffer.update(vec![create_test_event((0, 1), (1, 4))], 3, 6);
    buffer.clear();
    assert!(buffer.is_empty());
    assert_eq!(buffer.start_cycle(), 0);
    assert_eq!(buffer.end_cycle(), 0);
    assert!(!buffer.contains_cycle(0));
    assert_eq!(buffer.buffer_size_cycles(), 8);
}

#[test]
fn write_is_invisible_until_swap_and_swap_twice_restores() {
    let mut buffer = DoubleEventBuffer::new(4);
    buffer.write_events(vec![create_test_event((0, 1), (1, 4))], 0, 4);
    buffer.swap_buffers();
    buffer.write_events(
        vec![create_test_event((1, 2), (1, 4)), create_test_event((3, 4), (1, 4))],
        4,
        8,
    );
    assert_eq!(buffer.read_all_events().len(), 1);
    assert_eq!(buffer.read_start_cycle(), 0);
    assert!(buffer.read_contains_cycle(3));
    assert!(!buffer.read_contains_cycle(4));
    buffer.swap_buffers();
    assert_eq!(buffer.read_all_events().len(), 2);
    assert_eq!(buffer.read_start_cycle(), 4);
    assert_eq!(buffer.read_end_cycle(), 8);
    buffer.swap_buffers();
    assert_eq!(buffer.read_all_events().len(), 1);
    assert_eq!(buffer.read_end_cycle(), 4);
}

#[test]
fn duplicate_copies_every_field() {
    let e = create_test_event((3, 8), (1, 16));
    let c = e.duplicate();
    assert_eq!(c.onset, (3, 8));
    assert_eq!(c.duration, (1, 16));
    assert_eq!(c.event_type, "audio");
    assert_eq!(c.params, e.params);
}

#[test]
fn publish_makes_events_readable() {
    let mut buffer = DoubleEventBuffer::new(4);
    buffer.publish(vec![create_test_event((0, 1), (1, 4))], 2, 6);
    assert_eq!(buffer.read_all_events().len(), 1);
    assert_eq!(buffer.read_start_cycle(), 2);
    assert_eq!(buffer.read_end_cycle(), 6);
    buffer.publish(vec![], 6, 10);
    assert!(buffer.read_all_events().is_empty());
    assert!(buffer.read_contains_cycle(9));
}
