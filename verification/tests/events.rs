use koharu::events::{EventSequencer, DEFAULT_EVENT_CAPACITY};

#[test]
fn live_events_are_sequenced_from_one() {
    let mut sequencer = EventSequencer::new();
    assert_eq!(sequencer.next_sequence(), 1);
    assert_eq!(sequencer.next_sequence(), 2);
    assert_eq!(sequencer.next_sequence(), 3);
    assert_eq!(DEFAULT_EVENT_CAPACITY, 256);
}
