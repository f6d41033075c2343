use cacophony_audio::midi_event::MidiEvent;
use cacophony_audio::midi_event_queue::{MidiEventQueue, TimedEvent};

fn on(key: u8) -> MidiEvent {
    MidiEvent::NoteOn { channel: 0, key, vel: 100 }
}

fn off(key: u8) -> MidiEvent {
    MidiEvent::NoteOff { channel: 0, key }
}

fn contents(queue: &MidiEventQueue) -> Vec<TimedEvent> {
    (0..queue.len()).map(|i| queue.get(i).unwrap()).collect()
}

#[test]
fn an_empty_queue_hands_out_nothing() {
    let mut queue = MidiEventQueue::new();
    assert!(queue.is_empty());
    assert_eq!(queue.dequeue(0), vec![]);
    assert_eq!(queue.dequeue(u64::MAX), vec![]);
    queue.sort();
    assert_eq!(queue.len(), 0);
    assert_eq!(queue.get(0), None);
}

#[test]
fn enqueue_appends_without_ordering() {
    let mut queue = MidiEventQueue::new();
    queue.enqueue(30, on(1));
    queue.enqueue(10, on(2));
    queue.enqueue(20, on(3));
    assert_eq!(
        contents(&queue),
        vec![
            TimedEvent { sample_time: 30, event: on(1) },
            TimedEvent { sample_time: 10, event: on(2) },
            TimedEvent { sample_time: 20, event: on(3) },
        ]
    );
}

#[test]
fn sort_orders_by_time_and_keeps_ties_in_order() {
    let mut queue = MidiEventQueue::new();
    queue.enqueue(50, off(1));
    queue.enqueue(50, on(2));
    queue.enqueue(0, on(1));
    queue.enqueue(50, off(3));
    queue.enqueue(7, on(3));
    queue.sort();
    assert_eq!(
        contents(&queue),
        vec![
            TimedEvent { sample_time: 0, event: on(1) },
            TimedEvent { sample_time: 7, event: on(3) },
            TimedEvent { sample_time: 50, event: off(1) },
            TimedEvent { sample_time: 50, event: on(2) },
            TimedEvent { sample_time: 50, event: off(3) },
        ]
    );
}

#[test]
fn dequeue_hands_out_what_is_due_and_keeps_the_rest() {
    let mut queue = MidiEventQueue::new();
    queue.enqueue(100, off(1));
    queue.enqueue(0, on(1));
    queue.enqueue(50, on(2));
    queue.enqueue(150, off(2));
    queue.sort();
    assert_eq!(queue.dequeue(50), vec![on(1), on(2)]);
    assert_eq!(
        contents(&queue),
        vec![
            TimedEvent { sample_time: 100, event: off(1) },
            TimedEvent { sample_time: 150, event: off(2) },
        ]
    );
    // A second dequeue at the same time hands out nothing.
    assert_eq!(queue.dequeue(50), vec![]);
    assert_eq!(queue.len(), 2);
    assert_eq!(queue.dequeue(99), vec![]);
    assert_eq!(queue.dequeue(100), vec![off(1)]);
    assert_eq!(queue.dequeue(u64::MAX), vec![off(2)]);
    assert!(queue.is_empty());
}

#[test]
fn dequeue_of_an_unsorted_queue_takes_every_due_event() {
    let mut queue = MidiEventQueue::new();
    queue.enqueue(9, on(1));
    queue.enqueue(3, on(2));
    queue.enqueue(12, on(3));
    queue.enqueue(1, on(4));
    assert_eq!(queue.dequeue(5), vec![on(2), on(4)]);
    assert_eq!(
        contents(&queue),
        vec![
            TimedEvent { sample_time: 9, event: on(1) },
            TimedEvent { sample_time: 12, event: on(3) },
        ]
    );
}

#[test]
fn sort_of_many_events_is_ordered_and_loses_none() {
    let mut queue = MidiEventQueue::new();
    let mut time: u64 = 12345;
    for i in 0..500u32 {
        time = (time * 1103515245 + 12345) % 1000;
        queue.enqueue(time, on((i % 128) as u8));
    }
    let before = contents(&queue);
    queue.sort();
    let after = contents(&queue);
    assert_eq!(after.len(), 500);
    for pair in after.windows(2) {
        assert!(pair[0].sample_time <= pair[1].sample_time);
    }
    for t in 0..1000u64 {
        let was: Vec<TimedEvent> = before.iter().filter(|e| e.sample_time == t).copied().collect();
        let is: Vec<TimedEvent> = after.iter().filter(|e| e.sample_time == t).copied().collect();
        assert_eq!(was, is);
    }
}

#[test]
fn clear_removes_everything() {
    let mut queue = MidiEventQueue::new();
    queue.enqueue(1, on(1));
    queue.clear();
    assert!(queue.is_empty());
}

#[test]
fn an_event_knows_its_channel() {
    assert_eq!(MidiEvent::NoteOn { channel: 3, key: 1, vel: 2 }.channel(), 3);
    assert_eq!(MidiEvent::NoteOff { channel: 4, key: 1 }.channel(), 4);
    assert_eq!(MidiEvent::AllNotesOff { channel: 5 }.channel(), 5);
    assert_eq!(MidiEvent::AllSoundOff { channel: 6 }.channel(), 6);
}

#[test]
fn the_default_queue_is_empty() {
    assert!(MidiEventQueue::default().is_empty());
}

#[test]
fn the_queue_agrees_with_a_list_under_any_use() {
    let mut queue = MidiEventQueue::new();
    let mut list: Vec<TimedEvent> = vec![];
    let mut seed: u64 = 99;
    let mut next = |bound: u64| {
        seed = seed.wrapping_mul(6364136223846793005).wrapping_add(1442695040888963407);
        (seed >> 33) % bound
    };
    for round in 0..2000u32 {
        match next(4) {
            0 | 1 => {
                // Often in order, sometimes not.
                let time = if next(3) == 0 { next(50) } else { round as u64 / 10 + next(3) };
                let event = on(next(128) as u8);
                queue.enqueue(time, event);
                list.push(TimedEvent { sample_time: time, event });
            }
            2 => {
                queue.sort();
                list.sort_by_key(|e| e.sample_time);
            }
            _ => {
                let time = next(220);
                let due: Vec<MidiEvent> =
                    list.iter().filter(|e| e.sample_time <= time).map(|e| e.event).collect();
                list.retain(|e| e.sample_time > time);
                assert_eq!(queue.dequeue(time), due);
            }
        }
        assert_eq!(contents(&queue), list);
    }
}
