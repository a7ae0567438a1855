use collector_core::queue::QUEUE_CAPACITY;
use collector_core::sampler::{make_sample, sleep_duration_ms, SAMPLE_PERIOD_MS};
use collector_core::{CollectorCommand, CollectorError, DeliveryQueue};

#[test]
fn delivery_errors_tell_connect_from_send() {
    // Connectivity failures are reported apart from mid-write failures; both
    // leave the backlog queued for the next tick.
    assert_ne!(CollectorError::UnableToConnect, CollectorError::UnableToSend);
}

#[test]
fn queue_preserves_order_and_count_across_a_failed_send() {
    // Enqueue F1, F2, F3; F1 is written in full, the write of F2 fails
    // partway, F2 goes back to the front; the next flush must deliver F2
    // then F3 — F1 neither repeated nor reordered.
    let f1 = vec![1u8, 1, 1];
    let f2 = vec![2u8, 2, 2];
    let f3 = vec![3u8, 3, 3];

    let mut queue = DeliveryQueue::new();
    queue.enqueue(f1.clone());
    queue.enqueue(f2.clone());
    queue.enqueue(f3.clone());

    let mut wire: Vec<Vec<u8>> = Vec::new();

    // First flush attempt: F1 succeeds, F2 fails partway.
    let sent = queue.pop_front().unwrap();
    wire.push(sent);
    let failed = queue.pop_front().unwrap();
    assert_eq!(failed, f2);
    queue.requeue_front(failed);

    // Next tick's flush drains the rest.
    while let Some(frame) = queue.pop_front() {
        wire.push(frame);
    }

    assert_eq!(wire, vec![f1, f2, f3]);
    assert!(queue.is_empty());
}

#[test]
fn queue_pops_in_fifo_order() {
    let mut queue = DeliveryQueue::new();
    for i in 0..5u8 {
        queue.enqueue(vec![i]);
    }
    assert_eq!(queue.len(), 5);
    for i in 0..5u8 {
        assert_eq!(queue.pop_front().unwrap(), vec![i]);
    }
    assert_eq!(queue.pop_front(), None);
}

#[test]
fn full_queue_drops_the_oldest_frame() {
    let mut queue = DeliveryQueue::new();
    for i in 0..(QUEUE_CAPACITY as u32 + 3) {
        queue.enqueue(i.to_be_bytes().to_vec());
    }
    assert_eq!(queue.len(), QUEUE_CAPACITY);
    // The three oldest frames were dropped; the front is now frame 3.
    assert_eq!(queue.pop_front().unwrap(), 3u32.to_be_bytes().to_vec());
}

#[test]
fn sleep_covers_the_rest_of_the_period() {
    assert_eq!(sleep_duration_ms(300, SAMPLE_PERIOD_MS), 700);
    assert_eq!(sleep_duration_ms(0, SAMPLE_PERIOD_MS), 1000);
    assert_eq!(sleep_duration_ms(999, SAMPLE_PERIOD_MS), 1);
    assert_eq!(sleep_duration_ms(1000, SAMPLE_PERIOD_MS), 0);
    assert_eq!(sleep_duration_ms(2500, SAMPLE_PERIOD_MS), 0);
}

#[test]
fn tick_starts_stay_one_period_apart_under_processing_delay() {
    // Simulated clock: each tick starts, processing takes `delay`, then the
    // loop sleeps for the computed remainder. With every delay below the
    // period, consecutive tick starts are exactly one period apart.
    let delays_ms = [100u64, 900, 1, 999, 500];
    let mut now: u64 = 50_000;
    let mut starts = Vec::new();
    for delay in delays_ms {
        starts.push(now);
        now += delay;
        now += sleep_duration_ms(delay, SAMPLE_PERIOD_MS);
    }
    for pair in starts.windows(2) {
        assert_eq!(pair[1] - pair[0], SAMPLE_PERIOD_MS);
    }
}

#[test]
fn make_sample_carries_every_field() {
    let c = make_sample(99, 1000, 600, 12.5f32.to_bits());
    let CollectorCommand::SubmitData { collector_id, total_memory, used_memory, average_cpu_bits } =
        c;
    assert_eq!(collector_id, 99);
    assert_eq!(total_memory, 1000);
    assert_eq!(used_memory, 600);
    assert_eq!(f32::from_bits(average_cpu_bits), 12.5);
}
