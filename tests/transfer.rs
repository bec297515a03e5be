use localsend_protocol::transfer::{TransferEvent, TransferProgress, PROGRESS_INTERVAL_MS};
use localsend_protocol::transfer::TransferEvent::{Chunk, End, Tick};

fn reports(events: &[TransferEvent]) -> Vec<u64> {
    let mut p = TransferProgress::new();
    let mut out = Vec::new();
    for e in events {
        if let Some(n) = p.step(*e) {
            out.push(n);
        }
    }
    out
}

#[test]
fn timer_reports_during_gap_between_chunks() {
    assert_eq!(PROGRESS_INTERVAL_MS, 100);
    // five chunks of 1000 bytes; the timer fires once at the start and once
    // during the 50 ms pause between the second and third chunk
    let events = [Tick, Chunk(1000), Chunk(1000), Tick, Chunk(1000), Chunk(1000), Chunk(1000), End];
    let r = reports(&events);
    assert_eq!(r, vec![0, 2000, 5000]);
    let at_2000 = r.iter().position(|&n| n == 2000).unwrap();
    assert!(r[at_2000 + 1..].iter().all(|&n| n > 2000));
}

#[test]
fn reports_never_decrease_and_end_with_total() {
    let events = [Chunk(10), Tick, Tick, Chunk(0), Chunk(5), Tick, Chunk(7), End];
    let r = reports(&events);
    assert_eq!(r, vec![10, 10, 15, 22]);
    assert!(r.windows(2).all(|w| w[0] <= w[1]));
    assert_eq!(*r.last().unwrap(), 22);
}

#[test]
fn nothing_counts_after_end() {
    let mut p = TransferProgress::new();
    assert_eq!(p.step(Chunk(3)), None);
    assert_eq!(p.step(End), Some(3));
    assert!(p.is_finished());
    assert_eq!(p.step(Chunk(4)), None);
    assert_eq!(p.step(Tick), None);
    assert_eq!(p.step(End), None);
    assert_eq!(p.received(), 3);
}

#[test]
fn empty_body_reports_zero() {
    assert_eq!(reports(&[TransferEvent::End]), vec![0]);
}
