use phm_worker::meter_filter::{Collected, ConsumeStep, Enqueued, MeterFilteringConsumer};
use tokio::sync::mpsc;

type Item = Result<Option<Collected<u32, &'static str>>, &'static str>;

fn meter(n: u32) -> Item {
    Ok(Some(Collected::Meter(n)))
}

/// Runs one call of a consumer over what its source gives.
fn consume(
    consumer: &mut MeterFilteringConsumer<Vec<Item>, u32>,
) -> Result<Option<&'static str>, &'static str> {
    loop {
        let result = consumer.inner().remove(0);
        match consumer.consumed(result) {
            ConsumeStep::Again(_) => {}
            ConsumeStep::Return(answer) => return answer,
        }
    }
}

#[test]
fn meters_are_taken_out_in_order() {
    let (tx, mut rx) = mpsc::channel(8);
    let source = vec![
        meter(1),
        meter(2),
        Ok(Some(Collected::Other("trace"))),
        Ok(Some(Collected::Other("log"))),
        meter(3),
        Ok(None),
        meter(4),
        Err("closed"),
    ];
    let mut consumer = MeterFilteringConsumer::new(source, tx);
    assert_eq!(consume(&mut consumer), Ok(Some("trace")));
    assert_eq!(rx.try_recv(), Ok(1));
    assert_eq!(rx.try_recv(), Ok(2));
    assert!(rx.try_recv().is_err());
    assert_eq!(consume(&mut consumer), Ok(Some("log")));
    assert_eq!(consume(&mut consumer), Ok(None));
    assert_eq!(consume(&mut consumer), Err("closed"));
    assert_eq!(rx.try_recv(), Ok(3));
    assert_eq!(rx.try_recv(), Ok(4));
    assert!(rx.try_recv().is_err());
}

#[test]
fn full_channel_drops_the_meter_and_goes_on() {
    let (tx, mut rx) = mpsc::channel(1);
    let mut consumer = MeterFilteringConsumer::new((), tx);
    assert!(matches!(
        consumer.consumed::<(), ()>(Ok(Some(Collected::Meter(1)))),
        ConsumeStep::Again(Enqueued::Queued)
    ));
    assert!(matches!(
        consumer.consumed::<(), ()>(Ok(Some(Collected::Meter(2)))),
        ConsumeStep::Again(Enqueued::Full(2))
    ));
    assert_eq!(rx.try_recv(), Ok(1));
    assert!(rx.try_recv().is_err());
}

#[test]
fn closed_channel_drops_the_meter_and_goes_on() {
    let (tx, rx) = mpsc::channel(1);
    drop(rx);
    let mut consumer = MeterFilteringConsumer::new((), tx);
    assert!(matches!(
        consumer.consumed::<(), ()>(Ok(Some(Collected::Meter(5)))),
        ConsumeStep::Again(Enqueued::Closed(5))
    ));
    assert!(matches!(
        consumer.consumed::<(), ()>(Ok(None)),
        ConsumeStep::Return(Ok(None))
    ));
}
