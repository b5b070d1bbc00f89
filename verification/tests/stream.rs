use record_stream::chan_workaround::DeserializeResult;
use record_stream::chan_workaround::Disconnected;
use record_stream::chan_workaround::MyJson;
use record_stream::chan_workaround::MyJsonIterator;
use record_stream::chan_workaround::MyJsonVisitor;
use record_stream::chan_workaround::ProducerAction;
use record_stream::chan_workaround::ProducerEvent;

fn record(name: &str, numbers: Vec<i32>) -> MyJson {
    MyJson { val1: name.to_string(), val2: numbers }
}

/// Runs producer and facade in one thread for a consumer that pulls `pulls`
/// times and then goes away. Hands back what the consumer got, how often the
/// parser was asked, and whether the producer has stopped.
fn run(outcomes: Vec<DeserializeResult>, pulls: usize) -> (Vec<DeserializeResult>, usize, bool) {
    let mut producer = MyJsonVisitor::new();
    let mut facade = MyJsonIterator::new();
    let mut source = outcomes.into_iter();
    let mut got = Vec::new();
    let mut parsed = 0;
    let mut left = pulls;
    let mut action = ProducerAction::Parse;
    loop {
        action = match action {
            ProducerAction::Parse => {
                parsed += 1;
                let event = match source.next() {
                    Some(Ok(record)) => ProducerEvent::Element(record),
                    Some(Err(message)) => ProducerEvent::Failure(message),
                    None => ProducerEvent::End,
                };
                producer.step(event)
            }
            ProducerAction::Send(item) => {
                if left > 0 {
                    left -= 1;
                    match facade.next(Ok(item)) {
                        Some(item) => got.push(item),
                        None => panic!("an open stream passes every record on"),
                    }
                    producer.step(ProducerEvent::Accepted)
                } else {
                    producer.step(ProducerEvent::Disconnected)
                }
            }
            ProducerAction::Stop => break,
        };
    }
    (got, parsed, producer.is_done())
}

#[test]
fn elements_arrive_in_order() {
    let list = vec![
        Ok(record("a", vec![1])),
        Ok(record("b", vec![2, 3])),
        Ok(record("c", vec![])),
    ];
    let (got, parsed, done) = run(list.clone(), 10);
    assert_eq!(got, list);
    assert_eq!(parsed, 4);
    assert!(done);
}

#[test]
fn empty_list_gives_empty_stream() {
    let (got, parsed, done) = run(vec![], 3);
    assert_eq!(got, vec![]);
    assert_eq!(parsed, 1);
    assert!(done);
}

#[test]
fn early_disconnect_stops_the_producer() {
    let list = vec![
        Ok(record("a", vec![1])),
        Ok(record("b", vec![2])),
        Ok(record("c", vec![3])),
        Ok(record("d", vec![4])),
    ];
    let (got, parsed, done) = run(list.clone(), 2);
    assert_eq!(got, list[..2].to_vec());
    // the third element was parsed and offered, the fourth never read
    assert_eq!(parsed, 3);
    assert!(done);
}

#[test]
fn disconnect_before_first_pull() {
    let (got, parsed, done) = run(vec![Ok(record("a", vec![1]))], 0);
    assert_eq!(got, vec![]);
    assert_eq!(parsed, 1);
    assert!(done);
}

#[test]
fn single_terminal_error() {
    let list = vec![
        Ok(record("a1", vec![1])),
        Ok(record("a2", vec![2])),
        Err("expected value at line 1 column 40".to_string()),
        Ok(record("a3", vec![3])),
    ];
    let (got, parsed, done) = run(list.clone(), 10);
    assert_eq!(got, list[..3].to_vec());
    assert_eq!(parsed, 3);
    assert!(done);
}

#[test]
fn failure_is_offered_once_even_if_not_taken() {
    let list = vec![Ok(record("a", vec![])), Err("bad".to_string())];
    let (got, parsed, done) = run(list.clone(), 1);
    assert_eq!(got, list[..1].to_vec());
    assert_eq!(parsed, 2);
    assert!(done);
}

#[test]
fn producer_steps_one_by_one() {
    let mut producer = MyJsonVisitor::new();
    assert!(!producer.is_done());
    let first = record("x", vec![7]);
    assert_eq!(
        producer.step(ProducerEvent::Element(first.clone())),
        ProducerAction::Send(Ok(first))
    );
    assert_eq!(producer.step(ProducerEvent::Accepted), ProducerAction::Parse);
    assert_eq!(
        producer.step(ProducerEvent::Failure("oops".to_string())),
        ProducerAction::Send(Err("oops".to_string()))
    );
    assert_eq!(producer.step(ProducerEvent::Accepted), ProducerAction::Stop);
    assert!(producer.is_done());
    assert_eq!(producer.step(ProducerEvent::Element(record("y", vec![]))), ProducerAction::Stop);
    assert!(producer.is_done());
}

#[test]
fn producer_stops_on_unasked_event() {
    let mut producer = MyJsonVisitor::new();
    assert_eq!(producer.step(ProducerEvent::Accepted), ProducerAction::Stop);
    assert!(producer.is_done());
}

#[test]
fn producer_stops_at_end_of_list() {
    let mut producer = MyJsonVisitor::new();
    assert_eq!(producer.step(ProducerEvent::End), ProducerAction::Stop);
    assert!(producer.is_done());
}

#[test]
fn facade_ends_on_disconnect_and_stays_ended() {
    let mut facade = MyJsonIterator::new();
    assert!(!facade.is_exhausted());
    let item = Ok(record("a", vec![1]));
    assert_eq!(facade.next(Ok(item.clone())), Some(item));
    let failure: DeserializeResult = Err("bad".to_string());
    assert_eq!(facade.next(Ok(failure.clone())), Some(failure));
    assert!(!facade.is_exhausted());
    assert_eq!(facade.next(Err(Disconnected)), None);
    assert!(facade.is_exhausted());
    assert_eq!(facade.next(Err(Disconnected)), None);
    assert_eq!(facade.next(Ok(Ok(record("late", vec![])))), None);
    assert!(facade.is_exhausted());
}
