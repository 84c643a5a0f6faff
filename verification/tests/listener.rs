use authority_claimer::claim::{DAppMetadata, Event, RollupsClaim};
use authority_claimer::listener::{BrokerError, BrokerListenerError, DefaultBrokerListener};
use authority_claimer::mock::{
    assert_broker_listener_ended, assert_broker_listener_failed, produce_last_claim,
    produce_rollups_claims, start, Claimer, ClaimerError,
};

/// An ordered stream in memory. Ids are given in the order of production.
struct Stream {
    events: Vec<Event>,
    reads: usize,
    broken: bool,
}

impl Stream {
    fn new() -> Self {
        Stream { events: Vec::new(), reads: 0, broken: false }
    }

    fn produce(&mut self, rollups_claims: Vec<RollupsClaim>) {
        for payload in rollups_claims {
            let id = format!("{}-0", self.events.len() + 1);
            self.events.push(Event { id, payload });
        }
    }

    /// Every event after `cursor`, in order.
    fn after(&self, cursor: &str) -> Vec<Event> {
        let next = if cursor == "0" {
            0
        } else {
            self.events.iter().position(|event| event.id == cursor).unwrap() + 1
        };
        self.events[next..].to_vec()
    }

    /// The first event after `cursor`, or `None` where a reader would block.
    fn consume(&mut self, cursor: &str) -> Option<Result<Event, BrokerError>> {
        if self.broken {
            return Some(Err(BrokerError { cause: "connection reset".to_string() }));
        }
        let next = if cursor == "0" {
            0
        } else {
            self.events.iter().position(|event| event.id == cursor).unwrap() + 1
        };
        let event = self.events.get(next)?.clone();
        self.reads += 1;
        Some(Ok(event))
    }
}

/// What a run of the listener left behind.
struct Log {
    consumed: Vec<RollupsClaim>,
    cursors: Vec<String>,
}

/// The listener's loop by hand, until it stops or the stream has nothing more.
fn drive(
    mut listener: DefaultBrokerListener,
    mut claimer: Claimer,
    stream: &mut Stream,
    log: &mut Log,
) -> Result<(DefaultBrokerListener, Claimer), BrokerListenerError<ClaimerError>> {
    loop {
        let polled = match stream.consume(listener.last_claim_id()) {
            Some(polled) => polled,
            None => return Ok((listener, claimer)),
        };
        let delivery = listener.received(polled)?;
        let rollups_claim = delivery.rollups_claim();
        let outcome = claimer.send_rollups_claim(rollups_claim);
        let (next_listener, next_claimer) = delivery.processed(outcome)?;
        log.consumed.push(rollups_claim);
        log.cursors.push(next_listener.last_claim_id().clone());
        listener = next_listener;
        claimer = next_claimer;
    }
}

fn dapp() -> DAppMetadata {
    DAppMetadata { chain_id: 31337, dapp_address: [0xfa; 20] }
}

fn setup() -> (Stream, DefaultBrokerListener, Log) {
    (Stream::new(), DefaultBrokerListener::new(dapp()), Log { consumed: Vec::new(), cursors: Vec::new() })
}

fn epochs(rollups_claims: &[RollupsClaim]) -> Vec<u64> {
    rollups_claims.iter().map(|rollups_claim| rollups_claim.epoch_index).collect()
}

#[test]
fn instantiate_new_broker_listener_ok() {
    let listener = DefaultBrokerListener::new(dapp());
    assert_eq!(listener.last_claim_id(), "0");
    assert_eq!(listener.dapp_metadata(), dapp());
}

#[test]
fn start_broker_listener_with_claims_enqueued() {
    let (mut stream, listener, _) = setup();
    let n = 5;
    let claimer = Claimer::new(n);
    stream.produce(produce_rollups_claims(n, 0));
    stream.produce(produce_last_claim(n));
    let result = start(listener, claimer, &stream.after("0")).map(|_| ());
    assert_broker_listener_ended(result);
}

#[test]
fn start_broker_listener_with_no_claims_enqueued() {
    let (mut stream, listener, _) = setup();
    let n = 7;
    let claimer = Claimer::new(n);

    let (listener, claimer) = start(listener, claimer, &stream.after("0")).unwrap();
    assert_eq!(listener.last_claim_id(), "0");

    let x = 2;
    stream.produce(produce_rollups_claims(x, 0));
    let pending = stream.after(listener.last_claim_id());
    let (listener, claimer) = start(listener, claimer, &pending).unwrap();
    assert_eq!(listener.last_claim_id(), "2-0");

    let y = 5;
    stream.produce(produce_rollups_claims(y, x));
    let pending = stream.after(listener.last_claim_id());
    let (listener, claimer) = start(listener, claimer, &pending).unwrap();
    assert_eq!(listener.last_claim_id(), "7-0");

    assert_eq!(x + y, n);
    stream.produce(produce_last_claim(n));
    let pending = stream.after(listener.last_claim_id());
    let result = start(listener, claimer, &pending).map(|_| ());
    assert_broker_listener_ended(result);
}

#[test]
fn start_broker_listener_and_fail_without_consuming_claims() {
    let (mut stream, listener, _) = setup();
    let n = 0;
    let claimer = Claimer::new_with_error(n);
    stream.produce(produce_last_claim(n));
    let result = start(listener, claimer, &stream.after("0")).map(|_| ());
    assert_broker_listener_failed(result);
}

#[test]
fn start_broker_listener_and_fail_after_consuming_some_claims() {
    let (mut stream, listener, _) = setup();
    let n = 5;
    let claimer = Claimer::new_with_error(n);
    stream.produce(produce_rollups_claims(n, 0));
    stream.produce(produce_last_claim(n));
    let result = start(listener, claimer, &stream.after("0")).map(|_| ());
    assert_broker_listener_failed(result);
}

#[test]
fn five_claims_are_consumed_before_the_claimer_ends() {
    let (mut stream, listener, mut log) = setup();
    let n = 5;
    stream.produce(produce_rollups_claims(n, 0));
    stream.produce(produce_last_claim(n));
    let result = drive(listener, Claimer::new(n), &mut stream, &mut log).map(|_| ());
    assert_broker_listener_ended(result);
    assert_eq!(epochs(&log.consumed), vec![0, 1, 2, 3, 4]);
    assert_eq!(stream.reads, 6);
}

#[test]
fn claims_produced_in_two_batches_are_consumed_in_order() {
    let (mut stream, listener, mut log) = setup();
    let claimer = Claimer::new(7);

    let (listener, claimer) = drive(listener, claimer, &mut stream, &mut log).unwrap();
    assert_eq!(log.consumed.len(), 0);
    assert_eq!(listener.last_claim_id(), "0");

    stream.produce(produce_rollups_claims(2, 0));
    let (listener, claimer) = drive(listener, claimer, &mut stream, &mut log).unwrap();
    assert_eq!(epochs(&log.consumed), vec![0, 1]);

    stream.produce(produce_rollups_claims(5, 2));
    let (listener, claimer) = drive(listener, claimer, &mut stream, &mut log).unwrap();
    assert_eq!(epochs(&log.consumed), vec![0, 1, 2, 3, 4, 5, 6]);

    stream.produce(produce_last_claim(7));
    let result = drive(listener, claimer, &mut stream, &mut log).map(|_| ());
    assert_broker_listener_ended(result);
    assert_eq!(log.consumed.len(), 7);
    assert_eq!(log.cursors, vec!["1-0", "2-0", "3-0", "4-0", "5-0", "6-0", "7-0"]);
}

#[test]
fn started_listener_stops_where_the_events_end() {
    let (mut stream, listener, _) = setup();
    stream.produce(produce_rollups_claims(3, 0));
    let (listener, claimer) = start(listener, Claimer::new(4), &stream.after("0")).unwrap();
    assert_eq!(listener.last_claim_id(), "3-0");
    assert_eq!(listener.dapp_metadata(), dapp());
    let claimer = claimer.send_rollups_claim(RollupsClaim::default()).unwrap();
    assert_eq!(claimer.send_rollups_claim(RollupsClaim::default()).unwrap_err(), ClaimerError::EndError);
}

#[test]
fn started_listener_reports_the_error_of_the_claimer() {
    let (mut stream, listener, _) = setup();
    stream.produce(produce_rollups_claims(4, 0));
    match start(listener, Claimer::new_with_error(1), &stream.after("0")) {
        Err(BrokerListenerError::ClaimerError { source }) => assert_eq!(source, ClaimerError::MockError),
        other => panic!("unexpected result {:?}", other),
    }
}

#[test]
fn cursor_is_the_id_of_the_last_processed_event() {
    let (mut stream, listener, mut log) = setup();
    stream.produce(produce_rollups_claims(4, 0));
    let (listener, _) = drive(listener, Claimer::new(10), &mut stream, &mut log).unwrap();
    assert_eq!(log.cursors, vec!["1-0", "2-0", "3-0", "4-0"]);
    assert_eq!(listener.last_claim_id(), "4-0");
    assert_eq!(listener.dapp_metadata(), dapp());
}

#[test]
fn events_after_a_failure_are_never_read() {
    let (mut stream, listener, mut log) = setup();
    stream.produce(produce_rollups_claims(10, 0));
    let result = drive(listener, Claimer::new_with_error(3), &mut stream, &mut log).map(|_| ());
    assert_broker_listener_failed(result);
    assert_eq!(epochs(&log.consumed), vec![0, 1, 2]);
    assert_eq!(stream.reads, 4);
    assert_eq!(log.cursors.last().unwrap(), "3-0");
}

#[test]
fn stream_failure_is_a_broker_error() {
    let (mut stream, listener, mut log) = setup();
    stream.produce(produce_rollups_claims(2, 0));
    stream.broken = true;
    let error = drive(listener, Claimer::new(2), &mut stream, &mut log).unwrap_err();
    assert_eq!(error.to_string(), "broker error");
    match error {
        BrokerListenerError::BrokerError { source } => {
            assert_eq!(source, BrokerError { cause: "connection reset".to_string() })
        }
        other => panic!("wrong kind of error: {:?}", other),
    }
    assert_eq!(log.consumed.len(), 0);
}

#[test]
fn claimer_failure_is_a_claimer_error_with_its_cause() {
    let listener = DefaultBrokerListener::new(dapp());
    let event = Event { id: "1-0".to_string(), payload: RollupsClaim::default() };
    let delivery = listener.received::<ClaimerError>(Ok(event)).unwrap();
    assert_eq!(delivery.rollups_claim(), RollupsClaim::default());
    let error = delivery.processed::<Claimer, ClaimerError>(Err(ClaimerError::MockError)).unwrap_err();
    assert_eq!(error.to_string(), "claimer error");
    match error {
        BrokerListenerError::ClaimerError { source } => assert_eq!(source, ClaimerError::MockError),
        other => panic!("wrong kind of error: {:?}", other),
    }
}

#[test]
fn processed_event_moves_the_cursor_and_passes_the_claimer_on() {
    let listener = DefaultBrokerListener::new(dapp());
    let payload = RollupsClaim { epoch_index: 9, epoch_hash: [1; 32] };
    let event = Event { id: "1700000000000-3".to_string(), payload };
    let delivery = listener.received::<String>(Ok(event)).unwrap();
    assert_eq!(delivery.rollups_claim(), payload);
    let (listener, state) = delivery.processed::<u32, String>(Ok(42)).unwrap();
    assert_eq!(listener.last_claim_id(), "1700000000000-3");
    assert_eq!(state, 42);
}
