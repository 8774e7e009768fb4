use redis_stream_bus::backend::{BackendError, ReadEntry, ReadKey, ReadReply};
use redis_stream_bus::bootstrap::{bootstrap_outcome, bootstrap_succeeded, ensure_group, BootstrapOutcome};
use redis_stream_bus::config::{EngineConfig, GroupBinding};
use redis_stream_bus::engine::{Action, Engine, EngineState, Event};
use redis_stream_bus::error::BusError;
use redis_stream_bus::fake::FakeBackend;
use redis_stream_bus::stream::{Field, Stream, Value};

fn binding() -> GroupBinding {
    GroupBinding { group_name: "group_1".to_string(), consumer_name: "consumer_1".to_string() }
}

fn engine(keys: &[&str]) -> Engine {
    Engine::new(binding(), EngineConfig::new(), keys.iter().map(|k| k.to_string()).collect())
}

fn payload(id: &str) -> Value {
    Value::new(vec![Field::new("id", id.as_bytes().to_vec())])
}

fn conn_error() -> BackendError {
    BackendError { busy_group: false, message: "connection reset".to_string() }
}

/// Runs the engine against the in-memory store until the action at hand
/// needs the application (delivery) or stops, collecting deliveries.
/// One publish and one ack request are fed where the caller put them.
fn drive(
    engine: &mut Engine,
    store: &mut FakeBackend,
    mut publishes: Vec<Stream>,
    mut acks: Vec<Stream>,
    max_polls: usize,
) -> Vec<Stream> {
    let consumer = engine.binding.consumer_name.clone();
    let keys = engine.keys.clone();
    let mut delivered = Vec::new();
    let mut action = engine.start();
    let mut polls = 0;
    loop {
        action = match action {
            Action::CreateGroup { key, .. } => {
                let r = store.create_group_if_absent(&key);
                engine.step(Event::BootstrapResult(r))
            }
            Action::Poll => {
                // drain one publish or one ack first if any waits, as the
                // multiplexed select would; otherwise read
                if let Some(p) = publishes.pop() {
                    engine.step(Event::PublishReq(p))
                } else if let Some(a) = acks.pop() {
                    engine.step(Event::AckReq(a))
                } else {
                    if polls >= max_polls {
                        return delivered;
                    }
                    polls += 1;
                    match store.group_read(&keys, &consumer, engine.config.batch_count) {
                        Ok(reply) => engine.step(Event::ReadOk(reply)),
                        Err(e) => engine.step(Event::ReadErr(e)),
                    }
                }
            }
            Action::Append { key, id_hint, fields } => {
                match store.append(&key, &id_hint, fields) {
                    Ok(id) => engine.step(Event::AppendOk(id)),
                    Err(e) => engine.step(Event::AppendErr(e)),
                }
            }
            Action::Acknowledge { key, group, id } => {
                match store.acknowledge(&key, &group, &id) {
                    Ok(n) => engine.step(Event::AckOk(n)),
                    Err(e) => engine.step(Event::AckErr(e)),
                }
            }
            Action::Deliver(batch) => {
                delivered.extend(batch);
                engine.step(Event::Delivered)
            }
            Action::Halt => return delivered,
        };
    }
}

#[test]
fn scenario_publish_then_read_one_envelope() {
    // one entry published before any group exists; after bootstrap, the
    // reader receives exactly one envelope with the payload intact and a
    // non-empty backend-assigned id
    let mut store = FakeBackend::new("group_1".to_string());
    let mut e = engine(&["k1"]);
    let msg = Stream::new("k1", None, payload("1"));
    let delivered = drive(&mut e, &mut store, vec![msg], vec![], 3);

    assert_eq!(delivered.len(), 1);
    assert_eq!(delivered[0].key, "k1");
    assert_eq!(delivered[0].value, payload("1"));
    let id = delivered[0].id.clone().expect("the delivered id must be assigned");
    assert!(!id.is_empty());
}

#[test]
fn single_producer_order_is_observed() {
    // three publishes to one key from one producer arrive in that order
    let mut store = FakeBackend::new("group_1".to_string());
    let mut e = engine(&["k"]);
    let publishes = vec![
        Stream::new("k", None, payload("a3")),
        Stream::new("k", None, payload("a2")),
        Stream::new("k", None, payload("a1")),
    ];
    let delivered = drive(&mut e, &mut store, publishes, vec![], 3);
    let got: Vec<Value> = delivered.into_iter().map(|s| s.value).collect();
    assert_eq!(got, vec![payload("a1"), payload("a2"), payload("a3")]);
}

#[test]
fn scenario_two_watchers_fan_out() {
    // two readers of one group: one watches foo and bar, the other only
    // foo; entries keyed zoo, foo and bar are published; the foo-only
    // watcher never sees zoo, and exactly one watcher receives foo
    let mut store = FakeBackend::new("group_1".to_string());
    let mut wide = engine(&["foo", "bar"]);
    let mut narrow = Engine::new(
        GroupBinding { group_name: "group_1".to_string(), consumer_name: "consumer_2".to_string() },
        EngineConfig::new(),
        vec!["foo".to_string()],
    );

    let publishes =
        vec![Stream::new("bar", None, payload("3")), Stream::new("foo", None, payload("2")), Stream::new("zoo", None, payload("1"))];
    let got_wide = drive(&mut wide, &mut store, publishes, vec![], 3);
    let got_narrow = drive(&mut narrow, &mut store, vec![], vec![], 3);

    assert!(got_narrow.iter().all(|s| s.key != "zoo"));
    assert!(got_wide.iter().all(|s| s.key != "zoo"));
    let foo_count = got_wide.iter().filter(|s| s.key == "foo").count()
        + got_narrow.iter().filter(|s| s.key == "foo").count();
    assert_eq!(foo_count, 1);
    assert_eq!(got_wide.iter().filter(|s| s.key == "bar").count(), 1);
}

#[test]
fn scenario_malformed_entry_is_skipped() {
    // a batch of three entries, one with no payload field: exactly the two
    // well-formed envelopes are delivered and the loop keeps running
    let mut e = engine(&["k"]);
    e.start();
    let a = e.step(Event::BootstrapResult(Ok(())));
    assert!(matches!(a, Action::Poll));

    let reply = ReadReply {
        keys: vec![ReadKey {
            key: "k".to_string(),
            entries: vec![
                ReadEntry { id: "1-0".to_string(), fields: vec![Field::new("f", b"a".to_vec())] },
                ReadEntry { id: "2-0".to_string(), fields: vec![] },
                ReadEntry { id: "3-0".to_string(), fields: vec![Field::new("f", b"c".to_vec())] },
            ],
        }],
    };
    let action = e.step(Event::ReadOk(reply));
    match action {
        Action::Deliver(batch) => {
            assert_eq!(batch.len(), 2);
            assert_eq!(batch[0].id, Some("1-0".to_string()));
            assert_eq!(batch[1].id, Some("3-0".to_string()));
        }
        other => panic!("expected a delivery, got {:?}", other),
    }
    assert_eq!(e.state, EngineState::AwaitingDelivery);
    let next = e.step(Event::Delivered);
    assert_eq!(e.state, EngineState::Running);
    assert!(matches!(next, Action::Poll));
}

#[test]
fn scenario_read_error_stops_the_loop() {
    // a failing read call moves the loop to its error-stopped state; once
    // stopped, every further event is answered with a halt, so no backend
    // call is ever asked for again
    let mut e = engine(&[]);
    let a = e.start();
    assert!(matches!(a, Action::Poll));
    assert_eq!(e.state, EngineState::Running);

    let a = e.step(Event::ReadErr(conn_error()));
    assert!(matches!(a, Action::Halt));
    assert_eq!(e.state, EngineState::StoppedOnError);
    assert_eq!(e.fault, Some(BusError::Read { msg: "connection reset".to_string() }));

    for event in [
        Event::ReadOk(ReadReply { keys: vec![] }),
        Event::PublishReq(Stream::new("k", None, payload("x"))),
        Event::AckOk(1),
        Event::Delivered,
    ] {
        let a = e.step(event);
        assert!(matches!(a, Action::Halt));
        assert_eq!(e.state, EngineState::StoppedOnError);
    }
}

#[test]
fn publish_uses_backend_assignment_unless_id_preset() {
    let mut e = engine(&[]);
    e.start();
    match e.step(Event::PublishReq(Stream::new("k", None, payload("v")))) {
        Action::Append { key, id_hint, fields } => {
            assert_eq!(key, "k");
            assert_eq!(id_hint, "*");
            assert_eq!(fields.len(), 1);
        }
        other => panic!("expected an append, got {:?}", other),
    }
    let a = e.step(Event::AppendOk("7-0".to_string()));
    assert!(matches!(a, Action::Poll));
    assert_eq!(e.state, EngineState::Running);

    match e.step(Event::PublishReq(Stream::new("k", Some("9-0".to_string()), payload("v")))) {
        Action::Append { id_hint, .. } => assert_eq!(id_hint, "9-0"),
        other => panic!("expected an append, got {:?}", other),
    }
}

#[test]
fn append_error_stops_the_loop() {
    let mut e = engine(&[]);
    e.start();
    e.step(Event::PublishReq(Stream::new("k", None, payload("v"))));
    let a = e.step(Event::AppendErr(conn_error()));
    assert!(matches!(a, Action::Halt));
    assert_eq!(e.state, EngineState::StoppedOnError);
    assert_eq!(e.fault, Some(BusError::Append { msg: "connection reset".to_string() }));
}

#[test]
fn ack_without_id_is_a_contract_violation() {
    let mut e = engine(&[]);
    e.start();
    let a = e.step(Event::AckReq(Stream::new("k", None, payload("v"))));
    assert!(matches!(a, Action::Halt));
    assert_eq!(e.state, EngineState::StoppedOnError);
    assert_eq!(e.fault, Some(BusError::Contract));
}

#[test]
fn ack_failure_is_absorbed() {
    let mut e = engine(&[]);
    e.start();
    match e.step(Event::AckReq(Stream::new("k", Some("5-0".to_string()), payload("v")))) {
        Action::Acknowledge { key, group, id } => {
            assert_eq!(key, "k");
            assert_eq!(group, "group_1");
            assert_eq!(id, "5-0");
        }
        other => panic!("expected an acknowledge, got {:?}", other),
    }
    let a = e.step(Event::AckErr(conn_error()));
    assert!(matches!(a, Action::Poll));
    assert_eq!(e.state, EngineState::Running);
}

#[test]
fn delivery_close_stops_cleanly() {
    let mut e = engine(&[]);
    e.start();
    let reply = ReadReply {
        keys: vec![ReadKey {
            key: "k".to_string(),
            entries: vec![ReadEntry {
                id: "1-0".to_string(),
                fields: vec![Field::new("f", b"v".to_vec())],
            }],
        }],
    };
    e.step(Event::ReadOk(reply));
    assert_eq!(e.state, EngineState::AwaitingDelivery);
    let a = e.step(Event::DeliveryClosed);
    assert!(matches!(a, Action::Halt));
    assert_eq!(e.state, EngineState::StoppedClean);
    assert_eq!(e.fault, None);
}

#[test]
fn empty_read_polls_again() {
    let mut e = engine(&[]);
    e.start();
    let a = e.step(Event::ReadOk(ReadReply { keys: vec![] }));
    assert!(matches!(a, Action::Poll));
    assert_eq!(e.state, EngineState::Running);
}

#[test]
fn bootstrap_failure_does_not_stop_startup() {
    // a genuine bootstrap failure on one key is logged and the engine goes
    // on: to the next key, and then to reading
    let mut e = engine(&["a", "b"]);
    let first = e.start();
    match first {
        Action::CreateGroup { key, group, start } => {
            assert_eq!(key, "a");
            assert_eq!(group, "group_1");
            assert_eq!(start, "$");
        }
        other => panic!("expected a group creation, got {:?}", other),
    }
    let second = e.step(Event::BootstrapResult(Err(conn_error())));
    match second {
        Action::CreateGroup { key, .. } => assert_eq!(key, "b"),
        other => panic!("expected a group creation, got {:?}", other),
    }
    let third = e.step(Event::BootstrapResult(Ok(())));
    assert!(matches!(third, Action::Poll));
    assert_eq!(e.state, EngineState::Running);
}

#[test]
fn scenario_repeated_ack_is_harmless() {
    // acknowledging the same id twice neither stops the loop nor disturbs
    // the delivery of unrelated entries
    let mut store = FakeBackend::new("group_1".to_string());
    let mut e = engine(&["k"]);
    let mut action = e.start();
    if let Action::CreateGroup { key, .. } = &action {
        let r = store.create_group_if_absent(key);
        action = e.step(Event::BootstrapResult(r));
    }
    assert!(matches!(action, Action::Poll));

    let key = "k".to_string();
    store.append(&key, &"*".to_string(), vec![Field::new("id", b"1".to_vec())]).unwrap();
    let reply = store.group_read(&vec![key.clone()], &"consumer_1".to_string(), 5).unwrap();
    let delivered = match e.step(Event::ReadOk(reply)) {
        Action::Deliver(batch) => batch,
        other => panic!("expected a delivery, got {:?}", other),
    };
    assert_eq!(delivered.len(), 1);
    e.step(Event::Delivered);

    for expected_count in [1usize, 0usize] {
        let ack = e.step(Event::AckReq(delivered[0].clone()));
        match ack {
            Action::Acknowledge { key, group, id } => {
                let n = store.acknowledge(&key, &group, &id).unwrap();
                assert_eq!(n, expected_count);
                let a = e.step(Event::AckOk(n));
                assert!(matches!(a, Action::Poll));
            }
            other => panic!("expected an acknowledge, got {:?}", other),
        }
        assert_eq!(e.state, EngineState::Running);
    }

    // an unrelated entry still arrives after the repeated acknowledgment
    store.append(&key, &"*".to_string(), vec![Field::new("id", b"2".to_vec())]).unwrap();
    let reply = store.group_read(&vec![key.clone()], &"consumer_1".to_string(), 5).unwrap();
    match e.step(Event::ReadOk(reply)) {
        Action::Deliver(batch) => {
            assert_eq!(batch.len(), 1);
            assert_eq!(batch[0].value, payload("2"));
        }
        other => panic!("expected a delivery, got {:?}", other),
    }
}

#[test]
fn bootstrap_outcome_classification() {
    assert_eq!(bootstrap_outcome(&Ok(())), BootstrapOutcome::Created);
    assert_eq!(
        bootstrap_outcome(&Err(BackendError {
            busy_group: true,
            message: "BUSYGROUP".to_string()
        })),
        BootstrapOutcome::AlreadyExisted
    );
    assert_eq!(bootstrap_outcome(&Err(conn_error())), BootstrapOutcome::Failed);
    assert!(bootstrap_succeeded(BootstrapOutcome::Created));
    assert!(bootstrap_succeeded(BootstrapOutcome::AlreadyExisted));
    assert!(!bootstrap_succeeded(BootstrapOutcome::Failed));
}

#[test]
fn ensure_group_tolerates_already_exists() {
    assert!(ensure_group(Ok(())).is_ok());
    assert!(ensure_group(Err(BackendError {
        busy_group: true,
        message: "BUSYGROUP".to_string()
    }))
    .is_ok());
    match ensure_group(Err(conn_error())) {
        Err(BusError::Bootstrap { msg }) => {
            assert_eq!(msg, "connection reset");
            assert!(!BusError::Bootstrap { msg }.is_fatal());
        }
        other => panic!("expected a bootstrap failure, got {:?}", other),
    }
}

#[test]
fn fatal_error_classification() {
    assert!(BusError::Read { msg: "x".to_string() }.is_fatal());
    assert!(BusError::Append { msg: "x".to_string() }.is_fatal());
    assert!(BusError::Contract.is_fatal());
    assert!(!BusError::Bootstrap { msg: "x".to_string() }.is_fatal());
    assert!(!BusError::Ack { msg: "x".to_string() }.is_fatal());
    assert!(
        !BusError::Decode(redis_stream_bus::error::DecodeError::MissingPayload).is_fatal()
    );
}

#[test]
fn engine_config_defaults_and_builders() {
    let c = EngineConfig::new();
    assert_eq!(c.block_timeout_ms, 5000);
    assert_eq!(c.batch_count, 5);
    let c = c.with_timeout(100).with_count(7);
    assert_eq!(c.block_timeout_ms, 100);
    assert_eq!(c.batch_count, 7);
}
