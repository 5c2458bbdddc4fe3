//! The event fabric: codec, broker routing, firer and processor paths.

use centralized_events::broker::{broker_route, handle_in_broker, BrokerEventResult};
use centralized_events::codec::{decode_event, encode_event};
use centralized_events::errors::Error;
use centralized_events::events::{Event, EventConfig, ExitKind, LogSeverity};
use centralized_events::manager::CentralizedEventManagerBuilder;
use centralized_events::sim::{MemTransport, RecordingInnerManager, SimpleEvaluator};
use centralized_events::state::FuzzState;
use centralized_events::wire::{Frame, FLAG_COMPRESSED, FLAG_INITIALIZED, TAG_TO_MAIN};

fn sample_testcase(input: Vec<u8>, observers: Option<Vec<u8>>, config: EventConfig) -> Event {
    Event::NewTestcase {
        input,
        client_config: config,
        exit_kind: ExitKind::Okay,
        corpus_size: 1,
        observers_buf: observers,
        time: 1,
        executions: 1,
        forward_id: None,
    }
}

// ---------------------------------------------------------------------------
// Codec round trips, one per variant.
// ---------------------------------------------------------------------------

fn assert_round_trip(event: Event) {
    let encoded = encode_event(&event);
    let decoded = decode_event(&encoded).expect("a well-formed record must decode");
    assert_eq!(decoded, event);
}

#[test]
fn codec_round_trip_new_testcase() {
    assert_round_trip(sample_testcase(
        vec![0xAA, 0x55, 0x00],
        Some(vec![9, 8, 7]),
        EventConfig::FromName { name_hash: 0xDEAD_BEEF },
    ));
    assert_round_trip(sample_testcase(vec![], None, EventConfig::AlwaysUnique));
}

#[test]
fn codec_round_trip_update_exec_stats() {
    assert_round_trip(Event::UpdateExecStats { time: 123_456, executions: u64::MAX });
}

#[test]
fn codec_round_trip_objective() {
    assert_round_trip(Event::Objective { objective_size: 3, time: 0 });
}

#[test]
fn codec_round_trip_log() {
    assert_round_trip(Event::Log {
        severity_level: LogSeverity::Warn,
        message: b"stalled".to_vec(),
    });
}

#[test]
fn codec_round_trip_custom_buf() {
    assert_round_trip(Event::CustomBuf { tag: b"cov".to_vec(), buf: vec![1, 2, 3, 4] });
}

#[test]
fn codec_rejects_malformed_records() {
    assert_eq!(decode_event(&vec![]), None);
    // Unknown variant tag.
    assert_eq!(decode_event(&vec![9u8]), None);
    // Truncated record.
    let mut encoded = encode_event(&Event::Objective { objective_size: 1, time: 2 });
    encoded.pop();
    assert_eq!(decode_event(&encoded), None);
    // Trailing garbage.
    let mut encoded = encode_event(&Event::Objective { objective_size: 1, time: 2 });
    encoded.push(0);
    assert_eq!(decode_event(&encoded), None);
    // A concrete eight-byte little-endian field decodes to an exact value:
    // Objective { objective_size: 0x0201, time: 0x0403_0000_0000 }.
    let raw = vec![
        2u8, 0x01, 0x02, 0, 0, 0, 0, 0, 0, 0, 0, 0, 0, 0x03, 0x04, 0, 0,
    ];
    assert_eq!(
        decode_event(&raw),
        Some(Event::Objective { objective_size: 0x0201, time: 0x0403_0000_0000 })
    );
}

// ---------------------------------------------------------------------------
// Broker routing.
// ---------------------------------------------------------------------------

#[test]
fn broker_forwards_other_tags_verbatim() {
    let frame = Frame {
        tag: 0x1111,
        flags: FLAG_INITIALIZED,
        client_id: 4,
        payload: vec![0xDE, 0xAD],
    };
    let routed = broker_route(frame).unwrap().expect("must broadcast");
    assert_eq!(routed.tag, 0x1111);
    assert_eq!(routed.payload, vec![0xDE, 0xAD]);
    assert_eq!(routed.client_id, 4);
    assert_eq!(routed.flags, FLAG_INITIALIZED);
}

#[test]
fn broker_forwards_testcases_and_consumes_heartbeats() {
    let tc = sample_testcase(vec![1], None, EventConfig::AlwaysUnique);
    assert_eq!(handle_in_broker(1, &tc), Ok(BrokerEventResult::Forward));
    let hb = Event::UpdateExecStats { time: 1, executions: 1 };
    assert_eq!(handle_in_broker(1, &hb), Ok(BrokerEventResult::Handled));

    let tc_frame = Frame {
        tag: TAG_TO_MAIN,
        flags: FLAG_INITIALIZED,
        client_id: 2,
        payload: encode_event(&tc),
    };
    assert!(broker_route(tc_frame).unwrap().is_some());

    // A heartbeat on the to-main tag stops at the broker: no peer sees it.
    let hb_frame = Frame {
        tag: TAG_TO_MAIN,
        flags: FLAG_INITIALIZED,
        client_id: 2,
        payload: encode_event(&hb),
    };
    assert!(broker_route(hb_frame).unwrap().is_none());
}

#[test]
fn broker_rejects_garbage_on_main_tag() {
    let bad = Frame {
        tag: TAG_TO_MAIN,
        flags: FLAG_INITIALIZED,
        client_id: 2,
        payload: vec![0xFF, 0xFF],
    };
    assert_eq!(broker_route(bad), Err(Error::Serialize));
    let bad_compressed = Frame {
        tag: TAG_TO_MAIN,
        flags: FLAG_COMPRESSED,
        client_id: 2,
        payload: vec![0xFF, 0xFF],
    };
    assert_eq!(broker_route(bad_compressed), Err(Error::Compression));
}

// ---------------------------------------------------------------------------
// Secondary firer path.
// ---------------------------------------------------------------------------

fn secondary(id: u32) -> centralized_events::manager::CentralizedEventManager<
    RecordingInnerManager,
    MemTransport,
> {
    CentralizedEventManagerBuilder::new()
        .is_main(false)
        .build_from_client(
            RecordingInnerManager::new(id as usize, EventConfig::FromName { name_hash: 77 }),
            MemTransport::new(id),
        )
        .unwrap()
}

fn main_node(id: u32) -> centralized_events::manager::CentralizedEventManager<
    RecordingInnerManager,
    MemTransport,
> {
    CentralizedEventManagerBuilder::new()
        .is_main(true)
        .build_from_client(
            RecordingInnerManager::new(id as usize, EventConfig::FromName { name_hash: 77 }),
            MemTransport::new(id),
        )
        .unwrap()
}

#[test]
fn secondary_forwards_testcase_with_forward_id_and_skips_inner() {
    let mut s1 = secondary(5);
    let mut state = FuzzState::new();
    let event = sample_testcase(vec![0xAA], Some(vec![1]), EventConfig::FromName { name_hash: 77 });

    s1.fire(&mut state, event).unwrap();

    // Exactly one frame went out, on the to-main tag; the inner manager saw
    // nothing: the main evaluator is the single publisher for this class.
    assert_eq!(s1.inner.events.len(), 0);
    assert_eq!(s1.client.outgoing.len(), 1);
    let frame = s1.client.outgoing.remove(0);
    assert_eq!(frame.tag, TAG_TO_MAIN);
    assert_eq!(frame.client_id, 5);

    // The payload decodes to the same event with our identifier stamped in.
    let sent = decode_event(&frame.payload).unwrap();
    match sent {
        Event::NewTestcase { input, forward_id, .. } => {
            assert_eq!(input, vec![0xAA]);
            assert_eq!(forward_id, Some(5));
        }
        other => panic!("wrong variant came back: {other:?}"),
    }
}

#[test]
fn secondary_forwards_heartbeat_and_delegates_it() {
    let mut s1 = secondary(5);
    let mut state = FuzzState::new();
    let hb = Event::UpdateExecStats { time: 2, executions: 9 };

    s1.fire(&mut state, hb).unwrap();

    // Forwarded for liveness, and the inner manager still sees it.
    assert_eq!(s1.client.outgoing.len(), 1);
    assert_eq!(s1.client.outgoing[0].tag, TAG_TO_MAIN);
    assert_eq!(s1.inner.events.len(), 1);
    assert!(matches!(s1.inner.events[0], Event::UpdateExecStats { .. }));
}

#[test]
fn secondary_keeps_other_events_local() {
    let mut s1 = secondary(5);
    let mut state = FuzzState::new();
    s1.fire(&mut state, Event::Objective { objective_size: 1, time: 1 }).unwrap();
    assert_eq!(s1.client.outgoing.len(), 0);
    assert_eq!(s1.inner.events.len(), 1);
}

#[test]
fn large_payloads_cross_the_wire_compressed() {
    // An input beyond the compression threshold must ship deflated — the
    // frame bytes differ from the record — and still route and decode at the
    // broker, which inflates before deserializing.
    let mut s1 = secondary(6);
    let mut state = FuzzState::new();
    let big_input = vec![0x41u8; 4096];
    let event = sample_testcase(big_input.clone(), None, EventConfig::AlwaysUnique);
    let record = encode_event(&event);

    s1.fire(&mut state, event).unwrap();
    let frame = s1.client.outgoing.remove(0);
    assert_eq!(frame.flags & FLAG_COMPRESSED, FLAG_COMPRESSED);
    assert_ne!(frame.payload, record);
    assert!(frame.payload.len() < record.len());

    let routed = broker_route(frame).unwrap().expect("a test case fans out");
    // Broadcast is bit-identical: still compressed, same bytes.
    assert_eq!(routed.flags & FLAG_COMPRESSED, FLAG_COMPRESSED);

    // The main evaluator inflates the payload back to the exact input.
    let mut m = main_node(1);
    let mut evaluator = SimpleEvaluator::new(true);
    let mut m_state = FuzzState::new();
    m.client.deliver(routed);
    assert_eq!(m.process(&mut evaluator, &mut m_state), Ok(1));
    match &m.inner.events[0] {
        Event::NewTestcase { input, forward_id, .. } => {
            assert_eq!(input, &big_input);
            assert_eq!(*forward_id, Some(6));
        }
        other => panic!("wrong variant republished: {other:?}"),
    }
}

#[test]
fn small_payloads_cross_the_wire_plain() {
    let mut s1 = secondary(6);
    let mut state = FuzzState::new();
    let event = sample_testcase(vec![1, 2, 3], None, EventConfig::AlwaysUnique);

    s1.fire(&mut state, event).unwrap();
    let frame = s1.client.outgoing.remove(0);
    assert_eq!(frame.flags & FLAG_COMPRESSED, 0);
    // Below the threshold the payload is the record itself.
    let decoded = decode_event(&frame.payload).unwrap();
    assert!(matches!(decoded, Event::NewTestcase { .. }));
}

// ---------------------------------------------------------------------------
// Main processor path.
// ---------------------------------------------------------------------------

#[test]
fn empty_queue_processes_zero_events() {
    let mut m = main_node(1);
    let mut evaluator = SimpleEvaluator::new(true);
    let mut state = FuzzState::new();
    assert_eq!(m.process(&mut evaluator, &mut state), Ok(0));
    assert_eq!(evaluator.trusted_cnt + evaluator.reexec_cnt, 0);
}

#[test]
fn own_messages_are_suppressed() {
    // A frame carrying our own client identifier is skipped unread: zero
    // events processed, the evaluator never asked.
    let mut m = main_node(1);
    let mut evaluator = SimpleEvaluator::new(true);
    let mut state = FuzzState::new();

    let event = sample_testcase(vec![7], None, EventConfig::AlwaysUnique);
    m.client.deliver(Frame {
        tag: TAG_TO_MAIN,
        flags: FLAG_INITIALIZED,
        client_id: 1,
        payload: encode_event(&event),
    });

    assert_eq!(m.process(&mut evaluator, &mut state), Ok(0));
    assert_eq!(evaluator.trusted_cnt + evaluator.reexec_cnt, 0);
    assert_eq!(m.inner.events.len(), 0);
}

#[test]
fn matching_config_with_snapshot_is_trusted() {
    // Full forward path: the secondary fires, the broker routes, the main
    // evaluator trusts the snapshot, accepts, and republishes the event with
    // the secondary's identifier attached.
    let mut s1 = secondary(5);
    let mut m = main_node(1);
    let mut evaluator = SimpleEvaluator::new(true);
    let mut s1_state = FuzzState::new();
    let mut m_state = FuzzState::new();

    let event = sample_testcase(
        vec![0xAA],
        Some(vec![3, 3]),
        EventConfig::FromName { name_hash: 77 },
    );
    s1.fire(&mut s1_state, event).unwrap();

    let frame = s1.client.outgoing.remove(0);
    let routed = broker_route(frame).unwrap().expect("a test case fans out");
    m.client.deliver(routed);

    assert_eq!(m.process(&mut evaluator, &mut m_state), Ok(1));
    assert_eq!(evaluator.trusted_cnt, 1);
    assert_eq!(evaluator.reexec_cnt, 0);
    // No local re-execution happened.
    assert_eq!(m_state.executions, 0);

    // The accepted event reached the main broker through the inner manager.
    assert_eq!(m.inner.events.len(), 1);
    match &m.inner.events[0] {
        Event::NewTestcase { input, forward_id, .. } => {
            assert_eq!(input, &vec![0xAA]);
            assert_eq!(*forward_id, Some(5));
        }
        other => panic!("wrong variant republished: {other:?}"),
    }
}

#[test]
fn mismatching_config_is_reexecuted() {
    // Same forward, but the sender's configuration differs: the snapshot is
    // ignored and the input re-executed locally.
    let mut s1 = secondary(5);
    let mut m = main_node(1);
    let mut evaluator = SimpleEvaluator::new(true);
    let mut s1_state = FuzzState::new();
    let mut m_state = FuzzState::new();

    let event = sample_testcase(
        vec![0xAB],
        Some(vec![3, 3]),
        EventConfig::FromName { name_hash: 1234 },
    );
    s1.fire(&mut s1_state, event).unwrap();
    let routed = broker_route(s1.client.outgoing.remove(0)).unwrap().unwrap();
    m.client.deliver(routed);

    assert_eq!(m.process(&mut evaluator, &mut m_state), Ok(1));
    assert_eq!(evaluator.trusted_cnt, 0);
    assert_eq!(evaluator.reexec_cnt, 1);
    assert_eq!(m_state.executions, 1);
    assert_eq!(m.inner.events.len(), 1);
}

#[test]
fn missing_snapshot_is_reexecuted() {
    // Matching configuration but no snapshot: nothing to trust, re-execute.
    let mut m = main_node(1);
    let mut evaluator = SimpleEvaluator::new(true);
    let mut state = FuzzState::new();

    let event = sample_testcase(vec![9], None, EventConfig::FromName { name_hash: 77 });
    m.client.deliver(Frame {
        tag: TAG_TO_MAIN,
        flags: FLAG_INITIALIZED,
        client_id: 3,
        payload: encode_event(&event),
    });

    assert_eq!(m.process(&mut evaluator, &mut state), Ok(1));
    assert_eq!(evaluator.reexec_cnt, 1);
    assert_eq!(evaluator.trusted_cnt, 0);
}

#[test]
fn rejected_inputs_are_not_republished() {
    let mut m = main_node(1);
    let mut evaluator = SimpleEvaluator::new(false);
    let mut state = FuzzState::new();

    let event = sample_testcase(vec![9], None, EventConfig::AlwaysUnique);
    m.client.deliver(Frame {
        tag: TAG_TO_MAIN,
        flags: FLAG_INITIALIZED,
        client_id: 3,
        payload: encode_event(&event),
    });

    assert_eq!(m.process(&mut evaluator, &mut state), Ok(1));
    assert_eq!(m.inner.events.len(), 0);
}

#[test]
fn non_testcase_on_main_channel_is_fatal() {
    let mut m = main_node(1);
    let mut evaluator = SimpleEvaluator::new(true);
    let mut state = FuzzState::new();

    let hb = Event::UpdateExecStats { time: 1, executions: 1 };
    m.client.deliver(Frame {
        tag: TAG_TO_MAIN,
        flags: FLAG_INITIALIZED,
        client_id: 3,
        payload: encode_event(&hb),
    });

    assert_eq!(m.process(&mut evaluator, &mut state), Err(Error::Unknown));
}

#[test]
fn main_node_fire_stays_local() {
    // The main evaluator does not produce test cases on the centralized
    // channel; its fire goes to the inner manager alone.
    let mut m = main_node(1);
    let mut state = FuzzState::new();
    let event = sample_testcase(vec![1], None, EventConfig::AlwaysUnique);
    m.fire(&mut state, event).unwrap();
    assert_eq!(m.client.outgoing.len(), 0);
    assert_eq!(m.inner.events.len(), 1);
}

// ---------------------------------------------------------------------------
// Adaptive serialization policy.
// ---------------------------------------------------------------------------

#[test]
fn adaptive_policy_follows_cost_and_rate() {
    let mut s1 = secondary(5);

    // Fresh counters, positive reference time: cheap, rarely serialized —
    // serialize.
    assert!(s1.should_serialize_observers(10));

    // A reference time of zero makes any codec cost too expensive.
    assert!(!s1.should_serialize_observers(0));

    // Once the cumulative codec time reaches four times the reference, stop
    // serializing.
    s1.note_observers_serialized(400);
    assert!(!s1.should_serialize_observers(100));
    assert!(s1.should_serialize_observers(101));
}

#[test]
fn adaptive_policy_throttles_serialization_rate() {
    let mut s1 = secondary(5);
    // Drive the serialized share above eighty percent: ten queries, nine
    // serializations (cost 0 keeps the cost gate open).
    for _ in 0..10 {
        s1.should_serialize_observers(1000);
    }
    for _ in 0..9 {
        s1.note_observers_serialized(0);
    }
    // 9 * 100 < 80 * 11 fails: 900 >= 880 — throttled.
    assert!(!s1.should_serialize_observers(1000));
    // One more query without a serialization relaxes the rate again:
    // 9 * 100 < 80 * 12 = 960 — serialize.
    assert!(s1.should_serialize_observers(1000));
}

// ---------------------------------------------------------------------------
// Restart plumbing.
// ---------------------------------------------------------------------------

#[test]
fn restart_and_exit_plumbing_stay_quiet() {
    let mut s1 = secondary(5);
    let mut state = FuzzState::new();
    s1.on_restart(&mut state).unwrap();
    s1.await_restart_safe();
    s1.send_exiting().unwrap();
    assert_eq!(s1.client.outgoing.len(), 0);
    assert!(!s1.is_main());
    assert_eq!(s1.mgr_id(), 5);
    assert_eq!(s1.configuration(), EventConfig::FromName { name_hash: 77 });
}
