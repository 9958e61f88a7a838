use foxglove_bridge::relay::{
    transcode, DropReason, EncodingTag, RelayAction, RelayKind, RelayTask, Transcoded,
    UnknownEncodingPolicy,
};

fn forwarded(a: RelayAction) -> (u64, Vec<u8>) {
    match a {
        RelayAction::Forward { timestamp_ns, payload } => (timestamp_ns, payload),
        _ => panic!("expected a forward"),
    }
}

#[test]
fn structured_payload_passes_unchanged() {
    match transcode(RelayKind::Structured, EncodingTag::AppOctetStream, vec![0xff, 0, 7]) {
        Transcoded::Payload(p) => assert_eq!(p, vec![0xff, 0, 7]),
        Transcoded::Dropped(_) => panic!("dropped"),
    }
}

#[test]
fn structured_payload_tagged_as_text_fails_conversion() {
    let r = transcode(RelayKind::Structured, EncodingTag::TextPlain, vec![1, 2]);
    assert!(matches!(r, Transcoded::Dropped(DropReason::ConversionFailed)));
}

#[test]
fn json_text_tags_forward_text_bytes() {
    let text = "{\"battery\": 97}".as_bytes().to_vec();
    for tag in [EncodingTag::TextPlain, EncodingTag::TextJson, EncodingTag::AppOctetStream] {
        match transcode(RelayKind::JsonText, tag, text.clone()) {
            Transcoded::Payload(p) => assert_eq!(p, text),
            Transcoded::Dropped(_) => panic!("dropped"),
        }
    }
}

#[test]
fn json_text_with_invalid_utf8_fails_conversion() {
    let r = transcode(RelayKind::JsonText, EncodingTag::TextJson, vec![0x7b, 0xc3, 0x28]);
    assert!(matches!(r, Transcoded::Dropped(DropReason::ConversionFailed)));
    match transcode(RelayKind::JsonText, EncodingTag::AppOctetStream, vec![0xc3, 0x28]) {
        Transcoded::Payload(p) => assert_eq!(p, vec![0xc3, 0x28]),
        Transcoded::Dropped(_) => panic!("dropped"),
    }
}

#[test]
fn unknown_encoding_follows_policy() {
    let mut halt = RelayTask::new(RelayKind::JsonText, UnknownEncodingPolicy::HaltProcess);
    assert!(matches!(halt.on_message(EncodingTag::Other, vec![1], 5), RelayAction::Halt));
    let mut skip = RelayTask::new(RelayKind::JsonText, UnknownEncodingPolicy::SkipMessage);
    assert!(matches!(
        skip.on_message(EncodingTag::Other, vec![1], 5),
        RelayAction::Drop(DropReason::UnknownEncoding)
    ));
    assert_eq!(skip.counter, 1);
    let (ts, p) = forwarded(skip.on_message(EncodingTag::TextPlain, b"ok".to_vec(), 6));
    assert_eq!((ts, p), (6, b"ok".to_vec()));
}

#[test]
fn n_messages_forwarded_in_order_with_telemetry_every_twenty() {
    let mut task = RelayTask::new(RelayKind::Structured, UnknownEncodingPolicy::HaltProcess);
    let mut last_ts: u64 = 0;
    let mut telemetry: Vec<u64> = Vec::new();
    let n: u64 = 65;
    for i in 0..n {
        let now = 1_000 + i * 3;
        let (ts, p) = forwarded(task.on_message(EncodingTag::AppOctetStream, vec![i as u8], now));
        assert_eq!(ts, now);
        assert!(ts >= last_ts);
        last_ts = ts;
        assert_eq!(p, vec![i as u8]);
        if let Some(c) = task.telemetry_after_send(true) {
            telemetry.push(c);
        }
    }
    assert_eq!(task.counter, n);
    assert_eq!(telemetry, vec![20, 40, 60]);
}

#[test]
fn send_failure_on_one_topic_does_not_affect_another() {
    let mut a = RelayTask::new(RelayKind::Structured, UnknownEncodingPolicy::HaltProcess);
    let mut b = RelayTask::new(RelayKind::JsonText, UnknownEncodingPolicy::HaltProcess);
    let mut b_forwarded = 0;
    let mut b_telemetry = Vec::new();
    for i in 0..40u64 {
        let _ = forwarded(a.on_message(EncodingTag::AppOctetStream, vec![1], i));
        assert_eq!(a.telemetry_after_send(false), None);
        let (ts, _) = forwarded(b.on_message(EncodingTag::TextJson, b"{}".to_vec(), i));
        assert_eq!(ts, i);
        b_forwarded += 1;
        if let Some(c) = b.telemetry_after_send(true) {
            b_telemetry.push(c);
        }
    }
    assert_eq!(b_forwarded, 40);
    assert_eq!(b_telemetry, vec![20, 40]);
    assert_eq!(a.counter, 40);
    let (ts, p) = forwarded(a.on_message(EncodingTag::AppOctetStream, vec![9], 99));
    assert_eq!((ts, p), (99, vec![9]));
}

#[test]
fn dropped_message_still_counts() {
    let mut t = RelayTask::new(RelayKind::Structured, UnknownEncodingPolicy::HaltProcess);
    for _ in 0..19 {
        let _ = forwarded(t.on_message(EncodingTag::AppOctetStream, vec![], 1));
    }
    assert!(matches!(
        t.on_message(EncodingTag::TextJson, vec![], 2),
        RelayAction::Drop(DropReason::ConversionFailed)
    ));
    assert_eq!(t.counter, 20);
    let _ = forwarded(t.on_message(EncodingTag::AppOctetStream, vec![], 3));
    assert_eq!(t.telemetry_after_send(true), None);
}
