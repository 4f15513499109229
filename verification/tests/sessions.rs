use capture_control::actors::sessions_actor::{
    DetectionModel, OpenPlan, SessionCommand, SessionModel, SessionUpdate, SessionsActor,
};
use capture_control::framework::clock::ClockReading;
use capture_control::messages::protobuf_msg::ProtobufMsg;
use capture_control::messages::sessions::{
    decode_session, encode_detection, encode_session_details,
};
use capture_control::wire::DecodeError;
use prost::Message;

/// The payload of the session events as prost reads and writes it.
#[derive(Clone, Debug, Default, PartialEq)]
struct Details {
    session: String,
    active: bool,
    opened: i64,
    closed: Option<i64>,
    detections: i32,
}

impl Message for Details {
    fn encode_raw(&self, buf: &mut impl prost::bytes::BufMut) {
        if !self.session.is_empty() {
            prost::encoding::string::encode(1, &self.session, buf);
        }
        if self.active {
            prost::encoding::bool::encode(2, &self.active, buf);
        }
        if self.opened != 0 {
            prost::encoding::int64::encode(3, &self.opened, buf);
        }
        if let Some(closed) = &self.closed {
            prost::encoding::int64::encode(4, closed, buf);
        }
        if self.detections != 0 {
            prost::encoding::int32::encode(5, &self.detections, buf);
        }
    }

    fn merge_field(
        &mut self,
        tag: u32,
        wire_type: prost::encoding::WireType,
        buf: &mut impl prost::bytes::Buf,
        ctx: prost::encoding::DecodeContext,
    ) -> Result<(), prost::DecodeError> {
        match tag {
            1 => prost::encoding::string::merge(wire_type, &mut self.session, buf, ctx),
            2 => prost::encoding::bool::merge(wire_type, &mut self.active, buf, ctx),
            3 => prost::encoding::int64::merge(wire_type, &mut self.opened, buf, ctx),
            4 => prost::encoding::int64::merge(
                wire_type,
                self.closed.get_or_insert(0),
                buf,
                ctx,
            ),
            5 => prost::encoding::int32::merge(wire_type, &mut self.detections, buf, ctx),
            _ => prost::encoding::skip_field(wire_type, tag, buf, ctx),
        }
    }

    fn encoded_len(&self) -> usize {
        let mut buf = Vec::new();
        self.encode_raw(&mut buf);
        buf.len()
    }

    fn clear(&mut self) {
        *self = Details::default();
    }
}

/// The payload of the detection event as prost reads and writes it.
#[derive(Clone, Debug, Default, PartialEq)]
struct DetectionMsg {
    session: String,
    detection: i32,
    created: i64,
    updated: i64,
    score: f32,
    clazz: i32,
    width: i32,
    height: i32,
    image: Option<Vec<u8>>,
}

impl Message for DetectionMsg {
    fn encode_raw(&self, buf: &mut impl prost::bytes::BufMut) {
        if !self.session.is_empty() {
            prost::encoding::string::encode(1, &self.session, buf);
        }
        if self.detection != 0 {
            prost::encoding::int32::encode(2, &self.detection, buf);
        }
        if self.created != 0 {
            prost::encoding::int64::encode(3, &self.created, buf);
        }
        if self.updated != 0 {
            prost::encoding::int64::encode(4, &self.updated, buf);
        }
        if self.score != 0f32 {
            prost::encoding::float::encode(5, &self.score, buf);
        }
        if self.clazz != 0 {
            prost::encoding::int32::encode(6, &self.clazz, buf);
        }
        if self.width != 0 {
            prost::encoding::int32::encode(7, &self.width, buf);
        }
        if self.height != 0 {
            prost::encoding::int32::encode(8, &self.height, buf);
        }
        if let Some(image) = &self.image {
            prost::encoding::bytes::encode(9, image, buf);
        }
    }

    fn merge_field(
        &mut self,
        tag: u32,
        wire_type: prost::encoding::WireType,
        buf: &mut impl prost::bytes::Buf,
        ctx: prost::encoding::DecodeContext,
    ) -> Result<(), prost::DecodeError> {
        match tag {
            1 => prost::encoding::string::merge(wire_type, &mut self.session, buf, ctx),
            2 => prost::encoding::int32::merge(wire_type, &mut self.detection, buf, ctx),
            3 => prost::encoding::int64::merge(wire_type, &mut self.created, buf, ctx),
            4 => prost::encoding::int64::merge(wire_type, &mut self.updated, buf, ctx),
            5 => prost::encoding::float::merge(wire_type, &mut self.score, buf, ctx),
            6 => prost::encoding::int32::merge(wire_type, &mut self.clazz, buf, ctx),
            7 => prost::encoding::int32::merge(wire_type, &mut self.width, buf, ctx),
            8 => prost::encoding::int32::merge(wire_type, &mut self.height, buf, ctx),
            9 => prost::encoding::bytes::merge(
                wire_type,
                self.image.get_or_insert_with(Vec::new),
                buf,
                ctx,
            ),
            _ => prost::encoding::skip_field(wire_type, tag, buf, ctx),
        }
    }

    fn encoded_len(&self) -> usize {
        let mut buf = Vec::new();
        self.encode_raw(&mut buf);
        buf.len()
    }

    fn clear(&mut self) {
        *self = DetectionMsg::default();
    }
}

fn clock(second: u32, millis: i64) -> ClockReading {
    ClockReading {
        year: 2024,
        month: 5,
        day: 17,
        hour: 8,
        minute: 30,
        second,
        nanosecond: 0,
        timestamp_millis: millis,
    }
}

fn command(topic: &str, payload: &[u8]) -> ProtobufMsg {
    ProtobufMsg { identifier: topic.to_string(), payload: payload.to_vec() }
}

fn details(msg: &ProtobufMsg) -> Details {
    Details::decode(&msg.payload[..]).unwrap()
}

/// A store in memory that does what the store of the process does with a
/// plan: all of it or nothing.
struct Store {
    sessions: Vec<SessionModel>,
    detections: Vec<String>,
}

impl Store {
    fn new() -> Store {
        Store { sessions: Vec::new(), detections: Vec::new() }
    }

    fn active(&self) -> Vec<SessionModel> {
        self.sessions.iter().filter(|s| s.active == 1).cloned().collect()
    }

    fn commit(&mut self, plan: &OpenPlan) -> bool {
        if self.sessions.iter().any(|s| s.session == plan.insert.session) {
            return false;
        }
        for update in &plan.updates {
            let at = self.sessions.iter().position(|s| *s == update.before).unwrap();
            self.sessions[at] = update.after.clone();
        }
        self.sessions.push(plan.insert.clone());
        true
    }

    fn open(&mut self, now: &ClockReading) -> Vec<ProtobufMsg> {
        let plan = SessionsActor::open_session_at(&self.active(), &self.detections, now);
        let committed = self.commit(&plan);
        plan.events(committed)
    }
}

#[test]
fn session_details_bytes_are_exact() {
    assert_eq!(
        encode_session_details("ab", true, 5, Some(0), 2),
        vec![0x0A, 2, b'a', b'b', 0x10, 1, 0x18, 5, 0x20, 0, 0x28, 2]
    );
    assert_eq!(encode_session_details("", false, 0, None, 0), Vec::<u8>::new());
    assert_eq!(
        encode_session_details("", false, 0, None, -1),
        vec![0x28, 0xFF, 0xFF, 0xFF, 0xFF, 0xFF, 0xFF, 0xFF, 0xFF, 0xFF, 0x01]
    );
}

#[test]
fn session_details_match_prost() {
    for session in ["", "20240517083000", "séance"] {
        for active in [false, true] {
            for opened in [0i64, 1, -1, 1_715_934_600_123, i64::MAX, i64::MIN] {
                for closed in [None, Some(0i64), Some(1_715_934_700_000), Some(-5)] {
                    for detections in [0i32, 1, 300, -1, i32::MAX, i32::MIN] {
                        let expected = Details {
                            session: session.to_string(),
                            active,
                            opened,
                            closed,
                            detections,
                        };
                        let ours =
                            encode_session_details(session, active, opened, closed, detections);
                        assert_eq!(ours, expected.encode_to_vec());
                        assert_eq!(Details::decode(&ours[..]).unwrap(), expected);
                    }
                }
            }
        }
    }
}

#[test]
fn detection_bytes_are_exact() {
    assert_eq!(
        encode_detection("s", 1, 2, 3, 0x3F80_0000, 4, 5, 6, &[7, 8]),
        vec![
            0x0A, 1, b's', 0x10, 1, 0x18, 2, 0x20, 3, 0x2D, 0, 0, 0x80, 0x3F, 0x30, 4, 0x38, 5,
            0x40, 6, 0x4A, 2, 7, 8
        ]
    );
    // the image is written even where it is empty
    assert_eq!(encode_detection("", 0, 0, 0, 0, 0, 0, 0, &[]), vec![0x4A, 0]);
}

#[test]
fn detection_matches_prost() {
    for score in [0.0f32, -0.0, 0.5, 0.87, -1.25, f32::INFINITY, f32::NAN, f32::MIN_POSITIVE] {
        for detection in [0i32, 7, -7] {
            for image in [vec![], vec![1u8, 2, 3], vec![0xAB; 500]] {
                let expected = DetectionMsg {
                    session: "20240517083000".to_string(),
                    detection,
                    created: 1_715_934_600_123,
                    updated: 0,
                    score,
                    clazz: 3,
                    width: 320,
                    height: -240,
                    image: Some(image.clone()),
                };
                let ours = encode_detection(
                    "20240517083000",
                    detection,
                    1_715_934_600_123,
                    0,
                    score.to_bits(),
                    3,
                    320,
                    -240,
                    &image,
                );
                assert_eq!(ours, expected.encode_to_vec());
            }
        }
    }
}

#[test]
fn to_event_of_a_session() {
    let record = SessionModel {
        session: "20240517083000".to_string(),
        active: 1,
        opened: 1000,
        closed: None,
    };
    let event = record.to_event("session.opened", 0);
    assert_eq!(event.identifier, "session.opened");
    assert_eq!(
        details(&event),
        Details {
            session: "20240517083000".to_string(),
            active: true,
            opened: 1000,
            closed: None,
            detections: 0,
        }
    );
    assert_eq!(record.duplicate(), record);
}

#[test]
fn to_event_takes_only_flag_1_as_active() {
    for (flag, active) in [(0, false), (1, true), (2, false), (-1, false)] {
        let record =
            SessionModel { session: "s".to_string(), active: flag, opened: 1, closed: Some(2) };
        assert_eq!(details(&record.to_event("session.details", 4)).active, active);
    }
}

#[test]
fn to_event_of_a_detection() {
    let record = DetectionModel {
        detection: 12,
        session: "20240517083000".to_string(),
        created: 10,
        updated: 11,
        score: 0.75f32.to_bits(),
        clazz: 2,
        width: 320,
        height: 240,
        image: vec![1, 2, 3],
    };
    let event = record.to_event();
    assert_eq!(event.identifier, "detection");
    assert_eq!(
        DetectionMsg::decode(&event.payload[..]).unwrap(),
        DetectionMsg {
            session: "20240517083000".to_string(),
            detection: 12,
            created: 10,
            updated: 11,
            score: 0.75,
            clazz: 2,
            width: 320,
            height: 240,
            image: Some(vec![1, 2, 3]),
        }
    );
}

#[test]
fn topics_are_matched_exactly() {
    let of = |topic: &str| SessionsActor::command(&command(topic, &[]));
    assert_eq!(of("session.open"), SessionCommand::Open);
    assert_eq!(of("session.close"), SessionCommand::Close);
    assert_eq!(of("session.all"), SessionCommand::All);
    assert_eq!(of("session.detections"), SessionCommand::Detections);
    assert_eq!(of("session.Open"), SessionCommand::Unknown);
    assert_eq!(of("session.open "), SessionCommand::Unknown);
    assert_eq!(of("session"), SessionCommand::Unknown);
    assert_eq!(of(""), SessionCommand::Unknown);
    assert_eq!(of("state.capture.set"), SessionCommand::Unknown);
}

#[test]
fn session_reference_is_decoded() {
    let payload = "20240517083000".to_string().encode_to_vec();
    assert_eq!(
        SessionsActor::session_reference(&command("session.detections", &payload)),
        Ok("20240517083000".to_string())
    );
    assert_eq!(decode_session(&[]), Ok(String::new()));
    assert_eq!(decode_session(&[0x0A, 1, b'a', 0x0A, 1, b'b']), Ok("b".to_string()));
    assert_eq!(decode_session(&[0x10, 1, 0x0A, 2, b'o', b'k']), Ok("ok".to_string()));
}

#[test]
fn session_reference_errors() {
    assert_eq!(decode_session(&[0x0A, 4, b'a']), Err(DecodeError::Malformed));
    assert_eq!(decode_session(&[0x08, 1]), Err(DecodeError::InvalidField));
    assert_eq!(decode_session(&[0x0A, 1, 0xFF]), Err(DecodeError::InvalidField));
    assert_eq!(
        SessionsActor::session_reference(&command("session.detections", &[0x0A])),
        Err(DecodeError::Malformed)
    );
}

#[test]
fn session_reference_agrees_with_prost() {
    let mut seed: u64 = 0x0F0F_1234_5678_9ABC;
    let mut next = move || {
        seed = seed.wrapping_mul(6364136223846793005).wrapping_add(1442695040888963407);
        (seed >> 33) as u32
    };
    for _ in 0..20000 {
        let len = next() % 7;
        let mut buf = Vec::new();
        for _ in 0..len {
            let b = next();
            buf.push(match b % 5 {
                0 => 0x0A,
                1 => (b >> 8) as u8 % 4,
                2 => 0xC3,
                _ => (b >> 8) as u8,
            });
        }
        assert_eq!(decode_session(&buf).ok(), String::decode(&buf[..]).ok(), "{:?}", buf);
    }
}

#[test]
fn detections_are_counted_by_their_session_key() {
    let keys: Vec<String> =
        ["a", "b", "a", "ab", "", "a"].iter().map(|k| k.to_string()).collect();
    assert_eq!(SessionsActor::count_detections(&keys, "a"), 3);
    assert_eq!(SessionsActor::count_detections(&keys, "b"), 1);
    assert_eq!(SessionsActor::count_detections(&keys, "ab"), 1);
    assert_eq!(SessionsActor::count_detections(&keys, ""), 1);
    assert_eq!(SessionsActor::count_detections(&keys, "c"), 0);
    assert_eq!(SessionsActor::count_detections(&Vec::new(), "a"), 0);
}

#[test]
fn open_on_an_empty_store() {
    let now = clock(0, 1_715_934_600_000);
    let plan = SessionsActor::open_session_at(&Vec::new(), &Vec::new(), &now);
    assert_eq!(plan.updates, Vec::<SessionUpdate>::new());
    assert_eq!(
        plan.insert,
        SessionModel {
            session: "20240517083000".to_string(),
            active: 1,
            opened: 1_715_934_600_000,
            closed: None,
        }
    );
    assert_eq!(plan.closed_event, None);
    let events = plan.events(true);
    assert_eq!(events.len(), 1);
    assert_eq!(events[0].identifier, "session.opened");
    assert_eq!(
        details(&events[0]),
        Details {
            session: "20240517083000".to_string(),
            active: true,
            opened: 1_715_934_600_000,
            closed: None,
            detections: 0,
        }
    );
}

#[test]
fn open_again_closes_the_first_session() {
    let mut store = Store::new();
    let first = store.open(&clock(0, 1000));
    assert_eq!(first.len(), 1);
    assert_eq!(first[0].identifier, "session.opened");
    let id = details(&first[0]).session;
    assert_eq!(id.len(), 14);
    assert!(id.chars().all(|c| c.is_ascii_digit()));
    store.detections = vec![id.clone(), "other".to_string(), id.clone(), id.clone()];

    let second = store.open(&clock(9, 9000));
    assert_eq!(second.len(), 2);
    assert_eq!(second[0].identifier, "session.closed");
    assert_eq!(
        details(&second[0]),
        Details { session: id, active: false, opened: 1000, closed: Some(9000), detections: 3 }
    );
    assert_eq!(second[1].identifier, "session.opened");
    assert_eq!(
        details(&second[1]),
        Details {
            session: "20240517083009".to_string(),
            active: true,
            opened: 9000,
            closed: None,
            detections: 0,
        }
    );
}

#[test]
fn at_most_one_session_is_active_after_any_number_of_opens() {
    let mut store = Store::new();
    for n in 0..40u32 {
        let events = store.open(&clock(n, 1000 * n as i64));
        // a session that was open is always found and closed
        assert_eq!(events.len(), if n == 0 { 1 } else { 2 });
        assert_eq!(store.active().len(), 1);
        assert_eq!(store.sessions.len(), n as usize + 1);
        for closed in store.sessions.iter().filter(|s| s.active != 1) {
            assert_eq!(closed.active, 0);
            assert!(closed.closed.unwrap() >= closed.opened);
        }
    }
}

#[test]
fn every_active_record_is_closed_and_the_last_is_reported() {
    let scanned = vec![
        SessionModel { session: "a".to_string(), active: 1, opened: 1, closed: None },
        SessionModel { session: "b".to_string(), active: 0, opened: 2, closed: Some(3) },
        SessionModel { session: "c".to_string(), active: 1, opened: 4, closed: None },
        SessionModel { session: "d".to_string(), active: 2, opened: 5, closed: None },
    ];
    let keys = vec!["c".to_string(), "a".to_string(), "c".to_string()];
    let plan = SessionsActor::open_session_at(&scanned, &keys, &clock(1, 50));
    assert_eq!(
        plan.updates,
        vec![
            SessionUpdate {
                before: scanned[0].clone(),
                after: SessionModel {
                    session: "a".to_string(),
                    active: 0,
                    opened: 1,
                    closed: Some(50),
                },
            },
            SessionUpdate {
                before: scanned[2].clone(),
                after: SessionModel {
                    session: "c".to_string(),
                    active: 0,
                    opened: 4,
                    closed: Some(50),
                },
            },
        ]
    );
    let closed = plan.closed_event.clone().unwrap();
    assert_eq!(closed.identifier, "session.closed");
    assert_eq!(
        details(&closed),
        Details {
            session: "c".to_string(),
            active: false,
            opened: 4,
            closed: Some(50),
            detections: 2,
        }
    );
}

#[test]
fn nothing_is_published_unless_the_transaction_is_committed() {
    let scanned =
        vec![SessionModel { session: "a".to_string(), active: 1, opened: 1, closed: None }];
    let plan = SessionsActor::open_session_at(&scanned, &Vec::new(), &clock(1, 50));
    assert!(plan.closed_event.is_some());
    assert_eq!(plan.clone().events(false), Vec::<ProtobufMsg>::new());
    assert_eq!(plan.events(true).len(), 2);
}

#[test]
fn a_second_open_in_the_same_second_is_not_committed() {
    let mut store = Store::new();
    assert_eq!(store.open(&clock(5, 5000)).len(), 1);
    assert_eq!(store.open(&clock(5, 5400)), Vec::<ProtobufMsg>::new());
    assert_eq!(store.sessions.len(), 1);
    assert_eq!(store.active().len(), 1);
}

#[test]
fn open_session_reads_the_local_clock() {
    let scanned =
        vec![SessionModel { session: "a".to_string(), active: 1, opened: 1, closed: None }];
    let before = chrono::Local::now();
    let plan = SessionsActor::open_session(&scanned, &Vec::new());
    let after = chrono::Local::now();
    let id = plan.insert.session.clone();
    assert!(before.format("%Y%m%d%H%M%S").to_string() <= id);
    assert!(id <= after.format("%Y%m%d%H%M%S").to_string());
    assert!(before.timestamp_millis() <= plan.insert.opened);
    assert!(plan.insert.opened <= after.timestamp_millis());
    assert_eq!(plan.insert.active, 1);
    assert_eq!(plan.insert.closed, None);
    assert_eq!(plan.updates[0].after.closed, Some(plan.insert.opened));
    assert_eq!(details(&plan.opened_event).session, id);
}

#[test]
fn all_sessions_reports_each_record_without_a_count() {
    let records = vec![
        SessionModel { session: "a".to_string(), active: 0, opened: 1, closed: Some(2) },
        SessionModel { session: "b".to_string(), active: 1, opened: 3, closed: None },
    ];
    let events = SessionsActor::all_sessions(&records);
    assert_eq!(events.len(), 2);
    for (event, record) in events.iter().zip(&records) {
        assert_eq!(event.identifier, "session.details");
        assert_eq!(
            details(event),
            Details {
                session: record.session.clone(),
                active: record.active == 1,
                opened: record.opened,
                closed: record.closed,
                detections: 0,
            }
        );
    }
    assert_eq!(SessionsActor::all_sessions(&Vec::new()), Vec::<ProtobufMsg>::new());
}

#[test]
fn detections_reports_each_record_in_order() {
    let records: Vec<DetectionModel> = (1..=3)
        .map(|n| DetectionModel {
            detection: n,
            session: "s".to_string(),
            created: n as i64,
            updated: 0,
            score: 0,
            clazz: 0,
            width: 0,
            height: 0,
            image: vec![n as u8],
        })
        .collect();
    let events = SessionsActor::detections(&records);
    assert_eq!(events.len(), 3);
    for (event, record) in events.iter().zip(&records) {
        assert_eq!(*event, record.to_event());
        assert_eq!(
            DetectionMsg::decode(&event.payload[..]).unwrap().detection,
            record.detection
        );
    }
}
