//! The actor that owns the session records: what a stored record is, what an
//! event says of it, and what opening a session does to the store.

use crate::framework::clock::{local_now, session_id_text, ClockReading};
use crate::framework::outbox::envelopes;
use crate::messages::protobuf_msg::{Envelope, ProtobufMsg};
use crate::messages::sessions::{
    decode_session, decoded_session, detection_bytes, encode_detection, encode_session_details,
    session_details_bytes, Detection, SessionDetails,
};
use crate::messages::text::same_text;
use crate::wire::DecodeError;
use vstd::prelude::*;

verus! {

/// A session record as a value: the session id, which is its primary key,
/// the active flag, the time of opening and the time of closing, both in
/// milliseconds since the epoch.
pub struct SessionRecord {
    pub session: Seq<char>,
    pub active: int,
    pub opened: int,
    pub closed: Option<int>,
}

/// A session record as the store holds it.
#[derive(Clone, Debug, PartialEq, Eq)]
pub struct SessionModel {
    pub session: String,
    pub active: i32,
    pub opened: i64,
    pub closed: Option<i64>,
}

impl View for SessionModel {
    type V = SessionRecord;

    open spec fn view(&self) -> SessionRecord {
        SessionRecord {
            session: self.session@,
            active: self.active as int,
            opened: self.opened as int,
            closed: match self.closed {
                Some(c) => Some(c as int),
                None => None,
            },
        }
    }
}

/// The event `event` about record `r` with `detections` detections.
pub open spec fn session_event(r: SessionRecord, event: Seq<char>, detections: int) -> Envelope {
    Envelope {
        identifier: event,
        payload: session_details_bytes(
            SessionDetails {
                session: r.session,
                active: r.active == 1,
                opened: r.opened,
                closed: r.closed,
                detections,
            },
        ),
    }
}

impl SessionModel {
    /// The event `event` about this record with `detections` detections.
    pub fn to_event(&self, event: &str, detections: i32) -> (msg: ProtobufMsg)
        ensures
            msg@ == session_event(self@, event@, detections as int),
    {
        ProtobufMsg {
            identifier: event.to_owned(),
            payload: encode_session_details(
                self.session.as_str(),
                self.active == 1,
                self.opened,
                self.closed,
                detections,
            ),
        }
    }

    /// A record with the same values.
    pub fn duplicate(&self) -> (copy: SessionModel)
        ensures
            copy@ == self@,
    {
        SessionModel {
            session: self.session.clone(),
            active: self.active,
            opened: self.opened,
            closed: self.closed,
        }
    }
}

/// A detection record as the store holds it. `score` is the confidence as
/// the bits of a 32-bit float.
#[derive(Clone, Debug, PartialEq, Eq)]
pub struct DetectionModel {
    pub detection: i32,
    pub session: String,
    pub created: i64,
    pub updated: i64,
    pub score: u32,
    pub clazz: i32,
    pub width: i32,
    pub height: i32,
    pub image: Vec<u8>,
}

impl View for DetectionModel {
    type V = Detection;

    open spec fn view(&self) -> Detection {
        Detection {
            session: self.session@,
            detection: self.detection as int,
            created: self.created as int,
            updated: self.updated as int,
            score: self.score,
            clazz: self.clazz as int,
            width: self.width as int,
            height: self.height as int,
            image: self.image@,
        }
    }
}

/// The `detection` event about detection `d`.
pub open spec fn detection_event(d: Detection) -> Envelope {
    Envelope { identifier: "detection"@, payload: detection_bytes(d) }
}

impl DetectionModel {
    /// The `detection` event about this record.
    pub fn to_event(&self) -> (msg: ProtobufMsg)
        ensures
            msg@ == detection_event(self@),
    {
        ProtobufMsg {
            identifier: "detection".to_owned(),
            payload: encode_detection(
                self.session.as_str(),
                self.detection,
                self.created,
                self.updated,
                self.score,
                self.clazz,
                self.width,
                self.height,
                self.image.as_slice(),
            ),
        }
    }
}

/// What a topic asks of the sessions actor.
#[derive(Clone, Copy, Debug, PartialEq, Eq, Structural)]
pub enum SessionCommand {
    /// `session.open`: open a session, closing the one that is active.
    Open,
    /// `session.close`: accepted, and nothing is done.
    Close,
    /// `session.all`: publish the details of every session.
    All,
    /// `session.detections`: publish the detections of one session.
    Detections,
    /// Any other topic: not for this actor.
    Unknown,
}

/// The command that a topic stands for. Topics are matched exactly.
pub open spec fn session_command(topic: Seq<char>) -> SessionCommand {
    if topic == "session.open"@ {
        SessionCommand::Open
    } else if topic == "session.close"@ {
        SessionCommand::Close
    } else if topic == "session.all"@ {
        SessionCommand::All
    } else if topic == "session.detections"@ {
        SessionCommand::Detections
    } else {
        SessionCommand::Unknown
    }
}

/// Whether a record is the active one: its flag is exactly 1.
pub open spec fn is_active(r: SessionRecord) -> bool {
    r.active == 1
}

/// Record `r` once it is closed at time `at`.
pub open spec fn closed_record(r: SessionRecord, at: int) -> SessionRecord {
    SessionRecord { session: r.session, active: 0, opened: r.opened, closed: Some(at) }
}

/// The updates that close the active records among `scanned` at time `at`:
/// for each of them, in order, the record as it was and as it becomes.
pub open spec fn closing_updates(scanned: Seq<SessionRecord>, at: int) -> Seq<
    (SessionRecord, SessionRecord),
>
    decreases scanned.len(),
{
    if scanned.len() == 0 {
        Seq::empty()
    } else {
        let before = closing_updates(scanned.drop_last(), at);
        let r = scanned.last();
        if is_active(r) {
            before.push((r, closed_record(r, at)))
        } else {
            before
        }
    }
}

/// How many of the session keys `keys` are `session`.
pub open spec fn count_sessions(keys: Seq<Seq<char>>, session: Seq<char>) -> nat
    decreases keys.len(),
{
    if keys.len() == 0 {
        0
    } else {
        count_sessions(keys.drop_last(), session) + if keys.last() == session {
            1nat
        } else {
            0nat
        }
    }
}

/// The number of detections that an event reports for `session`: the number
/// of keys that are `session`, and the largest number that the event can
/// carry where there are more.
pub open spec fn detection_count(keys: Seq<Seq<char>>, session: Seq<char>) -> int {
    if count_sessions(keys, session) > i32::MAX {
        i32::MAX as int
    } else {
        count_sessions(keys, session) as int
    }
}

/// The record of the session that is opened at `now`.
pub open spec fn new_record(now: ClockReading) -> SessionRecord {
    SessionRecord {
        session: session_id_text(now),
        active: 1,
        opened: now.timestamp_millis as int,
        closed: None,
    }
}

/// What opening a session asks of the store and of the event bus.
pub struct OpenPlanSpec {
    pub updates: Seq<(SessionRecord, SessionRecord)>,
    pub insert: SessionRecord,
    pub closed_event: Option<Envelope>,
    pub opened_event: Envelope,
}

/// Opening a session at `now`, the store holding the session records
/// `scanned` and detection records with the session keys `keys`: every
/// active record is closed at `now`, a new active record is inserted, and
/// once that is committed the last record closed is reported with the
/// number of its detections, then the new record with none.
pub open spec fn open_plan(
    scanned: Seq<SessionRecord>,
    keys: Seq<Seq<char>>,
    now: ClockReading,
) -> OpenPlanSpec {
    let updates = closing_updates(scanned, now.timestamp_millis as int);
    OpenPlanSpec {
        updates,
        insert: new_record(now),
        closed_event: if updates.len() == 0 {
            None
        } else {
            Some(
                session_event(
                    updates.last().1,
                    "session.closed"@,
                    detection_count(keys, updates.last().1.session),
                ),
            )
        },
        opened_event: session_event(new_record(now), "session.opened"@, 0),
    }
}

/// What is published once the transaction of a plan has ended: nothing
/// unless it was committed, else the closing event, if there is one, and
/// the opening event.
pub open spec fn events_after(plan: OpenPlanSpec, committed: bool) -> Seq<Envelope> {
    if !committed {
        Seq::empty()
    } else {
        match plan.closed_event {
            Some(closed) => seq![closed, plan.opened_event],
            None => seq![plan.opened_event],
        }
    }
}

/// One update of a session record: the record as the store holds it and as
/// it is to hold it.
#[derive(Clone, Debug, PartialEq, Eq)]
pub struct SessionUpdate {
    pub before: SessionModel,
    pub after: SessionModel,
}

/// What opening a session asks for: the updates and the insert of one
/// transaction, and the events to publish once it is committed.
#[derive(Clone, Debug, PartialEq, Eq)]
pub struct OpenPlan {
    pub updates: Vec<SessionUpdate>,
    pub insert: SessionModel,
    pub closed_event: Option<ProtobufMsg>,
    pub opened_event: ProtobufMsg,
}

/// The updates of `list` in order, each as a pair of values.
pub open spec fn updates_of(list: Seq<SessionUpdate>) -> Seq<(SessionRecord, SessionRecord)> {
    Seq::new(list.len(), |i: int| (list[i].before@, list[i].after@))
}

/// The records of `list` in order, each by its view.
pub open spec fn records_of(list: Seq<SessionModel>) -> Seq<SessionRecord> {
    Seq::new(list.len(), |i: int| list[i]@)
}

/// The texts of `list` in order, each by its view.
pub open spec fn texts_of(list: Seq<String>) -> Seq<Seq<char>> {
    Seq::new(list.len(), |i: int| list[i]@)
}

impl View for OpenPlan {
    type V = OpenPlanSpec;

    open spec fn view(&self) -> OpenPlanSpec {
        OpenPlanSpec {
            updates: updates_of(self.updates@),
            insert: self.insert@,
            closed_event: match self.closed_event {
                Some(e) => Some(e@),
                None => None,
            },
            opened_event: self.opened_event@,
        }
    }
}

impl OpenPlan {
    /// The events to publish once the transaction of the plan has ended:
    /// none unless it was committed.
    pub fn events(self, committed: bool) -> (list: Vec<ProtobufMsg>)
        ensures
            envelopes(list@) == events_after(self@, committed),
    {
        let mut list: Vec<ProtobufMsg> = Vec::new();
        if committed {
            match self.closed_event {
                Some(closed) => {
                    list.push(closed);
                },
                None => {},
            }
            list.push(self.opened_event);
        }
        assert(envelopes(list@) =~= events_after(self@, committed));
        list
    }
}

/// The details events about `records`: one `session.details` event for each
/// record, in order, each with no detections counted.
pub open spec fn details_events(records: Seq<SessionRecord>) -> Seq<Envelope> {
    Seq::new(records.len(), |i: int| session_event(records[i], "session.details"@, 0))
}

/// The detection events about `records`: one for each record, in order.
pub open spec fn detection_events(records: Seq<DetectionModel>) -> Seq<Envelope> {
    Seq::new(records.len(), |i: int| detection_event(records[i]@))
}

/// The actor that owns the session records. It holds no state of its own
/// between two commands: what it knows it reads from the store.
#[derive(Clone, Copy, Debug)]
pub struct SessionsActor {}

impl SessionsActor {
    /// The actor.
    pub fn new() -> (actor: SessionsActor) {
        SessionsActor {  }
    }

    /// The command that the topic of `msg` stands for.
    pub fn command(msg: &ProtobufMsg) -> (c: SessionCommand)
        ensures
            c == session_command(msg@.identifier),
    {
        let topic = msg.identifier.as_str();
        if same_text(topic, "session.open") {
            SessionCommand::Open
        } else if same_text(topic, "session.close") {
            SessionCommand::Close
        } else if same_text(topic, "session.all") {
            SessionCommand::All
        } else if same_text(topic, "session.detections") {
            SessionCommand::Detections
        } else {
            SessionCommand::Unknown
        }
    }

    /// The session id that the payload of a `session.detections` command
    /// refers to, or why the payload holds none.
    pub fn session_reference(msg: &ProtobufMsg) -> (r: Result<String, DecodeError>)
        ensures
            match r {
                Ok(session) => decoded_session(msg@.payload) == Ok::<Seq<char>, DecodeError>(
                    session@,
                ),
                Err(e) => decoded_session(msg@.payload) == Err::<Seq<char>, DecodeError>(e),
            },
    {
        decode_session(msg.payload.as_slice())
    }

    /// The number of detections to report for `session`, `keys` being the
    /// session keys of the detection records.
    pub fn count_detections(keys: &Vec<String>, session: &str) -> (n: i32)
        ensures
            n == detection_count(texts_of(keys@), session@),
    {
        let ghost all = texts_of(keys@);
        let mut count: usize = 0;
        let mut i: usize = 0;
        assert(all.take(0) =~= Seq::<Seq<char>>::empty());
        while i < keys.len()
            invariant
                i <= keys@.len(),
                all == texts_of(keys@),
                count == count_sessions(all.take(i as int), session@),
                count <= i,
            decreases keys@.len() - i,
        {
            proof {
                assert(all.take(i + 1).drop_last() =~= all.take(i as int));
                assert(all.take(i + 1).last() == keys@[i as int]@);
            }
            if same_text(keys[i].as_str(), session) {
                count = count + 1;
            }
            i = i + 1;
        }
        assert(all.take(i as int) =~= all);
        if count > 0x7FFF_FFFF {
            0x7FFF_FFFF
        } else {
            count as i32
        }
    }

    /// Plans the opening of a session at `now`. `scanned` are the session
    /// records that the store holds, or those of them that its index gives
    /// as active; `keys` are the session keys of its detection records.
    pub fn open_session_at(
        scanned: &Vec<SessionModel>,
        keys: &Vec<String>,
        now: &ClockReading,
    ) -> (plan: OpenPlan)
        requires
            now.wf(),
        ensures
            plan@ == open_plan(records_of(scanned@), texts_of(keys@), *now),
    {
        let ghost all = records_of(scanned@);
        let ghost at = now.timestamp_millis as int;
        let mut updates: Vec<SessionUpdate> = Vec::new();
        let mut i: usize = 0;
        assert(all.take(0) =~= Seq::<SessionRecord>::empty());
        while i < scanned.len()
            invariant
                i <= scanned@.len(),
                all == records_of(scanned@),
                at == now.timestamp_millis as int,
                updates_of(updates@) == closing_updates(all.take(i as int), at),
            decreases scanned@.len() - i,
        {
            proof {
                assert(all.take(i + 1).drop_last() =~= all.take(i as int));
                assert(all.take(i + 1).last() == scanned@[i as int]@);
            }
            let ghost before = updates_of(updates@);
            if scanned[i].active == 1 {
                let r = &scanned[i];
                let after = SessionModel {
                    session: r.session.clone(),
                    active: 0,
                    opened: r.opened,
                    closed: Some(now.timestamp_millis),
                };
                updates.push(SessionUpdate { before: r.duplicate(), after });
                assert(updates_of(updates@) =~= before.push((r@, closed_record(r@, at))));
            }
            i = i + 1;
        }
        assert(all.take(i as int) =~= all);
        let closed_event = if updates.len() == 0 {
            None
        } else {
            let last = &updates[updates.len() - 1].after;
            assert(last@ == updates_of(updates@).last().1);
            let count = Self::count_detections(keys, last.session.as_str());
            Some(last.to_event("session.closed", count))
        };
        let insert = SessionModel {
            session: now.session_id(),
            active: 1,
            opened: now.timestamp_millis,
            closed: None,
        };
        let opened_event = insert.to_event("session.opened", 0);
        OpenPlan { updates, insert, closed_event, opened_event }
    }

    /// Plans the opening of a session at the time that the local clock
    /// shows. The plan is that of `open_session_at` for the reading taken.
    pub fn open_session(scanned: &Vec<SessionModel>, keys: &Vec<String>) -> (plan: OpenPlan)
        ensures
            exists|now: ClockReading|
                now.wf() && plan@ == #[trigger] open_plan(
                    records_of(scanned@),
                    texts_of(keys@),
                    now,
                ),
    {
        let now = local_now();
        Self::open_session_at(scanned, keys, &now)
    }

    /// The `session.details` events about `records`, in the order of the
    /// records.
    pub fn all_sessions(records: &Vec<SessionModel>) -> (list: Vec<ProtobufMsg>)
        ensures
            envelopes(list@) == details_events(records_of(records@)),
    {
        let mut list: Vec<ProtobufMsg> = Vec::new();
        let mut i: usize = 0;
        while i < records.len()
            invariant
                i <= records@.len(),
                list@.len() == i,
                forall|j: int|
                    0 <= j < i ==> (#[trigger] list@[j])@ == session_event(
                        records@[j]@,
                        "session.details"@,
                        0,
                    ),
            decreases records@.len() - i,
        {
            list.push(records[i].to_event("session.details", 0));
            i = i + 1;
        }
        assert(envelopes(list@) =~= details_events(records_of(records@)));
        list
    }

    /// The `detection` events about `records`, in the order of the records.
    pub fn detections(records: &Vec<DetectionModel>) -> (list: Vec<ProtobufMsg>)
        ensures
            envelopes(list@) == detection_events(records@),
    {
        let mut list: Vec<ProtobufMsg> = Vec::new();
        let mut i: usize = 0;
        while i < records.len()
            invariant
                i <= records@.len(),
                list@.len() == i,
                forall|j: int|
                    0 <= j < i ==> (#[trigger] list@[j])@ == detection_event(records@[j]@),
            decreases records@.len() - i,
        {
            list.push(records[i].to_event());
            i = i + 1;
        }
        assert(envelopes(list@) =~= detection_events(records@));
        list
    }
}

/// Record `r` after the updates `updates` have been applied to the store,
/// one after the other: the last update of `r` decides, and a record that
/// none of them names stays as it is.
pub open spec fn updated_record(
    r: SessionRecord,
    updates: Seq<(SessionRecord, SessionRecord)>,
) -> SessionRecord
    decreases updates.len(),
{
    if updates.len() == 0 {
        r
    } else if updates.last().0 == r {
        updates.last().1
    } else {
        updated_record(r, updates.drop_last())
    }
}

/// The session records of the store once the transaction of `plan` is
/// committed, `table` being the records before it: each record updated, and
/// the new record after them.
pub open spec fn table_after(table: Seq<SessionRecord>, plan: OpenPlanSpec) -> Seq<
    SessionRecord,
> {
    Seq::new(table.len(), |i: int| updated_record(table[i], plan.updates)).push(plan.insert)
}

/// The session records of a store that was empty and has seen one
/// `session.open` for each reading of `clocks`, each committed.
pub open spec fn table_after_opens(clocks: Seq<ClockReading>) -> Seq<SessionRecord>
    decreases clocks.len(),
{
    if clocks.len() == 0 {
        Seq::empty()
    } else {
        let table = table_after_opens(clocks.drop_last());
        table_after(table, open_plan(table, Seq::empty(), clocks.last()))
    }
}

/// At most one record of `table` is active.
pub open spec fn at_most_one_active(table: Seq<SessionRecord>) -> bool {
    forall|i: int, j: int|
        0 <= i < table.len() && 0 <= j < table.len() && is_active(#[trigger] table[i])
            && is_active(#[trigger] table[j]) ==> i == j
}

/// The closing updates close what was scanned: a record that was scanned and
/// is active becomes the closed record, any other record stays as it is.
pub proof fn lemma_closing_updates(scanned: Seq<SessionRecord>, at: int, r: SessionRecord)
    ensures
        updated_record(r, closing_updates(scanned, at)) == if is_active(r) && scanned.contains(
            r,
        ) {
            closed_record(r, at)
        } else {
            r
        },
    decreases scanned.len(),
{
    if scanned.len() > 0 {
        let rest = scanned.drop_last();
        let last = scanned.last();
        lemma_closing_updates(rest, at, r);
        assert(scanned.contains(r) <==> rest.contains(r) || last == r) by {
            if rest.contains(r) {
                let i = choose|i: int| 0 <= i < rest.len() && rest[i] == r;
                assert(scanned[i] == r);
            }
            if last == r {
                assert(scanned[scanned.len() - 1] == r);
            }
            if scanned.contains(r) {
                let i = choose|i: int| 0 <= i < scanned.len() && scanned[i] == r;
                if i < scanned.len() - 1 {
                    assert(rest[i] == r);
                }
            }
        }
        if is_active(last) {
            let before = closing_updates(rest, at);
            assert(before.push((last, closed_record(last, at))).drop_last() =~= before);
        }
    } else {
        assert(!scanned.contains(r));
    }
}

/// Session invariant, one step. Whatever the store held, once a
/// `session.open` is committed the new record is the one active record:
/// every record that was active is closed at the time of the opening, which
/// is not before its own opening unless the clock went back, and every
/// other record is as it was. The number of detections that is reported is
/// never negative, and is the number of detection records with the session
/// key in question as long as an event can carry that number.
pub proof fn lemma_open_session_invariant(
    table: Seq<SessionRecord>,
    keys: Seq<Seq<char>>,
    now: ClockReading,
)
    ensures
        ({
            let after = table_after(table, open_plan(table, keys, now));
            let at = now.timestamp_millis as int;
            &&& after.len() == table.len() + 1
            &&& after.last() == new_record(now)
            &&& is_active(after.last())
            &&& at_most_one_active(after)
            &&& forall|i: int|
                0 <= i < table.len() ==> !is_active(#[trigger] after[i]) && after[i]
                    == if is_active(table[i]) {
                    closed_record(table[i], at)
                } else {
                    table[i]
                }
            &&& forall|i: int|
                0 <= i < table.len() && is_active(table[i]) && table[i].opened <= at ==> (
                #[trigger] after[i]).closed == Some(at) && at >= after[i].opened
        }),
        forall|session: Seq<char>|
            0 <= #[trigger] detection_count(keys, session) && (count_sessions(keys, session)
                <= i32::MAX ==> detection_count(keys, session) == count_sessions(keys, session)),
{
    let plan = open_plan(table, keys, now);
    let after = table_after(table, plan);
    let at = now.timestamp_millis as int;
    assert forall|i: int| 0 <= i < table.len() implies !is_active(#[trigger] after[i]) && after[i]
        == if is_active(table[i]) {
        closed_record(table[i], at)
    } else {
        table[i]
    } by {
        lemma_closing_updates(table, at, table[i]);
        assert(table.contains(table[i]));
    }
}

/// Session invariant. After any sequence of `session.open` commands on a
/// store that was empty, at most one session record is active.
pub proof fn lemma_at_most_one_active(clocks: Seq<ClockReading>)
    ensures
        at_most_one_active(table_after_opens(clocks)),
{
    if clocks.len() > 0 {
        let table = table_after_opens(clocks.drop_last());
        lemma_open_session_invariant(table, Seq::empty(), clocks.last());
    }
}

} // verus!
