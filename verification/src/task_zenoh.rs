//! The messages between the user interface and the zenoh session, and the
//! values they carry.

use vstd::prelude::*;
use crate::text::{decimal, decimal_text};
use crate::text::concat;
use crate::zenoh_data::{Encoding, ZCongestionControl, ZConsolidation, ZLocality, ZPriority, ZQueryTarget, ZReliability};

verus! {

/// Whether a sample puts a value or deletes it.
#[derive(Copy, Clone, Debug, PartialEq, Eq, Structural)]
pub enum SampleKind {
    Put,
    Delete,
}

impl SampleKind {
    /// The kind as zenoh displays it.
    pub open spec fn display(self) -> Seq<char> {
        match self {
            SampleKind::Put => "PUT"@,
            SampleKind::Delete => "DELETE"@,
        }
    }

    /// The kind in lower case.
    pub open spec fn lower(self) -> Seq<char> {
        match self {
            SampleKind::Put => "put"@,
            SampleKind::Delete => "delete"@,
        }
    }

    /// The kind as zenoh displays it.
    pub fn display_str(&self) -> (s: &'static str)
        ensures
            s@ == self.display(),
    {
        match self {
            SampleKind::Put => "PUT",
            SampleKind::Delete => "DELETE",
        }
    }

    /// The kind in lower case.
    pub fn lower_str(&self) -> (s: &'static str)
        ensures
            s@ == self.lower(),
    {
        match self {
            SampleKind::Put => "put",
            SampleKind::Delete => "delete",
        }
    }
}

/// A time stamp of the hybrid logical clock: its time and the id of the
/// clock that made it.
pub struct Timestamp {
    pub time: u64,
    pub id: Vec<u8>,
}

impl Timestamp {
    /// A copy of the time stamp.
    pub fn duplicate(&self) -> (t: Timestamp)
        ensures
            t.time == self.time,
            t.id@ == self.id@,
    {
        Timestamp { time: self.time, id: vstd::slice::slice_to_vec(self.id.as_slice()) }
    }
}

/// Where a sample came from, where known: the id of the entity that sent
/// it, as zenoh writes it, and its sequence number.
pub struct SourceInfo {
    pub source_id: Option<String>,
    pub source_sn: Option<u32>,
}

impl SourceInfo {
    /// What the source information says, as plain values.
    pub open spec fn view(&self) -> (Option<Seq<char>>, Option<u32>) {
        (crate::text::opt_str_view(self.source_id), self.source_sn)
    }

    /// The source id as shown: the id, or "-" when it is not known.
    pub open spec fn id_shown(&self) -> Seq<char> {
        match self.source_id {
            Some(id) => id@,
            None => "-"@,
        }
    }

    /// The sequence number as shown: in decimal, or "-" when it is not known.
    pub open spec fn sn_shown(&self) -> Seq<char> {
        match self.source_sn {
            Some(n) => decimal(n as nat),
            None => "-"@,
        }
    }

    /// The source id as shown.
    pub fn id_text(&self) -> (s: String)
        ensures
            s@ == self.id_shown(),
    {
        match &self.source_id {
            Some(id) => id.clone(),
            None => "-".to_owned(),
        }
    }

    /// The sequence number as shown.
    pub fn sn_text(&self) -> (s: String)
        ensures
            s@ == self.sn_shown(),
    {
        match self.source_sn {
            Some(n) => decimal_text(n as u64),
            None => "-".to_owned(),
        }
    }

    /// A copy of the source information.
    pub fn duplicate(&self) -> (c: SourceInfo)
        ensures
            c.view() == self.view(),
    {
        let source_id = match &self.source_id {
            Some(s) => Some(s.clone()),
            None => None,
        };
        SourceInfo { source_id, source_sn: self.source_sn }
    }
}

/// A value received on a key expression.
pub struct Sample {
    pub key_expr: String,
    pub payload: Vec<u8>,
    pub encoding: Encoding,
    pub kind: SampleKind,
    pub timestamp: Option<Timestamp>,
    pub congestion_control: ZCongestionControl,
    pub priority: ZPriority,
    pub reliability: ZReliability,
    pub express: bool,
    pub source_info: SourceInfo,
    pub attachment: Option<Vec<u8>>,
}

/// The error that a queryable answered.
pub struct ReplyError {
    pub payload: Vec<u8>,
    pub encoding: Encoding,
}

/// One answer to a query.
pub struct Reply {
    pub result: Result<Sample, ReplyError>,
    pub replier_id: Option<String>,
}

/// A subscription to declare.
pub struct SubData {
    pub id: u64,
    pub key_expr: String,
    pub origin: ZLocality,
}

/// A value to put.
pub struct PutData {
    pub id: u64,
    pub key: String,
    pub congestion_control: ZCongestionControl,
    pub priority: ZPriority,
    pub encoding: Encoding,
    pub payload: Vec<u8>,
}

/// A query to send.
pub struct QueryData {
    pub id: u64,
    pub key_expr: String,
    pub parameters: String,
    pub attachment: Option<Vec<u8>>,
    pub target: ZQueryTarget,
    pub consolidation: ZConsolidation,
    pub locality: ZLocality,
    /// The time to wait for replies, in milliseconds.
    pub timeout: u64,
    pub value: Option<(Encoding, Vec<u8>)>,
}

/// What the user interface asks of the zenoh session.
pub enum MsgGuiToZenoh {
    Close,
    AddSubReq(Box<SubData>),
    DelSubReq(u64),
    GetReq(Box<QueryData>),
    PutReq(Box<PutData>),
}

/// What the zenoh session tells the user interface: whether the session
/// opened (the configuration's id, or the id and the error), the answer to
/// a subscription, a closed subscription, a received sample with the time
/// it came in (nanoseconds since the Unix epoch), a reply to a query, and
/// the outcome of a put.
pub enum MsgZenohToGui {
    OpenSession(Result<u64, (u64, String)>),
    AddSubRes(Box<(u64, Result<(), String>)>),
    DelSubRes(u64),
    SubCB(Box<(u64, Sample, u64)>),
    GetRes(Box<(u64, Reply)>),
    PutRes(Box<(u64, bool, String)>),
}

/// What the session task found when it looked for a message of the user
/// interface: a message, none yet, or a closed channel.
pub enum Received {
    Msg(MsgGuiToZenoh),
    Empty,
    Disconnected,
}

/// What the session task does next.
pub enum TaskAction {
    /// Look again after a short pause.
    Wait,
    /// Declare this subscriber, then report with `subscriber_declared`.
    Declare(Box<SubData>),
    /// Tell the task of this subscriber to stop.
    SignalClose(u64),
    /// Start a task that sends this query and hands on its replies.
    Query(Box<QueryData>),
    /// Put this value, then report with `put_done`.
    Put(Box<PutData>),
    /// Send this message to the user interface.
    Send(MsgZenohToGui),
    /// Leave the loop and close every subscriber, with `stop`.
    Stop,
    /// End the task at once.
    Exit,
}

/// What the session task does once it tried to open the session with
/// the configuration `id`: report it open and go on to its loop, or report
/// the error and end at once, before reading any request.
pub fn session_opened(id: u64, outcome: Result<(), String>) -> (acts: Vec<TaskAction>)
    ensures
        match outcome {
            Ok(_) => acts@.len() == 1 && (acts@[0] matches TaskAction::Send(MsgZenohToGui::OpenSession(Ok(x))) && x == id),
            Err(e) => {
                &&& acts@.len() == 2
                &&& acts@[0] matches TaskAction::Send(MsgZenohToGui::OpenSession(Err(p))) && p.0 == id && p.1 == e
                &&& acts@[1] is Exit
            },
        },
{
    let mut acts: Vec<TaskAction> = Vec::new();
    match outcome {
        Ok(_) => {
            acts.push(TaskAction::Send(MsgZenohToGui::OpenSession(Ok(id))));
        },
        Err(e) => {
            acts.push(TaskAction::Send(MsgZenohToGui::OpenSession(Err((id, e)))));
            acts.push(TaskAction::Exit);
        },
    }
    acts
}

/// The note on a put to `key`: "put ok" with the key in quotes, or "put
/// error", the key in quotes and the error.
pub open spec fn put_note(key: Seq<char>, outcome: Result<(), Seq<char>>) -> Seq<char> {
    match outcome {
        Ok(_) => "put ok \""@ + key + "\""@,
        Err(e) => "put error \""@ + key + "\", "@ + e,
    }
}

/// The message that reports the outcome of put `id` to `key`.
pub fn put_done(id: u64, key: &str, outcome: Result<(), String>) -> (m: MsgZenohToGui)
    ensures
        m matches MsgZenohToGui::PutRes(b) && b.0 == id && b.1 == (outcome is Ok)
            && b.2@ == put_note(key@, match outcome {
                Ok(_) => Ok::<(), Seq<char>>(()),
                Err(e) => Err::<(), Seq<char>>(e@),
            }),
{
    match outcome {
        Ok(_) => {
            let s = concat("put ok \"", key);
            let s = concat(s.as_str(), "\"");
            MsgZenohToGui::PutRes(Box::new((id, true, s)))
        },
        Err(e) => {
            let s = concat("put error \"", key);
            let s = concat(s.as_str(), "\", ");
            let s = concat(s.as_str(), e.as_str());
            MsgZenohToGui::PutRes(Box::new((id, false, s)))
        },
    }
}

/// Whether `s` is in strictly increasing order.
pub open spec fn increasing(s: Seq<u64>) -> bool {
    forall|i: int, j: int| 0 <= i < j < s.len() ==> s[i] < s[j]
}

/// Actions `2 i` and `2 i + 1` of `acts` stop subscriber `id` and report
/// it stopped.
pub open spec fn closes_at(acts: Seq<TaskAction>, i: int, id: u64) -> bool {
    &&& (acts[2 * i] matches TaskAction::SignalClose(x) && x == id)
    &&& (acts[2 * i + 1] matches TaskAction::Send(MsgZenohToGui::DelSubRes(x)) && x == id)
}

/// The decisions of the session task: which subscribers it runs, by id,
/// in increasing order.
pub struct SessionLoop {
    pub subscribers: Vec<u64>,
}

impl SessionLoop {
    /// The ids of the running subscribers.
    pub open spec fn ids(&self) -> Set<u64> {
        self.subscribers@.to_set()
    }

    /// The ids are kept in increasing order.
    pub open spec fn wf(&self) -> bool {
        increasing(self.subscribers@)
    }

    /// `self` and `acts` are what the loop in state `old` does with `r`:
    /// it waits when nothing came; it stops when the channel closed or it
    /// is asked to close; it asks for a declaration; on a request to remove
    /// a subscriber, it tells a running one to stop and reports it removed
    /// either way; it starts a query; it puts a value.
    pub open spec fn answered(&self, old: SessionLoop, r: Received, acts: Seq<TaskAction>) -> bool {
        match r {
            Received::Empty => acts.len() == 1 && acts[0] is Wait && *self == old,
            Received::Disconnected => acts.len() == 1 && acts[0] is Stop && *self == old,
            Received::Msg(m) => match m {
                MsgGuiToZenoh::Close => acts.len() == 1 && acts[0] is Stop && *self == old,
                MsgGuiToZenoh::AddSubReq(req) => acts.len() == 1 && acts[0] == TaskAction::Declare(req) && *self == old,
                MsgGuiToZenoh::DelSubReq(id) => {
                    &&& self.ids() == old.ids().remove(id)
                    &&& if old.ids().contains(id) {
                        &&& acts.len() == 2
                        &&& acts[0] matches TaskAction::SignalClose(x) && x == id
                        &&& acts[1] matches TaskAction::Send(MsgZenohToGui::DelSubRes(x)) && x == id
                    } else {
                        &&& acts.len() == 1
                        &&& acts[0] matches TaskAction::Send(MsgZenohToGui::DelSubRes(x)) && x == id
                    }
                },
                MsgGuiToZenoh::GetReq(q) => acts.len() == 1 && acts[0] == TaskAction::Query(q) && *self == old,
                MsgGuiToZenoh::PutReq(p) => acts.len() == 1 && acts[0] == TaskAction::Put(p) && *self == old,
            },
        }
    }

    /// `self` and `acts` are what the loop in state `old` does once the
    /// declaration of subscriber `id` came out as `outcome`: on success the
    /// subscriber runs and the success is reported; on failure the error is
    /// reported and the task ends.
    pub open spec fn declared(&self, old: SessionLoop, id: u64, outcome: Result<(), String>, acts: Seq<TaskAction>) -> bool {
        match outcome {
            Ok(_) => {
                &&& self.ids() == old.ids().insert(id)
                &&& acts.len() == 1
                &&& acts[0] matches TaskAction::Send(MsgZenohToGui::AddSubRes(b)) && b.0 == id && b.1 is Ok
            },
            Err(e) => {
                &&& *self == old
                &&& acts.len() == 2
                &&& acts[0] matches TaskAction::Send(MsgZenohToGui::AddSubRes(b)) && b.0 == id && b.1 == Err::<(), String>(e)
                &&& acts[1] is Exit
            },
        }
    }

    /// `self` and `acts` are what the loop in state `old` does when it
    /// leaves: every subscriber, in the order kept, is told to stop and
    /// reported stopped, and none is left.
    pub open spec fn stopped(&self, old: SessionLoop, acts: Seq<TaskAction>) -> bool {
        &&& self.subscribers@.len() == 0
        &&& acts.len() == 2 * old.subscribers@.len()
        &&& forall|i: int| 0 <= i < old.subscribers@.len() ==> closes_at(acts, i, #[trigger] old.subscribers@[i])
    }

    /// A loop with no subscriber.
    pub fn new() -> (l: SessionLoop)
        ensures
            l.wf(),
            l.subscribers@.len() == 0,
    {
        SessionLoop { subscribers: Vec::new() }
    }

    /// Where `id` stands among the subscribers, or where it would go.
    fn search(&self, id: u64) -> (r: (usize, bool))
        requires
            self.wf(),
        ensures
            r.0 <= self.subscribers@.len(),
            forall|i: int| 0 <= i < r.0 ==> self.subscribers@[i] < id,
            r.1 ==> r.0 < self.subscribers@.len() && self.subscribers@[r.0 as int] == id,
            !r.1 ==> forall|i: int| r.0 <= i < self.subscribers@.len() ==> self.subscribers@[i] > id,
    {
        let mut i: usize = 0;
        while i < self.subscribers.len() && self.subscribers[i] < id
            invariant
                self.wf(),
                i <= self.subscribers@.len(),
                forall|j: int| 0 <= j < i ==> self.subscribers@[j] < id,
            decreases self.subscribers@.len() - i,
        {
            i += 1;
        }
        if i < self.subscribers.len() && self.subscribers[i] == id {
            (i, true)
        } else {
            (i, false)
        }
    }

    /// What the loop does with what it found: wait when nothing came,
    /// stop when the channel closed or it is asked to close, declare a
    /// subscriber, stop a subscriber and report it stopped, start a query,
    /// or put a value.
    pub fn on_received(&mut self, r: Received) -> (acts: Vec<TaskAction>)
        requires
            old(self).wf(),
        ensures
            final(self).wf(),
            final(self).answered(*old(self), r, acts@),
    {
        let mut acts: Vec<TaskAction> = Vec::new();
        match r {
            Received::Empty => {
                acts.push(TaskAction::Wait);
            },
            Received::Disconnected => {
                acts.push(TaskAction::Stop);
            },
            Received::Msg(m) => match m {
                MsgGuiToZenoh::Close => {
                    acts.push(TaskAction::Stop);
                },
                MsgGuiToZenoh::AddSubReq(req) => {
                    acts.push(TaskAction::Declare(req));
                },
                MsgGuiToZenoh::DelSubReq(id) => {
                    let (i, found) = self.search(id);
                    if found {
                        acts.push(TaskAction::SignalClose(id));
                        let ghost s0 = self.subscribers@;
                        self.subscribers.remove(i);
                        proof {
                            assert(self.subscribers@ == s0.remove(i as int));
                            assert forall|a: int, b: int| 0 <= a < b < self.subscribers@.len() implies
                                self.subscribers@[a] < self.subscribers@[b] by {
                                let a0 = if a < i { a } else { a + 1 };
                                let b0 = if b < i { b } else { b + 1 };
                                assert(self.subscribers@[a] == s0[a0] && self.subscribers@[b] == s0[b0]);
                            }
                            assert forall|x: u64| self.ids().contains(x) == s0.to_set().remove(id).contains(x) by {
                                if self.ids().contains(x) {
                                    let p = self.subscribers@.index_of(x);
                                    let p0 = if p < i { p } else { p + 1 };
                                    assert(s0[p0] == x);
                                    assert(s0.contains(x));
                                    assert(x != id) by {
                                        if x == id {
                                            assert(s0[i as int] == id);
                                            assert(p0 != i);
                                        }
                                    }
                                }
                                if s0.to_set().remove(id).contains(x) {
                                    let p0 = s0.index_of(x);
                                    assert(p0 != i);
                                    let p = if p0 < i { p0 } else { p0 - 1 };
                                    assert(self.subscribers@[p] == x);
                                }
                            }
                            assert(self.ids() =~= s0.to_set().remove(id));
                        }
                    } else {
                        proof {
                            assert(!self.ids().contains(id)) by {
                                if self.subscribers@.contains(id) {
                                    let p = self.subscribers@.index_of(id);
                                    if p < i {
                                    } else {
                                    }
                                }
                            }
                            assert(self.ids() =~= self.ids().remove(id));
                        }
                    }
                    acts.push(TaskAction::Send(MsgZenohToGui::DelSubRes(id)));
                },
                MsgGuiToZenoh::GetReq(q) => {
                    acts.push(TaskAction::Query(q));
                },
                MsgGuiToZenoh::PutReq(p) => {
                    acts.push(TaskAction::Put(p));
                },
            },
        }
        acts
    }

    /// The outcome of declaring subscriber `id`: on success it runs (in
    /// place of any earlier one with that id) and the user interface is
    /// told; on failure the user interface is told and the task ends at
    /// once.
    pub fn subscriber_declared(&mut self, id: u64, outcome: Result<(), String>) -> (acts: Vec<TaskAction>)
        requires
            old(self).wf(),
        ensures
            final(self).wf(),
            acts@.len() == 1 || acts@.len() == 2,
            final(self).declared(*old(self), id, outcome, acts@),
    {
        let mut acts: Vec<TaskAction> = Vec::new();
        match outcome {
            Err(e) => {
                acts.push(TaskAction::Send(MsgZenohToGui::AddSubRes(Box::new((id, Err(e))))));
                acts.push(TaskAction::Exit);
            },
            Ok(_) => {
                let (i, found) = self.search(id);
                if !found {
                    let ghost s0 = self.subscribers@;
                    self.subscribers.insert(i, id);
                    proof {
                        assert(self.subscribers@ == s0.insert(i as int, id));
                        assert forall|a: int, b: int| 0 <= a < b < self.subscribers@.len() implies
                            self.subscribers@[a] < self.subscribers@[b] by {
                            if a < i && b < i {
                            } else if a < i && b == i {
                            } else if a < i {
                                assert(self.subscribers@[b] == s0[b - 1]);
                            } else if a == i {
                                assert(self.subscribers@[b] == s0[b - 1]);
                            } else {
                                assert(self.subscribers@[a] == s0[a - 1]);
                                assert(self.subscribers@[b] == s0[b - 1]);
                            }
                        }
                        assert forall|x: u64| self.ids().contains(x) == s0.to_set().insert(id).contains(x) by {
                            if self.ids().contains(x) {
                                let p = self.subscribers@.index_of(x);
                                if p < i {
                                    assert(s0[p] == x);
                                } else if p > i {
                                    assert(s0[p - 1] == x);
                                }
                            }
                            if s0.to_set().insert(id).contains(x) {
                                if x == id {
                                    assert(self.subscribers@[i as int] == id);
                                } else {
                                    let p0 = s0.index_of(x);
                                    if p0 < i {
                                        assert(self.subscribers@[p0] == x);
                                    } else {
                                        assert(self.subscribers@[p0 + 1] == x);
                                    }
                                }
                            }
                        }
                        assert(self.ids() =~= s0.to_set().insert(id));
                    }
                } else {
                    proof {
                        assert(self.subscribers@[i as int] == id);
                        assert(self.ids() =~= self.ids().insert(id));
                    }
                }
                acts.push(TaskAction::Send(MsgZenohToGui::AddSubRes(Box::new((id, Ok(()))))));
            },
        }
        acts
    }

    /// Leaving the loop: every subscriber, in increasing order of id, is
    /// told to stop and reported stopped.
    pub fn stop(&mut self) -> (acts: Vec<TaskAction>)
        requires
            old(self).wf(),
        ensures
            final(self).wf(),
            final(self).stopped(*old(self), acts@),
    {
        let mut acts: Vec<TaskAction> = Vec::new();
        let mut i: usize = 0;
        while i < self.subscribers.len()
            invariant
                i <= self.subscribers@.len(),
                self.subscribers@ == old(self).subscribers@,
                acts@.len() == 2 * i,
                forall|j: int| 0 <= j < i ==> closes_at(acts@, j, #[trigger] self.subscribers@[j]),
            decreases self.subscribers@.len() - i,
        {
            let id = self.subscribers[i];
            acts.push(TaskAction::SignalClose(id));
            acts.push(TaskAction::Send(MsgZenohToGui::DelSubRes(id)));
            i += 1;
        }
        self.subscribers.clear();
        acts
    }
}

/// The subscribers running after request `m`, where a declaration that it
/// asks for succeeds.
pub open spec fn ids_after(ids: Set<u64>, m: MsgGuiToZenoh) -> Set<u64> {
    match m {
        MsgGuiToZenoh::AddSubReq(req) => ids.insert(req.id),
        MsgGuiToZenoh::DelSubReq(id) => ids.remove(id),
        _ => ids,
    }
}

/// The subscribers running after the requests `msgs`, in order, starting
/// from `ids`, where every declaration succeeds.
pub open spec fn ids_after_all(ids: Set<u64>, msgs: Seq<MsgGuiToZenoh>) -> Set<u64>
    decreases msgs.len(),
{
    if msgs.len() == 0 {
        ids
    } else {
        ids_after(ids_after_all(ids, msgs.drop_last()), msgs.last())
    }
}

/// Request `i` of a run took the loop from `states[i]` through `mids[i]` to
/// `states[i + 1]`: it was answered, and a declaration it asked for
/// succeeded.
pub open spec fn run_step(
    states: Seq<SessionLoop>,
    mids: Seq<SessionLoop>,
    msgs: Seq<MsgGuiToZenoh>,
    acts: Seq<Seq<TaskAction>>,
    declare_acts: Seq<Seq<TaskAction>>,
    i: int,
) -> bool {
    &&& mids[i].answered(states[i], Received::Msg(msgs[i]), acts[i])
    &&& match msgs[i] {
        MsgGuiToZenoh::AddSubReq(req) => states[i + 1].declared(mids[i], req.id, Ok(()), declare_acts[i]),
        _ => states[i + 1] == mids[i],
    }
}

proof fn lemma_run_prefix(
    states: Seq<SessionLoop>,
    mids: Seq<SessionLoop>,
    msgs: Seq<MsgGuiToZenoh>,
    acts: Seq<Seq<TaskAction>>,
    declare_acts: Seq<Seq<TaskAction>>,
    k: int,
)
    requires
        0 <= k <= msgs.len(),
        states.len() == msgs.len() + 1,
        mids.len() == msgs.len(),
        acts.len() == msgs.len(),
        declare_acts.len() == msgs.len(),
        forall|i: int| 0 <= i < msgs.len() ==> #[trigger] run_step(states, mids, msgs, acts, declare_acts, i),
    ensures
        states[k].ids() == ids_after_all(states[0].ids(), msgs.take(k)),
    decreases k,
{
    if k > 0 {
        lemma_run_prefix(states, mids, msgs, acts, declare_acts, k - 1);
        assert(msgs.take(k).drop_last() == msgs.take(k - 1));
        assert(run_step(states, mids, msgs, acts, declare_acts, k - 1));
        assert(states[k].ids() =~= ids_after(states[k - 1].ids(), msgs[k - 1]));
    } else {
        assert(msgs.take(0).len() == 0);
    }
}

/// Over a run of requests, each answered by the loop and each declaration
/// successful, the subscribers running at the end are those declared and
/// not removed since: every request to remove one was answered by stopping
/// it, and every declaration started one. Leaving the loop then reports
/// each of them stopped (see `SessionLoop::stop`).
pub proof fn lemma_run_subscribers(
    states: Seq<SessionLoop>,
    mids: Seq<SessionLoop>,
    msgs: Seq<MsgGuiToZenoh>,
    acts: Seq<Seq<TaskAction>>,
    declare_acts: Seq<Seq<TaskAction>>,
)
    requires
        states.len() == msgs.len() + 1,
        mids.len() == msgs.len(),
        acts.len() == msgs.len(),
        declare_acts.len() == msgs.len(),
        forall|i: int| 0 <= i < msgs.len() ==> #[trigger] run_step(states, mids, msgs, acts, declare_acts, i),
    ensures
        states.last().ids() == ids_after_all(states[0].ids(), msgs),
{
    lemma_run_prefix(states, mids, msgs, acts, declare_acts, msgs.len() as int);
    assert(msgs.take(msgs.len() as int) == msgs);
}

/// Action `j` of `acts` reports subscriber `id` stopped.
pub open spec fn reports_stopped(acts: Seq<TaskAction>, j: int, id: u64) -> bool {
    &&& 0 <= j < acts.len()
    &&& acts[j] matches TaskAction::Send(MsgZenohToGui::DelSubRes(x)) && x == id
}

/// The one answer to request `m`, given that a declaration it asks for
/// succeeds: `acts` is what the loop does with it, `declare_acts` what it
/// does once the declaration came back. A put is handed on to be made (and
/// its outcome is then reported with `put_done`), a query started, a
/// declaration asked for and then reported successful, a removal answered
/// with one report of the subscriber stopped, and a request to close stops
/// the loop.
pub open spec fn answers_request(m: MsgGuiToZenoh, acts: Seq<TaskAction>, declare_acts: Seq<TaskAction>) -> bool {
    match m {
        MsgGuiToZenoh::PutReq(p) => acts == seq![TaskAction::Put(p)],
        MsgGuiToZenoh::GetReq(q) => acts == seq![TaskAction::Query(q)],
        MsgGuiToZenoh::AddSubReq(req) => {
            &&& acts == seq![TaskAction::Declare(req)]
            &&& declare_acts.len() == 1
            &&& declare_acts[0] matches TaskAction::Send(MsgZenohToGui::AddSubRes(b)) && b.0 == req.id && b.1 is Ok
        },
        MsgGuiToZenoh::DelSubReq(id) => {
            &&& 1 <= acts.len() <= 2
            &&& acts.last() matches TaskAction::Send(MsgZenohToGui::DelSubRes(x)) && x == id
            &&& forall|j: int| 0 <= j < acts.len() - 1 ==> !(#[trigger] acts[j] is Send)
        },
        MsgGuiToZenoh::Close => acts == seq![TaskAction::Stop],
    }
}

/// A whole run of the session task once the session opened: requests come
/// in, each declaration succeeds, and then the loop leaves, whether asked to
/// close or because the channel closed. Each request gets exactly its one
/// answer, and on leaving, every subscriber still running (those declared
/// and not removed since) is reported stopped exactly once, and no other.
pub proof fn lemma_run_answers(
    states: Seq<SessionLoop>,
    mids: Seq<SessionLoop>,
    msgs: Seq<MsgGuiToZenoh>,
    acts: Seq<Seq<TaskAction>>,
    declare_acts: Seq<Seq<TaskAction>>,
    closed: SessionLoop,
    stop_acts: Seq<TaskAction>,
)
    requires
        states.len() == msgs.len() + 1,
        mids.len() == msgs.len(),
        acts.len() == msgs.len(),
        declare_acts.len() == msgs.len(),
        forall|i: int| 0 <= i < states.len() ==> (#[trigger] states[i]).wf(),
        forall|i: int| 0 <= i < msgs.len() ==> #[trigger] run_step(states, mids, msgs, acts, declare_acts, i),
        closed.stopped(states.last(), stop_acts),
    ensures
        forall|i: int| 0 <= i < msgs.len() ==> #[trigger] answers_request(msgs[i], acts[i], declare_acts[i]),
        forall|id: u64| ids_after_all(states[0].ids(), msgs).contains(id) <==> exists|j: int| #[trigger] reports_stopped(stop_acts, j, id),
        forall|id: u64, j: int, k: int| #[trigger] reports_stopped(stop_acts, j, id) && #[trigger] reports_stopped(stop_acts, k, id) ==> j == k,
        closed.subscribers@.len() == 0,
{
    assert forall|i: int| 0 <= i < msgs.len() implies #[trigger] answers_request(msgs[i], acts[i], declare_acts[i]) by {
        assert(run_step(states, mids, msgs, acts, declare_acts, i));
        match msgs[i] {
            MsgGuiToZenoh::PutReq(p) => { assert(acts[i] =~= seq![TaskAction::Put(p)]); },
            MsgGuiToZenoh::GetReq(q) => { assert(acts[i] =~= seq![TaskAction::Query(q)]); },
            MsgGuiToZenoh::AddSubReq(req) => { assert(acts[i] =~= seq![TaskAction::Declare(req)]); },
            MsgGuiToZenoh::DelSubReq(id) => {},
            MsgGuiToZenoh::Close => { assert(acts[i] =~= seq![TaskAction::Stop]); },
        }
    }
    lemma_run_subscribers(states, mids, msgs, acts, declare_acts);
    let last = states.last();
    assert(last.wf());
    let subs = last.subscribers@;
    assert forall|id: u64| ids_after_all(states[0].ids(), msgs).contains(id) implies exists|j: int| #[trigger] reports_stopped(stop_acts, j, id) by {
        assert(last.ids().contains(id));
        let i = subs.index_of(id);
        assert(closes_at(stop_acts, i, subs[i]));
        assert(reports_stopped(stop_acts, 2 * i + 1, id));
    }
    assert forall|id: u64, j: int| #[trigger] reports_stopped(stop_acts, j, id) implies
        exists|i: int| 0 <= i < subs.len() && j == 2 * i + 1 && subs[i] == id by {
        let i = j / 2;
        assert(0 <= i < subs.len());
        assert(closes_at(stop_acts, i, subs[i]));
        assert(j == 2 * i || j == 2 * i + 1);
    }
    assert forall|id: u64| (exists|j: int| #[trigger] reports_stopped(stop_acts, j, id)) implies ids_after_all(states[0].ids(), msgs).contains(id) by {
        let j = choose|j: int| #[trigger] reports_stopped(stop_acts, j, id);
        let i = choose|i: int| 0 <= i < subs.len() && j == 2 * i + 1 && subs[i] == id;
        assert(subs.contains(id));
        assert(last.ids().contains(id));
    }
    assert forall|id: u64, j: int, k: int| #[trigger] reports_stopped(stop_acts, j, id) && #[trigger] reports_stopped(stop_acts, k, id) implies j == k by {
        let a = choose|i: int| 0 <= i < subs.len() && j == 2 * i + 1 && subs[i] == id;
        let b = choose|i: int| 0 <= i < subs.len() && k == 2 * i + 1 && subs[i] == id;
        if a < b {
            assert(subs[a] < subs[b]);
        } else if b < a {
            assert(subs[b] < subs[a]);
        }
    }
}

/// The message that hands on a sample that subscriber `id` received at
/// `receipt_time`.
pub fn sample_received(id: u64, sample: Sample, receipt_time: u64) -> (m: MsgZenohToGui)
    ensures
        m matches MsgZenohToGui::SubCB(b) && b.0 == id && b.1 == sample && b.2 == receipt_time,
{
    MsgZenohToGui::SubCB(Box::new((id, sample, receipt_time)))
}

/// The message that hands on a reply to query `id`.
pub fn reply_received(id: u64, reply: Reply) -> (m: MsgZenohToGui)
    ensures
        m matches MsgZenohToGui::GetRes(b) && b.0 == id && b.1 == reply,
{
    MsgZenohToGui::GetRes(Box::new((id, reply)))
}

} // verus!
