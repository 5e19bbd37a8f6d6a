//! The query page: named queries, each with a key expression, an
//! attachment, its options and an optional payload, the replies each
//! received, and the queries to send.

use vstd::prelude::*;
use vstd::slice::slice_to_vec;
use vstd::utf8::encode_utf8;
use std::collections::VecDeque;
use crate::outside::{check_key_expr, key_expr_verdict};
use crate::id_list::{IdList, lemma_wf_after_update};
use crate::payload_editor::{ArchivePayloadEdit, DataLoadMode, Page, PayloadEdit};
use crate::task_zenoh::{QueryData, Reply};
use crate::reply_viewer::ReplyViewer;
use crate::text::{opt_bytes_view, remove_blanks, strip_blanks};
use crate::zenoh_data::{value_abstract, zenoh_value_abstract, ZConsolidation, ZLocality, ZQueryTarget};

verus! {

/// The longest time a query may wait for replies, in milliseconds.
pub const TIMEOUT_MAX_MS: u64 = 10000;

/// What the query page asks of the session.
pub enum Event {
    Get(Box<QueryData>),
}

/// A query as a file stores it.
pub struct ArchivePageGetData {
    pub name: String,
    pub key: String,
    pub attachment: String,
    pub target: ZQueryTarget,
    pub consolidation: ZConsolidation,
    pub locality: ZLocality,
    pub timeout: u64,
    pub payload: bool,
    pub archive_payload_edit: ArchivePayloadEdit,
}

/// The queries of the page as a file stores them, in list order.
pub struct ArchivePageGet {
    pub gets: Vec<ArchivePageGetData>,
}

/// What is stored of a query: its name, key expression, attachment,
/// options, timeout, whether it carries a payload, and the payload
/// settings.
pub type GetEntry = (Seq<char>, Seq<char>, Seq<char>, ZQueryTarget, ZConsolidation, ZLocality, u64, bool,
    (u16, Seq<char>, Page, DataLoadMode, Seq<char>, Seq<char>));

impl ArchivePageGetData {
    /// What is stored.
    pub open spec fn entry(&self) -> GetEntry {
        (self.name@, self.key@, self.attachment@, self.target, self.consolidation, self.locality, self.timeout,
            self.payload, self.archive_payload_edit.view())
    }
}

/// What is stored of each query of `gets`.
pub open spec fn archive_get_entries(gets: Seq<ArchivePageGetData>) -> Seq<GetEntry> {
    Seq::new(gets.len(), |i: int| gets[i].entry())
}

impl ArchivePageGet {
    /// What is stored of each query, in list order.
    pub open spec fn entries(&self) -> Seq<GetEntry> {
        archive_get_entries(self.gets@)
    }
}

impl Default for ArchivePageGet {
    fn default() -> (a: ArchivePageGet)
        ensures
            a.gets@.len() == 0,
    {
        ArchivePageGet { gets: Vec::new() }
    }
}

/// One query: its id, name, typed key expression and attachment, options,
/// timeout in milliseconds, whether it carries the payload of its editor,
/// the replies to its last sending and the error that stopped a sending.
pub struct PageGetData {
    pub id: u64,
    pub name: String,
    pub input_key: String,
    pub input_attachment: String,
    pub selected_target: ZQueryTarget,
    pub selected_consolidation: ZConsolidation,
    pub selected_locality: ZLocality,
    pub timeout: u64,
    pub payload: bool,
    pub payload_edit: PayloadEdit,
    pub replies: Vec<Reply>,
    pub error_info: Option<String>,
}

/// One row of the table of replies: the key expression of a sample, the
/// short summary of the payload (an error reply summarised as an error),
/// its encoding number and its time stamp.
pub struct ReplyRow {
    pub key: Option<String>,
    pub value: Result<String, String>,
    pub encoding_id: Option<u16>,
    pub time: Option<u64>,
}

/// `row` shows `reply`: for a sample, its key expression, the short
/// summary of its payload, its encoding number and its time; for an error,
/// the summary of its payload as an error and nothing else.
pub open spec fn shows_reply(row: ReplyRow, reply: Reply) -> bool {
    match reply.result {
        Ok(s) => {
            &&& row.key matches Some(k) && k@ == s.key_expr@
            &&& crate::text::result_view(row.value) == value_abstract(s.encoding.id, s.payload@)
            &&& row.encoding_id == Some(s.encoding.id)
            &&& row.time == (match s.timestamp {
                Some(t) => Some(t.time),
                None => None::<u64>,
            })
        },
        Err(e) => {
            &&& row.key is None
            &&& row.value matches Err(v) && v@ == (match value_abstract(e.encoding.id, e.payload@) {
                Ok(t) => t,
                Err(t) => t,
            })
            &&& row.encoding_id is None
            &&& row.time is None
        },
    }
}

/// The row that shows `reply`.
pub fn reply_row(reply: &Reply) -> (row: ReplyRow)
    ensures
        shows_reply(row, *reply),
{
    match &reply.result {
        Ok(sample) => {
            let value = zenoh_value_abstract(&sample.encoding, sample.payload.as_slice());
            let time = match &sample.timestamp {
                Some(t) => Some(t.time),
                None => None,
            };
            ReplyRow { key: Some(sample.key_expr.clone()), value, encoding_id: Some(sample.encoding.id), time }
        },
        Err(e) => {
            let text = match zenoh_value_abstract(&e.encoding, e.payload.as_slice()) {
                Ok(s) => s,
                Err(s) => s,
            };
            ReplyRow { key: None, value: Err(text), encoding_id: None, time: None }
        },
    }
}

impl PageGetData {
    /// What a file stores of the query.
    pub open spec fn entry(&self) -> GetEntry {
        (self.name@, self.input_key@, self.input_attachment@, self.selected_target, self.selected_consolidation,
            self.selected_locality, self.timeout, self.payload, self.payload_edit.archive_view())
    }

    /// A copy of the query's settings under id 0, with no replies and no
    /// error.
    pub fn duplicate(&self) -> (d: PageGetData)
        ensures
            d.id == 0,
            d.entry() == self.entry(),
            d.replies@.len() == 0,
            d.error_info is None,
    {
        PageGetData {
            id: 0,
            name: self.name.clone(),
            input_key: self.input_key.clone(),
            input_attachment: self.input_attachment.clone(),
            selected_target: self.selected_target,
            selected_consolidation: self.selected_consolidation,
            selected_locality: self.selected_locality,
            timeout: self.timeout,
            payload: self.payload,
            payload_edit: self.payload_edit.duplicate(),
            replies: Vec::new(),
            error_info: None,
        }
    }

    /// The stored form of the query.
    pub fn to_archive(&self) -> (a: ArchivePageGetData)
        ensures
            a.entry() == self.entry(),
    {
        ArchivePageGetData {
            name: self.name.clone(),
            key: self.input_key.clone(),
            attachment: self.input_attachment.clone(),
            target: self.selected_target,
            consolidation: self.selected_consolidation,
            locality: self.selected_locality,
            timeout: self.timeout,
            payload: self.payload,
            archive_payload_edit: self.payload_edit.to_archive(),
        }
    }

    /// A query from its stored form, under id 0 until it is added to a
    /// page; this never fails.
    pub fn from_archive(value: ArchivePageGetData) -> (r: Result<PageGetData, String>)
        ensures
            r matches Ok(d) && d.id == 0 && d.entry() == value.entry() && d.replies@.len() == 0 && d.error_info is None,
    {
        let payload_edit = match PayloadEdit::from_archive(value.archive_payload_edit) {
            Ok(p) => p,
            Err(e) => {
                return Err(e);
            },
        };
        Ok(PageGetData {
            id: 0,
            name: value.name,
            input_key: value.key,
            input_attachment: value.attachment,
            selected_target: value.target,
            selected_consolidation: value.consolidation,
            selected_locality: value.locality,
            timeout: value.timeout,
            payload: value.payload,
            payload_edit,
            replies: Vec::new(),
            error_info: None,
        })
    }

    /// The timeout selector, which offers 0 to 10000 milliseconds.
    pub fn set_timeout(&mut self, ms: u64)
        ensures
            *final(self) == (PageGetData { timeout: if ms > TIMEOUT_MAX_MS { TIMEOUT_MAX_MS } else { ms }, ..*old(self) }),
    {
        self.timeout = if ms > TIMEOUT_MAX_MS { TIMEOUT_MAX_MS } else { ms };
    }

    /// The "send" button. The replies of the last sending are dropped. The
    /// key expression is the typed one without its blanks, which zenoh
    /// must accept; a refused one is kept as the error.
    /// Otherwise the query is queued, with the payload of the editor when
    /// the query carries one (`read` is what reading the editor's picked
    /// file gave) and the typed attachment unless it is empty.
    pub fn send(&mut self, events: &mut VecDeque<Event>, read: Result<Vec<u8>, String>)
        ensures
            get_sent(*old(self), *final(self), old(events)@, final(events)@, read),
    {
        self.replies.clear();
        let key = remove_blanks(self.input_key.as_str());
        match check_key_expr(key.as_str()) {
            Err(e) => {
                self.error_info = Some(e);
                return;
            },
            Ok(_) => {},
        }
        let value = if self.payload {
            self.payload_edit.get_zenoh_value(read)
        } else {
            None
        };
        let attachment = if self.input_attachment.as_str().is_empty() {
            None
        } else {
            Some(slice_to_vec(self.input_attachment.as_str().as_bytes()))
        };
        let d = QueryData {
            id: self.id,
            key_expr: key,
            parameters: String::new(),
            attachment,
            target: self.selected_target,
            consolidation: self.selected_consolidation,
            locality: self.selected_locality,
            timeout: self.timeout,
            value,
        };
        events.push_back(Event::Get(Box::new(d)));
        assert(events@.drop_last() =~= old(events)@);
    }

    /// The rows of the table of replies, in the order they came.
    pub fn reply_rows(&self) -> (rows: Vec<ReplyRow>)
        ensures
            rows@.len() == self.replies@.len(),
            forall|i: int| 0 <= i < rows@.len() ==> shows_reply(#[trigger] rows@[i], self.replies@[i]),
    {
        let mut rows: Vec<ReplyRow> = Vec::new();
        let mut i: usize = 0;
        while i < self.replies.len()
            invariant
                i <= self.replies@.len(),
                rows@.len() == i,
                forall|j: int| 0 <= j < i ==> shows_reply(#[trigger] rows@[j], self.replies@[j]),
            decreases self.replies@.len() - i,
        {
            rows.push(reply_row(&self.replies[i]));
            i += 1;
        }
        rows
    }
}

/// Query `d1` and queue `ev1` are what the "send" button makes of query
/// `d0` and queue `ev0`, `read` being what reading the payload's picked
/// file gave.
pub open spec fn get_sent(d0: PageGetData, d1: PageGetData, ev0: Seq<Event>, ev1: Seq<Event>,
    read: Result<Vec<u8>, String>) -> bool {
    &&& d1.replies@.len() == 0
    &&& d1.id == d0.id
    &&& d1.entry() == d0.entry()
    &&& match key_expr_verdict(strip_blanks(d0.input_key@)) {
        Err(e) => ev1 == ev0 && (d1.error_info matches Some(m) && m@ == e),
        Ok(_) => {
            &&& d1.error_info == d0.error_info
            &&& ev1.len() == ev0.len() + 1
            &&& ev1.drop_last() == ev0
            &&& ev1.last() matches Event::Get(q) && {
                &&& q.id == d0.id
                &&& q.key_expr@ == strip_blanks(d0.input_key@)
                &&& q.parameters@.len() == 0
                &&& opt_bytes_view(q.attachment) == (if d0.input_attachment@.len() == 0 {
                    None
                } else {
                    Some(encode_utf8(d0.input_attachment@))
                })
                &&& q.target == d0.selected_target
                &&& q.consolidation == d0.selected_consolidation
                &&& q.locality == d0.selected_locality
                &&& q.timeout == d0.timeout
                &&& q.value is Some == (d0.payload && d0.payload_edit.gives_value(read))
                &&& q.value matches Some((e, v)) ==> {
                    &&& (e.id, opt_bytes_view(e.schema)) == d0.payload_edit.encoding_view()
                    &&& v@ == d0.payload_edit.value_payload(read)
                }
            }
        },
    }
}

impl Default for PageGetData {
    fn default() -> (d: PageGetData)
        ensures
            d.id == 1,
            d.entry() == PageGetData::default_entry(),
            d.replies@.len() == 0,
            d.error_info is None,
    {
        PageGetData {
            id: 1,
            name: "demo".to_owned(),
            input_key: "demo/test".to_owned(),
            input_attachment: String::new(),
            selected_target: ZQueryTarget::BestMatching,
            selected_consolidation: ZConsolidation::Auto,
            selected_locality: ZLocality::Any,
            timeout: 10000,
            payload: false,
            payload_edit: PayloadEdit::default(),
            replies: Vec::new(),
            error_info: None,
        }
    }
}

impl PageGetData {
    /// What a file stores of the demo query.
    pub open spec fn default_entry() -> GetEntry {
        ("demo"@, "demo/test"@, Seq::empty(), ZQueryTarget::BestMatching, ZConsolidation::Auto, ZLocality::Any, 10000,
            false, PayloadEdit::default_view())
    }
}

/// The queries `m1` are `m0` once query `id` got `reply`: the reply is
/// kept after the others and the error cleared.
pub open spec fn get_answered(m0: Map<u64, PageGetData>, m1: Map<u64, PageGetData>, res: (u64, Reply)) -> bool {
    let (id, reply) = res;
    if m0.contains_key(id) {
        &&& m1 == m0.insert(id, PageGetData { error_info: None, replies: m1[id].replies, ..m0[id] })
        &&& m1[id].replies@ == m0[id].replies@.push(reply)
    } else {
        m1 == m0
    }
}

/// The query page, with the reply window.
pub struct PageGet {
    pub events: VecDeque<Event>,
    pub gets: IdList<PageGetData>,
    pub show_reply_viewer_window: bool,
    pub reply_viewer_window: ReplyViewer,
}

impl PageGet {
    /// Each query is listed once under its own id.
    pub open spec fn wf(&self) -> bool {
        &&& self.gets.wf()
        &&& forall|id: u64| #[trigger] self.gets.map().contains_key(id) ==> self.gets.map()[id].id == id
    }

    /// What a file stores of the page, in list order.
    pub open spec fn archive(&self) -> Seq<GetEntry> {
        Seq::new(self.gets.values().len(), |i: int| self.gets.values()[i].entry())
    }

    /// Adds a query under the next id, lists it last and selects it.
    pub fn add_get_data(&mut self, data: PageGetData)
        requires
            old(self).wf(),
            old(self).gets.id_count < u64::MAX,
        ensures
            final(self).wf(),
            final(self).events@ == old(self).events@,
            final(self).show_reply_viewer_window == old(self).show_reply_viewer_window,
            final(self).gets.id_count == old(self).gets.id_count + 1,
            final(self).gets.selected_id == final(self).gets.id_count,
            final(self).gets.ids() == old(self).gets.ids().push(final(self).gets.id_count),
            final(self).gets.map() == old(self).gets.map().insert(final(self).gets.id_count,
                PageGetData { id: final(self).gets.id_count, ..data }),
            final(self).archive() == old(self).archive().push(data.entry()),
    {
        let mut data = data;
        data.id = self.gets.id_count + 1;
        let id = self.gets.add(data);
        proof {
            assert forall|id2: u64| #[trigger] self.gets.map().contains_key(id2) implies self.gets.map()[id2].id == id2 by {
                if id2 != id {
                    assert(old(self).gets.map().contains_key(id2));
                }
            }
            assert(self.archive() =~= old(self).archive().push(data.entry()));
        }
    }

    /// Removes the query `get_id`, unless fewer than two are left.
    pub fn del_get_data(&mut self, get_id: u64)
        requires
            old(self).wf(),
        ensures
            final(self).wf(),
            final(self).events@ == old(self).events@,
            final(self).gets.id_count == old(self).gets.id_count,
            final(self).gets.selected_id == old(self).gets.selected_id,
            (old(self).gets.map().len() >= 2 && old(self).gets.map().contains_key(get_id)) ==> {
                &&& final(self).gets.map() == old(self).gets.map().remove(get_id)
                &&& final(self).gets.ids() == old(self).gets.ids().remove(old(self).gets.ids().index_of(get_id))
            },
            !(old(self).gets.map().len() >= 2 && old(self).gets.map().contains_key(get_id)) ==> {
                &&& final(self).gets.map() == old(self).gets.map()
                &&& final(self).gets.ids() == old(self).gets.ids()
            },
    {
        self.gets.del(get_id);
        proof {
            assert forall|id2: u64| #[trigger] self.gets.map().contains_key(id2) implies self.gets.map()[id2].id == id2 by {
                assert(old(self).gets.map().contains_key(id2));
            }
        }
    }

    /// Drops every query; the ids already handed out stay used.
    pub fn clean_all_get_data(&mut self)
        requires
            old(self).wf(),
        ensures
            final(self).wf(),
            final(self).events@ == old(self).events@,
            final(self).gets.id_count == old(self).gets.id_count,
            final(self).gets.selected_id == 0,
            final(self).gets.map() == Map::<u64, PageGetData>::empty(),
            final(self).gets.ids() == Seq::<u64>::empty(),
            final(self).archive() == Seq::<GetEntry>::empty(),
    {
        self.gets.clear();
        assert(self.archive() =~= Seq::<GetEntry>::empty());
    }

    /// The stored form of the page.
    pub fn to_archive(&self) -> (a: ArchivePageGet)
        requires
            self.wf(),
        ensures
            a.entries() == self.archive(),
    {
        let refs = self.gets.value_refs();
        let mut gets: Vec<ArchivePageGetData> = Vec::new();
        let mut i: usize = 0;
        while i < refs.len()
            invariant
                i <= refs@.len(),
                refs@.len() == self.gets.values().len(),
                forall|j: int| 0 <= j < refs@.len() ==> *refs@[j] == self.gets.values()[j],
                gets@.len() == i,
                forall|j: int| 0 <= j < i ==> (#[trigger] gets@[j]).entry() == self.gets.values()[j].entry(),
            decreases refs@.len() - i,
        {
            gets.push(refs[i].to_archive());
            i += 1;
        }
        let a = ArchivePageGet { gets };
        assert(a.entries() =~= self.archive());
        a
    }

    /// Replaces every query by those of `archive`, in its order, under new
    /// ids; this never fails.
    pub fn load(&mut self, archive: ArchivePageGet) -> (r: Result<(), String>)
        requires
            old(self).wf(),
            old(self).gets.id_count + archive.gets@.len() < u64::MAX,
        ensures
            r is Ok,
            final(self).wf(),
            final(self).events@ == old(self).events@,
            final(self).archive() == archive.entries(),
            final(self).gets.id_count == old(self).gets.id_count + archive.gets@.len(),
            final(self).gets.ids() == Seq::new(archive.gets@.len(), |j: int| (old(self).gets.id_count + 1 + j) as u64),
            final(self).gets.selected_id == (if archive.gets@.len() == 0 { 0 } else { final(self).gets.id_count }),
            forall|id: u64| #[trigger] final(self).gets.map().contains_key(id) ==>
                final(self).gets.map()[id].replies@.len() == 0 && final(self).gets.map()[id].error_info is None,
    {
        let ghost entries = archive.entries();
        let ghost gets0 = archive.gets@;
        let mut data: Vec<PageGetData> = Vec::new();
        for d in it: archive.gets.into_iter()
            invariant
                it.seq() == gets0,
                data@.len() == it.index(),
                forall|j: int| 0 <= j < data@.len() ==> (#[trigger] data@[j]).entry() == gets0[j].entry()
                    && data@[j].replies@.len() == 0 && data@[j].error_info is None,
        {
            let page_get_data = match PageGetData::from_archive(d) {
                Ok(o) => o,
                Err(e) => {
                    return Err(e);
                },
            };
            data.push(page_get_data);
        }
        let ghost base = self.gets.id_count;
        self.clean_all_get_data();
        let ghost all = data@;
        for d in it: data.into_iter()
            invariant
                it.seq() == all,
                all.len() == gets0.len(),
                entries == archive_get_entries(gets0),
                forall|j: int| 0 <= j < all.len() ==> (#[trigger] all[j]).entry() == gets0[j].entry()
                    && all[j].replies@.len() == 0 && all[j].error_info is None,
                base + gets0.len() < u64::MAX,
                self.wf(),
                self.gets.id_count == base + it.index(),
                self.gets.ids() == Seq::new(it.index() as nat, |j: int| (base + 1 + j) as u64),
                forall|id: u64| #[trigger] self.gets.map().contains_key(id) ==>
                    self.gets.map()[id].replies@.len() == 0 && self.gets.map()[id].error_info is None,
                self.archive() == entries.take(it.index() as int),
                self.gets.selected_id == (if it.index() == 0 { 0 } else { self.gets.id_count }),
                self.events@ == old(self).events@,
        {
            let ghost k = it.index();
            let ghost m0 = self.gets.map();
            proof {
                assert(all[k] == d);
            }
            self.add_get_data(d);
            proof {
                assert(self.gets.ids() =~= Seq::new((k + 1) as nat, |j: int| (base + 1 + j) as u64));
                assert forall|id: u64| #[trigger] self.gets.map().contains_key(id) implies
                    self.gets.map()[id].replies@.len() == 0 && self.gets.map()[id].error_info is None by {
                    if id != self.gets.id_count {
                        assert(m0.contains_key(id));
                    }
                }
                assert(entries[k] == d.entry());
                assert(entries.take(k + 1) =~= entries.take(k).push(entries[k]));
            }
        }
        assert(entries.take(gets0.len() as int) == entries);
        Ok(())
    }

    /// Keeps a reply to query `id`, which clears its error.
    pub fn processing_get_res(&mut self, res: Box<(u64, Reply)>)
        requires
            old(self).wf(),
        ensures
            final(self).wf(),
            final(self).events@ == old(self).events@,
            final(self).gets.ids() == old(self).gets.ids(),
            final(self).gets.id_count == old(self).gets.id_count,
            final(self).gets.selected_id == old(self).gets.selected_id,
            final(self).archive() == old(self).archive(),
            get_answered(old(self).gets.map(), final(self).gets.map(), *res),
    {
        let (id, reply) = *res;
        let ghost l0 = self.gets;
        if let Some(d) = self.gets.get_mut(id) {
            d.error_info = None;
            d.replies.push(reply);
        }
        proof {
            if l0.map().contains_key(id) {
                lemma_wf_after_update(l0, self.gets, id, self.gets.map()[id]);
                assert forall|id2: u64| #[trigger] self.gets.map().contains_key(id2) implies self.gets.map()[id2].id == id2 by {
                    assert(l0.map().contains_key(id2));
                }
                assert(self.archive() =~= old(self).archive());
            }
        }
    }

    /// The "copy add" button: a copy of the selected query, or the demo
    /// query when none is selected.
    pub fn add_copy_of_selected(&mut self)
        requires
            old(self).wf(),
            old(self).gets.id_count < u64::MAX,
        ensures
            final(self).wf(),
            final(self).events@ == old(self).events@,
            final(self).gets.id_count == old(self).gets.id_count + 1,
            final(self).gets.selected_id == final(self).gets.id_count,
            final(self).gets.ids() == old(self).gets.ids().push(final(self).gets.id_count),
            old(self).gets.map().contains_key(old(self).gets.selected_id) ==>
                final(self).archive() == old(self).archive().push(old(self).gets.map()[old(self).gets.selected_id].entry()),
            !old(self).gets.map().contains_key(old(self).gets.selected_id) ==>
                final(self).archive() == old(self).archive().push(PageGetData::default_entry()),
    {
        let data = match self.gets.selected() {
            Some(d) => d.duplicate(),
            None => PageGetData::default(),
        };
        self.add_get_data(data);
    }

    /// The "send" button of the selected query; see [`PageGetData::send`].
    pub fn send_selected(&mut self, read: Result<Vec<u8>, String>)
        requires
            old(self).wf(),
        ensures
            final(self).wf(),
            final(self).gets.ids() == old(self).gets.ids(),
            final(self).gets.id_count == old(self).gets.id_count,
            final(self).gets.selected_id == old(self).gets.selected_id,
            final(self).archive() == old(self).archive(),
            final(self).show_reply_viewer_window == old(self).show_reply_viewer_window,
            ({
                let id = old(self).gets.selected_id;
                if old(self).gets.map().contains_key(id) {
                    &&& final(self).gets.map() == old(self).gets.map().insert(id, final(self).gets.map()[id])
                    &&& get_sent(old(self).gets.map()[id], final(self).gets.map()[id], old(self).events@, final(self).events@, read)
                } else {
                    final(self).events@ == old(self).events@ && final(self).gets.map() == old(self).gets.map()
                }
            }),
    {
        let id = self.gets.selected_id;
        let ghost l0 = self.gets;
        if let Some(data) = self.gets.get_mut(id) {
            data.send(&mut self.events, read);
        }
        proof {
            if l0.map().contains_key(id) {
                lemma_wf_after_update(l0, self.gets, id, self.gets.map()[id]);
                assert forall|id2: u64| #[trigger] self.gets.map().contains_key(id2) implies self.gets.map()[id2].id == id2 by {
                    assert(l0.map().contains_key(id2));
                }
                assert(self.archive() =~= old(self).archive());
            }
        }
    }
}

impl PageGet {
    /// A click on reply `index` of the selected query opens the reply
    /// window on it.
    pub fn open_reply_viewer(&mut self, index: usize)
        ensures
            final(self).gets == old(self).gets,
            final(self).events == old(self).events,
            ({
                let opened = old(self).gets.map().contains_key(old(self).gets.selected_id)
                    && index < old(self).gets.map()[old(self).gets.selected_id].replies@.len();
                &&& final(self).show_reply_viewer_window == (old(self).show_reply_viewer_window || opened)
                &&& !opened ==> final(self).reply_viewer_window == old(self).reply_viewer_window
                &&& opened ==> final(self).reply_viewer_window.opened_on(
                    old(self).gets.map()[old(self).gets.selected_id].replies@[index as int])
            }),
    {
        let viewer = match self.gets.selected() {
            Some(d) => {
                if index < d.replies.len() {
                    Some(ReplyViewer::new_from_reply(&d.replies[index]))
                } else {
                    None
                }
            },
            None => None,
        };
        if let Some(v) = viewer {
            self.reply_viewer_window = v;
            self.show_reply_viewer_window = true;
        }
    }
}

impl Default for PageGet {
    fn default() -> (p: PageGet)
        ensures
            p.wf(),
            p.events@.len() == 0,
            !p.show_reply_viewer_window,
            p.gets.id_count == 1,
            p.gets.selected_id == 1,
            p.gets.ids() == seq![1u64],
            p.archive() == seq![PageGetData::default_entry()],
    {
        let mut p = PageGet {
            events: VecDeque::new(),
            gets: IdList::new(1),
            show_reply_viewer_window: false,
            reply_viewer_window: ReplyViewer::default(),
        };
        p.add_get_data(PageGetData::default());
        assert(p.gets.ids() =~= seq![1u64]);
        assert(p.archive() =~= seq![PageGetData::default_entry()]);
        p
    }
}

} // verus!
