//! The put page: named puts, each with a key expression, its options and
//! a payload, listed in an order of their own, and the puts to send.

use vstd::prelude::*;
use std::collections::VecDeque;
use crate::outside::{check_key_expr, key_expr_verdict};
use crate::id_list::IdList;
use crate::payload_editor::{ArchivePayloadEdit, DataLoadMode, Page, PayloadEdit};
use crate::task_zenoh::PutData;
use crate::text::{opt_bytes_view, remove_blanks, strip_blanks};
use crate::zenoh_data::{ZCongestionControl, ZPriority};

verus! {

/// What the put page asks of the session.
pub enum Event {
    Put(Box<PutData>),
}

/// A put as a file stores it.
pub struct ArchivePagePutData {
    pub name: String,
    pub key: String,
    pub congestion_control: ZCongestionControl,
    pub priority: ZPriority,
    pub archive_payload_edit: ArchivePayloadEdit,
}

/// The puts of the page as a file stores them, in list order.
pub struct ArchivePagePut {
    pub puts: Vec<ArchivePagePutData>,
}

/// What is stored of a put: its name, key, options and payload settings.
pub type PutEntry = (Seq<char>, Seq<char>, ZCongestionControl, ZPriority, (u16, Seq<char>, Page, DataLoadMode, Seq<char>, Seq<char>));

impl ArchivePagePutData {
    /// What is stored.
    pub open spec fn entry(&self) -> PutEntry {
        (self.name@, self.key@, self.congestion_control, self.priority, self.archive_payload_edit.view())
    }
}

/// What is stored of each put of `puts`.
pub open spec fn archive_put_entries(puts: Seq<ArchivePagePutData>) -> Seq<PutEntry> {
    Seq::new(puts.len(), |i: int| puts[i].entry())
}

impl ArchivePagePut {
    /// What is stored of each put, in list order.
    pub open spec fn entries(&self) -> Seq<PutEntry> {
        archive_put_entries(self.puts@)
    }
}

impl Default for ArchivePagePut {
    fn default() -> (a: ArchivePagePut)
        ensures
            a.puts@.len() == 0,
    {
        ArchivePagePut { puts: Vec::new() }
    }
}

/// One put: its id, name, typed key expression, options, payload editor
/// and the note on its last sending.
pub struct PagePutData {
    pub id: u64,
    pub name: String,
    pub input_key: String,
    pub selected_congestion_control: ZCongestionControl,
    pub selected_priority: ZPriority,
    pub payload_edit: PayloadEdit,
    pub info: Option<Result<String, String>>,
}

impl PagePutData {
    /// What a file stores of the put.
    pub open spec fn entry(&self) -> PutEntry {
        (self.name@, self.input_key@, self.selected_congestion_control, self.selected_priority, self.payload_edit.archive_view())
    }

    /// A copy of the put under the same id, with no note.
    pub fn duplicate(&self) -> (d: PagePutData)
        ensures
            d.id == self.id,
            d.entry() == self.entry(),
            d.info is None,
    {
        PagePutData {
            id: self.id,
            name: self.name.clone(),
            input_key: self.input_key.clone(),
            selected_congestion_control: self.selected_congestion_control,
            selected_priority: self.selected_priority,
            payload_edit: self.payload_edit.duplicate(),
            info: None,
        }
    }

    /// The stored form of the put.
    pub fn to_archive(&self) -> (a: ArchivePagePutData)
        ensures
            a.entry() == self.entry(),
    {
        ArchivePagePutData {
            name: self.name.clone(),
            key: self.input_key.clone(),
            congestion_control: self.selected_congestion_control,
            priority: self.selected_priority,
            archive_payload_edit: self.payload_edit.to_archive(),
        }
    }

    /// A put from its stored form, under id 0 until it is added to a
    /// page; this never fails.
    pub fn from_archive(value: ArchivePagePutData) -> (r: Result<PagePutData, String>)
        ensures
            r matches Ok(d) && d.id == 0 && d.entry() == value.entry() && d.info is None,
    {
        let payload_edit = match PayloadEdit::from_archive(value.archive_payload_edit) {
            Ok(p) => p,
            Err(e) => {
                return Err(e);
            },
        };
        Ok(PagePutData {
            id: 0,
            name: value.name,
            input_key: value.key,
            selected_congestion_control: value.congestion_control,
            selected_priority: value.priority,
            payload_edit,
            info: None,
        })
    }

    /// The "send" button. The key expression is the typed one without its
    /// blanks, which zenoh must accept; `read` is what reading the payload
    /// editor's picked file gave. A refused key expression is noted; with
    /// no payload nothing is sent; otherwise the put is queued and the
    /// note cleared.
    pub fn send(&mut self, events: &mut VecDeque<Event>, read: Result<Vec<u8>, String>)
        ensures
            put_sent(*old(self), *final(self), old(events)@, final(events)@, read),
    {
        let key = remove_blanks(self.input_key.as_str());
        match check_key_expr(key.as_str()) {
            Err(e) => {
                self.info = Some(Err(e));
                return;
            },
            Ok(_) => {},
        }
        let (encoding, payload) = match self.payload_edit.get_zenoh_value(read) {
            None => {
                return;
            },
            Some(o) => o,
        };
        let put_data = PutData {
            id: self.id,
            key,
            congestion_control: self.selected_congestion_control,
            priority: self.selected_priority,
            encoding,
            payload,
        };
        events.push_back(Event::Put(Box::new(put_data)));
        assert(events@.drop_last() =~= old(events)@);
        self.info = None;
    }
}

/// Put `d1` and queue `ev1` are what the "send" button makes of put `d0`
/// and queue `ev0`, `read` being what reading the payload's picked file
/// gave.
pub open spec fn put_sent(d0: PagePutData, d1: PagePutData, ev0: Seq<Event>, ev1: Seq<Event>,
    read: Result<Vec<u8>, String>) -> bool {
    &&& d1.id == d0.id
    &&& d1.name == d0.name
    &&& d1.input_key == d0.input_key
    &&& d1.selected_congestion_control == d0.selected_congestion_control
    &&& d1.selected_priority == d0.selected_priority
    &&& d1.payload_edit.archive_view() == d0.payload_edit.archive_view()
    &&& match key_expr_verdict(strip_blanks(d0.input_key@)) {
        Err(e) => ev1 == ev0 && (d1.info matches Some(Err(m)) && m@ == e) && d1.payload_edit == d0.payload_edit,
        Ok(_) => if d0.payload_edit.gives_value(read) {
            &&& ev1.len() == ev0.len() + 1
            &&& ev1.drop_last() == ev0
            &&& d1.info is None
            &&& ev1.last() matches Event::Put(p) && {
                &&& p.id == d0.id
                &&& p.key@ == strip_blanks(d0.input_key@)
                &&& p.congestion_control == d0.selected_congestion_control
                &&& p.priority == d0.selected_priority
                &&& (p.encoding.id, opt_bytes_view(p.encoding.schema)) == d0.payload_edit.encoding_view()
                &&& p.payload@ == d0.payload_edit.value_payload(read)
            }
        } else {
            ev1 == ev0 && d1.info == d0.info
        },
    }
}

impl Default for PagePutData {
    fn default() -> (d: PagePutData)
        ensures
            d.id == 1,
            d.name@ == "demo"@,
            d.input_key@ == "demo/example"@,
            d.selected_congestion_control == ZCongestionControl::Block,
            d.selected_priority == ZPriority::RealTime,
            d.info is None,
            d.payload_edit.archive_view() == PayloadEdit::default_view(),
    {
        PagePutData {
            id: 1,
            name: "demo".to_owned(),
            input_key: "demo/example".to_owned(),
            selected_congestion_control: ZCongestionControl::Block,
            selected_priority: ZPriority::RealTime,
            payload_edit: PayloadEdit::default(),
            info: None,
        }
    }
}

/// The puts once the session reported the outcome `(id, ok, s)` of put
/// `id`: its note is the message `s`, as an error when `ok` is false.
pub open spec fn put_answered(m: Map<u64, PagePutData>, r: (u64, bool, String)) -> Map<u64, PagePutData> {
    let (id, ok, s) = r;
    if m.contains_key(id) {
        m.insert(id, PagePutData { info: Some(if ok { Ok::<String, String>(s) } else { Err::<String, String>(s) }), ..m[id] })
    } else {
        m
    }
}

/// The put page.
pub struct PagePut {
    pub events: VecDeque<Event>,
    pub puts: IdList<PagePutData>,
}

impl PagePut {
    /// Each put is listed once under its own id.
    pub open spec fn wf(&self) -> bool {
        &&& self.puts.wf()
        &&& forall|id: u64| #[trigger] self.puts.map().contains_key(id) ==> self.puts.map()[id].id == id
    }

    /// What a file stores of the page, in list order.
    pub open spec fn archive(&self) -> Seq<PutEntry> {
        Seq::new(self.puts.values().len(), |i: int| self.puts.values()[i].entry())
    }

    /// Adds a put under the next id, lists it last and selects it.
    pub fn add_put_data(&mut self, data: PagePutData)
        requires
            old(self).wf(),
            old(self).puts.id_count < u64::MAX,
        ensures
            final(self).wf(),
            final(self).events@ == old(self).events@,
            final(self).puts.id_count == old(self).puts.id_count + 1,
            final(self).puts.selected_id == final(self).puts.id_count,
            final(self).puts.ids() == old(self).puts.ids().push(final(self).puts.id_count),
            final(self).puts.map() == old(self).puts.map().insert(final(self).puts.id_count,
                PagePutData { id: final(self).puts.id_count, ..data }),
            final(self).archive() == old(self).archive().push(data.entry()),
    {
        let mut data = data;
        data.id = self.puts.id_count + 1;
        let ghost d = data;
        let id = self.puts.add(data);
        proof {
            assert forall|id2: u64| #[trigger] self.puts.map().contains_key(id2) implies self.puts.map()[id2].id == id2 by {
                if id2 != id {
                    assert(old(self).puts.map().contains_key(id2));
                }
            }
            assert(self.archive() =~= old(self).archive().push(data.entry()));
        }
    }

    /// Removes the put `put_id`, unless fewer than two are left.
    pub fn del_put_data(&mut self, put_id: u64)
        requires
            old(self).wf(),
        ensures
            final(self).wf(),
            final(self).events@ == old(self).events@,
            final(self).puts.id_count == old(self).puts.id_count,
            final(self).puts.selected_id == old(self).puts.selected_id,
            (old(self).puts.map().len() >= 2 && old(self).puts.map().contains_key(put_id)) ==> {
                &&& final(self).puts.map() == old(self).puts.map().remove(put_id)
                &&& final(self).puts.ids() == old(self).puts.ids().remove(old(self).puts.ids().index_of(put_id))
            },
            !(old(self).puts.map().len() >= 2 && old(self).puts.map().contains_key(put_id)) ==> {
                &&& final(self).puts.map() == old(self).puts.map()
                &&& final(self).puts.ids() == old(self).puts.ids()
            },
    {
        self.puts.del(put_id);
        proof {
            assert forall|id2: u64| #[trigger] self.puts.map().contains_key(id2) implies self.puts.map()[id2].id == id2 by {
                assert(old(self).puts.map().contains_key(id2));
            }
        }
    }

    /// Drops every put; the ids already handed out stay used.
    pub fn clean_all_put_data(&mut self)
        requires
            old(self).wf(),
        ensures
            final(self).wf(),
            final(self).events@ == old(self).events@,
            final(self).puts.id_count == old(self).puts.id_count,
            final(self).puts.selected_id == 0,
            final(self).puts.map() == Map::<u64, PagePutData>::empty(),
            final(self).puts.ids() == Seq::<u64>::empty(),
            final(self).archive() == Seq::<PutEntry>::empty(),
    {
        self.puts.clear();
        assert(self.archive() =~= Seq::<PutEntry>::empty());
    }

    /// The stored form of the page.
    pub fn to_archive(&self) -> (a: ArchivePagePut)
        requires
            self.wf(),
        ensures
            a.entries() == self.archive(),
    {
        let refs = self.puts.value_refs();
        let mut puts: Vec<ArchivePagePutData> = Vec::new();
        let mut i: usize = 0;
        while i < refs.len()
            invariant
                i <= refs@.len(),
                refs@.len() == self.puts.values().len(),
                forall|j: int| 0 <= j < refs@.len() ==> *refs@[j] == self.puts.values()[j],
                puts@.len() == i,
                forall|j: int| 0 <= j < i ==> (#[trigger] puts@[j]).entry() == self.puts.values()[j].entry(),
            decreases refs@.len() - i,
        {
            puts.push(refs[i].to_archive());
            i += 1;
        }
        let a = ArchivePagePut { puts };
        assert(a.entries() =~= self.archive());
        a
    }

    /// Replaces every put by those of `archive`, in its order, under new
    /// ids; this never fails.
    pub fn load(&mut self, archive: ArchivePagePut) -> (r: Result<(), String>)
        requires
            old(self).wf(),
            old(self).puts.id_count + archive.puts@.len() < u64::MAX,
        ensures
            r is Ok,
            final(self).wf(),
            final(self).events@ == old(self).events@,
            final(self).archive() == archive.entries(),
            final(self).puts.id_count == old(self).puts.id_count + archive.puts@.len(),
            final(self).puts.ids() == Seq::new(archive.puts@.len(), |j: int| (old(self).puts.id_count + 1 + j) as u64),
            final(self).puts.selected_id == (if archive.puts@.len() == 0 { 0 } else { final(self).puts.id_count }),
            forall|id: u64| #[trigger] final(self).puts.map().contains_key(id) ==> final(self).puts.map()[id].info is None,
    {
        let ghost entries = archive.entries();
        let ghost puts0 = archive.puts@;
        let mut data: Vec<PagePutData> = Vec::new();
        for d in it: archive.puts.into_iter()
            invariant
                it.seq() == puts0,
                data@.len() == it.index(),
                forall|j: int| 0 <= j < data@.len() ==> (#[trigger] data@[j]).entry() == puts0[j].entry() && data@[j].info is None,
        {
            let page_put_data = match PagePutData::from_archive(d) {
                Ok(o) => o,
                Err(e) => {
                    return Err(e);
                },
            };
            data.push(page_put_data);
        }
        let ghost base = self.puts.id_count;
        self.clean_all_put_data();
        let ghost all = data@;
        for d in it: data.into_iter()
            invariant
                it.seq() == all,
                all.len() == puts0.len(),
                entries == archive_put_entries(puts0),
                forall|j: int| 0 <= j < all.len() ==> (#[trigger] all[j]).entry() == puts0[j].entry() && all[j].info is None,
                base + puts0.len() < u64::MAX,
                self.wf(),
                self.puts.id_count == base + it.index(),
                self.puts.ids() == Seq::new(it.index() as nat, |j: int| (base + 1 + j) as u64),
                forall|id: u64| #[trigger] self.puts.map().contains_key(id) ==> self.puts.map()[id].info is None,
                self.archive() == entries.take(it.index() as int),
                self.puts.selected_id == (if it.index() == 0 { 0 } else { self.puts.id_count }),
                self.events@ == old(self).events@,
        {
            let ghost k = it.index();
            let ghost m0 = self.puts.map();
            proof {
                assert(all[k] == d);
            }
            self.add_put_data(d);
            proof {
                assert(self.puts.ids() =~= Seq::new((k + 1) as nat, |j: int| (base + 1 + j) as u64));
                assert forall|id: u64| #[trigger] self.puts.map().contains_key(id) implies self.puts.map()[id].info is None by {
                    if id != self.puts.id_count {
                        assert(m0.contains_key(id));
                    }
                }
                assert(entries[k] == d.entry());
                assert(entries.take(k + 1) =~= entries.take(k).push(entries[k]));
            }
        }
        assert(entries.take(puts0.len() as int) == entries);
        Ok(())
    }

    /// Notes the outcome of put `id`: its message, as an error when `ok`
    /// is false.
    pub fn processing_put_res(&mut self, r: Box<(u64, bool, String)>)
        requires
            old(self).wf(),
        ensures
            final(self).wf(),
            final(self).events@ == old(self).events@,
            final(self).puts.ids() == old(self).puts.ids(),
            final(self).puts.id_count == old(self).puts.id_count,
            final(self).puts.selected_id == old(self).puts.selected_id,
            final(self).archive() == old(self).archive(),
            final(self).puts.map() == put_answered(old(self).puts.map(), *r),
    {
        let (id, b, s) = *r;
        let ghost l0 = self.puts;
        if let Some(pd) = self.puts.get_mut(id) {
            pd.info = if b { Some(Ok(s)) } else { Some(Err(s)) };
        }
        proof {
            if l0.map().contains_key(id) {
                crate::id_list::lemma_wf_after_update(l0, self.puts, id, self.puts.map()[id]);
                assert forall|id2: u64| #[trigger] self.puts.map().contains_key(id2) implies self.puts.map()[id2].id == id2 by {
                    assert(l0.map().contains_key(id2));
                }
                let p = l0.ids().index_of(id);
                assert forall|j: int| 0 <= j < self.archive().len() implies #[trigger] self.archive()[j] == old(self).archive()[j] by {
                    if j == p {
                    }
                }
                assert(self.archive() =~= old(self).archive());
            }
        }
    }

    /// The "copy add" button: a copy of the selected put, or the demo put
    /// when none is selected.
    pub fn add_copy_of_selected(&mut self)
        requires
            old(self).wf(),
            old(self).puts.id_count < u64::MAX,
        ensures
            final(self).wf(),
            final(self).events@ == old(self).events@,
            final(self).puts.id_count == old(self).puts.id_count + 1,
            final(self).puts.selected_id == final(self).puts.id_count,
            final(self).puts.ids() == old(self).puts.ids().push(final(self).puts.id_count),
            old(self).puts.map().contains_key(old(self).puts.selected_id) ==>
                final(self).archive() == old(self).archive().push(old(self).puts.map()[old(self).puts.selected_id].entry()),
            !old(self).puts.map().contains_key(old(self).puts.selected_id) ==>
                final(self).archive().last() == PagePutData::default_entry(),
    {
        let data = match self.puts.selected() {
            Some(d) => d.duplicate(),
            None => PagePutData::default(),
        };
        self.add_put_data(data);
    }

    /// The "send" button of the selected put; see [`PagePutData::send`].
    pub fn send_selected(&mut self, read: Result<Vec<u8>, String>)
        requires
            old(self).wf(),
        ensures
            final(self).wf(),
            final(self).puts.ids() == old(self).puts.ids(),
            final(self).puts.id_count == old(self).puts.id_count,
            final(self).puts.selected_id == old(self).puts.selected_id,
            ({
                let id = old(self).puts.selected_id;
                if old(self).puts.map().contains_key(id) {
                    &&& final(self).puts.map() == old(self).puts.map().insert(id, final(self).puts.map()[id])
                    &&& put_sent(old(self).puts.map()[id], final(self).puts.map()[id], old(self).events@, final(self).events@, read)
                } else {
                    final(self).events@ == old(self).events@ && final(self).puts.map() == old(self).puts.map()
                }
            }),
    {
        let id = self.puts.selected_id;
        let ghost l0 = self.puts;
        if let Some(data) = self.puts.get_mut(id) {
            data.send(&mut self.events, read);
        }
        proof {
            if l0.map().contains_key(id) {
                crate::id_list::lemma_wf_after_update(l0, self.puts, id, self.puts.map()[id]);
                assert forall|id2: u64| #[trigger] self.puts.map().contains_key(id2) implies self.puts.map()[id2].id == id2 by {
                    assert(l0.map().contains_key(id2));
                }
            }
        }
    }
}

impl PagePutData {
    /// What a file stores of the demo put.
    pub open spec fn default_entry() -> PutEntry {
        ("demo"@, "demo/example"@, ZCongestionControl::Block, ZPriority::RealTime, PayloadEdit::default_view())
    }
}

impl Default for PagePut {
    fn default() -> (p: PagePut)
        ensures
            p.wf(),
            p.events@.len() == 0,
            p.puts.id_count == 1,
            p.puts.selected_id == 1,
            p.puts.ids() == seq![1u64],
            p.archive() == seq![PagePutData::default_entry()],
    {
        let mut p = PagePut { events: VecDeque::new(), puts: IdList::new(1) };
        p.add_put_data(PagePutData::default());
        assert(p.puts.ids() =~= seq![1u64]);
        assert(p.archive() =~= seq![PagePutData::default_entry()]);
        p
    }
}

} // verus!
