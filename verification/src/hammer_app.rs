//! The application: its pages, the workspace file, and the decisions that
//! route the pages' requests to the session and its messages back to the
//! pages.

use vstd::prelude::*;
use std::collections::VecDeque;
use crate::archive_file::{AppEntries, ArchiveApp};
use crate::page_get::{self, PageGet};
use crate::page_put::{self, PagePut};
use crate::page_session::{self, PageSession};
use crate::page_sub::{self, PageSub, PageSubData};
use crate::task_zenoh::{MsgGuiToZenoh, MsgZenohToGui};
use crate::text::concat;

verus! {

/// The pages of the application.
#[derive(Copy, Clone, Debug, PartialEq, Eq, Structural)]
pub enum Page {
    Session,
    Sub,
    Get,
    Put,
}

impl Page {
    /// The label of the page.
    pub open spec fn label(self) -> Seq<char> {
        match self {
            Page::Session => "Session"@,
            Page::Sub => "Sub"@,
            Page::Get => "Get"@,
            Page::Put => "Put"@,
        }
    }

    /// The label of the page.
    pub fn as_str(&self) -> (s: &'static str)
        ensures
            s@ == self.label(),
    {
        match self {
            Page::Session => "Session",
            Page::Sub => "Sub",
            Page::Get => "Get",
            Page::Put => "Put",
        }
    }

    /// Every page, in the order of the bar.
    pub fn all() -> (v: Vec<Page>)
        ensures
            v@ == seq![Page::Session, Page::Sub, Page::Get, Page::Put],
    {
        vec![Page::Session, Page::Sub, Page::Get, Page::Put]
    }
}

/// What the application does for a request of the session page: start
/// the session task with a configuration file, or ask the session to close.
pub enum SessionAction {
    Start(u64, String),
    Close,
}

/// One request of the session page handled, given whether the channel to
/// the session is open: a request to open it starts the session unless the
/// channel is already open; a request to close it asks the session to
/// close, and drops the channel, when it is open.
pub open spec fn session_step(open: bool, e: page_session::Event) -> (bool, Option<SessionAction>) {
    match e {
        page_session::Event::Connect(c) => if open {
            (true, None)
        } else {
            (true, Some(SessionAction::Start(c.0, c.1)))
        },
        page_session::Event::Disconnect => if open {
            (false, Some(SessionAction::Close))
        } else {
            (false, None)
        },
    }
}

/// The requests `evs` of the session page handled in order from a channel
/// that is `open` or not: whether it is open at the end, and what was done.
pub open spec fn session_run(open: bool, evs: Seq<page_session::Event>) -> (bool, Seq<SessionAction>)
    decreases evs.len(),
{
    if evs.len() == 0 {
        (open, Seq::empty())
    } else {
        let (o, acts) = session_run(open, evs.drop_last());
        let (o2, a) = session_step(o, evs.last());
        (o2, match a {
            Some(x) => acts.push(x),
            None => acts,
        })
    }
}

/// The message that carries a request of the put page.
pub open spec fn put_request(e: page_put::Event) -> MsgGuiToZenoh {
    match e {
        page_put::Event::Put(p) => MsgGuiToZenoh::PutReq(p),
    }
}

/// The message that carries a request of the query page.
pub open spec fn get_request(e: page_get::Event) -> MsgGuiToZenoh {
    match e {
        page_get::Event::Get(q) => MsgGuiToZenoh::GetReq(q),
    }
}

/// The message that carries a request of the subscription page.
pub open spec fn sub_request(e: page_sub::Event) -> MsgGuiToZenoh {
    match e {
        page_sub::Event::AddSub(s) => MsgGuiToZenoh::AddSubReq(s),
        page_sub::Event::DelSub(id) => MsgGuiToZenoh::DelSubReq(id),
    }
}

/// Whether request `e` asks to declare subscription `id`.
pub open spec fn declares(e: page_sub::Event, id: u64) -> bool {
    e matches page_sub::Event::AddSub(b) && b.id == id
}

/// Whether one of `evs` asks to declare subscription `id`.
pub open spec fn asks_to_declare(evs: Seq<page_sub::Event>, id: u64) -> bool {
    exists|i: int| 0 <= i < evs.len() && #[trigger] declares(evs[i], id)
}

/// `d1` is subscription `d0` refused for want of a session: not declared,
/// with the error "not connected".
pub open spec fn refused_not_connected(d0: PageSubData, d1: PageSubData) -> bool {
    &&& d1 == PageSubData { err_str: d1.err_str, subscribed: false, ..d0 }
    &&& d1.err_str matches Some(e) && e@ == "not connected"@
}

/// The application: the workspace file, whether the channels to and from
/// the session are open, the page shown and the pages.
pub struct HammerApp {
    pub app_config_path: Option<String>,
    pub sender_open: bool,
    pub receiver_open: bool,
    pub opened_file: Option<String>,
    pub show_about: bool,
    pub selected_page: Page,
    pub p_session: PageSession,
    pub p_sub: PageSub,
    pub p_get: PageGet,
    pub p_put: PagePut,
}

impl HammerApp {
    /// Every page is well formed.
    pub open spec fn wf(&self) -> bool {
        &&& self.p_session.wf()
        &&& self.p_sub.wf()
        &&& self.p_get.wf()
        &&& self.p_put.wf()
    }

    /// What a workspace file stores of the application.
    pub open spec fn archive(&self) -> AppEntries {
        (self.p_session.archive(), self.p_sub.archive(), self.p_put.archive(), self.p_get.archive())
    }

    /// Records where the application keeps the path of the last workspace.
    pub fn set_app_config_path(&mut self, app_config_path: String)
        ensures
            *final(self) == (HammerApp { app_config_path: Some(app_config_path), ..*old(self) }),
    {
        self.app_config_path = Some(app_config_path);
    }

    /// Records the workspace file in use.
    pub fn set_opened_file(&mut self, opened_file: String)
        ensures
            *final(self) == (HammerApp { opened_file: Some(opened_file), ..*old(self) }),
    {
        self.opened_file = Some(opened_file);
    }

    /// The page bar.
    pub fn select_page(&mut self, page: Page)
        ensures
            *final(self) == (HammerApp { selected_page: page, ..*old(self) }),
    {
        self.selected_page = page;
    }

    /// The "about" entry of the help menu.
    pub fn open_about(&mut self)
        ensures
            *final(self) == (HammerApp { show_about: true, ..*old(self) }),
    {
        self.show_about = true;
    }

    /// Whether a workspace may be loaded: not while the session is open.
    pub fn can_load(&self) -> (b: bool)
        ensures
            b == (self.p_session.connected_config_file_id is None),
    {
        !self.p_session.connected()
    }

    /// Where "save" writes: the workspace file in use, if any; otherwise a
    /// path must be asked for.
    pub fn save_target(&self) -> (p: Option<String>)
        ensures
            p == self.opened_file,
    {
        match &self.opened_file {
            Some(s) => Some(s.clone()),
            None => None,
        }
    }

    /// Every page takes the stored form of the workspace `data`.
    pub fn load(&mut self, data: ArchiveApp) -> (r: Result<(), String>)
        requires
            old(self).wf(),
            old(self).p_session.config_files.id_count + data.page_session.config_files@.len() < u64::MAX,
            old(self).p_sub.sub_id_count + data.page_sub.subs@.len() < u64::MAX,
            old(self).p_put.puts.id_count + data.page_put.puts@.len() < u64::MAX,
            old(self).p_get.gets.id_count + data.page_get.gets@.len() < u64::MAX,
        ensures
            r is Ok,
            final(self).wf(),
            final(self).archive() == data.entries(),
            final(self).sender_open == old(self).sender_open,
            final(self).receiver_open == old(self).receiver_open,
            final(self).opened_file == old(self).opened_file,
            final(self).selected_page == old(self).selected_page,
            final(self).p_session.connected_config_file_id == old(self).p_session.connected_config_file_id,
    {
        match self.p_session.load(data.page_session) {
            Ok(_) => {},
            Err(e) => {
                return Err(e);
            },
        }
        match self.p_sub.load(data.page_sub) {
            Ok(_) => {},
            Err(e) => {
                return Err(e);
            },
        }
        match self.p_put.load(data.page_put) {
            Ok(_) => {},
            Err(e) => {
                return Err(e);
            },
        }
        match self.p_get.load(data.page_get) {
            Ok(_) => {},
            Err(e) => {
                return Err(e);
            },
        }
        Ok(())
    }

    /// The stored form of every page.
    pub fn generate_archive(&self) -> (a: ArchiveApp)
        requires
            self.wf(),
        ensures
            a.entries() == self.archive(),
    {
        ArchiveApp {
            page_session: self.p_session.to_archive(),
            page_sub: self.p_sub.to_archive(),
            page_put: self.p_put.to_archive(),
            page_get: self.p_get.to_archive(),
        }
    }

    /// A workspace file read at `path`: `read` is the workspace it holds or
    /// why it could not be read. On success the pages take it and the file
    /// becomes the one in use; either way a message says what happened.
    pub fn load_from_file(&mut self, path: String, read: Result<ArchiveApp, String>) -> (r: Result<String, String>)
        requires
            old(self).wf(),
            read matches Ok(data) ==> {
                &&& old(self).p_session.config_files.id_count + data.page_session.config_files@.len() < u64::MAX
                &&& old(self).p_sub.sub_id_count + data.page_sub.subs@.len() < u64::MAX
                &&& old(self).p_put.puts.id_count + data.page_put.puts@.len() < u64::MAX
                &&& old(self).p_get.gets.id_count + data.page_get.gets@.len() < u64::MAX
            },
        ensures
            final(self).wf(),
            match read {
                Ok(data) => {
                    &&& r matches Ok(s) && s@ == "load file ok, path: "@ + path@
                    &&& final(self).archive() == data.entries()
                    &&& final(self).opened_file == Some(path)
                },
                Err(e) => {
                    &&& r matches Err(s) && s@ == "load file err, path: "@ + path@ + " \n"@ + e@
                    &&& *final(self) == *old(self)
                },
            },
    {
        match read {
            Ok(o) => {
                let s = concat("load file ok, path: ", path.as_str());
                match self.load(o) {
                    Ok(_) => {},
                    Err(e) => {
                        return Err(e);
                    },
                }
                self.opened_file = Some(path);
                Ok(s)
            },
            Err(e) => {
                let head = concat("load file err, path: ", path.as_str());
                let head = concat(head.as_str(), " \n");
                Err(concat(head.as_str(), e.as_str()))
            },
        }
    }

    /// The outcome `written` of writing the workspace to `path`: on success
    /// the file becomes the one in use.
    pub fn store_to_file(&mut self, path: String, written: Result<(), String>) -> (r: Result<(), String>)
        ensures
            r == written,
            written is Ok ==> *final(self) == (HammerApp { opened_file: Some(path), ..*old(self) }),
            written is Err ==> *final(self) == *old(self),
    {
        if written.is_ok() {
            self.opened_file = Some(path);
        }
        written
    }

    /// A message of the session, handed to the page it is for. A failure to
    /// open the session also drops the channel to it.
    pub fn processing_zenoh_msg(&mut self, msg: MsgZenohToGui)
        requires
            old(self).wf(),
        ensures
            final(self).wf(),
            final(self).opened_file == old(self).opened_file,
            final(self).receiver_open == old(self).receiver_open,
            final(self).sender_open == (old(self).sender_open && !(msg matches MsgZenohToGui::OpenSession(Err(_)))),
            final(self).archive() == old(self).archive(),
            match msg {
                MsgZenohToGui::OpenSession(b) => {
                    &&& final(self).p_session.connected_config_file_id == (match b {
                        Ok(id) => Some(id),
                        Err(_) => None::<u64>,
                    })
                    &&& final(self).p_session.config_files.map() == page_session::connect_answered(old(self).p_session.config_files.map(), b)
                    &&& final(self).p_sub == old(self).p_sub
                    &&& final(self).p_get == old(self).p_get
                    &&& final(self).p_put == old(self).p_put
                },
                MsgZenohToGui::AddSubRes(res) => {
                    &&& final(self).p_sub.group() == page_sub::add_sub_answered(old(self).p_sub.group(), res.0, res.1)
                    &&& final(self).p_session == old(self).p_session
                    &&& final(self).p_get == old(self).p_get
                    &&& final(self).p_put == old(self).p_put
                },
                MsgZenohToGui::DelSubRes(id) => {
                    &&& final(self).p_sub.group() == page_sub::del_sub_answered(old(self).p_sub.group(), id)
                    &&& final(self).p_session == old(self).p_session
                    &&& final(self).p_get == old(self).p_get
                    &&& final(self).p_put == old(self).p_put
                },
                MsgZenohToGui::SubCB(d) => {
                    &&& page_sub::sub_cb_applied(old(self).p_sub.group(), final(self).p_sub.group(), d.0, d.1, d.2)
                    &&& final(self).p_session == old(self).p_session
                    &&& final(self).p_get == old(self).p_get
                    &&& final(self).p_put == old(self).p_put
                },
                MsgZenohToGui::GetRes(r) => {
                    &&& page_get::get_answered(old(self).p_get.gets.map(), final(self).p_get.gets.map(), *r)
                    &&& final(self).p_session == old(self).p_session
                    &&& final(self).p_sub == old(self).p_sub
                    &&& final(self).p_put == old(self).p_put
                },
                MsgZenohToGui::PutRes(r) => {
                    &&& final(self).p_put.puts.map() == page_put::put_answered(old(self).p_put.puts.map(), *r)
                    &&& final(self).p_session == old(self).p_session
                    &&& final(self).p_sub == old(self).p_sub
                    &&& final(self).p_get == old(self).p_get
                },
            },
    {
        match msg {
            MsgZenohToGui::OpenSession(b) => {
                if b.is_err() {
                    self.sender_open = false;
                }
                self.p_session.set_connect_result(b);
            },
            MsgZenohToGui::AddSubRes(res) => {
                let (id, r) = *res;
                self.p_sub.processing_add_sub_res(id, r);
                proof {
                    lemma_sub_archive_same_names(old(self).p_sub, self.p_sub);
                }
            },
            MsgZenohToGui::DelSubRes(id) => {
                self.p_sub.processing_del_sub_res(id);
                proof {
                    lemma_sub_archive_same_names(old(self).p_sub, self.p_sub);
                }
            },
            MsgZenohToGui::SubCB(d) => {
                let (id, sample, receipt_time) = *d;
                self.p_sub.processing_sub_cb(id, sample, receipt_time);
                proof {
                    lemma_sub_archive_same_names(old(self).p_sub, self.p_sub);
                }
            },
            MsgZenohToGui::GetRes(r) => {
                self.p_get.processing_get_res(r);
            },
            MsgZenohToGui::PutRes(r) => {
                self.p_put.processing_put_res(r);
            },
        }
    }

    /// The channel from the session closed: nothing more comes from it, and
    /// no session is open.
    pub fn zenoh_channel_closed(&mut self)
        ensures
            !final(self).receiver_open,
            final(self).p_session.connected_config_file_id is None,
            final(self).sender_open == old(self).sender_open,
            final(self).p_sub == old(self).p_sub,
            final(self).p_put == old(self).p_put,
            final(self).p_get == old(self).p_get,
    {
        self.receiver_open = false;
        self.p_session.set_connected(None);
    }

    /// Handles every request of the session page, in order, and gives what
    /// the application must do for them; starting the session opens both
    /// channels.
    pub fn processing_page_session_events(&mut self) -> (acts: Vec<SessionAction>)
        ensures
            final(self).p_session.events@.len() == 0,
            (final(self).sender_open, acts@) == session_run(old(self).sender_open, old(self).p_session.events@),
            final(self).receiver_open == (old(self).receiver_open
                || exists|i: int| 0 <= i < acts@.len() && #[trigger] acts@[i] is Start),
            final(self).p_session.config_files == old(self).p_session.config_files,
            final(self).p_session.connected_config_file_id == old(self).p_session.connected_config_file_id,
            final(self).p_sub == old(self).p_sub,
            final(self).p_put == old(self).p_put,
            final(self).p_get == old(self).p_get,
    {
        let ghost evs0 = self.p_session.events@;
        let mut acts: Vec<SessionAction> = Vec::new();
        let ghost mut k: int = 0;
        while self.p_session.events.len() > 0
            invariant
                0 <= k <= evs0.len(),
                self.p_session.events@ == evs0.skip(k),
                (self.sender_open, acts@) == session_run(old(self).sender_open, evs0.take(k)),
                self.receiver_open == (old(self).receiver_open || exists|i: int| 0 <= i < acts@.len() && #[trigger] acts@[i] is Start),
                self.p_session.config_files == old(self).p_session.config_files,
                self.p_session.connected_config_file_id == old(self).p_session.connected_config_file_id,
                self.p_sub == old(self).p_sub,
                self.p_put == old(self).p_put,
                self.p_get == old(self).p_get,
            decreases self.p_session.events@.len(),
        {
            let ghost acts0 = acts@;
            let event = self.p_session.events.pop_front().unwrap();
            proof {
                assert(evs0.take(k + 1).drop_last() == evs0.take(k));
                assert(evs0.take(k + 1).last() == evs0[k]);
                assert(evs0.skip(k)[0] == evs0[k]);
                assert(evs0.skip(k + 1) == evs0.skip(k).drop_first());
            }
            match event {
                page_session::Event::Connect(c) => {
                    if !self.sender_open {
                        let (id, config_file_path) = *c;
                        acts.push(SessionAction::Start(id, config_file_path));
                        self.sender_open = true;
                        self.receiver_open = true;
                        proof {
                            assert(acts@[acts@.len() - 1] is Start);
                        }
                    }
                },
                page_session::Event::Disconnect => {
                    if self.sender_open {
                        acts.push(SessionAction::Close);
                        self.sender_open = false;
                        proof {
                            assert forall|i: int| 0 <= i < acts@.len() && #[trigger] acts@[i] is Start implies
                                0 <= i < acts0.len() && acts0[i] is Start by {
                                assert(acts@[i] == acts0[i]);
                            }
                        }
                    }
                },
            }
            proof {
                k = k + 1;
                assert forall|i: int| 0 <= i < acts0.len() implies acts@[i] == acts0[i] by {}
            }
        }
        proof {
            assert(evs0.take(evs0.len() as int) == evs0);
        }
        acts
    }

    /// Handles every request of the subscription page, in order. With the
    /// channel to the session open they become messages for it; without,
    /// a request to declare a subscription is answered "not connected" and
    /// a request to drop one is let go.
    pub fn processing_page_sub_events(&mut self) -> (msgs: Vec<MsgGuiToZenoh>)
        requires
            old(self).wf(),
        ensures
            final(self).wf(),
            final(self).p_sub.events@.len() == 0,
            final(self).archive() == old(self).archive(),
            final(self).p_sub.ids() == old(self).p_sub.ids(),
            final(self).p_sub.sub_id_count == old(self).p_sub.sub_id_count,
            final(self).p_sub.selected_sub_id == old(self).p_sub.selected_sub_id,
            final(self).sender_open == old(self).sender_open,
            old(self).sender_open ==> {
                &&& msgs@ == Seq::new(old(self).p_sub.events@.len(), |i: int| sub_request(old(self).p_sub.events@[i]))
                &&& final(self).p_sub.group() == old(self).p_sub.group()
            },
            !old(self).sender_open ==> {
                &&& msgs@.len() == 0
                &&& final(self).p_sub.group().dom() == old(self).p_sub.group().dom()
                &&& forall|id: u64| #[trigger] old(self).p_sub.group().contains_key(id) ==>
                    (if asks_to_declare(old(self).p_sub.events@, id) {
                        refused_not_connected(old(self).p_sub.group()[id], final(self).p_sub.group()[id])
                    } else {
                        final(self).p_sub.group()[id] == old(self).p_sub.group()[id]
                    })
            },
            final(self).p_session == old(self).p_session,
            final(self).p_put == old(self).p_put,
            final(self).p_get == old(self).p_get,
    {
        let ghost evs0 = self.p_sub.events@;
        let mut msgs: Vec<MsgGuiToZenoh> = Vec::new();
        let ghost mut k: int = 0;
        while self.p_sub.events.len() > 0
            invariant
                0 <= k <= evs0.len(),
                self.wf(),
                self.p_sub.events@ == evs0.skip(k),
                self.p_sub.ids() == old(self).p_sub.ids(),
                self.p_sub.sub_id_count == old(self).p_sub.sub_id_count,
                self.p_sub.selected_sub_id == old(self).p_sub.selected_sub_id,
                self.sender_open == old(self).sender_open,
                self.archive() == old(self).archive(),
                old(self).sender_open ==> {
                    &&& msgs@ == Seq::new(k as nat, |i: int| sub_request(evs0[i]))
                    &&& self.p_sub.group() == old(self).p_sub.group()
                },
                !old(self).sender_open ==> {
                    &&& msgs@.len() == 0
                    &&& self.p_sub.group().dom() == old(self).p_sub.group().dom()
                    &&& forall|id: u64| #[trigger] old(self).p_sub.group().contains_key(id) ==>
                        (if asks_to_declare(evs0.take(k), id) {
                            refused_not_connected(old(self).p_sub.group()[id], self.p_sub.group()[id])
                        } else {
                            self.p_sub.group()[id] == old(self).p_sub.group()[id]
                        })
                },
                self.p_session == old(self).p_session,
                self.p_put == old(self).p_put,
                self.p_get == old(self).p_get,
            decreases self.p_sub.events@.len(),
        {
            let event = self.p_sub.events.pop_front().unwrap();
            let ghost g0 = self.p_sub.group();
            proof {
                assert(evs0.skip(k)[0] == evs0[k]);
                assert(evs0.skip(k + 1) == evs0.skip(k).drop_first());
            }
            match event {
                page_sub::Event::AddSub(b) => {
                    if self.sender_open {
                        msgs.push(MsgGuiToZenoh::AddSubReq(b));
                    } else {
                        let id = b.id;
                        self.p_sub.processing_add_sub_res(id, Err("not connected".to_owned()));
                        proof {
                            lemma_sub_archive_same_names(old(self).p_sub, self.p_sub);
                        }
                    }
                },
                page_sub::Event::DelSub(id) => {
                    if self.sender_open {
                        msgs.push(MsgGuiToZenoh::DelSubReq(id));
                    }
                },
            }
            proof {
                let ev = evs0[k];
                assert forall|id: u64| asks_to_declare(evs0.take(k + 1), id) == (asks_to_declare(evs0.take(k), id)
                    || declares(ev, id)) by {
                    if asks_to_declare(evs0.take(k + 1), id) {
                        let i = choose|i: int| 0 <= i < k + 1 && #[trigger] declares(evs0.take(k + 1)[i], id);
                        if i < k {
                            assert(evs0.take(k)[i] == evs0.take(k + 1)[i]);
                        }
                    }
                    if asks_to_declare(evs0.take(k), id) {
                        let i = choose|i: int| 0 <= i < k && #[trigger] declares(evs0.take(k)[i], id);
                        assert(evs0.take(k + 1)[i] == evs0.take(k)[i]);
                    }
                    if declares(ev, id) {
                        assert(evs0.take(k + 1)[k] == ev);
                    }
                }
                if old(self).sender_open {
                    assert(msgs@ =~= Seq::new((k + 1) as nat, |i: int| sub_request(evs0[i])));
                } else {
                    assert(self.p_sub.group().dom() =~= g0.dom());
                    assert forall|id: u64| #[trigger] old(self).p_sub.group().contains_key(id) implies
                        (if asks_to_declare(evs0.take(k + 1), id) {
                            refused_not_connected(old(self).p_sub.group()[id], self.p_sub.group()[id])
                        } else {
                            self.p_sub.group()[id] == old(self).p_sub.group()[id]
                        }) by {
                        assert(g0.contains_key(id));
                        if declares(ev, id) {
                            assert(self.p_sub.group()[id].err_str matches Some(e) && e@ == "not connected"@);
                        } else {
                            assert(self.p_sub.group()[id] == g0[id]);
                        }
                    }
                }
                k = k + 1;
            }
        }
        proof {
            assert(evs0.take(evs0.len() as int) == evs0);
        }
        msgs
    }

    /// Hands every request of the put page, in order, to the session when
    /// the channel to it is open; otherwise they are let go.
    pub fn processing_page_put_events(&mut self) -> (msgs: Vec<MsgGuiToZenoh>)
        ensures
            final(self).p_put.events@.len() == 0,
            final(self).p_put.puts == old(self).p_put.puts,
            msgs@ == (if old(self).sender_open {
                Seq::new(old(self).p_put.events@.len(), |i: int| put_request(old(self).p_put.events@[i]))
            } else {
                Seq::empty()
            }),
            final(self).p_session == old(self).p_session,
            final(self).p_sub == old(self).p_sub,
            final(self).p_get == old(self).p_get,
            final(self).sender_open == old(self).sender_open,
    {
        let ghost evs0 = self.p_put.events@;
        let mut msgs: Vec<MsgGuiToZenoh> = Vec::new();
        let ghost mut k: int = 0;
        while self.p_put.events.len() > 0
            invariant
                0 <= k <= evs0.len(),
                self.p_put.events@ == evs0.skip(k),
                msgs@ == (if old(self).sender_open { Seq::new(k as nat, |i: int| put_request(evs0[i])) } else { Seq::empty() }),
                self.p_put.puts == old(self).p_put.puts,
                self.p_session == old(self).p_session,
                self.p_sub == old(self).p_sub,
                self.p_get == old(self).p_get,
                self.sender_open == old(self).sender_open,
            decreases self.p_put.events@.len(),
        {
            let event = self.p_put.events.pop_front().unwrap();
            proof {
                assert(evs0.skip(k)[0] == evs0[k]);
                assert(evs0.skip(k + 1) == evs0.skip(k).drop_first());
            }
            match event {
                page_put::Event::Put(p) => {
                    if self.sender_open {
                        msgs.push(MsgGuiToZenoh::PutReq(p));
                    }
                },
            }
            proof {
                if old(self).sender_open {
                    assert(msgs@ =~= Seq::new((k + 1) as nat, |i: int| put_request(evs0[i])));
                }
                k = k + 1;
            }
        }
        msgs
    }

    /// Hands every request of the query page, in order, to the session when
    /// the channel to it is open; otherwise they are let go.
    pub fn processing_page_get_events(&mut self) -> (msgs: Vec<MsgGuiToZenoh>)
        ensures
            final(self).p_get.events@.len() == 0,
            final(self).p_get.gets == old(self).p_get.gets,
            final(self).p_get.show_reply_viewer_window == old(self).p_get.show_reply_viewer_window,
            msgs@ == (if old(self).sender_open {
                Seq::new(old(self).p_get.events@.len(), |i: int| get_request(old(self).p_get.events@[i]))
            } else {
                Seq::empty()
            }),
            final(self).p_session == old(self).p_session,
            final(self).p_sub == old(self).p_sub,
            final(self).p_put == old(self).p_put,
            final(self).sender_open == old(self).sender_open,
    {
        let ghost evs0 = self.p_get.events@;
        let mut msgs: Vec<MsgGuiToZenoh> = Vec::new();
        let ghost mut k: int = 0;
        while self.p_get.events.len() > 0
            invariant
                0 <= k <= evs0.len(),
                self.p_get.events@ == evs0.skip(k),
                msgs@ == (if old(self).sender_open { Seq::new(k as nat, |i: int| get_request(evs0[i])) } else { Seq::empty() }),
                self.p_get.gets == old(self).p_get.gets,
                self.p_get.show_reply_viewer_window == old(self).p_get.show_reply_viewer_window,
                self.p_session == old(self).p_session,
                self.p_sub == old(self).p_sub,
                self.p_put == old(self).p_put,
                self.sender_open == old(self).sender_open,
            decreases self.p_get.events@.len(),
        {
            let event = self.p_get.events.pop_front().unwrap();
            proof {
                assert(evs0.skip(k)[0] == evs0[k]);
                assert(evs0.skip(k + 1) == evs0.skip(k).drop_first());
            }
            match event {
                page_get::Event::Get(q) => {
                    if self.sender_open {
                        msgs.push(MsgGuiToZenoh::GetReq(q));
                    }
                },
            }
            proof {
                if old(self).sender_open {
                    assert(msgs@ =~= Seq::new((k + 1) as nat, |i: int| get_request(evs0[i])));
                }
                k = k + 1;
            }
        }
        msgs
    }
}

/// The stored form of the subscription page depends only on the listed
/// subscriptions' names and key expressions.
pub proof fn lemma_sub_archive_same_names(a: PageSub, b: PageSub)
    requires
        a.wf(),
        b.ids() == a.ids(),
        forall|id: u64| #[trigger] b.group().contains_key(id) == a.group().contains_key(id),
        forall|id: u64| #[trigger] a.group().contains_key(id) ==>
            b.group()[id].name == a.group()[id].name && b.group()[id].key_expr == a.group()[id].key_expr,
    ensures
        b.archive() == a.archive(),
{
    lemma_sub_archive_names(a.ids(), a.group(), b.group());
}

/// `sub_archive` over two groups with the same ids, names and key
/// expressions is the same.
proof fn lemma_sub_archive_names(ids: Seq<u64>, g1: Map<u64, PageSubData>, g2: Map<u64, PageSubData>)
    requires
        forall|id: u64| #[trigger] g2.contains_key(id) == g1.contains_key(id),
        forall|id: u64| #[trigger] g1.contains_key(id) ==> g2[id].name == g1[id].name && g2[id].key_expr == g1[id].key_expr,
    ensures
        page_sub::sub_archive(ids, g2) == page_sub::sub_archive(ids, g1),
    decreases ids.len(),
{
    if ids.len() > 0 {
        lemma_sub_archive_names(ids.drop_last(), g1, g2);
        assert(g1.contains_key(ids.last()) == g2.contains_key(ids.last()));
        if g1.contains_key(ids.last()) {
            assert(g2[ids.last()].name == g1[ids.last()].name);
        }
    }
}

impl Default for HammerApp {
    fn default() -> (a: HammerApp)
        ensures
            a.wf(),
            a.app_config_path is None,
            !a.sender_open,
            !a.receiver_open,
            a.opened_file is None,
            !a.show_about,
            a.selected_page == Page::Session,
            a.p_session.connected_config_file_id is None,
    {
        HammerApp {
            app_config_path: None,
            sender_open: false,
            receiver_open: false,
            opened_file: None,
            show_about: false,
            selected_page: Page::Session,
            p_session: PageSession::default(),
            p_sub: PageSub::default(),
            p_get: PageGet::default(),
            p_put: PagePut::default(),
        }
    }
}

} // verus!
