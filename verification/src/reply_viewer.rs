//! The reply window: what a reply says of itself, and its payload shown as
//! bytes or read by its encoding.

use vstd::prelude::*;
use vstd::slice::slice_to_vec;
use crate::data_viewer::{shows, DataViewer};
use crate::hex_viewer::HexViewer;
use crate::payload_editor::shows_fresh;
use crate::sample_viewer::{attachment_shown, attachment_text, stamp_parts, stamp_parts_of, stamp_view};
use crate::task_zenoh::{Reply, SampleKind, SourceInfo, Timestamp};
use crate::text::{opt_bytes_view, opt_str_view};
use crate::zenoh_data::{Encoding, ZCongestionControl, ZPriority, ZReliability};

verus! {

/// The tab shown: the payload's bytes, or the payload read by its encoding.
#[derive(Copy, Clone, Debug, PartialEq, Eq, Structural)]
pub enum ReplyViewerPage {
    Raw,
    Parse,
}

/// What a reply says of itself: whether it holds a sample, that sample's
/// details, who replied, and the encoding of its payload.
pub struct ReplyInfo {
    pub ok: bool,
    pub key: Option<String>,
    pub kind: Option<SampleKind>,
    pub timestamp: Option<Timestamp>,
    pub congestion_control: Option<ZCongestionControl>,
    pub priority: Option<ZPriority>,
    pub reliability: Option<ZReliability>,
    pub express: Option<bool>,
    pub source_info: Option<SourceInfo>,
    pub attachment: Option<Vec<u8>>,
    pub replier_id: Option<String>,
    pub encoding: Encoding,
}

impl ReplyInfo {
    /// `self` describes `r`.
    pub open spec fn describes(&self, r: Reply) -> bool {
        &&& opt_str_view(self.replier_id) == opt_str_view(r.replier_id)
        &&& match r.result {
            Ok(s) => {
                &&& self.ok
                &&& opt_str_view(self.key) == Some(s.key_expr@)
                &&& self.kind == Some(s.kind)
                &&& stamp_view(self.timestamp) == stamp_view(s.timestamp)
                &&& self.congestion_control == Some(s.congestion_control)
                &&& self.priority == Some(s.priority)
                &&& self.reliability == Some(s.reliability)
                &&& self.express == Some(s.express)
                &&& self.source_info matches Some(si) && si.view() == s.source_info.view()
                &&& opt_bytes_view(self.attachment) == opt_bytes_view(s.attachment)
                &&& self.encoding.id == s.encoding.id
                &&& opt_bytes_view(self.encoding.schema) == opt_bytes_view(s.encoding.schema)
            },
            Err(e) => {
                &&& !self.ok
                &&& self.key is None
                &&& self.kind is None
                &&& self.timestamp is None
                &&& self.congestion_control is None
                &&& self.priority is None
                &&& self.reliability is None
                &&& self.express is None
                &&& self.source_info is None
                &&& self.attachment is None
                &&& self.encoding.id == e.encoding.id
                &&& opt_bytes_view(self.encoding.schema) == opt_bytes_view(e.encoding.schema)
            },
        }
    }

    /// What `reply` says of itself.
    pub fn new_from(reply: &Reply) -> (i: ReplyInfo)
        ensures
            i.describes(*reply),
    {
        let replier_id = match &reply.replier_id {
            Some(s) => Some(s.clone()),
            None => None,
        };
        match &reply.result {
            Ok(sample) => {
                let timestamp = match &sample.timestamp {
                    Some(t) => Some(t.duplicate()),
                    None => None,
                };
                let attachment = match &sample.attachment {
                    Some(a) => Some(slice_to_vec(a.as_slice())),
                    None => None,
                };
                ReplyInfo {
                    ok: true,
                    key: Some(sample.key_expr.clone()),
                    kind: Some(sample.kind),
                    timestamp,
                    congestion_control: Some(sample.congestion_control),
                    priority: Some(sample.priority),
                    reliability: Some(sample.reliability),
                    express: Some(sample.express),
                    source_info: Some(sample.source_info.duplicate()),
                    attachment,
                    replier_id,
                    encoding: sample.encoding.duplicate(),
                }
            },
            Err(err) => ReplyInfo {
                ok: false,
                key: None,
                kind: None,
                timestamp: None,
                congestion_control: None,
                priority: None,
                reliability: None,
                express: None,
                source_info: None,
                attachment: None,
                replier_id,
                encoding: err.encoding.duplicate(),
            },
        }
    }
}

impl ReplyInfo {
    /// The time and clock id shown for the reply's time stamp, "-" for
    /// each when it has none.
    pub fn timestamp_text(&self) -> (r: (String, String))
        ensures
            (r.0@, r.1@) == (match self.timestamp {
                Some(t) => stamp_parts_of(t.time, t.id@),
                None => ("-"@, "-"@),
            }),
    {
        match &self.timestamp {
            Some(t) => stamp_parts(t),
            None => ("-".to_owned(), "-".to_owned()),
        }
    }

    /// The kind as zenoh displays it, where the reply has one.
    pub fn kind_text(&self) -> (s: Option<&'static str>)
        ensures
            s is Some == self.kind is Some,
            s matches Some(t) ==> t@ == self.kind.unwrap().display(),
    {
        match &self.kind {
            Some(k) => Some(k.display_str()),
            None => None,
        }
    }

    /// The attachment as shown, where the reply has one.
    pub fn attachment_text(&self) -> (s: Option<String>)
        ensures
            s is Some == self.attachment is Some,
            s matches Some(t) ==> t@ == attachment_shown(self.attachment.unwrap()@),
    {
        match &self.attachment {
            Some(a) => Some(attachment_text(a.as_slice())),
            None => None,
        }
    }

    /// Where the reply has source information: its id, its sequence number
    /// and the replier's id as shown, each "-" when not known.
    pub fn source_texts(&self) -> (s: Option<(String, String, String)>)
        ensures
            s is Some == self.source_info is Some,
            s matches Some(t) ==> {
                &&& t.0@ == self.source_info.unwrap().id_shown()
                &&& t.1@ == self.source_info.unwrap().sn_shown()
                &&& t.2@ == match self.replier_id {
                    Some(id) => id@,
                    None => "-"@,
                }
            },
    {
        match &self.source_info {
            Some(si) => {
                let replier = match &self.replier_id {
                    Some(id) => id.clone(),
                    None => "-".to_owned(),
                };
                Some((si.id_text(), si.sn_text(), replier))
            },
            None => None,
        }
    }
}

impl Default for ReplyInfo {
    fn default() -> (i: ReplyInfo)
        ensures
            !i.ok,
            i.key is None,
            i.kind is None,
            i.timestamp is None,
            i.replier_id is None,
            i.encoding.id == 0,
            i.encoding.schema is None,
    {
        ReplyInfo {
            ok: false,
            key: None,
            kind: None,
            timestamp: None,
            congestion_control: None,
            priority: None,
            reliability: None,
            express: None,
            source_info: None,
            attachment: None,
            replier_id: None,
            encoding: Encoding { id: 0, schema: None },
        }
    }
}

/// The payload that a reply carries: its sample's, or its error's.
pub open spec fn reply_payload(r: Reply) -> Seq<u8> {
    match r.result {
        Ok(s) => s.payload@,
        Err(e) => e.payload@,
    }
}

/// The reply window.
pub struct ReplyViewer {
    pub selected_page: ReplyViewerPage,
    pub reply_info: ReplyInfo,
    pub hex_viewer: HexViewer,
    pub data_viewer: DataViewer,
}

impl ReplyViewer {
    /// The window is freshly opened on `reply`: the tab of the bytes, the
    /// reply's description, its payload in a fresh hex view, and the
    /// payload read by the encoding the description gives.
    pub open spec fn opened_on(&self, reply: Reply) -> bool {
        &&& self.selected_page == ReplyViewerPage::Raw
        &&& self.reply_info.describes(reply)
        &&& shows_fresh(self.hex_viewer, reply_payload(reply))
        &&& shows(self.data_viewer, self.reply_info.encoding.id, reply_payload(reply))
    }

    /// The window of `reply`, on the payload's bytes.
    pub fn new_from_reply(reply: &Reply) -> (v: ReplyViewer)
        ensures
            v.opened_on(*reply),
    {
        let reply_info = ReplyInfo::new_from(reply);
        let data = match &reply.result {
            Ok(sample) => slice_to_vec(sample.payload.as_slice()),
            Err(err) => slice_to_vec(err.payload.as_slice()),
        };
        let data_viewer = DataViewer::load(&reply_info.encoding, data.as_slice());
        let hex_viewer = HexViewer::new(data);
        ReplyViewer { selected_page: ReplyViewerPage::Raw, reply_info, hex_viewer, data_viewer }
    }

    /// The "parse" and "raw" tabs.
    pub fn select_page(&mut self, page: ReplyViewerPage)
        ensures
            *final(self) == (ReplyViewer { selected_page: page, ..*old(self) }),
    {
        self.selected_page = page;
    }
}

impl Default for ReplyViewer {
    fn default() -> (v: ReplyViewer)
        ensures
            v.selected_page == ReplyViewerPage::Raw,
            shows_fresh(v.hex_viewer, Seq::empty()),
            v.data_viewer is Bin,
    {
        ReplyViewer {
            selected_page: ReplyViewerPage::Raw,
            reply_info: ReplyInfo::default(),
            hex_viewer: HexViewer::new(Vec::new()),
            data_viewer: DataViewer::Bin,
        }
    }
}

} // verus!
