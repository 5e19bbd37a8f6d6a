//! The sample window: what a sample says of itself, and its payload shown
//! as bytes or read by its encoding.

use vstd::prelude::*;
use vstd::slice::slice_to_vec;
use crate::data_viewer::{shows, DataViewer};
use crate::hex_viewer::HexViewer;
use crate::payload_editor::shows_fresh;
use crate::task_zenoh::{Sample, SampleKind, SourceInfo, Timestamp};
use crate::outside::{format_stamp, stamp_text, utf8_decode};
use crate::text::{bytes_debug, bytes_debug_text};
use vstd::utf8::{valid_utf8, decode_utf8};
use crate::text::{opt_bytes_view, split_first, split_once_char};
use crate::zenoh_data::{Encoding, ZCongestionControl, ZPriority, ZReliability};

verus! {

/// The tab shown: the payload's bytes, or the payload read by its encoding.
#[derive(Copy, Clone, Debug, PartialEq, Eq, Structural)]
pub enum SampleViewerPage {
    Raw,
    Parse,
}

/// The time and the clock id shown for a time stamp: the two sides of
/// the first `/` of its RFC 3339 text, or "-" for each when that text has
/// none or the stamp has no text.
pub open spec fn stamp_parts_of(time: u64, id: Seq<u8>) -> (Seq<char>, Seq<char>) {
    match stamp_text(time, id) {
        Some(t) => match split_first(t, '/') {
            Some(p) => p,
            None => ("-"@, "-"@),
        },
        None => ("-"@, "-"@),
    }
}

/// The time and the clock id shown for a time stamp.
pub fn stamp_parts(t: &Timestamp) -> (r: (String, String))
    ensures
        (r.0@, r.1@) == stamp_parts_of(t.time, t.id@),
{
    match format_stamp(t.time, t.id.as_slice()) {
        Some(m) => match split_once_char(m.as_str(), '/') {
            Some(p) => p,
            None => ("-".to_owned(), "-".to_owned()),
        },
        None => ("-".to_owned(), "-".to_owned()),
    }
}

/// What a sample says of itself.
pub struct SampleInfo {
    pub key: String,
    pub encoding: Encoding,
    pub kind: SampleKind,
    pub timestamp: Option<Timestamp>,
    pub congestion_control: ZCongestionControl,
    pub priority: ZPriority,
    pub reliability: ZReliability,
    pub express: bool,
    pub source_info: SourceInfo,
    pub attachment: Vec<u8>,
}

/// The time of an optional time stamp, with its clock id.
pub open spec fn stamp_view(t: Option<Timestamp>) -> Option<(u64, Seq<u8>)> {
    match t {
        Some(x) => Some((x.time, x.id@)),
        None => None,
    }
}

impl SampleInfo {
    /// `self` describes `s`; a sample with no attachment has an empty one.
    pub open spec fn describes(&self, s: Sample) -> bool {
        &&& self.key@ == s.key_expr@
        &&& self.encoding.id == s.encoding.id
        &&& opt_bytes_view(self.encoding.schema) == opt_bytes_view(s.encoding.schema)
        &&& self.kind == s.kind
        &&& stamp_view(self.timestamp) == stamp_view(s.timestamp)
        &&& self.congestion_control == s.congestion_control
        &&& self.priority == s.priority
        &&& self.reliability == s.reliability
        &&& self.express == s.express
        &&& self.source_info.view() == s.source_info.view()
        &&& self.attachment@ == (match s.attachment {
            Some(a) => a@,
            None => Seq::empty(),
        })
    }

    /// What `sample` says of itself.
    pub fn new_from(sample: &Sample) -> (i: SampleInfo)
        ensures
            i.describes(*sample),
    {
        let timestamp = match &sample.timestamp {
            Some(t) => Some(t.duplicate()),
            None => None,
        };
        let attachment = match &sample.attachment {
            Some(a) => slice_to_vec(a.as_slice()),
            None => Vec::new(),
        };
        SampleInfo {
            key: sample.key_expr.clone(),
            encoding: sample.encoding.duplicate(),
            kind: sample.kind,
            timestamp,
            congestion_control: sample.congestion_control,
            priority: sample.priority,
            reliability: sample.reliability,
            express: sample.express,
            source_info: sample.source_info.duplicate(),
            attachment,
        }
    }
}

/// An attachment as shown: its text where it is valid UTF-8, else the
/// debug form of its bytes.
pub open spec fn attachment_shown(b: Seq<u8>) -> Seq<char> {
    if valid_utf8(b) { decode_utf8(b) } else { bytes_debug(b) }
}

/// An attachment as shown.
pub fn attachment_text(b: &[u8]) -> (s: String)
    ensures
        s@ == attachment_shown(b@),
{
    match utf8_decode(slice_to_vec(b)) {
        Ok(text) => text,
        Err(_) => bytes_debug_text(b),
    }
}

impl SampleInfo {
    /// The time and clock id shown for the sample's time stamp, "-" for
    /// each when it has none.
    pub fn timestamp_text(&self) -> (r: (String, String))
        ensures
            (r.0@, r.1@) == (match self.timestamp {
                Some(t) => stamp_parts_of(t.time, t.id@),
                None => ("-"@, "-"@),
            }),
    {
        match &self.timestamp {
            Some(t) => stamp_parts(t),
            None => ("-".to_owned(), "-".to_owned()),
        }
    }

    /// The kind as shown, in lower case.
    pub fn kind_text(&self) -> (s: &'static str)
        ensures
            s@ == self.kind.lower(),
    {
        self.kind.lower_str()
    }

    /// The attachment as shown.
    pub fn attachment_text(&self) -> (s: String)
        ensures
            s@ == attachment_shown(self.attachment@),
    {
        attachment_text(self.attachment.as_slice())
    }
}

impl Default for SampleInfo {
    fn default() -> (i: SampleInfo)
        ensures
            i.key@ == "demo"@,
            i.encoding.id == 0,
            i.encoding.schema is None,
            i.kind == SampleKind::Put,
            i.timestamp is None,
            i.congestion_control == ZCongestionControl::Block,
            i.priority == ZPriority::RealTime,
            i.reliability == ZReliability::Reliable,
            !i.express,
            i.source_info.view() == (None::<Seq<char>>, None::<u32>),
            i.attachment@.len() == 0,
    {
        SampleInfo {
            key: "demo".to_owned(),
            encoding: Encoding { id: 0, schema: None },
            kind: SampleKind::Put,
            timestamp: None,
            congestion_control: ZCongestionControl::Block,
            priority: ZPriority::RealTime,
            reliability: ZReliability::Reliable,
            express: false,
            source_info: SourceInfo { source_id: None, source_sn: None },
            attachment: Vec::new(),
        }
    }
}

/// The sample window.
pub struct SampleViewer {
    pub selected_page: SampleViewerPage,
    pub sample_info: SampleInfo,
    pub hex_view: HexViewer,
    pub data_viewer: DataViewer,
}

impl SampleViewer {
    /// The window is freshly opened on `sample`: the tab of the read
    /// payload, the sample's description, its bytes in a fresh hex view,
    /// and its payload read by its encoding.
    pub open spec fn opened_on(&self, sample: Sample) -> bool {
        &&& self.selected_page == SampleViewerPage::Parse
        &&& self.sample_info.describes(sample)
        &&& shows_fresh(self.hex_view, sample.payload@)
        &&& shows(self.data_viewer, sample.encoding.id, sample.payload@)
    }

    /// The window of `sample`, on its read payload.
    pub fn new_from_sample(sample: &Sample) -> (v: SampleViewer)
        ensures
            v.opened_on(*sample),
    {
        let sample_info = SampleInfo::new_from(sample);
        let data_viewer = DataViewer::load(&sample.encoding, sample.payload.as_slice());
        let hex_view = HexViewer::new(slice_to_vec(sample.payload.as_slice()));
        SampleViewer { selected_page: SampleViewerPage::Parse, sample_info, hex_view, data_viewer }
    }

    /// The window of a payload `data` described by `base_info`, on the read
    /// payload.
    pub fn new(base_info: SampleInfo, data: Vec<u8>) -> (v: SampleViewer)
        ensures
            v.selected_page == SampleViewerPage::Parse,
            v.sample_info == base_info,
            shows_fresh(v.hex_view, data@),
            shows(v.data_viewer, base_info.encoding.id, data@),
    {
        let viewer_data = DataViewer::load(&base_info.encoding, data.as_slice());
        let hex_view = HexViewer::new(data);
        SampleViewer { selected_page: SampleViewerPage::Parse, sample_info: base_info, hex_view, data_viewer: viewer_data }
    }

    /// The "parse" and "raw" tabs.
    pub fn select_page(&mut self, page: SampleViewerPage)
        ensures
            *final(self) == (SampleViewer { selected_page: page, ..*old(self) }),
    {
        self.selected_page = page;
    }
}

impl Default for SampleViewer {
    fn default() -> (v: SampleViewer)
        ensures
            v.selected_page == SampleViewerPage::Raw,
            shows_fresh(v.hex_view, Seq::empty()),
            v.data_viewer is Bin,
    {
        SampleViewer {
            selected_page: SampleViewerPage::Raw,
            sample_info: SampleInfo::default(),
            hex_view: HexViewer::new(Vec::new()),
            data_viewer: DataViewer::Bin,
        }
    }
}

} // verus!
