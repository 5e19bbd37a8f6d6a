//! The data viewer: how a payload is shown, chosen by its encoding, as
//! text, JSON, a picture, or just its kind.

use vstd::prelude::*;
use vstd::utf8::{valid_utf8, decode_utf8};
use vstd::slice::slice_to_vec;
use crate::image_data::{image_kind_of, ImageKind, RgbaImage, load_image as decode_picture};
use crate::outside::{image_decoding, json5_parse, json5_pretty_text, json5_reading, json_parse, json_pretty_text, json_reading, utf8_decode, utf8_error_text};
use crate::zenoh_data::{encoding_of_id, Encoding, KnownEncoding};

verus! {

/// The tab of a JSON payload shown: its text, its pretty-printed form, or
/// its tree.
#[derive(Copy, Clone, Debug, PartialEq, Eq, Structural)]
pub enum ViewerJsonPage {
    Source,
    Format,
    Tree,
}

/// How a payload is shown.
pub enum DataViewer {
    Bin,
    Text(String),
    Json {
        selected_page: ViewerJsonPage,
        source: String,
        format: String,
        serde_json_value: serde_json::Value,
    },
    Image {
        image: RgbaImage,
    },
    Audio,
    Video,
    Error(String),
}

/// The way a payload of some encoding is read for showing.
#[derive(Copy, Clone, Debug, PartialEq, Eq, Structural)]
pub enum ViewKind {
    Bin,
    Text,
    Json,
    Json5,
    Image,
    Audio,
    Video,
}

/// The way a payload of encoding `k` is read for showing.
pub open spec fn view_kind_of(k: KnownEncoding) -> ViewKind {
    match k {
        KnownEncoding::ZString => ViewKind::Text,
        KnownEncoding::TextPlain => ViewKind::Text,
        KnownEncoding::AppJson => ViewKind::Json,
        KnownEncoding::TextJson => ViewKind::Json,
        KnownEncoding::AppYaml => ViewKind::Text,
        KnownEncoding::TextYaml => ViewKind::Text,
        KnownEncoding::TextJson5 => ViewKind::Json5,
        KnownEncoding::ImagePng => ViewKind::Image,
        KnownEncoding::ImageJpeg => ViewKind::Image,
        KnownEncoding::ImageGif => ViewKind::Image,
        KnownEncoding::ImageBmp => ViewKind::Image,
        KnownEncoding::ImageWebP => ViewKind::Image,
        KnownEncoding::AppXml => ViewKind::Text,
        KnownEncoding::TextHtml => ViewKind::Text,
        KnownEncoding::TextXml => ViewKind::Text,
        KnownEncoding::TextCss => ViewKind::Text,
        KnownEncoding::TextJavascript => ViewKind::Text,
        KnownEncoding::TextMarkdown => ViewKind::Text,
        KnownEncoding::TextCsv => ViewKind::Text,
        KnownEncoding::AppSql => ViewKind::Text,
        KnownEncoding::AppJsonPathJson => ViewKind::Text,
        KnownEncoding::AppJsonSeq => ViewKind::Text,
        KnownEncoding::AppJsonPath => ViewKind::Text,
        KnownEncoding::AppSoapXml => ViewKind::Text,
        KnownEncoding::AudioAac => ViewKind::Audio,
        KnownEncoding::AudioFlac => ViewKind::Audio,
        KnownEncoding::AudioMp4 => ViewKind::Audio,
        KnownEncoding::AudioOgg => ViewKind::Audio,
        KnownEncoding::AudioVorbis => ViewKind::Audio,
        KnownEncoding::VideoH261 => ViewKind::Video,
        KnownEncoding::VideoH263 => ViewKind::Video,
        KnownEncoding::VideoH264 => ViewKind::Video,
        KnownEncoding::VideoH265 => ViewKind::Video,
        KnownEncoding::VideoH266 => ViewKind::Video,
        KnownEncoding::VideoMp4 => ViewKind::Video,
        KnownEncoding::VideoOgg => ViewKind::Video,
        KnownEncoding::VideoRaw => ViewKind::Video,
        KnownEncoding::VideoVp8 => ViewKind::Video,
        KnownEncoding::VideoVp9 => ViewKind::Video,
        _ => ViewKind::Bin,
    }
}

/// The way a payload of encoding `k` is read for showing.
pub fn view_kind(k: KnownEncoding) -> (v: ViewKind)
    ensures
        v == view_kind_of(k),
{
    match k {
        KnownEncoding::ZString => ViewKind::Text,
        KnownEncoding::TextPlain => ViewKind::Text,
        KnownEncoding::AppJson => ViewKind::Json,
        KnownEncoding::TextJson => ViewKind::Json,
        KnownEncoding::AppYaml => ViewKind::Text,
        KnownEncoding::TextYaml => ViewKind::Text,
        KnownEncoding::TextJson5 => ViewKind::Json5,
        KnownEncoding::ImagePng => ViewKind::Image,
        KnownEncoding::ImageJpeg => ViewKind::Image,
        KnownEncoding::ImageGif => ViewKind::Image,
        KnownEncoding::ImageBmp => ViewKind::Image,
        KnownEncoding::ImageWebP => ViewKind::Image,
        KnownEncoding::AppXml => ViewKind::Text,
        KnownEncoding::TextHtml => ViewKind::Text,
        KnownEncoding::TextXml => ViewKind::Text,
        KnownEncoding::TextCss => ViewKind::Text,
        KnownEncoding::TextJavascript => ViewKind::Text,
        KnownEncoding::TextMarkdown => ViewKind::Text,
        KnownEncoding::TextCsv => ViewKind::Text,
        KnownEncoding::AppSql => ViewKind::Text,
        KnownEncoding::AppJsonPathJson => ViewKind::Text,
        KnownEncoding::AppJsonSeq => ViewKind::Text,
        KnownEncoding::AppJsonPath => ViewKind::Text,
        KnownEncoding::AppSoapXml => ViewKind::Text,
        KnownEncoding::AudioAac => ViewKind::Audio,
        KnownEncoding::AudioFlac => ViewKind::Audio,
        KnownEncoding::AudioMp4 => ViewKind::Audio,
        KnownEncoding::AudioOgg => ViewKind::Audio,
        KnownEncoding::AudioVorbis => ViewKind::Audio,
        KnownEncoding::VideoH261 => ViewKind::Video,
        KnownEncoding::VideoH263 => ViewKind::Video,
        KnownEncoding::VideoH264 => ViewKind::Video,
        KnownEncoding::VideoH265 => ViewKind::Video,
        KnownEncoding::VideoH266 => ViewKind::Video,
        KnownEncoding::VideoMp4 => ViewKind::Video,
        KnownEncoding::VideoOgg => ViewKind::Video,
        KnownEncoding::VideoRaw => ViewKind::Video,
        KnownEncoding::VideoVp8 => ViewKind::Video,
        KnownEncoding::VideoVp9 => ViewKind::Video,
        _ => ViewKind::Bin,
    }
}

/// `v` shows `data`, read as text: the text when it is UTF-8, else the
/// error.
pub open spec fn shows_text(v: DataViewer, data: Seq<u8>) -> bool {
    if valid_utf8(data) {
        v matches DataViewer::Text(s) && s@ == decode_utf8(data)
    } else {
        v matches DataViewer::Error(e) && e@ == utf8_error_text(data)
    }
}

/// `v` shows `data` read as JSON (or JSON5 when `five`): the text on its
/// source tab, with its pretty-printed form, when it is UTF-8 and reads as
/// such, else the error. The JSON value it also holds is carried as the
/// reading gave it.
pub open spec fn shows_json(v: DataViewer, data: Seq<u8>, five: bool) -> bool {
    if !valid_utf8(data) {
        v matches DataViewer::Error(e) && e@ == utf8_error_text(data)
    } else {
        let text = decode_utf8(data);
        let reading = if five { json5_reading(text) } else { json_reading(text) };
        let pretty = if five { json5_pretty_text(text) } else { json_pretty_text(text) };
        match reading {
            Ok(_) => v matches DataViewer::Json { selected_page, source, format, .. }
                && selected_page == ViewerJsonPage::Source && source@ == text && format@ == pretty,
            Err(e) => v matches DataViewer::Error(m) && m@ == e,
        }
    }
}

/// `v` shows `data` as a picture of encoding `k`, or the error.
pub open spec fn shows_image(v: DataViewer, k: KnownEncoding, data: Seq<u8>) -> bool {
    match image_kind_of(k) {
        None => v matches DataViewer::Error(e) && e@ == "not image"@,
        Some(format) => match image_decoding(format, data) {
            Ok((w, h, pixels)) => v matches DataViewer::Image { image } && image.width == w && image.height == h
                && image.pixels@ == pixels,
            Err(e) => v matches DataViewer::Error(m) && m@ == e,
        },
    }
}

/// `v` shows a payload of encoding number `id` holding `data`.
pub open spec fn shows(v: DataViewer, id: u16, data: Seq<u8>) -> bool {
    match view_kind_of(encoding_of_id(id)) {
        ViewKind::Bin => v is Bin,
        ViewKind::Text => shows_text(v, data),
        ViewKind::Json => shows_json(v, data, false),
        ViewKind::Json5 => shows_json(v, data, true),
        ViewKind::Image => shows_image(v, encoding_of_id(id), data),
        ViewKind::Audio => v is Audio,
        ViewKind::Video => v is Video,
    }
}

/// How a payload is shown, by its encoding's number: the text encodings
/// (zenoh/string, text/plain, the YAML, XML, HTML, CSS, JavaScript,
/// Markdown, CSV, SQL, JSON path and sequence and SOAP encodings) as their
/// text, or the UTF-8 error; application/json and text/json, and text/json5,
/// as JSON (or JSON5) that reads, with its text on the source tab, or an
/// error; image/png, image/jpeg, image/gif, image/bmp and image/webp as the
/// picture decoded in that format, or the decoding error; audio and video
/// as such; everything else as bytes.
pub proof fn lemma_view_by_number(v: DataViewer, id: u16, data: Seq<u8>)
    requires
        shows(v, id, data),
    ensures
        (id == 1 || id == 4 || id == 9 || id == 10 || id == 21 || (23 <= id && id <= 29) || id == 31 || id == 32
            || id == 33 || id == 36) ==> if valid_utf8(data) {
            v matches DataViewer::Text(s) && s@ == decode_utf8(data)
        } else {
            v is Error
        },
        (id == 5 || id == 6) ==> if valid_utf8(data) && json_reading(decode_utf8(data)) is Ok {
            v matches DataViewer::Json { selected_page, source, .. } && selected_page == ViewerJsonPage::Source
                && source@ == decode_utf8(data)
        } else {
            v is Error
        },
        id == 11 ==> if valid_utf8(data) && json5_reading(decode_utf8(data)) is Ok {
            v matches DataViewer::Json { selected_page, source, .. } && selected_page == ViewerJsonPage::Source
                && source@ == decode_utf8(data)
        } else {
            v is Error
        },
        (16 <= id && id <= 20) ==> ({
            let format = if id == 16 {
                ImageKind::Png
            } else if id == 17 {
                ImageKind::Jpeg
            } else if id == 18 {
                ImageKind::Gif
            } else if id == 19 {
                ImageKind::Bmp
            } else {
                ImageKind::WebP
            };
            match image_decoding(format, data) {
                Ok((w, h, pixels)) => v matches DataViewer::Image { image } && image.width == w && image.height == h
                    && image.pixels@ == pixels,
                Err(e) => v matches DataViewer::Error(m) && m@ == e,
            }
        }),
        (38 <= id && id <= 42) ==> v is Audio,
        (43 <= id && id <= 52) ==> v is Video,
        (id == 0 || id == 2 || id == 3 || id == 7 || id == 8 || (12 <= id && id <= 15) || id == 22 || id == 30
            || id == 34 || id == 35 || id == 37 || id >= 53) ==> v is Bin,
{
}

impl DataViewer {
    /// The view of a payload of the given encoding.
    pub fn load(encoding: &Encoding, data: &[u8]) -> (v: DataViewer)
        ensures
            shows(v, encoding.id, data@),
    {
        let known_encoding = KnownEncoding::from_encoding(encoding);
        match view_kind(known_encoding) {
            ViewKind::Bin => DataViewer::Bin,
            ViewKind::Text => Self::load_text(data),
            ViewKind::Json => match Self::load_json(data) {
                Ok(v) => v,
                Err(v) => v,
            },
            ViewKind::Json5 => match Self::load_json5(data) {
                Ok(v) => v,
                Err(v) => v,
            },
            ViewKind::Image => Self::load_image(known_encoding, data),
            ViewKind::Audio => DataViewer::Audio,
            ViewKind::Video => DataViewer::Video,
        }
    }

    /// The payload as text.
    pub fn load_text(data: &[u8]) -> (v: DataViewer)
        ensures
            shows_text(v, data@),
    {
        match utf8_decode(slice_to_vec(data)) {
            Ok(d) => DataViewer::Text(d),
            Err(e) => DataViewer::Error(e),
        }
    }

    /// The payload as JSON; the error view when it is not.
    pub fn load_json(data: &[u8]) -> (r: Result<DataViewer, DataViewer>)
        ensures
            match r {
                Ok(v) => shows_json(v, data@, false) && v is Json,
                Err(v) => shows_json(v, data@, false) && v is Error,
            },
    {
        let source = match utf8_decode(slice_to_vec(data)) {
            Ok(s) => s,
            Err(e) => {
                return Err(DataViewer::Error(e));
            },
        };
        let (v, format) = match json_parse(source.as_str()) {
            Ok(o) => o,
            Err(e) => {
                return Err(DataViewer::Error(e));
            },
        };
        Ok(DataViewer::Json { selected_page: ViewerJsonPage::Source, source, format, serde_json_value: v })
    }

    /// The payload as JSON5; the error view when it is not.
    pub fn load_json5(data: &[u8]) -> (r: Result<DataViewer, DataViewer>)
        ensures
            match r {
                Ok(v) => shows_json(v, data@, true) && v is Json,
                Err(v) => shows_json(v, data@, true) && v is Error,
            },
    {
        let source = match utf8_decode(slice_to_vec(data)) {
            Ok(s) => s,
            Err(e) => {
                return Err(DataViewer::Error(e));
            },
        };
        let (v, format) = match json5_parse(source.as_str()) {
            Ok(o) => o,
            Err(e) => {
                return Err(DataViewer::Error(e));
            },
        };
        Ok(DataViewer::Json { selected_page: ViewerJsonPage::Source, source, format, serde_json_value: v })
    }

    /// The payload as a picture in the format of its encoding.
    pub fn load_image(known_encoding: KnownEncoding, data: &[u8]) -> (v: DataViewer)
        ensures
            shows_image(v, known_encoding, data@),
    {
        let format: ImageKind = match ImageKind::from_encoding(known_encoding) {
            Some(f) => f,
            None => {
                return DataViewer::Error("not image".to_owned());
            },
        };
        match decode_picture(format, data) {
            Ok(image) => DataViewer::Image { image },
            Err(e) => DataViewer::Error(e),
        }
    }

    /// The tabs of a JSON payload; other views have none.
    pub fn select_json_page(&mut self, page: ViewerJsonPage)
        ensures
            match *old(self) {
                DataViewer::Json { source, format, .. } => *final(self) matches DataViewer::Json { selected_page, source: s2, format: f2, .. }
                    && selected_page == page && s2 == source && f2 == format,
                _ => *final(self) == *old(self),
            },
    {
        if let DataViewer::Json { selected_page, .. } = self {
            *selected_page = page;
        }
    }
}

} // verus!
