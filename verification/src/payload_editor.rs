//! The payload editor: an encoding, and a payload typed as text or as hex
//! digits, or loaded from a file, turned into the bytes to send.

use vstd::prelude::*;
use vstd::utf8::{valid_utf8, encode_utf8};
use vstd::slice::slice_to_vec;
use crate::hex_viewer::HexViewer;
use crate::image_data::{image_kind_of, ImageKind, RgbaImage, load_image};
use crate::outside::{hex_bytes, hex_decode, hex_error_text, human_size, human_size_text, image_decoding, is_hex_text, utf8_decode, utf8_error_text};
use crate::text::{concat, opt_bytes_view, opt_str_view, remove_blanks, strip_blanks};
use crate::zenoh_data::{encoding_of_id, encoding_id, Encoding, KnownEncoding};

verus! {

/// Where the payload comes from: the text typed in, or a file.
#[derive(Copy, Clone, Debug, PartialEq, Eq, Structural)]
pub enum DataLoadMode {
    String,
    File,
}

impl DataLoadMode {
    /// The label of the mode.
    pub open spec fn label(self) -> Seq<char> {
        match self {
            DataLoadMode::String => "parsing from string"@,
            DataLoadMode::File => "load from file"@,
        }
    }

    /// The label of the mode.
    pub fn to_str(&self) -> (s: &'static str)
        ensures
            s@ == self.label(),
    {
        match self {
            DataLoadMode::String => "parsing from string",
            DataLoadMode::File => "load from file",
        }
    }
}

/// The tab shown: the source of the payload, or its bytes in hex.
#[derive(Copy, Clone, Debug, PartialEq, Eq, Structural)]
pub enum Page {
    Source,
    Hex,
}

/// How a payload of an encoding is edited: as text, as bytes written in
/// hex digits, or as a picture file.
#[derive(Copy, Clone, Debug, PartialEq, Eq, Structural)]
pub enum EditorKind {
    Text,
    Binary,
    Image,
}

/// How a payload of encoding `k` is edited.
pub open spec fn editor_kind_of(k: KnownEncoding) -> EditorKind {
    match k {
        KnownEncoding::ZString => EditorKind::Text,
        KnownEncoding::TextPlain => EditorKind::Text,
        KnownEncoding::AppJson => EditorKind::Text,
        KnownEncoding::TextJson => EditorKind::Text,
        KnownEncoding::AppYaml => EditorKind::Text,
        KnownEncoding::TextYaml => EditorKind::Text,
        KnownEncoding::TextJson5 => EditorKind::Text,
        KnownEncoding::AppOpenMetricsText => EditorKind::Text,
        KnownEncoding::ImagePng => EditorKind::Image,
        KnownEncoding::ImageJpeg => EditorKind::Image,
        KnownEncoding::ImageGif => EditorKind::Image,
        KnownEncoding::ImageBmp => EditorKind::Image,
        KnownEncoding::ImageWebP => EditorKind::Image,
        KnownEncoding::AppXml => EditorKind::Text,
        KnownEncoding::AppXWwwFormUrlencoded => EditorKind::Text,
        KnownEncoding::TextHtml => EditorKind::Text,
        KnownEncoding::TextXml => EditorKind::Text,
        KnownEncoding::TextCss => EditorKind::Text,
        KnownEncoding::TextJavascript => EditorKind::Text,
        KnownEncoding::TextMarkdown => EditorKind::Text,
        KnownEncoding::TextCsv => EditorKind::Text,
        KnownEncoding::AppSql => EditorKind::Text,
        KnownEncoding::AppJsonPathJson => EditorKind::Text,
        KnownEncoding::AppJsonSeq => EditorKind::Text,
        KnownEncoding::AppJsonPath => EditorKind::Text,
        KnownEncoding::AppSoapXml => EditorKind::Text,
        _ => EditorKind::Binary,
    }
}

/// How a payload of encoding `k` is edited.
pub fn editor_kind(k: KnownEncoding) -> (e: EditorKind)
    ensures
        e == editor_kind_of(k),
{
    match k {
        KnownEncoding::ZString => EditorKind::Text,
        KnownEncoding::TextPlain => EditorKind::Text,
        KnownEncoding::AppJson => EditorKind::Text,
        KnownEncoding::TextJson => EditorKind::Text,
        KnownEncoding::AppYaml => EditorKind::Text,
        KnownEncoding::TextYaml => EditorKind::Text,
        KnownEncoding::TextJson5 => EditorKind::Text,
        KnownEncoding::AppOpenMetricsText => EditorKind::Text,
        KnownEncoding::ImagePng => EditorKind::Image,
        KnownEncoding::ImageJpeg => EditorKind::Image,
        KnownEncoding::ImageGif => EditorKind::Image,
        KnownEncoding::ImageBmp => EditorKind::Image,
        KnownEncoding::ImageWebP => EditorKind::Image,
        KnownEncoding::AppXml => EditorKind::Text,
        KnownEncoding::AppXWwwFormUrlencoded => EditorKind::Text,
        KnownEncoding::TextHtml => EditorKind::Text,
        KnownEncoding::TextXml => EditorKind::Text,
        KnownEncoding::TextCss => EditorKind::Text,
        KnownEncoding::TextJavascript => EditorKind::Text,
        KnownEncoding::TextMarkdown => EditorKind::Text,
        KnownEncoding::TextCsv => EditorKind::Text,
        KnownEncoding::AppSql => EditorKind::Text,
        KnownEncoding::AppJsonPathJson => EditorKind::Text,
        KnownEncoding::AppJsonSeq => EditorKind::Text,
        KnownEncoding::AppJsonPath => EditorKind::Text,
        KnownEncoding::AppSoapXml => EditorKind::Text,
        _ => EditorKind::Binary,
    }
}

/// The bytes that hex text `s` stands for once its blanks are removed, or
/// the message of the decoding error.
pub open spec fn parsed_hex(s: Seq<char>) -> Result<Seq<u8>, Seq<char>> {
    let b = encode_utf8(strip_blanks(s));
    if is_hex_text(b) {
        Ok(hex_bytes(b))
    } else if b.len() % 2 != 0 {
        Err("Odd number of digits"@)
    } else {
        Err(hex_error_text(b))
    }
}

/// The bytes written in hex digits in `s`, which may hold blanks (space,
/// tab, line feed, carriage return) anywhere.
pub fn parse_str_to_vec(s: &str) -> (r: Result<Vec<u8>, String>)
    ensures
        match r {
            Ok(v) => parsed_hex(s@) == Ok::<Seq<u8>, Seq<char>>(v@),
            Err(e) => parsed_hex(s@) == Err::<Seq<u8>, Seq<char>>(e@),
        },
{
    let buf = remove_blanks(s);
    hex_decode(buf.as_str().as_bytes())
}

/// The note that a size was read, such as "load file ok, data size 4.0K".
pub open spec fn size_note(prefix: Seq<char>, size: nat) -> Seq<char> {
    prefix + human_size_text(size as u64)
}

/// `prefix` followed by the size of `n` bytes.
fn size_message(prefix: &str, n: usize) -> (s: String)
    ensures
        s@ == size_note(prefix@, n as nat),
{
    concat(prefix, human_size(n as u64).as_str())
}

/// The payload editor.
pub struct PayloadEdit {
    pub encoding_id: u16,
    pub encoding_schema: String,
    pub page: Page,
    pub data_load_mode: DataLoadMode,
    pub payload_str: String,
    pub file_path_str: String,
    pub file_path: Option<String>,
    pub file_load_result: Option<Result<String, String>>,
    pub parse_str_result: Option<Result<String, String>>,
    pub hex_view: HexViewer,
    pub image: Option<RgbaImage>,
}

/// The stored form of the editor.
pub struct ArchivePayloadEdit {
    pub encoding_id: u16,
    pub encoding_schema: String,
    pub page: Page,
    pub data_load_mode: DataLoadMode,
    pub payload_str: String,
    pub file_path_str: String,
}

/// What a result note says, as text.
pub open spec fn note_view(r: Option<Result<String, String>>) -> Option<Result<Seq<char>, Seq<char>>> {
    match r {
        Some(Ok(s)) => Some(Ok(s@)),
        Some(Err(e)) => Some(Err(e@)),
        None => None,
    }
}

/// The text of a read of a file: its bytes, or the message of the error.
pub open spec fn read_view(r: Result<Vec<u8>, String>) -> Result<Seq<u8>, Seq<char>> {
    match r {
        Ok(v) => Ok(v@),
        Err(e) => Err(e@),
    }
}

/// The hex viewer shows `data` from its start.
pub open spec fn shows_fresh(h: HexViewer, data: Seq<u8>) -> bool {
    &&& h.bytes() == data
    &&& h.spec_offset() == 0
    &&& h.spec_page() == 0
    &&& h.columns() == 8
}

/// The payload that the editor gives, by its encoding's number. For the
/// text encodings (zenoh/string, text/plain, application/json, text/json,
/// the YAML, JSON5, OpenMetrics, XML, form, HTML, CSS, JavaScript, Markdown,
/// CSV, SQL, JSON path and sequence and SOAP encodings), typed text is sent
/// as its UTF-8 bytes whenever it is not empty, and a picked file when it is
/// UTF-8. For image/png, image/jpeg, image/gif, image/bmp and image/webp the
/// payload is always the picked file's bytes, when they decode as a picture
/// of that format, never typed text. For every other encoding typed text
/// is read as hex digits, and a payload is given exactly when it is not
/// empty and reads as such; a picked file is sent as it is.
pub proof fn lemma_payload_by_number(e: PayloadEdit, read: Result<Vec<u8>, String>)
    ensures
        ({
            let id = e.encoding_id;
            let file_bytes = if read is Ok { read.unwrap()@ } else { Seq::<u8>::empty() };
            let text = id == 1 || id == 4 || id == 5 || id == 6 || id == 9 || id == 10 || id == 11 || id == 15
                || id == 21 || (22 <= id && id <= 29) || id == 31 || id == 32 || id == 33 || id == 36;
            let picture = 16 <= id && id <= 20;
            &&& text && e.data_load_mode == DataLoadMode::String ==> {
                &&& e.gives_value(read) == (e.payload_str@.len() > 0)
                &&& e.value_payload(read) == encode_utf8(e.payload_str@)
            }
            &&& text && e.data_load_mode == DataLoadMode::File ==> {
                &&& e.gives_value(read) == (e.file_path is Some && read is Ok && valid_utf8(file_bytes))
                &&& e.value_payload(read) == file_bytes
            }
            &&& picture ==> {
                let format = if id == 16 {
                    ImageKind::Png
                } else if id == 17 {
                    ImageKind::Jpeg
                } else if id == 18 {
                    ImageKind::Gif
                } else if id == 19 {
                    ImageKind::Bmp
                } else {
                    ImageKind::WebP
                };
                &&& e.gives_value(read) == (e.file_path is Some && read is Ok && image_decoding(format, file_bytes) is Ok)
                &&& e.value_payload(read) == file_bytes
            }
            &&& !text && !picture && e.data_load_mode == DataLoadMode::String ==> {
                &&& e.gives_value(read) == (e.payload_str@.len() > 0 && parsed_hex(e.payload_str@) is Ok)
                &&& parsed_hex(e.payload_str@) matches Ok(bytes) ==> e.value_payload(read) == bytes
            }
            &&& !text && !picture && e.data_load_mode == DataLoadMode::File ==> {
                &&& e.gives_value(read) == (e.file_path is Some && read is Ok)
                &&& e.value_payload(read) == file_bytes
            }
        }),
{
}

impl PayloadEdit {
    /// The settings that the stored form keeps.
    pub open spec fn archive_view(&self) -> (u16, Seq<char>, Page, DataLoadMode, Seq<char>, Seq<char>) {
        (self.encoding_id, self.encoding_schema@, self.page, self.data_load_mode, self.payload_str@,
            match self.file_path {
                Some(p) => p@,
                None => Seq::empty(),
            })
    }

    /// The encoding the payload is sent with: its number, and the bytes of
    /// its schema unless that is empty.
    pub open spec fn encoding_view(&self) -> (u16, Option<Seq<u8>>) {
        (self.encoding_id, if self.encoding_schema@.len() == 0 { None } else { Some(encode_utf8(self.encoding_schema@)) })
    }

    /// The stored settings of a new editor.
    pub open spec fn default_view() -> (u16, Seq<char>, Page, DataLoadMode, Seq<char>, Seq<char>) {
        (encoding_id(KnownEncoding::TextPlain), Seq::empty(), Page::Source, DataLoadMode::String, Seq::empty(), Seq::empty())
    }

    /// Whether getting the payload gives one, `read` being what reading
    /// the picked file gave: typed text that is not empty, typed hex digits
    /// that are not empty and read as such, or a picked file that reads
    /// (as UTF-8 text for text, as a picture for pictures).
    pub open spec fn gives_value(&self, read: Result<Vec<u8>, String>) -> bool {
        match self.kind() {
            EditorKind::Text => if self.data_load_mode == DataLoadMode::String {
                self.payload_str@.len() > 0
            } else {
                self.file_path is Some && (read matches Ok(bytes) && valid_utf8(bytes@))
            },
            EditorKind::Binary => if self.data_load_mode == DataLoadMode::String {
                self.payload_str@.len() > 0 && parsed_hex(self.payload_str@) is Ok
            } else {
                self.file_path is Some && read is Ok
            },
            EditorKind::Image => match (image_kind_of(encoding_of_id(self.encoding_id)), read_view(read)) {
                (Some(format), Ok(bytes)) => self.file_path is Some && image_decoding(format, bytes) is Ok,
                _ => false,
            },
        }
    }

    /// The payload's bytes when getting it gives one: the typed text, the
    /// bytes of the typed hex digits, or the bytes of the picked file.
    pub open spec fn value_payload(&self, read: Result<Vec<u8>, String>) -> Seq<u8> {
        let file_bytes = match read {
            Ok(bytes) => bytes@,
            Err(_) => Seq::empty(),
        };
        match self.kind() {
            EditorKind::Text => if self.data_load_mode == DataLoadMode::String {
                encode_utf8(self.payload_str@)
            } else {
                file_bytes
            },
            EditorKind::Binary => if self.data_load_mode == DataLoadMode::String {
                match parsed_hex(self.payload_str@) {
                    Ok(bytes) => bytes,
                    Err(_) => Seq::empty(),
                }
            } else {
                file_bytes
            },
            EditorKind::Image => file_bytes,
        }
    }

    /// How this editor's payload is edited.
    pub open spec fn kind(&self) -> EditorKind {
        editor_kind_of(encoding_of_id(self.encoding_id))
    }

    /// Every note, the hex view and the picture cleared before a load.
    pub open spec fn reset_for_load(&self, old: PayloadEdit) -> bool {
        &&& self.encoding_id == old.encoding_id
        &&& self.encoding_schema == old.encoding_schema
        &&& self.page == old.page
        &&& self.data_load_mode == old.data_load_mode
        &&& self.payload_str == old.payload_str
        &&& self.file_path_str == old.file_path_str
        &&& self.file_path == old.file_path
        &&& self.image is None
    }

    /// An editor of plain text with nothing typed.
    pub fn new() -> (p: PayloadEdit)
        ensures
            p.encoding_id == encoding_id(KnownEncoding::TextPlain),
            p.encoding_schema@.len() == 0,
            p.page == Page::Source,
            p.data_load_mode == DataLoadMode::String,
            p.payload_str@.len() == 0,
            p.file_path_str@.len() == 0,
            p.file_path is None,
            p.file_load_result is None,
            p.parse_str_result is None,
            shows_fresh(p.hex_view, Seq::empty()),
            p.image is None,
    {
        PayloadEdit {
            encoding_id: KnownEncoding::TextPlain.to_u16(),
            encoding_schema: String::new(),
            page: Page::Source,
            data_load_mode: DataLoadMode::String,
            payload_str: String::new(),
            file_path_str: String::new(),
            file_path: None,
            file_load_result: None,
            parse_str_result: None,
            hex_view: HexViewer::default(),
            image: None,
        }
    }

    /// How this editor's payload is edited.
    pub fn editor_kind(&self) -> (e: EditorKind)
        ensures
            e == self.kind(),
    {
        editor_kind(KnownEncoding::from_u16(self.encoding_id))
    }

    /// The encoding number selector, which offers 0 to 1023.
    pub fn set_encoding_id(&mut self, id: u16)
        ensures
            final(self).encoding_id == (if id > 1023 { 1023 } else { id }),
            *final(self) == (PayloadEdit { encoding_id: final(self).encoding_id, ..*old(self) }),
    {
        self.encoding_id = if id > 1023 { 1023 } else { id };
    }

    /// A file picked in the file dialog.
    pub fn set_file_path(&mut self, path: Option<String>)
        ensures
            *final(self) == (PayloadEdit { file_path: path, ..*old(self) }),
    {
        self.file_path = path;
    }

    /// The path shown follows the file picked, and is emptied when none is.
    pub fn sync_file_path_str(&mut self)
        ensures
            final(self).file_path_str@ == (match old(self).file_path {
                Some(p) => p@,
                None => Seq::empty(),
            }),
            *final(self) == (PayloadEdit { file_path_str: final(self).file_path_str, ..*old(self) }),
    {
        match &self.file_path {
            Some(p) => {
                self.file_path_str = p.clone();
            },
            None => {
                self.file_path_str = String::new();
            },
        }
    }

    /// The "source" and "hex" tabs of the binary and picture editors.
    pub fn select_page(&mut self, page: Page)
        ensures
            *final(self) == (PayloadEdit { page, ..*old(self) }),
    {
        self.page = page;
    }

    /// The "hex" tab of the text editor: the typed text is shown in hex
    /// when it is the source of the payload.
    pub fn select_text_hex_page(&mut self)
        ensures
            final(self).page == Page::Hex,
            old(self).data_load_mode == DataLoadMode::String ==> shows_fresh(final(self).hex_view, encode_utf8(old(self).payload_str@)),
            old(self).data_load_mode == DataLoadMode::File ==> final(self).hex_view == old(self).hex_view,
            *final(self) == (PayloadEdit { page: Page::Hex, hex_view: final(self).hex_view, ..*old(self) }),
    {
        self.page = Page::Hex;
        if self.data_load_mode == DataLoadMode::String {
            self.hex_view = HexViewer::new(slice_to_vec(self.payload_str.as_str().as_bytes()));
        }
    }

    /// Whether getting the payload reads the picked file: in file mode for
    /// text and bytes, and always for pictures.
    pub open spec fn reads_file(&self) -> bool {
        match self.kind() {
            EditorKind::Image => image_kind_of(encoding_of_id(self.encoding_id)) is Some && self.file_path is Some,
            _ => self.data_load_mode == DataLoadMode::File && self.file_path is Some,
        }
    }

    /// Whether getting the payload reads the picked file.
    pub fn needs_file(&self) -> (b: bool)
        ensures
            b == self.reads_file(),
    {
        match self.editor_kind() {
            EditorKind::Image => {
                ImageKind::from_encoding(KnownEncoding::from_u16(self.encoding_id)).is_some() && self.file_path.is_some()
            },
            _ => self.data_load_mode == DataLoadMode::File && self.file_path.is_some(),
        }
    }

    /// Clears the notes, the hex view and the picture before a load.
    fn reset(&mut self)
        ensures
            final(self).reset_for_load(*old(self)),
            final(self).parse_str_result is None,
            final(self).file_load_result is None,
            shows_fresh(final(self).hex_view, Seq::empty()),
    {
        self.parse_str_result = None;
        self.file_load_result = None;
        self.hex_view = HexViewer::default();
        self.image = None;
    }

    /// The "parse" button: the typed hex digits become the payload, and a
    /// note says how many bytes they gave or why they could not be read.
    pub fn binary_parse_str(&mut self) -> (r: Option<Vec<u8>>)
        ensures
            final(self).reset_for_load(*old(self)),
            final(self).file_load_result is None,
            old(self).payload_str@.len() == 0 ==> {
                &&& r is None
                &&& note_view(final(self).parse_str_result) == Some(Ok::<Seq<char>, Seq<char>>("no data"@))
                &&& shows_fresh(final(self).hex_view, Seq::empty())
            },
            old(self).payload_str@.len() > 0 ==> match parsed_hex(old(self).payload_str@) {
                Ok(bytes) => {
                    &&& r matches Some(v) && v@ == bytes
                    &&& note_view(final(self).parse_str_result) == Some(Ok::<Seq<char>, Seq<char>>(size_note("parse ok, data size "@, bytes.len())))
                    &&& shows_fresh(final(self).hex_view, bytes)
                },
                Err(e) => {
                    &&& r is None
                    &&& note_view(final(self).parse_str_result) == Some(Err::<Seq<char>, Seq<char>>("parse error, "@ + e))
                    &&& shows_fresh(final(self).hex_view, Seq::empty())
                },
            },
    {
        self.reset();
        if self.payload_str.as_str().is_empty() {
            self.parse_str_result = Some(Ok("no data".to_owned()));
            return None;
        }
        match parse_str_to_vec(self.payload_str.as_str()) {
            Ok(o) => {
                self.parse_str_result = Some(Ok(size_message("parse ok, data size ", o.len())));
                self.hex_view = HexViewer::new(slice_to_vec(o.as_slice()));
                Some(o)
            },
            Err(e) => {
                self.parse_str_result = Some(Err(concat("parse error, ", e.as_str())));
                None
            },
        }
    }

    /// The "load" button of the text editor: the picked file, which must
    /// hold UTF-8 text, becomes the payload; `read` is what reading that
    /// file gave. A note says how many bytes it held or why it could not
    /// be used.
    pub fn string_load_file(&mut self, read: Result<Vec<u8>, String>) -> (r: Option<Vec<u8>>)
        ensures
            final(self).reset_for_load(*old(self)),
            final(self).parse_str_result is None,
            r is Some ==> shows_fresh(final(self).hex_view, r->0@),
            r is None ==> shows_fresh(final(self).hex_view, Seq::empty()),
            match (old(self).file_path, read_view(read)) {
                (None, _) => r is None
                    && note_view(final(self).file_load_result) == Some(Err::<Seq<char>, Seq<char>>("no file selected"@)),
                (Some(_), Err(e)) => r is None
                    && note_view(final(self).file_load_result) == Some(Err::<Seq<char>, Seq<char>>("load file error, "@ + e)),
                (Some(_), Ok(bytes)) => if valid_utf8(bytes) {
                    &&& r matches Some(v) && v@ == bytes
                    &&& note_view(final(self).file_load_result) == Some(Ok::<Seq<char>, Seq<char>>(size_note("load file ok, data size "@, bytes.len())))
                } else {
                    &&& r is None
                    &&& note_view(final(self).file_load_result) == Some(Err::<Seq<char>, Seq<char>>("load file error, "@ + utf8_error_text(bytes)))
                },
            },
    {
        self.reset();
        if self.file_path.is_none() {
            self.file_load_result = Some(Err("no file selected".to_owned()));
            return None;
        }
        match read {
            Ok(o) => {
                let n = o.len();
                let copy = slice_to_vec(o.as_slice());
                match utf8_decode(o) {
                    Err(e) => {
                        self.file_load_result = Some(Err(concat("load file error, ", e.as_str())));
                        None
                    },
                    Ok(_) => {
                        self.file_load_result = Some(Ok(size_message("load file ok, data size ", n)));
                        self.hex_view = HexViewer::new(slice_to_vec(copy.as_slice()));
                        Some(copy)
                    },
                }
            },
            Err(e) => {
                self.file_load_result = Some(Err(concat("load file error, ", e.as_str())));
                None
            },
        }
    }

    /// The "load" button of the binary editor: the picked file becomes the
    /// payload; `read` is what reading that file gave.
    pub fn binary_load_file(&mut self, read: Result<Vec<u8>, String>) -> (r: Option<Vec<u8>>)
        ensures
            final(self).reset_for_load(*old(self)),
            final(self).parse_str_result is None,
            r is Some ==> shows_fresh(final(self).hex_view, r->0@),
            r is None ==> shows_fresh(final(self).hex_view, Seq::empty()),
            match (old(self).file_path, read_view(read)) {
                (None, _) => r is None
                    && note_view(final(self).file_load_result) == Some(Err::<Seq<char>, Seq<char>>("no file selected"@)),
                (Some(_), Err(e)) => r is None
                    && note_view(final(self).file_load_result) == Some(Err::<Seq<char>, Seq<char>>("load file error, "@ + e)),
                (Some(_), Ok(bytes)) => {
                    &&& r matches Some(v) && v@ == bytes
                    &&& note_view(final(self).file_load_result) == Some(Ok::<Seq<char>, Seq<char>>(size_note("load file ok, data size "@, bytes.len())))
                },
            },
    {
        self.reset();
        if self.file_path.is_none() {
            self.file_load_result = Some(Err("no file selected".to_owned()));
            return None;
        }
        match read {
            Ok(o) => {
                self.file_load_result = Some(Ok(size_message("load file ok, data size ", o.len())));
                self.hex_view = HexViewer::new(slice_to_vec(o.as_slice()));
                Some(o)
            },
            Err(e) => {
                self.file_load_result = Some(Err(concat("load file error, ", e.as_str())));
                None
            },
        }
    }

    /// The "load" button of the picture editor: the picked file, decoded
    /// in the format that the encoding names, becomes the payload and the
    /// picture shown; `read` is what reading that file gave. Nothing is
    /// loaded when the encoding names no picture format.
    pub fn image_load_file(&mut self, read: Result<Vec<u8>, String>) -> (r: Option<Vec<u8>>)
        ensures
            final(self).encoding_id == old(self).encoding_id,
            final(self).encoding_schema == old(self).encoding_schema,
            final(self).page == old(self).page,
            final(self).data_load_mode == old(self).data_load_mode,
            final(self).payload_str == old(self).payload_str,
            final(self).file_path_str == old(self).file_path_str,
            final(self).file_path == old(self).file_path,
            final(self).parse_str_result is None,
            r is Some ==> shows_fresh(final(self).hex_view, r->0@),
            r is None ==> shows_fresh(final(self).hex_view, Seq::empty()),
            match (image_kind_of(encoding_of_id(old(self).encoding_id)), old(self).file_path, read_view(read)) {
                (None, _, _) => r is None && final(self).file_load_result is None && final(self).image is None,
                (Some(_), None, _) => r is None && final(self).image is None
                    && note_view(final(self).file_load_result) == Some(Err::<Seq<char>, Seq<char>>("no file selected"@)),
                (Some(_), Some(_), Err(e)) => r is None && final(self).image is None
                    && note_view(final(self).file_load_result) == Some(Err::<Seq<char>, Seq<char>>("load image error, "@ + e)),
                (Some(format), Some(_), Ok(bytes)) => match image_decoding(format, bytes) {
                    Ok((w, h, pixels)) => {
                        &&& r matches Some(v) && v@ == bytes
                        &&& final(self).image matches Some(img) && img.width == w && img.height == h && img.pixels@ == pixels
                        &&& note_view(final(self).file_load_result) == Some(Ok::<Seq<char>, Seq<char>>(size_note("load image ok, data size "@, bytes.len())))
                    },
                    Err(e) => r is None && final(self).image is None
                        && note_view(final(self).file_load_result) == Some(Err::<Seq<char>, Seq<char>>("load image error, "@ + e)),
                },
            },
    {
        self.reset();
        let format = match ImageKind::from_encoding(KnownEncoding::from_u16(self.encoding_id)) {
            Some(f) => f,
            None => {
                return None;
            },
        };
        if self.file_path.is_none() {
            self.file_load_result = Some(Err("no file selected".to_owned()));
            return None;
        }
        match read {
            Ok(data) => match load_image(format, data.as_slice()) {
                Ok(img) => {
                    self.image = Some(img);
                    self.file_load_result = Some(Ok(size_message("load image ok, data size ", data.len())));
                    self.hex_view = HexViewer::new(slice_to_vec(data.as_slice()));
                    Some(data)
                },
                Err(e) => {
                    self.file_load_result = Some(Err(concat("load image error, ", e.as_str())));
                    None
                },
            },
            Err(e) => {
                self.file_load_result = Some(Err(concat("load image error, ", e.as_str())));
                None
            },
        }
    }

    /// The payload of a text encoding: the typed text, which must not be
    /// empty, shown in hex; or the picked file.
    pub fn get_string_zbytes(&mut self, read: Result<Vec<u8>, String>) -> (r: Option<Vec<u8>>)
        ensures
            old(self).data_load_mode == DataLoadMode::String ==> {
                if old(self).payload_str@.len() == 0 {
                    r is None && *final(self) == *old(self)
                } else {
                    &&& r matches Some(v) && v@ == encode_utf8(old(self).payload_str@)
                    &&& shows_fresh(final(self).hex_view, encode_utf8(old(self).payload_str@))
                    &&& *final(self) == (PayloadEdit { hex_view: final(self).hex_view, ..*old(self) })
                }
            },
            old(self).data_load_mode == DataLoadMode::File ==> {
                &&& final(self).reset_for_load(*old(self))
                &&& final(self).parse_str_result is None
                &&& match (old(self).file_path, read_view(read)) {
                    (None, _) => r is None
                        && note_view(final(self).file_load_result) == Some(Err::<Seq<char>, Seq<char>>("no file selected"@)),
                    (Some(_), Err(e)) => r is None
                        && note_view(final(self).file_load_result) == Some(Err::<Seq<char>, Seq<char>>("load file error, "@ + e)),
                    (Some(_), Ok(bytes)) => if valid_utf8(bytes) {
                        r matches Some(v) && v@ == bytes
                    } else {
                        r is None
                    },
                }
            },
    {
        match self.data_load_mode {
            DataLoadMode::String => {
                if self.payload_str.as_str().is_empty() {
                    None
                } else {
                    let data = slice_to_vec(self.payload_str.as_str().as_bytes());
                    self.hex_view = HexViewer::new(slice_to_vec(data.as_slice()));
                    Some(data)
                }
            },
            DataLoadMode::File => self.string_load_file(read),
        }
    }

    /// The payload of a binary encoding: the typed hex digits or the
    /// picked file.
    pub fn get_binary_zbytes(&mut self, read: Result<Vec<u8>, String>) -> (r: Option<Vec<u8>>)
        ensures
            final(self).reset_for_load(*old(self)),
            old(self).data_load_mode == DataLoadMode::String ==> {
                &&& final(self).file_load_result is None
                &&& if old(self).payload_str@.len() == 0 {
                    r is None
                } else {
                    match parsed_hex(old(self).payload_str@) {
                        Ok(bytes) => r matches Some(v) && v@ == bytes,
                        Err(_) => r is None,
                    }
                }
            },
            old(self).data_load_mode == DataLoadMode::File ==> {
                &&& final(self).parse_str_result is None
                &&& match (old(self).file_path, read) {
                    (Some(_), Ok(bytes)) => r matches Some(v) && v@ == bytes@,
                    _ => r is None,
                }
            },
    {
        match self.data_load_mode {
            DataLoadMode::String => self.binary_parse_str(),
            DataLoadMode::File => self.binary_load_file(read),
        }
    }

    /// The payload of a picture encoding: the picked file, when it decodes.
    pub fn get_image_zbytes(&mut self, read: Result<Vec<u8>, String>) -> (r: Option<Vec<u8>>)
        ensures
            final(self).encoding_id == old(self).encoding_id,
            final(self).encoding_schema == old(self).encoding_schema,
            final(self).payload_str == old(self).payload_str,
            final(self).file_path == old(self).file_path,
            final(self).data_load_mode == old(self).data_load_mode,
            final(self).page == old(self).page,
            match (image_kind_of(encoding_of_id(old(self).encoding_id)), old(self).file_path, read_view(read)) {
                (Some(format), Some(_), Ok(bytes)) => match image_decoding(format, bytes) {
                    Ok(_) => r matches Some(v) && v@ == bytes,
                    Err(_) => r is None,
                },
                _ => r is None,
            },
    {
        self.image_load_file(read)
    }

    /// The value to send: the payload got as the encoding's editor gets it,
    /// with the encoding's number and, unless it is empty, its schema;
    /// nothing when there is no payload. `read` is what reading the picked
    /// file gave, used only when the payload comes from that file.
    pub fn get_zenoh_value(&mut self, read: Result<Vec<u8>, String>) -> (r: Option<(Encoding, Vec<u8>)>)
        ensures
            final(self).encoding_id == old(self).encoding_id,
            final(self).encoding_schema == old(self).encoding_schema,
            final(self).payload_str == old(self).payload_str,
            final(self).file_path == old(self).file_path,
            final(self).data_load_mode == old(self).data_load_mode,
            final(self).page == old(self).page,
            r is Some == old(self).gives_value(read),
            r matches Some((e, payload)) ==> {
                &&& (e.id, opt_bytes_view(e.schema)) == old(self).encoding_view()
                &&& payload@ == old(self).value_payload(read)
            },
    {
        let payload = match self.editor_kind() {
            EditorKind::Text => self.get_string_zbytes(read),
            EditorKind::Binary => self.get_binary_zbytes(read),
            EditorKind::Image => self.get_image_zbytes(read),
        };
        match payload {
            Some(data) => {
                let schema = if self.encoding_schema.as_str().is_empty() {
                    None
                } else {
                    Some(slice_to_vec(self.encoding_schema.as_str().as_bytes()))
                };
                Some((Encoding { id: self.encoding_id, schema }, data))
            },
            None => None,
        }
    }

    /// A copy of the editor's settings and picked file, with no notes, an
    /// empty hex view and no picture.
    pub fn duplicate(&self) -> (p: PayloadEdit)
        ensures
            p.encoding_id == self.encoding_id,
            p.encoding_schema@ == self.encoding_schema@,
            p.page == self.page,
            p.data_load_mode == self.data_load_mode,
            p.payload_str@ == self.payload_str@,
            p.file_path_str@ == self.file_path_str@,
            opt_str_view(p.file_path) == opt_str_view(self.file_path),
            p.file_load_result is None,
            p.parse_str_result is None,
            shows_fresh(p.hex_view, Seq::empty()),
            p.image is None,
    {
        let file_path = match &self.file_path {
            Some(s) => Some(s.clone()),
            None => None,
        };
        PayloadEdit {
            encoding_id: self.encoding_id,
            encoding_schema: self.encoding_schema.clone(),
            page: self.page,
            data_load_mode: self.data_load_mode,
            payload_str: self.payload_str.clone(),
            file_path_str: self.file_path_str.clone(),
            file_path,
            file_load_result: None,
            parse_str_result: None,
            hex_view: HexViewer::default(),
            image: None,
        }
    }

    /// The stored form of the editor; the path kept is that of the picked
    /// file.
    pub fn to_archive(&self) -> (a: ArchivePayloadEdit)
        ensures
            a.view() == self.archive_view(),
    {
        let file_path_str = match &self.file_path {
            Some(s) => s.clone(),
            None => String::new(),
        };
        ArchivePayloadEdit {
            encoding_id: self.encoding_id,
            encoding_schema: self.encoding_schema.clone(),
            page: self.page,
            data_load_mode: self.data_load_mode,
            payload_str: self.payload_str.clone(),
            file_path_str,
        }
    }

    /// An editor from its stored form; an empty path means that no file
    /// is picked. This never fails.
    pub fn from_archive(value: ArchivePayloadEdit) -> (r: Result<PayloadEdit, String>)
        ensures
            r matches Ok(p) && {
                                &&& p.archive_view() == value.view()
                &&& p.file_path_str@ == value.file_path_str@
                &&& p.file_load_result is None
                &&& p.parse_str_result is None
                &&& shows_fresh(p.hex_view, Seq::empty())
                &&& p.image is None
            },
    {
        let file_path = if value.file_path_str.as_str().is_empty() {
            None
        } else {
            Some(value.file_path_str.clone())
        };
        Ok(PayloadEdit {
            encoding_id: value.encoding_id,
            encoding_schema: value.encoding_schema,
            page: value.page,
            data_load_mode: value.data_load_mode,
            payload_str: value.payload_str,
            file_path_str: value.file_path_str,
            file_path,
            file_load_result: None,
            parse_str_result: None,
            hex_view: HexViewer::default(),
            image: None,
        })
    }
}

impl Default for PayloadEdit {
    fn default() -> (p: PayloadEdit)
        ensures
            p.encoding_id == encoding_id(KnownEncoding::TextPlain),
            p.encoding_schema@.len() == 0,
            p.page == Page::Source,
            p.data_load_mode == DataLoadMode::String,
            p.payload_str@.len() == 0,
            p.file_path is None,
            p.archive_view() == PayloadEdit::default_view(),
    {
        PayloadEdit::new()
    }
}

impl ArchivePayloadEdit {
    /// The stored settings.
    pub open spec fn view(&self) -> (u16, Seq<char>, Page, DataLoadMode, Seq<char>, Seq<char>) {
        (self.encoding_id, self.encoding_schema@, self.page, self.data_load_mode, self.payload_str@, self.file_path_str@)
    }
}

} // verus!
