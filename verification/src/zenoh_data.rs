use vstd::prelude::*;
use vstd::utf8::{valid_utf8, decode_utf8};
use vstd::slice::slice_to_vec;
use crate::outside::utf8_decode;
use crate::text::result_view;

verus! {

/// The encodings that zenoh knows by number. Any other number is kept,
/// unchanged, in `Other`.
#[derive(Copy, Clone, Debug, PartialEq, Eq, Structural)]
pub enum KnownEncoding {
    ZBytes,
    ZString,
    ZSerialized,
    AppOctetStream,
    TextPlain,
    AppJson,
    TextJson,
    AppCdr,
    AppCbor,
    AppYaml,
    TextYaml,
    TextJson5,
    AppPythonSerializedObject,
    AppProtobuf,
    AppJavaSerializedObject,
    AppOpenMetricsText,
    ImagePng,
    ImageJpeg,
    ImageGif,
    ImageBmp,
    ImageWebP,
    AppXml,
    AppXWwwFormUrlencoded,
    TextHtml,
    TextXml,
    TextCss,
    TextJavascript,
    TextMarkdown,
    TextCsv,
    AppSql,
    AppCoapPayload,
    AppJsonPathJson,
    AppJsonSeq,
    AppJsonPath,
    AppJwt,
    AppMp4,
    AppSoapXml,
    AppYang,
    AudioAac,
    AudioFlac,
    AudioMp4,
    AudioOgg,
    AudioVorbis,
    VideoH261,
    VideoH263,
    VideoH264,
    VideoH265,
    VideoH266,
    VideoMp4,
    VideoOgg,
    VideoRaw,
    VideoVp8,
    VideoVp9,
    Other(u16),
}

/// How many encodings have a name of their own; they are numbered from 0.
pub const KNOWN_ENCODING_COUNT: u16 = 53;

/// The number that stands for an encoding.
pub open spec fn encoding_id(k: KnownEncoding) -> u16 {
    match k {
        KnownEncoding::ZBytes => 0u16,
        KnownEncoding::ZString => 1u16,
        KnownEncoding::ZSerialized => 2u16,
        KnownEncoding::AppOctetStream => 3u16,
        KnownEncoding::TextPlain => 4u16,
        KnownEncoding::AppJson => 5u16,
        KnownEncoding::TextJson => 6u16,
        KnownEncoding::AppCdr => 7u16,
        KnownEncoding::AppCbor => 8u16,
        KnownEncoding::AppYaml => 9u16,
        KnownEncoding::TextYaml => 10u16,
        KnownEncoding::TextJson5 => 11u16,
        KnownEncoding::AppPythonSerializedObject => 12u16,
        KnownEncoding::AppProtobuf => 13u16,
        KnownEncoding::AppJavaSerializedObject => 14u16,
        KnownEncoding::AppOpenMetricsText => 15u16,
        KnownEncoding::ImagePng => 16u16,
        KnownEncoding::ImageJpeg => 17u16,
        KnownEncoding::ImageGif => 18u16,
        KnownEncoding::ImageBmp => 19u16,
        KnownEncoding::ImageWebP => 20u16,
        KnownEncoding::AppXml => 21u16,
        KnownEncoding::AppXWwwFormUrlencoded => 22u16,
        KnownEncoding::TextHtml => 23u16,
        KnownEncoding::TextXml => 24u16,
        KnownEncoding::TextCss => 25u16,
        KnownEncoding::TextJavascript => 26u16,
        KnownEncoding::TextMarkdown => 27u16,
        KnownEncoding::TextCsv => 28u16,
        KnownEncoding::AppSql => 29u16,
        KnownEncoding::AppCoapPayload => 30u16,
        KnownEncoding::AppJsonPathJson => 31u16,
        KnownEncoding::AppJsonSeq => 32u16,
        KnownEncoding::AppJsonPath => 33u16,
        KnownEncoding::AppJwt => 34u16,
        KnownEncoding::AppMp4 => 35u16,
        KnownEncoding::AppSoapXml => 36u16,
        KnownEncoding::AppYang => 37u16,
        KnownEncoding::AudioAac => 38u16,
        KnownEncoding::AudioFlac => 39u16,
        KnownEncoding::AudioMp4 => 40u16,
        KnownEncoding::AudioOgg => 41u16,
        KnownEncoding::AudioVorbis => 42u16,
        KnownEncoding::VideoH261 => 43u16,
        KnownEncoding::VideoH263 => 44u16,
        KnownEncoding::VideoH264 => 45u16,
        KnownEncoding::VideoH265 => 46u16,
        KnownEncoding::VideoH266 => 47u16,
        KnownEncoding::VideoMp4 => 48u16,
        KnownEncoding::VideoOgg => 49u16,
        KnownEncoding::VideoRaw => 50u16,
        KnownEncoding::VideoVp8 => 51u16,
        KnownEncoding::VideoVp9 => 52u16,
        KnownEncoding::Other(id) => id,
    }
}

/// The encoding that a number stands for: the named one for a number below
/// `KNOWN_ENCODING_COUNT`, `Other` for any larger one.
pub open spec fn encoding_of_id(id: u16) -> KnownEncoding {
    match id {
        0u16 => KnownEncoding::ZBytes,
        1u16 => KnownEncoding::ZString,
        2u16 => KnownEncoding::ZSerialized,
        3u16 => KnownEncoding::AppOctetStream,
        4u16 => KnownEncoding::TextPlain,
        5u16 => KnownEncoding::AppJson,
        6u16 => KnownEncoding::TextJson,
        7u16 => KnownEncoding::AppCdr,
        8u16 => KnownEncoding::AppCbor,
        9u16 => KnownEncoding::AppYaml,
        10u16 => KnownEncoding::TextYaml,
        11u16 => KnownEncoding::TextJson5,
        12u16 => KnownEncoding::AppPythonSerializedObject,
        13u16 => KnownEncoding::AppProtobuf,
        14u16 => KnownEncoding::AppJavaSerializedObject,
        15u16 => KnownEncoding::AppOpenMetricsText,
        16u16 => KnownEncoding::ImagePng,
        17u16 => KnownEncoding::ImageJpeg,
        18u16 => KnownEncoding::ImageGif,
        19u16 => KnownEncoding::ImageBmp,
        20u16 => KnownEncoding::ImageWebP,
        21u16 => KnownEncoding::AppXml,
        22u16 => KnownEncoding::AppXWwwFormUrlencoded,
        23u16 => KnownEncoding::TextHtml,
        24u16 => KnownEncoding::TextXml,
        25u16 => KnownEncoding::TextCss,
        26u16 => KnownEncoding::TextJavascript,
        27u16 => KnownEncoding::TextMarkdown,
        28u16 => KnownEncoding::TextCsv,
        29u16 => KnownEncoding::AppSql,
        30u16 => KnownEncoding::AppCoapPayload,
        31u16 => KnownEncoding::AppJsonPathJson,
        32u16 => KnownEncoding::AppJsonSeq,
        33u16 => KnownEncoding::AppJsonPath,
        34u16 => KnownEncoding::AppJwt,
        35u16 => KnownEncoding::AppMp4,
        36u16 => KnownEncoding::AppSoapXml,
        37u16 => KnownEncoding::AppYang,
        38u16 => KnownEncoding::AudioAac,
        39u16 => KnownEncoding::AudioFlac,
        40u16 => KnownEncoding::AudioMp4,
        41u16 => KnownEncoding::AudioOgg,
        42u16 => KnownEncoding::AudioVorbis,
        43u16 => KnownEncoding::VideoH261,
        44u16 => KnownEncoding::VideoH263,
        45u16 => KnownEncoding::VideoH264,
        46u16 => KnownEncoding::VideoH265,
        47u16 => KnownEncoding::VideoH266,
        48u16 => KnownEncoding::VideoMp4,
        49u16 => KnownEncoding::VideoOgg,
        50u16 => KnownEncoding::VideoRaw,
        51u16 => KnownEncoding::VideoVp8,
        52u16 => KnownEncoding::VideoVp9,
        _ => KnownEncoding::Other(id),
    }
}

/// Reading a number as an encoding and writing it back gives the number.
pub proof fn lemma_id_round_trip(id: u16)
    ensures
        encoding_id(encoding_of_id(id)) == id,
{
}

/// Writing an encoding as its number and reading it back gives the
/// encoding, unless it is an `Other` that holds the number of a named one.
pub proof fn lemma_encoding_round_trip(k: KnownEncoding)
    requires
        k matches KnownEncoding::Other(x) ==> x >= KNOWN_ENCODING_COUNT,
    ensures
        encoding_of_id(encoding_id(k)) == k,
{
}

/// Each named encoding has zenoh's number for it, and each of those
/// numbers is read back as that encoding.
pub proof fn lemma_encoding_numbers()
    ensures
        encoding_id(KnownEncoding::ZBytes) == 0u16,
        encoding_id(KnownEncoding::ZString) == 1u16,
        encoding_id(KnownEncoding::ZSerialized) == 2u16,
        encoding_id(KnownEncoding::AppOctetStream) == 3u16,
        encoding_id(KnownEncoding::TextPlain) == 4u16,
        encoding_id(KnownEncoding::AppJson) == 5u16,
        encoding_id(KnownEncoding::TextJson) == 6u16,
        encoding_id(KnownEncoding::AppCdr) == 7u16,
        encoding_id(KnownEncoding::AppCbor) == 8u16,
        encoding_id(KnownEncoding::AppYaml) == 9u16,
        encoding_id(KnownEncoding::TextYaml) == 10u16,
        encoding_id(KnownEncoding::TextJson5) == 11u16,
        encoding_id(KnownEncoding::AppPythonSerializedObject) == 12u16,
        encoding_id(KnownEncoding::AppProtobuf) == 13u16,
        encoding_id(KnownEncoding::AppJavaSerializedObject) == 14u16,
        encoding_id(KnownEncoding::AppOpenMetricsText) == 15u16,
        encoding_id(KnownEncoding::ImagePng) == 16u16,
        encoding_id(KnownEncoding::ImageJpeg) == 17u16,
        encoding_id(KnownEncoding::ImageGif) == 18u16,
        encoding_id(KnownEncoding::ImageBmp) == 19u16,
        encoding_id(KnownEncoding::ImageWebP) == 20u16,
        encoding_id(KnownEncoding::AppXml) == 21u16,
        encoding_id(KnownEncoding::AppXWwwFormUrlencoded) == 22u16,
        encoding_id(KnownEncoding::TextHtml) == 23u16,
        encoding_id(KnownEncoding::TextXml) == 24u16,
        encoding_id(KnownEncoding::TextCss) == 25u16,
        encoding_id(KnownEncoding::TextJavascript) == 26u16,
        encoding_id(KnownEncoding::TextMarkdown) == 27u16,
        encoding_id(KnownEncoding::TextCsv) == 28u16,
        encoding_id(KnownEncoding::AppSql) == 29u16,
        encoding_id(KnownEncoding::AppCoapPayload) == 30u16,
        encoding_id(KnownEncoding::AppJsonPathJson) == 31u16,
        encoding_id(KnownEncoding::AppJsonSeq) == 32u16,
        encoding_id(KnownEncoding::AppJsonPath) == 33u16,
        encoding_id(KnownEncoding::AppJwt) == 34u16,
        encoding_id(KnownEncoding::AppMp4) == 35u16,
        encoding_id(KnownEncoding::AppSoapXml) == 36u16,
        encoding_id(KnownEncoding::AppYang) == 37u16,
        encoding_id(KnownEncoding::AudioAac) == 38u16,
        encoding_id(KnownEncoding::AudioFlac) == 39u16,
        encoding_id(KnownEncoding::AudioMp4) == 40u16,
        encoding_id(KnownEncoding::AudioOgg) == 41u16,
        encoding_id(KnownEncoding::AudioVorbis) == 42u16,
        encoding_id(KnownEncoding::VideoH261) == 43u16,
        encoding_id(KnownEncoding::VideoH263) == 44u16,
        encoding_id(KnownEncoding::VideoH264) == 45u16,
        encoding_id(KnownEncoding::VideoH265) == 46u16,
        encoding_id(KnownEncoding::VideoH266) == 47u16,
        encoding_id(KnownEncoding::VideoMp4) == 48u16,
        encoding_id(KnownEncoding::VideoOgg) == 49u16,
        encoding_id(KnownEncoding::VideoRaw) == 50u16,
        encoding_id(KnownEncoding::VideoVp8) == 51u16,
        encoding_id(KnownEncoding::VideoVp9) == 52u16,
        encoding_of_id(0u16) == KnownEncoding::ZBytes,
        encoding_of_id(1u16) == KnownEncoding::ZString,
        encoding_of_id(2u16) == KnownEncoding::ZSerialized,
        encoding_of_id(3u16) == KnownEncoding::AppOctetStream,
        encoding_of_id(4u16) == KnownEncoding::TextPlain,
        encoding_of_id(5u16) == KnownEncoding::AppJson,
        encoding_of_id(6u16) == KnownEncoding::TextJson,
        encoding_of_id(7u16) == KnownEncoding::AppCdr,
        encoding_of_id(8u16) == KnownEncoding::AppCbor,
        encoding_of_id(9u16) == KnownEncoding::AppYaml,
        encoding_of_id(10u16) == KnownEncoding::TextYaml,
        encoding_of_id(11u16) == KnownEncoding::TextJson5,
        encoding_of_id(12u16) == KnownEncoding::AppPythonSerializedObject,
        encoding_of_id(13u16) == KnownEncoding::AppProtobuf,
        encoding_of_id(14u16) == KnownEncoding::AppJavaSerializedObject,
        encoding_of_id(15u16) == KnownEncoding::AppOpenMetricsText,
        encoding_of_id(16u16) == KnownEncoding::ImagePng,
        encoding_of_id(17u16) == KnownEncoding::ImageJpeg,
        encoding_of_id(18u16) == KnownEncoding::ImageGif,
        encoding_of_id(19u16) == KnownEncoding::ImageBmp,
        encoding_of_id(20u16) == KnownEncoding::ImageWebP,
        encoding_of_id(21u16) == KnownEncoding::AppXml,
        encoding_of_id(22u16) == KnownEncoding::AppXWwwFormUrlencoded,
        encoding_of_id(23u16) == KnownEncoding::TextHtml,
        encoding_of_id(24u16) == KnownEncoding::TextXml,
        encoding_of_id(25u16) == KnownEncoding::TextCss,
        encoding_of_id(26u16) == KnownEncoding::TextJavascript,
        encoding_of_id(27u16) == KnownEncoding::TextMarkdown,
        encoding_of_id(28u16) == KnownEncoding::TextCsv,
        encoding_of_id(29u16) == KnownEncoding::AppSql,
        encoding_of_id(30u16) == KnownEncoding::AppCoapPayload,
        encoding_of_id(31u16) == KnownEncoding::AppJsonPathJson,
        encoding_of_id(32u16) == KnownEncoding::AppJsonSeq,
        encoding_of_id(33u16) == KnownEncoding::AppJsonPath,
        encoding_of_id(34u16) == KnownEncoding::AppJwt,
        encoding_of_id(35u16) == KnownEncoding::AppMp4,
        encoding_of_id(36u16) == KnownEncoding::AppSoapXml,
        encoding_of_id(37u16) == KnownEncoding::AppYang,
        encoding_of_id(38u16) == KnownEncoding::AudioAac,
        encoding_of_id(39u16) == KnownEncoding::AudioFlac,
        encoding_of_id(40u16) == KnownEncoding::AudioMp4,
        encoding_of_id(41u16) == KnownEncoding::AudioOgg,
        encoding_of_id(42u16) == KnownEncoding::AudioVorbis,
        encoding_of_id(43u16) == KnownEncoding::VideoH261,
        encoding_of_id(44u16) == KnownEncoding::VideoH263,
        encoding_of_id(45u16) == KnownEncoding::VideoH264,
        encoding_of_id(46u16) == KnownEncoding::VideoH265,
        encoding_of_id(47u16) == KnownEncoding::VideoH266,
        encoding_of_id(48u16) == KnownEncoding::VideoMp4,
        encoding_of_id(49u16) == KnownEncoding::VideoOgg,
        encoding_of_id(50u16) == KnownEncoding::VideoRaw,
        encoding_of_id(51u16) == KnownEncoding::VideoVp8,
        encoding_of_id(52u16) == KnownEncoding::VideoVp9,
        forall|id: u16| id >= 53 ==> encoding_of_id(id) == KnownEncoding::Other(id),
{
}

/// The summary of a payload by its encoding's number: the payloads of
/// zenoh/string, text/plain, application/json, text/json, the YAML, JSON5,
/// XML, HTML, CSS, JavaScript, Markdown, CSV, SQL and JSON path and sequence
/// encodings are text, shown in full when shorter than 30 bytes (an error
/// when they are not UTF-8); every other payload is summarised as "...".
pub proof fn lemma_summary_by_number(id: u16, data: Seq<u8>)
    ensures
        ({
            let text = id == 1 || id == 4 || id == 5 || id == 6 || id == 9 || id == 10 || id == 11 || id == 21
                || (23 <= id && id <= 29) || id == 31 || id == 32 || id == 33;
            value_abstract(id, data) == if text && data.len() < 30 {
                if valid_utf8(data) { Ok(decode_utf8(data)) } else { Err("parse error"@) }
            } else {
                Ok("..."@)
            }
        }),
{
}

impl KnownEncoding {
    /// The encoding that the number `id` stands for.
    pub fn from_u16(id: u16) -> (k: KnownEncoding)
        ensures
            k == encoding_of_id(id),
    {
        match id {
            0 => KnownEncoding::ZBytes,
            1 => KnownEncoding::ZString,
            2 => KnownEncoding::ZSerialized,
            3 => KnownEncoding::AppOctetStream,
            4 => KnownEncoding::TextPlain,
            5 => KnownEncoding::AppJson,
            6 => KnownEncoding::TextJson,
            7 => KnownEncoding::AppCdr,
            8 => KnownEncoding::AppCbor,
            9 => KnownEncoding::AppYaml,
            10 => KnownEncoding::TextYaml,
            11 => KnownEncoding::TextJson5,
            12 => KnownEncoding::AppPythonSerializedObject,
            13 => KnownEncoding::AppProtobuf,
            14 => KnownEncoding::AppJavaSerializedObject,
            15 => KnownEncoding::AppOpenMetricsText,
            16 => KnownEncoding::ImagePng,
            17 => KnownEncoding::ImageJpeg,
            18 => KnownEncoding::ImageGif,
            19 => KnownEncoding::ImageBmp,
            20 => KnownEncoding::ImageWebP,
            21 => KnownEncoding::AppXml,
            22 => KnownEncoding::AppXWwwFormUrlencoded,
            23 => KnownEncoding::TextHtml,
            24 => KnownEncoding::TextXml,
            25 => KnownEncoding::TextCss,
            26 => KnownEncoding::TextJavascript,
            27 => KnownEncoding::TextMarkdown,
            28 => KnownEncoding::TextCsv,
            29 => KnownEncoding::AppSql,
            30 => KnownEncoding::AppCoapPayload,
            31 => KnownEncoding::AppJsonPathJson,
            32 => KnownEncoding::AppJsonSeq,
            33 => KnownEncoding::AppJsonPath,
            34 => KnownEncoding::AppJwt,
            35 => KnownEncoding::AppMp4,
            36 => KnownEncoding::AppSoapXml,
            37 => KnownEncoding::AppYang,
            38 => KnownEncoding::AudioAac,
            39 => KnownEncoding::AudioFlac,
            40 => KnownEncoding::AudioMp4,
            41 => KnownEncoding::AudioOgg,
            42 => KnownEncoding::AudioVorbis,
            43 => KnownEncoding::VideoH261,
            44 => KnownEncoding::VideoH263,
            45 => KnownEncoding::VideoH264,
            46 => KnownEncoding::VideoH265,
            47 => KnownEncoding::VideoH266,
            48 => KnownEncoding::VideoMp4,
            49 => KnownEncoding::VideoOgg,
            50 => KnownEncoding::VideoRaw,
            51 => KnownEncoding::VideoVp8,
            52 => KnownEncoding::VideoVp9,
            _ => KnownEncoding::Other(id),
        }
    }

    /// The number that stands for this encoding.
    pub fn to_u16(&self) -> (id: u16)
        ensures
            id == encoding_id(*self),
    {
        match *self {
            KnownEncoding::ZBytes => 0,
            KnownEncoding::ZString => 1,
            KnownEncoding::ZSerialized => 2,
            KnownEncoding::AppOctetStream => 3,
            KnownEncoding::TextPlain => 4,
            KnownEncoding::AppJson => 5,
            KnownEncoding::TextJson => 6,
            KnownEncoding::AppCdr => 7,
            KnownEncoding::AppCbor => 8,
            KnownEncoding::AppYaml => 9,
            KnownEncoding::TextYaml => 10,
            KnownEncoding::TextJson5 => 11,
            KnownEncoding::AppPythonSerializedObject => 12,
            KnownEncoding::AppProtobuf => 13,
            KnownEncoding::AppJavaSerializedObject => 14,
            KnownEncoding::AppOpenMetricsText => 15,
            KnownEncoding::ImagePng => 16,
            KnownEncoding::ImageJpeg => 17,
            KnownEncoding::ImageGif => 18,
            KnownEncoding::ImageBmp => 19,
            KnownEncoding::ImageWebP => 20,
            KnownEncoding::AppXml => 21,
            KnownEncoding::AppXWwwFormUrlencoded => 22,
            KnownEncoding::TextHtml => 23,
            KnownEncoding::TextXml => 24,
            KnownEncoding::TextCss => 25,
            KnownEncoding::TextJavascript => 26,
            KnownEncoding::TextMarkdown => 27,
            KnownEncoding::TextCsv => 28,
            KnownEncoding::AppSql => 29,
            KnownEncoding::AppCoapPayload => 30,
            KnownEncoding::AppJsonPathJson => 31,
            KnownEncoding::AppJsonSeq => 32,
            KnownEncoding::AppJsonPath => 33,
            KnownEncoding::AppJwt => 34,
            KnownEncoding::AppMp4 => 35,
            KnownEncoding::AppSoapXml => 36,
            KnownEncoding::AppYang => 37,
            KnownEncoding::AudioAac => 38,
            KnownEncoding::AudioFlac => 39,
            KnownEncoding::AudioMp4 => 40,
            KnownEncoding::AudioOgg => 41,
            KnownEncoding::AudioVorbis => 42,
            KnownEncoding::VideoH261 => 43,
            KnownEncoding::VideoH263 => 44,
            KnownEncoding::VideoH264 => 45,
            KnownEncoding::VideoH265 => 46,
            KnownEncoding::VideoH266 => 47,
            KnownEncoding::VideoMp4 => 48,
            KnownEncoding::VideoOgg => 49,
            KnownEncoding::VideoRaw => 50,
            KnownEncoding::VideoVp8 => 51,
            KnownEncoding::VideoVp9 => 52,
            KnownEncoding::Other(id) => id,
        }
    }
}

/// An encoding as zenoh carries it: its number and an optional schema.
pub struct Encoding {
    pub id: u16,
    pub schema: Option<Vec<u8>>,
}

impl Encoding {
    /// A copy of the encoding.
    pub fn duplicate(&self) -> (e: Encoding)
        ensures
            e.id == self.id,
            crate::text::opt_bytes_view(e.schema) == crate::text::opt_bytes_view(self.schema),
    {
        let schema = match &self.schema {
            Some(v) => Some(slice_to_vec(v.as_slice())),
            None => None,
        };
        Encoding { id: self.id, schema }
    }
}

impl KnownEncoding {
    /// The known encoding of `encoding`, by its number.
    pub fn from_encoding(encoding: &Encoding) -> (k: KnownEncoding)
        ensures
            k == encoding_of_id(encoding.id),
    {
        KnownEncoding::from_u16(encoding.id)
    }

    /// The encoding with this number and no schema.
    pub fn to_encoding(&self) -> (e: Encoding)
        ensures
            e.id == encoding_id(*self),
            e.schema is None,
    {
        Encoding { id: self.to_u16(), schema: None }
    }
}

/// The encodings whose payload is text, shown as such in a summary.
pub open spec fn is_text_encoding(k: KnownEncoding) -> bool {
    match k {
        KnownEncoding::ZString => true,
        KnownEncoding::TextPlain => true,
        KnownEncoding::AppJson => true,
        KnownEncoding::TextJson => true,
        KnownEncoding::AppYaml => true,
        KnownEncoding::TextYaml => true,
        KnownEncoding::TextJson5 => true,
        KnownEncoding::AppXml => true,
        KnownEncoding::TextHtml => true,
        KnownEncoding::TextXml => true,
        KnownEncoding::TextCss => true,
        KnownEncoding::TextJavascript => true,
        KnownEncoding::TextMarkdown => true,
        KnownEncoding::TextCsv => true,
        KnownEncoding::AppSql => true,
        KnownEncoding::AppJsonPathJson => true,
        KnownEncoding::AppJsonSeq => true,
        KnownEncoding::AppJsonPath => true,
        _ => false,
    }
}

/// Whether `k` is one of the text encodings.
pub fn text_encoding(k: KnownEncoding) -> (b: bool)
    ensures
        b == is_text_encoding(k),
{
    match k {
        KnownEncoding::ZString => true,
        KnownEncoding::TextPlain => true,
        KnownEncoding::AppJson => true,
        KnownEncoding::TextJson => true,
        KnownEncoding::AppYaml => true,
        KnownEncoding::TextYaml => true,
        KnownEncoding::TextJson5 => true,
        KnownEncoding::AppXml => true,
        KnownEncoding::TextHtml => true,
        KnownEncoding::TextXml => true,
        KnownEncoding::TextCss => true,
        KnownEncoding::TextJavascript => true,
        KnownEncoding::TextMarkdown => true,
        KnownEncoding::TextCsv => true,
        KnownEncoding::AppSql => true,
        KnownEncoding::AppJsonPathJson => true,
        KnownEncoding::AppJsonSeq => true,
        KnownEncoding::AppJsonPath => true,
        _ => false,
    }
}

/// The number of bytes below which a text payload is shown in full.
pub const ABSTRACT_TEXT_LIMIT: usize = 30;

/// The short summary of a payload: a short text payload as its text (an
/// error when it is not UTF-8), anything else as "...".
pub open spec fn value_abstract(id: u16, data: Seq<u8>) -> Result<Seq<char>, Seq<char>> {
    if is_text_encoding(encoding_of_id(id)) && data.len() < ABSTRACT_TEXT_LIMIT {
        if valid_utf8(data) {
            Ok(decode_utf8(data))
        } else {
            Err("parse error"@)
        }
    } else {
        Ok("..."@)
    }
}

/// The short summary of a payload of the given encoding.
pub fn zenoh_value_abstract(encoding: &Encoding, data: &[u8]) -> (r: Result<String, String>)
    ensures
        result_view(r) == value_abstract(encoding.id, data@),
{
    let known_encoding = KnownEncoding::from_encoding(encoding);
    if text_encoding(known_encoding) && data.len() < ABSTRACT_TEXT_LIMIT {
        match utf8_decode(slice_to_vec(data)) {
            Ok(s) => Ok(s),
            Err(_) => Err("parse error".to_owned()),
        }
    } else {
        Ok("...".to_owned())
    }
}

/// What a publisher does when the network is congested.
#[derive(Copy, Clone, Debug, PartialEq, Eq, Structural)]
pub enum ZCongestionControl {
    Drop,
    Block,
    BlockFirst,
}

impl ZCongestionControl {
    /// The name of the option, in snake case.
    pub open spec fn name(self) -> Seq<char> {
        match self {
            ZCongestionControl::Drop => "drop"@,
            ZCongestionControl::Block => "block"@,
            ZCongestionControl::BlockFirst => "block_first"@,
        }
    }

    /// The name of the option, in snake case.
    pub fn as_str(&self) -> (s: &'static str)
        ensures
            s@ == self.name(),
    {
        match self {
            ZCongestionControl::Drop => "drop",
            ZCongestionControl::Block => "block",
            ZCongestionControl::BlockFirst => "block_first",
        }
    }

    /// Every option, in the order of declaration.
    pub fn all() -> (v: Vec<ZCongestionControl>)
        ensures
            v@ == seq![ZCongestionControl::Drop, ZCongestionControl::Block, ZCongestionControl::BlockFirst],
    {
        vec![ZCongestionControl::Drop, ZCongestionControl::Block, ZCongestionControl::BlockFirst]
    }
}

/// The priority of a message.
#[derive(Copy, Clone, Debug, PartialEq, Eq, Structural)]
pub enum ZPriority {
    RealTime,
    InteractiveHigh,
    InteractiveLow,
    DataHigh,
    Data,
    DataLow,
    Background,
}

impl ZPriority {
    /// The name of the option, in snake case.
    pub open spec fn name(self) -> Seq<char> {
        match self {
            ZPriority::RealTime => "real_time"@,
            ZPriority::InteractiveHigh => "interactive_high"@,
            ZPriority::InteractiveLow => "interactive_low"@,
            ZPriority::DataHigh => "data_high"@,
            ZPriority::Data => "data"@,
            ZPriority::DataLow => "data_low"@,
            ZPriority::Background => "background"@,
        }
    }

    /// The name of the option, in snake case.
    pub fn as_str(&self) -> (s: &'static str)
        ensures
            s@ == self.name(),
    {
        match self {
            ZPriority::RealTime => "real_time",
            ZPriority::InteractiveHigh => "interactive_high",
            ZPriority::InteractiveLow => "interactive_low",
            ZPriority::DataHigh => "data_high",
            ZPriority::Data => "data",
            ZPriority::DataLow => "data_low",
            ZPriority::Background => "background",
        }
    }

    /// Every option, in the order of declaration.
    pub fn all() -> (v: Vec<ZPriority>)
        ensures
            v@ == seq![ZPriority::RealTime, ZPriority::InteractiveHigh, ZPriority::InteractiveLow, ZPriority::DataHigh, ZPriority::Data, ZPriority::DataLow, ZPriority::Background],
    {
        vec![ZPriority::RealTime, ZPriority::InteractiveHigh, ZPriority::InteractiveLow, ZPriority::DataHigh, ZPriority::Data, ZPriority::DataLow, ZPriority::Background]
    }
}

/// Whether a message is sent reliably.
#[derive(Copy, Clone, Debug, PartialEq, Eq, Structural)]
pub enum ZReliability {
    Reliable,
    BestEffort,
}

impl ZReliability {
    /// The name of the option, in snake case.
    pub open spec fn name(self) -> Seq<char> {
        match self {
            ZReliability::Reliable => "reliable"@,
            ZReliability::BestEffort => "best_effort"@,
        }
    }

    /// The name of the option, in snake case.
    pub fn as_str(&self) -> (s: &'static str)
        ensures
            s@ == self.name(),
    {
        match self {
            ZReliability::Reliable => "reliable",
            ZReliability::BestEffort => "best_effort",
        }
    }

    /// Every option, in the order of declaration.
    pub fn all() -> (v: Vec<ZReliability>)
        ensures
            v@ == seq![ZReliability::Reliable, ZReliability::BestEffort],
    {
        vec![ZReliability::Reliable, ZReliability::BestEffort]
    }
}

/// Which queryables a query goes to.
#[derive(Copy, Clone, Debug, PartialEq, Eq, Structural)]
pub enum ZQueryTarget {
    BestMatching,
    All,
    AllComplete,
}

impl ZQueryTarget {
    /// The name of the option, in snake case.
    pub open spec fn name(self) -> Seq<char> {
        match self {
            ZQueryTarget::BestMatching => "best_matching"@,
            ZQueryTarget::All => "all"@,
            ZQueryTarget::AllComplete => "all_complete"@,
        }
    }

    /// The name of the option, in snake case.
    pub fn as_str(&self) -> (s: &'static str)
        ensures
            s@ == self.name(),
    {
        match self {
            ZQueryTarget::BestMatching => "best_matching",
            ZQueryTarget::All => "all",
            ZQueryTarget::AllComplete => "all_complete",
        }
    }

    /// Every option, in the order of declaration.
    pub fn all() -> (v: Vec<ZQueryTarget>)
        ensures
            v@ == seq![ZQueryTarget::BestMatching, ZQueryTarget::All, ZQueryTarget::AllComplete],
    {
        vec![ZQueryTarget::BestMatching, ZQueryTarget::All, ZQueryTarget::AllComplete]
    }
}

/// How the replies to a query are consolidated.
#[derive(Copy, Clone, Debug, PartialEq, Eq, Structural)]
pub enum ZConsolidation {
    Auto,
    NoConsolidation,
    Monotonic,
    Latest,
}

impl ZConsolidation {
    /// The name of the option, in snake case.
    pub open spec fn name(self) -> Seq<char> {
        match self {
            ZConsolidation::Auto => "auto"@,
            ZConsolidation::NoConsolidation => "none"@,
            ZConsolidation::Monotonic => "monotonic"@,
            ZConsolidation::Latest => "latest"@,
        }
    }

    /// The name of the option, in snake case.
    pub fn as_str(&self) -> (s: &'static str)
        ensures
            s@ == self.name(),
    {
        match self {
            ZConsolidation::Auto => "auto",
            ZConsolidation::NoConsolidation => "none",
            ZConsolidation::Monotonic => "monotonic",
            ZConsolidation::Latest => "latest",
        }
    }

    /// Every option, in the order of declaration.
    pub fn all() -> (v: Vec<ZConsolidation>)
        ensures
            v@ == seq![ZConsolidation::Auto, ZConsolidation::NoConsolidation, ZConsolidation::Monotonic, ZConsolidation::Latest],
    {
        vec![ZConsolidation::Auto, ZConsolidation::NoConsolidation, ZConsolidation::Monotonic, ZConsolidation::Latest]
    }
}

/// Where the peers of an operation may be.
#[derive(Copy, Clone, Debug, PartialEq, Eq, Structural)]
pub enum ZLocality {
    SessionLocal,
    Remote,
    Any,
}

impl ZLocality {
    /// The name of the option, in snake case.
    pub open spec fn name(self) -> Seq<char> {
        match self {
            ZLocality::SessionLocal => "session_local"@,
            ZLocality::Remote => "remote"@,
            ZLocality::Any => "any"@,
        }
    }

    /// The name of the option, in snake case.
    pub fn as_str(&self) -> (s: &'static str)
        ensures
            s@ == self.name(),
    {
        match self {
            ZLocality::SessionLocal => "session_local",
            ZLocality::Remote => "remote",
            ZLocality::Any => "any",
        }
    }

    /// Every option, in the order of declaration.
    pub fn all() -> (v: Vec<ZLocality>)
        ensures
            v@ == seq![ZLocality::SessionLocal, ZLocality::Remote, ZLocality::Any],
    {
        vec![ZLocality::SessionLocal, ZLocality::Remote, ZLocality::Any]
    }
}

impl Default for ZLocality {
    fn default() -> (l: ZLocality)
        ensures
            l == ZLocality::Any,
    {
        ZLocality::Any
    }
}

} // verus!
