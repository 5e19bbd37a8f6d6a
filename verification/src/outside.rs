//! The calls into std and into outside crates that Verus does not read:
//! each item states what the called code is relied on to do.

use vstd::prelude::*;
use vstd::utf8::{valid_utf8, decode_utf8};
use std::collections::BTreeMap;
use crate::image_data::{ImageKind, RgbaImage};

verus! {

/// The message that std gives for bytes that are not UTF-8; it depends on
/// the bytes alone.
pub uninterp spec fn utf8_error_text(bytes: Seq<u8>) -> Seq<char>;

/// `String::from_utf8` of std: the bytes are taken as a string exactly
/// when they are valid UTF-8, and then the string holds the characters
/// they encode; otherwise the error is turned into its message.
#[verifier::external_body]
pub(crate) fn utf8_decode(bytes: Vec<u8>) -> (r: Result<String, String>)
    ensures
        r is Ok == valid_utf8(bytes@),
        r matches Ok(s) ==> s@ == decode_utf8(bytes@),
        r matches Err(e) ==> e@ == utf8_error_text(bytes@),
{
    String::from_utf8(bytes).map_err(|e| e.to_string())
}

/// `String::push` of std: appends one character.
#[verifier::external_body]
pub(crate) fn push_char(s: &mut String, c: char)
    ensures
        final(s)@ == old(s)@.push(c),
{
    s.push(c)
}

/// `BTreeMap::get_mut` of std: a mutable reference to the value of `key`
/// when the map has one; the map then holds, under `key`, whatever the
/// reference holds when it is given up, and is otherwise unchanged.
#[verifier::external_body]
pub(crate) fn map_get_mut<'a, V>(m: &'a mut BTreeMap<u64, V>, key: u64) -> (r: Option<&'a mut V>)
    ensures
        match r {
            Some(v) => {
                &&& old(m)@.contains_key(key)
                &&& *v == old(m)@[key]
                &&& final(m)@ == old(m)@.insert(key, *final(v))
            },
            None => !old(m)@.contains_key(key) && final(m)@ == old(m)@,
        },
{
    m.get_mut(&key)
}

/// The value of a hexadecimal digit: `0`-`9`, `a`-`f` and `A`-`F`.
pub open spec fn hex_digit(b: u8) -> Option<u8> {
    if 48 <= b <= 57 {
        Some((b - 48) as u8)
    } else if 97 <= b <= 102 {
        Some((b - 97 + 10) as u8)
    } else if 65 <= b <= 70 {
        Some((b - 65 + 10) as u8)
    } else {
        None
    }
}

/// Whether `data` is an even number of hexadecimal digits.
pub open spec fn is_hex_text(data: Seq<u8>) -> bool {
    &&& data.len() % 2 == 0
    &&& forall|i: int| 0 <= i < data.len() ==> (#[trigger] hex_digit(data[i])) is Some
}

/// The bytes that the digit pairs of `data` stand for, high digit first.
pub open spec fn hex_bytes(data: Seq<u8>) -> Seq<u8> {
    Seq::new(data.len() / 2, |i: int| (hex_digit(data[2 * i])->0 * 16 + hex_digit(data[2 * i + 1])->0) as u8)
}

/// The message of the error that `hex` gives for text that is not an even
/// number of hexadecimal digits; it names the first bad character and its
/// position, and depends on `data` alone.
pub uninterp spec fn hex_error_text(data: Seq<u8>) -> Seq<char>;

/// `hex::decode`: text that is an even number of hexadecimal digits gives
/// the bytes it stands for; text of odd length gives "Odd number of
/// digits"; any other text gives the message of its first bad character.
#[verifier::external_body]
pub(crate) fn hex_decode(data: &[u8]) -> (r: Result<Vec<u8>, String>)
    ensures
        r is Ok == is_hex_text(data@),
        r matches Ok(v) ==> v@ == hex_bytes(data@),
        r matches Err(e) ==> e@ == (if data@.len() % 2 != 0 { "Odd number of digits"@ } else { hex_error_text(data@) }),
{
    hex::decode(data).map_err(|e| e.to_string())
}

/// The text that `size_fmt` gives for a size, in factors of 1024, such as
/// "4.0K"; it depends on the size alone.
pub uninterp spec fn human_size_text(size: u64) -> Seq<char>;

/// `size_fmt::Buffer::human_fmt`: a size written in factors of 1024.
#[verifier::external_body]
pub(crate) fn human_size(size: u64) -> (s: String)
    ensures
        s@ == human_size_text(size),
{
    let mut buffer = size_fmt::Buffer::new();
    buffer.human_fmt(size).to_string()
}

/// The picture that `image` decodes from `data` read in `format`, as its
/// width, height and RGBA bytes, or the message of the decoding error; it
/// depends on the format and the bytes alone.
pub uninterp spec fn image_decoding(format: ImageKind, data: Seq<u8>) -> Result<(u32, u32, Seq<u8>), Seq<char>>;

/// `image::ImageReader::decode` on `data` in the given format, turned
/// into 8-bit RGBA.
#[verifier::external_body]
pub(crate) fn decode_image(format: ImageKind, data: &[u8]) -> (r: Result<RgbaImage, String>)
    ensures
        match r {
            Ok(img) => image_decoding(format, data@) == Ok::<(u32, u32, Seq<u8>), Seq<char>>((img.width, img.height, img.pixels@)),
            Err(e) => image_decoding(format, data@) == Err::<(u32, u32, Seq<u8>), Seq<char>>(e@),
        },
{
    let f = match format {
        ImageKind::Png => image::ImageFormat::Png,
        ImageKind::Jpeg => image::ImageFormat::Jpeg,
        ImageKind::Gif => image::ImageFormat::Gif,
        ImageKind::Bmp => image::ImageFormat::Bmp,
        ImageKind::WebP => image::ImageFormat::WebP,
    };
    let reader = image::ImageReader::with_format(std::io::Cursor::new(data), f);
    reader.decode().map(|m| {
        let rgba = m.into_rgba8();
        RgbaImage { width: rgba.width(), height: rgba.height(), pixels: rgba.into_raw() }
    }).map_err(|e| e.to_string())
}

/// A JSON value of `serde_json`, carried as it is.
#[verifier::external_type_specification]
#[verifier::external_body]
pub struct ExJsonValue(serde_json::Value);

/// Whether `serde_json` reads `source` as JSON, and if not its message;
/// it depends on the text alone.
pub uninterp spec fn json_reading(source: Seq<char>) -> Result<(), Seq<char>>;

/// The pretty-printed form, by `serde_json::to_string_pretty`, of the
/// JSON value that `serde_json` reads from `source`; it depends on the text
/// alone.
pub uninterp spec fn json_pretty_text(source: Seq<char>) -> Seq<char>;

/// `serde_json::from_str` into a JSON value, with that value pretty-printed
/// by `serde_json::to_string_pretty` (which cannot fail on a value). The
/// value itself is carried as it is; Verus does not see into it.
#[verifier::external_body]
pub(crate) fn json_parse(source: &str) -> (r: Result<(serde_json::Value, String), String>)
    ensures
        match r {
            Ok((_, f)) => json_reading(source@) is Ok && f@ == json_pretty_text(source@),
            Err(e) => json_reading(source@) == Err::<(), Seq<char>>(e@),
        },
{
    serde_json::from_str::<serde_json::Value>(source)
        .map(|v| {
            let f = serde_json::to_string_pretty(&v).unwrap_or_default();
            (v, f)
        })
        .map_err(|e| e.to_string())
}

/// Whether `json5` reads `source` as JSON5, and if not its message; it
/// depends on the text alone.
pub uninterp spec fn json5_reading(source: Seq<char>) -> Result<(), Seq<char>>;

/// The pretty-printed form, by `serde_json::to_string_pretty`, of the
/// JSON value that `json5` reads from `source`; it depends on the text
/// alone.
pub uninterp spec fn json5_pretty_text(source: Seq<char>) -> Seq<char>;

/// `json5::from_str` into a JSON value, with that value pretty-printed by
/// `serde_json::to_string_pretty` (which cannot fail on a value). The value
/// itself is carried as it is; Verus does not see into it.
#[verifier::external_body]
pub(crate) fn json5_parse(source: &str) -> (r: Result<(serde_json::Value, String), String>)
    ensures
        match r {
            Ok((_, f)) => json5_reading(source@) is Ok && f@ == json5_pretty_text(source@),
            Err(e) => json5_reading(source@) == Err::<(), Seq<char>>(e@),
        },
{
    json5::from_str::<serde_json::Value>(source)
        .map(|v| {
            let f = serde_json::to_string_pretty(&v).unwrap_or_default();
            (v, f)
        })
        .map_err(|e| e.to_string())
}

/// The text that `uhlc` gives for the time stamp of time `time` and clock
/// id `id` (its bytes, least significant first): the time in RFC 3339 form
/// with nanoseconds, a `/`, and the id; nothing when the bytes are no clock
/// id. It depends on the two alone.
pub uninterp spec fn stamp_text(time: u64, id: Seq<u8>) -> Option<Seq<char>>;

/// `uhlc::Timestamp::to_string_rfc3339_lossy` of the time stamp made of
/// `time` and the clock id read from `id` by `ID::try_from`, which refuses
/// more than sixteen bytes.
#[verifier::external_body]
pub(crate) fn format_stamp(time: u64, id: &[u8]) -> (r: Option<String>)
    ensures
        match r {
            Some(s) => stamp_text(time, id@) == Some(s@),
            None => stamp_text(time, id@) is None,
        },
        id@.len() > 16 ==> r is None,
{
    uhlc::ID::try_from(id).ok().map(|i| uhlc::Timestamp::new(uhlc::NTP64(time), i).to_string_rfc3339_lossy())
}

/// Zenoh's verdict on `key` as a key expression: accepted, or the
/// message of the first rule it breaks; it depends on the text alone.
pub uninterp spec fn key_expr_verdict(key: Seq<char>) -> Result<(), Seq<char>>;

/// `OwnedKeyExpr::from_str` of `zenoh-keyexpr`, which the `zenoh` crate
/// offers as its key expression type: whether `key` is a key expression.
/// An empty text never is one.
#[verifier::external_body]
pub(crate) fn check_key_expr(key: &str) -> (r: Result<(), String>)
    ensures
        match r {
            Ok(_) => key_expr_verdict(key@) is Ok,
            Err(e) => key_expr_verdict(key@) == Err::<(), Seq<char>>(e@),
        },
        key@.len() == 0 ==> r is Err,
{
    <zenoh_keyexpr::OwnedKeyExpr as std::str::FromStr>::from_str(key).map(|_| ()).map_err(|e| e.to_string())
}

/// The last part of a path without its extension, as `std` finds it,
/// where there is one; it depends on the path alone.
pub uninterp spec fn path_file_stem(path: Seq<char>) -> Option<Seq<char>>;

/// `Path::file_stem` of std, the stem turned into a string.
#[verifier::external_body]
pub(crate) fn file_stem(path: &str) -> (r: Option<String>)
    ensures
        match r {
            Some(s) => path_file_stem(path@) == Some(s@),
            None => path_file_stem(path@) is None,
        },
{
    std::path::Path::new(path).file_stem().map(|s| s.to_string_lossy().to_string())
}

} // verus!
