use zenoh_hammer::hex_viewer::{u8_to_char, HexViewer};
use zenoh_hammer::payload_editor::{
    editor_kind, parse_str_to_vec, ArchivePayloadEdit, DataLoadMode, EditorKind, Page, PayloadEdit,
};
use zenoh_hammer::zenoh_data::KnownEncoding;

#[test]
fn hex_text_with_blanks_parses() {
    assert_eq!(parse_str_to_vec("0a 1B\n\tff\r"), Ok(vec![0x0a, 0x1b, 0xff]));
    assert_eq!(parse_str_to_vec(""), Ok(vec![]));
}

#[test]
fn hex_text_errors() {
    assert_eq!(parse_str_to_vec("abc"), Err("Odd number of digits".to_string()));
    assert_eq!(parse_str_to_vec("66ag"), Err("Invalid character 'g' at position 3".to_string()));
}

#[test]
fn parse_button_notes_size_or_error() {
    let mut p = PayloadEdit::default();
    assert_eq!(p.binary_parse_str(), None);
    assert_eq!(p.parse_str_result, Some(Ok("no data".to_string())));

    p.payload_str = "01 02 03 04".to_string();
    assert_eq!(p.binary_parse_str(), Some(vec![1, 2, 3, 4]));
    assert_eq!(p.parse_str_result, Some(Ok("parse ok, data size 4".to_string())));
    assert_eq!(p.hex_view.data(), &vec![1, 2, 3, 4]);

    p.payload_str = "0".to_string();
    assert_eq!(p.binary_parse_str(), None);
    assert_eq!(p.parse_str_result, Some(Err("parse error, Odd number of digits".to_string())));
    assert!(p.hex_view.data().is_empty());
}

#[test]
fn size_notes_use_factors_of_1024() {
    let mut p = PayloadEdit::default();
    p.file_path = Some("f.bin".to_string());
    assert_eq!(p.binary_load_file(Ok(vec![0u8; 4096])).map(|v| v.len()), Some(4096));
    assert_eq!(p.file_load_result, Some(Ok("load file ok, data size 4.0K".to_string())));
}

#[test]
fn loading_a_text_file() {
    let mut p = PayloadEdit::default();
    assert_eq!(p.string_load_file(Ok(b"hi".to_vec())), None);
    assert_eq!(p.file_load_result, Some(Err("no file selected".to_string())));

    p.file_path = Some("a.txt".to_string());
    assert_eq!(p.string_load_file(Err("not found".to_string())), None);
    assert_eq!(p.file_load_result, Some(Err("load file error, not found".to_string())));

    assert_eq!(p.string_load_file(Ok(vec![0xff])), None);
    let note = p.file_load_result.clone().unwrap().unwrap_err();
    assert!(note.starts_with("load file error, invalid utf-8"));

    assert_eq!(p.string_load_file(Ok(b"hi".to_vec())), Some(b"hi".to_vec()));
    assert_eq!(p.file_load_result, Some(Ok("load file ok, data size 2".to_string())));
}

#[test]
fn loading_a_picture() {
    let mut p = PayloadEdit::default();
    assert_eq!(p.image_load_file(Ok(vec![1, 2, 3])), None);
    assert_eq!(p.file_load_result, None);

    p.encoding_id = KnownEncoding::ImagePng.to_u16();
    p.file_path = Some("x.png".to_string());
    assert_eq!(p.image_load_file(Ok(vec![1, 2, 3])), None);
    assert!(p.file_load_result.clone().unwrap().unwrap_err().starts_with("load image error, "));
    assert!(p.image.is_none());
}

#[test]
fn value_of_text_and_binary_payloads() {
    let mut p = PayloadEdit::default();
    assert!(p.get_zenoh_value(Err(String::new())).is_none());
    p.payload_str = "hello".to_string();
    p.encoding_schema = "s1".to_string();
    let (e, data) = p.get_zenoh_value(Err(String::new())).unwrap();
    assert_eq!(e.id, 4);
    assert_eq!(e.schema, Some(b"s1".to_vec()));
    assert_eq!(data, b"hello".to_vec());

    p.encoding_id = KnownEncoding::AppOctetStream.to_u16();
    p.encoding_schema = String::new();
    assert!(p.get_zenoh_value(Err(String::new())).is_none());
    p.payload_str = "6869".to_string();
    let (e, data) = p.get_zenoh_value(Err(String::new())).unwrap();
    assert_eq!(e.id, 3);
    assert_eq!(e.schema, None);
    assert_eq!(data, b"hi".to_vec());

    p.data_load_mode = DataLoadMode::File;
    p.file_path = Some("f".to_string());
    assert!(p.needs_file());
    let (_, data) = p.get_zenoh_value(Ok(vec![7, 8])).unwrap();
    assert_eq!(data, vec![7, 8]);
}

#[test]
fn editor_kinds() {
    assert_eq!(editor_kind(KnownEncoding::TextJson5), EditorKind::Text);
    assert_eq!(editor_kind(KnownEncoding::AppXWwwFormUrlencoded), EditorKind::Text);
    assert_eq!(editor_kind(KnownEncoding::ImageGif), EditorKind::Image);
    assert_eq!(editor_kind(KnownEncoding::AppCbor), EditorKind::Binary);
    assert_eq!(editor_kind(KnownEncoding::Other(900)), EditorKind::Binary);
    assert_eq!(DataLoadMode::File.to_str(), "load from file");
    assert_eq!(DataLoadMode::String.to_str(), "parsing from string");
}

#[test]
fn payload_archive_round_trip() {
    let a = ArchivePayloadEdit {
        encoding_id: 17,
        encoding_schema: "sch".to_string(),
        page: Page::Hex,
        data_load_mode: DataLoadMode::File,
        payload_str: "abc".to_string(),
        file_path_str: "/tmp/x.jpg".to_string(),
    };
    let p = PayloadEdit::from_archive(a).unwrap();
    assert_eq!(p.file_path, Some("/tmp/x.jpg".to_string()));
    let b = p.to_archive();
    assert_eq!(b.encoding_id, 17);
    assert_eq!(b.encoding_schema, "sch");
    assert_eq!(b.page, Page::Hex);
    assert_eq!(b.data_load_mode, DataLoadMode::File);
    assert_eq!(b.payload_str, "abc");
    assert_eq!(b.file_path_str, "/tmp/x.jpg");

    let empty = ArchivePayloadEdit {
        encoding_id: 4,
        encoding_schema: String::new(),
        page: Page::Source,
        data_load_mode: DataLoadMode::String,
        payload_str: String::new(),
        file_path_str: String::new(),
    };
    assert_eq!(PayloadEdit::from_archive(empty).unwrap().file_path, None);
}

#[test]
fn encoding_selector_range() {
    let mut p = PayloadEdit::default();
    p.set_encoding_id(5000);
    assert_eq!(p.encoding_id, 1023);
    p.set_encoding_id(7);
    assert_eq!(p.encoding_id, 7);
}

#[test]
fn text_hex_tab_shows_typed_text() {
    let mut p = PayloadEdit::default();
    p.payload_str = "AB".to_string();
    p.select_text_hex_page();
    assert_eq!(p.page, Page::Hex);
    assert_eq!(p.hex_view.data(), &vec![b'A', b'B']);
}

#[test]
fn hex_viewer_pages() {
    let mut h = HexViewer::new(vec![0u8; 2500]);
    assert_eq!(h.page_index_max(), 2);
    assert_eq!(h.page_rows(), 1024 / 8);
    h.next_page();
    h.next_page();
    assert_eq!(h.page_index(), 2);
    assert_eq!(h.offset(), 2048);
    assert_eq!(h.page_rows(), (2500 % 1024) / 8);
    h.next_page();
    assert_eq!(h.page_index(), 2);
    h.prev_page();
    assert_eq!(h.page_index(), 1);
    assert_eq!(h.offset(), 1024);
    h.first_page();
    assert_eq!((h.page_index(), h.offset()), (0, 0));
    h.last_page();
    assert_eq!(h.page_index(), 2);
    assert_eq!(h.offset(), 2048);
    h.set_offset(9999);
    assert_eq!(h.offset(), 2500);
    h.last_page();
    assert_eq!(h.offset(), 2499);
    h.set_number_columns(40);
    assert_eq!(h.number_columns(), 16);
    h.set_number_columns(1);
    assert_eq!(h.number_columns(), 8);
    h.set_page_index(7);
    assert_eq!(h.page_index(), 2);
}

#[test]
fn hex_viewer_exact_pages_and_cells() {
    let h = HexViewer::new(vec![1u8; 2048]);
    assert_eq!(h.page_index_max(), 1);
    let e = HexViewer::default();
    assert_eq!(e.page_index_max(), 0);
    assert_eq!(e.page_rows(), 0);
    let h = HexViewer::new((0..20u8).collect());
    assert_eq!(h.cell(1, 2), Some(10));
    assert_eq!(h.cell(2, 4), None);
    assert_eq!(h.row_start(2), 16);
}

#[test]
fn printable_bytes() {
    assert_eq!(u8_to_char(b'A'), 'A');
    assert_eq!(u8_to_char(32), ' ');
    assert_eq!(u8_to_char(126), '~');
    assert_eq!(u8_to_char(127), '.');
    assert_eq!(u8_to_char(10), '.');
}
