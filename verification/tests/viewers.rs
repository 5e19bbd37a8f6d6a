use zenoh_hammer::data_viewer::{DataViewer, ViewerJsonPage};
use zenoh_hammer::reply_viewer::{ReplyViewer, ReplyViewerPage};
use zenoh_hammer::sample_viewer::{attachment_text, stamp_parts, SampleInfo, SampleViewer, SampleViewerPage};
use zenoh_hammer::text::{bytes_debug_text, decimal_text, split_once_char};
use zenoh_hammer::task_zenoh::{Reply, ReplyError, Sample, SampleKind, SourceInfo, Timestamp};
use zenoh_hammer::zenoh_data::{Encoding, KnownEncoding, ZCongestionControl, ZPriority, ZReliability};

fn enc(k: KnownEncoding) -> Encoding {
    k.to_encoding()
}

#[test]
fn text_payloads() {
    assert!(matches!(DataViewer::load(&enc(KnownEncoding::TextPlain), b"hi"), DataViewer::Text(s) if s == "hi"));
    assert!(matches!(DataViewer::load(&enc(KnownEncoding::TextCsv), &[0xc3]), DataViewer::Error(_)));
    assert!(matches!(DataViewer::load(&enc(KnownEncoding::ZBytes), b"hi"), DataViewer::Bin));
    assert!(matches!(DataViewer::load(&enc(KnownEncoding::AppOpenMetricsText), b"hi"), DataViewer::Bin));
    assert!(matches!(DataViewer::load(&enc(KnownEncoding::AudioOgg), b"hi"), DataViewer::Audio));
    assert!(matches!(DataViewer::load(&enc(KnownEncoding::VideoVp8), b"hi"), DataViewer::Video));
}

#[test]
fn json_payloads() {
    match DataViewer::load(&enc(KnownEncoding::AppJson), b"{\"a\":[1,2]}") {
        DataViewer::Json { selected_page, source, format, .. } => {
            assert_eq!(selected_page, ViewerJsonPage::Source);
            assert_eq!(source, "{\"a\":[1,2]}");
            assert_eq!(format, "{\n  \"a\": [\n    1,\n    2\n  ]\n}");
        }
        _ => panic!("expected json"),
    }
    assert!(matches!(DataViewer::load(&enc(KnownEncoding::TextJson), b"{a:1}"), DataViewer::Error(_)));
    assert!(matches!(DataViewer::load(&enc(KnownEncoding::TextJson5), b"{a:1}"), DataViewer::Json { .. }));
    let mut v = DataViewer::load(&enc(KnownEncoding::TextJson5), b"[1]");
    v.select_json_page(ViewerJsonPage::Tree);
    assert!(matches!(v, DataViewer::Json { selected_page: ViewerJsonPage::Tree, .. }));
}

#[test]
fn picture_payloads() {
    assert!(matches!(DataViewer::load(&enc(KnownEncoding::ImagePng), b"not a png"), DataViewer::Error(_)));
    assert!(matches!(DataViewer::load_image(KnownEncoding::TextPlain, b"x"), DataViewer::Error(e) if e == "not image"));
    // a 1x1 BMP picture, 24 bits per pixel
    let mut bmp: Vec<u8> = vec![b'B', b'M', 58, 0, 0, 0, 0, 0, 0, 0, 54, 0, 0, 0, 40, 0, 0, 0, 1, 0, 0, 0, 1, 0, 0, 0, 1, 0, 24, 0, 0, 0, 0, 0, 4, 0, 0, 0, 0, 0, 0, 0, 0, 0, 0, 0, 0, 0, 0, 0, 0, 0, 0, 0];
    bmp.extend_from_slice(&[255, 0, 0, 0]);
    match DataViewer::load(&enc(KnownEncoding::ImageBmp), &bmp) {
        DataViewer::Image { image } => {
            assert_eq!((image.width, image.height), (1, 1));
            assert_eq!(image.pixels, vec![0, 0, 255, 255]);
        }
        _ => panic!("expected a picture"),
    }
}

fn sample() -> Sample {
    Sample {
        key_expr: "k/1".to_string(),
        payload: b"{}".to_vec(),
        encoding: enc(KnownEncoding::AppJson),
        kind: SampleKind::Delete,
        timestamp: None,
        congestion_control: ZCongestionControl::Drop,
        priority: ZPriority::Data,
        reliability: ZReliability::BestEffort,
        express: true,
        source_info: SourceInfo { source_id: Some("a1b2".to_string()), source_sn: Some(9) },
        attachment: Some(b"at".to_vec()),
    }
}

#[test]
fn sample_window() {
    let s = sample();
    let v = SampleViewer::new_from_sample(&s);
    assert_eq!(v.selected_page, SampleViewerPage::Parse);
    assert_eq!(v.sample_info.key, "k/1");
    assert_eq!(v.sample_info.kind, SampleKind::Delete);
    assert!(v.sample_info.express);
    assert_eq!(v.sample_info.attachment, b"at".to_vec());
    assert_eq!(v.sample_info.source_info.source_id, Some("a1b2".to_string()));
    assert_eq!(v.sample_info.source_info.source_sn, Some(9));
    assert_eq!(v.hex_view.data(), &b"{}".to_vec());
    assert!(matches!(v.data_viewer, DataViewer::Json { .. }));
    let d = SampleViewer::default();
    assert_eq!(d.selected_page, SampleViewerPage::Raw);
    assert_eq!(SampleInfo::default().key, "demo");
}

#[test]
fn reply_window() {
    let ok = Reply { result: Ok(sample()), replier_id: Some("peer".to_string()) };
    let v = ReplyViewer::new_from_reply(&ok);
    assert_eq!(v.selected_page, ReplyViewerPage::Raw);
    assert!(v.reply_info.ok);
    assert_eq!(v.reply_info.key, Some("k/1".to_string()));
    assert_eq!(v.reply_info.replier_id, Some("peer".to_string()));
    let si = v.reply_info.source_info.as_ref().unwrap();
    assert_eq!(si.source_id, Some("a1b2".to_string()));
    assert_eq!(si.source_sn, Some(9));
    let err = Reply {
        result: Err(ReplyError { payload: b"oops".to_vec(), encoding: enc(KnownEncoding::TextPlain) }),
        replier_id: None,
    };
    let v = ReplyViewer::new_from_reply(&err);
    assert!(!v.reply_info.ok);
    assert_eq!(v.reply_info.key, None);
    assert!(v.reply_info.source_info.is_none());
    assert!(matches!(v.data_viewer, DataViewer::Text(ref s) if s == "oops"));
    assert_eq!(v.hex_viewer.data(), &b"oops".to_vec());
}

#[test]
fn time_stamp_text() {
    let t = Timestamp { time: 7386690599959157260, id: vec![0x33] };
    assert_eq!(stamp_parts(&t), ("2024-07-01T15:32:06.860479001Z".to_string(), "33".to_string()));
    let bad = Timestamp { time: 1, id: vec![0; 17] };
    assert_eq!(stamp_parts(&bad), ("-".to_string(), "-".to_string()));
    let mut s = sample();
    s.timestamp = Some(t);
    let info = SampleInfo::new_from(&s);
    assert_eq!(info.timestamp_text().1, "33");
    assert_eq!(SampleInfo::default().timestamp_text(), ("-".to_string(), "-".to_string()));
}

#[test]
fn split_at_first_separator() {
    assert_eq!(split_once_char("a/b/c", '/'), Some(("a".to_string(), "b/c".to_string())));
    assert_eq!(split_once_char("/x", '/'), Some((String::new(), "x".to_string())));
    assert_eq!(split_once_char("abc", '/'), None);
}

#[test]
fn decimal_and_byte_list_texts() {
    assert_eq!(decimal_text(0), "0");
    assert_eq!(decimal_text(305), "305");
    assert_eq!(decimal_text(u64::MAX), u64::MAX.to_string());
    assert_eq!(bytes_debug_text(&[]), "[]");
    assert_eq!(bytes_debug_text(&[104, 0, 255]), "[104, 0, 255]");
    assert_eq!(bytes_debug_text(&[7, 8]), format!("{:?}", &[7u8, 8][..]));
}

#[test]
fn attachment_is_shown_as_text_or_as_bytes() {
    assert_eq!(attachment_text(b"hi"), "hi");
    assert_eq!(attachment_text(&[0xff, 1]), "[255, 1]");
    assert_eq!(attachment_text(&[]), "");
    let info = SampleInfo::new_from(&sample());
    assert_eq!(info.attachment_text(), "at");
    assert_eq!(info.kind_text(), "delete");
    assert_eq!(info.source_info.id_text(), "a1b2");
    assert_eq!(info.source_info.sn_text(), "9");
    assert_eq!(SampleInfo::default().source_info.sn_text(), "-");
    assert_eq!(SampleInfo::default().source_info.id_text(), "-");
}

#[test]
fn reply_info_texts() {
    let ok = Reply { result: Ok(sample()), replier_id: None };
    let v = ReplyViewer::new_from_reply(&ok);
    assert_eq!(v.reply_info.kind_text(), Some("DELETE"));
    assert_eq!(v.reply_info.attachment_text(), Some("at".to_string()));
    assert_eq!(v.reply_info.source_texts(), Some(("a1b2".to_string(), "9".to_string(), "-".to_string())));
    let err = Reply {
        result: Err(ReplyError { payload: b"oops".to_vec(), encoding: enc(KnownEncoding::TextPlain) }),
        replier_id: Some("peer".to_string()),
    };
    let v = ReplyViewer::new_from_reply(&err);
    assert_eq!(v.reply_info.kind_text(), None);
    assert_eq!(v.reply_info.attachment_text(), None);
    assert_eq!(v.reply_info.source_texts(), None);
}

#[test]
fn opening_windows_from_pages_fills_them() {
    let s = sample();
    let v = SampleViewer::new_from_sample(&s);
    assert_eq!(v.selected_page, SampleViewerPage::Parse);
    assert_eq!(v.hex_view.data(), &s.payload);
    let r = ReplyViewer::new_from_reply(&Reply { result: Ok(sample()), replier_id: None });
    assert_eq!(r.selected_page, ReplyViewerPage::Raw);
    assert_eq!(r.hex_viewer.data(), &b"{}".to_vec());
}
