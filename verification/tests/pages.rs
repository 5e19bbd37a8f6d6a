use std::collections::VecDeque;
use zenoh_hammer::page_get::{self, reply_row, ArchivePageGet, ArchivePageGetData, PageGet, PageGetData};
use zenoh_hammer::page_put::{self, ArchivePagePut, ArchivePagePutData, PagePut, PagePutData};
use zenoh_hammer::page_session::{self, ArchiveConfigFileData, ArchivePageSession, PageSession};
use zenoh_hammer::payload_editor::{ArchivePayloadEdit, DataLoadMode, Page};
use zenoh_hammer::task_zenoh::{Reply, ReplyError, Sample, SampleKind, SourceInfo, Timestamp};
use zenoh_hammer::zenoh_data::{
    Encoding, ZCongestionControl, ZConsolidation, ZLocality, ZPriority, ZQueryTarget, ZReliability,
};

fn payload_archive(s: &str) -> ArchivePayloadEdit {
    ArchivePayloadEdit {
        encoding_id: 4,
        encoding_schema: String::new(),
        page: Page::Source,
        data_load_mode: DataLoadMode::String,
        payload_str: s.to_string(),
        file_path_str: String::new(),
    }
}

#[test]
fn put_sends_key_without_blanks() {
    let mut d = PagePutData::default();
    d.input_key = " demo/ a\n".to_string();
    d.payload_edit.payload_str = "v".to_string();
    let mut events = VecDeque::new();
    d.send(&mut events, Err(String::new()));
    assert_eq!(events.len(), 1);
    let page_put::Event::Put(p) = events.pop_front().unwrap();
    assert_eq!(p.id, 1);
    assert_eq!(p.key, "demo/a");
    assert_eq!(p.congestion_control, ZCongestionControl::Block);
    assert_eq!(p.priority, ZPriority::RealTime);
    assert_eq!(p.payload, b"v".to_vec());
    assert_eq!(d.info, None);
}

#[test]
fn put_refused_key_is_noted_and_empty_payload_sends_nothing() {
    let mut d = PagePutData::default();
    d.input_key = "demo/**/**".to_string();
    let mut events = VecDeque::new();
    d.send(&mut events, Err(String::new()));
    assert!(events.is_empty());
    let note = d.info.clone().unwrap().unwrap_err();
    assert!(note.starts_with("Invalid Key Expr `demo/**/**`: `**/**` must be replaced by `**`"));
    d.input_key = "demo/example".to_string();
    d.send(&mut events, Err(String::new()));
    assert!(events.is_empty());
    assert_eq!(d.info.clone().unwrap().unwrap_err(), note);
}

#[test]
fn put_page_results_and_list() {
    let mut p = PagePut::default();
    p.processing_put_res(Box::new((1, true, "put ok \"demo/example\"".to_string())));
    assert_eq!(p.puts.data_map[&1].info, Some(Ok("put ok \"demo/example\"".to_string())));
    p.processing_put_res(Box::new((1, false, "boom".to_string())));
    assert_eq!(p.puts.data_map[&1].info, Some(Err("boom".to_string())));
    p.del_put_data(1);
    assert_eq!(p.puts.data_map.len(), 1);
    p.add_copy_of_selected();
    assert_eq!(p.puts.data_map.len(), 2);
    assert_eq!(p.puts.data_map[&2].id, 2);
    assert_eq!(p.puts.data_map[&2].info, None);
    p.del_put_data(1);
    assert_eq!(p.puts.data_map.len(), 1);
    assert_eq!(p.to_archive().puts.len(), 1);
}

#[test]
fn put_page_archive_round_trip() {
    let mut p = PagePut::default();
    let a = ArchivePagePut {
        puts: vec![ArchivePagePutData {
            name: "n".to_string(),
            key: "k/1".to_string(),
            congestion_control: ZCongestionControl::Drop,
            priority: ZPriority::Background,
            archive_payload_edit: payload_archive("x"),
        }],
    };
    assert!(p.load(a).is_ok());
    let b = p.to_archive();
    assert_eq!(b.puts.len(), 1);
    assert_eq!(b.puts[0].name, "n");
    assert_eq!(b.puts[0].key, "k/1");
    assert_eq!(b.puts[0].congestion_control, ZCongestionControl::Drop);
    assert_eq!(b.puts[0].priority, ZPriority::Background);
    assert_eq!(b.puts[0].archive_payload_edit.payload_str, "x");
    assert_eq!(p.puts.id_count, 2);
}

#[test]
fn get_sends_query_and_keeps_replies() {
    let mut d = PageGetData::default();
    d.input_attachment = "att".to_string();
    d.replies.push(Reply { result: Err(ReplyError { payload: vec![], encoding: Encoding { id: 0, schema: None } }), replier_id: None });
    let mut events = VecDeque::new();
    d.send(&mut events, Err(String::new()));
    assert!(d.replies.is_empty());
    let page_get::Event::Get(q) = events.pop_front().unwrap();
    assert_eq!(q.id, 1);
    assert_eq!(q.key_expr, "demo/test");
    assert_eq!(q.parameters, "");
    assert_eq!(q.attachment, Some(b"att".to_vec()));
    assert_eq!(q.target, ZQueryTarget::BestMatching);
    assert_eq!(q.consolidation, ZConsolidation::Auto);
    assert_eq!(q.locality, ZLocality::Any);
    assert_eq!(q.timeout, 10000);
    assert!(q.value.is_none());

    d.input_key = "a/#".to_string();
    d.send(&mut events, Err(String::new()));
    assert!(events.is_empty());
    assert!(d.error_info.clone().unwrap().starts_with("Invalid Key Expr `a/#`: `#` and `?` are forbidden characters"));
    d.set_timeout(20000);
    assert_eq!(d.timeout, 10000);
}

#[test]
fn get_with_payload_carries_value() {
    let mut d = PageGetData::default();
    d.payload = true;
    d.payload_edit.payload_str = "q".to_string();
    let mut events = VecDeque::new();
    d.send(&mut events, Err(String::new()));
    let page_get::Event::Get(q) = events.pop_front().unwrap();
    let (e, v) = q.value.unwrap();
    assert_eq!(e.id, 4);
    assert_eq!(v, b"q".to_vec());
    assert_eq!(q.attachment, None);
}

fn sample(key: &str, payload: &[u8]) -> Sample {
    Sample {
        key_expr: key.to_string(),
        payload: payload.to_vec(),
        encoding: Encoding { id: 4, schema: None },
        kind: SampleKind::Put,
        timestamp: Some(Timestamp { time: 77, id: vec![1] }),
        congestion_control: ZCongestionControl::Block,
        priority: ZPriority::Data,
        reliability: ZReliability::Reliable,
        express: false,
        source_info: SourceInfo { source_id: None, source_sn: None },
        attachment: None,
    }
}

#[test]
fn get_page_reply_table() {
    let mut p = PageGet::default();
    p.gets.data_map.get_mut(&1).unwrap().error_info = Some("old".to_string());
    p.processing_get_res(Box::new((1, Reply { result: Ok(sample("demo/test", b"hi")), replier_id: None })));
    p.processing_get_res(Box::new((1, Reply {
        result: Err(ReplyError { payload: b"nope".to_vec(), encoding: Encoding { id: 4, schema: None } }),
        replier_id: None,
    })));
    let d = &p.gets.data_map[&1];
    assert_eq!(d.error_info, None);
    assert_eq!(d.replies.len(), 2);
    let rows = d.reply_rows();
    assert_eq!(rows[0].key, Some("demo/test".to_string()));
    assert_eq!(rows[0].value, Ok("hi".to_string()));
    assert_eq!(rows[0].encoding_id, Some(4));
    assert_eq!(rows[0].time, Some(77));
    assert_eq!(rows[1].key, None);
    assert_eq!(rows[1].value, Err("nope".to_string()));
    let r = reply_row(&d.replies[1]);
    assert_eq!(r.time, None);
    p.open_reply_viewer(1);
    assert!(p.show_reply_viewer_window);
    assert_eq!(p.reply_viewer_window.selected_page, zenoh_hammer::reply_viewer::ReplyViewerPage::Raw);
    assert_eq!(p.reply_viewer_window.hex_viewer.data(), &b"nope".to_vec());
    assert!(!p.reply_viewer_window.reply_info.ok);
    assert!(matches!(p.reply_viewer_window.data_viewer, zenoh_hammer::data_viewer::DataViewer::Text(ref t) if t == "nope"));
}

#[test]
fn get_page_archive_round_trip() {
    let mut p = PageGet::default();
    let a = ArchivePageGet {
        gets: vec![ArchivePageGetData {
            name: "g".to_string(),
            key: "a/*".to_string(),
            attachment: "t".to_string(),
            target: ZQueryTarget::All,
            consolidation: ZConsolidation::Latest,
            locality: ZLocality::Remote,
            timeout: 500,
            payload: true,
            archive_payload_edit: payload_archive("p"),
        }],
    };
    assert!(p.load(a).is_ok());
    let b = p.to_archive();
    assert_eq!(b.gets.len(), 1);
    assert_eq!(b.gets[0].name, "g");
    assert_eq!(b.gets[0].attachment, "t");
    assert_eq!(b.gets[0].target, ZQueryTarget::All);
    assert_eq!(b.gets[0].consolidation, ZConsolidation::Latest);
    assert_eq!(b.gets[0].locality, ZLocality::Remote);
    assert_eq!(b.gets[0].timeout, 500);
    assert!(b.gets[0].payload);
}

#[test]
fn session_open_and_close_requests() {
    let mut p = PageSession::default();
    p.session_button();
    assert!(p.events.is_empty());
    p.add_config_file_from_path("/etc/zenoh/peer.json5".to_string());
    let a = p.to_archive();
    assert_eq!(a.config_files[0].name, "peer");
    assert_eq!(a.config_files[0].path, "/etc/zenoh/peer.json5");
    p.session_button();
    match p.events.pop_front().unwrap() {
        page_session::Event::Connect(c) => {
            assert_eq!(c.0, 1);
            assert_eq!(c.1, "/etc/zenoh/peer.json5");
        }
        _ => panic!("expected a request to open the session"),
    }
    p.set_connect_result(Ok(1));
    assert!(p.connected());
    p.session_button();
    assert!(matches!(p.events.pop_front(), Some(page_session::Event::Disconnect)));
    p.set_connect_result(Err((1, "no route".to_string())));
    assert!(!p.connected());
    assert_eq!(p.config_files.data_map[&1].err_str, Some("no route".to_string()));
}

#[test]
fn session_file_loading() {
    let mut p = PageSession::default();
    p.add_config_file_from_path("c.json5".to_string());
    p.load_selected(Ok("{a: 1, // comment\n}".to_string()));
    let c = &p.config_files.data_map[&1];
    assert_eq!(c.err_str, None);
    assert_eq!(c.source, "{a: 1, // comment\n}");
    assert_eq!(c.format, "{\n  \"a\": 1\n}");
    p.load_selected(Ok("{a: ".to_string()));
    assert_eq!(p.config_files.data_map[&1].err_str, Some("failed to load config file".to_string()));
    assert_eq!(p.config_files.data_map[&1].source, "");
    p.load_selected(Err("missing".to_string()));
    assert_eq!(p.config_files.data_map[&1].err_str, Some("failed to load config file".to_string()));
    p.set_connect_result(Ok(1));
    assert_eq!(p.config_files.data_map[&1].err_str, None);
    p.load_selected(Ok("{}".to_string()));
    assert_eq!(p.config_files.data_map[&1].source, "");
    assert_eq!(p.config_files.data_map[&1].err_str, None);
}

#[test]
fn session_keeps_connected_and_last_file() {
    let mut p = PageSession::default();
    p.add_config_file_from_path("a.json5".to_string());
    p.del_config_file();
    assert_eq!(p.config_files.data_map.len(), 1);
    p.add_config_file_from_path("b.json5".to_string());
    p.set_connected(Some(2));
    p.del_config_file();
    assert_eq!(p.config_files.data_map.len(), 2);
    p.set_connected(None);
    p.del_config_file();
    assert_eq!(p.config_files.data_map.len(), 1);
    assert!(p.config_files.data_map.contains_key(&1));
}

#[test]
fn session_archive_round_trip_keeps_empty_path() {
    let mut p = PageSession::default();
    let a = ArchivePageSession {
        config_files: vec![
            ArchiveConfigFileData { name: "x".to_string(), path: "/x.json5".to_string() },
            ArchiveConfigFileData { name: "y".to_string(), path: String::new() },
        ],
    };
    assert!(p.load(a).is_ok());
    let b = p.to_archive();
    assert_eq!(b.config_files.len(), 2);
    assert_eq!(b.config_files[0].name, "x");
    assert_eq!(b.config_files[0].path, "/x.json5");
    assert_eq!(b.config_files[1].path, "");
    assert_eq!(p.config_files.data_map[&2].path, Some(String::new()));
}
