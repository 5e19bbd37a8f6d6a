use zenoh_hammer::archive_file::ArchiveApp;
use zenoh_hammer::hammer_app::{HammerApp, Page, SessionAction};
use zenoh_hammer::page_session::{self, ArchiveConfigFileData};
use zenoh_hammer::page_sub::{ArchivePageSubData, Event as SubEvent};
use zenoh_hammer::task_zenoh::{MsgGuiToZenoh, MsgZenohToGui, SubData};
use zenoh_hammer::zenoh_data::ZLocality;

#[test]
fn workspace_round_trip() {
    let mut app = HammerApp::default();
    let mut data = ArchiveApp::default();
    data.page_session.config_files.push(ArchiveConfigFileData { name: "c".to_string(), path: "/c.json5".to_string() });
    data.page_sub.subs.push(ArchivePageSubData { name: "s".to_string(), key_expr: "s/**".to_string() });
    assert!(app.load(data).is_ok());
    let back = app.generate_archive();
    assert_eq!(back.page_session.config_files.len(), 1);
    assert_eq!(back.page_session.config_files[0].path, "/c.json5");
    assert_eq!(back.page_sub.subs.len(), 1);
    assert_eq!(back.page_sub.subs[0].key_expr, "s/**");
    assert!(back.page_put.puts.is_empty());
    assert!(back.page_get.gets.is_empty());
}

#[test]
fn workspace_file_messages() {
    let mut app = HammerApp::default();
    let r = app.load_from_file("/w.json".to_string(), Err("no such file".to_string()));
    assert_eq!(r, Err("load file err, path: /w.json \nno such file".to_string()));
    assert_eq!(app.opened_file, None);
    let r = app.load_from_file("/w.json".to_string(), Ok(ArchiveApp::default()));
    assert_eq!(r, Ok("load file ok, path: /w.json".to_string()));
    assert_eq!(app.opened_file, Some("/w.json".to_string()));
    assert_eq!(app.store_to_file("/v.json".to_string(), Err("denied".to_string())), Err("denied".to_string()));
    assert_eq!(app.save_target(), Some("/w.json".to_string()));
    assert_eq!(app.store_to_file("/v.json".to_string(), Ok(())), Ok(()));
    assert_eq!(app.save_target(), Some("/v.json".to_string()));
}

#[test]
fn session_requests_start_and_close_once() {
    let mut app = HammerApp::default();
    app.p_session.events.push_back(page_session::Event::Connect(Box::new((3, "/a".to_string()))));
    app.p_session.events.push_back(page_session::Event::Connect(Box::new((4, "/b".to_string()))));
    let acts = app.processing_page_session_events();
    assert_eq!(acts.len(), 1);
    assert!(matches!(&acts[0], SessionAction::Start(3, p) if p == "/a"));
    assert!(app.sender_open && app.receiver_open);
    app.p_session.events.push_back(page_session::Event::Disconnect);
    app.p_session.events.push_back(page_session::Event::Disconnect);
    let acts = app.processing_page_session_events();
    assert_eq!(acts.len(), 1);
    assert!(matches!(acts[0], SessionAction::Close));
    assert!(!app.sender_open);
    assert!(app.p_session.events.is_empty());
}

#[test]
fn subscription_requests_without_session_are_refused() {
    let mut app = HammerApp::default();
    app.p_sub.events.push_back(SubEvent::AddSub(Box::new(SubData { id: 1, key_expr: "demo/**".to_string(), origin: ZLocality::Any })));
    app.p_sub.events.push_back(SubEvent::DelSub(1));
    let msgs = app.processing_page_sub_events();
    assert!(msgs.is_empty());
    assert_eq!(app.p_sub.sub_data_group[&1].err_str, Some("not connected".to_string()));
    assert!(!app.p_sub.sub_data_group[&1].subscribed);

    app.sender_open = true;
    app.p_sub.events.push_back(SubEvent::DelSub(1));
    let msgs = app.processing_page_sub_events();
    assert_eq!(msgs.len(), 1);
    assert!(matches!(msgs[0], MsgGuiToZenoh::DelSubReq(1)));
}

#[test]
fn put_and_get_requests_go_out_only_with_a_session() {
    let mut app = HammerApp::default();
    app.p_put.send_selected(Err(String::new()));
    assert_eq!(app.p_put.events.len(), 0);
    app.p_put.puts.data_map.get_mut(&1).unwrap().payload_edit.payload_str = "x".to_string();
    app.p_put.send_selected(Err(String::new()));
    assert_eq!(app.p_put.events.len(), 1);
    assert!(app.processing_page_put_events().is_empty());
    assert_eq!(app.p_put.events.len(), 0);

    app.sender_open = true;
    app.p_get.send_selected(Err(String::new()));
    let msgs = app.processing_page_get_events();
    assert_eq!(msgs.len(), 1);
    assert!(matches!(&msgs[0], MsgGuiToZenoh::GetReq(q) if q.key_expr == "demo/test"));
}

#[test]
fn session_messages_reach_their_pages() {
    let mut app = HammerApp::default();
    app.sender_open = true;
    app.receiver_open = true;
    app.processing_zenoh_msg(MsgZenohToGui::OpenSession(Err((1, "bad config".to_string()))));
    assert!(!app.sender_open);
    assert_eq!(app.p_session.connected_config_file_id, None);
    app.processing_zenoh_msg(MsgZenohToGui::OpenSession(Ok(1)));
    assert_eq!(app.p_session.connected_config_file_id, Some(1));
    assert!(!app.can_load());
    app.processing_zenoh_msg(MsgZenohToGui::AddSubRes(Box::new((1, Ok(())))));
    assert!(app.p_sub.sub_data_group[&1].subscribed);
    app.processing_zenoh_msg(MsgZenohToGui::DelSubRes(1));
    assert!(!app.p_sub.sub_data_group[&1].subscribed);
    app.processing_zenoh_msg(MsgZenohToGui::PutRes(Box::new((1, true, "ok".to_string()))));
    assert_eq!(app.p_put.puts.data_map[&1].info, Some(Ok("ok".to_string())));
    app.zenoh_channel_closed();
    assert!(!app.receiver_open);
    assert!(app.can_load());
}

#[test]
fn pages_bar() {
    let pages = Page::all();
    let names: Vec<&str> = pages.iter().map(|p| p.as_str()).collect();
    assert_eq!(names, vec!["Session", "Sub", "Get", "Put"]);
    let mut app = HammerApp::default();
    assert_eq!(app.selected_page, Page::Session);
    app.select_page(Page::Put);
    assert_eq!(app.selected_page, Page::Put);
}
