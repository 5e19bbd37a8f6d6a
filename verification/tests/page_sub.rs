use zenoh_hammer::page_sub::{filter, ArchivePageSub, ArchivePageSubData, DataValues, Event, FrequencyBasis, PageSub, PageSubData, Tree};
use zenoh_hammer::task_zenoh::{Sample, SampleKind, SourceInfo};
use zenoh_hammer::zenoh_data::{Encoding, ZCongestionControl, ZLocality, ZPriority, ZReliability};

fn sample(key: &str, payload: &[u8]) -> Sample {
    Sample {
        key_expr: key.to_string(),
        payload: payload.to_vec(),
        encoding: Encoding { id: 4, schema: None },
        kind: SampleKind::Put,
        timestamp: None,
        congestion_control: ZCongestionControl::Block,
        priority: ZPriority::Data,
        reliability: ZReliability::Reliable,
        express: false,
        source_info: SourceInfo { source_id: None, source_sn: None },
        attachment: None,
    }
}

#[test]
fn tree_add_node() {
    let mut tree = Tree::default();
    tree.add_node("demo1");
    assert_eq!(tree.index_top_node().len(), 1);
    assert_eq!(*(tree.index_top_node().get("demo1").unwrap()), 0);
    assert_eq!(tree.mem().len(), 1);
    assert_eq!(tree.mem().first().unwrap().name, "demo1".to_string());
    assert_eq!(tree.mem().first().unwrap().key, Some("demo1".to_string()));

    tree.add_node("demo1/example1");
    assert_eq!(tree.index_top_node().len(), 1);
    assert_eq!(tree.mem().len(), 2);
    assert_eq!(tree.mem().get(1).unwrap().name, "example1".to_string());
    assert_eq!(tree.mem().get(1).unwrap().key, Some("demo1/example1".to_string()));
    assert_eq!(tree.mem().get(0).unwrap().index_children.len(), 1);
    assert_eq!(*(tree.mem().get(0).unwrap().index_children.get("example1").unwrap()), 1);

    tree.add_node("demo1/example1");
    assert_eq!(tree.index_top_node().len(), 1);
    assert_eq!(tree.mem().len(), 2);
    assert_eq!(tree.mem().get(1).unwrap().name, "example1".to_string());
    assert_eq!(tree.mem().get(1).unwrap().key, Some("demo1/example1".to_string()));

    tree.add_node("demo1/example2");
    assert_eq!(tree.index_top_node().len(), 1);
    assert_eq!(tree.mem().len(), 3);
    assert_eq!(tree.mem().get(2).unwrap().name, "example2".to_string());
    assert_eq!(tree.mem().get(2).unwrap().key, Some("demo1/example2".to_string()));
    assert_eq!(tree.mem().get(0).unwrap().index_children.len(), 2);
    assert_eq!(*(tree.mem().get(0).unwrap().index_children.get("example1").unwrap()), 1);
    assert_eq!(*(tree.mem().get(0).unwrap().index_children.get("example2").unwrap()), 2);

    tree.add_node("demo2/example1");
    assert_eq!(tree.index_top_node().len(), 2);
    assert_eq!(tree.mem().len(), 5);
    assert_eq!(tree.mem().get(3).unwrap().name, "demo2".to_string());
    assert_eq!(tree.mem().get(3).unwrap().key, None);
    assert_eq!(tree.mem().get(3).unwrap().index_children.len(), 1);
    assert_eq!(*(tree.mem().get(3).unwrap().index_children.get("example1").unwrap()), 4);
    assert_eq!(tree.mem().get(4).unwrap().name, "example1".to_string());
    assert_eq!(tree.mem().get(4).unwrap().key, Some("demo2/example1".to_string()));
}

#[test]
fn tree_new_numbers_nodes_in_order_of_first_appearance() {
    let keys = vec!["demo1/example1".to_string(), "demo1/example2".to_string(), "demo2".to_string()];
    let t = Tree::new(&keys);
    assert_eq!(t.index_top_node().len(), 2);
    assert_eq!(*t.index_top_node().get("demo1").unwrap(), 0);
    assert_eq!(*t.index_top_node().get("demo2").unwrap(), 3);
    assert_eq!(t.mem().len(), 4);
    assert_eq!(t.mem()[0].key, None);
    assert_eq!(t.mem()[0].index_children.len(), 2);
    assert_eq!(*t.mem()[0].index_children.get("example1").unwrap(), 1);
    assert_eq!(t.mem()[1].key, Some("demo1/example1".to_string()));
    assert_eq!(t.mem()[2].key, Some("demo1/example2".to_string()));
    assert_eq!(t.mem()[3].key, Some("demo2".to_string()));
}

#[test]
fn tree_add_same_key_twice() {
    let mut once = Tree::default();
    once.add_node("x/y/z");
    let mut twice = Tree::default();
    twice.add_node("x/y/z");
    twice.add_node("x/y/z");
    assert_eq!(once.mem().len(), 3);
    assert_eq!(twice.mem().len(), 3);
    assert_eq!(twice.index_top_node().len(), 1);
    for i in 0..3 {
        assert_eq!(once.mem()[i].name, twice.mem()[i].name);
        assert_eq!(once.mem()[i].index_parent, twice.mem()[i].index_parent);
        assert_eq!(once.mem()[i].key, twice.mem()[i].key);
        assert_eq!(once.mem()[i].index_children.len(), twice.mem()[i].index_children.len());
    }
}

#[test]
fn tree_new_shows_every_key_once() {
    let keys = vec!["a/b".to_string(), "a/c".to_string(), "d".to_string(), "a/b".to_string()];
    let tree = Tree::new(&keys);
    assert_eq!(tree.index_top_node().len(), 2);
    let shown: Vec<String> = tree.mem().iter().filter_map(|n| n.key.clone()).collect();
    assert_eq!(shown.len(), 3);
    assert!(shown.contains(&"a/b".to_string()));
    assert!(shown.contains(&"a/c".to_string()));
    assert!(shown.contains(&"d".to_string()));
}

#[test]
fn filter_keeps_matching_keys_in_order() {
    let keys = vec!["demo/a".to_string(), "x/y".to_string(), "demo/b".to_string()];
    assert_eq!(filter(&keys, "demo"), vec!["demo/a".to_string(), "demo/b".to_string()]);
    assert_eq!(filter(&keys, ""), keys);
    assert!(filter(&keys, "zzz").is_empty());
}

#[test]
fn data_values_keep_at_most_buffer_size() {
    let mut d = DataValues::new();
    assert_eq!(d.buffer_size(), 10);
    for i in 0..12u64 {
        d.add_data(sample("k", &[i as u8]), i);
    }
    assert_eq!(d.deque().len(), 10);
    assert_eq!(d.deque().front().unwrap().1, 2);
    assert_eq!(d.deque().back().unwrap().1, 11);
}

#[test]
fn data_values_shrinking_buffer_drops_oldest_to_one_below() {
    let mut d = DataValues::new();
    d.set_buffer_size(20);
    for i in 0..15u64 {
        d.add_data(sample("k", b"v"), i);
    }
    d.set_buffer_size(12);
    assert_eq!(d.buffer_size(), 12);
    assert_eq!(d.deque().len(), 11);
    assert_eq!(d.deque().front().unwrap().1, 4);
    d.set_buffer_size(3);
    assert_eq!(d.buffer_size(), 10);
    assert_eq!(d.deque().len(), 9);
    d.clear();
    assert_eq!(d.deque().len(), 0);
}

#[test]
fn frequency_of_samples() {
    let mut d = DataValues::new();
    assert_eq!(d.frequency_basis(0), None);
    d.add_data(sample("k", b"v"), 1_000_000_000);
    assert_eq!(d.frequency_basis(1_000_000_000), Some(FrequencyBasis::Single));
    assert_eq!(d.frequency_basis(3_500_000_000), Some(FrequencyBasis::Seconds(2)));
}

#[test]
fn page_sub_default_has_the_demo_subscription() {
    let p = PageSub::default();
    assert_eq!(p.sub_id_count, 1);
    assert_eq!(p.selected_sub_id, 1);
    let a = p.to_archive();
    assert_eq!(a.subs.len(), 1);
    assert_eq!(a.subs[0].name, "demo");
    assert_eq!(a.subs[0].key_expr, "demo/**");
}

#[test]
fn page_sub_archive_round_trip() {
    let mut p = PageSub::default();
    let archive = ArchivePageSub {
        subs: vec![
            ArchivePageSubData { name: "one".to_string(), key_expr: "a/**".to_string() },
            ArchivePageSubData { name: "two".to_string(), key_expr: "b/*".to_string() },
        ],
    };
    assert!(p.load(archive).is_ok());
    assert_eq!(p.sub_id_count, 3);
    assert_eq!(p.selected_sub_id, 3);
    let back = p.to_archive();
    assert_eq!(back.subs.len(), 2);
    assert_eq!(back.subs[0].name, "one");
    assert_eq!(back.subs[0].key_expr, "a/**");
    assert_eq!(back.subs[1].name, "two");
    assert_eq!(back.subs[1].key_expr, "b/*");
}

#[test]
fn page_sub_never_deletes_the_last_or_a_declared_subscription() {
    let mut p = PageSub::default();
    p.del_sub_data(1);
    assert_eq!(p.sub_data_group.len(), 1);
    p.add_copy_of_selected();
    assert_eq!(p.sub_data_group.len(), 2);
    p.sub_data_group.get_mut(&1).unwrap().subscribed = true;
    p.del_sub_data(1);
    assert_eq!(p.sub_data_group.len(), 2);
    p.del_sub_data(2);
    assert_eq!(p.sub_data_group.len(), 1);
    assert_eq!(p.dnd_items.len(), 1);
}

#[test]
fn toggle_declare_asks_for_subscription_without_blanks() {
    let mut p = PageSub::default();
    p.sub_data_group.get_mut(&1).unwrap().key_expr = " demo/ **\n".to_string();
    p.toggle_declare();
    assert_eq!(p.events.len(), 1);
    match p.events.back().unwrap() {
        Event::AddSub(b) => {
            assert_eq!(b.id, 1);
            assert_eq!(b.key_expr, "demo/**");
            assert_eq!(b.origin, ZLocality::Any);
        }
        _ => panic!("expected a subscription request"),
    }
    assert!(p.sub_data_group[&1].subscribed);
    p.toggle_declare();
    assert!(matches!(p.events.back().unwrap(), Event::DelSub(1)));
    assert!(!p.sub_data_group[&1].subscribed);
}

#[test]
fn toggle_declare_refuses_empty_and_bad_keys() {
    let mut p = PageSub::default();
    p.sub_data_group.get_mut(&1).unwrap().key_expr = "  \t".to_string();
    p.toggle_declare();
    assert!(p.events.is_empty());
    assert_eq!(p.sub_data_group[&1].err_str, Some("key expr is empty".to_string()));
    p.sub_data_group.get_mut(&1).unwrap().key_expr = "a//b".to_string();
    p.toggle_declare();
    assert!(p.events.is_empty());
    let e = p.sub_data_group[&1].err_str.clone().unwrap();
    assert!(e.starts_with("Invalid Key Expr `a//b`: empty chunks are forbidden"));
    assert!(!p.sub_data_group[&1].subscribed);
}

#[test]
fn session_answers_update_the_subscription() {
    let mut p = PageSub::default();
    p.processing_add_sub_res(1, Err("refused".to_string()));
    assert_eq!(p.sub_data_group[&1].err_str, Some("refused".to_string()));
    p.processing_add_sub_res(1, Ok(()));
    assert!(p.sub_data_group[&1].subscribed);
    assert_eq!(p.sub_data_group[&1].err_str, None);
    p.processing_sub_cb(1, sample("demo/x", b"1"), 5);
    assert!(p.sub_data_group[&1].map().get("demo/x").is_some());
    p.processing_del_sub_res(1);
    assert!(!p.sub_data_group[&1].subscribed);
    p.processing_del_sub_res(9);
    assert_eq!(p.sub_data_group.len(), 1);
}

#[test]
fn sample_table_of_selected_key() {
    let mut d = PageSubData::new("n".to_string(), "k/**".to_string());
    let mut s = sample("k/1", b"hello");
    s.timestamp = Some(zenoh_hammer::task_zenoh::Timestamp { time: 7386690599959157260, id: vec![0x33] });
    d.add_sample(s, 1);
    d.add_sample(sample("k/1", &[0xff]), 2);
    assert!(d.value_rows().is_empty());
    d.selected_key = "k/1".to_string();
    let rows = d.value_rows();
    assert_eq!(rows.len(), 2);
    assert_eq!(rows[0].value, Ok("hello".to_string()));
    assert_eq!(rows[0].time_text, "2024-07-01T15:32:06.860479001Z");
    assert_eq!(rows[1].value, Err("parse error".to_string()));
    assert_eq!(rows[1].time_text, "-");
    assert_eq!(rows[1].encoding_id, 4);
    d.sync_buffer_size();
    assert_eq!(d.buffer_size, 10);
}

#[test]
fn sample_window_opens_on_a_row() {
    let mut p = PageSub::default();
    p.processing_sub_cb(1, sample("demo/a", b"x"), 3);
    p.open_sample_viewer(0);
    assert!(!p.show_sample_viewer_window);
    p.sub_data_group.get_mut(&1).unwrap().selected_key = "demo/a".to_string();
    p.open_sample_viewer(1);
    assert!(!p.show_sample_viewer_window);
    p.open_sample_viewer(0);
    assert!(p.show_sample_viewer_window);
    assert_eq!(p.sample_viewer_window.sample_info.key, "demo/a");
    assert_eq!(p.sample_viewer_window.selected_page, zenoh_hammer::sample_viewer::SampleViewerPage::Parse);
    assert_eq!(p.sample_viewer_window.hex_view.data(), &b"x".to_vec());
    assert!(matches!(p.sample_viewer_window.data_viewer, zenoh_hammer::data_viewer::DataViewer::Text(ref t) if t == "x"));
}

#[test]
fn tree_click_selects_key() {
    let mut d = PageSubData::new("n".to_string(), "k/**".to_string());
    d.add_sample(sample("a/b", b"1"), 1);
    d.update_tree();
    d.select_node(0);
    assert_eq!(d.selected_key, "");
    d.select_node(1);
    assert_eq!(d.selected_key, "a/b");
    d.select_node(99);
    assert_eq!(d.selected_key, "a/b");
}

#[test]
fn page_sub_data_copies_settings_only() {
    let mut d = PageSubData::new("n".to_string(), "k/**".to_string());
    d.add_sample(sample("k/1", b"x"), 1);
    let c = d.duplicate();
    assert_eq!(c.name, "n");
    assert_eq!(c.key_expr, "k/**");
    assert!(c.map().get("k/1").is_none());
}
