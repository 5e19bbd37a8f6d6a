use zenoh_hammer::zenoh_data::{
    text_encoding, zenoh_value_abstract, Encoding, KnownEncoding, ZCongestionControl, ZConsolidation, ZLocality,
    ZPriority, ZQueryTarget, ZReliability, KNOWN_ENCODING_COUNT,
};

#[test]
fn encoding_numbers_round_trip() {
    for id in 0..=1100u16 {
        assert_eq!(KnownEncoding::from_u16(id).to_u16(), id);
    }
    for id in 0..KNOWN_ENCODING_COUNT {
        let k = KnownEncoding::from_u16(id);
        assert_eq!(KnownEncoding::from_u16(k.to_u16()), k);
    }
    assert_eq!(KnownEncoding::from_u16(4), KnownEncoding::TextPlain);
    assert_eq!(KnownEncoding::from_u16(20), KnownEncoding::ImageWebP);
    assert_eq!(KnownEncoding::from_u16(52), KnownEncoding::VideoVp9);
    assert_eq!(KnownEncoding::from_u16(53), KnownEncoding::Other(53));
    assert_eq!(KnownEncoding::Other(4).to_u16(), 4);
    assert_eq!(KnownEncoding::from_u16(KnownEncoding::Other(4).to_u16()), KnownEncoding::TextPlain);
}

#[test]
fn encoding_conversions() {
    let e = KnownEncoding::AppJson.to_encoding();
    assert_eq!(e.id, 5);
    assert!(e.schema.is_none());
    let k = KnownEncoding::from_encoding(&Encoding { id: 11, schema: Some(b"s".to_vec()) });
    assert_eq!(k, KnownEncoding::TextJson5);
}

#[test]
fn value_abstract_of_short_text() {
    let e = Encoding { id: 4, schema: None };
    assert_eq!(zenoh_value_abstract(&e, b"hello"), Ok("hello".to_string()));
    assert_eq!(zenoh_value_abstract(&e, &[0xff, 0xfe]), Err("parse error".to_string()));
    let long = [b'a'; 30];
    assert_eq!(zenoh_value_abstract(&e, &long), Ok("...".to_string()));
    let short = [b'a'; 29];
    assert_eq!(zenoh_value_abstract(&e, &short), Ok("a".repeat(29)));
}

#[test]
fn value_abstract_of_binary() {
    let e = Encoding { id: 0, schema: None };
    assert_eq!(zenoh_value_abstract(&e, b"hi"), Ok("...".to_string()));
    let e = Encoding { id: 15, schema: None };
    assert_eq!(zenoh_value_abstract(&e, b"hi"), Ok("...".to_string()));
    assert!(text_encoding(KnownEncoding::AppJsonPath));
    assert!(text_encoding(KnownEncoding::TextPlain));
    assert!(!text_encoding(KnownEncoding::AppOpenMetricsText));
}

#[test]
fn option_names() {
    assert_eq!(ZCongestionControl::BlockFirst.as_str(), "block_first");
    assert_eq!(ZPriority::all().len(), 7);
    assert_eq!(ZPriority::RealTime.as_str(), "real_time");
    assert_eq!(ZReliability::BestEffort.as_str(), "best_effort");
    assert_eq!(ZQueryTarget::AllComplete.as_str(), "all_complete");
    assert_eq!(ZConsolidation::NoConsolidation.as_str(), "none");
    assert_eq!(ZConsolidation::all().len(), 4);
    assert_eq!(ZLocality::default(), ZLocality::Any);
    assert_eq!(ZLocality::SessionLocal.as_str(), "session_local");
}
