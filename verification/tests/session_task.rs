use zenoh_hammer::task_zenoh::{
    put_done, session_opened, MsgGuiToZenoh, MsgZenohToGui, Received, SessionLoop, SubData, TaskAction,
};
use zenoh_hammer::zenoh_data::ZLocality;

fn sub(id: u64) -> MsgGuiToZenoh {
    MsgGuiToZenoh::AddSubReq(Box::new(SubData { id, key_expr: "a/**".to_string(), origin: ZLocality::Any }))
}

#[test]
fn loop_waits_stops_and_declares() {
    let mut l = SessionLoop::new();
    assert!(matches!(l.on_received(Received::Empty)[0], TaskAction::Wait));
    assert!(matches!(l.on_received(Received::Disconnected)[0], TaskAction::Stop));
    assert!(matches!(l.on_received(Received::Msg(MsgGuiToZenoh::Close))[0], TaskAction::Stop));
    assert!(matches!(&l.on_received(Received::Msg(sub(5)))[0], TaskAction::Declare(d) if d.id == 5));
}

#[test]
fn subscribers_are_closed_in_order_of_id() {
    let mut l = SessionLoop::new();
    for id in [7u64, 2, 9, 2] {
        let acts = l.subscriber_declared(id, Ok(()));
        assert!(matches!(&acts[0], TaskAction::Send(MsgZenohToGui::AddSubRes(b)) if b.0 == id && b.1.is_ok()));
    }
    assert_eq!(l.subscribers, vec![2, 7, 9]);
    let acts = l.on_received(Received::Msg(MsgGuiToZenoh::DelSubReq(7)));
    assert_eq!(acts.len(), 2);
    assert!(matches!(acts[0], TaskAction::SignalClose(7)));
    assert!(matches!(acts[1], TaskAction::Send(MsgZenohToGui::DelSubRes(7))));
    let acts = l.on_received(Received::Msg(MsgGuiToZenoh::DelSubReq(8)));
    assert_eq!(acts.len(), 1);
    assert!(matches!(acts[0], TaskAction::Send(MsgZenohToGui::DelSubRes(8))));
    let acts = l.stop();
    assert_eq!(acts.len(), 4);
    assert!(matches!(acts[0], TaskAction::SignalClose(2)));
    assert!(matches!(acts[1], TaskAction::Send(MsgZenohToGui::DelSubRes(2))));
    assert!(matches!(acts[2], TaskAction::SignalClose(9)));
    assert!(matches!(acts[3], TaskAction::Send(MsgZenohToGui::DelSubRes(9))));
    assert!(l.subscribers.is_empty());
}

#[test]
fn failed_declaration_ends_the_task() {
    let mut l = SessionLoop::new();
    let acts = l.subscriber_declared(3, Err("denied".to_string()));
    assert_eq!(acts.len(), 2);
    assert!(matches!(&acts[0], TaskAction::Send(MsgZenohToGui::AddSubRes(b)) if b.0 == 3 && b.1 == Err("denied".to_string())));
    assert!(matches!(acts[1], TaskAction::Exit));
    assert!(l.subscribers.is_empty());
}

#[test]
fn session_and_put_reports() {
    let acts = session_opened(4, Ok(()));
    assert_eq!(acts.len(), 1);
    assert!(matches!(acts[0], TaskAction::Send(MsgZenohToGui::OpenSession(Ok(4)))));
    let acts = session_opened(4, Err("e".to_string()));
    assert_eq!(acts.len(), 2);
    assert!(matches!(&acts[0], TaskAction::Send(MsgZenohToGui::OpenSession(Err((4, e)))) if e == "e"));
    assert!(matches!(acts[1], TaskAction::Exit));
    match put_done(2, "a/b", Ok(())) {
        MsgZenohToGui::PutRes(b) => assert_eq!(*b, (2, true, "put ok \"a/b\"".to_string())),
        _ => panic!(),
    }
    match put_done(2, "a/b", Err("closed".to_string())) {
        MsgZenohToGui::PutRes(b) => assert_eq!(*b, (2, false, "put error \"a/b\", closed".to_string())),
        _ => panic!(),
    }
}

#[test]
fn a_run_of_requests_leaves_the_declared_subscribers() {
    let mut l = SessionLoop::new();
    let msgs = vec![sub(4), sub(1), MsgGuiToZenoh::DelSubReq(4), sub(6), MsgGuiToZenoh::DelSubReq(3)];
    for m in msgs {
        let acts = l.on_received(Received::Msg(m));
        if let TaskAction::Declare(d) = &acts[0] {
            let id = d.id;
            l.subscriber_declared(id, Ok(()));
        }
    }
    assert_eq!(l.subscribers, vec![1, 6]);
    let acts = l.stop();
    assert_eq!(acts.len(), 4);
    assert!(matches!(acts[1], TaskAction::Send(MsgZenohToGui::DelSubRes(1))));
    assert!(matches!(acts[3], TaskAction::Send(MsgZenohToGui::DelSubRes(6))));
}
