use v8_bridge::errors::OpLane;
use v8_bridge::ops::{next_op_id, AsyncLane, OpStore, SyncLane, SyncResponse};

fn s(text: &str) -> String {
    text.to_string()
}

#[test]
fn op_ids_start_at_one_and_wrap_to_one() {
    let mut counter: u64 = 0;
    assert_eq!(next_op_id(&mut counter), 1);
    assert_eq!(next_op_id(&mut counter), 2);
    assert_eq!(counter, 3);
    let mut top: u64 = u64::MAX - 1;
    assert_eq!(next_op_id(&mut top), u64::MAX - 1);
    assert_eq!(next_op_id(&mut top), u64::MAX);
    assert_eq!(top, 1);
    assert_eq!(next_op_id(&mut top), 1);
}

#[test]
fn unregistered_sync_op_is_refused() {
    let mut lane: SyncLane<String, u32> = SyncLane::new(OpLane::SyncJson);
    let err = lane.dispatch(s("read"), s("{}")).err().unwrap();
    assert_eq!(err.message(), "sync json op is not registered: read");
    assert_eq!(lane.take(), 0);
}

#[test]
fn registered_sync_op_without_response_is_recorded_then_refused() {
    let mut lane: SyncLane<Vec<u8>, u32> = SyncLane::new(OpLane::SyncBytes);
    lane.register(s("read"));
    assert!(lane.is_registered(&s("read")));
    let err = lane.dispatch(s("read"), vec![1, 2]).err().unwrap();
    assert_eq!(err.message(), "sync bytes op has no queued response: read");
    let id = lane.take();
    assert_eq!(id, 1);
    let op = lane.lookup(id).ok().unwrap();
    assert_eq!(op.name, "read");
    assert_eq!(op.payload, vec![1, 2]);
}

#[test]
fn preloaded_responses_answer_in_order() {
    let mut lane: SyncLane<String, u32> = SyncLane::new(OpLane::SyncJson);
    lane.register(s("add"));
    lane.push_response(s("add"), s("[1,2]"), s("3"));
    lane.push_response(s("add"), s("[1,2]"), s("4"));
    lane.push_response(s("add"), s("[2,2]"), s("5"));
    match lane.dispatch(s("add"), s("[1,2]")) {
        Ok(SyncResponse::Preloaded(r)) => assert_eq!(r, "3"),
        _ => panic!("expected a preloaded response"),
    }
    match lane.dispatch(s("add"), s("[2,2]")) {
        Ok(SyncResponse::Preloaded(r)) => assert_eq!(r, "5"),
        _ => panic!("expected a preloaded response"),
    }
    match lane.dispatch(s("add"), s("[1,2]")) {
        Ok(SyncResponse::Preloaded(r)) => assert_eq!(r, "4"),
        _ => panic!("expected a preloaded response"),
    }
    let err = lane.dispatch(s("add"), s("[1,2]")).err().unwrap();
    assert_eq!(err.message(), "sync json op has no queued response: add");
}

#[test]
fn sync_callback_takes_precedence_over_preloaded_response() {
    let mut lane: SyncLane<String, u32> = SyncLane::new(OpLane::SyncJson);
    lane.push_response(s("now"), s("null"), s("1"));
    assert_eq!(lane.register_callback(s("now"), 7), None);
    assert!(lane.is_registered(&s("now")));
    match lane.dispatch(s("now"), s("null")) {
        Ok(SyncResponse::Callback(c)) => assert_eq!(c, 7),
        _ => panic!("expected the callback"),
    }
    assert_eq!(lane.register_callback(s("now"), 8), Some(7));
    assert_eq!(lane.callback_list(), vec![8]);
}

#[test]
fn sync_take_is_fifo_and_delete_closes() {
    let mut lane: SyncLane<String, u32> = SyncLane::new(OpLane::SyncJson);
    lane.register_callback(s("a"), 1);
    lane.register_callback(s("b"), 2);
    assert!(lane.dispatch(s("a"), s("1")).is_ok());
    assert!(lane.dispatch(s("b"), s("2")).is_ok());
    let first = lane.take();
    let second = lane.take();
    assert_eq!((first, second), (1, 2));
    assert_eq!(lane.take(), 0);
    assert_eq!(lane.lookup(second).ok().unwrap().name, "b");
    lane.delete(first);
    assert_eq!(lane.lookup(first).err().unwrap().message(), "sync json op is closed");
    assert_eq!(lane.lookup(0).err().unwrap().message(), "sync json op id is invalid");
    assert_eq!(lane.lookup(second).ok().unwrap().payload, "2");
}

#[test]
fn async_route_decides_by_registration_and_callback() {
    let mut lane: AsyncLane<String, u32, &'static str> = AsyncLane::new(OpLane::AsyncJson);
    assert_eq!(
        lane.route(&s("fetch")).err().unwrap().message(),
        "async json op is not registered: fetch"
    );
    lane.register(s("fetch"));
    assert_eq!(lane.route(&s("fetch")).ok().unwrap(), None);
    lane.register_callback(s("fetch"), 9);
    assert_eq!(lane.route(&s("fetch")).ok().unwrap(), Some(9));
}

#[test]
fn async_round_trip() {
    let mut lane: AsyncLane<Vec<u8>, u32, &'static str> = AsyncLane::new(OpLane::AsyncBytes);
    lane.register(s("get"));
    let id = lane.enqueue(s("get"), vec![5], "resolver");
    assert_eq!(id, 1);
    assert_eq!(lane.take(), id);
    assert_eq!(lane.take(), 0);
    let op = lane.lookup(id).ok().unwrap();
    assert_eq!(op.name, "get");
    assert_eq!(op.payload, vec![5]);
    assert_eq!(op.resolver, "resolver");
    lane.finish(id);
    assert_eq!(lane.lookup(id).err().unwrap().message(), "async bytes op is closed");
    assert_eq!(lane.lookup(0).err().unwrap().message(), "async bytes op id is invalid");
}

#[test]
fn op_store_collects_every_callback() {
    let mut store: OpStore<u32, ()> = OpStore::new();
    store.sync_json.register_callback(s("a"), 1);
    store.sync_bytes.register_callback(s("b"), 2);
    store.async_json.register_callback(s("c"), 3);
    store.async_bytes.register_callback(s("d"), 4);
    let mut all = store.all_callbacks();
    all.sort();
    assert_eq!(all, vec![1, 2, 3, 4]);
}

#[test]
fn async_queue_is_fifo() {
    let mut lane: AsyncLane<String, u32, u8> = AsyncLane::new(OpLane::AsyncJson);
    lane.register(s("tick"));
    let a = lane.enqueue(s("tick"), s("1"), 1);
    let b = lane.enqueue(s("tick"), s("2"), 2);
    let c = lane.enqueue(s("tick"), s("3"), 3);
    assert_eq!((a, b, c), (1, 2, 3));
    assert_eq!(lane.take(), a);
    let d = lane.enqueue(s("tick"), s("4"), 4);
    assert_eq!(lane.take(), b);
    assert_eq!(lane.take(), c);
    assert_eq!(lane.take(), d);
    assert_eq!(lane.take(), 0);
    assert_eq!(lane.lookup(c).ok().unwrap().payload, "3");
}

#[test]
fn dispatched_call_joins_the_end_of_the_queue() {
    let mut lane: SyncLane<String, u32> = SyncLane::new(OpLane::SyncJson);
    lane.register_callback(s("f"), 1);
    assert!(lane.dispatch(s("f"), s("a")).is_ok());
    assert!(lane.dispatch(s("f"), s("b")).is_ok());
    assert!(lane.dispatch(s("f"), s("c")).is_ok());
    assert_eq!(lane.take(), 1);
    assert_eq!(lane.take(), 2);
    let third = lane.take();
    assert_eq!(third, 3);
    assert_eq!(lane.lookup(third).ok().unwrap().payload, "c");
}

#[test]
fn op_store_lists_each_callback_once_per_name() {
    let mut store: OpStore<u32, ()> = OpStore::new();
    store.sync_json.register_callback(s("a"), 1);
    store.sync_json.register_callback(s("b"), 1);
    assert_eq!(store.sync_json.register_callback(s("a"), 2), Some(1));
    store.async_bytes.register(s("plain"));
    let mut all = store.all_callbacks();
    all.sort();
    assert_eq!(all, vec![1, 2]);
}

#[test]
fn op_ids_are_not_reused_after_settling() {
    let mut lane: AsyncLane<String, u32, u8> = AsyncLane::new(OpLane::AsyncJson);
    lane.register(s("x"));
    let a = lane.enqueue(s("x"), s("1"), 1);
    assert_eq!(lane.take(), a);
    lane.finish(a);
    let b = lane.enqueue(s("x"), s("2"), 2);
    assert_ne!(a, b);
    assert!(lane.lookup(a).is_err());
    assert_eq!(lane.lookup(b).ok().unwrap().resolver, 2);
}

#[test]
fn successive_sync_takes_return_queue_in_order_then_zero() {
    let mut lane: SyncLane<String, u32> = SyncLane::new(OpLane::SyncJson);
    lane.register_callback(s("f"), 1);
    let mut expected = Vec::new();
    for i in 0..5 {
        assert!(lane.dispatch(s("f"), format!("{i}")).is_ok());
        expected.push(i as u64 + 1);
    }
    let taken: Vec<u64> = (0..7).map(|_| lane.take()).collect();
    assert_eq!(&taken[..5], &expected[..]);
    assert_eq!(&taken[5..], &[0, 0]);
    for id in expected {
        assert!(lane.lookup(id).is_ok());
    }
}
