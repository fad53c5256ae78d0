use oxidize_the_moon::data::{CustomHandler, DataKind};
use oxidize_the_moon::dispatch::{Action, Dispatcher, Event};
use oxidize_the_moon::gate::{route, Route};
use oxidize_the_moon::registry::Registry;

fn filled(n: u32) -> Registry<Vec<u32>> {
    let mut reg = Registry::new();
    for _ in 0..n {
        assert!(reg.register(Vec::new()).is_some());
    }
    reg
}

#[test]
fn upgrade_is_promoted_whatever_the_path() {
    assert_eq!(route(true, true, "/anything"), Route::Upgrade);
    assert_eq!(route(true, false, "/"), Route::Upgrade);
}

#[test]
fn get_requests_are_served_from_the_asset_table() {
    let index = route(false, true, "/");
    assert_eq!(index, Route::Index);
    assert_eq!(index.asset_path(), Some("frontend/index.html"));
    assert_eq!(index.content_type(), None);

    let script = route(false, true, "/dist/data-collection.js");
    assert_eq!(script, Route::Script);
    assert_eq!(script.asset_path(), Some("frontend/dist/data-collection.js"));
    assert_eq!(script.content_type(), Some("application/javascript"));

    let other = route(false, true, "/missing");
    assert_eq!(other, Route::NotFound);
    assert_eq!(other.asset_path(), Some("frontend/404.html"));
}

#[test]
fn other_methods_get_an_empty_answer() {
    let r = route(false, false, "/");
    assert_eq!(r, Route::Empty);
    assert_eq!(r.asset_path(), None);
    assert_eq!(r.content_type(), None);
}

#[test]
fn registrations_get_fresh_identifiers() {
    let mut reg: Registry<u8> = Registry::new();
    assert_eq!(reg.len(), 0);
    assert_eq!(reg.register(7), Some(0));
    assert_eq!(reg.register(8), Some(1));
    assert_eq!(reg.len(), 2);
    assert!(reg.contains(0));
    assert!(reg.contains(1));
    assert!(!reg.contains(2));
}

#[test]
fn hundred_registrations_give_hundred_entries() {
    let reg = filled(100);
    assert_eq!(reg.len(), 100);
    for id in 0..100u64 {
        assert!(reg.contains(id));
    }
}

#[test]
fn one_pass_delivers_once_to_each_entry() {
    let mut reg = filled(5);
    let mut handles = reg.begin_pass();
    assert!(reg.is_in_pass());
    assert_eq!(handles.len(), 5);
    for h in handles.iter_mut() {
        h.push(99);
    }
    let delivered = vec![true; 5];
    reg.end_pass(handles, &delivered);
    assert!(!reg.is_in_pass());
    assert_eq!(reg.len(), 5);
    let handles = reg.begin_pass();
    for h in handles.iter() {
        assert_eq!(h, &vec![99]);
    }
    reg.end_pass(handles, &delivered);
}

#[test]
fn failed_delivery_removes_exactly_that_entry() {
    let mut reg = filled(4);
    let handles = reg.begin_pass();
    reg.end_pass(handles, &vec![true, true, false, true]);
    assert_eq!(reg.len(), 3);
    assert!(!reg.contains(2));
    assert!(reg.contains(0) && reg.contains(1) && reg.contains(3));

    let mut handles = reg.begin_pass();
    assert_eq!(handles.len(), 3);
    for h in handles.iter_mut() {
        h.push(1);
    }
    reg.end_pass(handles, &vec![true; 3]);
    assert_eq!(reg.len(), 3);
    assert!(!reg.contains(2));
}

#[test]
fn hundred_entries_all_reached() {
    let mut reg = filled(100);
    let mut handles = reg.begin_pass();
    assert_eq!(handles.len(), 100);
    for h in handles.iter_mut() {
        h.push(5);
    }
    assert!(handles.iter().all(|h| h == &vec![5]));
    reg.end_pass(handles, &vec![true; 100]);
    assert_eq!(reg.len(), 100);
}

#[test]
fn deregister_is_idempotent() {
    let mut reg: Registry<u8> = Registry::new();
    reg.register(10);
    reg.register(11);
    reg.register(12);
    assert_eq!(reg.deregister(1), Some(11));
    assert_eq!(reg.len(), 2);
    assert_eq!(reg.deregister(1), None);
    assert_eq!(reg.len(), 2);
    assert!(reg.contains(0) && reg.contains(2));
    assert_eq!(reg.register(13), Some(3));
}

#[test]
fn deregister_after_reclamation_changes_nothing() {
    let mut reg = filled(2);
    let handles = reg.begin_pass();
    reg.end_pass(handles, &vec![false, true]);
    assert_eq!(reg.deregister(0), None);
    assert_eq!(reg.len(), 1);
}

#[test]
fn text_frame_is_handed_to_the_consumer() {
    let mut d = Dispatcher::new(3);
    let a: Action<(DataKind, i64), String> = d.on_event(Event::Text(Ok((DataKind::GameCommand, 42))));
    assert!(matches!(a, Action::Handle((DataKind::GameCommand, 42))));
    assert!(d.is_open());
}

#[test]
fn decode_error_then_recovery() {
    let mut d = Dispatcher::new(0);
    let a: Action<u32, String> = d.on_event(Event::Text(Err("not json".to_string())));
    assert!(matches!(a, Action::Discard(ref e) if e == "not json"));
    assert!(d.is_open());
    let b: Action<u32, String> = d.on_event(Event::Text(Ok(7)));
    assert!(matches!(b, Action::Handle(7)));
}

#[test]
fn binary_frame_is_ignored() {
    let mut d = Dispatcher::new(0);
    let a: Action<u32, String> = d.on_event(Event::Binary);
    assert!(matches!(a, Action::Ignore));
    assert!(d.is_open());
}

#[test]
fn close_stops_and_deregisters_once() {
    let mut d = Dispatcher::new(9);
    let a: Action<u32, String> = d.on_event(Event::Close);
    assert!(matches!(a, Action::Stop(9)));
    assert!(!d.is_open());
    let b: Action<u32, String> = d.on_event(Event::Ended);
    assert!(matches!(b, Action::Ignore));
    let c: Action<u32, String> = d.on_event(Event::Text(Ok(1)));
    assert!(matches!(c, Action::Ignore));
}

#[test]
fn end_of_stream_stops() {
    let mut d = Dispatcher::new(4);
    let a: Action<u32, String> = d.on_event(Event::Ended);
    assert!(matches!(a, Action::Stop(4)));
}

#[test]
fn handler_labels_each_kind() {
    let h = CustomHandler;
    assert_eq!(h.describe(DataKind::Lidar), "lidar");
    assert_eq!(h.describe(DataKind::Image3D), "3d Image");
    assert_eq!(h.describe(DataKind::GameCommand), "Command");
}
