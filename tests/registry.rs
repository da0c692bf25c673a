use rust_tunnel::registry::{Action, Registry};

#[test]
fn identifiers_are_unique_and_entries_do_not_leak() {
    let mut r: Registry<u64, &str> = Registry::new();
    let mut last: Option<u64> = None;
    for _ in 0..1000 {
        let id = r.allocate_id().unwrap();
        if let Some(prev) = last {
            assert!(id > prev);
        }
        last = Some(id);
        assert!(r.register_session(id, id * 10).is_ok());
        assert!(r.store_channel(id, 0, "chan"));
        assert_eq!(r.session_count(), 1);
        assert_eq!(r.remove_session(id), Some(id * 10));
        assert_eq!(r.remove_session(id), None);
    }
    assert_eq!(r.session_count(), 0);
    assert_eq!(last, Some(999));
}

#[test]
fn forced_removal_of_finished_session_is_harmless() {
    let mut r: Registry<&str, u8> = Registry::new();
    let id = r.allocate_id().unwrap();
    r.register_session(id, "task").unwrap();
    assert_eq!(r.apply(Action::RemoveSession { session: id }), Some("task"));
    assert_eq!(r.apply(Action::RemoveSession { session: id }), None);
    assert_eq!(r.remove_session(id), None);
    assert_eq!(r.remove_session(12345), None);
    assert!(!r.contains_session(id));
}

#[test]
fn register_refuses_collisions_and_unissued_ids() {
    let mut r: Registry<&str, u8> = Registry::new();
    let id = r.allocate_id().unwrap();
    assert_eq!(id, 0);
    assert_eq!(r.register_session(id, "a"), Ok(()));
    assert_eq!(r.register_session(id, "b"), Err("b"));
    assert_eq!(r.register_session(5, "c"), Err("c"));
    assert!(r.contains_session(id));
    assert_eq!(r.session_count(), 1);
}

#[test]
fn stored_channel_is_taken_once() {
    let mut r: Registry<(), &str> = Registry::new();
    let id = r.allocate_id().unwrap();
    r.register_session(id, ()).unwrap();
    assert!(r.store_channel(id, 3, "chan"));
    assert_eq!(r.take_channel(id, 3), Some("chan"));
    assert_eq!(r.take_channel(id, 3), None);
    assert_eq!(r.take_channel(id, 4), None);
}

#[test]
fn removed_channel_cannot_be_taken() {
    let mut r: Registry<(), &str> = Registry::new();
    let id = r.allocate_id().unwrap();
    r.register_session(id, ()).unwrap();
    r.apply(Action::StoreChannel { session: id, channel: 1, chan: "a" });
    r.apply(Action::RemoveChannel { session: id, channel: 1 });
    r.remove_channel(id, 1);
    assert_eq!(r.take_channel(id, 1), None);
}

#[test]
fn channels_die_with_their_session() {
    let mut r: Registry<(), &str> = Registry::new();
    let id = r.allocate_id().unwrap();
    assert!(!r.store_channel(id, 1, "early"));
    r.register_session(id, ()).unwrap();
    r.store_channel(id, 1, "a");
    r.remove_session(id);
    assert!(!r.store_channel(id, 2, "late"));
    assert_eq!(r.take_channel(id, 1), None);
}

#[test]
fn removal_leaves_other_sessions_alone() {
    let mut r: Registry<&str, u8> = Registry::new();
    let a = r.allocate_id().unwrap();
    let b = r.allocate_id().unwrap();
    r.register_session(a, "a").unwrap();
    r.register_session(b, "b").unwrap();
    r.store_channel(b, 1, 9);
    assert_eq!(r.remove_session(a), Some("a"));
    assert_eq!(r.remove_session(a), None);
    assert!(r.contains_session(b));
    assert_eq!(r.take_channel(b, 1), Some(9));
}
