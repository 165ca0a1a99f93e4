use stripchat_recorder::notifications::{NotificationLevel, NotificationStore};

#[test]
fn ids_increase_and_read_ones_leave() {
    let mut s = NotificationStore::new();
    let a = s.push(NotificationLevel::Info, "x".to_string(), "one".to_string(), "t1".to_string(), None);
    let b = s.push(NotificationLevel::Error, "y".to_string(), "two".to_string(), "t2".to_string(), None);
    let c = s.push_with_details(
        NotificationLevel::Warning,
        "z".to_string(),
        "three".to_string(),
        Some("key".to_string()),
        Some(vec![("n".to_string(), "3".to_string())]),
        "t3".to_string(),
        None,
    );
    assert_eq!((a, b, c), (1, 2, 3));
    assert_eq!(s.unread_count(), 3);
    s.mark_read(&vec![2, 99]);
    let ids: Vec<u64> = s.notifications.iter().map(|n| n.id).collect();
    assert_eq!(ids, vec![1, 3]);
    assert_eq!(s.notifications[1].message_key.as_deref(), Some("key"));
    s.clear_all();
    assert_eq!(s.unread_count(), 0);
    let d = s.push(NotificationLevel::Info, "x".to_string(), "four".to_string(), "t4".to_string(), None);
    assert_eq!(d, 4);
}
