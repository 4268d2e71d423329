use gane::notifications::push::{
    Channel, DeliveryStatus, Notification, NotificationDispatcher, NotificationPreferences, Priority,
};
use gane::types::EntityId;

fn make_notif(priority: Priority, channel: Channel, user_id: EntityId) -> Notification {
    Notification::new("Test", "Body", priority, channel, user_id)
}

#[test]
fn test_enqueue_and_process() {
    let mut dispatcher = NotificationDispatcher::new(100);
    let uid = EntityId::new();
    dispatcher.enqueue(make_notif(Priority::Normal, Channel::InApp, uid));
    dispatcher.enqueue(make_notif(Priority::High, Channel::Push, uid));
    assert_eq!(dispatcher.queue_len(), 2);
    let (delivered, skipped) = dispatcher.process(12);
    assert_eq!(delivered, 2);
    assert_eq!(skipped, 0);
    assert_eq!(dispatcher.delivered_count(), 2);
}

#[test]
fn test_quiet_hours_block() {
    let mut dispatcher = NotificationDispatcher::new(100);
    let uid = EntityId::new();
    let mut prefs = NotificationPreferences::default_for(uid);
    prefs.quiet_hours_start = Some(22);
    prefs.quiet_hours_end = Some(6);
    dispatcher.set_preferences(prefs);
    dispatcher.enqueue(make_notif(Priority::Normal, Channel::InApp, uid));
    let (delivered, skipped) = dispatcher.process(23);
    assert_eq!(delivered, 0);
    assert_eq!(skipped, 1);
}

#[test]
fn test_critical_bypasses_quiet_hours() {
    let mut dispatcher = NotificationDispatcher::new(100);
    let uid = EntityId::new();
    let mut prefs = NotificationPreferences::default_for(uid);
    prefs.quiet_hours_start = Some(22);
    prefs.quiet_hours_end = Some(6);
    dispatcher.set_preferences(prefs);
    dispatcher.enqueue(make_notif(Priority::Critical, Channel::InApp, uid));
    let (delivered, _) = dispatcher.process(23);
    assert_eq!(delivered, 1);
}

#[test]
fn test_min_priority_filter() {
    let mut dispatcher = NotificationDispatcher::new(100);
    let uid = EntityId::new();
    let mut prefs = NotificationPreferences::default_for(uid);
    prefs.min_priority = Priority::High;
    dispatcher.set_preferences(prefs);
    dispatcher.enqueue(make_notif(Priority::Low, Channel::InApp, uid));
    dispatcher.enqueue(make_notif(Priority::High, Channel::InApp, uid));
    let (delivered, skipped) = dispatcher.process(12);
    assert_eq!(delivered, 1);
    assert_eq!(skipped, 1);
}

#[test]
fn test_channel_filter() {
    let mut dispatcher = NotificationDispatcher::new(100);
    let uid = EntityId::new();
    let mut prefs = NotificationPreferences::default_for(uid);
    prefs.enabled_channels = vec![Channel::InApp];
    dispatcher.set_preferences(prefs);
    dispatcher.enqueue(make_notif(Priority::Normal, Channel::Push, uid));
    let (delivered, skipped) = dispatcher.process(12);
    assert_eq!(delivered, 0);
    assert_eq!(skipped, 1);
}

#[test]
fn test_queue_eviction() {
    let mut dispatcher = NotificationDispatcher::new(2);
    let uid = EntityId::new();
    dispatcher.enqueue(make_notif(Priority::Low, Channel::InApp, uid));
    dispatcher.enqueue(make_notif(Priority::Normal, Channel::InApp, uid));
    let ok = dispatcher.enqueue(make_notif(Priority::High, Channel::InApp, uid));
    assert!(ok);
    assert_eq!(dispatcher.queue_len(), 2);
}

#[test]
fn test_queue_full_reject() {
    let mut dispatcher = NotificationDispatcher::new(2);
    let uid = EntityId::new();
    dispatcher.enqueue(make_notif(Priority::High, Channel::InApp, uid));
    dispatcher.enqueue(make_notif(Priority::High, Channel::InApp, uid));
    let ok = dispatcher.enqueue(make_notif(Priority::Low, Channel::InApp, uid));
    assert!(!ok);
}

#[test]
fn test_mark_read() {
    let mut dispatcher = NotificationDispatcher::new(100);
    let uid = EntityId::new();
    let notif = make_notif(Priority::Normal, Channel::InApp, uid);
    let nid = notif.id;
    dispatcher.enqueue(notif);
    dispatcher.process(12);
    assert_eq!(dispatcher.unread_count(uid), 1);
    assert!(dispatcher.mark_read(nid));
    assert_eq!(dispatcher.unread_count(uid), 0);
    assert!(!dispatcher.mark_read(EntityId::from_u128(1)));
}

#[test]
fn test_delivered_for_user() {
    let mut dispatcher = NotificationDispatcher::new(100);
    let u1 = EntityId::new();
    let u2 = EntityId::new();
    dispatcher.enqueue(make_notif(Priority::Normal, Channel::InApp, u1));
    dispatcher.enqueue(make_notif(Priority::Normal, Channel::InApp, u1));
    dispatcher.enqueue(make_notif(Priority::Normal, Channel::InApp, u2));
    dispatcher.process(12);
    assert_eq!(dispatcher.delivered_for_user(u1).len(), 2);
    assert_eq!(dispatcher.delivered_for_user(u2).len(), 1);
    let got = dispatcher.delivered_for_user(u1);
    assert!(got.iter().all(|n| n.status == DeliveryStatus::Delivered && n.delivered_at_ms.is_some()));
}

#[test]
fn test_quiet_hours_same_day() {
    let mut dispatcher = NotificationDispatcher::new(100);
    let uid = EntityId::new();
    let mut prefs = NotificationPreferences::default_for(uid);
    prefs.quiet_hours_start = Some(13);
    prefs.quiet_hours_end = Some(15);
    dispatcher.set_preferences(prefs);
    dispatcher.enqueue(make_notif(Priority::Normal, Channel::InApp, uid));
    let (delivered, _) = dispatcher.process(14);
    assert_eq!(delivered, 0);
    assert_eq!(dispatcher.queue_len(), 1);
    dispatcher.enqueue(make_notif(Priority::Normal, Channel::InApp, uid));
    let (delivered, _) = dispatcher.process(16);
    assert_eq!(delivered, 2);
}

#[test]
fn should_deliver_quiet_hours_boundaries() {
    let uid = EntityId::from_u128(3);
    let mut prefs = NotificationPreferences::default_for(uid);
    prefs.quiet_hours_start = Some(22);
    prefs.quiet_hours_end = Some(6);
    let n = make_notif(Priority::High, Channel::Push, uid);
    assert!(!prefs.should_deliver(&n, 22));
    assert!(!prefs.should_deliver(&n, 5));
    assert!(prefs.should_deliver(&n, 6));
    assert!(prefs.should_deliver(&n, 21));
    let sms = make_notif(Priority::Critical, Channel::Sms, uid);
    assert!(!prefs.should_deliver(&sms, 12));
}

#[test]
fn set_preferences_replaces_earlier() {
    let mut dispatcher = NotificationDispatcher::new(10);
    let uid = EntityId::new();
    let mut strict = NotificationPreferences::default_for(uid);
    strict.min_priority = Priority::Critical;
    dispatcher.set_preferences(strict);
    dispatcher.set_preferences(NotificationPreferences::default_for(uid));
    dispatcher.enqueue(make_notif(Priority::Low, Channel::InApp, uid));
    assert_eq!(dispatcher.process(12), (1, 0));
}
