//! Notifications and their queue.

use clearxr_space::shell::notifications::{
    Duration, Notification, NotificationLevel, NotificationQueue,
};
use std::time::Instant;

fn wait_millis(count: u128) {
    let start = Instant::now();
    while start.elapsed().as_millis() < count {}
}

fn progress(n: &Notification) -> f32 {
    f32::from_bits(n.progress().to_bits())
}

#[test]
fn notification_info_defaults() {
    let n = Notification::info("Test", "Body");
    assert_eq!(n.level, NotificationLevel::Info);
    assert_eq!(n.duration, Duration::from_secs(4));
    assert!(!n.is_expired());
}

#[test]
fn notification_progress() {
    let n = Notification::info("Test", "Body");
    assert!(progress(&n) < 0.1); // Just created
}

#[test]
fn notification_expires() {
    let mut n = Notification::info("Test", "Body");
    n.duration = Duration::from_millis(10);
    wait_millis(15);
    assert!(n.is_expired());
    assert!((progress(&n) - 1.0).abs() < 0.01);
}

#[test]
fn queue_push_and_tick() {
    let mut q = NotificationQueue::new(3);
    q.push(Notification::info("A", ""));
    q.push(Notification::info("B", ""));
    assert_eq!(q.count(), 2);

    // Not expired yet
    q.tick();
    assert_eq!(q.count(), 2);
}

#[test]
fn queue_max_visible() {
    let mut q = NotificationQueue::new(2);
    q.push(Notification::info("A", ""));
    q.push(Notification::info("B", ""));
    q.push(Notification::info("C", ""));
    assert_eq!(q.count(), 2);
    // Oldest (A) should have been removed
    assert_eq!(q.visible()[0].title, "B");
}

#[test]
fn queue_tick_removes_expired() {
    let mut q = NotificationQueue::new(5);
    let mut n = Notification::info("Expire", "");
    n.duration = Duration::from_millis(10);
    q.push(n);
    q.push(Notification::info("Stay", ""));

    wait_millis(15);
    q.tick();

    assert_eq!(q.count(), 1);
    assert_eq!(q.visible()[0].title, "Stay");
}

#[test]
fn queue_clear() {
    let mut q = NotificationQueue::new(5);
    q.push(Notification::info("A", ""));
    q.push(Notification::warning("B", ""));
    q.clear();
    assert_eq!(q.count(), 0);
}

#[test]
fn notification_warning_longer_than_info() {
    let info = Notification::info("A", "");
    let warn = Notification::warning("B", "");
    assert!(warn.duration > info.duration);
}

#[test]
fn notification_success_shortest() {
    let success = Notification::success("A", "");
    let info = Notification::info("B", "");
    assert!(success.duration < info.duration);
}

#[test]
fn queue_empty_tick() {
    let mut q = NotificationQueue::new(3);
    q.tick(); // Should not crash on empty queue
    assert_eq!(q.count(), 0);
}

#[test]
fn queue_max_visible_one() {
    let mut q = NotificationQueue::new(1);
    q.push(Notification::info("A", ""));
    q.push(Notification::info("B", ""));
    assert_eq!(q.count(), 1);
    assert_eq!(q.visible()[0].title, "B");
}

#[test]
fn notification_fifo_order() {
    let mut q = NotificationQueue::new(10);
    q.push(Notification::info("First", ""));
    q.push(Notification::info("Second", ""));
    q.push(Notification::info("Third", ""));
    let vis = q.visible();
    assert_eq!(vis[0].title, "First");
    assert_eq!(vis[1].title, "Second");
    assert_eq!(vis[2].title, "Third");
}

#[test]
fn notification_body_preserved() {
    let n = Notification::info("Title", "Some body text");
    assert_eq!(n.title, "Title");
    assert_eq!(n.body, "Some body text");
}

#[test]
fn notification_levels_distinct() {
    let info = Notification::info("", "");
    let warn = Notification::warning("", "");
    let success = Notification::success("", "");
    assert_ne!(info.level, warn.level);
    assert_ne!(info.level, success.level);
    assert_ne!(warn.level, success.level);
}

#[test]
fn notification_not_expired_immediately() {
    let n = Notification::info("Test", "Body");
    assert!(!n.is_expired());
    let w = Notification::warning("Test", "Body");
    assert!(!w.is_expired());
    let s = Notification::success("Test", "Body");
    assert!(!s.is_expired());
}

#[test]
fn queue_visible_returns_all_active() {
    let mut q = NotificationQueue::new(5);
    q.push(Notification::info("A", "body1"));
    q.push(Notification::warning("B", "body2"));
    q.push(Notification::success("C", "body3"));
    let vis = q.visible();
    assert_eq!(vis.len(), 3);
    assert_eq!(vis[0].body, "body1");
    assert_eq!(vis[1].body, "body2");
    assert_eq!(vis[2].body, "body3");
}

#[test]
fn display_times() {
    assert_eq!(Notification::info("", "").duration, Duration::from_secs(4));
    assert_eq!(Notification::warning("", "").duration, Duration::from_secs(6));
    assert_eq!(Notification::success("", "").duration, Duration::from_secs(3));
    assert_eq!(Duration::from_secs(2), Duration::from_millis(2000));
    assert_eq!(Duration::from_millis(1).nanos, 1_000_000);
}

#[test]
fn expiry_comes_with_the_full_duration() {
    let n = Notification::info("Test", "Body");
    assert!(!n.is_expired_at(Duration { nanos: n.duration.nanos - 1 }));
    assert!(n.is_expired_at(n.duration));
}

#[test]
fn a_queue_without_room_keeps_nothing() {
    let mut q = NotificationQueue::new(0);
    q.push(Notification::info("A", ""));
    assert_eq!(q.count(), 0);
}

#[test]
fn given_ages_decide_who_stays() {
    let mut q = NotificationQueue::new(3);
    q.push(Notification::info("A", ""));
    q.push(Notification::warning("B", ""));
    q.push(Notification::success("C", ""));
    q.retain_unexpired(&vec![
        Duration::from_secs(4),
        Duration::from_secs(5),
        Duration::from_secs(2),
    ]);
    let titles: Vec<&str> = q.visible().iter().map(|n| n.title.as_str()).collect();
    assert_eq!(titles, vec!["B", "C"]);
}

#[test]
fn age_grows() {
    let n = Notification::info("Test", "Body");
    wait_millis(2);
    let first = n.age();
    assert!(first >= Duration::from_millis(2));
    wait_millis(2);
    assert!(n.age() > first);
}

#[test]
fn a_clone_says_the_same() {
    let n = Notification::warning("Title", "Body");
    let copy = n.clone();
    assert_eq!(copy.title, "Title");
    assert_eq!(copy.body, "Body");
    assert_eq!(copy.level, NotificationLevel::Warning);
    assert_eq!(copy.duration, n.duration);
    assert_eq!(copy.created, n.created);
}

#[test]
fn many_pushes_show_the_newest() {
    let mut q = NotificationQueue::new(3);
    for title in ["A", "B", "C", "D", "E"] {
        q.push(Notification::info(title, ""));
    }
    let titles: Vec<&str> = q.visible().iter().map(|n| n.title.as_str()).collect();
    assert_eq!(titles, vec!["C", "D", "E"]);
    let ages = vec![Duration::from_secs(4), Duration::from_secs(1), Duration::from_secs(1)];
    q.retain_unexpired(&ages);
    assert_eq!(q.count(), 2);
    q.retain_unexpired(&ages[1..].to_vec());
    assert_eq!(q.count(), 2);
    q.clear();
    q.push(Notification::info("F", ""));
    assert_eq!(q.count(), 1);
}

#[test]
fn progress_is_the_share_of_the_time() {
    let mut n = Notification::info("Test", "Body");
    let after = |n: &Notification, nanos: u128| {
        f32::from_bits(n.progress_after(Duration { nanos }).to_bits())
    };
    assert_eq!(after(&n, 0), 0.0);
    assert_eq!(after(&n, 1_000_000_000), 0.25);
    assert_eq!(after(&n, 3_500_000_000), 0.875);
    assert_eq!(after(&n, 4_000_000_000), 1.0);
    assert_eq!(after(&n, 9_000_000_000_000), 1.0);
    n.duration = Duration { nanos: 0 };
    assert_eq!(after(&n, 0), 1.0);
    assert_eq!(after(&n, 5), 1.0);
}

#[test]
fn progress_never_goes_back_and_ends_at_one() {
    let mut n = Notification::info("Test", "Body");
    for total in [1u128, 999_999_999, 1_000_000_001, 3_333_333_333, 20_000_000_000_000_000_000_000] {
        n.duration = Duration { nanos: total };
        let mut before = 0.0;
        for step in 0..=300u128 {
            let age = Duration { nanos: total / 299 * step };
            let now = f32::from_bits(n.progress_after(age).to_bits());
            assert!(before <= now && now <= 1.0);
            assert!(!n.is_expired_at(age) || now == 1.0);
            before = now;
        }
        let end = Duration { nanos: total };
        assert_eq!(f32::from_bits(n.progress_after(end).to_bits()), 1.0);
    }
}

#[test]
fn seconds_are_those_of_the_machine() {
    let mut nanos: u128 = 1;
    while nanos < 12_000_000_000_000_000_000_000_000_000 {
        for near in [nanos - 1, nanos, nanos + 1, nanos * 7 / 5] {
            let (secs, rest) = ((near / 1_000_000_000) as u64, (near % 1_000_000_000) as u32);
            let machine = std::time::Duration::new(secs, rest).as_secs_f32();
            assert_eq!(Duration { nanos: near }.as_secs_f32().to_bits(), machine.to_bits());
        }
        nanos = nanos * 3 / 2 + 1;
    }
}

#[test]
fn a_cleared_queue_is_like_a_new_one() {
    let mut used = NotificationQueue::new(2);
    for title in ["A", "B", "C"] {
        used.push(Notification::info(title, ""));
        used.tick();
    }
    used.clear();
    let mut fresh = NotificationQueue::new(2);
    let steps = |q: &mut NotificationQueue| {
        q.push(Notification::info("D", ""));
        q.tick();
        q.push(Notification::warning("E", ""));
        q.clear();
        q.push(Notification::success("F", ""));
        q.push(Notification::info("G", ""));
        q.push(Notification::info("H", ""));
        q.tick();
        q.visible().iter().map(|n| n.title.clone()).collect::<Vec<String>>()
    };
    let left = steps(&mut used);
    assert_eq!(left, vec!["G", "H"]);
    assert_eq!(left, steps(&mut fresh));
}
