//! Toast notification queue for the VR shell.
//!
//! Notifications appear briefly near the user's head, then auto-dismiss.

use crate::geometry::ONE_BITS;
use crate::scalar::Scalar;
use crate::seconds::{
    in_seconds, law_seconds_keep_order, law_time_is_not_zero, law_whole_seconds,
    lemma_nothing_shared, lemma_quotient_of_same, lemma_quotients_in_order, seconds,
};
use std::time::Instant;
use vstd::prelude::*;

verus! {

/// `std::time::Instant`, a reading of the monotonic clock.
#[verifier::external_type_specification]
#[verifier::external_body]
pub struct ExInstant(Instant);

/// Reads the monotonic clock with `Instant::now`. Nothing is claimed of the
/// reading.
#[verifier::external_body]
fn clock() -> (now: Instant) {
    Instant::now()
}

/// The nanoseconds that `Instant::elapsed` counts since `start`. Nothing is
/// claimed of the count, which depends on the clock.
#[verifier::external_body]
fn nanos_since(start: &Instant) -> (nanos: u128) {
    start.elapsed().as_nanos()
}

/// A length of time.
#[derive(Clone, Copy, Debug, PartialEq, Eq, PartialOrd, Ord, Structural)]
pub struct Duration {
    pub nanos: u128,
}

impl Duration {
    /// Whole seconds, in nanoseconds.
    pub open spec fn seconds(count: u64) -> int {
        count * 1_000_000_000
    }

    /// This many seconds.
    pub fn from_secs(count: u64) -> (duration: Duration)
        ensures
            duration.nanos == Duration::seconds(count),
    {
        Duration { nanos: count as u128 * 1_000_000_000 }
    }

    /// This many milliseconds.
    pub fn from_millis(count: u64) -> (duration: Duration)
        ensures
            duration.nanos == count * 1_000_000,
    {
        Duration { nanos: count as u128 * 1_000_000 }
    }
}

impl Duration {
    /// The seconds as a single.
    pub open spec fn in_seconds(self) -> Scalar {
        in_seconds(self.nanos as int)
    }

    /// The seconds as a single.
    pub fn as_secs_f32(&self) -> (value: Scalar)
        ensures
            value == self.in_seconds(),
    {
        seconds(self.nanos)
    }
}

/// Priority level affects display duration and position.
#[derive(Clone, Copy, Debug, PartialEq, Eq, Structural)]
pub enum NotificationLevel {
    /// Informational (4 second display).
    Info,
    /// Warning (6 second display).
    Warning,
    /// Success confirmation (3 second display).
    Success,
}

impl NotificationLevel {
    /// For how many seconds a notification of this level is shown.
    pub open spec fn display_seconds(self) -> u64 {
        match self {
            NotificationLevel::Info => 4,
            NotificationLevel::Warning => 6,
            NotificationLevel::Success => 3,
        }
    }
}

/// A queued notification.
#[derive(Debug)]
pub struct Notification {
    /// Notification headline text.
    pub title: String,
    /// Optional body text (may be empty).
    pub body: String,
    /// Severity / display style.
    pub level: NotificationLevel,
    /// When this notification was created.
    pub created: Instant,
    /// How long to display before auto-dismissing.
    pub duration: Duration,
}

impl Clone for Notification {
    /// The same notification, as old as this one.
    fn clone(&self) -> (copy: Self)
        ensures
            copy == *self,
    {
        Notification {
            title: self.title.clone(),
            body: self.body.clone(),
            level: self.level,
            created: self.created,
            duration: self.duration,
        }
    }
}

impl Notification {
    /// Whether the notification says this, at this level, for that level's
    /// time.
    pub open spec fn says(self, level: NotificationLevel, title: Seq<char>, body: Seq<char>) -> bool {
        &&& self.level == level
        &&& self.title@ == title
        &&& self.body@ == body
        &&& self.duration.nanos == Duration::seconds(level.display_seconds())
    }

    /// How much of its time the notification has been shown at this age, at most 1.
    pub open spec fn progress_at(self, age: Duration) -> Scalar {
        let one = Scalar { bits: ONE_BITS };
        let share = age.in_seconds().over(self.duration.in_seconds());
        if share.is_nan() || one.below(share) {
            one
        } else {
            share
        }
    }

    /// Whether the notification has expired at this age.
    pub open spec fn expired_at(self, age: Duration) -> bool {
        age.nanos >= self.duration.nanos
    }

    /// Create an info-level notification (4 second display).
    pub fn info(title: &str, body: &str) -> (notification: Self)
        ensures
            notification.says(NotificationLevel::Info, title@, body@),
    {
        Notification {
            title: title.to_owned(),
            body: body.to_owned(),
            level: NotificationLevel::Info,
            created: clock(),
            duration: Duration::from_secs(4),
        }
    }

    /// Create a warning-level notification (6 second display).
    pub fn warning(title: &str, body: &str) -> (notification: Self)
        ensures
            notification.says(NotificationLevel::Warning, title@, body@),
    {
        Notification {
            title: title.to_owned(),
            body: body.to_owned(),
            level: NotificationLevel::Warning,
            created: clock(),
            duration: Duration::from_secs(6),
        }
    }

    /// Create a success-level notification (3 second display).
    pub fn success(title: &str, body: &str) -> (notification: Self)
        ensures
            notification.says(NotificationLevel::Success, title@, body@),
    {
        Notification {
            title: title.to_owned(),
            body: body.to_owned(),
            level: NotificationLevel::Success,
            created: clock(),
            duration: Duration::from_secs(3),
        }
    }

    /// How old the notification is now. Nothing is claimed of the age, which
    /// depends on the clock; `is_expired_at` says what follows from each age.
    pub fn age(&self) -> Duration {
        Duration { nanos: nanos_since(&self.created) }
    }

    /// How much of its time the notification has been shown at this age.
    pub fn progress_after(&self, age: Duration) -> (progress: Scalar)
        ensures
            progress == self.progress_at(age),
    {
        let one = Scalar { bits: ONE_BITS };
        let share = age.as_secs_f32().quotient(self.duration.as_secs_f32());
        if share.reaches(one) || !one.reaches(share) {
            one
        } else {
            share
        }
    }

    /// Returns 0.0..1.0 progress through the notification's lifetime. Nothing is claimed
    /// of the age it is taken at, which depends on the clock; `progress_after` says what
    /// follows from each age.
    pub fn progress(&self) -> (progress: Scalar)
        ensures
            exists|age: Duration| progress == #[trigger] self.progress_at(age),
            progress.bits <= ONE_BITS,
            self.duration.nanos == 0 ==> progress.bits == ONE_BITS,
    {
        let age = self.age();
        proof {
            law_progress_grows(*self, age, age);
        }
        self.progress_after(age)
    }

    /// Whether the notification has expired at this age.
    pub fn is_expired_at(&self, age: Duration) -> (expired: bool)
        ensures
            expired == self.expired_at(age),
    {
        age.nanos >= self.duration.nanos
    }

    /// Whether the notification has expired.
    pub fn is_expired(&self) -> (expired: bool)
        ensures
            exists|age: Duration| expired == #[trigger] self.expired_at(age),
            self.duration.nanos == 0 ==> expired,
    {
        self.is_expired_at(self.age())
    }
}

/// The progress of a notification goes from 0 to 1 and is a number, whatever its age and
/// its time.
pub proof fn law_progress_is_a_share(notification: Notification, age: Duration)
    ensures
        ({
            let progress = notification.progress_at(age);
            &&& !progress.is_nan()
            &&& Scalar { bits: 0 }.at_most(progress)
            &&& progress.at_most(Scalar { bits: ONE_BITS })
        }),
{
    law_progress_grows(notification, age, age);
}

/// Progress never goes back, and a notification that has expired is at its end.
pub proof fn law_progress_grows(notification: Notification, young: Duration, old: Duration)
    requires
        young.nanos <= old.nanos,
    ensures
        notification.progress_at(young).at_most(notification.progress_at(old)),
        0 <= notification.progress_at(young).bits <= ONE_BITS,
        notification.expired_at(old) ==> notification.progress_at(old).bits == ONE_BITS,
{
    let total = notification.duration.in_seconds();
    law_seconds_keep_order(young.nanos as int, old.nanos as int);
    law_seconds_keep_order(notification.duration.nanos as int, notification.duration.nanos as int);
    law_seconds_keep_order(0, young.nanos as int);
    if total.bits > 0 {
        lemma_quotients_in_order(young.in_seconds(), old.in_seconds(), total);
        if notification.expired_at(old) {
            law_seconds_keep_order(notification.duration.nanos as int, old.nanos as int);
            lemma_quotients_in_order(total, old.in_seconds(), total);
            lemma_quotient_of_same(total);
        }
    }
}

/// The last `limit` entries.
pub open spec fn newest(entries: Seq<Notification>, limit: nat) -> Seq<Notification> {
    if entries.len() <= limit {
        entries
    } else {
        entries.skip(entries.len() - limit)
    }
}

/// The entries that have not expired at the given ages, in order.
pub open spec fn unexpired(entries: Seq<Notification>, ages: Seq<Duration>) -> Seq<Notification>
    decreases entries.len(),
{
    if entries.len() == 0 {
        Seq::empty()
    } else {
        let before = unexpired(entries.drop_last(), ages.drop_last());
        if entries.last().expired_at(ages.last()) {
            before
        } else {
            before.push(entries.last())
        }
    }
}

/// Manages a queue of active notifications.
pub struct NotificationQueue {
    active: Vec<Notification>,
    max_visible: usize,
}

impl NotificationQueue {
    /// The active notifications, oldest first.
    pub closed spec fn entries(self) -> Seq<Notification> {
        self.active@
    }

    /// How many notifications can be active.
    pub closed spec fn limit(self) -> nat {
        self.max_visible as nat
    }

    /// No more notifications are active than can be.
    pub open spec fn wf(self) -> bool {
        self.entries().len() <= self.limit()
    }

    /// Create a new queue that displays at most `max_visible` notifications at once.
    pub fn new(max_visible: usize) -> (queue: Self)
        ensures
            queue.entries() == Seq::<Notification>::empty(),
            queue.limit() == max_visible,
            queue.wf(),
    {
        NotificationQueue { active: Vec::new(), max_visible }
    }

    /// Add a notification to the queue, dropping the oldest beyond the limit.
    pub fn push(&mut self, notification: Notification)
        ensures
            final(self).entries() == newest(old(self).entries().push(notification), old(self).limit()),
            final(self).limit() == old(self).limit(),
            final(self).wf(),
    {
        self.active.push(notification);
        let ghost all = self.active@;
        let ghost limit = self.max_visible;
        let ghost mut dropped: int = 0;
        assert(all.skip(0) =~= all);
        // Trim if over max (remove oldest)
        while self.active.len() > self.max_visible
            invariant
                self.max_visible == limit,
                0 <= dropped <= all.len(),
                self.active@ == all.skip(dropped),
                dropped > 0 ==> dropped <= all.len() - limit,
            decreases self.active.len(),
        {
            self.active.remove(0);
            proof {
                assert(self.active@ =~= all.skip(dropped + 1));
                dropped = dropped + 1;
            }
        }
        assert(self.active@ =~= newest(all, limit as nat));
    }

    /// Keep the notifications that have not expired at the given ages.
    pub fn retain_unexpired(&mut self, ages: &Vec<Duration>)
        requires
            ages@.len() == old(self).entries().len(),
        ensures
            final(self).entries() == unexpired(old(self).entries(), ages@),
            final(self).limit() == old(self).limit(),
            old(self).wf() ==> final(self).wf(),
    {
        let ghost all = self.active@;
        let mut seen: usize = 0;
        let mut kept: usize = 0;
        let ghost limit = self.max_visible;
        assert(all.skip(0) =~= all);
        while seen < ages.len()
            invariant
                self.max_visible == limit,
                ages@.len() == all.len(),
                kept <= seen <= all.len(),
                kept == unexpired(all.take(seen as int), ages@.take(seen as int)).len(),
                self.active@ == unexpired(all.take(seen as int), ages@.take(seen as int))
                    + all.skip(seen as int),
            decreases ages.len() - seen,
        {
            let ghost next = all.take(seen + 1);
            let ghost next_ages = ages@.take(seen + 1);
            assert(next.drop_last() =~= all.take(seen as int));
            assert(next_ages.drop_last() =~= ages@.take(seen as int));
            assert(self.active@[kept as int] == all[seen as int]);
            if self.active[kept].is_expired_at(ages[seen]) {
                self.active.remove(kept);
            } else {
                kept += 1;
            }
            assert(self.active@ =~= unexpired(next, next_ages) + all.skip(seen + 1));
            seen += 1;
        }
        assert(all.take(seen as int) =~= all);
        assert(ages@.take(seen as int) =~= ages@);
        assert(self.active@ =~= unexpired(all, ages@));
        proof {
            lemma_unexpired_length(all, ages@);
        }
    }

    /// Remove expired notifications. Called each frame.
    pub fn tick(&mut self)
        ensures
            exists|ages: Seq<Duration>|
                ages.len() == old(self).entries().len() && final(self).entries()
                    == #[trigger] unexpired(old(self).entries(), ages),
            final(self).limit() == old(self).limit(),
            old(self).wf() ==> final(self).wf(),
            old(self).entries().len() == 0 ==> final(self).entries().len() == 0,
    {
        let mut ages: Vec<Duration> = Vec::new();
        let mut i: usize = 0;
        while i < self.active.len()
            invariant
                i <= self.active.len(),
                ages@.len() == i,
            decreases self.active.len() - i,
        {
            ages.push(self.active[i].age());
            i += 1;
        }
        self.retain_unexpired(&ages);
    }

    /// Currently visible notifications.
    pub fn visible(&self) -> (entries: &[Notification])
        ensures
            entries@ == self.entries(),
    {
        self.active.as_slice()
    }

    /// Number of active notifications.
    pub fn count(&self) -> (count: usize)
        ensures
            count == self.entries().len(),
    {
        self.active.len()
    }

    /// Clear all notifications.
    pub fn clear(&mut self)
        ensures
            final(self).entries() == Seq::<Notification>::empty(),
            final(self).limit() == old(self).limit(),
            final(self).wf(),
    {
        self.active.clear();
    }
}

proof fn lemma_unexpired_length(entries: Seq<Notification>, ages: Seq<Duration>)
    ensures
        unexpired(entries, ages).len() <= entries.len(),
    decreases entries.len(),
{
    if entries.len() > 0 {
        lemma_unexpired_length(entries.drop_last(), ages.drop_last());
    }
}

/// Pushing keeps the queue within its limit, and the notification pushed is the
/// last one shown (if any can be shown).
pub proof fn law_push_is_bounded(entries: Seq<Notification>, limit: nat, added: Notification)
    ensures
        newest(entries.push(added), limit).len() <= limit,
        limit > 0 ==> newest(entries.push(added), limit).last() == added,
{
}

/// The queue is first in, first out: whatever stays keeps its order, and only
/// the oldest ones leave.
pub proof fn law_push_is_fifo(
    entries: Seq<Notification>,
    limit: nat,
    added: Notification,
    i: int,
)
    requires
        0 <= i < newest(entries.push(added), limit).len(),
    ensures
        newest(entries.push(added), limit)[i] == entries.push(added)[entries.len() + 1
            - newest(entries.push(added), limit).len() + i],
{
}

/// Below the limit a push loses nothing.
pub proof fn law_push_below_limit(entries: Seq<Notification>, limit: nat, added: Notification)
    requires
        entries.len() < limit,
    ensures
        newest(entries.push(added), limit) == entries.push(added),
{
}

/// While nothing has expired, ticking changes nothing.
pub proof fn law_tick_keeps_fresh(entries: Seq<Notification>, ages: Seq<Duration>)
    requires
        entries.len() == ages.len(),
        forall|i: int| 0 <= i < entries.len() ==> !(#[trigger] entries[i]).expired_at(ages[i]),
    ensures
        unexpired(entries, ages) == entries,
    decreases entries.len(),
{
    if entries.len() > 0 {
        let rest = entries.drop_last();
        assert forall|i: int| 0 <= i < rest.len() implies !(#[trigger] rest[i]).expired_at(
            ages.drop_last()[i],
        ) by {
            assert(rest[i] == entries[i]);
        }
        law_tick_keeps_fresh(rest, ages.drop_last());
        assert(entries[entries.len() - 1] == entries.last());
        assert(unexpired(entries, ages) =~= entries);
    } else {
        assert(unexpired(entries, ages) =~= entries);
    }
}

/// Ticking removes every expired notification and nothing else: a notification
/// is left of those from some point on exactly as it is unexpired.
pub proof fn law_tick_splits(
    front: Seq<Notification>,
    front_ages: Seq<Duration>,
    entry: Notification,
    age: Duration,
)
    requires
        front.len() == front_ages.len(),
    ensures
        unexpired(front.push(entry), front_ages.push(age)) == if entry.expired_at(age) {
            unexpired(front, front_ages)
        } else {
            unexpired(front, front_ages).push(entry)
        },
{
    assert(front.push(entry).drop_last() =~= front);
    assert(front_ages.push(age).drop_last() =~= front_ages);
}

/// The ages of the entries that have not expired, in order.
pub open spec fn unexpired_ages(entries: Seq<Notification>, ages: Seq<Duration>) -> Seq<Duration>
    decreases entries.len(),
{
    if entries.len() == 0 {
        Seq::empty()
    } else {
        let before = unexpired_ages(entries.drop_last(), ages.drop_last());
        if entries.last().expired_at(ages.last()) {
            before
        } else {
            before.push(ages.last())
        }
    }
}

/// A second tick at the same time changes nothing.
pub proof fn law_second_tick_changes_nothing(entries: Seq<Notification>, ages: Seq<Duration>)
    requires
        entries.len() == ages.len(),
    ensures
        unexpired_ages(entries, ages).len() == unexpired(entries, ages).len(),
        unexpired(unexpired(entries, ages), unexpired_ages(entries, ages)) == unexpired(
            entries,
            ages,
        ),
    decreases entries.len(),
{
    if entries.len() > 0 {
        let rest = entries.drop_last();
        let rest_ages = ages.drop_last();
        law_second_tick_changes_nothing(rest, rest_ages);
        law_tick_splits(
            unexpired(rest, rest_ages),
            unexpired_ages(rest, rest_ages),
            entries.last(),
            ages.last(),
        );
    }
}

/// The entries after all of these were pushed, in order.
pub open spec fn after_pushes(
    entries: Seq<Notification>,
    limit: nat,
    added: Seq<Notification>,
) -> Seq<Notification>
    decreases added.len(),
{
    if added.len() == 0 {
        entries
    } else {
        newest(after_pushes(entries, limit, added.drop_last()).push(added.last()), limit)
    }
}

/// Something done to a queue: a push, a tick at these ages, or a clear.
pub ghost enum QueueStep {
    Push(Notification),
    Tick(Seq<Duration>),
    Clear,
}

/// The entries after all of these steps, in order.
pub open spec fn after_steps(
    entries: Seq<Notification>,
    limit: nat,
    steps: Seq<QueueStep>,
) -> Seq<Notification>
    decreases steps.len(),
{
    if steps.len() == 0 {
        entries
    } else {
        let before = after_steps(entries, limit, steps.drop_last());
        match steps.last() {
            QueueStep::Push(added) => newest(before.push(added), limit),
            QueueStep::Tick(ages) => unexpired(before, ages),
            QueueStep::Clear => Seq::empty(),
        }
    }
}

/// A cleared queue is as good as a fresh one of the same limit: whatever was done before
/// the clear, any pushes, ticks and clears after it lead to the same as from no entries.
pub proof fn law_cleared_queue_is_fresh(
    entries: Seq<Notification>,
    limit: nat,
    before: Seq<QueueStep>,
    after: Seq<QueueStep>,
)
    ensures
        after_steps(entries, limit, before.push(QueueStep::Clear) + after) == after_steps(
            Seq::empty(),
            limit,
            after,
        ),
    decreases after.len(),
{
    let steps = before.push(QueueStep::Clear) + after;
    if after.len() > 0 {
        law_cleared_queue_is_fresh(entries, limit, before, after.drop_last());
        assert(steps.drop_last() =~= before.push(QueueStep::Clear) + after.drop_last());
        assert(steps.last() == after.last());
    } else {
        assert(steps =~= before.push(QueueStep::Clear));
        assert(steps.last() is Clear);
    }
}

/// Pushes, ticks and clears keep a queue within its limit.
pub proof fn law_steps_are_bounded(entries: Seq<Notification>, limit: nat, steps: Seq<QueueStep>)
    requires
        entries.len() <= limit,
    ensures
        after_steps(entries, limit, steps).len() <= limit,
    decreases steps.len(),
{
    if steps.len() > 0 {
        law_steps_are_bounded(entries, limit, steps.drop_last());
        if let QueueStep::Tick(ages) = steps.last() {
            lemma_unexpired_length(after_steps(entries, limit, steps.drop_last()), ages);
        }
    }
}

/// After any pushes, the newest of all that were there and were pushed are shown, in
/// order and up to the limit.
pub proof fn law_pushes_show_the_newest(
    entries: Seq<Notification>,
    limit: nat,
    added: Seq<Notification>,
)
    requires
        entries.len() <= limit,
    ensures
        after_pushes(entries, limit, added) == newest(entries + added, limit),
        after_pushes(entries, limit, added).len() == if entries.len() + added.len() <= limit {
            entries.len() + added.len()
        } else {
            limit
        },
    decreases added.len(),
{
    if added.len() > 0 {
        let rest = added.drop_last();
        law_pushes_show_the_newest(entries, limit, rest);
        assert((entries + rest).push(added.last()) =~= entries + added);
        assert(newest(newest(entries + rest, limit).push(added.last()), limit) =~= newest(
            entries + added,
            limit,
        ));
    } else {
        assert(entries + added =~= entries);
    }
}

/// Whether the first is left of the second when entries are taken out.
pub open spec fn is_part_of(shown: Seq<Notification>, all: Seq<Notification>) -> bool
    decreases all.len(),
{
    if shown.len() == 0 {
        true
    } else if all.len() == 0 {
        false
    } else {
        is_part_of(shown, all.drop_last()) || (shown.last() == all.last() && is_part_of(
            shown.drop_last(),
            all.drop_last(),
        ))
    }
}

proof fn lemma_all_is_part(all: Seq<Notification>)
    ensures
        is_part_of(all, all),
    decreases all.len(),
{
    if all.len() > 0 {
        lemma_all_is_part(all.drop_last());
    }
}

proof fn lemma_skip_is_part(all: Seq<Notification>, count: int)
    requires
        0 <= count <= all.len(),
    ensures
        is_part_of(all.skip(count), all),
    decreases all.len(),
{
    if count < all.len() {
        lemma_skip_is_part(all.drop_last(), count);
        assert(all.skip(count).drop_last() =~= all.drop_last().skip(count));
    }
}

proof fn lemma_part_of_part(a: Seq<Notification>, b: Seq<Notification>, c: Seq<Notification>)
    requires
        is_part_of(a, b),
        is_part_of(b, c),
    ensures
        is_part_of(a, c),
    decreases c.len(),
{
    if a.len() > 0 && b.len() > 0 && c.len() > 0 {
        if is_part_of(b, c.drop_last()) {
            lemma_part_of_part(a, b, c.drop_last());
        } else if is_part_of(a, b.drop_last()) {
            lemma_part_of_part(a, b.drop_last(), c.drop_last());
        } else {
            lemma_part_of_part(a.drop_last(), b.drop_last(), c.drop_last());
        }
    }
}

proof fn lemma_unexpired_is_part(entries: Seq<Notification>, ages: Seq<Duration>)
    ensures
        is_part_of(unexpired(entries, ages), entries),
    decreases entries.len(),
{
    if entries.len() > 0 {
        let rest = unexpired(entries.drop_last(), ages.drop_last());
        lemma_unexpired_is_part(entries.drop_last(), ages.drop_last());
        assert(rest.push(entries.last()).drop_last() =~= rest);
    }
}

/// The queue never makes up or reorders notifications: a push keeps part of what was
/// there with what was pushed, and a tick keeps part of what was there. So whatever is
/// shown is part of whatever was pushed, in that order.
pub proof fn law_shown_is_part_of_pushed(
    entries: Seq<Notification>,
    limit: nat,
    added: Notification,
    ages: Seq<Duration>,
    pushed: Seq<Notification>,
)
    requires
        entries.len() == ages.len(),
        is_part_of(entries, pushed),
    ensures
        is_part_of(newest(entries.push(added), limit), pushed.push(added)),
        is_part_of(unexpired(entries, ages), pushed),
{
    let more = entries.push(added);
    let all = pushed.push(added);
    assert(more.drop_last() =~= entries);
    assert(all.drop_last() =~= pushed);
    assert(is_part_of(more, all));
    if more.len() <= limit {
        lemma_all_is_part(more);
    } else {
        lemma_skip_is_part(more, more.len() - limit);
    }
    lemma_part_of_part(newest(more, limit), more, all);
    lemma_unexpired_is_part(entries, ages);
    lemma_part_of_part(unexpired(entries, ages), entries, pushed);
}

/// Once a notification has expired it stays expired as it ages.
pub proof fn law_expiry_is_final(notification: Notification, earlier: Duration, later: Duration)
    requires
        notification.expired_at(earlier),
        earlier.nanos <= later.nanos,
    ensures
        notification.expired_at(later),
{
}

/// Warnings are shown longest and confirmations shortest.
pub proof fn law_display_times()
    ensures
        NotificationLevel::Success.display_seconds() < NotificationLevel::Info.display_seconds(),
        NotificationLevel::Info.display_seconds() < NotificationLevel::Warning.display_seconds(),
{
}

/// A notification has expired exactly when it is at least as old as its time.
pub proof fn law_expires_at_its_time(notification: Notification, age: Duration)
    ensures
        notification.expired_at(age) <==> age.nanos >= notification.duration.nanos,
{
}

/// What a notification says, is its level, its title and its body; information is shown for
/// four seconds, a warning for six and a success for three.
pub proof fn law_notifications_say_what_they_hold(
    notification: Notification,
    level: NotificationLevel,
    title: Seq<char>,
    body: Seq<char>,
)
    ensures
        notification.says(level, title, body) <==> {
            &&& notification.level == level
            &&& notification.title@ == title
            &&& notification.body@ == body
            &&& level is Info ==> notification.duration.nanos == 4_000_000_000
            &&& level is Warning ==> notification.duration.nanos == 6_000_000_000
            &&& level is Success ==> notification.duration.nanos == 3_000_000_000
        },
{
}

/// A notification that is added is the last one shown, and of those before it the newest
/// stay, as many as there is room for, in their order.
pub proof fn law_added_notification_comes_last(
    entries: Seq<Notification>,
    limit: nat,
    added: Notification,
    i: int,
)
    requires
        entries.len() <= limit,
        limit > 0,
    ensures
        ({
            let shown = newest(entries.push(added), limit);
            &&& shown.last() == added
            &&& entries.len() < limit ==> shown.len() == entries.len() + 1
            &&& entries.len() == limit ==> shown.len() == limit
            &&& 0 <= i < shown.len() - 1 ==> shown[i] == entries[i + entries.len() + 1
                - shown.len()]
        }),
{
}

/// Time takes away the notifications that are old enough and no others: one more entry
/// stays exactly if it is younger than its time.
pub proof fn law_time_takes_the_expired(
    entries: Seq<Notification>,
    ages: Seq<Duration>,
    entry: Notification,
    age: Duration,
)
    ensures
        age.nanos >= entry.duration.nanos ==> unexpired(entries.push(entry), ages.push(age))
            == unexpired(entries, ages),
        age.nanos < entry.duration.nanos ==> unexpired(entries.push(entry), ages.push(age))
            == unexpired(entries, ages).push(entry),
        unexpired(Seq::empty(), Seq::empty()).len() == 0,
{
    assert(entries.push(entry).drop_last() =~= entries);
    assert(ages.push(age).drop_last() =~= ages);
}

/// Progress is the age's share of the time: nothing at the start, and until the end the age
/// in seconds divided by the time in seconds.
pub proof fn law_progress_is_the_share_of_the_time(notification: Notification, age: Duration)
    requires
        notification.duration.nanos > 0,
    ensures
        age.nanos == 0 ==> notification.progress_at(age).bits == 0,
        notification.progress_at(age).bits < ONE_BITS ==> notification.progress_at(age)
            == in_seconds(age.nanos as int).over(in_seconds(notification.duration.nanos as int)),
{
    if age.nanos == 0 {
        law_whole_seconds(0);
        law_time_is_not_zero(notification.duration.nanos as int);
        law_seconds_keep_order(
            notification.duration.nanos as int,
            notification.duration.nanos as int,
        );
        lemma_nothing_shared(notification.duration.in_seconds());
    }
}

} // verus!
