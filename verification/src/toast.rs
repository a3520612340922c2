//! Short-lived notifications that expire a few seconds after they appear.
//! Times are held as whole milliseconds; how long a notification has been on
//! screen is read from the clock by the caller of [`Toast::expired_after`]
//! or by [`Toast::is_expired`].

use vstd::prelude::*;
use std::time::{Duration, Instant};

verus! {

#[verifier::external_type_specification]
#[verifier::external_body]
pub struct ExInstant(Instant);

/// `Instant::now`: the current instant of the monotonic clock.
#[verifier::external_body]
fn clock_now() -> Instant {
    Instant::now()
}

/// `Instant::elapsed`: the time that has passed since `since`. It depends on
/// the clock, so nothing is stated of it.
#[verifier::external_body]
fn clock_elapsed(since: &Instant) -> Duration {
    since.elapsed()
}

/// The whole milliseconds of a duration (`Duration::as_millis`).
pub uninterp spec fn duration_millis(d: Duration) -> u128;

/// `Duration::as_millis`: the whole milliseconds `d` holds, a function of `d`
/// alone.
#[verifier::external_body]
fn duration_as_millis(d: &Duration) -> (ms: u128)
    ensures
        ms == duration_millis(*d),
{
    d.as_millis()
}

/// Milliseconds a notification stays on screen.
pub const TOAST_MS: u64 = 3000;

/// A notification message with the instant it appeared and how many
/// milliseconds it lasts.
#[derive(Debug)]
pub struct Toast {
    pub message: String,
    pub created_at: Instant,
    pub duration_ms: u64,
}

/// Whether a notification of `duration_ms` milliseconds that has been on
/// screen `elapsed_ms` milliseconds has expired.
pub open spec fn is_over(elapsed_ms: u128, duration_ms: u64) -> bool {
    elapsed_ms >= duration_ms
}

impl Toast {
    /// A notification that appears now and lasts [`TOAST_MS`] milliseconds.
    pub fn new(message: String) -> (t: Self)
        ensures
            t.message@ == message@,
            t.duration_ms == TOAST_MS,
    {
        Toast { message, created_at: clock_now(), duration_ms: TOAST_MS }
    }

    /// An identical copy of this notification.
    pub fn duplicate(&self) -> (t: Self)
        ensures
            t == *self,
    {
        Toast { message: self.message.clone(), created_at: self.created_at, duration_ms: self.duration_ms }
    }

    /// Whether the notification has expired once it has been on screen for
    /// `elapsed_ms` milliseconds: its time is up when the elapsed time reaches
    /// its duration.
    pub fn expired_after(&self, elapsed_ms: u128) -> (b: bool)
        ensures
            b == is_over(elapsed_ms, self.duration_ms),
    {
        elapsed_ms >= self.duration_ms as u128
    }

    /// Whether the notification's time on screen is over now: the time elapsed
    /// since it appeared, read from the clock, is handed to
    /// [`Toast::expired_after`]. A notification of no duration has always
    /// expired.
    pub fn is_expired(&self) -> (b: bool)
        ensures
            exists|elapsed_ms: u128| b == is_over(elapsed_ms, self.duration_ms),
            self.duration_ms == 0 ==> b,
    {
        let elapsed = duration_as_millis(&clock_elapsed(&self.created_at));
        self.expired_after(elapsed)
    }
}

/// The toasts of `toasts` that have not expired after the elapsed times
/// `elapsed` (one per toast), in their order.
pub open spec fn unexpired(toasts: Seq<Toast>, elapsed: Seq<u128>) -> Seq<Toast>
    decreases toasts.len(),
{
    if toasts.len() == 0 || elapsed.len() == 0 {
        Seq::empty()
    } else {
        let rest = unexpired(toasts.drop_last(), elapsed.drop_last());
        if is_over(elapsed.last(), toasts.last().duration_ms) {
            rest
        } else {
            rest.push(toasts.last())
        }
    }
}

/// The elapsed times of the toasts that [`unexpired`] keeps, in their order.
pub open spec fn unexpired_elapsed(toasts: Seq<Toast>, elapsed: Seq<u128>) -> Seq<u128>
    decreases toasts.len(),
{
    if toasts.len() == 0 || elapsed.len() == 0 {
        Seq::empty()
    } else {
        let rest = unexpired_elapsed(toasts.drop_last(), elapsed.drop_last());
        if is_over(elapsed.last(), toasts.last().duration_ms) {
            rest
        } else {
            rest.push(elapsed.last())
        }
    }
}

/// The notifications currently shown, oldest first.
#[derive(Debug)]
pub struct ToastManager {
    pub toasts: Vec<Toast>,
}

impl ToastManager {
    /// No notifications.
    pub fn default() -> (m: Self)
        ensures
            m.toasts@.len() == 0,
    {
        ToastManager { toasts: Vec::new() }
    }

    /// Shows a new notification after the current ones.
    pub fn notify(&mut self, message: String)
        ensures
            final(self).toasts@.len() == old(self).toasts@.len() + 1,
            final(self).toasts@.take(old(self).toasts@.len() as int) == old(self).toasts@,
            final(self).toasts@.last().message@ == message@,
            final(self).toasts@.last().duration_ms == TOAST_MS,
    {
        self.toasts.push(Toast::new(message));
        assert(self.toasts@.take(old(self).toasts@.len() as int) =~= old(self).toasts@);
    }

    /// Removes the notifications that have expired after the elapsed times
    /// `elapsed_ms` (one per notification, in their order); the others stay,
    /// in their order.
    pub fn remove_expired(&mut self, elapsed_ms: &Vec<u128>)
        requires
            elapsed_ms@.len() == old(self).toasts@.len(),
        ensures
            final(self).toasts@ == unexpired(old(self).toasts@, elapsed_ms@),
    {
        let ghost old_toasts = self.toasts@;
        let mut kept: Vec<Toast> = Vec::new();
        let n = self.toasts.len();
        let mut i: usize = 0;
        while i < n
            invariant
                n == old_toasts.len(),
                n == elapsed_ms@.len(),
                self.toasts@ == old_toasts,
                i <= n,
                kept@ == unexpired(old_toasts.take(i as int), elapsed_ms@.take(i as int)),
            decreases n - i,
        {
            assert(old_toasts.take(i + 1).drop_last() =~= old_toasts.take(i as int));
            assert(elapsed_ms@.take(i + 1).drop_last() =~= elapsed_ms@.take(i as int));
            if !self.toasts[i].expired_after(elapsed_ms[i]) {
                kept.push(self.toasts[i].duplicate());
            }
            i = i + 1;
        }
        assert(old_toasts.take(n as int) =~= old_toasts);
        assert(elapsed_ms@.take(n as int) =~= elapsed_ms@);
        self.toasts = kept;
    }

    /// Removes the notifications whose time is up now: the time each has been
    /// on screen is read from the clock and handed to
    /// [`ToastManager::remove_expired`]. Notifications of no duration always go.
    pub fn update(&mut self)
        ensures
            exists|elapsed: Seq<u128>|
                elapsed.len() == old(self).toasts@.len() && final(self).toasts@ == unexpired(
                    old(self).toasts@,
                    elapsed,
                ),
    {
        let mut elapsed: Vec<u128> = Vec::new();
        let n = self.toasts.len();
        let mut i: usize = 0;
        while i < n
            invariant
                n == self.toasts@.len(),
                i <= n,
                elapsed@.len() == i,
            decreases n - i,
        {
            elapsed.push(duration_as_millis(&clock_elapsed(&self.toasts[i].created_at)));
            i = i + 1;
        }
        let ghost e = elapsed@;
        self.remove_expired(&elapsed);
        assert(e.len() == old(self).toasts@.len());
    }
}

/// Removing expired notifications twice with the same elapsed times removes
/// nothing more: what was kept has not expired.
pub proof fn lemma_remove_expired_twice(toasts: Seq<Toast>, elapsed: Seq<u128>)
    requires
        elapsed.len() == toasts.len(),
    ensures
        unexpired_elapsed(toasts, elapsed).len() == unexpired(toasts, elapsed).len(),
        unexpired(unexpired(toasts, elapsed), unexpired_elapsed(toasts, elapsed)) == unexpired(
            toasts,
            elapsed,
        ),
    decreases toasts.len(),
{
    if toasts.len() > 0 {
        lemma_remove_expired_twice(toasts.drop_last(), elapsed.drop_last());
        let k = unexpired(toasts.drop_last(), elapsed.drop_last());
        let ke = unexpired_elapsed(toasts.drop_last(), elapsed.drop_last());
        if !is_over(elapsed.last(), toasts.last().duration_ms) {
            let k2 = k.push(toasts.last());
            let ke2 = ke.push(elapsed.last());
            assert(k2.drop_last() =~= k);
            assert(ke2.drop_last() =~= ke);
        }
    }
}

/// A notification that has been on screen for its whole duration is removed,
/// and one whose time is not yet up stays.
pub proof fn lemma_expired_toast_removed(t: Toast, elapsed_ms: u128)
    ensures
        is_over(elapsed_ms, t.duration_ms) ==> unexpired(seq![t], seq![elapsed_ms]).len() == 0,
        !is_over(elapsed_ms, t.duration_ms) ==> unexpired(seq![t], seq![elapsed_ms]) == seq![t],
{
    let ts = seq![t];
    let es = seq![elapsed_ms];
    assert(ts.drop_last() =~= Seq::<Toast>::empty());
    assert(es.drop_last() =~= Seq::<u128>::empty());
    assert(ts.last() == t && es.last() == elapsed_ms);
    assert(unexpired(ts.drop_last(), es.drop_last()) =~= Seq::<Toast>::empty());
    if !is_over(elapsed_ms, t.duration_ms) {
        assert(Seq::<Toast>::empty().push(t) =~= ts);
    }
}

} // verus!
