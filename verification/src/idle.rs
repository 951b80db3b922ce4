//! Idle detection: a state machine fed with the mouse position, the set of
//! pressed keys and a monotonic clock reading (nanoseconds).
use vstd::prelude::*;

verus! {

/// Outcome of one idle check.
#[derive(Debug, Clone, Copy, PartialEq, Eq, Structural)]
pub enum IdleStatus {
    /// User is actively using the computer
    Active,
    /// User just went idle (crossed the threshold)
    BecameIdle,
    /// User is still idle
    StillIdle,
    /// User just came back from idle
    ResumedActivity,
}

/// Default idle threshold: five minutes, in nanoseconds.
pub const DEFAULT_IDLE_THRESHOLD_NS: u64 = 300_000_000_000;

/// Tracks the last observed input and whether the user is idle.
pub struct IdleDetector {
    last_pos: (i32, i32),
    last_keys: Vec<u32>,
    last_activity: u64,
    idle_threshold: u64,
    is_idle: bool,
}

/// Mathematical model of an [`IdleDetector`].
pub struct IdleView {
    pub last_pos: (i32, i32),
    pub last_keys: Seq<u32>,
    /// Clock reading of the last observed input.
    pub last_activity: u64,
    /// Time without input after which the user counts as idle.
    pub idle_threshold: u64,
    pub is_idle: bool,
}

/// Time elapsed from `since` to `now` on a monotonic clock; an earlier
/// `now` counts as no time at all (as `Instant::elapsed` saturates).
pub open spec fn elapsed(since: u64, now: u64) -> nat {
    if now >= since {
        (now - since) as nat
    } else {
        0
    }
}

impl IdleView {
    /// Whether an observation differs from the last one recorded.
    pub open spec fn input_changed(self, pos: (i32, i32), keys: Seq<u32>) -> bool {
        pos != self.last_pos || keys != self.last_keys
    }

    /// The status that a check with this observation reports.
    pub open spec fn status_after(self, pos: (i32, i32), keys: Seq<u32>, now: u64) -> IdleStatus {
        if self.input_changed(pos, keys) {
            if self.is_idle {
                IdleStatus::ResumedActivity
            } else {
                IdleStatus::Active
            }
        } else if !self.is_idle && elapsed(self.last_activity, now) > self.idle_threshold {
            IdleStatus::BecameIdle
        } else if self.is_idle {
            IdleStatus::StillIdle
        } else {
            IdleStatus::Active
        }
    }

    /// The state after a check with this observation.
    pub open spec fn state_after(self, pos: (i32, i32), keys: Seq<u32>, now: u64) -> IdleView {
        if self.input_changed(pos, keys) {
            IdleView { last_pos: pos, last_keys: keys, last_activity: now, is_idle: false, ..self }
        } else if !self.is_idle && elapsed(self.last_activity, now) > self.idle_threshold {
            IdleView { is_idle: true, ..self }
        } else {
            self
        }
    }
}

/// Whether two key lists are equal.
fn same_keys(a: &Vec<u32>, b: &Vec<u32>) -> (r: bool)
    ensures
        r == (a@ == b@),
{
    if a.len() != b.len() {
        return false;
    }
    let mut i: usize = 0;
    while i < a.len()
        invariant
            a.len() == b.len(),
            i <= a.len(),
            forall|k: int| 0 <= k < i ==> a@[k] == b@[k],
        decreases a.len() - i,
    {
        if a[i] != b[i] {
            return false;
        }
        i = i + 1;
    }
    assert(a@ =~= b@);
    true
}

impl View for IdleDetector {
    type V = IdleView;

    closed spec fn view(&self) -> IdleView {
        IdleView {
            last_pos: self.last_pos,
            last_keys: self.last_keys@,
            last_activity: self.last_activity,
            idle_threshold: self.idle_threshold,
            is_idle: self.is_idle,
        }
    }
}

impl IdleDetector {

    /// A detector with the default five-minute threshold, started from the
    /// given observation at clock reading `now`.
    pub fn new(pos: (i32, i32), keys: Vec<u32>, now: u64) -> (r: Self)
        ensures
            r.view() == (IdleView {
                last_pos: pos,
                last_keys: keys@,
                last_activity: now,
                idle_threshold: DEFAULT_IDLE_THRESHOLD_NS,
                is_idle: false,
            }),
    {
        Self::with_threshold(DEFAULT_IDLE_THRESHOLD_NS, pos, keys, now)
    }

    /// A detector with the given threshold (nanoseconds), started from the
    /// given observation at clock reading `now`; it starts out active.
    pub fn with_threshold(threshold: u64, pos: (i32, i32), keys: Vec<u32>, now: u64) -> (r: Self)
        ensures
            r.view() == (IdleView {
                last_pos: pos,
                last_keys: keys@,
                last_activity: now,
                idle_threshold: threshold,
                is_idle: false,
            }),
    {
        IdleDetector {
            last_pos: pos,
            last_keys: keys,
            last_activity: now,
            idle_threshold: threshold,
            is_idle: false,
        }
    }

    /// Whether the user currently counts as idle.
    pub fn is_idle(&self) -> (r: bool)
        ensures
            r == self.view().is_idle,
    {
        self.is_idle
    }

    /// Records an observation: input that differs from the last one makes
    /// the user active (reporting `ResumedActivity` when they were idle);
    /// otherwise the user becomes idle once more than the threshold has
    /// elapsed since the last input, and then stays idle.
    pub fn check(&mut self, pos: (i32, i32), keys: Vec<u32>, now: u64) -> (r: IdleStatus)
        ensures
            r == old(self).view().status_after(pos, keys@, now),
            final(self).view() == old(self).view().state_after(pos, keys@, now),
    {
        let mouse_moved = pos.0 != self.last_pos.0 || pos.1 != self.last_pos.1;
        let keys_changed = !same_keys(&keys, &self.last_keys);

        if mouse_moved || keys_changed {
            self.last_pos = pos;
            self.last_keys = keys;
            self.last_activity = now;

            if self.is_idle {
                self.is_idle = false;
                return IdleStatus::ResumedActivity;
            }
            return IdleStatus::Active;
        }

        let elapsed_now: u64 = if now >= self.last_activity {
            now - self.last_activity
        } else {
            0
        };
        if !self.is_idle && elapsed_now > self.idle_threshold {
            self.is_idle = true;
            return IdleStatus::BecameIdle;
        }

        if self.is_idle {
            IdleStatus::StillIdle
        } else {
            IdleStatus::Active
        }
    }
}

/// After any check, the detector counts as idle exactly when the reported
/// status is `BecameIdle` or `StillIdle`.
pub proof fn lemma_status_agrees_with_state(v: IdleView, pos: (i32, i32), keys: Seq<u32>, now: u64)
    ensures
        v.state_after(pos, keys, now).is_idle <==> (v.status_after(pos, keys, now)
            == IdleStatus::BecameIdle || v.status_after(pos, keys, now) == IdleStatus::StillIdle),
{
}

/// Any change of the mouse position (in either coordinate) or of the
/// pressed keys is input: the check reports `Active` or `ResumedActivity`,
/// records the observation and the time as the last activity, and leaves
/// the user not idle. Without such a change the last observation and
/// activity time are kept.
pub proof fn lemma_any_change_is_input(v: IdleView, pos: (i32, i32), keys: Seq<u32>, now: u64)
    ensures
        (pos.0 != v.last_pos.0 || pos.1 != v.last_pos.1 || keys != v.last_keys) ==> {
            let s = v.state_after(pos, keys, now);
            let st = v.status_after(pos, keys, now);
            &&& st == IdleStatus::Active || st == IdleStatus::ResumedActivity
            &&& (st == IdleStatus::ResumedActivity <==> v.is_idle)
            &&& s.last_pos == pos
            &&& s.last_keys == keys
            &&& s.last_activity == now
            &&& !s.is_idle
            &&& s.idle_threshold == v.idle_threshold
        },
        (pos.0 == v.last_pos.0 && pos.1 == v.last_pos.1 && keys == v.last_keys) ==> {
            let s = v.state_after(pos, keys, now);
            let st = v.status_after(pos, keys, now);
            &&& s.last_pos == v.last_pos
            &&& s.last_keys == v.last_keys
            &&& s.last_activity == v.last_activity
            &&& s.idle_threshold == v.idle_threshold
            &&& st != IdleStatus::ResumedActivity
            &&& (v.is_idle ==> st == IdleStatus::StillIdle && s.is_idle)
            &&& (!v.is_idle ==> (st == IdleStatus::BecameIdle <==> (if now >= v.last_activity {
                now - v.last_activity
            } else {
                0
            }) > v.idle_threshold))
            &&& (!v.is_idle ==> (s.is_idle <==> st == IdleStatus::BecameIdle))
            &&& (!v.is_idle && st != IdleStatus::BecameIdle ==> st == IdleStatus::Active)
        },
{
    if pos.0 == v.last_pos.0 && pos.1 == v.last_pos.1 {
        assert(pos == v.last_pos);
    }
}

/// New input always makes the user active: the check reports
/// `ResumedActivity` if the user was idle and `Active` otherwise, and the
/// input becomes the last activity.
pub proof fn lemma_input_makes_active(v: IdleView, pos: (i32, i32), keys: Seq<u32>, now: u64)
    requires
        v.input_changed(pos, keys),
    ensures
        !v.state_after(pos, keys, now).is_idle,
        v.state_after(pos, keys, now).last_activity == now,
        v.status_after(pos, keys, now) == (if v.is_idle {
            IdleStatus::ResumedActivity
        } else {
            IdleStatus::Active
        }),
{
}

/// `BecameIdle` is reported exactly when the user was active, the input has
/// not changed, and more than the threshold has elapsed since the last input.
pub proof fn lemma_became_idle_iff(v: IdleView, pos: (i32, i32), keys: Seq<u32>, now: u64)
    ensures
        (v.status_after(pos, keys, now) == IdleStatus::BecameIdle) <==> (!v.is_idle
            && !v.input_changed(pos, keys) && elapsed(v.last_activity, now) > v.idle_threshold),
{
}

/// An idle user with no new input stays idle: the check reports `StillIdle`
/// and changes nothing.
pub proof fn lemma_idle_without_input_stays_idle(v: IdleView, now: u64)
    requires
        v.is_idle,
    ensures
        v.status_after(v.last_pos, v.last_keys, now) == IdleStatus::StillIdle,
        v.state_after(v.last_pos, v.last_keys, now) == v,
{
}

/// Without new input and before the threshold has passed, an active user
/// stays active and the check changes nothing.
pub proof fn lemma_active_within_threshold(v: IdleView, now: u64)
    requires
        !v.is_idle,
        elapsed(v.last_activity, now) <= v.idle_threshold,
    ensures
        v.status_after(v.last_pos, v.last_keys, now) == IdleStatus::Active,
        v.state_after(v.last_pos, v.last_keys, now) == v,
{
}

/// An active user who gives no input past the threshold is reported
/// `BecameIdle` once, and `StillIdle` on every later check without input.
pub proof fn lemma_idle_transition_once(v: IdleView, now1: u64, now2: u64)
    requires
        !v.is_idle,
        elapsed(v.last_activity, now1) > v.idle_threshold,
    ensures
        v.status_after(v.last_pos, v.last_keys, now1) == IdleStatus::BecameIdle,
        v.state_after(v.last_pos, v.last_keys, now1).status_after(v.last_pos, v.last_keys, now2)
            == IdleStatus::StillIdle,
{
}

} // verus!
