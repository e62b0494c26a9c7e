//! Login velocity: the login attempts of each user within the last hour.
//! Times are Unix times in microseconds.
use vstd::prelude::*;
use crate::ids::UserId;

verus! {

/// Length of the window of attempts kept: one hour.
pub const VELOCITY_WINDOW_MICROS: i64 = 3_600_000_000;

/// The attempt of `user` at a time no later than `cutoff` (one to drop).
pub open spec fn stale_attempt(user: u128, cutoff: i64) -> spec_fn((u128, i64)) -> bool {
    |p: (u128, i64)| !(p.0 == user && p.1 <= cutoff)
}

/// An attempt later than `cutoff`.
pub open spec fn recent_attempt(cutoff: i64) -> spec_fn((u128, i64)) -> bool {
    |p: (u128, i64)| p.1 > cutoff
}

/// An attempt of `user`.
pub open spec fn attempt_of(user: u128) -> spec_fn((u128, i64)) -> bool {
    |p: (u128, i64)| p.0 == user
}

/// What `keep_entries` keeps: for a user, all but that user's stale
/// attempts; otherwise the recent attempts.
pub open spec fn keep_rule(user: Option<u128>, cutoff: i64) -> spec_fn((u128, i64)) -> bool {
    match user {
        Some(u) => stale_attempt(u, cutoff),
        None => recent_attempt(cutoff),
    }
}

/// Login attempts, each as (user, time), in the order they were recorded.
pub struct LoginAttempts {
    attempts: Vec<(u128, i64)>,
}

/// The entries of `v` satisfying `keep`, in order.
fn keep_entries(v: &Vec<(u128, i64)>, user: Option<u128>, cutoff: i64) -> (r: Vec<(u128, i64)>)
    ensures
        r@ == v@.filter(keep_rule(user, cutoff)),
{
    let ghost keep = keep_rule(user, cutoff);
    let mut r: Vec<(u128, i64)> = Vec::new();
    let mut i: usize = 0;
    proof {
        reveal(Seq::filter);
        assert(v@.take(0) =~= Seq::<(u128, i64)>::empty());
    }
    while i < v.len()
        invariant
            i <= v@.len(),
            r@ == v@.take(i as int).filter(keep),
            keep == keep_rule(user, cutoff),
        decreases v@.len() - i,
    {
        let p = v[i];
        let kept = match user {
            Some(u) => !(p.0 == u && p.1 <= cutoff),
            None => p.1 > cutoff,
        };
        proof {
            reveal(Seq::filter);
            assert(v@.take(i + 1).drop_last() =~= v@.take(i as int));
            assert(v@.take(i + 1).last() == p);
            assert(kept == keep(p));
        }
        if kept {
            r.push(p);
        }
        i += 1;
    }
    assert(v@.take(v@.len() as int) =~= v@);
    r
}

impl LoginAttempts {
    /// The attempts recorded, oldest first.
    pub closed spec fn entries(&self) -> Seq<(u128, i64)> {
        self.attempts@
    }

    /// No attempts.
    pub fn new() -> (a: LoginAttempts)
        ensures
            a.entries() == Seq::<(u128, i64)>::empty(),
    {
        LoginAttempts { attempts: Vec::new() }
    }

    /// Records an attempt of `user` at `now` and drops that user's attempts
    /// older than an hour (no later than `now` less the window).
    pub fn record_attempt_at(&mut self, user_id: UserId, now: i64)
        requires
            now >= i64::MIN + VELOCITY_WINDOW_MICROS,
        ensures
            final(self).entries() == old(self).entries().filter(stale_attempt(user_id.0, (now - VELOCITY_WINDOW_MICROS) as i64))
                .push((user_id.0, now)),
    {
        let cutoff = now - VELOCITY_WINDOW_MICROS;
        let mut kept = keep_entries(&self.attempts, Some(user_id.0), cutoff);
        kept.push((user_id.0, now));
        self.attempts = kept;
    }

    /// How many attempts of `user_id` are held.
    pub fn get_login_attempts(&self, user_id: UserId) -> (n: usize)
        ensures
            n == self.entries().filter(attempt_of(user_id.0)).len(),
    {
        let mut n: usize = 0;
        let mut i: usize = 0;
        proof {
            reveal(Seq::filter);
            assert(self.attempts@.take(0) =~= Seq::<(u128, i64)>::empty());
        }
        while i < self.attempts.len()
            invariant
                i <= self.attempts@.len(),
                n == self.attempts@.take(i as int).filter(attempt_of(user_id.0)).len(),
                n <= i,
            decreases self.attempts@.len() - i,
        {
            proof {
                reveal(Seq::filter);
                assert(self.attempts@.take(i + 1).drop_last() =~= self.attempts@.take(i as int));
                assert(self.attempts@.take(i + 1).last() == self.attempts@[i as int]);
            }
            if self.attempts[i].0 == user_id.0 {
                n += 1;
            }
            i += 1;
        }
        assert(self.attempts@.take(self.attempts@.len() as int) =~= self.attempts@);
        n
    }

    /// Whether `user_id` made more than `threshold` attempts in the window.
    pub fn is_velocity_high(&self, user_id: UserId, threshold: usize) -> (b: bool)
        ensures
            b == (self.entries().filter(attempt_of(user_id.0)).len() > threshold),
    {
        self.get_login_attempts(user_id) > threshold
    }

    /// Drops every attempt older than an hour at `now`.
    pub fn cleanup_old_attempts_at(&mut self, now: i64)
        requires
            now >= i64::MIN + VELOCITY_WINDOW_MICROS,
        ensures
            final(self).entries() == old(self).entries().filter(recent_attempt((now - VELOCITY_WINDOW_MICROS) as i64)),
    {
        let cutoff = now - VELOCITY_WINDOW_MICROS;
        let kept = keep_entries(&self.attempts, None, cutoff);
        self.attempts = kept;
    }
}

} // verus!
