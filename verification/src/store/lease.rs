//! Leases: one owner at a time may run a turn, and a stale owner is fenced off.
use vstd::prelude::*;

use crate::error::{ErrorView, OpsCodexError, OpsResult};
use crate::runtime::thread::{ThreadId, TurnId};
use crate::store::continuity::Lease;
use crate::text::same;
use crate::time::{Timestamp, MAX_SECONDS, NANOS_PER_SECOND};

verus! {

/// The longest time in seconds that a lease may be asked for; a longer one is
/// granted as `DEFAULT_TTL_SECONDS`.
pub const MAX_TTL_SECONDS: u64 = 9_223_372_036_854_775;

pub const DEFAULT_TTL_SECONDS: u64 = 30;

/// How long a lease lasts that is asked for `ttl` seconds.
pub open spec fn granted(ttl: u64) -> u64 {
    if ttl > MAX_TTL_SECONDS {
        DEFAULT_TTL_SECONDS
    } else {
        ttl
    }
}

/// The lease has not expired.
pub open spec fn is_live(lease: Lease, now: Timestamp) -> bool {
    !lease.expires_at.no_later_than(now)
}

/// A lease that starts now ends at a time that can be represented.
pub open spec fn can_grant(now: Timestamp, ttl: u64) -> bool {
    now.subsecond() < NANOS_PER_SECOND && now.whole_seconds() + granted(ttl) <= MAX_SECONDS
}

/// The lease ends when it was granted to end.
pub open spec fn ends(lease: Lease, now: Timestamp, ttl: u64) -> bool {
    lease.expires_at.whole_seconds() == now.whole_seconds() + granted(ttl)
        && lease.expires_at.subsecond() == now.subsecond()
}

fn end_of_lease(now: Timestamp, ttl: u64) -> (r: Timestamp)
    requires
        can_grant(now, ttl),
    ensures
        r.whole_seconds() == now.whole_seconds() + granted(ttl),
        r.subsecond() == now.subsecond(),
{
    let seconds = if ttl > MAX_TTL_SECONDS {
        DEFAULT_TTL_SECONDS
    } else {
        ttl
    };
    match now.plus_seconds(seconds) {
        Some(end) => end,
        None => now,
    }
}

/// Takes the lease of a turn. `existing` is the lease that the turn has, if
/// any; a new lease is given the name `fresh_id`.
pub fn acquire_lease(
    existing: Option<Lease>,
    turn_id: &TurnId,
    thread_id: &ThreadId,
    owner_id: &str,
    now: Timestamp,
    ttl: u64,
    fresh_id: String,
) -> (r: OpsResult<Lease>)
    requires
        can_grant(now, ttl),
        existing matches Some(lease) ==> is_live(lease, now) || lease.fencing_token < i64::MAX,
    ensures
        match r {
            Ok(lease) => {
                &&& lease.turn_id == *turn_id
                &&& lease.thread_id == *thread_id
                &&& lease.owner_id@ == owner_id@
                &&& ends(lease, now, ttl)
                &&& match existing {
                    Some(old) => !is_live(old, now) && lease.lease_id == old.lease_id
                        && lease.fencing_token == old.fencing_token + 1,
                    None => lease.lease_id == fresh_id && lease.fencing_token == 1,
                }
            },
            Err(e) => e@ == ErrorView::TurnAlreadyRunning && (existing matches Some(old) && is_live(
                old,
                now,
            )),
        },
{
    match existing {
        Some(old) => {
            if !old.expires_at.at_or_before(now) {
                return Err(OpsCodexError::TurnAlreadyRunning);
            }
            Ok(
                Lease {
                    lease_id: old.lease_id,
                    turn_id: *turn_id,
                    thread_id: *thread_id,
                    owner_id: owner_id.to_owned(),
                    expires_at: end_of_lease(now, ttl),
                    fencing_token: old.fencing_token + 1,
                },
            )
        },
        None => Ok(
            Lease {
                lease_id: fresh_id,
                turn_id: *turn_id,
                thread_id: *thread_id,
                owner_id: owner_id.to_owned(),
                expires_at: end_of_lease(now, ttl),
                fencing_token: 1,
            },
        ),
    }
}

/// The lease is the one that a holder speaks of.
pub open spec fn is_held(lease: Option<Lease>, lease_id: Seq<char>, token: i64) -> bool {
    lease matches Some(lease) && lease.lease_id@ == lease_id && lease.fencing_token == token
}

/// Extends a lease, where the holder still has it.
pub fn refresh_lease(
    lease: Option<Lease>,
    lease_id: &str,
    fencing_token: i64,
    now: Timestamp,
    ttl: u64,
) -> (r: OpsResult<Lease>)
    requires
        can_grant(now, ttl),
    ensures
        match r {
            Ok(next) => is_held(lease, lease_id@, fencing_token) && ends(next, now, ttl) && next
                == (Lease { expires_at: next.expires_at, ..lease->0 }),
            Err(e) => !is_held(lease, lease_id@, fencing_token) && e@ == ErrorView::Storage(
                "lease fencing token mismatch"@,
            ),
        },
{
    match lease {
        Some(lease) => {
            if same(lease.lease_id.as_str(), lease_id) && lease.fencing_token == fencing_token {
                return Ok(Lease { expires_at: end_of_lease(now, ttl), ..lease });
            }
        },
        None => {},
    }
    Err(OpsCodexError::Storage("lease fencing token mismatch".to_owned()))
}

/// Gives a lease up, where the holder still has it: what is left is returned.
pub fn release_lease(lease: Option<Lease>, lease_id: &str, fencing_token: i64) -> (r: Option<Lease>)
    ensures
        r == (if is_held(lease, lease_id@, fencing_token) {
            None
        } else {
            lease
        }),
{
    match lease {
        Some(lease) => if same(lease.lease_id.as_str(), lease_id) && lease.fencing_token
            == fencing_token {
            None
        } else {
            Some(lease)
        },
        None => None,
    }
}

/// One takes a turn over from the other: the lease keeps its name, and the
/// token grows.
pub open spec fn takes_over(old: Lease, new: Lease) -> bool {
    new.lease_id == old.lease_id && new.fencing_token == old.fencing_token + 1
}

/// Once a lease has been taken over, its former holder can neither extend it
/// nor give it up.
pub proof fn law_stale_holder_is_fenced(old: Lease, new: Lease)
    requires
        takes_over(old, new),
    ensures
        !is_held(Some(new), old.lease_id@, old.fencing_token),
{
}

/// While a lease is live nobody else gets the turn: it stays live until the
/// time at which it ends.
pub proof fn law_lease_lasts(lease: Lease, now: Timestamp, later: Timestamp, ttl: u64)
    requires
        ends(lease, now, ttl),
        later.whole_seconds() < now.whole_seconds() + granted(ttl),
    ensures
        is_live(lease, later),
{
}

} // verus!
