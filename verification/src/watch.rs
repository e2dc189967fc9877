//! Decision logic of the per-kind watch loops. Each kind runs one
//! independent loop: list everything, subscribe from the listing's
//! version, and on any stream end, transient failure or expired
//! version token go back to a full re-list — never a diff-resume
//! from a version the provider rejected. Transient failures retry
//! forever with capped exponential backoff (the embedding program
//! adds jitter to the returned delay); an authentication or
//! authorization failure is fatal for the kind and escalated, never
//! silently dropped. The outside work — listing, subscribing,
//! sleeping — is performed by the embedding program, which feeds
//! every outcome back in as a `ProviderSignal` and executes the
//! returned `WatchAction`.

use vstd::prelude::*;

verus! {

/// First retry delay, in milliseconds.
pub const BACKOFF_BASE_MS: u64 = 500;

/// Cap on the retry delay, in milliseconds.
pub const BACKOFF_CAP_MS: u64 = 30000;

/// Where one kind's watch loop stands.
#[derive(Clone, Copy, PartialEq, Eq, Structural, Debug)]
pub enum WatchPhase {
    /// A full listing is in flight.
    Listing,
    /// Subscribed; `version` is the highest version seen.
    Watching { version: u64 },
    /// Waiting out a backoff delay before re-listing.
    BackingOff { delay_ms: u64 },
    /// Fatal authentication or authorization failure, escalated.
    Failed,
}

/// State of one kind's watch loop.
#[derive(Clone, Copy, PartialEq, Eq, Structural, Debug)]
pub struct WatchState {
    pub phase: WatchPhase,
    /// Consecutive transient failures since the last success.
    pub attempt: u32,
}

/// What the provider (or the embedding program) reports to the loop.
#[derive(Clone, Copy, PartialEq, Eq, Structural, Debug)]
pub enum ProviderSignal {
    /// A full listing succeeded, with its resource version.
    ListOk { version: u64 },
    ListTransientFailure,
    ListAuthFailure,
    /// The backoff delay has elapsed.
    WaitDone,
    Added { version: u64 },
    Modified { version: u64 },
    Deleted,
    Bookmark { version: u64 },
    StreamEnded,
    /// The provider rejected the version token as too old.
    ExpiredVersion,
    TransientError,
    AuthFailure,
}

/// What the embedding program must do next.
#[derive(Clone, Copy, PartialEq, Eq, Structural, Debug)]
pub enum WatchAction {
    /// Perform a full listing, then replace this kind's cache
    /// entries with the result.
    StartList,
    /// Subscribe to changes from this version.
    Subscribe { from_version: u64 },
    /// Sleep for the delay (plus jitter), then report `WaitDone`.
    Wait { delay_ms: u64 },
    /// Upsert the object into the cache, then run the rules engine
    /// on it.
    ApplyUpsert,
    /// Delete the object from the cache; no per-object rules run.
    ApplyDelete,
    /// Escalate a fatal failure of this kind to the process.
    Escalate,
    /// Nothing to do (bookmarks, signals that cannot apply).
    Ignore,
}

/// Retry delay after `attempt` consecutive failures: doubling from
/// the base, saturating at the cap.
pub open spec fn spec_backoff(attempt: u32) -> u64
    decreases attempt,
{
    if attempt == 0 {
        BACKOFF_BASE_MS
    } else {
        let prev = spec_backoff((attempt - 1) as u32);
        if 2 * prev <= BACKOFF_CAP_MS {
            (2 * prev) as u64
        } else {
            BACKOFF_CAP_MS
        }
    }
}

/// Computes the capped exponential backoff delay.
pub fn backoff_delay(attempt: u32) -> (r: u64)
    ensures
        r == spec_backoff(attempt),
        BACKOFF_BASE_MS <= r <= BACKOFF_CAP_MS,
{
    let mut d: u64 = BACKOFF_BASE_MS;
    let mut i: u32 = 0;
    while i < attempt
        invariant
            i <= attempt,
            d == spec_backoff(i),
            BACKOFF_BASE_MS <= d <= BACKOFF_CAP_MS,
        decreases attempt - i,
    {
        if d <= BACKOFF_CAP_MS / 2 {
            d = 2 * d;
        } else {
            d = BACKOFF_CAP_MS;
        }
        i = i + 1;
    }
    d
}

/// The saturating failure counter.
pub open spec fn spec_bump(attempt: u32) -> u32 {
    if attempt == 0xffff_ffff {
        attempt
    } else {
        (attempt + 1) as u32
    }
}

/// One decision step of a kind's watch loop: from the current state
/// and a provider signal to the next state and the action to
/// perform.
pub open spec fn spec_step(st: WatchState, ev: ProviderSignal) -> (WatchState, WatchAction) {
    match st.phase {
        WatchPhase::Listing => match ev {
            ProviderSignal::ListOk { version } => (
                WatchState { phase: WatchPhase::Watching { version }, attempt: 0 },
                WatchAction::Subscribe { from_version: version },
            ),
            ProviderSignal::ListTransientFailure => (
                WatchState {
                    phase: WatchPhase::BackingOff { delay_ms: spec_backoff(st.attempt) },
                    attempt: spec_bump(st.attempt),
                },
                WatchAction::Wait { delay_ms: spec_backoff(st.attempt) },
            ),
            ProviderSignal::ListAuthFailure => (
                WatchState { phase: WatchPhase::Failed, attempt: st.attempt },
                WatchAction::Escalate,
            ),
            _ => (st, WatchAction::Ignore),
        },
        WatchPhase::BackingOff { delay_ms } => match ev {
            ProviderSignal::WaitDone => (
                WatchState { phase: WatchPhase::Listing, attempt: st.attempt },
                WatchAction::StartList,
            ),
            _ => (st, WatchAction::Ignore),
        },
        WatchPhase::Watching { version } => match ev {
            ProviderSignal::Added { version: nv } => (
                WatchState {
                    phase: WatchPhase::Watching {
                        version: if nv > version {
                            nv
                        } else {
                            version
                        },
                    },
                    attempt: 0,
                },
                WatchAction::ApplyUpsert,
            ),
            ProviderSignal::Modified { version: nv } => (
                WatchState {
                    phase: WatchPhase::Watching {
                        version: if nv > version {
                            nv
                        } else {
                            version
                        },
                    },
                    attempt: 0,
                },
                WatchAction::ApplyUpsert,
            ),
            ProviderSignal::Deleted => (st, WatchAction::ApplyDelete),
            ProviderSignal::Bookmark { version: nv } => (
                WatchState {
                    phase: WatchPhase::Watching {
                        version: if nv > version {
                            nv
                        } else {
                            version
                        },
                    },
                    attempt: st.attempt,
                },
                WatchAction::Ignore,
            ),
            ProviderSignal::ExpiredVersion => (
                WatchState { phase: WatchPhase::Listing, attempt: 0 },
                WatchAction::StartList,
            ),
            ProviderSignal::StreamEnded => (
                WatchState { phase: WatchPhase::Listing, attempt: 0 },
                WatchAction::StartList,
            ),
            ProviderSignal::TransientError => (
                WatchState {
                    phase: WatchPhase::BackingOff { delay_ms: spec_backoff(st.attempt) },
                    attempt: spec_bump(st.attempt),
                },
                WatchAction::Wait { delay_ms: spec_backoff(st.attempt) },
            ),
            ProviderSignal::AuthFailure => (
                WatchState { phase: WatchPhase::Failed, attempt: st.attempt },
                WatchAction::Escalate,
            ),
            _ => (st, WatchAction::Ignore),
        },
        WatchPhase::Failed => (st, WatchAction::Ignore),
    }
}

/// Performs one decision step.
pub fn watch_step(st: WatchState, ev: ProviderSignal) -> (r: (WatchState, WatchAction))
    ensures
        r == spec_step(st, ev),
{
    match st.phase {
        WatchPhase::Listing => match ev {
            ProviderSignal::ListOk { version } => (
                WatchState { phase: WatchPhase::Watching { version }, attempt: 0 },
                WatchAction::Subscribe { from_version: version },
            ),
            ProviderSignal::ListTransientFailure => {
                let d = backoff_delay(st.attempt);
                let next = if st.attempt == 0xffff_ffff {
                    st.attempt
                } else {
                    st.attempt + 1
                };
                (
                    WatchState { phase: WatchPhase::BackingOff { delay_ms: d }, attempt: next },
                    WatchAction::Wait { delay_ms: d },
                )
            },
            ProviderSignal::ListAuthFailure => (
                WatchState { phase: WatchPhase::Failed, attempt: st.attempt },
                WatchAction::Escalate,
            ),
            _ => (st, WatchAction::Ignore),
        },
        WatchPhase::BackingOff { delay_ms: _ } => match ev {
            ProviderSignal::WaitDone => (
                WatchState { phase: WatchPhase::Listing, attempt: st.attempt },
                WatchAction::StartList,
            ),
            _ => (st, WatchAction::Ignore),
        },
        WatchPhase::Watching { version } => match ev {
            ProviderSignal::Added { version: nv } => (
                WatchState {
                    phase: WatchPhase::Watching {
                        version: if nv > version {
                            nv
                        } else {
                            version
                        },
                    },
                    attempt: 0,
                },
                WatchAction::ApplyUpsert,
            ),
            ProviderSignal::Modified { version: nv } => (
                WatchState {
                    phase: WatchPhase::Watching {
                        version: if nv > version {
                            nv
                        } else {
                            version
                        },
                    },
                    attempt: 0,
                },
                WatchAction::ApplyUpsert,
            ),
            ProviderSignal::Deleted => (st, WatchAction::ApplyDelete),
            ProviderSignal::Bookmark { version: nv } => (
                WatchState {
                    phase: WatchPhase::Watching {
                        version: if nv > version {
                            nv
                        } else {
                            version
                        },
                    },
                    attempt: st.attempt,
                },
                WatchAction::Ignore,
            ),
            ProviderSignal::ExpiredVersion => (
                WatchState { phase: WatchPhase::Listing, attempt: 0 },
                WatchAction::StartList,
            ),
            ProviderSignal::StreamEnded => (
                WatchState { phase: WatchPhase::Listing, attempt: 0 },
                WatchAction::StartList,
            ),
            ProviderSignal::TransientError => {
                let d = backoff_delay(st.attempt);
                let next = if st.attempt == 0xffff_ffff {
                    st.attempt
                } else {
                    st.attempt + 1
                };
                (
                    WatchState { phase: WatchPhase::BackingOff { delay_ms: d }, attempt: next },
                    WatchAction::Wait { delay_ms: d },
                )
            },
            ProviderSignal::AuthFailure => (
                WatchState { phase: WatchPhase::Failed, attempt: st.attempt },
                WatchAction::Escalate,
            ),
            _ => (st, WatchAction::Ignore),
        },
        WatchPhase::Failed => (st, WatchAction::Ignore),
    }
}

/// The starting state of every kind's loop: a full listing.
pub fn initial_state() -> (r: WatchState)
    ensures
        r.phase is Listing,
        r.attempt == 0,
{
    WatchState { phase: WatchPhase::Listing, attempt: 0 }
}

/// An expired or rejected version token while watching forces a full
/// re-list — never a diff-resume — after which the cache of that
/// kind is rebuilt from the new listing alone.
pub proof fn lemma_expired_version_forces_full_relist(st: WatchState)
    requires
        st.phase is Watching,
    ensures
        spec_step(st, ProviderSignal::ExpiredVersion).0.phase is Listing,
        spec_step(st, ProviderSignal::ExpiredVersion).1 is StartList,
{
}

/// An authentication or authorization failure is fatal for the kind
/// and escalated to the process, never silently ignored.
pub proof fn lemma_auth_failure_is_fatal(st: WatchState)
    requires
        st.phase is Watching || st.phase is Listing,
    ensures
        ({
            let ev = if st.phase is Watching {
                ProviderSignal::AuthFailure
            } else {
                ProviderSignal::ListAuthFailure
            };
            spec_step(st, ev).0.phase is Failed && spec_step(st, ev).1 is Escalate
        }),
{
}

/// The readiness signal: whether every configured kind is currently
/// watching.
pub fn all_watching(states: &Vec<WatchState>) -> (r: bool)
    ensures
        r == (forall|i: int| 0 <= i < states@.len() ==> states@[i].phase is Watching),
{
    let mut i: usize = 0;
    while i < states.len()
        invariant
            i <= states@.len(),
            forall|j: int| 0 <= j < i ==> states@[j].phase is Watching,
        decreases states@.len() - i,
    {
        let watching = match states[i].phase {
            WatchPhase::Watching { version: _ } => true,
            _ => false,
        };
        if !watching {
            assert(!(states@[i as int].phase is Watching));
            return false;
        }
        i += 1;
    }
    true
}

} // verus!
