//! What holds of an [`AuthManager`](crate::auth::AuthManager) over its whole life: whatever
//! was asked of it, in whatever order.
use vstd::prelude::*;

use crate::auth::{
    credential_outcome, credential_verdict, is_listing, issue_outcome, recent, revoke_outcome,
    still_counts, token_expiry, with_revoked, with_token, AuthError, AuthState, CredentialKind,
    RecordView, TokenRecord,
};

verus! {

/// Something that was asked of a manager.
pub enum AuthEvent {
    /// An attempt to authenticate, with the times at which it started, had a one-time code
    /// checked, and finished.
    Attempt {
        kind: CredentialKind,
        value: Seq<char>,
        started: int,
        code_time: Option<u64>,
        finished: int,
    },
    /// Issuing a token.
    Issue { ttl_seconds: Option<u64>, now: int, jti: Seq<char> },
    /// Revoking a token.
    Revoke { jti: Seq<char> },
}

/// The record of a token that is issued.
pub open spec fn fresh_record(jti: Seq<char>, now: int, expires_at: Option<int>) -> RecordView {
    RecordView { jti, issued_at: now, expires_at, revoked: false }
}

/// The state after an event.
pub open spec fn after_event(state: AuthState, event: AuthEvent) -> AuthState {
    match event {
        AuthEvent::Attempt { kind, value, started, code_time, finished } => credential_outcome(
            state,
            kind,
            value,
            started,
            code_time,
            finished,
        ).0,
        AuthEvent::Issue { ttl_seconds, now, jti } => match token_expiry(ttl_seconds, now) {
            Some(expires_at) => with_token(state, fresh_record(jti, now, expires_at)),
            None => state,
        },
        AuthEvent::Revoke { jti } => if state.tokens.dom().contains(jti) {
            with_revoked(state, jti)
        } else {
            state
        },
    }
}

/// The state after some events.
pub open spec fn after_events(state: AuthState, events: Seq<AuthEvent>) -> AuthState
    decreases events.len(),
{
    if events.len() == 0 {
        state
    } else {
        after_event(after_events(state, events.drop_last()), events.last())
    }
}

/// Issuing and revoking a token do to a manager what the events of that name do.
pub proof fn law_requests_are_events(
    before: AuthState,
    ttl_seconds: Option<u64>,
    now: int,
    jti: Seq<char>,
    issued: AuthState,
    issue: Result<(String, TokenRecord), AuthError>,
    revoked: AuthState,
    revoke: Result<(), AuthError>,
)
    requires
        issue_outcome(before, ttl_seconds, now, jti, issued, issue),
        revoke_outcome(before, jti, revoked, revoke),
    ensures
        issued == after_event(before, AuthEvent::Issue { ttl_seconds, now, jti }),
        issue is Ok <==> token_expiry(ttl_seconds, now) is Some,
        revoked == after_event(before, AuthEvent::Revoke { jti }),
        revoke is Ok <==> before.tokens.dom().contains(jti),
{
}

/// What an attempt to authenticate resulted in.
pub open spec fn attempt_result(state: AuthState, event: AuthEvent) -> Result<(), AuthError>
    recommends
        event is Attempt,
{
    credential_outcome(
        state,
        event->kind,
        event->value,
        event->started,
        event->code_time,
        event->finished,
    ).1
}

/// When the attempts finished that were refused as invalid since the last that succeeded.
/// Attempts that were refused for another reason are not among them.
pub open spec fn failures(start: AuthState, events: Seq<AuthEvent>) -> Seq<int>
    decreases events.len(),
{
    if events.len() == 0 {
        Seq::empty()
    } else {
        let earlier = failures(start, events.drop_last());
        let event = events.last();
        if event is Attempt {
            match attempt_result(after_events(start, events.drop_last()), event) {
                Ok(()) => Seq::empty(),
                Err(AuthError::InvalidCredential) => earlier.push(event->finished),
                Err(_) => earlier,
            }
        } else {
            earlier
        }
    }
}

/// Whether the clock never ran backwards: no attempt finished before it started, none
/// started before an earlier one had finished, and `now` is not before any of them.
pub open spec fn in_order(events: Seq<AuthEvent>, now: int) -> bool {
    &&& forall|i: int|
        0 <= i < events.len() && (#[trigger] events[i]) is Attempt ==> events[i]->started
            <= events[i]->finished <= now
    &&& forall|i: int, j: int|
        0 <= i < j < events.len() && (#[trigger] events[i]) is Attempt && (
        #[trigger] events[j]) is Attempt ==> events[i]->finished <= events[j]->started
}

proof fn lemma_recent_elements(attempts: Seq<int>, now: int, bound: int)
    requires
        forall|i: int| 0 <= i < attempts.len() ==> (#[trigger] attempts[i]) <= bound,
    ensures
        forall|i: int|
            0 <= i < recent(attempts, now).len() ==> (#[trigger] recent(attempts, now)[i]) <= bound,
    decreases attempts.len(),
{
    if attempts.len() > 0 {
        let earlier = attempts.drop_last();
        assert forall|i: int| 0 <= i < earlier.len() implies (#[trigger] earlier[i]) <= bound by {
            assert(earlier[i] == attempts[i]);
        }
        lemma_recent_elements(earlier, now, bound);
        assert(attempts[attempts.len() - 1] <= bound);
        let kept = recent(attempts, now);
        assert forall|i: int| 0 <= i < kept.len() implies (#[trigger] kept[i]) <= bound by {
            if i < recent(earlier, now).len() {
                assert(kept[i] == recent(earlier, now)[i]);
            }
        }
    }
}

/// Sorting out twice is sorting out at the later time.
proof fn lemma_recent_twice(attempts: Seq<int>, earlier: int, later: int)
    requires
        earlier <= later,
        forall|i: int| 0 <= i < attempts.len() ==> (#[trigger] attempts[i]) <= earlier,
    ensures
        recent(recent(attempts, earlier), later) == recent(attempts, later),
    decreases attempts.len(),
{
    if attempts.len() > 0 {
        let front = attempts.drop_last();
        assert forall|i: int| 0 <= i < front.len() implies (#[trigger] front[i]) <= earlier by {
            assert(front[i] == attempts[i]);
        }
        lemma_recent_twice(front, earlier, later);
        assert(attempts[attempts.len() - 1] <= earlier);
        if still_counts(attempts.last(), earlier) {
            let kept = recent(front, earlier).push(attempts.last());
            assert(kept.drop_last() =~= recent(front, earlier));
        }
    }
}

proof fn lemma_in_order_before(events: Seq<AuthEvent>, now: int)
    requires
        events.len() > 0,
        in_order(events, now),
    ensures
        in_order(events.drop_last(), now),
        events.last() is Attempt ==> in_order(events.drop_last(), events.last()->started)
            && events.last()->started <= events.last()->finished <= now,
{
    let earlier = events.drop_last();
    let last = events.len() - 1;
    assert(events[last] == events.last());
    assert forall|i: int| 0 <= i < earlier.len() && (#[trigger] earlier[i]) is Attempt implies {
        &&& earlier[i]->started <= earlier[i]->finished <= now
        &&& events.last() is Attempt ==> earlier[i]->finished <= events.last()->started
    } by {
        assert(earlier[i] == events[i]);
    }
    assert forall|i: int, j: int|
        0 <= i < j < earlier.len() && (#[trigger] earlier[i]) is Attempt && (
        #[trigger] earlier[j]) is Attempt implies earlier[i]->finished <= earlier[j]->started by {
        assert(earlier[i] == events[i] && earlier[j] == events[j]);
    }
}

proof fn lemma_attempts_over_history(start: AuthState, events: Seq<AuthEvent>, now: int)
    requires
        start.attempts.len() == 0,
        in_order(events, now),
    ensures
        after_events(start, events).password_hash == start.password_hash,
        after_events(start, events).totp_secret == start.totp_secret,
        forall|i: int|
            0 <= i < after_events(start, events).attempts.len() ==> (#[trigger] after_events(
                start,
                events,
            ).attempts[i]) <= now,
        recent(after_events(start, events).attempts, now) == recent(failures(start, events), now),
    decreases events.len(),
{
    if events.len() == 0 {
        assert(start.attempts =~= failures(start, events));
    } else {
        let earlier = events.drop_last();
        let before = after_events(start, earlier);
        let event = events.last();
        lemma_in_order_before(events, now);
        lemma_attempts_over_history(start, earlier, now);
        if event is Attempt {
            lemma_attempts_over_history(start, earlier, event->started);
            let counted = recent(before.attempts, event->started);
            lemma_recent_elements(before.attempts, event->started, event->started);
            lemma_recent_twice(before.attempts, event->started, now);
            let after = after_events(start, events).attempts;
            if attempt_result(before, event) == Err::<(), AuthError>(
                AuthError::InvalidCredential,
            ) {
                assert(after == counted.push(event->finished));
                assert(after.drop_last() =~= counted);
                assert(failures(start, events).drop_last() =~= failures(start, earlier));
            }
        }
    }
}

/// The lock, over everything that was ever asked of a manager whose clock did not run
/// backwards: an attempt is refused as one too many if and only if five attempts failed
/// within the last minute and after the last that succeeded, whatever the credential. An
/// attempt that is refused for that reason, or for a broken verifier, does not count, so it
/// does not prolong the lock. Otherwise the credential alone decides.
pub proof fn law_lock_over_history(
    start: AuthState,
    events: Seq<AuthEvent>,
    kind: CredentialKind,
    value: Seq<char>,
    started: int,
    code_time: Option<u64>,
    finished: int,
)
    requires
        start.attempts.len() == 0,
        in_order(events, started),
    ensures
        ({
            let r = credential_outcome(
                after_events(start, events),
                kind,
                value,
                started,
                code_time,
                finished,
            ).1;
            if recent(failures(start, events), started).len() >= 5 {
                r == Err::<(), AuthError>(AuthError::RateLimited)
            } else {
                match credential_verdict(start, kind, value, code_time) {
                    Ok(true) => r == Ok::<(), AuthError>(()),
                    Ok(false) => r == Err::<(), AuthError>(AuthError::InvalidCredential),
                    Err(error) => r == Err::<(), AuthError>(error) && error == AuthError::Internal,
                }
            }
        }),
{
    lemma_attempts_over_history(start, events, started);
}

/// Whether the event at `i` issued a token called `jti`.
pub open spec fn issues(events: Seq<AuthEvent>, i: int, jti: Seq<char>) -> bool {
    &&& 0 <= i < events.len()
    &&& events[i] matches AuthEvent::Issue { ttl_seconds, now, jti: name }
    &&& name == jti
    &&& token_expiry(ttl_seconds, now) is Some
}

/// Whether the event at `i` revoked the token called `jti`.
pub open spec fn revokes(start: AuthState, events: Seq<AuthEvent>, i: int, jti: Seq<char>) -> bool {
    &&& 0 <= i < events.len()
    &&& events[i] == AuthEvent::Revoke { jti }
    &&& after_events(start, events.take(i)).tokens.dom().contains(jti)
}

/// Whether no name was given to two tokens.
pub open spec fn names_are_fresh(events: Seq<AuthEvent>) -> bool {
    forall|i: int, j: int, jti: Seq<char>|
        #[trigger] issues(events, i, jti) && #[trigger] issues(events, j, jti) ==> i == j
}

proof fn lemma_earlier_event(start: AuthState, events: Seq<AuthEvent>, i: int, jti: Seq<char>)
    requires
        events.len() > 0,
        0 <= i < events.len() - 1,
    ensures
        issues(events, i, jti) == issues(events.drop_last(), i, jti),
        revokes(start, events, i, jti) == revokes(start, events.drop_last(), i, jti),
{
    assert(events[i] == events.drop_last()[i]);
    assert(events.take(i) =~= events.drop_last().take(i));
}

proof fn lemma_token_over_history(start: AuthState, events: Seq<AuthEvent>, jti: Seq<char>)
    requires
        start.tokens == Map::<Seq<char>, RecordView>::empty(),
        names_are_fresh(events),
    ensures
        ({
            let tokens = after_events(start, events).tokens;
            &&& tokens.dom().contains(jti) <==> exists|i: int| issues(events, i, jti)
            &&& forall|i: int|
                #![trigger issues(events, i, jti)]
                issues(events, i, jti) ==> {
                    &&& tokens[jti].jti == jti
                    &&& tokens[jti].issued_at == events[i]->now
                    &&& Some(tokens[jti].expires_at) == token_expiry(
                        events[i]->ttl_seconds,
                        events[i]->now,
                    )
                    &&& tokens[jti].revoked <==> exists|k: int| revokes(start, events, k, jti)
                }
        }),
    decreases events.len(),
{
    if events.len() > 0 {
        let earlier = events.drop_last();
        let last = events.len() - 1;
        let before = after_events(start, earlier);
        assert(events.take(last) =~= earlier);
        assert forall|i: int, j: int, name: Seq<char>|
            #[trigger] issues(earlier, i, name) && #[trigger] issues(earlier, j, name) implies i
            == j by {
            lemma_earlier_event(start, events, i, name);
            lemma_earlier_event(start, events, j, name);
        }
        lemma_token_over_history(start, earlier, jti);
        assert forall|i: int| 0 <= i < last implies #[trigger] issues(events, i, jti) == issues(
            earlier,
            i,
            jti,
        ) by {
            lemma_earlier_event(start, events, i, jti);
        }
        assert forall|i: int| 0 <= i < last implies #[trigger] revokes(start, events, i, jti)
            == revokes(start, earlier, i, jti) by {
            lemma_earlier_event(start, events, i, jti);
        }
        let tokens = after_events(start, events).tokens;
        if issues(events, last, jti) {
            assert forall|i: int| !issues(earlier, i, jti) by {
                if issues(earlier, i, jti) {
                    assert(issues(events, i, jti));
                }
            }
            assert(!before.tokens.dom().contains(jti));
            assert forall|k: int| !revokes(start, events, k, jti) by {
                if revokes(start, events, k, jti) {
                    if k < last {
                        assert(revokes(start, earlier, k, jti));
                        lemma_issued_before_revoked(start, earlier, k, jti);
                    }
                }
            }
        } else {
            if exists|i: int| issues(earlier, i, jti) {
                let i = choose|i: int| issues(earlier, i, jti);
                assert(issues(events, i, jti));
            }
            if exists|i: int| issues(events, i, jti) {
                let i = choose|i: int| issues(events, i, jti);
                assert(issues(earlier, i, jti));
            }
            if exists|k: int| revokes(start, earlier, k, jti) {
                let k = choose|k: int| revokes(start, earlier, k, jti);
                assert(revokes(start, events, k, jti));
            }
            if exists|k: int| revokes(start, events, k, jti) {
                let k = choose|k: int| revokes(start, events, k, jti);
                if k < last {
                    assert(revokes(start, earlier, k, jti));
                }
            }
            if revokes(start, events, last, jti) {
                assert(tokens[jti].revoked);
            }
        }
    }
}

proof fn lemma_issued_before_revoked(
    start: AuthState,
    events: Seq<AuthEvent>,
    k: int,
    jti: Seq<char>,
)
    requires
        start.tokens == Map::<Seq<char>, RecordView>::empty(),
        names_are_fresh(events),
        revokes(start, events, k, jti),
    ensures
        exists|i: int| issues(events, i, jti),
{
    let prefix = events.take(k);
    assert forall|i: int, name: Seq<char>| #[trigger] issues(prefix, i, name) implies issues(
        events,
        i,
        name,
    ) by {
        assert(prefix[i] == events[i]);
    }
    assert(names_are_fresh(prefix));
    lemma_some_issue(start, prefix, jti);
    let i = choose|i: int| issues(prefix, i, jti);
    assert(issues(events, i, jti));
}

proof fn lemma_some_issue(start: AuthState, events: Seq<AuthEvent>, jti: Seq<char>)
    requires
        start.tokens == Map::<Seq<char>, RecordView>::empty(),
        after_events(start, events).tokens.dom().contains(jti),
    ensures
        exists|i: int| issues(events, i, jti),
    decreases events.len(),
{
    if events.len() > 0 {
        let last = events.len() - 1;
        if !issues(events, last, jti) {
            lemma_some_issue(start, events.drop_last(), jti);
            let i = choose|i: int| issues(events.drop_last(), i, jti);
            lemma_earlier_event(start, events, i, jti);
            assert(issues(events, i, jti));
        }
    }
}

/// The list, over everything that was ever asked of a manager that began without tokens and
/// gave no name twice: it has exactly one record for each token that was issued, expired
/// and revoked ones too, with the times at which it was issued and expires, and marked as
/// revoked if and only if it was revoked; and none besides.
pub proof fn law_list_over_history(
    start: AuthState,
    events: Seq<AuthEvent>,
    records: Seq<RecordView>,
)
    requires
        start.tokens == Map::<Seq<char>, RecordView>::empty(),
        names_are_fresh(events),
        is_listing(after_events(start, events).tokens, records),
    ensures
        forall|i: int, jti: Seq<char>| #[trigger]
            issues(events, i, jti) ==> exists|a: int|
                0 <= a < records.len() && (#[trigger] records[a]).jti == jti
                    && records[a].issued_at == events[i]->now && Some(records[a].expires_at)
                    == token_expiry(events[i]->ttl_seconds, events[i]->now) && (records[a].revoked
                    <==> exists|k: int| revokes(start, events, k, jti)),
        forall|a: int|
            0 <= a < records.len() ==> exists|i: int|
                issues(events, i, (#[trigger] records[a]).jti),
        forall|a: int, b: int|
            0 <= a < b < records.len() ==> (#[trigger] records[a]).jti != (
            #[trigger] records[b]).jti && records[a].issued_at >= records[b].issued_at,
{
    let tokens = after_events(start, events).tokens;
    assert forall|i: int, jti: Seq<char>| #[trigger] issues(events, i, jti) implies exists|a: int|
        0 <= a < records.len() && (#[trigger] records[a]).jti == jti && records[a].issued_at
            == events[i]->now && Some(records[a].expires_at) == token_expiry(
            events[i]->ttl_seconds,
            events[i]->now,
        ) && (records[a].revoked <==> exists|k: int| revokes(start, events, k, jti)) by {
        lemma_token_over_history(start, events, jti);
        assert(tokens.dom().contains(jti));
        let a = choose|a: int| 0 <= a < records.len() && (#[trigger] records[a]).jti == jti;
        assert(tokens[records[a].jti] == records[a]);
    }
    assert forall|a: int| 0 <= a < records.len() implies exists|i: int|
        issues(events, i, (#[trigger] records[a]).jti) by {
        lemma_token_over_history(start, events, records[a].jti);
    }
}

} // verus!
