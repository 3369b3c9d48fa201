use vstd::prelude::*;

verus! {

/// The remote calls that restoring a suspended subject makes: remove the
/// suspension-indicator role, add back every saved role, and — only as a
/// fallback when adding the roles back failed after the indicator was
/// already removed — re-add the indicator so the subject is not left with
/// no roles at all.
#[derive(Clone, Copy, Debug, PartialEq, Eq, Structural)]
pub enum RestoreCall {
    RemoveIndicator,
    AddSavedRoles,
    ReAddIndicator,
}

/// Where one restoration attempt stands. The attempt is `Completed` only
/// after the indicator was removed and every saved role added back; on any
/// other outcome it ends `Failed`, the suspension stays in the store, and
/// the next tick retries the whole restoration from the start.
#[derive(Clone, Copy, Debug, PartialEq, Eq, Structural)]
pub enum RestoreState {
    RemovingIndicator,
    AddingRoles,
    ReAddingIndicator,
    Completed,
    Failed,
}

/// Whether the attempt is over.
pub open spec fn spec_restore_done(s: RestoreState) -> bool {
    s is Completed || s is Failed
}

/// The transition table of one restoration attempt: from the state whose
/// call just returned with success flag `ok`, to the next state and the
/// next call to make, if any.
pub open spec fn spec_restore_next(s: RestoreState, ok: bool) -> (RestoreState, Option<
    RestoreCall,
>) {
    match s {
        RestoreState::RemovingIndicator => if ok {
            (RestoreState::AddingRoles, Some(RestoreCall::AddSavedRoles))
        } else {
            (RestoreState::Failed, None)
        },
        RestoreState::AddingRoles => if ok {
            (RestoreState::Completed, None)
        } else {
            (RestoreState::ReAddingIndicator, Some(RestoreCall::ReAddIndicator))
        },
        RestoreState::ReAddingIndicator => (RestoreState::Failed, None),
        _ => (s, None),
    }
}

/// Begin a restoration attempt: the first call removes the indicator role.
pub fn restore_start() -> (r: (RestoreState, RestoreCall))
    ensures
        r.0 is RemovingIndicator,
        r.1 is RemoveIndicator,
{
    (RestoreState::RemovingIndicator, RestoreCall::RemoveIndicator)
}

/// Step the attempt: the caller performed the pending call, reports
/// whether it succeeded, and is handed the next state and the next call to
/// perform, if one is left. Note the fallback row: a failure adding the
/// roles back, after the indicator was already removed, asks for the
/// indicator to be re-added rather than leaving the subject with nothing,
/// and the attempt still ends `Failed` so the error is surfaced.
pub fn restore_next(s: RestoreState, ok: bool) -> (r: (RestoreState, Option<RestoreCall>))
    requires
        !spec_restore_done(s),
    ensures
        r == spec_restore_next(s, ok),
{
    match s {
        RestoreState::RemovingIndicator => if ok {
            (RestoreState::AddingRoles, Some(RestoreCall::AddSavedRoles))
        } else {
            (RestoreState::Failed, None)
        },
        RestoreState::AddingRoles => if ok {
            (RestoreState::Completed, None)
        } else {
            (RestoreState::ReAddingIndicator, Some(RestoreCall::ReAddIndicator))
        },
        RestoreState::ReAddingIndicator => (RestoreState::Failed, None),
        _ => (s, None),
    }
}

/// Whether the attempt finished with every step succeeded, so the
/// suspension may be marked completed and leave the store.
pub fn restore_completed(s: &RestoreState) -> (r: bool)
    ensures
        r == (*s is Completed),
{
    matches!(s, RestoreState::Completed)
}

/// The state after feeding a whole sequence of call outcomes to the
/// machine, starting from `s`.
pub open spec fn spec_restore_run(s: RestoreState, outcomes: Seq<bool>) -> RestoreState
    decreases outcomes.len(),
{
    if spec_restore_done(s) || outcomes.len() == 0 {
        s
    } else {
        spec_restore_run(spec_restore_next(s, outcomes[0]).0, outcomes.drop_first())
    }
}

/// A finished attempt stays finished whatever else is fed in.
pub proof fn lemma_restore_run_done(s: RestoreState, outcomes: Seq<bool>)
    requires
        spec_restore_done(s),
    ensures
        spec_restore_run(s, outcomes) == s,
{
}

/// A restoration attempt completes exactly when its first two calls —
/// removing the indicator role and adding the saved roles back — both
/// succeeded. In particular, when the role-add step fails after the
/// removal succeeded, the attempt does not complete, so the suspension
/// stays in the store and the next tick retries the full restoration.
pub proof fn lemma_restore_completes_iff_full_success(outcomes: Seq<bool>)
    ensures
        spec_restore_run(RestoreState::RemovingIndicator, outcomes) is Completed <==> (
        outcomes.len() >= 2 && outcomes[0] && outcomes[1]),
{
    if outcomes.len() == 0 {
        assert(spec_restore_run(RestoreState::RemovingIndicator, outcomes)
            == RestoreState::RemovingIndicator);
    } else {
        let rest = outcomes.drop_first();
        assert(rest.len() == outcomes.len() - 1);
        if outcomes[0] {
            assert(spec_restore_run(RestoreState::RemovingIndicator, outcomes)
                == spec_restore_run(RestoreState::AddingRoles, rest));
            if rest.len() == 0 {
                assert(spec_restore_run(RestoreState::AddingRoles, rest)
                    == RestoreState::AddingRoles);
            } else {
                let rest2 = rest.drop_first();
                assert(rest[0] == outcomes[1]);
                if rest[0] {
                    assert(spec_restore_run(RestoreState::AddingRoles, rest)
                        == spec_restore_run(RestoreState::Completed, rest2));
                    lemma_restore_run_done(RestoreState::Completed, rest2);
                } else {
                    assert(spec_restore_run(RestoreState::AddingRoles, rest)
                        == spec_restore_run(RestoreState::ReAddingIndicator, rest2));
                    if rest2.len() == 0 {
                        assert(spec_restore_run(RestoreState::ReAddingIndicator, rest2)
                            == RestoreState::ReAddingIndicator);
                    } else {
                        assert(spec_restore_run(RestoreState::ReAddingIndicator, rest2)
                            == spec_restore_run(RestoreState::Failed, rest2.drop_first()));
                        lemma_restore_run_done(RestoreState::Failed, rest2.drop_first());
                    }
                }
            }
        } else {
            assert(spec_restore_run(RestoreState::RemovingIndicator, outcomes)
                == spec_restore_run(RestoreState::Failed, rest));
            lemma_restore_run_done(RestoreState::Failed, rest);
        }
    }
}

} // verus!
