//! Synchronising with the registry, and telling it of commitments.
use vstd::prelude::*;

use crate::adapters::{debug_form, handle_name, space_label, status_display};
use crate::flow::{
    answers, replies, AckEntryView, ActionView, EventView, HandleRequestView, HttpCallView,
    PayloadView, PendingHandleView, Setting, SpaceStagingView, StagedBatchView, StepView,
};
use crate::laws::history::{below, known, refused};
use crate::routes::registry::{
    credentials_rejected, notify_machine, notify_start, original, requested_next, requested_start,
    scope, settled, sync_machine, sync_next, sync_start, triage, CycleView, NotifyResponseView,
    RequestedSyncStep, RequestedSyncView, SyncOutcomeView, SyncResponseView, SyncStageView,
    SyncStep, TriageView,
};
use crate::text::{found, trimmed_start};

verus! {

// ---------------------------------------------------------------------------
// One space after the other
// ---------------------------------------------------------------------------

/// The query for the handles that wait for a space.
pub open spec fn pending_of(endpoint: Seq<char>, token: Option<Seq<char>>, space: Seq<char>) -> ActionView {
    ActionView::Send(
        HttpCallView {
            post: false,
            url: below(endpoint, "/pending"@),
            token,
            payload: PayloadView::Space(space),
            timeout: Some(10),
        },
    )
}

/// The cycle goes on with the first space ahead, and with the others still ahead of it; it is
/// over, with what it came to so far, only when no space is ahead.
pub open spec fn goes_on(
    step: SyncStep,
    endpoint: Seq<char>,
    token: Option<Seq<char>>,
    ahead: Seq<Seq<char>>,
    so_far: SyncOutcomeView,
) -> bool {
    if ahead.len() == 0 {
        step.ends(Ok(so_far))
    } else {
        step == SyncStep::Perform(
            SyncStageView::Pull {
                cycle: CycleView { endpoint, token, ahead: ahead.skip(1), so_far },
                space: ahead[0],
            },
            pending_of(endpoint, token, ahead[0]),
        )
    }
}

/// The sum of two counts, round the end of the word.
pub open spec fn sum(a: usize, b: usize) -> usize {
    if a + b > usize::MAX {
        (a + b - usize::MAX - 1) as usize
    } else {
        (a + b) as usize
    }
}

/// What a cycle came to with a further space.
pub open spec fn with_space(
    so_far: SyncOutcomeView,
    pulled: usize,
    staged: usize,
    errors: Seq<Seq<char>>,
) -> SyncOutcomeView {
    SyncOutcomeView {
        pulled: sum(so_far.pulled, pulled),
        staged: sum(so_far.staged, staged),
        errors: so_far.errors + errors,
    }
}

/// A cycle sets its client up, lists the spaces that are operated and those that may be, and
/// visits them all, with nothing counted yet.
pub proof fn lemma_cycles_begin(
    endpoint: Seq<char>,
    token: Option<Seq<char>>,
    running: Seq<Seq<char>>,
    delegated: Result<Seq<Seq<char>>, Seq<char>>,
    e: Seq<char>,
)
    ensures
        ({
            let m = sync_machine();
            let start = sync_start(endpoint, token);
            let open = start.on(m, EventView::Done(Ok(())));
            let listed = open.on(m, EventView::Spaces(running));
            &&& start.asks(ActionView::Connect(10))
            &&& start.on(m, EventView::Done(Err(e))).ends(refused(502, e))
            &&& open.asks(ActionView::ListSpaces)
            &&& listed.asks(ActionView::ListDelegated)
            &&& goes_on(
                listed.on(m, EventView::Names(delegated)),
                endpoint,
                token,
                scope(running, delegated),
                SyncOutcomeView { pulled: 0, staged: 0, errors: Seq::empty() },
            )
        }),
{
}

/// A space whose handles cannot be pulled is noted with the reason, and the cycle goes on with
/// the others and the same counts.
pub proof fn lemma_spaces_that_fail(cycle: CycleView, space: Seq<char>, code: u16, e: Seq<char>)
    ensures
        ({
            let refusal = sync_next(SyncStageView::Pull { cycle, space }, EventView::Sent(Ok(code)));
            let noted = |reason: Seq<char>|
                SyncOutcomeView {
                    errors: cycle.so_far.errors.push(space + ": "@ + reason),
                    ..cycle.so_far
                };
            &&& goes_on(
                sync_next(SyncStageView::Pull { cycle, space }, EventView::Sent(Err(e))),
                cycle.endpoint,
                cycle.token,
                cycle.ahead,
                noted("failed to connect to registry: "@ + e),
            )
            &&& goes_on(
                sync_next(SyncStageView::Read { cycle, space }, EventView::Pending(Err(e))),
                cycle.endpoint,
                cycle.token,
                cycle.ahead,
                noted("invalid response from registry: "@ + e),
            )
            &&& code == 401 || code == 403 ==> goes_on(
                refusal,
                cycle.endpoint,
                cycle.token,
                cycle.ahead,
                noted(
                    "registry rejected our credentials ("@ + status_display(code)
                        + "); check the auth token in Settings"@,
                ),
            )
            &&& !(200 <= code <= 299) && code != 401 && code != 403 ==> goes_on(
                refusal,
                cycle.endpoint,
                cycle.token,
                cycle.ahead,
                noted("registry returned status: "@ + status_display(code)),
            )
            &&& 200 <= code <= 299 ==> refusal == SyncStep::Perform(
                SyncStageView::Read { cycle, space },
                ActionView::ReadPending,
            )
        }),
{
}

/// The fates of a space's handles are reported to `/ack` where there are any; then, or without
/// any, the space is done with.
pub open spec fn acknowledges(
    step: SyncStep,
    cycle: CycleView,
    pulled: usize,
    staged: usize,
    errors: Seq<Seq<char>>,
    outcomes: Seq<AckEntryView>,
) -> bool {
    if outcomes.len() == 0 {
        goes_on(
            step,
            cycle.endpoint,
            cycle.token,
            cycle.ahead,
            with_space(cycle.so_far, pulled, staged, errors),
        )
    } else {
        step == SyncStep::Perform(
            SyncStageView::Ack { cycle, pulled, staged, errors },
            ActionView::Send(
                HttpCallView {
                    post: true,
                    url: below(cycle.endpoint, "/ack"@),
                    token: cycle.token,
                    payload: PayloadView::Acks(outcomes),
                    timeout: Some(10),
                },
            ),
        )
    }
}

/// Of the handles that wait for a space, those to be staged are handed to the operator; the
/// fates that are known are reported, with those that the operator decided, or without where it
/// decided nothing. A space without waiting handles is done with at once.
pub proof fn lemma_waiting_handles_are_settled(
    cycle: CycleView,
    space: Seq<char>,
    pending: Seq<PendingHandleView>,
    batch: StagedBatchView,
    e: Seq<char>,
)
    requires
        pending.len() <= usize::MAX,
    ensures
        ({
            let m = sync_machine();
            let n = pending.len() as usize;
            let t = triage(space, pending);
            let read = sync_next(
                SyncStageView::Read { cycle, space },
                EventView::Pending(Ok(pending)),
            );
            &&& pending.len() == 0 ==> goes_on(
                read,
                cycle.endpoint,
                cycle.token,
                cycle.ahead,
                cycle.so_far,
            )
            &&& pending.len() > 0 && t.requests.len() == 0 ==> acknowledges(
                read,
                cycle,
                n,
                0,
                t.errors,
                t.outcomes,
            )
            &&& pending.len() > 0 && t.requests.len() > 0 ==> {
                &&& read.asks(ActionView::Stage(t.requests))
                &&& acknowledges(
                    read.on(m, EventView::Staged(Ok(batch))),
                    cycle,
                    n,
                    batch.total_added,
                    t.errors,
                    t.outcomes + settled(t.submitted, batch.by_space),
                )
                &&& acknowledges(
                    read.on(m, EventView::Staged(Err(e))),
                    cycle,
                    n,
                    0,
                    t.errors.push("failed to stage: "@ + e),
                    t.outcomes,
                )
            }
        }),
{
    assert(cycle.so_far.errors + Seq::<Seq<char>>::empty() =~= cycle.so_far.errors);
}

/// When the registry was told, or could not be, the space is done with: its counts are added,
/// a failure to tell is noted, and the cycle goes on with the spaces ahead.
pub proof fn lemma_spaces_that_are_done(
    cycle: CycleView,
    pulled: usize,
    staged: usize,
    errors: Seq<Seq<char>>,
    code: u16,
    e: Seq<char>,
)
    ensures
        ({
            let ack = SyncStageView::Ack { cycle, pulled, staged, errors };
            let answered = sync_next(ack, EventView::Sent(Ok(code)));
            let noted = |reason: Seq<char>|
                with_space(
                    cycle.so_far,
                    pulled,
                    staged,
                    errors.push("ack failed: "@ + reason),
                );
            &&& 200 <= code <= 299 ==> goes_on(
                answered,
                cycle.endpoint,
                cycle.token,
                cycle.ahead,
                with_space(cycle.so_far, pulled, staged, errors),
            )
            &&& code == 401 || code == 403 ==> goes_on(
                answered,
                cycle.endpoint,
                cycle.token,
                cycle.ahead,
                noted(
                    "registry rejected our credentials ("@ + status_display(code)
                        + "); check the auth token in Settings"@,
                ),
            )
            &&& !(200 <= code <= 299) && code != 401 && code != 403 ==> goes_on(
                answered,
                cycle.endpoint,
                cycle.token,
                cycle.ahead,
                noted("registry returned "@ + status_display(code)),
            )
            &&& goes_on(
                sync_next(ack, EventView::Sent(Err(e))),
                cycle.endpoint,
                cycle.token,
                cycle.ahead,
                noted(e),
            )
        }),
{
}

// ---------------------------------------------------------------------------
// Whole cycles
// ---------------------------------------------------------------------------

/// The spaces whose waiting handles a run asks for, in order.
pub open spec fn queried(
    step: SyncStep,
    reply: spec_fn(nat, ActionView) -> EventView,
    done: nat,
    left: nat,
) -> Seq<Seq<char>>
    decreases left,
{
    match step {
        StepView::Perform(stage, action) => if left == 0 {
            Seq::empty()
        } else {
            let rest = queried(
                sync_next(stage, reply(done, action)),
                reply,
                done + 1,
                (left - 1) as nat,
            );
            match action {
                ActionView::Send(call) => match call.payload {
                    PayloadView::Space(space) => seq![space] + rest,
                    _ => rest,
                },
                _ => rest,
            }
        },
        _ => Seq::empty(),
    }
}

/// A step waits for what its stage is there for.
spec fn in_order_of_stages(step: SyncStep) -> bool {
    match step {
        StepView::Perform(SyncStageView::Pull { cycle, space }, action) => action matches
            ActionView::Send(call) && call.payload == PayloadView::Space(space),
        StepView::Perform(SyncStageView::Read { .. }, action) => action is ReadPending,
        StepView::Perform(SyncStageView::Add { .. }, action) => action is Stage,
        StepView::Perform(SyncStageView::Ack { .. }, action) => action matches ActionView::Send(call)
            && call.payload is Acks,
        StepView::Finish(_) => true,
        _ => false,
    }
}

/// The spaces that are still to be asked for.
spec fn due(step: SyncStep) -> Seq<Seq<char>> {
    match step {
        StepView::Perform(SyncStageView::Pull { cycle, space }, _) => seq![space] + cycle.ahead,
        StepView::Perform(SyncStageView::Read { cycle, .. }, _) => cycle.ahead,
        StepView::Perform(SyncStageView::Add { cycle, .. }, _) => cycle.ahead,
        StepView::Perform(SyncStageView::Ack { cycle, .. }, _) => cycle.ahead,
        _ => Seq::empty(),
    }
}

/// How many actions are enough.
spec fn enough(step: SyncStep) -> nat {
    match step {
        StepView::Perform(SyncStageView::Pull { cycle, .. }, _) => 4 * cycle.ahead.len() + 4,
        StepView::Perform(SyncStageView::Read { cycle, .. }, _) => 4 * cycle.ahead.len() + 3,
        StepView::Perform(SyncStageView::Add { cycle, .. }, _) => 4 * cycle.ahead.len() + 2,
        StepView::Perform(SyncStageView::Ack { cycle, .. }, _) => 4 * cycle.ahead.len() + 1,
        _ => 0,
    }
}

proof fn lemma_queried(
    step: SyncStep,
    reply: spec_fn(nat, ActionView) -> EventView,
    done: nat,
    left: nat,
)
    requires
        replies(reply),
        in_order_of_stages(step),
        enough(step) <= left,
    ensures
        queried(step, reply, done, left) == due(step),
    decreases left,
{
    if let StepView::Perform(stage, action) = step {
        let event = reply(done, action);
        assert(answers(action, event));
        let after = sync_next(stage, event);
        assert(in_order_of_stages(after));
        assert(enough(after) < enough(step));
        if let StepView::Perform(SyncStageView::Pull { cycle: rest, space: first }, _) = after {
            match stage {
                SyncStageView::Pull { cycle, .. } => {
                    assert(seq![first] + rest.ahead =~= cycle.ahead);
                },
                SyncStageView::Read { cycle, .. } => {
                    assert(seq![first] + rest.ahead =~= cycle.ahead);
                },
                SyncStageView::Add { cycle, .. } => {
                    assert(seq![first] + rest.ahead =~= cycle.ahead);
                },
                SyncStageView::Ack { cycle, .. } => {
                    assert(seq![first] + rest.ahead =~= cycle.ahead);
                },
                _ => {},
            }
        }
        lemma_queried(after, reply, done + 1, (left - 1) as nat);
        assert(queried(step, reply, done, left) =~= due(step));
    } else {
        assert(queried(step, reply, done, left) =~= due(step));
    }
}

/// In a whole cycle every space of the scope is asked for its waiting handles exactly once, in
/// order, whatever the registry and the operator reply.
pub proof fn lemma_every_space_is_queried_once(
    endpoint: Seq<char>,
    token: Option<Seq<char>>,
    running: Seq<Seq<char>>,
    delegated: Result<Seq<Seq<char>>, Seq<char>>,
    reply: spec_fn(nat, ActionView) -> EventView,
    done: nat,
    left: nat,
)
    requires
        replies(reply),
        left >= 4 * scope(running, delegated).len(),
    ensures
        queried(
            sync_next(
                SyncStageView::Delegated { endpoint, token, running },
                EventView::Names(delegated),
            ),
            reply,
            done,
            left,
        ) == scope(running, delegated),
{
    let step = sync_next(
        SyncStageView::Delegated { endpoint, token, running },
        EventView::Names(delegated),
    );
    let spaces = scope(running, delegated);
    lemma_queried(step, reply, done, left);
    if spaces.len() > 0 {
        assert(seq![spaces[0]] + spaces.skip(1) =~= spaces);
    } else {
        assert(spaces =~= Seq::empty());
    }
}

// ---------------------------------------------------------------------------
// The fates of handles
// ---------------------------------------------------------------------------

/// What becomes of a further waiting handle: one that is no `name@space` is settled as invalid;
/// one of another space is noted and left alone; any other is to be staged under its canonical
/// name, with its script, and its own name is remembered. The handles before it are treated
/// as without it.
pub proof fn lemma_each_waiting_handle(
    space: Seq<char>,
    pending: Seq<PendingHandleView>,
    more: PendingHandleView,
)
    ensures
        ({
            let before = triage(space, pending);
            let after = triage(space, pending.push(more));
            let invalid = |reason: Seq<char>|
                TriageView {
                    errors: before.errors.push(more.handle + ": invalid handle: "@ + reason),
                    outcomes: before.outcomes.push(
                        AckEntryView { handle: more.handle, outcome: "invalid"@ },
                    ),
                    ..before
                };
            match handle_name(more.handle) {
                Err(e) => after == invalid(e),
                Ok(name) => match (name.space, name.subname) {
                    (None, _) => after == invalid("not in name@space form"@),
                    (Some(s), sub) => if s != space {
                        after == (TriageView {
                            errors: before.errors.push(
                                more.handle + ": registry returned a handle for "@ + debug_form(
                                    Some(s),
                                ) + " when "@ + space + " was requested"@,
                            ),
                            ..before
                        })
                    } else if sub is None {
                        after == invalid("not in name@space form"@)
                    } else {
                        after == (TriageView {
                            requests: before.requests.push(
                                HandleRequestView {
                                    handle: name.text,
                                    script_pubkey: more.script_pubkey,
                                },
                            ),
                            submitted: before.submitted.push((name.text, more.handle)),
                            ..before
                        })
                    },
                },
            }
        }),
        triage(space, Seq::empty()) == (TriageView {
            errors: Seq::empty(),
            outcomes: Seq::empty(),
            requests: Seq::empty(),
            submitted: Seq::empty(),
        }),
{
    assert(pending.push(more).drop_last() =~= pending);
    assert(pending.push(more).last() == more);
}

/// A canonical name stands for the name that was last submitted for it, and for itself where
/// none was.
pub proof fn lemma_names_stand_for_the_last_submitted(
    submitted: Seq<(Seq<char>, Seq<char>)>,
    canonical: Seq<char>,
    raw: Seq<char>,
    other: Seq<char>,
)
    requires
        canonical != other,
    ensures
        original(submitted.push((canonical, raw)), canonical) == raw,
        original(submitted.push((other, raw)), canonical) == original(submitted, canonical),
        original(Seq::empty(), canonical) == canonical,
{
    assert(submitted.push((canonical, raw)).last() == (canonical, raw));
    assert(submitted.push((other, raw)).last() == (other, raw));
    assert(submitted.push((other, raw)).drop_last() =~= submitted);
}

/// Each space's decisions are reported behind those of the spaces before it: a `staged` for each
/// handle that was added, then the outcome of each that was skipped, each under the name that
/// was submitted.
pub proof fn lemma_decisions_are_reported(
    submitted: Seq<(Seq<char>, Seq<char>)>,
    by_space: Seq<SpaceStagingView>,
    more: SpaceStagingView,
    i: int,
)
    requires
        0 <= i < more.added.len() + more.skipped.len(),
    ensures
        ({
            let before = settled(submitted, by_space);
            let after = settled(submitted, by_space.push(more));
            &&& after.len() == before.len() + more.added.len() + more.skipped.len()
            &&& after.take(before.len() as int) == before
            &&& after[before.len() + i] == if i < more.added.len() {
                AckEntryView { handle: original(submitted, more.added[i]), outcome: "staged"@ }
            } else {
                AckEntryView {
                    handle: original(submitted, more.skipped[i - more.added.len()].handle),
                    outcome: more.skipped[i - more.added.len()].outcome,
                }
            }
        }),
        settled(submitted, Seq::empty()).len() == 0,
{
    let all = by_space.push(more);
    assert(all.drop_last() =~= by_space);
    assert(all.last() == more);
    assert(settled(submitted, all).take(settled(submitted, by_space).len() as int) =~= settled(
        submitted,
        by_space,
    ));
}

// ---------------------------------------------------------------------------
// Synchronising on request
// ---------------------------------------------------------------------------

/// A request to synchronise makes one cycle with the stored endpoint and token. It succeeds if
/// the cycle saw no errors, and gives the counts and errors of the cycle.
pub proof fn lemma_requested_sync_makes_a_cycle(
    endpoint: Seq<char>,
    token: Result<Option<Seq<char>>, Seq<char>>,
    stage: SyncStageView,
    event: EventView,
    e: Seq<char>,
)
    ensures
        ({
            let start = requested_start();
            let named = requested_next(
                RequestedSyncView::Endpoint,
                EventView::Value(Ok(Some(endpoint))),
            );
            &&& start == RequestedSyncStep::Perform(
                RequestedSyncView::Endpoint,
                ActionView::ReadSetting(Setting::RegistryEndpoint),
            )
            &&& requested_next(RequestedSyncView::Endpoint, EventView::Value(Err(e))).ends(
                refused(500, e),
            )
            &&& requested_next(RequestedSyncView::Endpoint, EventView::Value(Ok(None))).ends(
                refused(400, "registry_endpoint not configured. Set it in Settings."@),
            )
            &&& named.asks(ActionView::ReadSetting(Setting::RegistryAuthToken))
            &&& requested_next(named->Perform_0, EventView::Value(token))
                == RequestedSyncStep::Perform(
                RequestedSyncView::Cycle(
                    SyncStageView::Open { endpoint, token: known(token) },
                ),
                ActionView::Connect(10),
            )
        }),
        ({
            let step = requested_next(RequestedSyncView::Cycle(stage), event);
            match sync_next(stage, event) {
                StepView::Perform(after, action) => step == RequestedSyncStep::Perform(
                    RequestedSyncView::Cycle(after),
                    action,
                ),
                StepView::Finish(Ok(outcome)) => step.ends(
                    Ok(
                        SyncResponseView {
                            success: outcome.errors.len() == 0,
                            pulled: outcome.pulled,
                            staged: outcome.staged,
                            errors: outcome.errors,
                        },
                    ),
                ),
                StepView::Finish(Err(refusal)) => step.ends(Err(refusal)),
                StepView::Ignored(_) => step is Ignored,
            }
        }),
{
}

// ---------------------------------------------------------------------------
// Telling the registry of a commitment
// ---------------------------------------------------------------------------

/// A notification reports, with the stored token and for at most ten seconds, the root that was
/// asked for and each handle committed under it in full, to `/committed` below the endpoint, and
/// answers how many there are; without any it reports nothing.
pub proof fn lemma_commitments_are_reported(
    space: Seq<char>,
    label: Seq<char>,
    root: Seq<char>,
    endpoint: Seq<char>,
    names: Seq<Seq<char>>,
    token: Result<Option<Seq<char>>, Seq<char>>,
    code: u16,
    e: Seq<char>,
    i: int,
)
    requires
        space_label(space) == Some(label),
        names.len() <= usize::MAX,
        0 <= i < names.len(),
    ensures
        ({
            let m = notify_machine();
            let start = notify_start(space, root);
            let named = start.on(m, EventView::Value(Ok(Some(endpoint))));
            let listed = named.on(m, EventView::Names(Ok(names)));
            let told = listed.on(m, EventView::Value(token));
            let answered = told.on(m, EventView::Sent(Ok(code)));
            &&& start.asks(ActionView::ReadSetting(Setting::RegistryEndpoint))
            &&& start.on(m, EventView::Value(Err(e))).ends(refused(500, e))
            &&& start.on(m, EventView::Value(Ok(None))).ends(
                refused(400, "registry_endpoint not configured"@),
            )
            &&& named.asks(ActionView::ListCommitted { space: label, root })
            &&& named.on(m, EventView::Names(Err(e))).ends(refused(500, e))
            &&& named.on(m, EventView::Names(Ok(Seq::empty()))).ends(
                Ok(
                    NotifyResponseView {
                        success: true,
                        notified: 0,
                        message: Some("No handles found for this commitment"@),
                    },
                ),
            )
            &&& listed.asks(ActionView::ReadSetting(Setting::RegistryAuthToken))
            &&& told matches StepView::Perform(_, ActionView::Send(call)) && {
                &&& call.post
                &&& call.url == below(endpoint, "/committed"@)
                &&& call.token == known(token)
                &&& call.timeout == Some(10u64)
                &&& call.payload matches PayloadView::Committed { root: r, handles } && {
                    &&& r == root
                    &&& handles.len() == names.len()
                    &&& handles[i] == names[i] + "@"@ + trimmed_start(space, '@')
                }
            }
            &&& told.on(m, EventView::Sent(Err(e))).ends(
                refused(502, "Failed to notify registry: "@ + e),
            )
            &&& if 200 <= code <= 299 {
                answered.ends(
                    Ok(
                        NotifyResponseView {
                            success: true,
                            notified: names.len() as usize,
                            message: None,
                        },
                    ),
                )
            } else {
                answered.ends(
                    refused(502, "Registry /committed returned: "@ + status_display(code)),
                )
            }
        }),
{
}

/// A notification about a space that is none is refused once there is an endpoint.
pub proof fn lemma_unknown_spaces_are_not_reported(
    space: Seq<char>,
    root: Seq<char>,
    endpoint: Seq<char>,
)
    requires
        space_label(space) is None,
    ensures
        notify_start(space, root).on(notify_machine(), EventView::Value(Ok(Some(endpoint)))).ends(
            refused(400, "invalid space: "@ + "Name Error: Malformed name"@),
        ),
{
}

/// The remedy is named for the two statuses that reject credentials, and for no other.
pub proof fn lemma_rejected_credentials_are_named(code: u16)
    ensures
        credentials_rejected(code) == if code == 401 || code == 403 {
            Some(
                "registry rejected our credentials ("@ + status_display(code)
                    + "); check the auth token in Settings"@,
            )
        } else {
            None
        },
{
}

/// A setting that cannot be read counts as not set.
pub proof fn lemma_unreadable_settings_count_as_missing(value: Result<Option<Seq<char>>, Seq<char>>)
    ensures
        found(value) == known(value),
{
}

} // verus!
