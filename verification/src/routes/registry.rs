//! Registry integration.
//!
//! Handles that wait in an outside registry are pulled, staged and acknowledged,
//! one space at a time, and the registry is told when handles are committed.
use vstd::prelude::*;

use crate::adapters::{
    debug_form, debug_text, handle_name, parse_handle, status_display, HandleName, HandleNameView,
};
use crate::flow::{
    answers, join_url, lemma_sound_run_finishes, post_call, post_to, replies, run, sound,
    space_answer, space_of, stop, stop_with, success, url_under, AckEntry, AckEntryView, Action,
    ActionView, Event, EventView, HandleRequest, HandleRequestView, HttpCall, HttpCallView,
    Machine, Payload, PayloadView, PendingHandle, PendingHandleView, Setting, SpaceStaging,
    SpaceStagingView, StatusCode, Step, StepView, BAD_GATEWAY, BAD_REQUEST, INTERNAL,
};
use crate::text::{
    ascending, copy_opt, found, found_text, group_list_view, in_order, lemma_in_order, list_view,
    listing_view, lookup_view, opt_view, result_view, sort_names, text_eq, trim_start_matches,
    trimmed_start,
};

verus! {

broadcast use group_list_view;

/// Seconds to wait for the registry.
pub const REGISTRY_TIMEOUT: u64 = 10;

// ---------------------------------------------------------------------------
// One space's pending handles
// ---------------------------------------------------------------------------

/// Names the likely remedy when the registry rejects our credentials, so that a
/// bad token does not read like any other failure.
pub open spec fn credentials_rejected(code: u16) -> Option<Seq<char>> {
    if code == 401 || code == 403 {
        Some(
            "registry rejected our credentials ("@ + status_display(code)
                + "); check the auth token in Settings"@,
        )
    } else {
        None
    }
}

/// Names the likely remedy when the registry rejects our credentials.
pub fn auth_error(status: StatusCode) -> (message: Option<String>)
    ensures
        opt_view(message) == credentials_rejected(status@),
{
    let code: u16 = status.as_u16();
    if code == 401 || code == 403 {
        Some(
            "registry rejected our credentials (".to_owned().concat(status.text().as_str()).concat(
                "); check the auth token in Settings",
            ),
        )
    } else {
        None
    }
}

/// What becomes of the handles that wait for a space.
pub struct Triage {
    pub errors: Vec<String>,
    /// Fates that are known already.
    pub outcomes: Vec<AckEntry>,
    /// Handles to stage.
    pub requests: Vec<HandleRequest>,
    /// The canonical name of each handle to stage, with the name that the
    /// registry has for it.
    pub submitted: Vec<(String, String)>,
}

pub ghost struct TriageView {
    pub errors: Seq<Seq<char>>,
    pub outcomes: Seq<AckEntryView>,
    pub requests: Seq<HandleRequestView>,
    pub submitted: Seq<(Seq<char>, Seq<char>)>,
}

impl View for Triage {
    type V = TriageView;

    open spec fn view(&self) -> TriageView {
        TriageView {
            errors: list_view(self.errors@),
            outcomes: list_view(self.outcomes@),
            requests: list_view(self.requests@),
            submitted: list_view(self.submitted@),
        }
    }
}

/// What is said of a handle of a space that was not asked for.
pub open spec fn misplaced(handle: Seq<char>, other: Option<Seq<char>>, space: Seq<char>) -> Seq<
    char,
> {
    handle + ": registry returned a handle for "@ + debug_form(other) + " when "@ + space
        + " was requested"@
}

/// A text that is no handle in the form `name@space`: it cannot be parsed, it names no
/// space, or it is the space that was asked for itself.
pub open spec fn malformed(space: Seq<char>, parsed: Result<HandleNameView, Seq<char>>) -> bool {
    match parsed {
        Err(_) => true,
        Ok(name) => name.space is None || (name.space == Some(space) && name.subname is None),
    }
}

/// What is said of a text that is no handle.
pub open spec fn malformed_reason(parsed: Result<HandleNameView, Seq<char>>) -> Seq<char> {
    match parsed {
        Err(e) => e,
        Ok(_) => "not in name@space form"@,
    }
}

/// A handle that is malformed will never be anything else, so it is settled as invalid;
/// a handle of another space is left alone; any other is to be staged.
pub open spec fn triage_one(
    t: TriageView,
    space: Seq<char>,
    pending: PendingHandleView,
    parsed: Result<HandleNameView, Seq<char>>,
) -> TriageView {
    if malformed(space, parsed) {
        TriageView {
            errors: t.errors.push(
                pending.handle + ": invalid handle: "@ + malformed_reason(parsed),
            ),
            outcomes: t.outcomes.push(
                AckEntryView { handle: pending.handle, outcome: "invalid"@ },
            ),
            ..t
        }
    } else {
        let name = parsed->Ok_0;
        if name.space == Some(space) {
            TriageView {
                requests: t.requests.push(
                    HandleRequestView {
                        handle: name.text,
                        script_pubkey: pending.script_pubkey,
                    },
                ),
                submitted: t.submitted.push((name.text, pending.handle)),
                ..t
            }
        } else {
            TriageView {
                errors: t.errors.push(misplaced(pending.handle, name.space, space)),
                ..t
            }
        }
    }
}

/// What becomes of the handles that wait for a space.
pub open spec fn triage(space: Seq<char>, pending: Seq<PendingHandleView>) -> TriageView
    decreases pending.len(),
{
    if pending.len() == 0 {
        TriageView {
            errors: Seq::empty(),
            outcomes: Seq::empty(),
            requests: Seq::empty(),
            submitted: Seq::empty(),
        }
    } else {
        triage_one(
            triage(space, pending.drop_last()),
            space,
            pending.last(),
            handle_name(pending.last().handle),
        )
    }
}

impl Triage {
    fn settle_invalid(&mut self, pending: &PendingHandle, reason: &str)
        ensures
            final(self)@ == (TriageView {
                errors: old(self)@.errors.push(
                    pending@.handle + ": invalid handle: "@ + reason@,
                ),
                outcomes: old(self)@.outcomes.push(
                    AckEntryView { handle: pending@.handle, outcome: "invalid"@ },
                ),
                ..old(self)@
            }),
    {
        self.errors.push(pending.handle.clone().concat(": invalid handle: ").concat(reason));
        self.outcomes.push(AckEntry::new(pending.handle.as_str(), "invalid"));
    }

    /// Settles one handle, from the outcome of parsing it.
    pub fn take(self, space: &str, pending: &PendingHandle, parsed: Result<HandleName, String>) -> (t:
        Triage)
        ensures
            t@ == triage_one(self@, space@, pending@, result_view(parsed)),
    {
        let mut t = self;
        match parsed {
            Err(e) => {
                t.settle_invalid(pending, e.as_str());
            },
            Ok(name) => {
                let fits = match &name.space {
                    Some(s) => text_eq(s.as_str(), space),
                    None => false,
                };
                if name.space.is_none() || (fits && name.subname.is_none()) {
                    t.settle_invalid(pending, "not in name@space form");
                } else if fits {
                    t.submitted.push((name.text.clone(), pending.handle.clone()));
                    t.requests.push(
                        HandleRequest {
                            handle: name.text,
                            script_pubkey: pending.script_pubkey.clone(),
                        },
                    );
                } else {
                    t.errors.push(
                        pending.handle.clone().concat(": registry returned a handle for ").concat(
                            debug_text(&name.space).as_str(),
                        ).concat(" when ").concat(space).concat(" was requested"),
                    );
                }
            },
        }
        t
    }
}

/// Settles the handles that wait for a space.
pub fn triage_all(space: &str, pending: &Vec<PendingHandle>) -> (t: Triage)
    ensures
        t@ == triage(space@, list_view(pending@)),
{
    let mut t = Triage {
        errors: Vec::new(),
        outcomes: Vec::new(),
        requests: Vec::new(),
        submitted: Vec::new(),
    };
    let ghost all = list_view(pending@);
    assert(all.take(0) =~= Seq::empty());
    let mut i: usize = 0;
    while i < pending.len()
        invariant
            i <= pending.len(),
            all == list_view(pending@),
            t@ == triage(space@, all.take(i as int)),
        decreases pending.len() - i,
    {
        let parsed = parse_handle(pending[i].handle.as_str());
        t = t.take(space, &pending[i], parsed);
        i = i + 1;
        assert(all.take(i as int).drop_last() =~= all.take(i - 1));
        assert(all.take(i as int).last() == pending@[i - 1]@);
    }
    assert(all.take(i as int) =~= all);
    t
}

/// The name that the registry has for a handle, going by its canonical name: the
/// last one of that name that was submitted, or the canonical name.
pub open spec fn original(submitted: Seq<(Seq<char>, Seq<char>)>, canonical: Seq<char>) -> Seq<char>
    decreases submitted.len(),
{
    if submitted.len() == 0 {
        canonical
    } else if submitted.last().0 == canonical {
        submitted.last().1
    } else {
        original(submitted.drop_last(), canonical)
    }
}

/// The name that the registry has for a handle.
pub fn original_text(submitted: &Vec<(String, String)>, canonical: &str) -> (name: String)
    ensures
        name@ == original(list_view(submitted@), canonical@),
{
    let ghost all = list_view(submitted@);
    let mut i: usize = submitted.len();
    assert(all.take(i as int) =~= all);
    while i > 0
        invariant
            i <= submitted.len(),
            all == list_view(submitted@),
            original(all, canonical@) == original(all.take(i as int), canonical@),
        decreases i,
    {
        assert(all.take(i as int).drop_last() =~= all.take(i - 1));
        assert(all.take(i as int).last() == submitted@[i - 1]@);
        if text_eq(submitted[i - 1].0.as_str(), canonical) {
            return submitted[i - 1].1.clone();
        }
        i = i - 1;
    }
    canonical.to_owned()
}

/// The fates of one space's handles: those that were added, then those that were
/// skipped.
pub open spec fn settled_space(
    submitted: Seq<(Seq<char>, Seq<char>)>,
    space: SpaceStagingView,
) -> Seq<AckEntryView> {
    Seq::new(
        space.added.len(),
        |i: int|
            AckEntryView { handle: original(submitted, space.added[i]), outcome: "staged"@ },
    ) + Seq::new(
        space.skipped.len(),
        |i: int|
            AckEntryView {
                handle: original(submitted, space.skipped[i].handle),
                outcome: space.skipped[i].outcome,
            },
    )
}

/// The fates of the handles that the operator was asked to stage.
pub open spec fn settled(
    submitted: Seq<(Seq<char>, Seq<char>)>,
    by_space: Seq<SpaceStagingView>,
) -> Seq<AckEntryView>
    decreases by_space.len(),
{
    if by_space.len() == 0 {
        Seq::empty()
    } else {
        settled(submitted, by_space.drop_last()) + settled_space(submitted, by_space.last())
    }
}

fn settle_space(outcomes: Vec<AckEntry>, submitted: &Vec<(String, String)>, space: &SpaceStaging) -> (all:
    Vec<AckEntry>)
    ensures
        list_view(all@) == list_view(outcomes@) + settled_space(list_view(submitted@), space@),
{
    let ghost before = list_view(outcomes@);
    let ghost more = settled_space(list_view(submitted@), space@);
    let mut all = outcomes;
    let n: usize = space.added.len();
    let mut i: usize = 0;
    assert(more.take(0) =~= Seq::empty());
    assert(before + more.take(0) =~= before);
    while i < n
        invariant
            i <= n,
            n == space.added.len(),
            more == settled_space(list_view(submitted@), space@),
            list_view(all@) == before + more.take(i as int),
        decreases n - i,
    {
        let name = original_text(submitted, space.added[i].as_str());
        all.push(AckEntry::new(name.as_str(), "staged"));
        assert(space@.added[i as int] == space.added@[i as int]@);
        i = i + 1;
        assert(before + more.take(i as int) =~= (before + more.take(i - 1)).push(more[i - 1]));
    }
    let m: usize = space.skipped.len();
    let mut j: usize = 0;
    while j < m
        invariant
            j <= m,
            n == space.added.len(),
            m == space.skipped.len(),
            more == settled_space(list_view(submitted@), space@),
            list_view(all@) == before + more.take(n + j),
        decreases m - j,
    {
        let name = original_text(submitted, space.skipped[j].handle.as_str());
        all.push(AckEntry::new(name.as_str(), space.skipped[j].outcome.as_str()));
        assert(space@.skipped[j as int] == space.skipped@[j as int]@);
        assert(more[n + j] == all@.last()@);
        j = j + 1;
        assert(before + more.take(n + j) =~= (before + more.take(n + j - 1)).push(
            more[n + j - 1],
        ));
    }
    assert(more.take(n + m) =~= more);
    all
}

/// Adds the fates of the handles that the operator was asked to stage.
pub fn settle_all(
    outcomes: Vec<AckEntry>,
    submitted: &Vec<(String, String)>,
    by_space: &Vec<SpaceStaging>,
) -> (all: Vec<AckEntry>)
    ensures
        list_view(all@) == list_view(outcomes@) + settled(
            list_view(submitted@),
            list_view(by_space@),
        ),
{
    let ghost before = list_view(outcomes@);
    let ghost names = list_view(submitted@);
    let ghost spaces = list_view(by_space@);
    let mut all = outcomes;
    let mut i: usize = 0;
    assert(spaces.take(0) =~= Seq::empty());
    assert(before + settled(names, spaces.take(0)) =~= before);
    while i < by_space.len()
        invariant
            i <= by_space.len(),
            names == list_view(submitted@),
            spaces == list_view(by_space@),
            list_view(all@) == before + settled(names, spaces.take(i as int)),
        decreases by_space.len() - i,
    {
        all = settle_space(all, submitted, &by_space[i]);
        i = i + 1;
        assert(spaces.take(i as int).drop_last() =~= spaces.take(i - 1));
        assert(spaces.take(i as int).last() == by_space@[i - 1]@);
        assert(list_view(all@) =~= before + settled(names, spaces.take(i as int)));
    }
    assert(spaces.take(i as int) =~= spaces);
    all
}

// ---------------------------------------------------------------------------
// A cycle over all spaces
// ---------------------------------------------------------------------------

/// What a cycle of pulling, staging and acknowledging came to.
pub struct SyncOutcome {
    pub pulled: usize,
    pub staged: usize,
    pub errors: Vec<String>,
}

pub ghost struct SyncOutcomeView {
    pub pulled: usize,
    pub staged: usize,
    pub errors: Seq<Seq<char>>,
}

impl View for SyncOutcome {
    type V = SyncOutcomeView;

    open spec fn view(&self) -> SyncOutcomeView {
        SyncOutcomeView {
            pulled: self.pulled,
            staged: self.staged,
            errors: list_view(self.errors@),
        }
    }
}

/// The sum of two counts, which wrap around at the end of the machine word.
pub open spec fn counted(a: usize, b: usize) -> usize {
    if a + b <= usize::MAX {
        (a + b) as usize
    } else {
        (a + b - usize::MAX - 1) as usize
    }
}

fn count(a: usize, b: usize) -> (sum: usize)
    ensures
        sum == counted(a, b),
{
    a.wrapping_add(b)
}

/// A cycle that is under way.
pub struct Cycle {
    pub endpoint: String,
    pub token: Option<String>,
    /// The spaces that are still to be visited.
    pub ahead: Vec<String>,
    pub so_far: SyncOutcome,
}

pub ghost struct CycleView {
    pub endpoint: Seq<char>,
    pub token: Option<Seq<char>>,
    pub ahead: Seq<Seq<char>>,
    pub so_far: SyncOutcomeView,
}

impl View for Cycle {
    type V = CycleView;

    open spec fn view(&self) -> CycleView {
        CycleView {
            endpoint: self.endpoint@,
            token: opt_view(self.token),
            ahead: list_view(self.ahead@),
            so_far: self.so_far@,
        }
    }
}

/// How far a cycle has come.
pub enum SyncStage {
    /// The client is being set up.
    Open { endpoint: String, token: Option<String> },
    /// The spaces that are being operated are being listed.
    Running { endpoint: String, token: Option<String> },
    /// The spaces that may be operated are being listed.
    Delegated { endpoint: String, token: Option<String>, running: Vec<String> },
    /// A space's pending handles are being asked for.
    Pull { cycle: Cycle, space: String },
    /// A space's pending handles are being read.
    Read { cycle: Cycle, space: String },
    /// A space's handles are being staged.
    Add { cycle: Cycle, pulled: usize, triage: Triage },
    /// The fates of a space's handles are being reported.
    Ack { cycle: Cycle, pulled: usize, staged: usize, errors: Vec<String> },
}

pub ghost enum SyncStageView {
    Open { endpoint: Seq<char>, token: Option<Seq<char>> },
    Running { endpoint: Seq<char>, token: Option<Seq<char>> },
    Delegated { endpoint: Seq<char>, token: Option<Seq<char>>, running: Seq<Seq<char>> },
    Pull { cycle: CycleView, space: Seq<char> },
    Read { cycle: CycleView, space: Seq<char> },
    Add { cycle: CycleView, pulled: usize, triage: TriageView },
    Ack { cycle: CycleView, pulled: usize, staged: usize, errors: Seq<Seq<char>> },
}

impl View for SyncStage {
    type V = SyncStageView;

    open spec fn view(&self) -> SyncStageView {
        match self {
            SyncStage::Open { endpoint, token } => SyncStageView::Open {
                endpoint: endpoint@,
                token: opt_view(*token),
            },
            SyncStage::Running { endpoint, token } => SyncStageView::Running {
                endpoint: endpoint@,
                token: opt_view(*token),
            },
            SyncStage::Delegated { endpoint, token, running } => SyncStageView::Delegated {
                endpoint: endpoint@,
                token: opt_view(*token),
                running: list_view(running@),
            },
            SyncStage::Pull { cycle, space } => SyncStageView::Pull {
                cycle: cycle@,
                space: space@,
            },
            SyncStage::Read { cycle, space } => SyncStageView::Read {
                cycle: cycle@,
                space: space@,
            },
            SyncStage::Add { cycle, pulled, triage } => SyncStageView::Add {
                cycle: cycle@,
                pulled: *pulled,
                triage: triage@,
            },
            SyncStage::Ack { cycle, pulled, staged, errors } => SyncStageView::Ack {
                cycle: cycle@,
                pulled: *pulled,
                staged: *staged,
                errors: list_view(errors@),
            },
        }
    }
}

pub type SyncStep = StepView<SyncStageView, SyncOutcomeView>;

/// The first step of a cycle.
pub open spec fn sync_start(endpoint: Seq<char>, token: Option<Seq<char>>) -> SyncStep {
    StepView::Perform(
        SyncStageView::Open { endpoint, token },
        ActionView::Connect(REGISTRY_TIMEOUT),
    )
}

/// Pulls pending handles from the registry, stages them and acknowledges them.
pub fn sync_once(endpoint: String, token: Option<String>) -> (step: Step<SyncStage, SyncOutcome>)
    ensures
        step@ == sync_start(endpoint@, opt_view(token)),
{
    Step::Perform(SyncStage::Open { endpoint, token }, Action::Connect(REGISTRY_TIMEOUT))
}

/// The spaces to visit: those that are being operated and those that may be, in
/// order and each once. A failure to list the latter leaves the former.
pub open spec fn scope(
    running: Seq<Seq<char>>,
    delegated: Result<Seq<Seq<char>>, Seq<char>>,
) -> Seq<Seq<char>> {
    in_order(
        match delegated {
            Ok(more) => running + more,
            Err(_) => running,
        },
    )
}

/// The spaces to visit.
pub fn scope_of(running: Vec<String>, delegated: Result<Vec<String>, String>) -> (spaces: Vec<
    String,
>)
    ensures
        list_view(spaces@) == scope(list_view(running@), listing_view(delegated)),
{
    let mut names = running;
    match delegated {
        Ok(more) => {
            let mut more = more;
            names.append(&mut more);
        },
        Err(_) => {},
    }
    sort_names(&names)
}

/// The query for a space's pending handles.
pub open spec fn pending_query(cycle: CycleView, space: Seq<char>) -> HttpCallView {
    HttpCallView {
        post: false,
        url: url_under(cycle.endpoint, "/pending"@),
        token: cycle.token,
        payload: PayloadView::Space(space),
        timeout: Some(REGISTRY_TIMEOUT),
    }
}

/// The report of fates.
pub open spec fn ack_report(cycle: CycleView, outcomes: Seq<AckEntryView>) -> HttpCallView {
    post_to(
        url_under(cycle.endpoint, "/ack"@),
        cycle.token,
        PayloadView::Acks(outcomes),
        Some(REGISTRY_TIMEOUT),
    )
}

/// The next space is visited, until there is none.
pub open spec fn visit_next(cycle: CycleView) -> SyncStep {
    if cycle.ahead.len() == 0 {
        StepView::Finish(Ok(cycle.so_far))
    } else {
        let space = cycle.ahead[0];
        let rest = CycleView { ahead: cycle.ahead.skip(1), ..cycle };
        StepView::Perform(
            SyncStageView::Pull { cycle: rest, space },
            ActionView::Send(pending_query(rest, space)),
        )
    }
}

/// A space that failed as a whole is noted, and the others are still visited.
pub open spec fn space_failed(cycle: CycleView, space: Seq<char>, reason: Seq<char>) -> SyncStep {
    visit_next(
        CycleView {
            so_far: SyncOutcomeView {
                errors: cycle.so_far.errors.push(space + ": "@ + reason),
                ..cycle.so_far
            },
            ..cycle
        },
    )
}

/// A space is done with, and its counts and errors are added.
pub open spec fn space_done(
    cycle: CycleView,
    pulled: usize,
    staged: usize,
    errors: Seq<Seq<char>>,
) -> SyncStep {
    visit_next(
        CycleView {
            so_far: SyncOutcomeView {
                pulled: counted(cycle.so_far.pulled, pulled),
                staged: counted(cycle.so_far.staged, staged),
                errors: cycle.so_far.errors + errors,
            },
            ..cycle
        },
    )
}

/// The fates of a space's handles are reported, if there are any.
pub open spec fn acknowledge(
    cycle: CycleView,
    pulled: usize,
    staged: usize,
    errors: Seq<Seq<char>>,
    outcomes: Seq<AckEntryView>,
) -> SyncStep {
    if outcomes.len() == 0 {
        space_done(cycle, pulled, staged, errors)
    } else {
        StepView::Perform(
            SyncStageView::Ack { cycle, pulled, staged, errors },
            ActionView::Send(ack_report(cycle, outcomes)),
        )
    }
}

/// The handles that wait for a space are settled or staged.
pub open spec fn pulled(
    cycle: CycleView,
    space: Seq<char>,
    pending: Seq<PendingHandleView>,
    n: usize,
) -> SyncStep {
    let t = triage(space, pending);
    if pending.len() == 0 {
        space_done(cycle, 0, 0, Seq::empty())
    } else if t.requests.len() == 0 {
        acknowledge(cycle, n, 0, t.errors, t.outcomes)
    } else {
        StepView::Perform(
            SyncStageView::Add {
                cycle,
                pulled: n,
                triage: TriageView { requests: Seq::empty(), ..t },
            },
            ActionView::Stage(t.requests),
        )
    }
}

/// Why the registry did not take a report, if it did not.
pub open spec fn ack_failure(sent: Result<u16, Seq<char>>) -> Option<Seq<char>> {
    match sent {
        Err(e) => Some(e),
        Ok(code) => match credentials_rejected(code) {
            Some(message) => Some(message),
            None => if success(code) {
                None
            } else {
                Some("registry returned "@ + status_display(code))
            },
        },
    }
}

/// Each space is pulled, staged and acknowledged before the next one is visited.
/// Handles that could not be staged are not acknowledged, so they stay pending.
pub open spec fn sync_next(stage: SyncStageView, event: EventView) -> SyncStep {
    match (stage, event) {
        (SyncStageView::Open { .. }, EventView::Done(Err(e))) => stop(BAD_GATEWAY, e),
        (SyncStageView::Open { endpoint, token }, EventView::Done(Ok(_))) => StepView::Perform(
            SyncStageView::Running { endpoint, token },
            ActionView::ListSpaces,
        ),
        (
            SyncStageView::Running { endpoint, token },
            EventView::Spaces(running),
        ) => StepView::Perform(
            SyncStageView::Delegated { endpoint, token, running },
            ActionView::ListDelegated,
        ),
        (
            SyncStageView::Delegated { endpoint, token, running },
            EventView::Names(delegated),
        ) => visit_next(
            CycleView {
                endpoint,
                token,
                ahead: scope(running, delegated),
                so_far: SyncOutcomeView { pulled: 0, staged: 0, errors: Seq::empty() },
            },
        ),
        (SyncStageView::Pull { cycle, space }, EventView::Sent(Err(e))) => space_failed(
            cycle,
            space,
            "failed to connect to registry: "@ + e,
        ),
        (
            SyncStageView::Pull { cycle, space },
            EventView::Sent(Ok(code)),
        ) => match credentials_rejected(code) {
            Some(message) => space_failed(cycle, space, message),
            None => if success(code) {
                StepView::Perform(SyncStageView::Read { cycle, space }, ActionView::ReadPending)
            } else {
                space_failed(cycle, space, "registry returned status: "@ + status_display(code))
            },
        },
        (SyncStageView::Read { cycle, space }, EventView::Pending(Err(e))) => space_failed(
            cycle,
            space,
            "invalid response from registry: "@ + e,
        ),
        (SyncStageView::Read { cycle, space }, EventView::Pending(Ok(pending))) => pulled(
            cycle,
            space,
            pending,
            pending.len() as usize,
        ),
        (
            SyncStageView::Add { cycle, pulled, triage },
            EventView::Staged(Err(e)),
        ) => acknowledge(
            cycle,
            pulled,
            0,
            triage.errors.push("failed to stage: "@ + e),
            triage.outcomes,
        ),
        (
            SyncStageView::Add { cycle, pulled, triage },
            EventView::Staged(Ok(batch)),
        ) => acknowledge(
            cycle,
            pulled,
            batch.total_added,
            triage.errors,
            triage.outcomes + settled(triage.submitted, batch.by_space),
        ),
        (
            SyncStageView::Ack { cycle, pulled, staged, errors },
            EventView::Sent(sent),
        ) => match ack_failure(sent) {
            Some(reason) => space_done(cycle, pulled, staged, errors.push("ack failed: "@ + reason)),
            None => space_done(cycle, pulled, staged, errors),
        },
        _ => StepView::Ignored(stage),
    }
}

impl Cycle {
    fn visit_next(self) -> (step: Step<SyncStage, SyncOutcome>)
        ensures
            step@ == visit_next(self@),
    {
        let mut cycle = self;
        if cycle.ahead.len() == 0 {
            return Step::Finish(Ok(cycle.so_far));
        }
        let space = cycle.ahead.remove(0);
        let call = HttpCall {
            post: false,
            url: join_url(cycle.endpoint.as_str(), "/pending"),
            token: copy_opt(&cycle.token),
            payload: Payload::Space(space.clone()),
            timeout: Some(REGISTRY_TIMEOUT),
        };
        Step::Perform(SyncStage::Pull { cycle, space }, Action::Send(call))
    }

    fn space_failed(self, space: String, reason: &str) -> (step: Step<SyncStage, SyncOutcome>)
        ensures
            step@ == space_failed(self@, space@, reason@),
    {
        let mut cycle = self;
        cycle.so_far.errors.push(space.concat(": ").concat(reason));
        cycle.visit_next()
    }

    fn space_done(self, pulled: usize, staged: usize, errors: Vec<String>) -> (step: Step<
        SyncStage,
        SyncOutcome,
    >)
        ensures
            step@ == space_done(self@, pulled, staged, list_view(errors@)),
    {
        let mut cycle = self;
        let mut errors = errors;
        cycle.so_far.pulled = count(cycle.so_far.pulled, pulled);
        cycle.so_far.staged = count(cycle.so_far.staged, staged);
        cycle.so_far.errors.append(&mut errors);
        cycle.visit_next()
    }

    fn acknowledge(
        self,
        pulled: usize,
        staged: usize,
        errors: Vec<String>,
        outcomes: Vec<AckEntry>,
    ) -> (step: Step<SyncStage, SyncOutcome>)
        ensures
            step@ == acknowledge(
                self@,
                pulled,
                staged,
                list_view(errors@),
                list_view(outcomes@),
            ),
    {
        if outcomes.len() == 0 {
            return self.space_done(pulled, staged, errors);
        }
        let call = post_call(
            join_url(self.endpoint.as_str(), "/ack"),
            copy_opt(&self.token),
            Payload::Acks(outcomes),
            Some(REGISTRY_TIMEOUT),
        );
        Step::Perform(SyncStage::Ack { cycle: self, pulled, staged, errors }, Action::Send(call))
    }

    fn pulled(self, space: String, pending: Vec<PendingHandle>) -> (step: Step<
        SyncStage,
        SyncOutcome,
    >)
        ensures
            step@ == pulled(self@, space@, list_view(pending@), pending@.len() as usize),
    {
        let n: usize = pending.len();
        if n == 0 {
            return self.space_done(0, 0, Vec::new());
        }
        let mut t = triage_all(space.as_str(), &pending);
        if t.requests.len() == 0 {
            return self.acknowledge(n, 0, t.errors, t.outcomes);
        }
        let mut requests: Vec<HandleRequest> = Vec::new();
        requests.append(&mut t.requests);
        assert(requests@ =~= Seq::empty() + requests@);
        Step::Perform(
            SyncStage::Add { cycle: self, pulled: n, triage: t },
            Action::Stage(requests),
        )
    }
}

fn ack_refused(sent: Result<StatusCode, String>) -> (reason: Option<String>)
    ensures
        opt_view(reason) == ack_failure(result_view(sent)),
{
    match sent {
        Err(e) => Some(e),
        Ok(code) => match auth_error(code) {
            Some(message) => Some(message),
            None => if code.is_success() {
                None
            } else {
                Some("registry returned ".to_owned().concat(code.text().as_str()))
            },
        },
    }
}

impl SyncStage {
    /// Takes in the reply to the last action.
    pub fn step(self, event: Event) -> (step: Step<SyncStage, SyncOutcome>)
        ensures
            step@ == sync_next(self@, event@),
    {
        match (self, event) {
            (SyncStage::Open { .. }, Event::Done(Err(e))) => stop_with(BAD_GATEWAY, e),
            (SyncStage::Open { endpoint, token }, Event::Done(Ok(_))) => Step::Perform(
                SyncStage::Running { endpoint, token },
                Action::ListSpaces,
            ),
            (SyncStage::Running { endpoint, token }, Event::Spaces(running)) => Step::Perform(
                SyncStage::Delegated { endpoint, token, running },
                Action::ListDelegated,
            ),
            (SyncStage::Delegated { endpoint, token, running }, Event::Names(delegated)) => {
                let ahead = scope_of(running, delegated);
                let so_far = SyncOutcome { pulled: 0, staged: 0, errors: Vec::new() };
                Cycle { endpoint, token, ahead, so_far }.visit_next()
            },
            (SyncStage::Pull { cycle, space }, Event::Sent(Err(e))) => {
                let reason = "failed to connect to registry: ".to_owned().concat(e.as_str());
                cycle.space_failed(space, reason.as_str())
            },
            (SyncStage::Pull { cycle, space }, Event::Sent(Ok(code))) => match auth_error(code) {
                Some(message) => cycle.space_failed(space, message.as_str()),
                None => if code.is_success() {
                    Step::Perform(SyncStage::Read { cycle, space }, Action::ReadPending)
                } else {
                    let reason = "registry returned status: ".to_owned().concat(
                        code.text().as_str(),
                    );
                    cycle.space_failed(space, reason.as_str())
                },
            },
            (SyncStage::Read { cycle, space }, Event::Pending(Err(e))) => {
                let reason = "invalid response from registry: ".to_owned().concat(e.as_str());
                cycle.space_failed(space, reason.as_str())
            },
            (SyncStage::Read { cycle, space }, Event::Pending(Ok(pending))) => {
                cycle.pulled(space, pending)
            },
            (SyncStage::Add { cycle, pulled, triage }, Event::Staged(Err(e))) => {
                let mut errors = triage.errors;
                errors.push("failed to stage: ".to_owned().concat(e.as_str()));
                cycle.acknowledge(pulled, 0, errors, triage.outcomes)
            },
            (SyncStage::Add { cycle, pulled, triage }, Event::Staged(Ok(batch))) => {
                let outcomes = settle_all(triage.outcomes, &triage.submitted, &batch.by_space);
                cycle.acknowledge(pulled, batch.total_added, triage.errors, outcomes)
            },
            (SyncStage::Ack { cycle, pulled, staged, errors }, Event::Sent(sent)) => {
                let mut errors = errors;
                match ack_refused(sent) {
                    Some(reason) => {
                        errors.push("ack failed: ".to_owned().concat(reason.as_str()));
                    },
                    None => {},
                }
                cycle.space_done(pulled, staged, errors)
            },
            (stage, _) => Step::Ignored(stage),
        }
    }
}

// ---------------------------------------------------------------------------
// What a cycle keeps to
// ---------------------------------------------------------------------------

/// The spaces to visit are in order, none occurs twice, and they are exactly
/// those that are being operated or, where that is known, may be.
pub proof fn lemma_scope(
    running: Seq<Seq<char>>,
    delegated: Result<Seq<Seq<char>>, Seq<char>>,
    space: Seq<char>,
)
    ensures
        ascending(scope(running, delegated)),
        scope(running, delegated).contains(space) <==> running.contains(space) || (
        delegated matches Ok(more) && more.contains(space)),
{
    match delegated {
        Ok(more) => {
            lemma_in_order(running + more);
            let all = running + more;
            if running.contains(space) {
                let k = choose|k: int| 0 <= k < running.len() && running[k] == space;
                assert(all[k] == space);
            }
            if more.contains(space) {
                let k = choose|k: int| 0 <= k < more.len() && more[k] == space;
                assert(all[running.len() + k] == space);
            }
            if all.contains(space) {
                let k = choose|k: int| 0 <= k < all.len() && all[k] == space;
                if k < running.len() {
                    assert(running[k] == space);
                } else {
                    assert(more[k - running.len()] == space);
                }
            }
        },
        Err(_) => {
            lemma_in_order(running);
        },
    }
}

/// `pending` asks for `request`: it parses, to the name and script of the request,
/// and names something below the space.
pub open spec fn asks_for(
    space: Seq<char>,
    pending: PendingHandleView,
    request: HandleRequestView,
) -> bool {
    handle_name(pending.handle) matches Ok(name) && name.space == Some(space) && name.subname is Some
        && request == HandleRequestView { handle: name.text, script_pubkey: pending.script_pubkey }
}

/// Only handles of the space that was asked for are staged, under their canonical
/// name and with the script that the registry gave, and all of them are.
pub proof fn lemma_only_the_space_is_staged(
    space: Seq<char>,
    pending: Seq<PendingHandleView>,
    request: HandleRequestView,
)
    ensures
        triage(space, pending).requests.contains(request) <==> exists|k: int|
            0 <= k < pending.len() && #[trigger] asks_for(space, pending[k], request),
    decreases pending.len(),
{
    let t = triage(space, pending);
    if pending.len() > 0 {
        let front = pending.drop_last();
        let before = triage(space, front);
        let last = pending.last();
        lemma_only_the_space_is_staged(space, front, request);
        if before.requests.contains(request) {
            let k = choose|k: int|
                0 <= k < front.len() && #[trigger] asks_for(space, front[k], request);
            assert(asks_for(space, pending[k], request));
            let j = choose|j: int| 0 <= j < before.requests.len() && before.requests[j] == request;
            assert(t.requests[j] == request);
        }
        if asks_for(space, last, request) {
            assert(asks_for(space, pending[pending.len() - 1], request));
            assert(t.requests[t.requests.len() - 1] == request);
        }
        if t.requests.contains(request) && !before.requests.contains(request) {
            let j = choose|j: int| 0 <= j < t.requests.len() && t.requests[j] == request;
            if j < before.requests.len() {
                assert(before.requests[j] == request);
            }
            assert(asks_for(space, last, request));
        }
        if exists|k: int| 0 <= k < pending.len() && #[trigger] asks_for(space, pending[k], request) {
            let k = choose|k: int|
                0 <= k < pending.len() && #[trigger] asks_for(space, pending[k], request);
            if k < front.len() {
                assert(asks_for(space, front[k], request));
            }
        }
    }
}

/// Before anything is staged, the fates that are known are those of the handles that
/// are malformed: each of them, and no other, is settled as invalid.
pub proof fn lemma_only_malformed_is_settled(
    space: Seq<char>,
    pending: Seq<PendingHandleView>,
    entry: AckEntryView,
)
    ensures
        triage(space, pending).outcomes.contains(entry) <==> entry.outcome == "invalid"@
            && malformed(space, handle_name(entry.handle)) && exists|k: int|
            0 <= k < pending.len() && (#[trigger] pending[k]).handle == entry.handle,
    decreases pending.len(),
{
    let t = triage(space, pending);
    if pending.len() > 0 {
        let front = pending.drop_last();
        let before = triage(space, front);
        let last = pending.last();
        lemma_only_malformed_is_settled(space, front, entry);
        if before.outcomes.contains(entry) {
            let k = choose|k: int| 0 <= k < front.len() && (#[trigger] front[k]).handle == entry.handle;
            assert(pending[k].handle == entry.handle);
            let j = choose|j: int| 0 <= j < before.outcomes.len() && before.outcomes[j] == entry;
            assert(t.outcomes[j] == entry);
        }
        if t.outcomes.contains(entry) && !before.outcomes.contains(entry) {
            let j = choose|j: int| 0 <= j < t.outcomes.len() && t.outcomes[j] == entry;
            if j < before.outcomes.len() {
                assert(before.outcomes[j] == entry);
            }
            assert(pending[pending.len() - 1].handle == entry.handle);
        }
        if entry.outcome == "invalid"@ && malformed(space, handle_name(entry.handle)) && exists|
            k: int,
        |
            0 <= k < pending.len() && (#[trigger] pending[k]).handle == entry.handle {
            let k = choose|k: int|
                0 <= k < pending.len() && (#[trigger] pending[k]).handle == entry.handle;
            if k < front.len() {
                assert(front[k].handle == entry.handle);
            } else {
                assert(t.outcomes[t.outcomes.len() - 1] == entry);
            }
        }
    }
}

/// Handles that the operator could not stage are not acknowledged: what is
/// reported then are the handles that are malformed, and nothing else.
pub proof fn lemma_unstaged_handles_stay_pending(
    cycle: CycleView,
    space: Seq<char>,
    pending: Seq<PendingHandleView>,
    n: usize,
    reason: Seq<char>,
    after: SyncStageView,
    call: HttpCallView,
    outcomes: Seq<AckEntryView>,
    entry: AckEntryView,
)
    requires
        pulled(cycle, space, pending, n) matches StepView::Perform(add, ActionView::Stage(_))
            && sync_next(add, EventView::Staged(Err(reason))) == SyncStep::Perform(
            after,
            ActionView::Send(call),
        ),
        call.payload == PayloadView::Acks(outcomes),
        outcomes.contains(entry),
    ensures
        malformed(space, handle_name(entry.handle)),
        entry.outcome == "invalid"@,
{
    lemma_only_malformed_is_settled(space, pending, entry);
}

/// An entry reports a handle of a space's staging: one that was added, as staged, or
/// one that was skipped, with the outcome of the reason.
pub open spec fn reports(
    submitted: Seq<(Seq<char>, Seq<char>)>,
    space: SpaceStagingView,
    entry: AckEntryView,
) -> bool {
    ||| exists|i: int|
        0 <= i < space.added.len() && entry == (AckEntryView {
            handle: original(submitted, #[trigger] space.added[i]),
            outcome: "staged"@,
        })
    ||| exists|i: int|
        0 <= i < space.skipped.len() && entry == (AckEntryView {
            handle: original(submitted, (#[trigger] space.skipped[i]).handle),
            outcome: space.skipped[i].outcome,
        })
}

/// After handles were staged, what is reported beyond the handles that are malformed are
/// exactly those that the operator added or skipped, and nothing else.
pub proof fn lemma_only_decided_handles_are_settled(
    submitted: Seq<(Seq<char>, Seq<char>)>,
    by_space: Seq<SpaceStagingView>,
    entry: AckEntryView,
)
    ensures
        settled(submitted, by_space).contains(entry) <==> exists|k: int|
            0 <= k < by_space.len() && reports(submitted, #[trigger] by_space[k], entry),
    decreases by_space.len(),
{
    if by_space.len() > 0 {
        let front = by_space.drop_last();
        let before = settled(submitted, front);
        let last = by_space.last();
        let more = settled_space(submitted, last);
        let all = settled(submitted, by_space);
        lemma_only_decided_handles_are_settled(submitted, front, entry);
        lemma_settled_space(submitted, last, entry);
        assert(all == before + more);
        if before.contains(entry) {
            let k = choose|k: int|
                0 <= k < front.len() && reports(submitted, #[trigger] front[k], entry);
            assert(reports(submitted, by_space[k], entry));
            let j = choose|j: int| 0 <= j < before.len() && before[j] == entry;
            assert(all[j] == entry);
        }
        if more.contains(entry) {
            assert(reports(submitted, by_space[by_space.len() - 1], entry));
            let j = choose|j: int| 0 <= j < more.len() && more[j] == entry;
            assert(all[before.len() + j] == entry);
        }
        if all.contains(entry) {
            let j = choose|j: int| 0 <= j < all.len() && all[j] == entry;
            if j < before.len() {
                assert(before[j] == entry);
            } else {
                assert(more[j - before.len()] == entry);
            }
        }
        if exists|k: int|
            0 <= k < by_space.len() && reports(submitted, #[trigger] by_space[k], entry) {
            let k = choose|k: int|
                0 <= k < by_space.len() && reports(submitted, #[trigger] by_space[k], entry);
            if k < front.len() {
                assert(reports(submitted, front[k], entry));
            }
        }
    }
}

proof fn lemma_settled_space(
    submitted: Seq<(Seq<char>, Seq<char>)>,
    space: SpaceStagingView,
    entry: AckEntryView,
)
    ensures
        settled_space(submitted, space).contains(entry) <==> reports(submitted, space, entry),
{
    let all = settled_space(submitted, space);
    let n = space.added.len() as int;
    if all.contains(entry) {
        let j = choose|j: int| 0 <= j < all.len() && all[j] == entry;
        if j < n {
            assert(entry.handle == original(submitted, space.added[j]));
        } else {
            assert(entry.handle == original(submitted, space.skipped[j - n].handle));
        }
    }
    if exists|i: int|
        0 <= i < space.added.len() && entry == (AckEntryView {
            handle: original(submitted, #[trigger] space.added[i]),
            outcome: "staged"@,
        }) {
        let i = choose|i: int|
            0 <= i < space.added.len() && entry == (AckEntryView {
                handle: original(submitted, #[trigger] space.added[i]),
                outcome: "staged"@,
            });
        assert(all[i] == entry);
    }
    if exists|i: int|
        0 <= i < space.skipped.len() && entry == (AckEntryView {
            handle: original(submitted, (#[trigger] space.skipped[i]).handle),
            outcome: space.skipped[i].outcome,
        }) {
        let i = choose|i: int|
            0 <= i < space.skipped.len() && entry == (AckEntryView {
                handle: original(submitted, (#[trigger] space.skipped[i]).handle),
                outcome: space.skipped[i].outcome,
            });
        assert(all[n + i] == entry);
    }
}

/// The names that stand for a canonical name were parsed to it.
proof fn lemma_submitted(space: Seq<char>, pending: Seq<PendingHandleView>, j: int)
    requires
        0 <= j < triage(space, pending).submitted.len(),
    ensures
        ({
            let pair = triage(space, pending).submitted[j];
            &&& handle_name(pair.1) matches Ok(name) && name.text == pair.0
            &&& exists|k: int| 0 <= k < pending.len() && (#[trigger] pending[k]).handle == pair.1
        }),
    decreases pending.len(),
{
    let front = pending.drop_last();
    let before = triage(space, front);
    if j < before.submitted.len() {
        lemma_submitted(space, front, j);
        let pair = before.submitted[j];
        let k = choose|k: int| 0 <= k < front.len() && (#[trigger] front[k]).handle == pair.1;
        assert(pending[k].handle == pair.1);
    } else {
        assert(pending[pending.len() - 1].handle == pending.last().handle);
    }
}

proof fn lemma_original(submitted: Seq<(Seq<char>, Seq<char>)>, canonical: Seq<char>, j: int) -> (at:
    int)
    requires
        0 <= j < submitted.len(),
        submitted[j].0 == canonical,
    ensures
        0 <= at < submitted.len(),
        submitted[at] == (canonical, original(submitted, canonical)),
    decreases submitted.len(),
{
    if submitted.last().0 == canonical {
        submitted.len() - 1
    } else {
        lemma_original(submitted.drop_last(), canonical, j)
    }
}

proof fn lemma_requests_are_submitted(space: Seq<char>, pending: Seq<PendingHandleView>)
    ensures
        triage(space, pending).requests.len() == triage(space, pending).submitted.len(),
        forall|j: int|
            0 <= j < triage(space, pending).requests.len() ==> (#[trigger] triage(
                space,
                pending,
            ).requests[j]).handle == triage(space, pending).submitted[j].0,
    decreases pending.len(),
{
    if pending.len() > 0 {
        lemma_requests_are_submitted(space, pending.drop_last());
    }
}

/// A handle that was staged is acknowledged under a name that the registry itself
/// has for it: one of its pending handles, and one that parses to the handle.
pub proof fn lemma_acks_use_the_registry_names(
    space: Seq<char>,
    pending: Seq<PendingHandleView>,
    request: HandleRequestView,
)
    requires
        triage(space, pending).requests.contains(request),
    ensures
        ({
            let name = original(triage(space, pending).submitted, request.handle);
            &&& handle_name(name) matches Ok(parsed) && parsed.text == request.handle
            &&& exists|k: int| 0 <= k < pending.len() && (#[trigger] pending[k]).handle == name
        }),
{
    let t = triage(space, pending);
    let j = choose|j: int| 0 <= j < t.requests.len() && t.requests[j] == request;
    lemma_requests_are_submitted(space, pending);
    assert(t.requests[j].handle == t.submitted[j].0);
    let at = lemma_original(t.submitted, request.handle, j);
    lemma_submitted(space, pending, at);
}

/// Where the registry refuses to list a space's handles, the space fails as a whole:
/// nothing of it is staged or acknowledged.
pub proof fn lemma_refused_pull_fails_the_space(cycle: CycleView, space: Seq<char>, code: u16)
    requires
        !success(code),
    ensures
        exists|reason: Seq<char>|
            sync_next(SyncStageView::Pull { cycle, space }, EventView::Sent(Ok(code)))
                == #[trigger] space_failed(cycle, space, reason),
{
    let reason = match credentials_rejected(code) {
        Some(message) => message,
        None => "registry returned status: "@ + status_display(code),
    };
    assert(sync_next(SyncStageView::Pull { cycle, space }, EventView::Sent(Ok(code)))
        == space_failed(cycle, space, reason));
}

/// A space that fails changes nothing for the others: the same spaces are visited
/// after it, with the same counts.
pub proof fn lemma_failed_space_affects_no_other(
    cycle: CycleView,
    space: Seq<char>,
    reason: Seq<char>,
)
    ensures
        match space_failed(cycle, space, reason) {
            StepView::Perform(SyncStageView::Pull { cycle: c, space: s }, _) => seq![s] + c.ahead
                == cycle.ahead && c.so_far.pulled == cycle.so_far.pulled && c.so_far.staged
                == cycle.so_far.staged,
            StepView::Finish(Ok(outcome)) => cycle.ahead.len() == 0 && outcome.pulled
                == cycle.so_far.pulled && outcome.staged == cycle.so_far.staged,
            _ => false,
        },
{
    if cycle.ahead.len() > 0 {
        assert(seq![cycle.ahead[0]] + cycle.ahead.skip(1) =~= cycle.ahead);
    }
}

/// How many actions a cycle may still take after the one it waits for, once it
/// knows which spaces to visit.
pub open spec fn sync_rank(stage: SyncStageView) -> nat {
    match stage {
        SyncStageView::Pull { cycle, .. } => 4 * cycle.ahead.len() + 3,
        SyncStageView::Read { cycle, .. } => 4 * cycle.ahead.len() + 2,
        SyncStageView::Add { cycle, .. } => 4 * cycle.ahead.len() + 1,
        SyncStageView::Ack { cycle, .. } => 4 * cycle.ahead.len(),
        _ => 0,
    }
}

/// A cycle knows which spaces to visit.
pub open spec fn visiting(stage: SyncStageView) -> bool {
    stage is Pull || stage is Read || stage is Add || stage is Ack
}

/// The machine of a cycle.
pub open spec fn sync_machine() -> Machine<SyncStageView, SyncOutcomeView> {
    |stage: SyncStageView, event: EventView| sync_next(stage, event)
}

/// A cycle whose actions are answered ends within four actions for each space.
pub proof fn lemma_cycle_ends(
    cycle: CycleView,
    reply: spec_fn(nat, ActionView) -> EventView,
    done: nat,
)
    requires
        replies(reply),
    ensures
        run(sync_machine(), visit_next(cycle), reply, done, 4 * cycle.ahead.len()) is Finish,
{
    let rank = |stage: SyncStageView| sync_rank(stage);
    let inside = |stage: SyncStageView| visiting(stage);
    assert(sound(sync_machine(), rank, inside));
    lemma_sound_run_finishes(
        sync_machine(),
        rank,
        inside,
        visit_next(cycle),
        reply,
        done,
        4 * cycle.ahead.len(),
    );
}

/// A cycle takes the answer to each of its actions.
pub proof fn lemma_cycle_takes_every_answer(
    stage: SyncStageView,
    event: EventView,
    after: SyncStageView,
    action: ActionView,
    reply: EventView,
)
    requires
        sync_next(stage, event) == SyncStep::Perform(after, action),
        answers(action, reply),
    ensures
        !(sync_next(after, reply) is Ignored),
{
}

// ---------------------------------------------------------------------------
// Synchronising on request
// ---------------------------------------------------------------------------

pub struct SyncResponse {
    pub success: bool,
    pub pulled: usize,
    pub staged: usize,
    pub errors: Vec<String>,
}

pub ghost struct SyncResponseView {
    pub success: bool,
    pub pulled: usize,
    pub staged: usize,
    pub errors: Seq<Seq<char>>,
}

impl View for SyncResponse {
    type V = SyncResponseView;

    open spec fn view(&self) -> SyncResponseView {
        SyncResponseView {
            success: self.success,
            pulled: self.pulled,
            staged: self.staged,
            errors: list_view(self.errors@),
        }
    }
}

/// How far a request to synchronise has come.
pub enum RequestedSync {
    /// The registry's endpoint is being read.
    Endpoint,
    /// The registry's token is being read.
    Token { endpoint: String },
    /// A cycle is under way.
    Cycle(SyncStage),
}

pub ghost enum RequestedSyncView {
    Endpoint,
    Token { endpoint: Seq<char> },
    Cycle(SyncStageView),
}

impl View for RequestedSync {
    type V = RequestedSyncView;

    open spec fn view(&self) -> RequestedSyncView {
        match self {
            RequestedSync::Endpoint => RequestedSyncView::Endpoint,
            RequestedSync::Token { endpoint } => RequestedSyncView::Token { endpoint: endpoint@ },
            RequestedSync::Cycle(s) => RequestedSyncView::Cycle(s@),
        }
    }
}

pub type RequestedSyncStep = StepView<RequestedSyncView, SyncResponseView>;

/// The first step of a request to synchronise.
pub open spec fn requested_start() -> RequestedSyncStep {
    StepView::Perform(
        RequestedSyncView::Endpoint,
        ActionView::ReadSetting(Setting::RegistryEndpoint),
    )
}

/// Pulls pending handles from the configured registry and stages them.
pub fn sync_from_registry() -> (step: Step<RequestedSync, SyncResponse>)
    ensures
        step@ == requested_start(),
{
    Step::Perform(RequestedSync::Endpoint, Action::ReadSetting(Setting::RegistryEndpoint))
}

/// A step of a cycle, as a step of the request: it succeeds if there were no
/// errors.
pub open spec fn cycle_step(step: SyncStep) -> RequestedSyncStep {
    match step {
        StepView::Perform(s, a) => StepView::Perform(RequestedSyncView::Cycle(s), a),
        StepView::Finish(Ok(outcome)) => StepView::Finish(
            Ok(
                SyncResponseView {
                    success: outcome.errors.len() == 0,
                    pulled: outcome.pulled,
                    staged: outcome.staged,
                    errors: outcome.errors,
                },
            ),
        ),
        StepView::Finish(Err(e)) => StepView::Finish(Err(e)),
        StepView::Ignored(s) => StepView::Ignored(RequestedSyncView::Cycle(s)),
    }
}

/// The endpoint and the token are read, then a cycle is made.
pub open spec fn requested_next(stage: RequestedSyncView, event: EventView) -> RequestedSyncStep {
    match (stage, event) {
        (RequestedSyncView::Endpoint, EventView::Value(Err(e))) => stop(INTERNAL, e),
        (RequestedSyncView::Endpoint, EventView::Value(Ok(None))) => stop(
            BAD_REQUEST,
            "registry_endpoint not configured. Set it in Settings."@,
        ),
        (
            RequestedSyncView::Endpoint,
            EventView::Value(Ok(Some(endpoint))),
        ) => StepView::Perform(
            RequestedSyncView::Token { endpoint },
            ActionView::ReadSetting(Setting::RegistryAuthToken),
        ),
        (RequestedSyncView::Token { endpoint }, EventView::Value(token)) => cycle_step(
            sync_start(endpoint, found(token)),
        ),
        (RequestedSyncView::Cycle(s), e) => cycle_step(sync_next(s, e)),
        _ => StepView::Ignored(stage),
    }
}

fn as_requested(step: Step<SyncStage, SyncOutcome>) -> (out: Step<RequestedSync, SyncResponse>)
    ensures
        out@ == cycle_step(step@),
{
    match step {
        Step::Perform(s, a) => Step::Perform(RequestedSync::Cycle(s), a),
        Step::Finish(Ok(outcome)) => Step::Finish(
            Ok(
                SyncResponse {
                    success: outcome.errors.len() == 0,
                    pulled: outcome.pulled,
                    staged: outcome.staged,
                    errors: outcome.errors,
                },
            ),
        ),
        Step::Finish(Err(e)) => Step::Finish(Err(e)),
        Step::Ignored(s) => Step::Ignored(RequestedSync::Cycle(s)),
    }
}

impl RequestedSync {
    /// Takes in the reply to the last action.
    pub fn step(self, event: Event) -> (step: Step<RequestedSync, SyncResponse>)
        ensures
            step@ == requested_next(self@, event@),
    {
        match (self, event) {
            (RequestedSync::Endpoint, Event::Value(Err(e))) => stop_with(INTERNAL, e),
            (RequestedSync::Endpoint, Event::Value(Ok(None))) => stop_with(
                BAD_REQUEST,
                "registry_endpoint not configured. Set it in Settings.".to_owned(),
            ),
            (RequestedSync::Endpoint, Event::Value(Ok(Some(endpoint)))) => Step::Perform(
                RequestedSync::Token { endpoint },
                Action::ReadSetting(Setting::RegistryAuthToken),
            ),
            (RequestedSync::Token { endpoint }, Event::Value(token)) => as_requested(
                sync_once(endpoint, found_text(token)),
            ),
            (RequestedSync::Cycle(s), e) => as_requested(s.step(e)),
            (stage, _) => Step::Ignored(stage),
        }
    }
}

/// A request to synchronise takes the answer to each of its actions.
pub proof fn lemma_requested_sync_takes_every_answer(
    stage: RequestedSyncView,
    event: EventView,
    after: RequestedSyncView,
    action: ActionView,
    reply: EventView,
)
    requires
        requested_next(stage, event) == RequestedSyncStep::Perform(after, action),
        answers(action, reply),
    ensures
        !(requested_next(after, reply) is Ignored),
{
}

// ---------------------------------------------------------------------------
// Telling the registry of a commitment
// ---------------------------------------------------------------------------

pub struct NotifyRequest {
    /// The space, such as `@example`.
    pub space: String,
    /// The commitment root.
    pub root: String,
}

pub struct NotifyResponse {
    pub success: bool,
    pub notified: usize,
    pub message: Option<String>,
}

pub ghost struct NotifyResponseView {
    pub success: bool,
    pub notified: usize,
    pub message: Option<Seq<char>>,
}

impl View for NotifyResponse {
    type V = NotifyResponseView;

    open spec fn view(&self) -> NotifyResponseView {
        NotifyResponseView {
            success: self.success,
            notified: self.notified,
            message: opt_view(self.message),
        }
    }
}

/// How far a notification has come.
pub enum NotifyStage {
    /// The registry's endpoint is being read.
    Endpoint { space: String, root: String },
    /// The committed handles are being listed.
    List { endpoint: String, space: String, root: String },
    /// The registry's token is being read.
    Token { endpoint: String, root: String, handles: Vec<String> },
    /// The registry is being told.
    Tell { notified: usize },
}

pub ghost enum NotifyStageView {
    Endpoint { space: Seq<char>, root: Seq<char> },
    List { endpoint: Seq<char>, space: Seq<char>, root: Seq<char> },
    Token { endpoint: Seq<char>, root: Seq<char>, handles: Seq<Seq<char>> },
    Tell { notified: usize },
}

impl View for NotifyStage {
    type V = NotifyStageView;

    open spec fn view(&self) -> NotifyStageView {
        match self {
            NotifyStage::Endpoint { space, root } => NotifyStageView::Endpoint {
                space: space@,
                root: root@,
            },
            NotifyStage::List { endpoint, space, root } => NotifyStageView::List {
                endpoint: endpoint@,
                space: space@,
                root: root@,
            },
            NotifyStage::Token { endpoint, root, handles } => NotifyStageView::Token {
                endpoint: endpoint@,
                root: root@,
                handles: list_view(handles@),
            },
            NotifyStage::Tell { notified } => NotifyStageView::Tell { notified: *notified },
        }
    }
}

pub type NotifyStep = StepView<NotifyStageView, NotifyResponseView>;

/// The first step of a notification.
pub open spec fn notify_start(space: Seq<char>, root: Seq<char>) -> NotifyStep {
    StepView::Perform(
        NotifyStageView::Endpoint { space, root },
        ActionView::ReadSetting(Setting::RegistryEndpoint),
    )
}

/// Tells the registry which handles a commitment holds, once it is final.
pub fn notify_registry(request: NotifyRequest) -> (step: Step<NotifyStage, NotifyResponse>)
    ensures
        step@ == notify_start(request.space@, request.root@),
{
    Step::Perform(
        NotifyStage::Endpoint { space: request.space, root: request.root },
        Action::ReadSetting(Setting::RegistryEndpoint),
    )
}

/// The handles of a space under their full names, such as `alice@example`.
pub open spec fn full_names(names: Seq<Seq<char>>, space: Seq<char>) -> Seq<Seq<char>> {
    Seq::new(names.len(), |i: int| names[i] + "@"@ + trimmed_start(space, '@'))
}

fn name_in_full(names: &Vec<String>, space: &str) -> (full: Vec<String>)
    ensures
        list_view(full@) == full_names(list_view(names@), space@),
{
    let suffix = trim_start_matches(space, '@');
    let mut full: Vec<String> = Vec::new();
    let mut i: usize = 0;
    while i < names.len()
        invariant
            i <= names.len(),
            suffix@ == trimmed_start(space@, '@'),
            list_view(full@) == full_names(list_view(names@), space@).take(i as int),
        decreases names.len() - i,
    {
        full.push(names[i].clone().concat("@").concat(suffix));
        assert(list_view(names@)[i as int] == names@[i as int]@);
        i = i + 1;
        assert(full_names(list_view(names@), space@).take(i as int) =~= full_names(
            list_view(names@),
            space@,
        ).take(i - 1).push(full_names(list_view(names@), space@)[i - 1]));
    }
    assert(full_names(list_view(names@), space@).take(i as int) =~= full_names(
        list_view(names@),
        space@,
    ));
    full
}

/// The endpoint is read, the space is checked, its committed handles are listed
/// and, if there are any, reported to `/committed`.
pub open spec fn notify_next(stage: NotifyStageView, event: EventView) -> NotifyStep {
    match (stage, event) {
        (NotifyStageView::Endpoint { .. }, EventView::Value(Err(e))) => stop(INTERNAL, e),
        (NotifyStageView::Endpoint { .. }, EventView::Value(Ok(None))) => stop(
            BAD_REQUEST,
            "registry_endpoint not configured"@,
        ),
        (
            NotifyStageView::Endpoint { space, root },
            EventView::Value(Ok(Some(endpoint))),
        ) => match space_answer(space) {
            Err(e) => StepView::Finish(Err(e)),
            Ok(label) => StepView::Perform(
                NotifyStageView::List { endpoint, space, root },
                ActionView::ListCommitted { space: label, root },
            ),
        },
        (NotifyStageView::List { .. }, EventView::Names(Err(e))) => stop(INTERNAL, e),
        (NotifyStageView::List { endpoint, space, root }, EventView::Names(Ok(names))) => if names.len()
            == 0 {
            StepView::Finish(
                Ok(
                    NotifyResponseView {
                        success: true,
                        notified: 0,
                        message: Some("No handles found for this commitment"@),
                    },
                ),
            )
        } else {
            StepView::Perform(
                NotifyStageView::Token { endpoint, root, handles: full_names(names, space) },
                ActionView::ReadSetting(Setting::RegistryAuthToken),
            )
        },
        (
            NotifyStageView::Token { endpoint, root, handles },
            EventView::Value(token),
        ) => StepView::Perform(
            NotifyStageView::Tell { notified: handles.len() as usize },
            ActionView::Send(
                post_to(
                    url_under(endpoint, "/committed"@),
                    found(token),
                    PayloadView::Committed { root, handles },
                    Some(REGISTRY_TIMEOUT),
                ),
            ),
        ),
        (NotifyStageView::Tell { .. }, EventView::Sent(Err(e))) => stop(
            BAD_GATEWAY,
            "Failed to notify registry: "@ + e,
        ),
        (NotifyStageView::Tell { notified }, EventView::Sent(Ok(code))) => if success(code) {
            StepView::Finish(Ok(NotifyResponseView { success: true, notified, message: None }))
        } else {
            stop(BAD_GATEWAY, "Registry /committed returned: "@ + status_display(code))
        },
        _ => StepView::Ignored(stage),
    }
}

impl NotifyStage {
    /// Takes in the reply to the last action.
    pub fn step(self, event: Event) -> (step: Step<NotifyStage, NotifyResponse>)
        ensures
            step@ == notify_next(self@, event@),
    {
        match (self, event) {
            (NotifyStage::Endpoint { .. }, Event::Value(Err(e))) => stop_with(INTERNAL, e),
            (NotifyStage::Endpoint { .. }, Event::Value(Ok(None))) => stop_with(
                BAD_REQUEST,
                "registry_endpoint not configured".to_owned(),
            ),
            (NotifyStage::Endpoint { space, root }, Event::Value(Ok(Some(endpoint)))) => {
                match space_of(space.as_str()) {
                    Err(e) => Step::Finish(Err(e)),
                    Ok(label) => {
                        let wanted = root.clone();
                        Step::Perform(
                            NotifyStage::List { endpoint, space, root },
                            Action::ListCommitted { space: label, root: wanted },
                        )
                    },
                }
            },
            (NotifyStage::List { .. }, Event::Names(Err(e))) => stop_with(INTERNAL, e),
            (NotifyStage::List { endpoint, space, root }, Event::Names(Ok(names))) => {
                if names.len() == 0 {
                    Step::Finish(
                        Ok(
                            NotifyResponse {
                                success: true,
                                notified: 0,
                                message: Some("No handles found for this commitment".to_owned()),
                            },
                        ),
                    )
                } else {
                    let handles = name_in_full(&names, space.as_str());
                    Step::Perform(
                        NotifyStage::Token { endpoint, root, handles },
                        Action::ReadSetting(Setting::RegistryAuthToken),
                    )
                }
            },
            (NotifyStage::Token { endpoint, root, handles }, Event::Value(token)) => {
                let notified: usize = handles.len();
                let call = post_call(
                    join_url(endpoint.as_str(), "/committed"),
                    found_text(token),
                    Payload::Committed { root, handles },
                    Some(REGISTRY_TIMEOUT),
                );
                Step::Perform(NotifyStage::Tell { notified }, Action::Send(call))
            },
            (NotifyStage::Tell { .. }, Event::Sent(Err(e))) => stop_with(
                BAD_GATEWAY,
                "Failed to notify registry: ".to_owned().concat(e.as_str()),
            ),
            (NotifyStage::Tell { notified }, Event::Sent(Ok(code))) => {
                if code.is_success() {
                    Step::Finish(Ok(NotifyResponse { success: true, notified, message: None }))
                } else {
                    stop_with(
                        BAD_GATEWAY,
                        "Registry /committed returned: ".to_owned().concat(code.text().as_str()),
                    )
                }
            },
            (stage, _) => Step::Ignored(stage),
        }
    }
}

/// How many actions a notification may still take after the one it waits for.
pub open spec fn notify_rank(stage: NotifyStageView) -> nat {
    match stage {
        NotifyStageView::Endpoint { .. } => 3,
        NotifyStageView::List { .. } => 2,
        NotifyStageView::Token { .. } => 1,
        NotifyStageView::Tell { .. } => 0,
    }
}

/// The machine of a notification.
pub open spec fn notify_machine() -> Machine<NotifyStageView, NotifyResponseView> {
    |stage: NotifyStageView, event: EventView| notify_next(stage, event)
}

/// A notification whose actions are answered comes to an answer of its own within
/// four actions.
pub proof fn lemma_notify_is_answered(
    space: Seq<char>,
    root: Seq<char>,
    reply: spec_fn(nat, ActionView) -> EventView,
)
    requires
        replies(reply),
    ensures
        run(notify_machine(), notify_start(space, root), reply, 0, 4) is Finish,
{
    let rank = |stage: NotifyStageView| notify_rank(stage);
    let inside = |stage: NotifyStageView| true;
    assert(sound(notify_machine(), rank, inside));
    lemma_sound_run_finishes(
        notify_machine(),
        rank,
        inside,
        notify_start(space, root),
        reply,
        0,
        4,
    );
}

// ---------------------------------------------------------------------------
// Status
// ---------------------------------------------------------------------------

pub struct RegistryStatusResponse {
    pub configured: bool,
    pub endpoint: Option<String>,
}

/// Whether a registry is configured, from what the store holds.
pub fn registry_status(endpoint: Result<Option<String>, String>) -> (status: RegistryStatusResponse)
    ensures
        opt_view(status.endpoint) == found(lookup_view(endpoint)),
        status.configured == status.endpoint is Some,
{
    let endpoint = found_text(endpoint);
    RegistryStatusResponse { configured: endpoint.is_some(), endpoint }
}

} // verus!
