//! Configuration endpoints: where the prover and the registry are, and how to
//! authenticate to them.
use vstd::prelude::*;

use crate::adapters::status_display;
use crate::flow::{
    answers, get_call, get_from, replies, run, stop, stop_with, success, join_url, url_under,
    Action, ActionView, Event, EventView, Machine, Setting, StatusCode, Step, StepView, INTERNAL,
};
use crate::routes::registry::{auth_error, credentials_rejected};
use crate::text::{copy_opt, found, found_text, group_list_view, list_view, opt_view};

verus! {

broadcast use group_list_view;

// ---------------------------------------------------------------------------
// Reading
// ---------------------------------------------------------------------------

pub struct ConfigResponse {
    pub prover_endpoint: Option<String>,
    /// Whether a token is configured. The token itself is not given out.
    pub prover_auth_token_set: bool,
    pub registry_endpoint: Option<String>,
    /// Whether a token is configured. The token itself is not given out.
    pub registry_auth_token_set: bool,
    /// Whether the background loop pulls from the registry and publishes.
    pub registry_auto_sync: bool,
}

pub ghost struct ConfigResponseView {
    pub prover_endpoint: Option<Seq<char>>,
    pub prover_auth_token_set: bool,
    pub registry_endpoint: Option<Seq<char>>,
    pub registry_auth_token_set: bool,
    pub registry_auto_sync: bool,
}

impl View for ConfigResponse {
    type V = ConfigResponseView;

    open spec fn view(&self) -> ConfigResponseView {
        ConfigResponseView {
            prover_endpoint: opt_view(self.prover_endpoint),
            prover_auth_token_set: self.prover_auth_token_set,
            registry_endpoint: opt_view(self.registry_endpoint),
            registry_auth_token_set: self.registry_auth_token_set,
            registry_auto_sync: self.registry_auto_sync,
        }
    }
}

/// A token that counts as configured: there is one, and it is not empty.
pub open spec fn token_set(value: Result<Option<Seq<char>>, Seq<char>>) -> bool {
    found(value) matches Some(token) && token.len() > 0
}

fn is_token_set(value: Result<Option<String>, String>) -> (yes: bool)
    ensures
        yes == token_set(crate::text::lookup_view(value)),
{
    match found_text(value) {
        Some(token) => !token.as_str().is_empty(),
        None => false,
    }
}

/// How far a reading of the configuration has come.
pub enum ReadStage {
    ProverEndpoint,
    ProverToken { prover: Option<String> },
    RegistryEndpoint { prover: Option<String>, prover_token: bool },
    RegistryToken { prover: Option<String>, prover_token: bool, registry: Option<String> },
    AutoSync {
        prover: Option<String>,
        prover_token: bool,
        registry: Option<String>,
        registry_token: bool,
    },
}

pub ghost enum ReadStageView {
    ProverEndpoint,
    ProverToken { prover: Option<Seq<char>> },
    RegistryEndpoint { prover: Option<Seq<char>>, prover_token: bool },
    RegistryToken { prover: Option<Seq<char>>, prover_token: bool, registry: Option<Seq<char>> },
    AutoSync {
        prover: Option<Seq<char>>,
        prover_token: bool,
        registry: Option<Seq<char>>,
        registry_token: bool,
    },
}

impl View for ReadStage {
    type V = ReadStageView;

    open spec fn view(&self) -> ReadStageView {
        match self {
            ReadStage::ProverEndpoint => ReadStageView::ProverEndpoint,
            ReadStage::ProverToken { prover } => ReadStageView::ProverToken {
                prover: opt_view(*prover),
            },
            ReadStage::RegistryEndpoint { prover, prover_token } => ReadStageView::RegistryEndpoint {
                prover: opt_view(*prover),
                prover_token: *prover_token,
            },
            ReadStage::RegistryToken { prover, prover_token, registry } => {
                ReadStageView::RegistryToken {
                    prover: opt_view(*prover),
                    prover_token: *prover_token,
                    registry: opt_view(*registry),
                }
            },
            ReadStage::AutoSync { prover, prover_token, registry, registry_token } => {
                ReadStageView::AutoSync {
                    prover: opt_view(*prover),
                    prover_token: *prover_token,
                    registry: opt_view(*registry),
                    registry_token: *registry_token,
                }
            },
        }
    }
}

pub type ReadStep = StepView<ReadStageView, ConfigResponseView>;

/// The first step of a reading.
pub open spec fn read_start() -> ReadStep {
    StepView::Perform(
        ReadStageView::ProverEndpoint,
        ActionView::ReadSetting(Setting::ProverEndpoint),
    )
}

/// Reads the configuration.
pub fn get_config() -> (step: Step<ReadStage, ConfigResponse>)
    ensures
        step@ == read_start(),
{
    Step::Perform(ReadStage::ProverEndpoint, Action::ReadSetting(Setting::ProverEndpoint))
}

/// The five settings are read in turn. A strict reading fails where an endpoint
/// cannot be read; any other setting that cannot be read counts as not set.
pub open spec fn read_next(strict: bool, stage: ReadStageView, event: EventView) -> ReadStep {
    match (stage, event) {
        (ReadStageView::ProverEndpoint, EventView::Value(value)) => if strict && value is Err {
            stop(INTERNAL, value->Err_0)
        } else {
            StepView::Perform(
                ReadStageView::ProverToken { prover: found(value) },
                ActionView::ReadSetting(Setting::ProverAuthToken),
            )
        },
        (ReadStageView::ProverToken { prover }, EventView::Value(value)) => StepView::Perform(
            ReadStageView::RegistryEndpoint { prover, prover_token: token_set(value) },
            ActionView::ReadSetting(Setting::RegistryEndpoint),
        ),
        (ReadStageView::RegistryEndpoint { prover, prover_token }, EventView::Value(value)) => if strict
            && value is Err {
            stop(INTERNAL, value->Err_0)
        } else {
            StepView::Perform(
                ReadStageView::RegistryToken { prover, prover_token, registry: found(value) },
                ActionView::ReadSetting(Setting::RegistryAuthToken),
            )
        },
        (
            ReadStageView::RegistryToken { prover, prover_token, registry },
            EventView::Value(value),
        ) => StepView::Perform(
            ReadStageView::AutoSync {
                prover,
                prover_token,
                registry,
                registry_token: token_set(value),
            },
            ActionView::ReadAutoSync,
        ),
        (
            ReadStageView::AutoSync { prover, prover_token, registry, registry_token },
            EventView::Flag(flag),
        ) => StepView::Finish(
            Ok(
                ConfigResponseView {
                    prover_endpoint: prover,
                    prover_auth_token_set: prover_token,
                    registry_endpoint: registry,
                    registry_auth_token_set: registry_token,
                    registry_auto_sync: flag == Ok::<bool, Seq<char>>(true),
                },
            ),
        ),
        _ => StepView::Ignored(stage),
    }
}

impl ReadStage {
    /// Takes in the reply to the last action.
    pub fn step(self, strict: bool, event: Event) -> (step: Step<ReadStage, ConfigResponse>)
        ensures
            step@ == read_next(strict, self@, event@),
    {
        match (self, event) {
            (ReadStage::ProverEndpoint, Event::Value(value)) => match value {
                Err(e) if strict => stop_with(INTERNAL, e),
                value => Step::Perform(
                    ReadStage::ProverToken { prover: found_text(value) },
                    Action::ReadSetting(Setting::ProverAuthToken),
                ),
            },
            (ReadStage::ProverToken { prover }, Event::Value(value)) => Step::Perform(
                ReadStage::RegistryEndpoint { prover, prover_token: is_token_set(value) },
                Action::ReadSetting(Setting::RegistryEndpoint),
            ),
            (ReadStage::RegistryEndpoint { prover, prover_token }, Event::Value(value)) => {
                match value {
                    Err(e) if strict => stop_with(INTERNAL, e),
                    value => Step::Perform(
                        ReadStage::RegistryToken {
                            prover,
                            prover_token,
                            registry: found_text(value),
                        },
                        Action::ReadSetting(Setting::RegistryAuthToken),
                    ),
                }
            },
            (ReadStage::RegistryToken { prover, prover_token, registry }, Event::Value(value)) => {
                Step::Perform(
                    ReadStage::AutoSync {
                        prover,
                        prover_token,
                        registry,
                        registry_token: is_token_set(value),
                    },
                    Action::ReadAutoSync,
                )
            },
            (
                ReadStage::AutoSync { prover, prover_token, registry, registry_token },
                Event::Flag(flag),
            ) => {
                let on = match flag {
                    Ok(on) => on,
                    Err(_) => false,
                };
                Step::Finish(
                    Ok(
                        ConfigResponse {
                            prover_endpoint: prover,
                            prover_auth_token_set: prover_token,
                            registry_endpoint: registry,
                            registry_auth_token_set: registry_token,
                            registry_auto_sync: on,
                        },
                    ),
                )
            },
            (stage, _) => Step::Ignored(stage),
        }
    }
}

// ---------------------------------------------------------------------------
// Writing
// ---------------------------------------------------------------------------

pub struct SetConfigRequest {
    pub prover_endpoint: Option<String>,
    /// The new token. The empty text clears it; `None` leaves it unchanged.
    pub prover_auth_token: Option<String>,
    pub registry_endpoint: Option<String>,
    /// The new token. The empty text clears it; `None` leaves it unchanged.
    pub registry_auth_token: Option<String>,
    /// `None` leaves the switch unchanged.
    pub registry_auto_sync: Option<bool>,
}

pub ghost struct SetConfigRequestView {
    pub prover_endpoint: Option<Seq<char>>,
    pub prover_auth_token: Option<Seq<char>>,
    pub registry_endpoint: Option<Seq<char>>,
    pub registry_auth_token: Option<Seq<char>>,
    pub registry_auto_sync: Option<bool>,
}

impl View for SetConfigRequest {
    type V = SetConfigRequestView;

    open spec fn view(&self) -> SetConfigRequestView {
        SetConfigRequestView {
            prover_endpoint: opt_view(self.prover_endpoint),
            prover_auth_token: opt_view(self.prover_auth_token),
            registry_endpoint: opt_view(self.registry_endpoint),
            registry_auth_token: opt_view(self.registry_auth_token),
            registry_auto_sync: self.registry_auto_sync,
        }
    }
}

pub struct SetConfigResponse {
    pub success: bool,
    pub prover_endpoint: Option<String>,
    pub prover_auth_token_set: bool,
    pub registry_endpoint: Option<String>,
    pub registry_auth_token_set: bool,
    pub registry_auto_sync: bool,
}

pub ghost struct SetConfigResponseView {
    pub success: bool,
    pub current: ConfigResponseView,
}

impl View for SetConfigResponse {
    type V = SetConfigResponseView;

    open spec fn view(&self) -> SetConfigResponseView {
        SetConfigResponseView {
            success: self.success,
            current: ConfigResponseView {
                prover_endpoint: opt_view(self.prover_endpoint),
                prover_auth_token_set: self.prover_auth_token_set,
                registry_endpoint: opt_view(self.registry_endpoint),
                registry_auth_token_set: self.registry_auth_token_set,
                registry_auto_sync: self.registry_auto_sync,
            },
        }
    }
}

/// What a value in a request does to its setting: nothing where there is none,
/// else the empty text clears it and any other is stored.
pub open spec fn edit(setting: Setting, value: Option<Seq<char>>) -> Seq<ActionView> {
    match value {
        None => Seq::empty(),
        Some(v) => if v.len() == 0 {
            seq![ActionView::ClearSetting(setting)]
        } else {
            seq![ActionView::WriteSetting(setting, v)]
        },
    }
}

/// What a request does to the store, in order.
pub open spec fn edits(req: SetConfigRequestView) -> Seq<ActionView> {
    edit(Setting::ProverEndpoint, req.prover_endpoint) + edit(
        Setting::ProverAuthToken,
        req.prover_auth_token,
    ) + edit(Setting::RegistryEndpoint, req.registry_endpoint) + edit(
        Setting::RegistryAuthToken,
        req.registry_auth_token,
    ) + match req.registry_auto_sync {
        None => Seq::empty(),
        Some(on) => seq![ActionView::WriteAutoSync(on)],
    }
}

fn push_edit(actions: &mut Vec<Action>, setting: Setting, value: Option<String>)
    ensures
        list_view(final(actions)@) == list_view(old(actions)@) + edit(setting, opt_view(value)),
{
    let ghost before = list_view(actions@);
    match value {
        None => {},
        Some(v) => {
            if v.as_str().is_empty() {
                actions.push(Action::ClearSetting(setting));
            } else {
                actions.push(Action::WriteSetting(setting, v));
            }
        },
    }
    assert(list_view(actions@) =~= before + edit(setting, opt_view(value)));
}

/// What a request does to the store, in order.
pub fn edits_of(req: SetConfigRequest) -> (actions: Vec<Action>)
    ensures
        list_view(actions@) == edits(req@),
{
    let ghost asked = req@;
    let mut actions: Vec<Action> = Vec::new();
    push_edit(&mut actions, Setting::ProverEndpoint, req.prover_endpoint);
    push_edit(&mut actions, Setting::ProverAuthToken, req.prover_auth_token);
    push_edit(&mut actions, Setting::RegistryEndpoint, req.registry_endpoint);
    push_edit(&mut actions, Setting::RegistryAuthToken, req.registry_auth_token);
    match req.registry_auto_sync {
        None => {},
        Some(on) => {
            actions.push(Action::WriteAutoSync(on));
        },
    }
    assert(list_view(actions@) =~= edits(asked));
    actions
}

/// How far a change of the configuration has come.
pub enum SetStage {
    /// A change is being made, and others are still to be.
    Apply { ahead: Vec<Action> },
    /// What came of it is being read.
    Read(ReadStage),
}

pub ghost enum SetStageView {
    Apply { ahead: Seq<ActionView> },
    Read(ReadStageView),
}

impl View for SetStage {
    type V = SetStageView;

    open spec fn view(&self) -> SetStageView {
        match self {
            SetStage::Apply { ahead } => SetStageView::Apply { ahead: list_view(ahead@) },
            SetStage::Read(s) => SetStageView::Read(s@),
        }
    }
}

pub type SetStep = StepView<SetStageView, SetConfigResponseView>;

/// A step of the reading, as a step of the change.
pub open spec fn reading(step: ReadStep) -> SetStep {
    match step {
        StepView::Perform(s, a) => StepView::Perform(SetStageView::Read(s), a),
        StepView::Finish(Ok(current)) => StepView::Finish(
            Ok(SetConfigResponseView { success: true, current }),
        ),
        StepView::Finish(Err(e)) => StepView::Finish(Err(e)),
        StepView::Ignored(s) => StepView::Ignored(SetStageView::Read(s)),
    }
}

/// The next change is made; after the last one the configuration is read.
pub open spec fn apply_next(ahead: Seq<ActionView>) -> SetStep {
    if ahead.len() == 0 {
        reading(read_start())
    } else {
        StepView::Perform(SetStageView::Apply { ahead: ahead.skip(1) }, ahead[0])
    }
}

/// The first step of a change.
pub open spec fn set_start(req: SetConfigRequestView) -> SetStep {
    apply_next(edits(req))
}

/// The changes are made in turn, up to the first that fails; what the store then
/// holds is the answer.
pub open spec fn set_next(stage: SetStageView, event: EventView) -> SetStep {
    match (stage, event) {
        (SetStageView::Apply { .. }, EventView::Done(Err(e))) => stop(INTERNAL, e),
        (SetStageView::Apply { ahead }, EventView::Done(Ok(_))) => apply_next(ahead),
        (SetStageView::Read(s), e) => reading(read_next(false, s, e)),
        _ => StepView::Ignored(stage),
    }
}

fn as_reading(step: Step<ReadStage, ConfigResponse>) -> (out: Step<SetStage, SetConfigResponse>)
    ensures
        out@ == reading(step@),
{
    match step {
        Step::Perform(s, a) => Step::Perform(SetStage::Read(s), a),
        Step::Finish(Ok(current)) => Step::Finish(
            Ok(
                SetConfigResponse {
                    success: true,
                    prover_endpoint: current.prover_endpoint,
                    prover_auth_token_set: current.prover_auth_token_set,
                    registry_endpoint: current.registry_endpoint,
                    registry_auth_token_set: current.registry_auth_token_set,
                    registry_auto_sync: current.registry_auto_sync,
                },
            ),
        ),
        Step::Finish(Err(e)) => Step::Finish(Err(e)),
        Step::Ignored(s) => Step::Ignored(SetStage::Read(s)),
    }
}

fn apply_rest(ahead: Vec<Action>) -> (step: Step<SetStage, SetConfigResponse>)
    ensures
        step@ == apply_next(list_view(ahead@)),
{
    let mut ahead = ahead;
    if ahead.len() == 0 {
        return as_reading(get_config());
    }
    let action = ahead.remove(0);
    Step::Perform(SetStage::Apply { ahead }, action)
}

/// Changes the configuration.
pub fn set_config(req: SetConfigRequest) -> (step: Step<SetStage, SetConfigResponse>)
    ensures
        step@ == set_start(req@),
{
    apply_rest(edits_of(req))
}

impl SetStage {
    /// Takes in the reply to the last action.
    pub fn step(self, event: Event) -> (step: Step<SetStage, SetConfigResponse>)
        ensures
            step@ == set_next(self@, event@),
    {
        match (self, event) {
            (SetStage::Apply { .. }, Event::Done(Err(e))) => stop_with(INTERNAL, e),
            (SetStage::Apply { ahead }, Event::Done(Ok(_))) => apply_rest(ahead),
            (SetStage::Read(s), e) => as_reading(s.step(false, e)),
            (stage, _) => Step::Ignored(stage),
        }
    }
}

// ---------------------------------------------------------------------------
// What a change does to a store that works
// ---------------------------------------------------------------------------

/// What a store of settings holds.
pub ghost struct Store {
    pub settings: Map<Setting, Seq<char>>,
    pub auto_sync: bool,
}

impl Store {
    /// The value of a setting.
    pub open spec fn value(self, setting: Setting) -> Option<Seq<char>> {
        if self.settings.contains_key(setting) {
            Some(self.settings[setting])
        } else {
            None
        }
    }

    /// The store after an action.
    pub open spec fn after(self, action: ActionView) -> Store {
        match action {
            ActionView::WriteSetting(setting, v) => Store {
                settings: self.settings.insert(setting, v),
                ..self
            },
            ActionView::ClearSetting(setting) => Store {
                settings: self.settings.remove(setting),
                ..self
            },
            ActionView::WriteAutoSync(on) => Store { auto_sync: on, ..self },
            _ => self,
        }
    }

    /// The reply of the store to an action.
    pub open spec fn reply(self, action: ActionView) -> EventView {
        match action {
            ActionView::ReadSetting(setting) => EventView::Value(Ok(self.value(setting))),
            ActionView::ReadAutoSync => EventView::Flag(Ok(self.auto_sync)),
            _ => EventView::Done(Ok(())),
        }
    }

    /// The store with a value of a request: `None` changes nothing, the empty
    /// text clears the setting, and any other text is stored.
    pub open spec fn with(self, setting: Setting, value: Option<Seq<char>>) -> Store {
        match value {
            None => self,
            Some(v) => if v.len() == 0 {
                Store { settings: self.settings.remove(setting), ..self }
            } else {
                Store { settings: self.settings.insert(setting, v), ..self }
            },
        }
    }

    /// The store with the values of a request.
    pub open spec fn updated(self, req: SetConfigRequestView) -> Store {
        let s = self.with(Setting::ProverEndpoint, req.prover_endpoint).with(
            Setting::ProverAuthToken,
            req.prover_auth_token,
        ).with(Setting::RegistryEndpoint, req.registry_endpoint).with(
            Setting::RegistryAuthToken,
            req.registry_auth_token,
        );
        match req.registry_auto_sync {
            None => s,
            Some(on) => Store { auto_sync: on, ..s },
        }
    }

    /// What is given out of the store.
    pub open spec fn response(self) -> ConfigResponseView {
        ConfigResponseView {
            prover_endpoint: self.value(Setting::ProverEndpoint),
            prover_auth_token_set: self.value(Setting::ProverAuthToken) matches Some(t) && t.len()
                > 0,
            registry_endpoint: self.value(Setting::RegistryEndpoint),
            registry_auth_token_set: self.value(Setting::RegistryAuthToken) matches Some(t)
                && t.len() > 0,
            registry_auto_sync: self.auto_sync,
        }
    }
}

/// Where a machine ends up, and with which store, when a store performs its
/// actions, at most `left` of them.
pub open spec fn run_on<S, T>(
    next: Machine<S, T>,
    step: StepView<S, T>,
    store: Store,
    left: nat,
) -> (StepView<S, T>, Store)
    decreases left,
{
    match step {
        StepView::Perform(stage, action) => if left == 0 {
            (step, store)
        } else {
            run_on(
                next,
                next(stage, store.reply(action)),
                store.after(action),
                (left - 1) as nat,
            )
        },
        _ => (step, store),
    }
}

/// The machine of a strict reading.
pub open spec fn read_machine() -> Machine<ReadStageView, ConfigResponseView> {
    |stage: ReadStageView, event: EventView| read_next(true, stage, event)
}

/// The machine of a change.
pub open spec fn set_machine() -> Machine<SetStageView, SetConfigResponseView> {
    |stage: SetStageView, event: EventView| set_next(stage, event)
}

/// A reading gives out what the store holds, and changes nothing.
pub proof fn lemma_get_config_reads_the_store(store: Store)
    ensures
        run_on(read_machine(), read_start(), store, 5) == (
            ReadStep::Finish(Ok(store.response())),
            store,
        ),
{
    reveal_with_fuel(run_on, 6);
}

proof fn lemma_reading_after_change(store: Store)
    ensures
        run_on(set_machine(), reading(read_start()), store, 5) == (
            SetStep::Finish(
                Ok(SetConfigResponseView { success: true, current: store.response() }),
            ),
            store,
        ),
{
    reveal_with_fuel(run_on, 6);
}

/// The store after several actions.
pub open spec fn after_all(store: Store, actions: Seq<ActionView>) -> Store
    decreases actions.len(),
{
    if actions.len() == 0 {
        store
    } else {
        after_all(store.after(actions[0]), actions.skip(1))
    }
}

/// An action that changes the store.
spec fn is_edit(action: ActionView) -> bool {
    action is WriteSetting || action is ClearSetting || action is WriteAutoSync
}

proof fn lemma_changes_are_made(store: Store, ahead: Seq<ActionView>)
    requires
        forall|i: int| 0 <= i < ahead.len() ==> is_edit(#[trigger] ahead[i]),
    ensures
        run_on(set_machine(), apply_next(ahead), store, ahead.len() + 5) == (
            SetStep::Finish(
                Ok(
                    SetConfigResponseView {
                        success: true,
                        current: after_all(store, ahead).response(),
                    },
                ),
            ),
            after_all(store, ahead),
        ),
    decreases ahead.len(),
{
    if ahead.len() == 0 {
        lemma_reading_after_change(store);
    } else {
        assert(is_edit(ahead[0]));
        assert forall|i: int| 0 <= i < ahead.skip(1).len() implies is_edit(
            #[trigger] ahead.skip(1)[i],
        ) by {
            assert(ahead.skip(1)[i] == ahead[i + 1]);
        }
        lemma_changes_are_made(store.after(ahead[0]), ahead.skip(1));
    }
}

proof fn lemma_after_concat(store: Store, a: Seq<ActionView>, b: Seq<ActionView>)
    ensures
        after_all(store, a + b) == after_all(after_all(store, a), b),
    decreases a.len(),
{
    if a.len() == 0 {
        assert(a + b =~= b);
    } else {
        assert((a + b).skip(1) =~= a.skip(1) + b);
        assert((a + b)[0] == a[0]);
        lemma_after_concat(store.after(a[0]), a.skip(1), b);
    }
}

proof fn lemma_after_edit(store: Store, setting: Setting, value: Option<Seq<char>>)
    ensures
        after_all(store, edit(setting, value)) == store.with(setting, value),
{
    reveal_with_fuel(after_all, 3);
}

/// Changing the configuration of a store that works stores each value that the
/// request gives, clears those that it gives as empty, leaves the others alone,
/// and answers with what the store then holds.
pub proof fn lemma_set_config_updates_the_store(store: Store, req: SetConfigRequestView)
    ensures
        run_on(set_machine(), set_start(req), store, 10).1 == store.updated(req),
        run_on(set_machine(), set_start(req), store, 10).0 == SetStep::Finish(
            Ok(
                SetConfigResponseView {
                    success: true,
                    current: store.updated(req).response(),
                },
            ),
        ),
{
    let a = edit(Setting::ProverEndpoint, req.prover_endpoint);
    let b = edit(Setting::ProverAuthToken, req.prover_auth_token);
    let c = edit(Setting::RegistryEndpoint, req.registry_endpoint);
    let d = edit(Setting::RegistryAuthToken, req.registry_auth_token);
    let e: Seq<ActionView> = match req.registry_auto_sync {
        None => Seq::empty(),
        Some(on) => seq![ActionView::WriteAutoSync(on)],
    };
    let all = edits(req);
    lemma_after_concat(store, a + b + c + d, e);
    lemma_after_concat(store, a + b + c, d);
    lemma_after_concat(store, a + b, c);
    lemma_after_concat(store, a, b);
    lemma_after_edit(store, Setting::ProverEndpoint, req.prover_endpoint);
    let s1 = store.with(Setting::ProverEndpoint, req.prover_endpoint);
    lemma_after_edit(s1, Setting::ProverAuthToken, req.prover_auth_token);
    let s2 = s1.with(Setting::ProverAuthToken, req.prover_auth_token);
    lemma_after_edit(s2, Setting::RegistryEndpoint, req.registry_endpoint);
    let s3 = s2.with(Setting::RegistryEndpoint, req.registry_endpoint);
    lemma_after_edit(s3, Setting::RegistryAuthToken, req.registry_auth_token);
    reveal_with_fuel(after_all, 3);
    assert(after_all(store, all) == store.updated(req));
    assert(forall|i: int| 0 <= i < all.len() ==> is_edit(#[trigger] all[i]));
    lemma_changes_are_made(store, all);
    lemma_more_fuel(set_start(req), store, all.len() + 5, 10);
}

proof fn lemma_more_fuel(step: SetStep, store: Store, few: nat, many: nat)
    requires
        few <= many,
        run_on(set_machine(), step, store, few).0 is Finish,
    ensures
        run_on(set_machine(), step, store, many) == run_on(set_machine(), step, store, few),
    decreases few,
{
    if let StepView::Perform(stage, action) = step {
        lemma_more_fuel(
            set_next(stage, store.reply(action)),
            store.after(action),
            (few - 1) as nat,
            (many - 1) as nat,
        );
    }
}

/// A setting that a request does not mention keeps its value, and one that it
/// gives has that value, or none where it was given as empty.
pub proof fn lemma_update_reads_back(store: Store, req: SetConfigRequestView)
    ensures
        store.updated(req).value(Setting::ProverEndpoint) == read_back(
            store.value(Setting::ProverEndpoint),
            req.prover_endpoint,
        ),
        store.updated(req).value(Setting::ProverAuthToken) == read_back(
            store.value(Setting::ProverAuthToken),
            req.prover_auth_token,
        ),
        store.updated(req).value(Setting::RegistryEndpoint) == read_back(
            store.value(Setting::RegistryEndpoint),
            req.registry_endpoint,
        ),
        store.updated(req).value(Setting::RegistryAuthToken) == read_back(
            store.value(Setting::RegistryAuthToken),
            req.registry_auth_token,
        ),
        store.updated(req).auto_sync == (match req.registry_auto_sync {
            Some(on) => on,
            None => store.auto_sync,
        }),
{
}

/// The value of a setting after a request, from the value before it and the value
/// that the request gives.
pub open spec fn read_back(before: Option<Seq<char>>, given: Option<Seq<char>>) -> Option<
    Seq<char>,
> {
    match given {
        None => before,
        Some(v) => if v.len() == 0 {
            None
        } else {
            Some(v)
        },
    }
}

/// What is given out does not depend on what the tokens are, only on whether
/// there are any.
pub proof fn lemma_tokens_are_not_given_out(a: Store, b: Store)
    requires
        a.value(Setting::ProverEndpoint) == b.value(Setting::ProverEndpoint),
        a.value(Setting::RegistryEndpoint) == b.value(Setting::RegistryEndpoint),
        a.auto_sync == b.auto_sync,
        token_set(Ok(a.value(Setting::ProverAuthToken))) == token_set(
            Ok(b.value(Setting::ProverAuthToken)),
        ),
        token_set(Ok(a.value(Setting::RegistryAuthToken))) == token_set(
            Ok(b.value(Setting::RegistryAuthToken)),
        ),
    ensures
        a.response() == b.response(),
{
}

// ---------------------------------------------------------------------------
// Testing an endpoint
// ---------------------------------------------------------------------------

pub struct TestEndpointRequest {
    pub endpoint: String,
    /// The bearer token to present: the stored one where none is given, and none
    /// where it is given as empty.
    pub auth_token: Option<String>,
}

pub struct TestEndpointResponse {
    pub success: bool,
    pub error: Option<String>,
}

pub ghost struct TestEndpointResponseView {
    pub success: bool,
    pub error: Option<Seq<char>>,
}

impl View for TestEndpointResponse {
    type V = TestEndpointResponseView;

    open spec fn view(&self) -> TestEndpointResponseView {
        TestEndpointResponseView { success: self.success, error: opt_view(self.error) }
    }
}

/// Which server is tested.
#[derive(Debug, Clone, Copy, PartialEq, Eq, Structural)]
pub enum Target {
    Prover,
    Registry,
}

impl View for Target {
    type V = Target;

    open spec fn view(&self) -> Target {
        *self
    }
}

/// Seconds to wait for a server that is tested.
pub const TEST_TIMEOUT: u64 = 5;

/// How far a test has come.
pub enum TestStage {
    /// The stored token is being read.
    Token { target: Target, endpoint: String },
    /// The server is being asked for its health.
    Probe { target: Target, endpoint: String, token: Option<String> },
    /// A registry without a health page is being asked for its front page.
    Front { with_token: bool },
}

pub ghost enum TestStageView {
    Token { target: Target, endpoint: Seq<char> },
    Probe { target: Target, endpoint: Seq<char>, token: Option<Seq<char>> },
    Front { with_token: bool },
}

impl View for TestStage {
    type V = TestStageView;

    open spec fn view(&self) -> TestStageView {
        match self {
            TestStage::Token { target, endpoint } => TestStageView::Token {
                target: *target,
                endpoint: endpoint@,
            },
            TestStage::Probe { target, endpoint, token } => TestStageView::Probe {
                target: *target,
                endpoint: endpoint@,
                token: opt_view(*token),
            },
            TestStage::Front { with_token } => TestStageView::Front { with_token: *with_token },
        }
    }
}

pub type TestStep = StepView<TestStageView, TestEndpointResponseView>;

/// The setting that holds a server's token.
pub open spec fn token_setting(target: Target) -> Setting {
    match target {
        Target::Prover => Setting::ProverAuthToken,
        Target::Registry => Setting::RegistryAuthToken,
    }
}

/// The server is asked for its health.
pub open spec fn probe(target: Target, endpoint: Seq<char>, token: Option<Seq<char>>) -> TestStep {
    StepView::Perform(
        TestStageView::Probe { target, endpoint, token },
        ActionView::Send(get_from(url_under(endpoint, "/health"@), token, Some(TEST_TIMEOUT))),
    )
}

/// A registry is asked for its front page.
pub open spec fn probe_front(endpoint: Seq<char>, token: Option<Seq<char>>) -> TestStep {
    StepView::Perform(
        TestStageView::Front { with_token: token is Some },
        ActionView::Send(get_from(url_under(endpoint, "/"@), token, Some(TEST_TIMEOUT))),
    )
}

/// A response that shows neither health nor a fault of the credentials: a registry
/// that gives it is asked for its front page instead.
pub open spec fn falls_back(target: Target, code: u16) -> bool {
    target == Target::Registry && !success(code) && credentials_rejected(code) is None
}

/// The first step of a test.
pub open spec fn test_start(
    target: Target,
    endpoint: Seq<char>,
    token: Option<Seq<char>>,
) -> TestStep {
    match token {
        Some(t) => probe(
            target,
            endpoint,
            if t.len() > 0 {
                Some(t)
            } else {
                None
            },
        ),
        None => StepView::Perform(
            TestStageView::Token { target, endpoint },
            ActionView::ReadSetting(token_setting(target)),
        ),
    }
}

/// A test that found a fault.
pub open spec fn fault(message: Seq<char>) -> TestEndpointResponseView {
    TestEndpointResponseView { success: false, error: Some(message) }
}

/// What a server's response shows.
pub open spec fn verdict(target: Target, with_token: bool, code: u16) -> TestEndpointResponseView {
    if success(code) {
        TestEndpointResponseView { success: true, error: None }
    } else if target == Target::Prover {
        fault("Prover returned status: "@ + status_display(code))
    } else if credentials_rejected(code) is Some {
        if with_token {
            fault("Registry rejected the auth token ("@ + status_display(code) + ")"@)
        } else {
            fault(
                "Registry requires authentication ("@ + status_display(code)
                    + "); set an auth token"@,
            )
        }
    } else {
        fault("Registry returned status: "@ + status_display(code))
    }
}

/// The token is looked up where the request gives none, then the server is asked for
/// its health, and a registry that has no such page for its front page.
pub open spec fn test_next(stage: TestStageView, event: EventView) -> TestStep {
    match (stage, event) {
        (TestStageView::Token { target, endpoint }, EventView::Value(token)) => probe(
            target,
            endpoint,
            found(token),
        ),
        (TestStageView::Probe { .. }, EventView::Sent(Err(e))) => StepView::Finish(
            Ok(fault("Connection failed: "@ + e)),
        ),
        (TestStageView::Probe { target, endpoint, token }, EventView::Sent(Ok(code))) => if falls_back(
            target,
            code,
        ) {
            probe_front(endpoint, token)
        } else {
            StepView::Finish(Ok(verdict(target, token is Some, code)))
        },
        (TestStageView::Front { .. }, EventView::Sent(Err(e))) => StepView::Finish(
            Ok(fault("Connection failed: "@ + e)),
        ),
        (TestStageView::Front { with_token }, EventView::Sent(Ok(code))) => StepView::Finish(
            Ok(verdict(Target::Registry, with_token, code)),
        ),
        _ => StepView::Ignored(stage),
    }
}

fn probe_now(target: Target, endpoint: String, token: Option<String>) -> (step: Step<
    TestStage,
    TestEndpointResponse,
>)
    ensures
        step@ == probe(target, endpoint@, opt_view(token)),
{
    let url = join_url(endpoint.as_str(), "/health");
    let call = get_call(url, copy_opt(&token), Some(TEST_TIMEOUT));
    Step::Perform(TestStage::Probe { target, endpoint, token }, Action::Send(call))
}

fn probe_front_now(endpoint: &str, token: Option<String>) -> (step: Step<
    TestStage,
    TestEndpointResponse,
>)
    ensures
        step@ == probe_front(endpoint@, opt_view(token)),
{
    let with_token = token.is_some();
    let call = get_call(join_url(endpoint, "/"), token, Some(TEST_TIMEOUT));
    Step::Perform(TestStage::Front { with_token }, Action::Send(call))
}

fn is_fallback(target: Target, code: StatusCode) -> (yes: bool)
    ensures
        yes == falls_back(target, code@),
{
    match target {
        Target::Prover => false,
        Target::Registry => !code.is_success() && auth_error(code).is_none(),
    }
}

fn test_endpoint(target: Target, req: TestEndpointRequest) -> (step: Step<
    TestStage,
    TestEndpointResponse,
>)
    ensures
        step@ == test_start(target, req.endpoint@, opt_view(req.auth_token)),
{
    match req.auth_token {
        Some(t) => {
            let token = if t.as_str().is_empty() {
                None
            } else {
                Some(t)
            };
            probe_now(target, req.endpoint, token)
        },
        None => {
            let setting = match target {
                Target::Prover => Setting::ProverAuthToken,
                Target::Registry => Setting::RegistryAuthToken,
            };
            Step::Perform(
                TestStage::Token { target, endpoint: req.endpoint },
                Action::ReadSetting(setting),
            )
        },
    }
}

/// Tests whether a prover answers.
pub fn test_prover(req: TestEndpointRequest) -> (step: Step<TestStage, TestEndpointResponse>)
    ensures
        step@ == test_start(Target::Prover, req.endpoint@, opt_view(req.auth_token)),
{
    test_endpoint(Target::Prover, req)
}

/// Tests whether a registry answers and takes the token.
///
/// A registry asks for credentials on its health page too, so that a success there
/// shows both. One without that page is asked for its front page.
pub fn test_registry(req: TestEndpointRequest) -> (step: Step<TestStage, TestEndpointResponse>)
    ensures
        step@ == test_start(Target::Registry, req.endpoint@, opt_view(req.auth_token)),
{
    test_endpoint(Target::Registry, req)
}

fn failed_test(message: String) -> (response: TestEndpointResponse)
    ensures
        response@ == fault(message@),
{
    TestEndpointResponse { success: false, error: Some(message) }
}

fn judge(target: Target, with_token: bool, code: StatusCode) -> (response: TestEndpointResponse)
    ensures
        response@ == verdict(target, with_token, code@),
{
    if code.is_success() {
        return TestEndpointResponse { success: true, error: None };
    }
    match target {
        Target::Prover => failed_test(
            "Prover returned status: ".to_owned().concat(code.text().as_str()),
        ),
        Target::Registry => match auth_error(code) {
            Some(_) => if with_token {
                failed_test(
                    "Registry rejected the auth token (".to_owned().concat(
                        code.text().as_str(),
                    ).concat(")"),
                )
            } else {
                failed_test(
                    "Registry requires authentication (".to_owned().concat(
                        code.text().as_str(),
                    ).concat("); set an auth token"),
                )
            },
            None => failed_test(
                "Registry returned status: ".to_owned().concat(code.text().as_str()),
            ),
        },
    }
}

impl TestStage {
    /// Takes in the reply to the last action.
    pub fn step(self, event: Event) -> (step: Step<TestStage, TestEndpointResponse>)
        ensures
            step@ == test_next(self@, event@),
    {
        match (self, event) {
            (TestStage::Token { target, endpoint }, Event::Value(token)) => probe_now(
                target,
                endpoint,
                found_text(token),
            ),
            (TestStage::Probe { .. }, Event::Sent(Err(e))) => Step::Finish(
                Ok(failed_test("Connection failed: ".to_owned().concat(e.as_str()))),
            ),
            (TestStage::Probe { target, endpoint, token }, Event::Sent(Ok(code))) => {
                if is_fallback(target, code) {
                    probe_front_now(endpoint.as_str(), token)
                } else {
                    Step::Finish(Ok(judge(target, token.is_some(), code)))
                }
            },
            (TestStage::Front { .. }, Event::Sent(Err(e))) => Step::Finish(
                Ok(failed_test("Connection failed: ".to_owned().concat(e.as_str()))),
            ),
            (TestStage::Front { with_token }, Event::Sent(Ok(code))) => Step::Finish(
                Ok(judge(Target::Registry, with_token, code)),
            ),
            (stage, _) => Step::Ignored(stage),
        }
    }
}

/// The machine of a test.
pub open spec fn test_machine() -> Machine<TestStageView, TestEndpointResponseView> {
    |stage: TestStageView, event: EventView| test_next(stage, event)
}

/// A registry that has no health page passes where its front page is there; one that
/// rejects the credentials on its health page does not, whatever its front page is.
pub proof fn lemma_registry_test_falls_back(
    endpoint: Seq<char>,
    token: Option<Seq<char>>,
    health: u16,
    front: u16,
)
    ensures
        ({
            let asked = TestStageView::Probe { target: Target::Registry, endpoint, token };
            let answered = test_next(asked, EventView::Sent(Ok(health)));
            &&& !success(health) && credentials_rejected(health) is None ==> answered
                == probe_front(endpoint, token) && test_next(
                answered->Perform_0,
                EventView::Sent(Ok(front)),
            ) == TestStep::Finish(Ok(verdict(Target::Registry, token is Some, front)))
            &&& credentials_rejected(health) is Some ==> (answered matches StepView::Finish(
                Ok(response),
            ) && !response.success)
        }),
        success(front) ==> verdict(Target::Registry, token is Some, front) == (
        TestEndpointResponseView { success: true, error: None }),
{
}

/// A test whose actions are answered gives a verdict, and never a refusal, within
/// three actions.
pub proof fn lemma_test_gives_a_verdict(
    target: Target,
    endpoint: Seq<char>,
    token: Option<Seq<char>>,
    reply: spec_fn(nat, ActionView) -> EventView,
)
    requires
        replies(reply),
    ensures
        run(test_machine(), test_start(target, endpoint, token), reply, 0, 3) matches StepView::Finish(
            Ok(_),
        ),
{
    reveal_with_fuel(run, 4);
    let first = test_start(target, endpoint, token);
    let a = reply(0, first->Perform_1);
    assert(answers(first->Perform_1, a));
    let second = test_next(first->Perform_0, a);
    if second is Perform {
        let b = reply(1, second->Perform_1);
        assert(answers(second->Perform_1, b));
        let third = test_next(second->Perform_0, b);
        if third is Perform {
            let c = reply(2, third->Perform_1);
            assert(answers(third->Perform_1, c));
        }
    }
}

} // verus!
