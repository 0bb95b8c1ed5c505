//! Reading, changing and testing the configuration.
use vstd::prelude::*;

use crate::adapters::status_display;
use crate::flow::{ActionView, EventView, Machine, Setting, StepView};
use crate::laws::history::{below, known, plain_get, refused};
use crate::routes::config::{
    read_next, read_start, set_machine, set_next, set_start, test_machine, test_start,
    ConfigResponseView, ReadStageView, ReadStep, SetConfigRequestView, SetConfigResponseView,
    SetStageView, SetStep, Target, TestEndpointResponseView,
};

verus! {

/// The machine of a reading.
pub open spec fn reading_machine(strict: bool) -> Machine<ReadStageView, ConfigResponseView> {
    |stage: ReadStageView, event: EventView| read_next(strict, stage, event)
}

/// A token that is there and not empty.
pub open spec fn is_set(value: Result<Option<Seq<char>>, Seq<char>>) -> bool {
    match value {
        Ok(Some(token)) => token.len() > 0,
        _ => false,
    }
}

/// A reading asks for the five settings in turn and gives the endpoints as they are stored, of
/// the tokens only whether they are set, and the switch. A strict one fails where an endpoint
/// cannot be read; else what cannot be read counts as not set.
pub proof fn lemma_readings_give_what_is_stored(
    strict: bool,
    prover: Result<Option<Seq<char>>, Seq<char>>,
    prover_token: Result<Option<Seq<char>>, Seq<char>>,
    registry: Result<Option<Seq<char>>, Seq<char>>,
    registry_token: Result<Option<Seq<char>>, Seq<char>>,
    auto_sync: Result<bool, Seq<char>>,
)
    ensures
        ({
            let m = reading_machine(strict);
            let start = read_start();
            let s1 = start.on(m, EventView::Value(prover));
            let s2 = s1.on(m, EventView::Value(prover_token));
            let s3 = s2.on(m, EventView::Value(registry));
            let s4 = s3.on(m, EventView::Value(registry_token));
            let s5 = s4.on(m, EventView::Flag(auto_sync));
            &&& start.asks(ActionView::ReadSetting(Setting::ProverEndpoint))
            &&& strict ==> (prover matches Err(e) ==> s1.ends(refused(500, e)))
            &&& !strict || prover is Ok ==> {
                &&& s1.asks(ActionView::ReadSetting(Setting::ProverAuthToken))
                &&& s2.asks(ActionView::ReadSetting(Setting::RegistryEndpoint))
                &&& strict ==> (registry matches Err(e) ==> s3.ends(refused(500, e)))
                &&& !strict || registry is Ok ==> {
                    &&& s3.asks(ActionView::ReadSetting(Setting::RegistryAuthToken))
                    &&& s4.asks(ActionView::ReadAutoSync)
                    &&& s5.ends(
                        Ok(
                            ConfigResponseView {
                                prover_endpoint: known(prover),
                                prover_auth_token_set: is_set(prover_token),
                                registry_endpoint: known(registry),
                                registry_auth_token_set: is_set(registry_token),
                                registry_auto_sync: auto_sync matches Ok(true),
                            },
                        ),
                    )
                }
            }
        }),
{
}

/// A change that fails ends the request with the error; after one that succeeded the next is
/// made, and after the last the configuration is read. The reading goes on as by itself, without
/// being strict, and what it gives is given with a success.
pub proof fn lemma_changes_are_made_in_turn(
    ahead: Seq<ActionView>,
    stage: ReadStageView,
    event: EventView,
    e: Seq<char>,
)
    ensures
        set_next(SetStageView::Apply { ahead }, EventView::Done(Err(e))).ends(refused(500, e)),
        ({
            let step = set_next(SetStageView::Apply { ahead }, EventView::Done(Ok(())));
            if ahead.len() == 0 {
                step == SetStep::Perform(
                    SetStageView::Read(ReadStageView::ProverEndpoint),
                    ActionView::ReadSetting(Setting::ProverEndpoint),
                )
            } else {
                step == SetStep::Perform(SetStageView::Apply { ahead: ahead.skip(1) }, ahead[0])
            }
        }),
        ({
            let step = set_next(SetStageView::Read(stage), event);
            match read_next(false, stage, event) {
                StepView::Perform(after, action) => step == SetStep::Perform(
                    SetStageView::Read(after),
                    action,
                ),
                StepView::Finish(Ok(current)) => step.ends(
                    Ok(SetConfigResponseView { success: true, current }),
                ),
                StepView::Finish(Err(refusal)) => step.ends(Err(refusal)),
                StepView::Ignored(_) => step is Ignored,
            }
        }),
{
}

/// The first change that a request asks for: each setting that it gives is cleared where the
/// value is empty and stored else, the prover's endpoint first.
pub proof fn lemma_requests_are_carried_out(req: SetConfigRequestView)
    ensures
        req.prover_endpoint matches Some(v) ==> set_start(req).asks(
            if v.len() == 0 {
                ActionView::ClearSetting(Setting::ProverEndpoint)
            } else {
                ActionView::WriteSetting(Setting::ProverEndpoint, v)
            },
        ),
        req == (SetConfigRequestView {
            prover_endpoint: None,
            prover_auth_token: None,
            registry_endpoint: None,
            registry_auth_token: None,
            registry_auto_sync: None,
        }) ==> set_start(req).asks(ActionView::ReadSetting(Setting::ProverEndpoint)),
{
}

/// A server that passed.
pub open spec fn passed() -> TestEndpointResponseView {
    TestEndpointResponseView { success: true, error: None }
}

/// A server that did not.
pub open spec fn faulty(message: Seq<char>) -> TestEndpointResponseView {
    TestEndpointResponseView { success: false, error: Some(message) }
}

/// The token that a test presents: the one that is given, none where it is given as empty, and
/// the stored one of that server where none is given.
pub proof fn lemma_tests_choose_a_token(
    endpoint: Seq<char>,
    given: Seq<char>,
    stored: Result<Option<Seq<char>>, Seq<char>>,
)
    ensures
        ({
            let m = test_machine();
            let health = |token: Option<Seq<char>>|
                plain_get(below(endpoint, "/health"@), token, Some(5));
            let presented = if given.len() > 0 {
                Some(given)
            } else {
                None
            };
            let prover = test_start(Target::Prover, endpoint, None);
            let registry = test_start(Target::Registry, endpoint, None);
            &&& test_start(Target::Prover, endpoint, Some(given)).asks(health(presented))
            &&& test_start(Target::Registry, endpoint, Some(given)).asks(health(presented))
            &&& prover.asks(ActionView::ReadSetting(Setting::ProverAuthToken))
            &&& registry.asks(ActionView::ReadSetting(Setting::RegistryAuthToken))
            &&& prover.on(m, EventView::Value(stored)).asks(health(known(stored)))
            &&& registry.on(m, EventView::Value(stored)).asks(health(known(stored)))
        }),
{
}

/// A prover passes with a success on its health page, and with nothing else.
pub proof fn lemma_provers_are_judged(endpoint: Seq<char>, given: Seq<char>, code: u16, e: Seq<char>)
    ensures
        ({
            let m = test_machine();
            let asked = test_start(Target::Prover, endpoint, Some(given));
            &&& asked.on(m, EventView::Sent(Ok(code))).ends(
                Ok(
                    if 200 <= code <= 299 {
                        passed()
                    } else {
                        faulty("Prover returned status: "@ + status_display(code))
                    },
                ),
            )
            &&& asked.on(m, EventView::Sent(Err(e))).ends(
                Ok(faulty("Connection failed: "@ + e)),
            )
        }),
{
}

/// What a registry's answer shows on its own.
pub open spec fn judged(code: u16, with_token: bool) -> TestEndpointResponseView {
    if 200 <= code <= 299 {
        passed()
    } else if code == 401 || code == 403 {
        if with_token {
            faulty("Registry rejected the auth token ("@ + status_display(code) + ")"@)
        } else {
            faulty(
                "Registry requires authentication ("@ + status_display(code)
                    + "); set an auth token"@,
            )
        }
    } else {
        faulty("Registry returned status: "@ + status_display(code))
    }
}

/// A registry passes with a success on its health page, and fails where that page rejects the
/// credentials. With any other answer there it is asked for its front page, with the same token
/// and patience, and that decides.
pub proof fn lemma_registries_are_judged(
    endpoint: Seq<char>,
    given: Seq<char>,
    code: u16,
    front: u16,
    e: Seq<char>,
)
    ensures
        ({
            let m = test_machine();
            let with_token = given.len() > 0;
            let asked = test_start(Target::Registry, endpoint, Some(given));
            let answered = asked.on(m, EventView::Sent(Ok(code)));
            &&& asked.on(m, EventView::Sent(Err(e))).ends(
                Ok(faulty("Connection failed: "@ + e)),
            )
            &&& if 200 <= code <= 299 || code == 401 || code == 403 {
                answered.ends(Ok(judged(code, with_token)))
            } else {
                &&& answered.asks(
                    plain_get(
                        below(endpoint, "/"@),
                        if with_token {
                            Some(given)
                        } else {
                            None
                        },
                        Some(5),
                    ),
                )
                &&& answered.on(m, EventView::Sent(Ok(front))).ends(
                    Ok(judged(front, with_token)),
                )
                &&& answered.on(m, EventView::Sent(Err(e))).ends(
                    Ok(faulty("Connection failed: "@ + e)),
                )
            }
        }),
{
}

} // verus!
