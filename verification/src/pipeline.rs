//! The orchestrator: a linear state machine over the stages of the check.
//!
//! Each step takes the plain result of the outside work the previous state
//! asked for (the environment values, the token exchange result, a probe's
//! status and body) and returns the next state together with the
//! diagnostic messages the stage emits. The caller performs the outside
//! work a non-`Done` state asks for; a `Done` state asks for nothing, so
//! every early exit provably issues no further network call.

use crate::classify::{
    StatusClass, SubscriptionsOutcome, ResourceGroupsOutcome, classify_status_spec,
    list_resource_groups_outcome, list_subscriptions_outcome,
};
use crate::config::IdentityConfig;
use crate::json::{resource_groups_body, subscriptions_body};
use crate::report::{
    Level, LogMessage, ProbeStage, lemma_warn_count1, lemma_warn_count2, lemma_warn_count4,
    warn_count,
};
use vstd::prelude::*;
use vstd::string::StringExecFns;

verus! {

/// The audience of the requested token: the management API.
pub open spec fn management_scope_spec() -> Seq<char> {
    "https://management.azure.com/.default"@
}

/// The scope string handed to the credential acquirer.
pub fn management_scope() -> (r: String)
    ensures
        r@ == management_scope_spec(),
{
    String::from_str("https://management.azure.com/.default")
}

/// How a run ended. Every outcome is reported, none raises the process
/// exit code.
#[derive(PartialEq, Eq, Structural, Clone, Copy, Debug)]
pub enum Outcome {
    /// Both probes answered; the permission check passed.
    Success,
    /// Required environment values were missing; nothing was attempted.
    ConfigurationError,
    /// The token exchange failed; no probe was issued.
    AuthenticationError,
    /// A probe was denied (401/403): a permission gap, not an error.
    SoftDenial,
    /// A probe failed, its body was undecodable, or the identity has no
    /// subscription.
    HardFailure,
}

/// Mathematical model of a pipeline state.
pub ghost enum PipelineStateModel {
    AwaitingToken { scope: Seq<char> },
    AwaitingSubscriptions { token: Seq<char> },
    AwaitingResourceGroups { token: Seq<char>, subscription_id: Seq<char> },
    Done { outcome: Outcome },
}

/// A state of the pipeline. Each non-terminal state names the outside work
/// the caller must perform next and carries the values that work needs.
pub enum PipelineState {
    /// Ask the credential acquirer for a bearer token with this scope.
    AwaitingToken { scope: String },
    /// Issue the subscription-listing probe with this bearer token.
    AwaitingSubscriptions { token: String },
    /// Issue the resource-group-listing probe for this subscription.
    AwaitingResourceGroups { token: String, subscription_id: String },
    /// The run is over; nothing further may be issued.
    Done { outcome: Outcome },
}

impl View for PipelineState {
    type V = PipelineStateModel;

    open spec fn view(&self) -> PipelineStateModel {
        match self {
            PipelineState::AwaitingToken { scope } => PipelineStateModel::AwaitingToken {
                scope: scope@,
            },
            PipelineState::AwaitingSubscriptions { token } =>
                PipelineStateModel::AwaitingSubscriptions { token: token@ },
            PipelineState::AwaitingResourceGroups { token, subscription_id } =>
                PipelineStateModel::AwaitingResourceGroups {
                token: token@,
                subscription_id: subscription_id@,
            },
            PipelineState::Done { outcome } => PipelineStateModel::Done { outcome: *outcome },
        }
    }
}

/// A state asks for a network call exactly when it is not terminal: every
/// non-`Done` state's next act is the token exchange or a probe.
pub open spec fn issues_network_call(s: PipelineStateModel) -> bool {
    !(s is Done)
}

/// The transition out of the environment gate: a valid configuration asks
/// for a token, an invalid one ends the run before any network call.
pub open spec fn env_transition(c: IdentityConfig) -> PipelineStateModel {
    if c.is_valid_spec() {
        PipelineStateModel::AwaitingToken { scope: management_scope_spec() }
    } else {
        PipelineStateModel::Done { outcome: Outcome::ConfigurationError }
    }
}

/// The transition out of the token exchange: a token leads to the first
/// probe, a failure ends the run.
pub open spec fn token_transition(result: Result<Seq<char>, Seq<char>>) -> PipelineStateModel {
    match result {
        Ok(token) => PipelineStateModel::AwaitingSubscriptions { token },
        Err(_) => PipelineStateModel::Done { outcome: Outcome::AuthenticationError },
    }
}

/// The transition out of the subscription probe: a denial or failure ends
/// the run; a first entry leads to the resource-group probe for its id.
pub open spec fn subscriptions_transition(
    token: Seq<char>,
    status: u16,
    body: Seq<char>,
) -> PipelineStateModel {
    match classify_status_spec(status) {
        StatusClass::SoftDenial => PipelineStateModel::Done { outcome: Outcome::SoftDenial },
        StatusClass::HardFailure => PipelineStateModel::Done { outcome: Outcome::HardFailure },
        StatusClass::Success => match subscriptions_body(body) {
            None => PipelineStateModel::Done { outcome: Outcome::HardFailure },
            Some(items) => if items.len() == 0 {
                PipelineStateModel::Done { outcome: Outcome::HardFailure }
            } else {
                PipelineStateModel::AwaitingResourceGroups {
                    token,
                    subscription_id: items[0].subscription_id,
                }
            },
        },
    }
}

/// The transition out of the resource-group probe: every branch ends the
/// run; only a decodable 2xx body is a success.
pub open spec fn resource_groups_transition(status: u16, body: Seq<char>) -> PipelineStateModel {
    match classify_status_spec(status) {
        StatusClass::SoftDenial => PipelineStateModel::Done { outcome: Outcome::SoftDenial },
        StatusClass::HardFailure => PipelineStateModel::Done { outcome: Outcome::HardFailure },
        StatusClass::Success => match resource_groups_body(body) {
            None => PipelineStateModel::Done { outcome: Outcome::HardFailure },
            Some(_) => PipelineStateModel::Done { outcome: Outcome::Success },
        },
    }
}

/// A transport failure during a probe ends the run as a hard failure.
pub open spec fn transport_transition() -> PipelineStateModel {
    PipelineStateModel::Done { outcome: Outcome::HardFailure }
}

/// The environment gate. Validation precedes every network call: a token
/// may only be requested out of the returned state, and an invalid
/// configuration returns a terminal one.
pub fn on_environment(config: &IdentityConfig) -> (r: (PipelineState, Vec<LogMessage>))
    ensures
        r.0@ == env_transition(*config),
        warn_count(r.1@) == 0,
        r.1@.len() == 4,
        r.1@[0] is Starting,
        r.1@[1] is EnvRetrieved,
        config.is_valid_spec() ==> r.1@[2] is InitializingCredential && (r.1@[3] matches
            LogMessage::AcquiringToken { scope } && scope@ == management_scope_spec()),
        !config.is_valid_spec() ==> (r.1@[2] matches LogMessage::MissingEnv { names }
            && names.deep_view() == config.missing_required_spec()) && r.1@[3] is MissingEnvHint,
{
    let mut logs: Vec<LogMessage> = Vec::new();
    logs.push(LogMessage::Starting);
    logs.push(LogMessage::EnvRetrieved);
    if config.is_valid() {
        let scope = management_scope();
        logs.push(LogMessage::InitializingCredential);
        logs.push(LogMessage::AcquiringToken { scope: management_scope() });
        proof {
            lemma_warn_count4(logs@[0], logs@[1], logs@[2], logs@[3]);
            assert(logs@ =~= seq![logs@[0], logs@[1], logs@[2], logs@[3]]);
        }
        (PipelineState::AwaitingToken { scope }, logs)
    } else {
        let names = config.missing_required();
        logs.push(LogMessage::MissingEnv { names });
        logs.push(LogMessage::MissingEnvHint);
        proof {
            lemma_warn_count4(logs@[0], logs@[1], logs@[2], logs@[3]);
            assert(logs@ =~= seq![logs@[0], logs@[1], logs@[2], logs@[3]]);
        }
        (PipelineState::Done { outcome: Outcome::ConfigurationError }, logs)
    }
}

/// The step after the token exchange. A failure is fatal: the returned
/// state is terminal, so no probe is ever issued without a token.
pub fn on_token_result(result: Result<String, String>) -> (r: (PipelineState, Vec<LogMessage>))
    ensures
        r.0@ == token_transition(
            match result {
                Ok(t) => Ok(t@),
                Err(e) => Err(e@),
            },
        ),
        warn_count(r.1@) == 0,
        result is Ok ==> r.1@.len() == 2 && r.1@[0] is Authenticated && r.1@[1] is
            RetrievingSubscriptions,
        result matches Err(e) ==> r.1@.len() == 1 && (r.1@[0] matches
            LogMessage::AuthenticationFailed { detail } && detail@ == e@),
{
    match result {
        Ok(token) => {
            let mut logs: Vec<LogMessage> = Vec::new();
            logs.push(LogMessage::Authenticated);
            logs.push(LogMessage::RetrievingSubscriptions);
            proof {
                lemma_warn_count2(logs@[0], logs@[1]);
                assert(logs@ =~= seq![logs@[0], logs@[1]]);
            }
            (PipelineState::AwaitingSubscriptions { token }, logs)
        },
        Err(detail) => {
            let mut logs: Vec<LogMessage> = Vec::new();
            logs.push(LogMessage::AuthenticationFailed { detail });
            proof {
                lemma_warn_count1(logs@[0]);
                assert(logs@ =~= seq![logs@[0]]);
            }
            (PipelineState::Done { outcome: Outcome::AuthenticationError }, logs)
        },
    }
}

/// The step after the subscription probe answered. A 401/403 ends the run
/// with exactly one warning; any other non-2xx status, an undecodable
/// body, and an empty list are hard failures; otherwise the resource-group
/// probe is asked for, with the id of the first entry only.
pub fn on_subscriptions_response(token: String, status: u16, body: &str) -> (r: (
    PipelineState,
    Vec<LogMessage>,
))
    ensures
        r.0@ == subscriptions_transition(token@, status, body@),
        warn_count(r.1@) == if classify_status_spec(status) is SoftDenial {
            1int
        } else {
            0int
        },
        classify_status_spec(status) is SoftDenial ==> r.1@.len() == 1 && (r.1@[0] matches
            LogMessage::SubscriptionsDenied { status: st } && st == status),
        classify_status_spec(status) is HardFailure ==> r.1@.len() == 1 && (r.1@[0] matches
            LogMessage::SubscriptionsFailed { status: st } && st == status),
        classify_status_spec(status) is Success && subscriptions_body(body@) is None ==> r.1@.len()
            == 1 && r.1@[0] is SubscriptionsMalformed,
        classify_status_spec(status) is Success ==> (subscriptions_body(body@) matches Some(items)
            ==> ((items.len() == 0 ==> r.1@.len() == 1 && r.1@[0] is NoSubscriptions) && (
        items.len() > 0 ==> r.1@.len() == 2 && (r.1@[0] matches
            LogMessage::SubscriptionResolved { subscription_id, display_name }
            && subscription_id@ == items[0].subscription_id
            && display_name.deep_view() == items[0].display_name) && r.1@[1] is
            ListingResourceGroups))),
{
    let outcome = list_subscriptions_outcome(status, body);
    let mut logs: Vec<LogMessage> = Vec::new();
    match outcome {
        SubscriptionsOutcome::Denied { status } => {
            logs.push(LogMessage::SubscriptionsDenied { status });
            proof {
                lemma_warn_count1(logs@[0]);
                assert(logs@ =~= seq![logs@[0]]);
            }
            (PipelineState::Done { outcome: Outcome::SoftDenial }, logs)
        },
        SubscriptionsOutcome::FailedStatus { status } => {
            logs.push(LogMessage::SubscriptionsFailed { status });
            proof {
                lemma_warn_count1(logs@[0]);
                assert(logs@ =~= seq![logs@[0]]);
            }
            (PipelineState::Done { outcome: Outcome::HardFailure }, logs)
        },
        SubscriptionsOutcome::Malformed => {
            logs.push(LogMessage::SubscriptionsMalformed);
            proof {
                lemma_warn_count1(logs@[0]);
                assert(logs@ =~= seq![logs@[0]]);
            }
            (PipelineState::Done { outcome: Outcome::HardFailure }, logs)
        },
        SubscriptionsOutcome::NoSubscriptions => {
            logs.push(LogMessage::NoSubscriptions);
            proof {
                lemma_warn_count1(logs@[0]);
                assert(logs@ =~= seq![logs@[0]]);
            }
            (PipelineState::Done { outcome: Outcome::HardFailure }, logs)
        },
        SubscriptionsOutcome::Resolved { subscription } => {
            let subscription_id = subscription.subscription_id;
            let display_name = subscription.display_name;
            logs.push(
                LogMessage::SubscriptionResolved {
                    subscription_id: subscription_id.clone(),
                    display_name,
                },
            );
            logs.push(LogMessage::ListingResourceGroups);
            proof {
                lemma_warn_count2(logs@[0], logs@[1]);
                assert(logs@ =~= seq![logs@[0], logs@[1]]);
            }
            (PipelineState::AwaitingResourceGroups { token, subscription_id }, logs)
        },
    }
}

/// The step after the resource-group probe answered: every branch ends the
/// run. A 401/403 is a warning and the run still completes; a decodable
/// 2xx body, however empty, is the success of the whole check.
pub fn on_resource_groups_response(status: u16, body: &str) -> (r: (PipelineState, Vec<LogMessage>))
    ensures
        r.0@ == resource_groups_transition(status, body@),
        warn_count(r.1@) == if classify_status_spec(status) is SoftDenial {
            1int
        } else {
            0int
        },
        classify_status_spec(status) is SoftDenial ==> r.1@.len() == 2 && (r.1@[0] matches
            LogMessage::ResourceGroupsDenied { status: st } && st == status) && r.1@[1] is
            Completed,
        classify_status_spec(status) is HardFailure ==> r.1@.len() == 1 && (r.1@[0] matches
            LogMessage::ResourceGroupsFailed { status: st } && st == status),
        classify_status_spec(status) is Success && resource_groups_body(body@) is None ==> r.1@.len()
            == 1 && r.1@[0] is ResourceGroupsMalformed,
        classify_status_spec(status) is Success ==> (resource_groups_body(body@) matches Some(
            items,
        ) ==> r.1@.len() == 2 && (r.1@[0] matches LogMessage::ResourceGroupsFound { groups }
            && crate::entities::resource_group_models(groups@) == items) && r.1@[1] is Completed),
{
    let outcome = list_resource_groups_outcome(status, body);
    let mut logs: Vec<LogMessage> = Vec::new();
    match outcome {
        ResourceGroupsOutcome::Denied { status } => {
            logs.push(LogMessage::ResourceGroupsDenied { status });
            logs.push(LogMessage::Completed);
            proof {
                lemma_warn_count2(logs@[0], logs@[1]);
                assert(logs@ =~= seq![logs@[0], logs@[1]]);
            }
            (PipelineState::Done { outcome: Outcome::SoftDenial }, logs)
        },
        ResourceGroupsOutcome::FailedStatus { status } => {
            logs.push(LogMessage::ResourceGroupsFailed { status });
            proof {
                lemma_warn_count1(logs@[0]);
                assert(logs@ =~= seq![logs@[0]]);
            }
            (PipelineState::Done { outcome: Outcome::HardFailure }, logs)
        },
        ResourceGroupsOutcome::Malformed => {
            logs.push(LogMessage::ResourceGroupsMalformed);
            proof {
                lemma_warn_count1(logs@[0]);
                assert(logs@ =~= seq![logs@[0]]);
            }
            (PipelineState::Done { outcome: Outcome::HardFailure }, logs)
        },
        ResourceGroupsOutcome::Listed { groups } => {
            logs.push(LogMessage::ResourceGroupsFound { groups });
            logs.push(LogMessage::Completed);
            proof {
                lemma_warn_count2(logs@[0], logs@[1]);
                assert(logs@ =~= seq![logs@[0], logs@[1]]);
            }
            (PipelineState::Done { outcome: Outcome::Success }, logs)
        },
    }
}

/// The step after a probe was interrupted by a transport failure: the run
/// ends as a hard failure, reported at error level.
pub fn on_transport_error(stage: ProbeStage, detail: String) -> (r: (PipelineState, Vec<LogMessage>))
    ensures
        r.0@ == transport_transition(),
        warn_count(r.1@) == 0,
        r.1@.len() == 1,
        r.1@[0] matches LogMessage::TransportFailed { stage: st, detail: d } && st == stage && d@
            == detail@,
        r.1@[0].level_spec() == Level::Error,
{
    let mut logs: Vec<LogMessage> = Vec::new();
    logs.push(LogMessage::TransportFailed { stage, detail });
    proof {
        lemma_warn_count1(logs@[0]);
        assert(logs@ =~= seq![logs@[0]]);
    }
    (PipelineState::Done { outcome: Outcome::HardFailure }, logs)
}

} // verus!
