//! Leveled diagnostic messages. The pipeline produces them as structured
//! values; rendering and writing them to the output streams is left to the
//! caller. Reporting never drives control flow.

use crate::entities::ResourceGroup;
use vstd::prelude::*;

verus! {

/// The level of a diagnostic line.
#[derive(PartialEq, Eq, Structural, Clone, Copy, Debug)]
pub enum Level {
    Info,
    Warn,
    Error,
}

/// Which probe a transport failure interrupted.
#[derive(PartialEq, Eq, Structural, Clone, Copy, Debug)]
pub enum ProbeStage {
    Subscriptions,
    ResourceGroups,
}

/// One diagnostic message of the pipeline, in the order of the stages that
/// emit them.
pub enum LogMessage {
    /// The run has started.
    Starting,
    /// The environment values were read.
    EnvRetrieved,
    /// Required environment variables are missing; their names, in the
    /// order checked.
    MissingEnv { names: Vec<String> },
    /// Hint that accompanies `MissingEnv`: check the workload-identity
    /// label and service-account annotation.
    MissingEnvHint,
    /// The federated credential is being initialized.
    InitializingCredential,
    /// A token is being requested for this scope.
    AcquiringToken { scope: String },
    /// The token exchange succeeded.
    Authenticated,
    /// The token exchange failed; no probe may follow.
    AuthenticationFailed { detail: String },
    /// The subscription-listing probe was issued.
    RetrievingSubscriptions,
    /// The subscription probe was denied (401/403): the identity is likely
    /// missing a role assignment at tenant scope.
    SubscriptionsDenied { status: u16 },
    /// The subscription probe failed with some other status.
    SubscriptionsFailed { status: u16 },
    /// The subscription response body could not be decoded.
    SubscriptionsMalformed,
    /// The identity is authorized but has no subscription assigned.
    NoSubscriptions,
    /// The first subscription of the list was resolved.
    SubscriptionResolved { subscription_id: String, display_name: Option<String> },
    /// The resource-group-listing probe was issued.
    ListingResourceGroups,
    /// The resource-group probe was denied (401/403): the identity is
    /// likely missing a role assignment on the subscription.
    ResourceGroupsDenied { status: u16 },
    /// The resource-group probe failed with some other status.
    ResourceGroupsFailed { status: u16 },
    /// The resource-group response body could not be decoded.
    ResourceGroupsMalformed,
    /// The permission check passed: the full list, possibly empty.
    ResourceGroupsFound { groups: Vec<ResourceGroup> },
    /// A network failure interrupted the named probe.
    TransportFailed { stage: ProbeStage, detail: String },
    /// The run completed.
    Completed,
}

impl LogMessage {
    /// The level of each message: denials are warnings, failures are
    /// errors, everything else is informational.
    pub open spec fn level_spec(self) -> Level {
        match self {
            LogMessage::MissingEnv { .. } => Level::Error,
            LogMessage::MissingEnvHint => Level::Error,
            LogMessage::AuthenticationFailed { .. } => Level::Error,
            LogMessage::SubscriptionsDenied { .. } => Level::Warn,
            LogMessage::SubscriptionsFailed { .. } => Level::Error,
            LogMessage::SubscriptionsMalformed => Level::Error,
            LogMessage::NoSubscriptions => Level::Error,
            LogMessage::ResourceGroupsDenied { .. } => Level::Warn,
            LogMessage::ResourceGroupsFailed { .. } => Level::Error,
            LogMessage::ResourceGroupsMalformed => Level::Error,
            LogMessage::TransportFailed { .. } => Level::Error,
            _ => Level::Info,
        }
    }

    /// The level at which this message is reported.
    pub fn level(&self) -> (r: Level)
        ensures
            r == self.level_spec(),
    {
        match self {
            LogMessage::MissingEnv { .. } => Level::Error,
            LogMessage::MissingEnvHint => Level::Error,
            LogMessage::AuthenticationFailed { .. } => Level::Error,
            LogMessage::SubscriptionsDenied { .. } => Level::Warn,
            LogMessage::SubscriptionsFailed { .. } => Level::Error,
            LogMessage::SubscriptionsMalformed => Level::Error,
            LogMessage::NoSubscriptions => Level::Error,
            LogMessage::ResourceGroupsDenied { .. } => Level::Warn,
            LogMessage::ResourceGroupsFailed { .. } => Level::Error,
            LogMessage::ResourceGroupsMalformed => Level::Error,
            LogMessage::TransportFailed { .. } => Level::Error,
            _ => Level::Info,
        }
    }
}

/// How many of the messages are warnings.
pub open spec fn warn_count(logs: Seq<LogMessage>) -> int
    decreases logs.len(),
{
    if logs.len() == 0 {
        0
    } else {
        warn_count(logs.drop_last()) + if logs.last().level_spec() == Level::Warn {
            1int
        } else {
            0int
        }
    }
}

/// Appending a message raises the warning count by one exactly when the
/// message is a warning.
pub proof fn lemma_warn_count_push(logs: Seq<LogMessage>, m: LogMessage)
    ensures
        warn_count(logs.push(m)) == warn_count(logs) + if m.level_spec() == Level::Warn {
            1int
        } else {
            0int
        },
{
    assert(logs.push(m).drop_last() =~= logs);
}

/// The warning count of a one-message sequence.
pub proof fn lemma_warn_count1(a: LogMessage)
    ensures
        warn_count(seq![a]) == if a.level_spec() == Level::Warn {
            1int
        } else {
            0int
        },
{
    assert(seq![a] =~= Seq::<LogMessage>::empty().push(a));
    lemma_warn_count_push(Seq::empty(), a);
}

/// The warning count of a two-message sequence.
pub proof fn lemma_warn_count2(a: LogMessage, b: LogMessage)
    ensures
        warn_count(seq![a, b]) == (if a.level_spec() == Level::Warn {
            1int
        } else {
            0int
        }) + (if b.level_spec() == Level::Warn {
            1int
        } else {
            0int
        }),
{
    assert(seq![a, b] =~= seq![a].push(b));
    lemma_warn_count_push(seq![a], b);
    lemma_warn_count1(a);
}

/// The warning count of a four-message sequence.
pub proof fn lemma_warn_count4(a: LogMessage, b: LogMessage, c: LogMessage, d: LogMessage)
    ensures
        warn_count(seq![a, b, c, d]) == (if a.level_spec() == Level::Warn {
            1int
        } else {
            0int
        }) + (if b.level_spec() == Level::Warn {
            1int
        } else {
            0int
        }) + (if c.level_spec() == Level::Warn {
            1int
        } else {
            0int
        }) + (if d.level_spec() == Level::Warn {
            1int
        } else {
            0int
        }),
{
    assert(seq![a, b, c, d] =~= seq![a, b].push(c).push(d));
    lemma_warn_count_push(seq![a, b].push(c), d);
    lemma_warn_count_push(seq![a, b], c);
    lemma_warn_count2(a, b);
}

} // verus!
