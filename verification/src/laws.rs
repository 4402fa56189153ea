//! The properties the pipeline guarantees, stated over the transition
//! model and proved once and for all.

use crate::config::{
    IdentityConfig, client_id_name, federated_token_file_name, tenant_id_name,
};
use crate::classify::{is_soft_denial, is_success_status};
use crate::entities::{ResourceGroupModel, SubscriptionModel};
use crate::json::{resource_groups_body, subscriptions_body};
use crate::pipeline::{
    Outcome, PipelineStateModel, env_transition, issues_network_call, resource_groups_transition,
    subscriptions_transition, token_transition,
};
use vstd::prelude::*;

verus! {

/// The position of a required variable in the order checked: client id,
/// tenant id, federated token file.
pub open spec fn required_name_rank(n: Seq<char>) -> int {
    if n == client_id_name() {
        0
    } else if n == tenant_id_name() {
        1
    } else if n == federated_token_file_name() {
        2
    } else {
        3
    }
}

/// A configuration with any required value missing ends the run before
/// any network call, and the missing-field list holds exactly the names
/// of the empty required fields, each at most once, in the order checked.
pub proof fn lemma_missing_config_halts(c: IdentityConfig)
    requires
        !c.is_valid_spec(),
    ensures
        env_transition(c) == (PipelineStateModel::Done { outcome: Outcome::ConfigurationError }),
        !issues_network_call(env_transition(c)),
        c.missing_required_spec().contains(client_id_name()) <==> c.client_id@.len() == 0,
        c.missing_required_spec().contains(tenant_id_name()) <==> c.tenant_id@.len() == 0,
        c.missing_required_spec().contains(federated_token_file_name())
            <==> c.federated_token_file@.len() == 0,
        c.missing_required_spec().len() >= 1,
        forall|i: int, j: int|
            0 <= i < j < c.missing_required_spec().len() ==> required_name_rank(
                c.missing_required_spec()[i],
            ) < required_name_rank(c.missing_required_spec()[j]),
{
    reveal_strlit("AZURE_CLIENT_ID");
    reveal_strlit("AZURE_TENANT_ID");
    reveal_strlit("AZURE_FEDERATED_TOKEN_FILE");
    assert(client_id_name() != tenant_id_name()) by {
        assert(client_id_name()[6] != tenant_id_name()[6]);
    }
    assert(client_id_name() != federated_token_file_name()) by {
        assert(client_id_name().len() != federated_token_file_name().len());
    }
    assert(tenant_id_name() != federated_token_file_name()) by {
        assert(tenant_id_name().len() != federated_token_file_name().len());
    }
    let m = c.missing_required_spec();
    if c.client_id@.len() == 0 {
        assert(m[0] == client_id_name());
        assert(m.contains(client_id_name()));
    } else {
        assert forall|i: int| 0 <= i < m.len() implies m[i] != client_id_name() by {
            assert(m[i] == tenant_id_name() || m[i] == federated_token_file_name());
        }
    }
    if c.tenant_id@.len() == 0 {
        let i = if c.client_id@.len() == 0 { 1int } else { 0int };
        assert(m[i] == tenant_id_name());
        assert(m.contains(tenant_id_name()));
    } else {
        assert forall|i: int| 0 <= i < m.len() implies m[i] != tenant_id_name() by {
            assert(m[i] == client_id_name() || m[i] == federated_token_file_name());
        }
    }
    if c.federated_token_file@.len() == 0 {
        let i = m.len() - 1;
        assert(m[i] == federated_token_file_name());
        assert(m.contains(federated_token_file_name()));
    } else {
        assert forall|i: int| 0 <= i < m.len() implies m[i] != federated_token_file_name() by {
            assert(m[i] == client_id_name() || m[i] == tenant_id_name());
        }
    }
}

/// A failed token exchange ends the run: no probe is ever issued out of a
/// terminal state.
pub proof fn lemma_auth_failure_halts(detail: Seq<char>)
    ensures
        token_transition(Err(detail)) == (PipelineStateModel::Done {
            outcome: Outcome::AuthenticationError,
        }),
        !issues_network_call(token_transition(Err(detail))),
{
}

/// A 401/403 on the subscription probe ends the run as a soft denial,
/// whatever the body says: the resource-group probe is never reached.
pub proof fn lemma_subscriptions_soft_denial_halts(token: Seq<char>, status: u16, body: Seq<char>)
    requires
        is_soft_denial(status),
    ensures
        subscriptions_transition(token, status, body) == (PipelineStateModel::Done {
            outcome: Outcome::SoftDenial,
        }),
        !issues_network_call(subscriptions_transition(token, status, body)),
{
}

/// An authorized but empty subscription list is a hard failure, distinct
/// from the soft-denial outcome of a 401/403.
pub proof fn lemma_no_subscriptions_is_hard_failure(token: Seq<char>, status: u16, body: Seq<char>)
    requires
        is_success_status(status),
        subscriptions_body(body) == Some(Seq::<SubscriptionModel>::empty()),
    ensures
        subscriptions_transition(token, status, body) == (PipelineStateModel::Done {
            outcome: Outcome::HardFailure,
        }),
        subscriptions_transition(token, status, body) != (PipelineStateModel::Done {
            outcome: Outcome::SoftDenial,
        }),
{
}

/// A successful subscription listing leads to the resource-group probe
/// with the id of the first entry only, whatever else the list holds.
pub proof fn lemma_first_subscription_only(
    token: Seq<char>,
    status: u16,
    body: Seq<char>,
    items: Seq<SubscriptionModel>,
)
    requires
        is_success_status(status),
        subscriptions_body(body) == Some(items),
        items.len() > 0,
    ensures
        subscriptions_transition(token, status, body) == (PipelineStateModel::AwaitingResourceGroups {
            token,
            subscription_id: items[0].subscription_id,
        }),
{
}

/// An authorized, decodable resource-group response is the success of the
/// whole check, even when the list is empty: zero resource groups is not
/// an error.
pub proof fn lemma_resource_groups_success(status: u16, body: Seq<char>, items: Seq<ResourceGroupModel>)
    requires
        is_success_status(status),
        resource_groups_body(body) == Some(items),
    ensures
        resource_groups_transition(status, body) == (PipelineStateModel::Done {
            outcome: Outcome::Success,
        }),
{
}

} // verus!
