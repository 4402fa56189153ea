//! Classification of the probe responses: which HTTP statuses are soft
//! authorization denials, which are hard failures, and what a successful
//! body must contain.

use crate::entities::{ResourceGroup, Subscription, resource_group_models};
use crate::json::{
    parse_resource_groups_body, parse_subscriptions_body, resource_groups_body, subscriptions_body,
};
use vstd::prelude::*;

verus! {

/// A status in 401/403 means the token was accepted but the identity lacks
/// a role assignment: a fixable permission gap, reported, never fatal to
/// the process.
pub open spec fn is_soft_denial(status: u16) -> bool {
    status == 401 || status == 403
}

/// A 2xx status.
pub open spec fn is_success_status(status: u16) -> bool {
    200 <= status < 300
}

/// The three-way classification of a probe's HTTP status.
#[derive(PartialEq, Eq, Structural, Clone, Copy, Debug)]
pub enum StatusClass {
    /// 2xx: the body decides the rest.
    Success,
    /// 401 or 403: authorization denied, a warning, not an error.
    SoftDenial,
    /// Any other status: the probe itself failed.
    HardFailure,
}

/// The classification of `status`: soft denial for 401/403, success for
/// 2xx, hard failure otherwise. A soft denial is never a success, so the
/// order of the two tests does not matter.
pub open spec fn classify_status_spec(status: u16) -> StatusClass {
    if is_soft_denial(status) {
        StatusClass::SoftDenial
    } else if is_success_status(status) {
        StatusClass::Success
    } else {
        StatusClass::HardFailure
    }
}

/// Classifies a probe's HTTP status.
pub fn classify_status(status: u16) -> (r: StatusClass)
    ensures
        r == classify_status_spec(status),
{
    if status == 401 || status == 403 {
        StatusClass::SoftDenial
    } else if 200 <= status && status < 300 {
        StatusClass::Success
    } else {
        StatusClass::HardFailure
    }
}

/// The outcome of the subscription-listing probe.
pub enum SubscriptionsOutcome {
    /// 401/403: authentication succeeded, authorization to list
    /// subscriptions did not. The pipeline stops without an error.
    Denied { status: u16 },
    /// Any other non-2xx status: the call itself failed.
    FailedStatus { status: u16 },
    /// 2xx but the body does not belong to the response grammar.
    Malformed,
    /// 2xx with an empty list: the identity has no subscription assigned,
    /// which is a hard failure distinct from a denial.
    NoSubscriptions,
    /// 2xx with at least one entry: the first entry; further entries are
    /// ignored.
    Resolved { subscription: Subscription },
}

impl SubscriptionsOutcome {
    /// The exact outcome owed for a response `(status, body)`.
    pub open spec fn expected(status: u16, body: Seq<char>, outcome: SubscriptionsOutcome) -> bool {
        match classify_status_spec(status) {
            StatusClass::SoftDenial => outcome matches SubscriptionsOutcome::Denied {
                status: st,
            } && st == status,
            StatusClass::HardFailure => outcome matches SubscriptionsOutcome::FailedStatus {
                status: st,
            } && st == status,
            StatusClass::Success => match subscriptions_body(body) {
                None => outcome matches SubscriptionsOutcome::Malformed,
                Some(items) => if items.len() == 0 {
                    outcome matches SubscriptionsOutcome::NoSubscriptions
                } else {
                    outcome matches SubscriptionsOutcome::Resolved { subscription } &&
                    subscription@ == items[0]
                },
            },
        }
    }
}

/// Classifies the response of the subscription-listing probe: a soft
/// denial for 401/403, a hard failure for any other non-2xx status or for
/// a 2xx with an undecodable or empty list, and otherwise the first entry
/// of the list.
pub fn list_subscriptions_outcome(status: u16, body: &str) -> (r: SubscriptionsOutcome)
    ensures
        SubscriptionsOutcome::expected(status, body@, r),
{
    match classify_status(status) {
        StatusClass::SoftDenial => SubscriptionsOutcome::Denied { status },
        StatusClass::HardFailure => SubscriptionsOutcome::FailedStatus { status },
        StatusClass::Success => match parse_subscriptions_body(body) {
            None => SubscriptionsOutcome::Malformed,
            Some(mut items) => {
                if items.len() == 0 {
                    SubscriptionsOutcome::NoSubscriptions
                } else {
                    let first = items.remove(0);
                    SubscriptionsOutcome::Resolved { subscription: first }
                }
            },
        },
    }
}

/// The outcome of the resource-group-listing probe.
pub enum ResourceGroupsOutcome {
    /// 401/403: reported as a warning; not fatal for the process.
    Denied { status: u16 },
    /// Any other non-2xx status: the call itself failed.
    FailedStatus { status: u16 },
    /// 2xx but the body does not belong to the response grammar.
    Malformed,
    /// 2xx: the full list, in response order; an empty list is a success.
    Listed { groups: Vec<ResourceGroup> },
}

impl ResourceGroupsOutcome {
    /// The exact outcome owed for a response `(status, body)`.
    pub open spec fn expected(
        status: u16,
        body: Seq<char>,
        outcome: ResourceGroupsOutcome,
    ) -> bool {
        match classify_status_spec(status) {
            StatusClass::SoftDenial => outcome matches ResourceGroupsOutcome::Denied {
                status: st,
            } && st == status,
            StatusClass::HardFailure => outcome matches ResourceGroupsOutcome::FailedStatus {
                status: st,
            } && st == status,
            StatusClass::Success => match resource_groups_body(body) {
                None => outcome matches ResourceGroupsOutcome::Malformed,
                Some(items) => outcome matches ResourceGroupsOutcome::Listed { groups } &&
                    resource_group_models(groups@) == items,
            },
        }
    }
}

/// Classifies the response of the resource-group-listing probe: a soft
/// denial for 401/403, a hard failure for any other non-2xx status or an
/// undecodable 2xx body, and otherwise the full list in response order.
pub fn list_resource_groups_outcome(status: u16, body: &str) -> (r: ResourceGroupsOutcome)
    ensures
        ResourceGroupsOutcome::expected(status, body@, r),
{
    match classify_status(status) {
        StatusClass::SoftDenial => ResourceGroupsOutcome::Denied { status },
        StatusClass::HardFailure => ResourceGroupsOutcome::FailedStatus { status },
        StatusClass::Success => match parse_resource_groups_body(body) {
            None => ResourceGroupsOutcome::Malformed,
            Some(groups) => ResourceGroupsOutcome::Listed { groups },
        },
    }
}

} // verus!
