//! The two resource entities returned by the permission probes, together
//! with their mathematical models.

use vstd::prelude::*;

verus! {

/// Mathematical model of a subscription entry: the id and the optional
/// display name, as character sequences.
pub ghost struct SubscriptionModel {
    pub subscription_id: Seq<char>,
    pub display_name: Option<Seq<char>>,
}

/// One entry of the subscription list. Only the first entry of the list is
/// ever consumed by the pipeline.
pub struct Subscription {
    pub subscription_id: String,
    pub display_name: Option<String>,
}

impl View for Subscription {
    type V = SubscriptionModel;

    open spec fn view(&self) -> SubscriptionModel {
        SubscriptionModel {
            subscription_id: self.subscription_id@,
            display_name: match self.display_name {
                Some(d) => Some(d@),
                None => None,
            },
        }
    }
}

/// Mathematical model of a resource group entry.
pub ghost struct ResourceGroupModel {
    pub name: Seq<char>,
    pub location: Seq<char>,
}

/// One entry of the resource-group list.
pub struct ResourceGroup {
    pub name: String,
    pub location: String,
}

impl View for ResourceGroup {
    type V = ResourceGroupModel;

    open spec fn view(&self) -> ResourceGroupModel {
        ResourceGroupModel { name: self.name@, location: self.location@ }
    }
}

/// The models of a sequence of subscription entries, in order.
pub open spec fn subscription_models(v: Seq<Subscription>) -> Seq<SubscriptionModel> {
    v.map_values(|s: Subscription| s@)
}

/// The models of a sequence of resource-group entries, in order.
pub open spec fn resource_group_models(v: Seq<ResourceGroup>) -> Seq<ResourceGroupModel> {
    v.map_values(|g: ResourceGroup| g@)
}

} // verus!
