use aks_wi_env_check::config::IdentityConfig;
use aks_wi_env_check::pipeline::{
    on_environment, on_resource_groups_response, on_subscriptions_response, on_token_result,
    on_transport_error, management_scope, Outcome, PipelineState,
};
use aks_wi_env_check::report::{Level, LogMessage, ProbeStage};

fn config(client: &str, tenant: &str, authority: &str, file: &str) -> IdentityConfig {
    IdentityConfig::new(
        String::from(client),
        String::from(tenant),
        String::from(authority),
        String::from(file),
    )
}

fn warn_count(logs: &[LogMessage]) -> usize {
    logs.iter().filter(|m| m.level() == Level::Warn).count()
}

fn error_count(logs: &[LogMessage]) -> usize {
    logs.iter().filter(|m| m.level() == Level::Error).count()
}

#[test]
fn missing_client_id_halts_before_any_network_call() {
    let c = config("", "tenant", "", "/var/run/secrets/token");
    let (state, logs) = on_environment(&c);
    assert!(matches!(
        state,
        PipelineState::Done { outcome: Outcome::ConfigurationError }
    ));
    match &logs[2] {
        LogMessage::MissingEnv { names } => {
            assert_eq!(names, &vec![String::from("AZURE_CLIENT_ID")]);
        }
        _ => panic!("expected the missing-variable listing"),
    }
}

#[test]
fn missing_tenant_id_halts_before_any_network_call() {
    let c = config("client", "", "", "/var/run/secrets/token");
    let (state, logs) = on_environment(&c);
    assert!(matches!(
        state,
        PipelineState::Done { outcome: Outcome::ConfigurationError }
    ));
    match &logs[2] {
        LogMessage::MissingEnv { names } => {
            assert_eq!(names, &vec![String::from("AZURE_TENANT_ID")]);
        }
        _ => panic!("expected the missing-variable listing"),
    }
}

#[test]
fn missing_token_file_halts_before_any_network_call() {
    let c = config("client", "tenant", "", "");
    let (state, logs) = on_environment(&c);
    assert!(matches!(
        state,
        PipelineState::Done { outcome: Outcome::ConfigurationError }
    ));
    match &logs[2] {
        LogMessage::MissingEnv { names } => {
            assert_eq!(names, &vec![String::from("AZURE_FEDERATED_TOKEN_FILE")]);
        }
        _ => panic!("expected the missing-variable listing"),
    }
}

#[test]
fn all_missing_lists_names_in_the_order_checked() {
    let c = config("", "", "", "");
    let (state, logs) = on_environment(&c);
    assert!(matches!(
        state,
        PipelineState::Done { outcome: Outcome::ConfigurationError }
    ));
    match &logs[2] {
        LogMessage::MissingEnv { names } => {
            assert_eq!(
                names,
                &vec![
                    String::from("AZURE_CLIENT_ID"),
                    String::from("AZURE_TENANT_ID"),
                    String::from("AZURE_FEDERATED_TOKEN_FILE"),
                ]
            );
        }
        _ => panic!("expected the missing-variable listing"),
    }
}

#[test]
fn valid_config_asks_for_a_token_with_the_management_scope() {
    let c = config("client", "tenant", "https://login.example", "/var/run/secrets/token");
    assert!(c.is_valid());
    assert!(c.missing_required().is_empty());
    let (state, logs) = on_environment(&c);
    match state {
        PipelineState::AwaitingToken { scope } => {
            assert_eq!(scope, String::from("https://management.azure.com/.default"));
            assert_eq!(scope, management_scope());
        }
        _ => panic!("expected the token-acquisition state"),
    }
    assert_eq!(warn_count(&logs), 0);
    assert_eq!(error_count(&logs), 0);
}

#[test]
fn failed_token_exchange_issues_no_probe() {
    let (state, logs) = on_token_result(Err(String::from("assertion rejected")));
    assert!(matches!(
        state,
        PipelineState::Done { outcome: Outcome::AuthenticationError }
    ));
    assert_eq!(logs.len(), 1);
    assert_eq!(logs[0].level(), Level::Error);
    match &logs[0] {
        LogMessage::AuthenticationFailed { detail } => {
            assert_eq!(detail, &String::from("assertion rejected"));
        }
        _ => panic!("expected the authentication failure report"),
    }
}

#[test]
fn token_leads_to_the_subscription_probe() {
    let (state, logs) = on_token_result(Ok(String::from("tok-123")));
    match state {
        PipelineState::AwaitingSubscriptions { token } => {
            assert_eq!(token, String::from("tok-123"));
        }
        _ => panic!("expected the subscription-probe state"),
    }
    assert!(matches!(logs[0], LogMessage::Authenticated));
    assert!(matches!(logs[1], LogMessage::RetrievingSubscriptions));
}

#[test]
fn subscriptions_403_is_a_soft_denial_with_exactly_one_warning() {
    let body = "{\"value\": [{\"subscriptionId\": \"sub-1\"}]}";
    let (state, logs) = on_subscriptions_response(String::from("tok"), 403, body);
    assert!(matches!(
        state,
        PipelineState::Done { outcome: Outcome::SoftDenial }
    ));
    assert_eq!(warn_count(&logs), 1);
    assert_eq!(error_count(&logs), 0);
    assert!(matches!(logs[0], LogMessage::SubscriptionsDenied { status: 403 }));
}

#[test]
fn subscriptions_401_is_a_soft_denial_too() {
    let (state, logs) = on_subscriptions_response(String::from("tok"), 401, "");
    assert!(matches!(
        state,
        PipelineState::Done { outcome: Outcome::SoftDenial }
    ));
    assert_eq!(warn_count(&logs), 1);
}

#[test]
fn subscriptions_500_is_a_hard_failure() {
    let (state, logs) = on_subscriptions_response(String::from("tok"), 500, "");
    assert!(matches!(
        state,
        PipelineState::Done { outcome: Outcome::HardFailure }
    ));
    assert!(matches!(logs[0], LogMessage::SubscriptionsFailed { status: 500 }));
    assert_eq!(logs[0].level(), Level::Error);
}

#[test]
fn empty_subscription_list_is_a_hard_failure_distinct_from_denial() {
    let (state, logs) = on_subscriptions_response(String::from("tok"), 200, "{\"value\": []}");
    assert!(matches!(
        state,
        PipelineState::Done { outcome: Outcome::HardFailure }
    ));
    assert_eq!(logs.len(), 1);
    assert!(matches!(logs[0], LogMessage::NoSubscriptions));
    assert_eq!(logs[0].level(), Level::Error);
    assert_eq!(warn_count(&logs), 0);
}

#[test]
fn undecodable_subscription_body_is_a_hard_failure() {
    let (state, logs) = on_subscriptions_response(String::from("tok"), 200, "not json");
    assert!(matches!(
        state,
        PipelineState::Done { outcome: Outcome::HardFailure }
    ));
    assert!(matches!(logs[0], LogMessage::SubscriptionsMalformed));
}

#[test]
fn first_subscription_only_feeds_the_resource_group_probe() {
    let body = "{\"value\": [{\"subscriptionId\": \"sub-1\", \"displayName\": \"Prod\"}, \
                {\"subscriptionId\": \"sub-2\"}]}";
    let (state, logs) = on_subscriptions_response(String::from("tok"), 200, body);
    match state {
        PipelineState::AwaitingResourceGroups { token, subscription_id } => {
            assert_eq!(token, String::from("tok"));
            assert_eq!(subscription_id, String::from("sub-1"));
        }
        _ => panic!("expected the resource-group-probe state"),
    }
    match &logs[0] {
        LogMessage::SubscriptionResolved { subscription_id, display_name } => {
            assert_eq!(subscription_id, &String::from("sub-1"));
            assert_eq!(display_name, &Some(String::from("Prod")));
        }
        _ => panic!("expected the resolved-subscription report"),
    }
    assert!(matches!(logs[1], LogMessage::ListingResourceGroups));
}

#[test]
fn empty_resource_group_list_is_a_success_with_zero_groups() {
    let (state, logs) = on_resource_groups_response(200, "{\"value\": []}");
    assert!(matches!(
        state,
        PipelineState::Done { outcome: Outcome::Success }
    ));
    assert_eq!(logs.len(), 2);
    match &logs[0] {
        LogMessage::ResourceGroupsFound { groups } => assert_eq!(groups.len(), 0),
        _ => panic!("expected the found-groups report"),
    }
    assert!(matches!(logs[1], LogMessage::Completed));
    assert_eq!(warn_count(&logs), 0);
    assert_eq!(error_count(&logs), 0);
}

#[test]
fn resource_groups_denial_warns_but_still_completes() {
    let (state, logs) = on_resource_groups_response(403, "");
    assert!(matches!(
        state,
        PipelineState::Done { outcome: Outcome::SoftDenial }
    ));
    assert_eq!(warn_count(&logs), 1);
    assert!(matches!(logs[0], LogMessage::ResourceGroupsDenied { status: 403 }));
    assert!(matches!(logs[1], LogMessage::Completed));
}

#[test]
fn resource_groups_other_status_is_a_hard_failure() {
    let (state, logs) = on_resource_groups_response(404, "");
    assert!(matches!(
        state,
        PipelineState::Done { outcome: Outcome::HardFailure }
    ));
    assert!(matches!(logs[0], LogMessage::ResourceGroupsFailed { status: 404 }));
}

#[test]
fn undecodable_resource_group_body_is_a_hard_failure() {
    let (state, logs) = on_resource_groups_response(204, "{\"value\": [{}]}");
    assert!(matches!(
        state,
        PipelineState::Done { outcome: Outcome::HardFailure }
    ));
    assert!(matches!(logs[0], LogMessage::ResourceGroupsMalformed));
}

#[test]
fn resource_groups_are_listed_in_response_order() {
    let body = "{\"value\": [{\"name\": \"rg-a\", \"location\": \"eastus\"}, \
                {\"name\": \"rg-b\", \"location\": \"westeurope\"}]}";
    let (state, logs) = on_resource_groups_response(200, body);
    assert!(matches!(
        state,
        PipelineState::Done { outcome: Outcome::Success }
    ));
    match &logs[0] {
        LogMessage::ResourceGroupsFound { groups } => {
            assert_eq!(groups.len(), 2);
            assert_eq!(groups[0].name, String::from("rg-a"));
            assert_eq!(groups[0].location, String::from("eastus"));
            assert_eq!(groups[1].name, String::from("rg-b"));
            assert_eq!(groups[1].location, String::from("westeurope"));
        }
        _ => panic!("expected the found-groups report"),
    }
}

#[test]
fn transport_failure_is_reported_at_error_level() {
    let (state, logs) =
        on_transport_error(ProbeStage::Subscriptions, String::from("connection refused"));
    assert!(matches!(
        state,
        PipelineState::Done { outcome: Outcome::HardFailure }
    ));
    assert_eq!(logs.len(), 1);
    assert_eq!(logs[0].level(), Level::Error);
    match &logs[0] {
        LogMessage::TransportFailed { stage, detail } => {
            assert!(matches!(stage, ProbeStage::Subscriptions));
            assert_eq!(detail, &String::from("connection refused"));
        }
        _ => panic!("expected the transport failure report"),
    }
}
