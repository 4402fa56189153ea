use aks_wi_env_check::classify::{
    classify_status, list_resource_groups_outcome, list_subscriptions_outcome,
    ResourceGroupsOutcome, StatusClass, SubscriptionsOutcome,
};
use aks_wi_env_check::entities::{ResourceGroup, Subscription};
use aks_wi_env_check::json::{parse_resource_groups_body, parse_subscriptions_body};

fn render_subscriptions(entries: &[(&str, Option<&str>)]) -> String {
    let mut body = String::from("{\"value\":[");
    for (i, (id, dn)) in entries.iter().enumerate() {
        if i > 0 {
            body.push(',');
        }
        body.push_str("{\"subscriptionId\":\"");
        body.push_str(id);
        body.push('"');
        if let Some(dn) = dn {
            body.push_str(",\"displayName\":\"");
            body.push_str(dn);
            body.push('"');
        }
        body.push('}');
    }
    body.push_str("]}");
    body
}

fn render_resource_groups(entries: &[(&str, &str)]) -> String {
    let mut body = String::from("{\"value\":[");
    for (i, (name, location)) in entries.iter().enumerate() {
        if i > 0 {
            body.push(',');
        }
        body.push_str("{\"name\":\"");
        body.push_str(name);
        body.push_str("\",\"location\":\"");
        body.push_str(location);
        body.push_str("\"}");
    }
    body.push_str("]}");
    body
}

#[test]
fn parses_a_two_entry_subscription_body() {
    let body = "{\"value\": [{\"subscriptionId\": \"sub-1\", \"displayName\": \"Prod\"}, \
                {\"subscriptionId\": \"sub-2\"}]}";
    let parsed: Vec<Subscription> = parse_subscriptions_body(body).expect("body is valid");
    assert_eq!(parsed.len(), 2);
    assert_eq!(parsed[0].subscription_id, String::from("sub-1"));
    assert_eq!(parsed[0].display_name, Some(String::from("Prod")));
    assert_eq!(parsed[1].subscription_id, String::from("sub-2"));
    assert_eq!(parsed[1].display_name, None);
}

#[test]
fn parses_an_empty_subscription_list() {
    let parsed = parse_subscriptions_body("{\"value\": []}").expect("body is valid");
    assert!(parsed.is_empty());
    let parsed = parse_subscriptions_body("  { \"value\" : [ ] }  ").expect("body is valid");
    assert!(parsed.is_empty());
}

#[test]
fn whitespace_between_tokens_is_insignificant() {
    let body = "\n{\t\"value\" :\r\n [ { \"subscriptionId\" : \"s\" } ] }\n";
    let parsed = parse_subscriptions_body(body).expect("body is valid");
    assert_eq!(parsed.len(), 1);
    assert_eq!(parsed[0].subscription_id, String::from("s"));
}

#[test]
fn subscription_round_trip_preserves_order_and_count() {
    let entries: &[(&str, Option<&str>)] = &[
        ("sub-1", Some("Prod")),
        ("sub-2", None),
        ("sub-3", Some("Dev and Test")),
    ];
    let body = render_subscriptions(entries);
    let parsed = parse_subscriptions_body(&body).expect("rendered body is valid");
    assert_eq!(parsed.len(), entries.len());
    for (got, (id, dn)) in parsed.iter().zip(entries.iter()) {
        assert_eq!(got.subscription_id, String::from(*id));
        assert_eq!(got.display_name, dn.map(String::from));
    }
}

#[test]
fn resource_group_round_trip_preserves_order_and_count() {
    let entries: &[(&str, &str)] = &[
        ("rg-a", "eastus"),
        ("rg-b", "westeurope"),
        ("rg-c", "southeastasia"),
        ("rg-d", "eastus2"),
    ];
    let body = render_resource_groups(entries);
    let parsed: Vec<ResourceGroup> =
        parse_resource_groups_body(&body).expect("rendered body is valid");
    assert_eq!(parsed.len(), entries.len());
    for (got, (name, location)) in parsed.iter().zip(entries.iter()) {
        assert_eq!(got.name, String::from(*name));
        assert_eq!(got.location, String::from(*location));
    }
}

#[test]
fn rejects_bodies_outside_the_grammar() {
    assert!(parse_subscriptions_body("").is_none());
    assert!(parse_subscriptions_body("not json").is_none());
    assert!(parse_subscriptions_body("{}").is_none());
    assert!(parse_subscriptions_body("{\"value\": }").is_none());
    assert!(parse_subscriptions_body("{\"value\": [}").is_none());
    assert!(parse_subscriptions_body("{\"value\": [{}]}").is_none());
    assert!(parse_subscriptions_body("{\"value\": []} trailing").is_none());
    assert!(parse_subscriptions_body("{\"value\": [{\"subscriptionId\": \"a\"}]").is_none());
    assert!(parse_resource_groups_body("{\"value\": [{\"name\": \"a\"}]}").is_none());
    assert!(parse_resource_groups_body("{\"count\": 2}").is_none());
}

#[test]
fn members_may_come_in_any_order() {
    let body = "{\"value\":[{\"displayName\":\"Prod\",\"subscriptionId\":\"sub-1\"}]}";
    let parsed = parse_subscriptions_body(body).expect("reordered members are valid");
    assert_eq!(parsed.len(), 1);
    assert_eq!(parsed[0].subscription_id, String::from("sub-1"));
    assert_eq!(parsed[0].display_name, Some(String::from("Prod")));

    let body = "{\"value\":[{\"location\":\"eastus\",\"name\":\"rg-a\"}]}";
    let parsed = parse_resource_groups_body(body).expect("reordered members are valid");
    assert_eq!(parsed.len(), 1);
    assert_eq!(parsed[0].name, String::from("rg-a"));
    assert_eq!(parsed[0].location, String::from("eastus"));
}

#[test]
fn unknown_members_are_skipped() {
    let body = "{\"count\": 12, \"value\": [{\"id\": \"/subscriptions/x\", \
                \"subscriptionId\": \"sub-1\", \"state\": \"Enabled\", \
                \"subscriptionPolicies\": {\"quotaId\": \"q\", \"tags\": [1, 2, {\"a\": []}]}, \
                \"displayName\": \"Prod\"}], \"nextLink\": null}";
    let parsed = parse_subscriptions_body(body).expect("unknown members are skipped");
    assert_eq!(parsed.len(), 1);
    assert_eq!(parsed[0].subscription_id, String::from("sub-1"));
    assert_eq!(parsed[0].display_name, Some(String::from("Prod")));

    let body = "{\"value\":[{\"id\": \"/x\", \"name\": \"rg-a\", \
                \"properties\": {\"provisioningState\": \"Succeeded\"}, \
                \"location\": \"eastus\", \"tags\": {\"env\": \"p,}]rod\"}}]}";
    let parsed = parse_resource_groups_body(body).expect("unknown members are skipped");
    assert_eq!(parsed.len(), 1);
    assert_eq!(parsed[0].name, String::from("rg-a"));
    assert_eq!(parsed[0].location, String::from("eastus"));
}

#[test]
fn null_display_name_reads_as_absent() {
    let body = "{\"value\":[{\"subscriptionId\":\"sub-1\",\"displayName\":null}]}";
    let parsed = parse_subscriptions_body(body).expect("null display name is valid");
    assert_eq!(parsed[0].display_name, None);
}

#[test]
fn repeated_or_missing_named_members_are_rejected() {
    let dup = "{\"value\":[{\"subscriptionId\":\"a\",\"subscriptionId\":\"b\"}]}";
    assert!(parse_subscriptions_body(dup).is_none());
    let missing = "{\"value\":[{\"displayName\":\"Prod\"}]}";
    assert!(parse_subscriptions_body(missing).is_none());
    let wrong_shape = "{\"value\":[{\"subscriptionId\":17}]}";
    assert!(parse_subscriptions_body(wrong_shape).is_none());
    let dup_value = "{\"value\":[],\"value\":[]}";
    assert!(parse_subscriptions_body(dup_value).is_none());
}

#[test]
fn decodes_escape_sequences_in_strings() {
    let body = "{\"value\": [{\"subscriptionId\": \"a\\\"b\\\\c\", \
                \"displayName\": \"line\\nbreak\\t\\/\"}]}";
    let parsed = parse_subscriptions_body(body).expect("escapes decode");
    assert_eq!(parsed[0].subscription_id, String::from("a\"b\\c"));
    assert_eq!(parsed[0].display_name, Some(String::from("line\nbreak\t/")));
}

#[test]
fn unicode_escapes_are_not_decoded() {
    let body = "{\"value\": [{\"subscriptionId\": \"a\\u0041\"}]}";
    assert!(parse_subscriptions_body(body).is_none());
}

#[test]
fn classifies_statuses_three_ways() {
    assert_eq!(classify_status(200), StatusClass::Success);
    assert_eq!(classify_status(204), StatusClass::Success);
    assert_eq!(classify_status(299), StatusClass::Success);
    assert_eq!(classify_status(401), StatusClass::SoftDenial);
    assert_eq!(classify_status(403), StatusClass::SoftDenial);
    assert_eq!(classify_status(300), StatusClass::HardFailure);
    assert_eq!(classify_status(400), StatusClass::HardFailure);
    assert_eq!(classify_status(404), StatusClass::HardFailure);
    assert_eq!(classify_status(500), StatusClass::HardFailure);
    assert_eq!(classify_status(199), StatusClass::HardFailure);
}

#[test]
fn subscription_outcomes_cover_every_branch() {
    assert!(matches!(
        list_subscriptions_outcome(403, ""),
        SubscriptionsOutcome::Denied { status: 403 }
    ));
    assert!(matches!(
        list_subscriptions_outcome(502, ""),
        SubscriptionsOutcome::FailedStatus { status: 502 }
    ));
    assert!(matches!(
        list_subscriptions_outcome(200, "garbage"),
        SubscriptionsOutcome::Malformed
    ));
    assert!(matches!(
        list_subscriptions_outcome(200, "{\"value\":[]}"),
        SubscriptionsOutcome::NoSubscriptions
    ));
    match list_subscriptions_outcome(200, "{\"value\":[{\"subscriptionId\":\"one\"}]}") {
        SubscriptionsOutcome::Resolved { subscription } => {
            assert_eq!(subscription.subscription_id, String::from("one"));
        }
        _ => panic!("expected the resolved outcome"),
    }
}

#[test]
fn resource_group_outcomes_cover_every_branch() {
    assert!(matches!(
        list_resource_groups_outcome(401, ""),
        ResourceGroupsOutcome::Denied { status: 401 }
    ));
    assert!(matches!(
        list_resource_groups_outcome(503, ""),
        ResourceGroupsOutcome::FailedStatus { status: 503 }
    ));
    assert!(matches!(
        list_resource_groups_outcome(200, "[]"),
        ResourceGroupsOutcome::Malformed
    ));
    match list_resource_groups_outcome(200, "{\"value\":[{\"name\":\"rg\",\"location\":\"eastus\"}]}")
    {
        ResourceGroupsOutcome::Listed { groups } => {
            assert_eq!(groups.len(), 1);
            assert_eq!(groups[0].name, String::from("rg"));
        }
        _ => panic!("expected the listed outcome"),
    }
}
