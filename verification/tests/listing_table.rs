use oabctl::command::{check_resource, CommandError};
use oabctl::listing::{
    is_oab_service_arn, plan_listing, resolve_service_name, select_oab_services, service_batches,
    service_row, split_service_name, table_header, ListingTarget, ServiceListing, ServiceSummary,
};
use oabctl::manifest::service_name;
use oabctl::teardown::plan_delete;

fn strings(v: &[&str]) -> Vec<String> {
    v.iter().map(|s| s.to_string()).collect()
}

#[test]
fn unknown_resource_is_refused() {
    assert!(check_resource("oabservice").is_ok());
    match check_resource("pods") {
        Err(e) => {
            assert!(matches!(e, CommandError::UnknownResource(ref t) if t == "pods"));
            assert_eq!(e.message(), "unknown resource type: pods. Use 'oabservice'");
        }
        Ok(()) => panic!("pods accepted"),
    }
    assert!(plan_listing("services", None).is_err());
    assert!(plan_delete("services", "a", "prod").is_err());
}

#[test]
fn no_manifests_message() {
    assert_eq!(CommandError::NoManifests("agents/".to_string()).message(), "no manifests found at agents/");
}

#[test]
fn names_resolve_to_services() {
    assert_eq!(resolve_service_name("kiro-01"), "oab-prod-kiro-01");
    assert_eq!(resolve_service_name("oab-dev-kiro-01"), "oab-dev-kiro-01");
    assert_eq!(resolve_service_name("kiro-01"), service_name("prod", "kiro-01"));
    assert!(matches!(plan_listing("oabservice", Some("cc-01")), Ok(ListingTarget::Named(ref s)) if s == "oab-prod-cc-01"));
    assert!(matches!(plan_listing("oabservice", None), Ok(ListingTarget::All)));
}

#[test]
fn managed_arns_are_selected_in_order() {
    let arns = strings(&[
        "arn:aws:ecs:us-east-1:1:service/default/oab-prod-a",
        "arn:aws:ecs:us-east-1:1:service/default/web",
        "arn:aws:ecs:us-east-1:1:service/default/oab-dev-b",
    ]);
    assert!(is_oab_service_arn(&arns[0]));
    assert!(!is_oab_service_arn(&arns[1]));
    assert_eq!(select_oab_services(&arns), vec![arns[0].clone(), arns[2].clone()]);
}

#[test]
fn pages_accumulate() {
    let mut listing = ServiceListing::new();
    let page1 = strings(&["x/oab-prod-a", "x/other"]);
    let page2 = strings(&["x/oab-prod-b"]);
    assert!(listing.absorb_page(&page1, &Some("token".to_string())));
    assert!(!listing.absorb_page(&page2, &None));
    assert_eq!(listing.found, strings(&["x/oab-prod-a", "x/oab-prod-b"]));
    let mut all = page1.clone();
    all.extend(page2.clone());
    assert_eq!(listing.found, select_oab_services(&all));
}

#[test]
fn batches_of_ten() {
    let services: Vec<String> = (0..23).map(|i| format!("oab-prod-{}", i)).collect();
    let batches = service_batches(&services);
    assert_eq!(batches.len(), 3);
    assert_eq!(batches[0].len(), 10);
    assert_eq!(batches[1].len(), 10);
    assert_eq!(batches[2].len(), 3);
    assert_eq!(batches.concat(), services);
    assert_eq!(service_batches(&vec![]).len(), 0);
    let ten: Vec<String> = (0..10).map(|i| i.to_string()).collect();
    assert_eq!(service_batches(&ten).len(), 1);
}

#[test]
fn service_names_split_at_first_two_dashes() {
    assert_eq!(split_service_name("oab-prod-kiro-01"), ("prod".to_string(), "kiro-01".to_string()));
    assert_eq!(split_service_name("oab-prod"), ("?".to_string(), "oab-prod".to_string()));
    assert_eq!(split_service_name("web"), ("?".to_string(), "web".to_string()));
    assert_eq!(split_service_name("-"), ("?".to_string(), "-".to_string()));
    assert_eq!(split_service_name("a--"), ("".to_string(), "".to_string()));
}

#[test]
fn round_trip_of_service_names() {
    let s = service_name("staging", "cc-02-x");
    assert_eq!(split_service_name(&s), ("staging".to_string(), "cc-02-x".to_string()));
}

#[test]
fn header_and_rows() {
    assert_eq!(
        table_header(),
        format!("{:<12} {:<10} {:<5} {:<6} {:<14} {:<6} {}", "NAME", "NAMESPACE", "CPU", "MEM", "CAPACITY", "TASKS", "STATUS")
    );
    let s = ServiceSummary {
        service_name: Some("oab-prod-kiro-01".to_string()),
        status: Some("ACTIVE".to_string()),
        running_count: 1,
        desired_count: 1,
        cpu: Some("256".to_string()),
        memory: Some("512".to_string()),
        capacity_provider: Some("FARGATE_SPOT".to_string()),
    };
    assert_eq!(
        service_row(&s),
        format!("{:<12} {:<10} {:<5} {:<6} {:<14} {}/{:<3} {}", "kiro-01", "prod", "256", "512", "FARGATE_SPOT", 1, 1, "ACTIVE")
    );
}

#[test]
fn row_defaults() {
    let s = ServiceSummary {
        service_name: None,
        status: None,
        running_count: 0,
        desired_count: -1,
        cpu: None,
        memory: None,
        capacity_provider: None,
    };
    assert_eq!(
        service_row(&s),
        format!("{:<12} {:<10} {:<5} {:<6} {:<14} {}/{:<3} {}", "-", "?", "-", "-", "FARGATE", 0, -1, "UNKNOWN")
    );
}

#[test]
fn round_trip_needs_a_namespace_without_dashes() {
    let s = service_name("a-b", "c");
    assert_eq!(split_service_name(&s), ("a".to_string(), "b-c".to_string()));
}
