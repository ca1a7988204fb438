use request_tracing::resource::Attribute;
use request_tracing::resource::Resource;

fn attr(key: &str, value: &str) -> Attribute {
    Attribute { key: key.to_string(), value: value.to_string() }
}

fn has_distinct_keys(resource: &Resource) -> bool {
    let pairs = resource.to_pairs();
    for i in 0..pairs.len() {
        for j in (i + 1)..pairs.len() {
            if pairs[i].0 == pairs[j].0 {
                return false;
            }
        }
    }
    true
}

#[test]
fn empty_resource_holds_nothing() {
    let resource = Resource::empty();
    assert_eq!(resource.len(), 0);
    assert!(!resource.contains("service.name"));
    assert_eq!(resource.get("service.name"), None);
    assert!(resource.to_pairs().is_empty());
}

#[test]
fn merge_adds_what_is_new() {
    let mut resource = Resource::empty();
    resource.merge(&vec![attr("service.name", "shop"), attr("env", "prod")]);
    assert_eq!(resource.len(), 2);
    assert_eq!(resource.get("service.name"), Some("shop".to_string()));
    assert_eq!(resource.get("env"), Some("prod".to_string()));
    assert_eq!(
        resource.to_pairs(),
        vec![
            ("service.name".to_string(), "shop".to_string()),
            ("env".to_string(), "prod".to_string()),
        ]
    );
}

#[test]
fn merge_keeps_what_was_set_before() {
    let mut resource = Resource::empty();
    resource.merge(&vec![attr("service.name", "shop")]);
    resource.merge(&vec![attr("service.name", "unknown_service"), attr("lang", "rust")]);
    assert_eq!(resource.len(), 2);
    assert_eq!(resource.get("service.name"), Some("shop".to_string()));
    assert_eq!(resource.get("lang"), Some("rust".to_string()));
}

#[test]
fn merge_takes_the_first_of_two_equal_keys() {
    let mut resource = Resource::empty();
    resource.merge(&vec![attr("a", "x"), attr("a", "z")]);
    assert_eq!(resource.len(), 1);
    assert_eq!(resource.get("a"), Some("x".to_string()));
}

#[test]
fn merge_of_nothing_changes_nothing() {
    let mut resource = Resource::empty();
    resource.merge(&vec![attr("a", "x")]);
    resource.merge(&Vec::new());
    assert_eq!(resource.to_pairs(), vec![("a".to_string(), "x".to_string())]);
}

#[test]
fn resolve_lets_the_first_provider_decide() {
    let providers = vec![
        vec![attr("service.name", "from_env"), attr("region", "eu")],
        vec![attr("service.name", "unknown_service")],
        vec![attr("telemetry.sdk.name", "opentelemetry"), attr("region", "us")],
    ];
    let resource = Resource::resolve(&providers);
    assert_eq!(resource.len(), 3);
    assert_eq!(resource.get("service.name"), Some("from_env".to_string()));
    assert_eq!(resource.get("region"), Some("eu".to_string()));
    assert_eq!(resource.get("telemetry.sdk.name"), Some("opentelemetry".to_string()));
    assert!(has_distinct_keys(&resource));
}

#[test]
fn provider_that_found_nothing_adds_nothing() {
    let providers = vec![Vec::new(), vec![attr("service.name", "unknown_service")], Vec::new()];
    let resource = Resource::resolve(&providers);
    assert_eq!(
        resource.to_pairs(),
        vec![("service.name".to_string(), "unknown_service".to_string())]
    );
    let none = Resource::resolve(&Vec::new());
    assert_eq!(none.len(), 0);
}

#[test]
fn detected_resource_names_service_and_sdk() {
    let resource = Resource::detect(5);
    assert!(resource.contains("service.name"));
    assert!(resource.contains("telemetry.sdk.name"));
    assert!(resource.contains("telemetry.sdk.language"));
    assert!(resource.contains("telemetry.sdk.version"));
    assert!(resource.len() >= 4);
    assert!(has_distinct_keys(&resource));
}

#[test]
fn detection_gives_the_same_resource_each_time() {
    let mut first = Resource::detect(5).to_pairs();
    let mut second = Resource::detect(0).to_pairs();
    first.sort();
    second.sort();
    assert_eq!(first, second);
}
