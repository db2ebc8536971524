use pagoda_runtime::servicegroup::service::{
    build_nats_service, describe, resolve_service_description, PROJECT_NAME, SERVICE_VERSION,
};
use pagoda_runtime::servicegroup::{Namespace, ServiceGroup};
use std::sync::Arc;

fn group(namespace: &str, name: &str) -> ServiceGroup {
    let ns = Arc::new(Namespace::new(namespace.to_string()).unwrap());
    ns.service_group(name).unwrap()
}

#[test]
fn project_name_constant_is_stable() {
    assert_eq!(PROJECT_NAME, "Pagoda");
}

#[test]
fn service_version_is_meaningful() {
    assert!(!SERVICE_VERSION.is_empty());
    assert_ne!(SERVICE_VERSION, "0.0.0");
}

#[test]
fn default_description_template_shape() {
    let s = describe("foo", "bar");
    assert_eq!(s, "Pagoda servicegroup foo in namespace bar");
}

#[test]
fn override_description_takes_precedence() {
    let override_desc: Option<String> = Some("a custom description".to_string());

    let resolved = resolve_service_description(&group("bar", "foo"), override_desc);
    assert_eq!(resolved, "a custom description");
}

#[test]
fn none_description_falls_back_to_default_template() {
    let override_desc: Option<String> = None;
    let resolved = resolve_service_description(&group("beta", "alpha"), override_desc);
    assert_eq!(resolved, "Pagoda servicegroup alpha in namespace beta");
}

#[test]
fn default_description_handles_empty_fields() {
    let s = describe("", "");
    assert_eq!(s, "Pagoda servicegroup  in namespace ");
}

#[test]
fn default_description_field_ordering() {
    let s = describe("X", "Y");
    let comp_pos = s.find("servicegroup").unwrap();
    let ns_pos = s.find("namespace").unwrap();
    assert!(comp_pos < ns_pos);
}

#[test]
fn registration_uses_the_slug_of_the_path() {
    let outer = Arc::new(Namespace::new("outer".to_string()).unwrap());
    let inner = Arc::new(outer.namespace("In ner").unwrap());
    let group = inner.service_group("workers").unwrap();
    let service = build_nats_service(&group, None);
    assert_eq!(service.name, "outer_in_ner_workers");
    assert_eq!(
        service.description,
        "Pagoda servicegroup workers in namespace In ner"
    );
    assert_eq!(service.version, SERVICE_VERSION);
}
