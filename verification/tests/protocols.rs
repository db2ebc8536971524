use pagoda_runtime::protocols::{
    parse_portname_segments, PortNameId, DEFAULT_COMPONENT, DEFAULT_ENDPOINT, DEFAULT_NAMESPACE,
    ENDPOINT_SCHEME,
};
use std::str::FromStr;

#[test]
fn test_valid_portname_from() {
    let input = "namespace1/servicegroup1/portname1";
    let portname = PortNameId::from(input);

    assert_eq!(portname.namespace, "namespace1");
    assert_eq!(portname.servicegroup, "servicegroup1");
    assert_eq!(portname.name, "portname1");
}

#[test]
fn test_valid_portname_from_str() {
    let input = "namespace2/servicegroup2/portname2";
    let portname = PortNameId::from_str(input).unwrap();

    assert_eq!(portname.namespace, "namespace2");
    assert_eq!(portname.servicegroup, "servicegroup2");
    assert_eq!(portname.name, "portname2");
}

#[test]
fn test_valid_portname_parse() {
    let input = "namespace3/servicegroup3/portname3";
    let portname: PortNameId = input.parse().unwrap();

    assert_eq!(portname.namespace, "namespace3");
    assert_eq!(portname.servicegroup, "servicegroup3");
    assert_eq!(portname.name, "portname3");
}

#[test]
fn test_portname_from() {
    let result = PortNameId::from("servicegroup");
    assert_eq!(
        result,
        vec![DEFAULT_NAMESPACE, "servicegroup", DEFAULT_ENDPOINT]
    );
}

#[test]
fn test_namespace_servicegroup_portname() {
    let result = PortNameId::from("namespace.servicegroup.portname");
    assert_eq!(result, vec!["namespace", "servicegroup", "portname"]);
}

#[test]
fn test_forward_slash_separator() {
    let result = PortNameId::from("namespace/servicegroup");
    assert_eq!(result, vec!["namespace", "servicegroup", DEFAULT_ENDPOINT]);
}

#[test]
fn test_multiple_parts() {
    let result = PortNameId::from("namespace.servicegroup.portname.other.parts");
    assert_eq!(
        result,
        vec!["namespace", "servicegroup", "portname_other_parts"]
    );
}

#[test]
fn test_mixed_separators() {
    let result: PortNameId = "namespace/servicegroup.portname".into();
    assert_eq!(result, vec!["namespace", "servicegroup", "portname"]);
}

#[test]
fn test_empty_string() {
    let result = PortNameId::from("");
    assert_eq!(
        result,
        vec![DEFAULT_NAMESPACE, DEFAULT_COMPONENT, DEFAULT_ENDPOINT]
    );

    let result = PortNameId::from("   ");
    assert_eq!(
        result,
        vec![DEFAULT_NAMESPACE, DEFAULT_COMPONENT, DEFAULT_ENDPOINT]
    );
}

#[test]
fn test_parse_with_scheme_and_url_roundtrip() {
    let input = "pgd://ns/sg/pn";
    let portname: PortNameId = input.parse().unwrap();
    assert_eq!(portname, vec!["ns", "sg", "pn"]);
    assert_eq!(portname.as_url(), "pgd://ns.sg.pn");
}

#[test]
fn test_default_portname_id_values() {
    let portname = PortNameId::default();

    assert_eq!(portname.namespace, DEFAULT_NAMESPACE);
    assert_eq!(portname.servicegroup, DEFAULT_COMPONENT);
    assert_eq!(portname.name, DEFAULT_ENDPOINT);
}

#[test]
fn test_display_formats_three_part_path() {
    let portname = PortNameId {
        namespace: "ns".to_string(),
        servicegroup: "worker".to_string(),
        name: "generate".to_string(),
    };

    assert_eq!(portname.to_string(), "ns/worker/generate");
}

#[test]
fn test_partial_eq_vec_rejects_wrong_arity() {
    let portname = PortNameId::from("ns/servicegroup/name");

    assert_ne!(portname, vec!["ns", "servicegroup"]);
}

#[test]
fn test_from_trims_prefix_and_collapses_extra_parts() {
    let portname = PortNameId::from("pgd://ns/servicegroup/name/extra.parts");

    assert_eq!(portname, vec!["ns", "servicegroup", "name_extra_parts"]);
}

#[test]
fn defaults_and_scheme_are_literal() {
    assert_eq!(DEFAULT_NAMESPACE, "NS");
    assert_eq!(DEFAULT_COMPONENT, "C");
    assert_eq!(DEFAULT_ENDPOINT, "E");
    assert_eq!(ENDPOINT_SCHEME, "pgd://");
}

#[test]
fn segments_drop_margins_and_empties() {
    assert_eq!(
        parse_portname_segments(" /./a//b ./c. "),
        vec!["a".to_string(), "b ".to_string(), "c".to_string()]
    );
    assert!(parse_portname_segments("pgd://").is_empty());
    assert_eq!(
        parse_portname_segments("pgd:/a"),
        vec!["pgd:".to_string(), "a".to_string()]
    );
    assert_eq!(
        parse_portname_segments("x pgd://a"),
        vec!["x pgd:".to_string(), "a".to_string()]
    );
}

#[test]
fn white_space_at_the_ends_goes_away() {
    assert_eq!(PortNameId::from("\tns.sg.pn\n"), vec!["ns", "sg", "pn"]);
    assert_eq!(PortNameId::from("pgd://\r\n/ns/sg\u{3000}.\u{a0}"), vec!["ns", "sg", "E"]);
    assert_eq!(PortNameId::from("\t \n"), PortNameId::default());
    assert_eq!(PortNameId::from(" a\tb "), vec!["NS", "a\tb", "E"]);
}

#[test]
fn written_identifiers_read_back() {
    let id = PortNameId {
        namespace: "näm e".to_string(),
        servicegroup: " group ".to_string(),
        name: "x-y_z".to_string(),
    };
    assert_eq!(PortNameId::from(id.as_url().as_str()), id);
    assert_eq!(PortNameId::from(id.to_string().as_str()), id);
    assert_eq!(id.clone(), id);
}

#[test]
fn equality_with_arrays_goes_both_ways() {
    let id = PortNameId::from("a.b.c");
    assert!(id == ["a", "b", "c"]);
    assert!(["a", "b", "c"] == id);
    assert!(vec!["a", "b", "c"] == id);
    assert!(id != ["a", "b", "d"]);
    assert!(id != ["a", "x", "c"]);
    assert!(id != ["x", "b", "c"]);
    assert!(id != vec!["a", "b", "c", "d"]);
}
