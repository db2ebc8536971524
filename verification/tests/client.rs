use pagoda_runtime::dict::Dict;
use pagoda_runtime::discovery::{
    DiscoveryEvent, DiscoveryInstance, DiscoveryInstanceId, DiscoveryQuery, PortNameInstanceId,
};
use pagoda_runtime::servicegroup::client::{
    get_or_create_shared, Client, DiscoveryWatcher, PortNameDiscoverySource,
    RoutingOccupancyState, WatchInput, WatchStep, DEFAULT_RECONCILE_INTERVAL_SECS,
};
use pagoda_runtime::servicegroup::registry::Registry;
use pagoda_runtime::servicegroup::{
    Instance, Namespace, PortName, ServiceGroup, TransportType,
};
use std::sync::Arc;

fn instance(id: u64, transport: &str) -> Instance {
    Instance {
        namespace: "ns".to_string(),
        servicegroup: "comp".to_string(),
        portname: "ep".to_string(),
        instance_id: id,
        transport: TransportType::Nats(transport.to_string()),
        device_type: None,
        topo_json: serde_json::Value::Null,
    }
}

fn instances(ids: &[u64]) -> Vec<Arc<Instance>> {
    ids.iter().map(|id| Arc::new(instance(*id, "t"))).collect()
}

fn id(instance_id: u64) -> PortNameInstanceId {
    PortNameInstanceId {
        namespace: "ns".to_string(),
        servicegroup: "comp".to_string(),
        portname: "ep".to_string(),
        instance_id,
    }
}

#[test]
fn test_occupancy_basic_operations() {
    let mut state = RoutingOccupancyState::default();
    assert_eq!(state.load(1), 0);
    state.increment(1);
    assert_eq!(state.load(1), 1);
    state.increment(1);
    assert_eq!(state.load(1), 2);
    state.decrement(1);
    assert_eq!(state.load(1), 1);
    state.decrement(1);
    state.decrement(1);
    assert_eq!(state.load(1), 0);
    state.decrement(2);
    assert_eq!(state.load(2), 0);
}

#[test]
fn test_occupancy_retain() {
    let mut state = RoutingOccupancyState::default();
    state.increment(10);
    state.increment(20);
    state.increment(30);

    state.retain(&vec![10, 30]);

    assert_eq!(state.load(10), 1);
    assert_eq!(state.load(20), 0);
    assert_eq!(state.load(30), 1);
}

#[test]
fn test_select_exact_min_and_increment_balances() {
    let mut state = RoutingOccupancyState::default();
    let ids = vec![100u64, 200, 300];
    for _ in 0..90 {
        assert!(state.select_exact_min_and_increment(&ids).is_some());
    }
    assert_eq!(state.load(100), 30);
    assert_eq!(state.load(200), 30);
    assert_eq!(state.load(300), 30);
}

#[test]
fn test_select_exact_min_empty_list() {
    let mut state = RoutingOccupancyState::default();
    let result = state.select_exact_min_and_increment(&vec![]);
    assert!(result.is_none());
}

#[test]
fn first_of_the_least_loaded_is_selected() {
    let mut state = RoutingOccupancyState::default();
    state.increment(1);
    assert_eq!(state.select_exact_min_and_increment(&vec![1, 3, 2]), Some(3));
    assert_eq!(state.select_exact_min_and_increment(&vec![1, 3, 2]), Some(2));
    assert_eq!(state.select_exact_min_and_increment(&vec![1, 3, 2]), Some(1));
}

#[test]
fn test_report_instance_down() {
    let mut client = Client::new(instances(&[1, 2, 3]));
    let notice = client.report_instance_down(2);
    assert!(client.instance_ids_avail().contains(&1));
    assert!(!client.instance_ids_avail().contains(&2));
    assert!(client.instance_ids_avail().contains(&3));
    assert_eq!(notice, vec![1, 3]);
    assert_eq!(client.instance_ids_free(), &vec![1, 2, 3]);
}

#[test]
fn test_instance_reconciliation_restores_avail() {
    let mut client = Client::new(instances(&[1, 2]));
    client.report_instance_down(1);
    let notice = client.monitor_instance_source(instances(&[1, 2]), None);
    assert_eq!(client.instance_ids_avail(), &vec![1, 2]);
    assert_eq!(notice, vec![1, 2]);
    assert_eq!(DEFAULT_RECONCILE_INTERVAL_SECS, 5);
}

#[test]
fn test_update_free_instances() {
    let mut client = Client::new(instances(&[1, 2, 3]));
    client.report_instance_down(3);
    client.update_free_instances(&vec![2]);
    assert_eq!(client.instance_ids_free(), &vec![1, 3]);
    assert_eq!(client.instance_ids_avail(), &vec![1, 2]);
    assert_eq!(client.instance_ids(), vec![1, 2, 3]);
    assert_eq!(client.instances().len(), 3);
}

#[test]
fn test_monitor_cleans_occupancy_on_instance_removal() {
    let mut state = RoutingOccupancyState::default();
    state.increment(1);
    state.increment(2);
    let mut client = Client::new(instances(&[1, 2]));
    client.monitor_instance_source(instances(&[2]), Some(&mut state));
    assert_eq!(state.load(1), 0);
    assert_eq!(state.load(2), 1);
    assert_eq!(client.instance_ids_free(), &vec![2]);
}

#[test]
fn test_get_or_create_occupancy_state_shared() {
    let mut registry: Dict<String, u8> = Dict::new();
    let key = || "ns/comp/ep".to_string();
    let a = get_or_create_shared(&mut registry, key(), None, Arc::new(1), 10);
    let b = get_or_create_shared(&mut registry, key(), Some(a.clone()), Arc::new(2), 20);
    assert!(Arc::ptr_eq(&a, &b));
    assert_eq!(registry.get(&key()), Some(&10));
    let c = get_or_create_shared(&mut registry, key(), None, Arc::new(3), 30);
    assert_eq!(*c, 3);
    assert_eq!(registry.get(&key()), Some(&30));
    assert_eq!(registry.len(), 1);
}

#[test]
fn waiting_ends_with_instances_or_an_error() {
    assert!(Client::wait_for_instances(vec![], None).is_none());
    assert_eq!(
        Client::wait_for_instances(vec![], Some("gone".to_string())).unwrap().unwrap_err(),
        "gone"
    );
    assert_eq!(Client::wait_for_instances(instances(&[4]), None).unwrap().unwrap().len(), 1);
}

fn published(step: WatchStep) -> Vec<u64> {
    match step {
        WatchStep::Publish { instances: list, .. } => {
            let mut ids: Vec<u64> = list.iter().map(|i| i.id()).collect();
            ids.sort();
            ids
        }
        WatchStep::Finish => panic!("expected instances"),
    }
}

fn added(id: u64, transport: &str) -> WatchInput {
    WatchInput::Event(DiscoveryEvent::Added(DiscoveryInstance::PortName(instance(id, transport))))
}

#[test]
fn watcher_passes_every_event_on_as_it_came() {
    let mut watcher = DiscoveryWatcher::new();
    let topo = serde_json::Value::from("rack");
    let mut first = instance(1, "a");
    first.topo_json = topo.clone();
    let event = DiscoveryEvent::Added(DiscoveryInstance::PortName(first));
    match watcher.step(WatchInput::Event(event)) {
        WatchStep::Publish {
            broadcast: DiscoveryEvent::Added(DiscoveryInstance::PortName(told)),
            instances,
        } => {
            assert_eq!(told.id(), 1);
            assert_eq!(told.transport, TransportType::Nats("a".to_string()));
            assert_eq!(told.topo_json, topo);
            assert_eq!(instances[0].topo_json, topo);
        }
        _ => panic!("expected the event"),
    }
    let model = DiscoveryEvent::Removed(DiscoveryInstanceId::Model("m".to_string()));
    match watcher.step(WatchInput::Event(model)) {
        WatchStep::Publish {
            broadcast: DiscoveryEvent::Removed(DiscoveryInstanceId::Model(name)),
            ..
        } => assert_eq!(name, "m"),
        _ => panic!("expected the event"),
    }
}

#[test]
fn watcher_follows_discovery() {
    let mut watcher = DiscoveryWatcher::new();
    assert_eq!(published(watcher.step(added(1, "a"))), vec![1]);
    assert_eq!(published(watcher.step(added(2, "b"))), vec![1, 2]);
    match watcher.step(added(1, "c")) {
        WatchStep::Publish { instances: list, .. } => {
            assert_eq!(list.len(), 2);
            assert!(list.iter().any(|i| i.transport == TransportType::Nats("c".to_string())));
            assert!(!list.iter().any(|i| i.transport == TransportType::Nats("a".to_string())));
        }
        WatchStep::Finish => panic!("expected instances"),
    }
    let other = DiscoveryEvent::Added(DiscoveryInstance::Model("m".to_string()));
    assert_eq!(published(watcher.step(WatchInput::Event(other))), vec![1, 2]);
    let gone = DiscoveryEvent::Removed(DiscoveryInstanceId::PortName(id(1)));
    assert_eq!(published(watcher.step(WatchInput::Event(gone))), vec![2]);
    let model = DiscoveryEvent::Removed(DiscoveryInstanceId::Model("m".to_string()));
    assert_eq!(published(watcher.step(WatchInput::Event(model))), vec![2]);
    assert!(matches!(watcher.step(WatchInput::Failed("x".to_string())), WatchStep::Finish));
    assert!(matches!(watcher.step(WatchInput::Unheard), WatchStep::Finish));
    assert!(matches!(watcher.step(WatchInput::Ended), WatchStep::Finish));
}

#[test]
fn subscribers_that_cannot_be_reached_are_dropped() {
    let mut source = PortNameDiscoverySource::new();
    source.subscribe_events("a");
    source.subscribe_events("b");
    source.subscribe_events("c");
    source.broadcast_event(&vec![true, false, true]);
    assert_eq!(source.subscribers(), &vec!["a", "c"]);
}

fn group() -> Arc<ServiceGroup> {
    let outer = Arc::new(Namespace::new("outer".to_string()).unwrap());
    let inner = Arc::new(outer.namespace("inner").unwrap());
    Arc::new(inner.service_group("comp").unwrap())
}

#[test]
fn names_go_through_the_namespaces() {
    let group = group();
    assert_eq!(group.namespace().name(), "outer.inner");
    assert_eq!(group.namespace().to_string(), "inner");
    assert_eq!(group.namespace().basename(), "inner");
    assert_eq!(group.namespace().parent_hierarchies(), vec!["outer".to_string()]);
    assert_eq!(
        group.parent_hierarchies(),
        vec!["outer".to_string(), "inner".to_string()]
    );
    assert_eq!(group.name(), "comp");
    assert_eq!(group.basename(), "comp");
    assert_eq!(group.to_string(), "outer.inner.comp");
    assert_eq!(group.service_name(), "outer_inner_comp");
    assert!(group.labels().is_empty());
    let ep: PortName = group.portname("ep");
    assert_eq!(ep.id().to_string(), "outer.inner/comp/ep");
    assert_eq!(ep.servicegroup().name(), "comp");
    assert!(ep == group.portname("ep"));
    assert!(ep != group.portname("other"));
    assert!(*group == *self::group());
}

#[test]
fn names_are_checked() {
    let error = Namespace::new("Bad Name".to_string()).err().unwrap();
    assert!(error.starts_with("Invalid namespace name: "));
    assert!(error.contains("invalid_characters"));
    assert!(error.contains("Bad Name"));
    assert_eq!(
        error,
        "Invalid namespace name: name: Validation error: invalid_characters \
         [{\"value\": String(\"Bad Name\")}]"
    );
    let quoted = Namespace::new("a\"\n".to_string()).err().unwrap();
    assert!(quoted.ends_with(r#"[{"value": String("a\"\n")}]"#));
    assert!(Namespace::new(String::new()).is_err());
    assert!(Namespace::new("a\n".to_string()).is_err());
    assert!(Namespace::new("a.b".to_string()).is_err());
    assert!(Namespace::new("a-0_z".to_string()).is_ok());
    let ns = Arc::new(Namespace::new("ok".to_string()).unwrap());
    assert!(ns.namespace("Any Thing").is_ok());
    let error = ns.service_group("x y").err().unwrap();
    assert!(error.starts_with("Invalid service group name: "));
    assert!(*ns.service_group("x").ok().unwrap().name() == *"x");
}

#[test]
fn queries_name_the_group_and_the_port_name() {
    let group = group();
    match group.instances_query() {
        DiscoveryQuery::ServiceGroupPortNames { namespace, servicegroup } => {
            assert_eq!((namespace.as_str(), servicegroup.as_str()), ("outer.inner", "comp"));
        }
        _ => panic!("expected a query for a group"),
    }
    match group.portname("ep").watch_query() {
        DiscoveryQuery::PortName { namespace, servicegroup, portname } => {
            assert_eq!(
                (namespace.as_str(), servicegroup.as_str(), portname.as_str()),
                ("inner", "comp", "ep")
            );
        }
        _ => panic!("expected a query for a port name"),
    }
}

#[test]
fn only_port_names_are_listed() {
    let results = vec![
        DiscoveryInstance::PortName(instance(2, "b")),
        DiscoveryInstance::Model("m".to_string()),
        DiscoveryInstance::PortName(instance(1, "a")),
    ];
    let ids: Vec<u64> = ServiceGroup::list_instances(results).iter().map(|i| i.id()).collect();
    assert_eq!(ids, vec![2, 1]);
}

#[test]
fn announced_subject_ends_in_hexadecimal() {
    let ep = group().portname("ep");
    let spec = ep.announcement(255);
    match &spec {
        pagoda_runtime::discovery::DiscoverySpec::PortName { transport, .. } => {
            assert_eq!(*transport, TransportType::Nats("outer.inner.comp.ep.ff".to_string()));
        }
    }
    match ep.register_port_instance() {
        pagoda_runtime::discovery::DiscoverySpec::PortName { transport, portname, .. } => {
            assert_eq!(portname, "ep");
            match transport {
                TransportType::Nats(subject) => {
                    let (head, tail) = subject.rsplit_once('.').unwrap();
                    assert_eq!(head, "outer.inner.comp.ep");
                    assert!(u64::from_str_radix(tail, 16).is_ok());
                }
                _ => panic!("expected a subject"),
            }
        }
    }
}

#[test]
fn instances_are_ordered_by_identifier() {
    let a = instance(1, "x");
    let b = instance(2, "x");
    assert_eq!(a.cmp(&b), std::cmp::Ordering::Less);
    assert_eq!(b.cmp(&a), std::cmp::Ordering::Greater);
    assert_eq!(a.cmp(&instance(1, "y")), std::cmp::Ordering::Equal);
    assert_eq!(a.to_string(), "ns/comp/ep/1");
}

#[test]
fn test_registry_new_starts_empty() {
    assert_eq!(Registry::<u8>::new().inner.len(), 0);
}

#[test]
fn test_registry_default_matches_new() {
    assert_eq!(Registry::<u8>::default().inner.len(), Registry::<u8>::new().inner.len());
}

#[test]
fn test_occupancy_state_shared_between_clients() {
    let mut state = RoutingOccupancyState::default();
    let ids = vec![10, 20, 30];
    let id1 = state.select_exact_min_and_increment(&ids).unwrap();
    assert_eq!(state.load(id1), 1);
    let id2 = state.select_exact_min_and_increment(&ids).unwrap();
    assert_ne!(id1, id2);
    state.decrement(id1);
    assert_eq!(state.load(id1), 0);
}

#[test]
fn test_least_loaded_state_retain() {
    let mut state = RoutingOccupancyState::default();
    state.select_exact_min_and_increment(&vec![1, 2, 3]);
    state.select_exact_min_and_increment(&vec![1, 2, 3]);
    state.select_exact_min_and_increment(&vec![1, 2, 3]);
    assert_eq!(state.load(1), 1);
    assert_eq!(state.load(2), 1);
    assert_eq!(state.load(3), 1);

    state.retain(&vec![1, 3]);

    assert_eq!(state.load(1), 1);
    assert_eq!(state.load(2), 0);
    assert_eq!(state.load(3), 1);
}

#[test]
fn test_instance_avail_watcher() {
    let mut client = Client::new(instances(&[1, 2, 3]));
    assert_eq!(client.report_instance_down(2), vec![1, 3]);
}

#[test]
fn test_instance_reconciliation() {
    let mut client = Client::new(instances(&[1, 2, 3]));
    client.report_instance_down(2);
    assert_eq!(client.instance_ids_avail(), &vec![1, 3]);
    client.monitor_instance_source(instances(&[]), None);
    assert!(client.instance_ids_avail().is_empty());
}

#[test]
fn free_instances_are_among_the_known_ones() {
    let mut client = Client::new(instances(&[]));
    client.update_free_instances(&vec![2, 3]);
    assert!(client.instance_ids_free().is_empty());
}

#[test]
fn test_registry_new_produces_independent_instances() {
    let mut first = Registry::<u8>::new();
    let second = Registry::<u8>::new();
    first.inner.insert("a".to_string(), 1);
    assert_eq!(first.inner.len(), 1);
    assert_eq!(second.inner.len(), 0);
}
