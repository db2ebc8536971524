use pagoda_runtime::pipeline::error::PipelineError;
use pagoda_runtime::pipeline::nodes::{
    Edge, Frontend, NodeError, PipelineNode, PipelineOperator, ResponseRoute, SegmentSink,
    SegmentSource, ServiceBackend, ServiceFrontend, SinkEdge, Source,
};
use std::sync::Arc;

#[test]
fn nodes_test_pipeline_source_no_edge() {
    let mut source = ServiceFrontend::<u8, ()>::new();
    let stream = source.generate("r", 1, ());
    assert!(stream.is_err());
}

#[test]
fn test_frontend_no_edge() {
    let mut source = Frontend::<u8, ()>::default();
    assert!(matches!(source.generate("r", 1, ()), Err(PipelineError::NoEdge)));
    assert!(matches!(source.on_next(()), Err(PipelineError::NoEdge)));
}

#[test]
fn common_test_pipeline_source_no_edge() {
    let mut source = SegmentSource::<u8, ()>::new();
    assert!(matches!(source.generate("r", 1, ()), Err(PipelineError::NoEdge)));
}

#[test]
fn edge_is_attached_once() {
    let mut edge = SinkEdge::<&str>::default();
    assert_eq!(*edge.link(Arc::new("first")).unwrap(), "first");
    assert!(matches!(
        edge.set_edge(Edge::new(Arc::new("second"))),
        Err(PipelineError::EdgeAlreadySet)
    ));
    assert!(matches!(edge.link(Arc::new("third")), Err(PipelineError::EdgeAlreadySet)));
    let delivery = edge.on_next(5).ok().unwrap();
    assert_eq!((delivery.data, *delivery.to), (5, "first"));
}

#[test]
fn node_maps_and_passes_on() {
    let map = |x: u32| if x > 10 { Err("too big") } else { Ok(x * 2) };
    let mut node = PipelineNode::new(map);
    assert!(matches!(
        node.on_data(4),
        Err(NodeError::Pipeline(PipelineError::NoEdge))
    ));
    node.link(Arc::new("sink")).unwrap();
    let delivery = node.on_data(4).ok().unwrap();
    assert_eq!((delivery.data, *delivery.to), (8, "sink"));
    assert!(matches!(node.on_data(11), Err(NodeError::Refused("too big"))));
}

#[test]
fn response_finds_its_requester_once() {
    let mut frontend = ServiceFrontend::<u8, &str>::new();
    frontend.link(Arc::new("down")).unwrap();
    assert_eq!(frontend.generate("a", 1, "req").ok().unwrap().data, "req");
    frontend.generate("b", 2, "req").ok().unwrap();
    assert!(matches!(frontend.on_data("a"), ResponseRoute::Deliver(1)));
    assert!(matches!(
        frontend.on_data("a"),
        ResponseRoute::StopGenerating(PipelineError::DetachedStreamReceiver)
    ));
    assert!(matches!(frontend.on_data("b"), ResponseRoute::Deliver(2)));
    assert!(matches!(
        Frontend::<u8, ()>::generated::<u8>(None),
        Err(PipelineError::DetachedStreamSender)
    ));
    assert_eq!(Frontend::<u8, ()>::generated(Some(4)).ok(), Some(4));
    assert!(Frontend::<u8, ()>::delivered(true).is_none());
    assert!(matches!(
        Frontend::<u8, ()>::delivered(false),
        Some(PipelineError::DetachedStreamReceiver)
    ));
}

#[test]
fn engine_of_a_segment_is_attached_once() {
    let mut sink = SegmentSink::<u8, ()>::new();
    assert!(matches!(sink.on_data(), Err(PipelineError::NoNetworkEdge)));
    assert!(sink.attach(1).is_ok());
    assert!(matches!(sink.attach(2), Err(PipelineError::EdgeAlreadySet)));
    assert_eq!(*sink.on_data().ok().unwrap(), 1);
    assert!(matches!(sink.on_next(0), Err(PipelineError::NoEdge)));
}

#[test]
fn backend_runs_its_engine() {
    let mut backend = ServiceBackend::<u8, &str>::from_engine(6);
    assert_eq!(*backend.on_data(), 6);
    assert!(matches!(backend.on_next(1), Err(PipelineError::NoEdge)));
    backend.link(Arc::new("up")).unwrap();
    assert_eq!(*backend.on_next(1).ok().unwrap().to, "up");
}

#[test]
fn operator_connects_both_ways() {
    let mut node = PipelineOperator::<&str, u8, &str, &str>::new("op");
    node.forward_edge().link(Arc::new("down")).unwrap();
    node.backward_edge().link(Arc::new("up")).unwrap();
    assert!(matches!(
        node.forward_edge().link(Arc::new("again")),
        Err(PipelineError::EdgeAlreadySet)
    ));
    assert_eq!(*node.forward_edge().on_next(1).ok().unwrap().to, "down");
    assert_eq!(*node.forward_edge().on_data(1).ok().unwrap().to, "up");
    assert_eq!(*node.backward_edge().on_next(1).ok().unwrap().to, "up");
    let (operator, below) = node.generate();
    assert_eq!(*operator, "op");
    below.generate("id", 3, "req").ok().unwrap();
    assert!(matches!(node.backward_edge().on_data("id"), ResponseRoute::Deliver(3)));
}
