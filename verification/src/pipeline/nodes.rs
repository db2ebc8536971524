//! The nodes of a pipeline graph and the edges between them.
//!
//! A node says where its data goes next; carrying the data there is left to whoever drives the
//! graph.

use vstd::prelude::*;

use crate::dict::Dict;
use crate::pipeline::error::PipelineError;

use std::sync::Arc;

verus! {

/// The connection from a [`Source`] to the sink `S`.
pub struct Edge<S> {
    downstream: Arc<S>,
}

impl<S> Edge<S> {
    /// The sink at the far end.
    pub closed spec fn spec_downstream(&self) -> Arc<S> {
        self.downstream
    }

    /// An edge to `downstream`.
    pub fn new(downstream: Arc<S>) -> (edge: Self)
        ensures
            edge.spec_downstream() == downstream,
    {
        Edge { downstream }
    }

    /// Addresses `data` to the far end.
    pub fn write<T>(&self, data: T) -> (delivery: Delivery<T, S>)
        ensures
            delivery.data == data,
            delivery.to == self.spec_downstream(),
    {
        Delivery { data, to: self.downstream.clone() }
    }
}

/// Data on its way to a sink.
pub struct Delivery<T, S> {
    pub data: T,
    pub to: Arc<S>,
}

/// Whether `outcome` addresses `data` along `edge`, or reports that there is no edge.
pub open spec fn passes_on<T, S>(
    edge: Option<Arc<S>>,
    data: T,
    outcome: Result<Delivery<T, S>, PipelineError>,
) -> bool {
    match edge {
        Some(sink) => outcome is Ok && outcome->Ok_0.data == data && outcome->Ok_0.to == sink,
        None => outcome is Err && outcome->Err_0 is NoEdge,
    }
}

/// Whether `outcome` is that of attaching `sink` where the edge was `before` and is `after`: an
/// edge is attached once and never replaced.
pub open spec fn attaches<S>(
    before: Option<Arc<S>>,
    sink: Arc<S>,
    after: Option<Arc<S>>,
    attached: bool,
    error: Option<PipelineError>,
) -> bool {
    match before {
        Some(_) => !attached && after == before && error is Some
            && error->Some_0 is EdgeAlreadySet,
        None => attached && after == Some(sink) && error is None,
    }
}

/// A node that sends data to a sink `S`.
pub trait Source<S>: Sized {
    /// Where the data goes, once an edge was attached.
    spec fn spec_edge(&self) -> Option<Arc<S>>;

    /// Whether everything but the edge is as it was `before`.
    spec fn keeps(&self, before: &Self) -> bool;

    /// Addresses `data` to the sink at the far end of the edge.
    fn on_next<T>(&self, data: T) -> (outcome: Result<Delivery<T, S>, PipelineError>)
        ensures
            passes_on(self.spec_edge(), data, outcome),
    ;

    /// Attaches the edge, which can be done once.
    fn set_edge(&mut self, edge: Edge<S>) -> (outcome: Result<(), PipelineError>)
        ensures
            attaches(
                old(self).spec_edge(),
                edge.spec_downstream(),
                final(self).spec_edge(),
                outcome is Ok,
                outcome.err(),
            ),
            final(self).keeps(old(self)),
    ;

    /// Attaches an edge to `sink` and hands the sink back, so that links can be chained.
    fn link(&mut self, sink: Arc<S>) -> (outcome: Result<Arc<S>, PipelineError>)
        ensures
            attaches(
                old(self).spec_edge(),
                sink,
                final(self).spec_edge(),
                outcome is Ok,
                outcome.err(),
            ),
            outcome is Ok ==> outcome->Ok_0 == sink,
            final(self).keeps(old(self)),
    {
        match self.set_edge(Edge::new(sink.clone())) {
            Ok(()) => Ok(sink),
            Err(error) => Err(error),
        }
    }
}

/// The least of sources: an edge and nothing else.
pub struct SinkEdge<S> {
    edge: Option<Edge<S>>,
}

impl<S> Default for SinkEdge<S> {
    fn default() -> (edge: Self)
        ensures
            edge.spec_sink() is None,
    {
        SinkEdge { edge: None }
    }
}

impl<S> SinkEdge<S> {
    /// The sink that was attached.
    pub closed spec fn spec_sink(&self) -> Option<Arc<S>> {
        match self.edge {
            Some(edge) => Some(edge.spec_downstream()),
            None => None,
        }
    }
}

impl<S> Source<S> for SinkEdge<S> {
    open spec fn spec_edge(&self) -> Option<Arc<S>> {
        self.spec_sink()
    }

    /// There is nothing but the edge.
    open spec fn keeps(&self, before: &Self) -> bool {
        true
    }

    fn on_next<T>(&self, data: T) -> (outcome: Result<Delivery<T, S>, PipelineError>) {
        match &self.edge {
            Some(edge) => Ok(edge.write(data)),
            None => Err(PipelineError::NoEdge),
        }
    }

    fn set_edge(&mut self, edge: Edge<S>) -> (outcome: Result<(), PipelineError>) {
        if self.edge.is_some() {
            return Err(PipelineError::EdgeAlreadySet);
        }
        self.edge = Some(edge);
        Ok(())
    }
}

/// An operator node's error, or the pipeline's own.
pub enum NodeError<E> {
    /// The node's function refused the data.
    Refused(E),
    /// The pipeline could not pass the data on.
    Pipeline(PipelineError),
}

/// A node that maps what it receives and sends the outcome on.
pub struct PipelineNode<F, S> {
    edge: SinkEdge<S>,
    map_fn: F,
}

impl<F, S> PipelineNode<F, S> {
    /// The function of the node.
    pub closed spec fn spec_map_fn(&self) -> F {
        self.map_fn
    }

    /// The sink that was attached.
    pub closed spec fn spec_sink(&self) -> Option<Arc<S>> {
        self.edge.spec_sink()
    }

    /// A node without an edge.
    pub fn new(map_fn: F) -> (node: Self)
        ensures
            node.spec_map_fn() == map_fn,
            node.spec_sink() is None,
    {
        PipelineNode { edge: SinkEdge::default(), map_fn }
    }

    /// Maps `data` and addresses the outcome to the sink.
    pub fn on_data<In, Out, E>(&self, data: In) -> (outcome: Result<
        Delivery<Out, S>,
        NodeError<E>,
    >) where F: Fn(In) -> Result<Out, E>
        requires
            call_requires(self.spec_map_fn(), (data,)),
        ensures
            exists|mapped: Result<Out, E>| #[trigger]
                call_ensures(self.spec_map_fn(), (data,), mapped) && match mapped {
                    Err(error) => outcome == Err::<Delivery<Out, S>, _>(NodeError::Refused(error)),
                    Ok(value) => match self.spec_sink() {
                        Some(sink) => outcome is Ok && outcome->Ok_0.data == value
                            && outcome->Ok_0.to == sink,
                        None => outcome == Err::<Delivery<Out, S>, _>(
                            NodeError::<E>::Pipeline(PipelineError::NoEdge),
                        ),
                    },
                },
    {
        let mapped = (self.map_fn)(data);
        let ghost seen = mapped;
        let outcome = match mapped {
            Err(error) => Err(NodeError::Refused(error)),
            Ok(value) => match self.edge.on_next(value) {
                Ok(delivery) => Ok(delivery),
                Err(error) => Err(NodeError::Pipeline(error)),
            },
        };
        assert(call_ensures(self.spec_map_fn(), (data,), seen));
        outcome
    }
}

impl<F, S> Source<S> for PipelineNode<F, S> {
    open spec fn spec_edge(&self) -> Option<Arc<S>> {
        self.spec_sink()
    }

    open spec fn keeps(&self, before: &Self) -> bool {
        self.spec_map_fn() == before.spec_map_fn()
    }

    fn on_next<T>(&self, data: T) -> (outcome: Result<Delivery<T, S>, PipelineError>) {
        self.edge.on_next(data)
    }

    fn set_edge(&mut self, edge: Edge<S>) -> (outcome: Result<(), PipelineError>) {
        self.edge.set_edge(edge)
    }
}

/// What a frontend does with a response that came back.
pub enum ResponseRoute<W> {
    /// Hand the response to the requester that waits for it.
    Deliver(W),
    /// Nobody waits: generation is to be stopped.
    StopGenerating(PipelineError),
}

/// The head of a graph: requests leave along its edge, and responses find the requester, here a
/// `W`, that waits under the identifier of the request.
pub struct Frontend<W, S> {
    edge: SinkEdge<S>,
    sinks: Dict<String, W>,
}

impl<W, S> Default for Frontend<W, S> {
    fn default() -> (frontend: Self)
        ensures
            frontend.spec_sink() is None,
            frontend.spec_waiting() == Map::<Seq<char>, W>::empty(),
    {
        Frontend { edge: SinkEdge::default(), sinks: Dict::new() }
    }
}

impl<W, S> Frontend<W, S> {
    /// The sink that was attached.
    pub closed spec fn spec_sink(&self) -> Option<Arc<S>> {
        self.edge.spec_sink()
    }

    /// Who waits under which identifier.
    pub closed spec fn spec_waiting(&self) -> Map<Seq<char>, W> {
        self.sinks@
    }

    /// Sends a request on. The requester waits from before the request leaves; it goes on waiting
    /// even where the request could not leave.
    pub fn generate<T>(&mut self, id: &str, waiter: W, request: T) -> (outcome: Result<
        Delivery<T, S>,
        PipelineError,
    >)
        ensures
            final(self).spec_waiting() == old(self).spec_waiting().insert(id@, waiter),
            final(self).spec_sink() == old(self).spec_sink(),
            passes_on(old(self).spec_sink(), request, outcome),
    {
        self.sinks.insert(id.to_owned(), waiter);
        self.edge.on_next(request)
    }

    /// The response to a request that left, once the requester stopped waiting: an absent response
    /// means that whoever should have sent it went away.
    pub fn generated<T>(response: Option<T>) -> (outcome: Result<T, PipelineError>)
        ensures
            match response {
                Some(value) => outcome == Ok::<T, PipelineError>(value),
                None => outcome is Err && outcome->Err_0 is DetachedStreamSender,
            },
    {
        match response {
            Some(value) => Ok(value),
            None => Err(PipelineError::DetachedStreamSender),
        }
    }

    /// Finds the requester that waits for the response of request `id`; it waits no longer.
    pub fn on_data(&mut self, id: &str) -> (route: ResponseRoute<W>)
        ensures
            final(self).spec_waiting() == old(self).spec_waiting().remove(id@),
            final(self).spec_sink() == old(self).spec_sink(),
            match route {
                ResponseRoute::Deliver(waiter) => old(self).spec_waiting().contains_key(id@)
                    && waiter == old(self).spec_waiting()[id@],
                ResponseRoute::StopGenerating(error) => !old(self).spec_waiting().contains_key(id@)
                    && error is DetachedStreamReceiver,
            },
    {
        match self.sinks.remove(&id.to_owned()) {
            Some(waiter) => ResponseRoute::Deliver(waiter),
            None => ResponseRoute::StopGenerating(PipelineError::DetachedStreamReceiver),
        }
    }

    /// What follows an attempt to hand the response over: a requester that is gone stops the
    /// generation.
    pub fn delivered(accepted: bool) -> (failure: Option<PipelineError>)
        ensures
            failure is None == accepted,
            failure is Some ==> failure->Some_0 is DetachedStreamReceiver,
    {
        if accepted {
            None
        } else {
            Some(PipelineError::DetachedStreamReceiver)
        }
    }
}

impl<W, S> Source<S> for Frontend<W, S> {
    open spec fn spec_edge(&self) -> Option<Arc<S>> {
        self.spec_sink()
    }

    open spec fn keeps(&self, before: &Self) -> bool {
        self.spec_waiting() == before.spec_waiting()
    }

    fn on_next<T>(&self, data: T) -> (outcome: Result<Delivery<T, S>, PipelineError>) {
        self.edge.on_next(data)
    }

    fn set_edge(&mut self, edge: Edge<S>) -> (outcome: Result<(), PipelineError>) {
        self.edge.set_edge(edge)
    }
}

/// A response reaches the requester that sent the request, exactly once: whatever other requests
/// were sent in between, the response to `id` finds the waiter of `id`, and a second response
/// finds nobody.
pub proof fn law_response_finds_its_requester<W>(
    waiting: Map<Seq<char>, W>,
    id: Seq<char>,
    waiter: W,
    other: Seq<char>,
    other_waiter: W,
)
    requires
        other != id,
    ensures
        waiting.insert(id, waiter).insert(other, other_waiter).contains_key(id),
        waiting.insert(id, waiter).insert(other, other_waiter)[id] == waiter,
        !waiting.insert(id, waiter).insert(other, other_waiter).remove(id).contains_key(id),
{
}

/// The head of a local graph.
pub struct ServiceFrontend<W, S> {
    pub inner: Frontend<W, S>,
}

impl<W, S> ServiceFrontend<W, S> {
    /// A head without an edge, on which nobody waits.
    pub fn new() -> (frontend: Self)
        ensures
            frontend.inner.spec_sink() is None,
            frontend.inner.spec_waiting() == Map::<Seq<char>, W>::empty(),
    {
        ServiceFrontend { inner: Frontend::default() }
    }

    /// Sends a request on; see [`Frontend::generate`].
    pub fn generate<T>(&mut self, id: &str, waiter: W, request: T) -> (outcome: Result<
        Delivery<T, S>,
        PipelineError,
    >)
        ensures
            final(self).inner.spec_waiting() == old(self).inner.spec_waiting().insert(id@, waiter),
            final(self).inner.spec_sink() == old(self).inner.spec_sink(),
            passes_on(old(self).inner.spec_sink(), request, outcome),
    {
        self.inner.generate(id, waiter, request)
    }

    /// Finds the requester that waits for a response; see [`Frontend::on_data`].
    pub fn on_data(&mut self, id: &str) -> (route: ResponseRoute<W>)
        ensures
            final(self).inner.spec_waiting() == old(self).inner.spec_waiting().remove(id@),
            final(self).inner.spec_sink() == old(self).inner.spec_sink(),
            match route {
                ResponseRoute::Deliver(waiter) => old(self).inner.spec_waiting().contains_key(id@)
                    && waiter == old(self).inner.spec_waiting()[id@],
                ResponseRoute::StopGenerating(error) => !old(
                    self,
                ).inner.spec_waiting().contains_key(id@) && error is DetachedStreamReceiver,
            },
    {
        self.inner.on_data(id)
    }
}

impl<W, S> Source<S> for ServiceFrontend<W, S> {
    open spec fn spec_edge(&self) -> Option<Arc<S>> {
        self.inner.spec_sink()
    }

    open spec fn keeps(&self, before: &Self) -> bool {
        self.inner.spec_waiting() == before.inner.spec_waiting()
    }

    fn on_next<T>(&self, data: T) -> (outcome: Result<Delivery<T, S>, PipelineError>) {
        self.inner.on_next(data)
    }

    fn set_edge(&mut self, edge: Edge<S>) -> (outcome: Result<(), PipelineError>) {
        self.inner.set_edge(edge)
    }
}

/// The head of a graph segment that is fed from the network.
pub struct SegmentSource<W, S> {
    pub inner: Frontend<W, S>,
}

impl<W, S> SegmentSource<W, S> {
    /// A head without an edge, on which nobody waits.
    pub fn new() -> (source: Self)
        ensures
            source.inner.spec_sink() is None,
            source.inner.spec_waiting() == Map::<Seq<char>, W>::empty(),
    {
        SegmentSource { inner: Frontend::default() }
    }

    /// Sends a request on; see [`Frontend::generate`].
    pub fn generate<T>(&mut self, id: &str, waiter: W, request: T) -> (outcome: Result<
        Delivery<T, S>,
        PipelineError,
    >)
        ensures
            final(self).inner.spec_waiting() == old(self).inner.spec_waiting().insert(id@, waiter),
            final(self).inner.spec_sink() == old(self).inner.spec_sink(),
            passes_on(old(self).inner.spec_sink(), request, outcome),
    {
        self.inner.generate(id, waiter, request)
    }

    /// Finds the requester that waits for a response; see [`Frontend::on_data`].
    pub fn on_data(&mut self, id: &str) -> (route: ResponseRoute<W>)
        ensures
            final(self).inner.spec_waiting() == old(self).inner.spec_waiting().remove(id@),
            final(self).inner.spec_sink() == old(self).inner.spec_sink(),
            match route {
                ResponseRoute::Deliver(waiter) => old(self).inner.spec_waiting().contains_key(id@)
                    && waiter == old(self).inner.spec_waiting()[id@],
                ResponseRoute::StopGenerating(error) => !old(
                    self,
                ).inner.spec_waiting().contains_key(id@) && error is DetachedStreamReceiver,
            },
    {
        self.inner.on_data(id)
    }
}

impl<W, S> Source<S> for SegmentSource<W, S> {
    open spec fn spec_edge(&self) -> Option<Arc<S>> {
        self.inner.spec_sink()
    }

    open spec fn keeps(&self, before: &Self) -> bool {
        self.inner.spec_waiting() == before.inner.spec_waiting()
    }

    fn on_next<T>(&self, data: T) -> (outcome: Result<Delivery<T, S>, PipelineError>) {
        self.inner.on_next(data)
    }

    fn set_edge(&mut self, edge: Edge<S>) -> (outcome: Result<(), PipelineError>) {
        self.inner.set_edge(edge)
    }
}

/// The tail of a local graph: an engine, and the edge along which its responses return.
pub struct ServiceBackend<E, S> {
    engine: E,
    inner: SinkEdge<S>,
}

impl<E, S> ServiceBackend<E, S> {
    /// The engine.
    pub closed spec fn spec_engine(&self) -> E {
        self.engine
    }

    /// The sink that was attached.
    pub closed spec fn spec_sink(&self) -> Option<Arc<S>> {
        self.inner.spec_sink()
    }

    /// The tail that runs `engine`.
    pub fn from_engine(engine: E) -> (backend: Self)
        ensures
            backend.spec_engine() == engine,
            backend.spec_sink() is None,
    {
        ServiceBackend { engine, inner: SinkEdge::default() }
    }

    /// The engine that generates the response to a request.
    pub fn on_data(&self) -> (engine: &E)
        ensures
            *engine == self.spec_engine(),
    {
        &self.engine
    }
}

impl<E, S> Source<S> for ServiceBackend<E, S> {
    open spec fn spec_edge(&self) -> Option<Arc<S>> {
        self.spec_sink()
    }

    open spec fn keeps(&self, before: &Self) -> bool {
        self.spec_engine() == before.spec_engine()
    }

    fn on_next<T>(&self, data: T) -> (outcome: Result<Delivery<T, S>, PipelineError>) {
        self.inner.on_next(data)
    }

    fn set_edge(&mut self, edge: Edge<S>) -> (outcome: Result<(), PipelineError>) {
        self.inner.set_edge(edge)
    }
}

/// The tail of a graph segment: its engine is attached later, and once.
pub struct SegmentSink<E, S> {
    engine: Option<E>,
    inner: SinkEdge<S>,
}

impl<E, S> Default for SegmentSink<E, S> {
    fn default() -> (sink: Self)
        ensures
            sink.spec_engine() is None,
            sink.spec_sink() is None,
    {
        SegmentSink { engine: None, inner: SinkEdge::default() }
    }
}

impl<E, S> SegmentSink<E, S> {
    /// The engine, once it was attached.
    pub closed spec fn spec_engine(&self) -> Option<E> {
        self.engine
    }

    /// The sink that was attached.
    pub closed spec fn spec_sink(&self) -> Option<Arc<S>> {
        self.inner.spec_sink()
    }

    /// A tail without an engine.
    pub fn new() -> (sink: Self)
        ensures
            sink.spec_engine() is None,
            sink.spec_sink() is None,
    {
        SegmentSink::default()
    }

    /// Attaches the engine, which can be done once.
    pub fn attach(&mut self, engine: E) -> (outcome: Result<(), PipelineError>)
        ensures
            final(self).spec_sink() == old(self).spec_sink(),
            match old(self).spec_engine() {
                Some(_) => outcome is Err && outcome->Err_0 is EdgeAlreadySet
                    && final(self).spec_engine() == old(self).spec_engine(),
                None => outcome is Ok && final(self).spec_engine() == Some(engine),
            },
    {
        if self.engine.is_some() {
            return Err(PipelineError::EdgeAlreadySet);
        }
        self.engine = Some(engine);
        Ok(())
    }

    /// The engine that generates the response to a request.
    pub fn on_data(&self) -> (engine: Result<&E, PipelineError>)
        ensures
            match self.spec_engine() {
                Some(engine_) => engine is Ok && *engine->Ok_0 == engine_,
                None => engine is Err && engine->Err_0 is NoNetworkEdge,
            },
    {
        match &self.engine {
            Some(engine) => Ok(engine),
            None => Err(PipelineError::NoNetworkEdge),
        }
    }
}

impl<E, S> Source<S> for SegmentSink<E, S> {
    open spec fn spec_edge(&self) -> Option<Arc<S>> {
        self.spec_sink()
    }

    open spec fn keeps(&self, before: &Self) -> bool {
        self.spec_engine() == before.spec_engine()
    }

    fn on_next<T>(&self, data: T) -> (outcome: Result<Delivery<T, S>, PipelineError>) {
        self.inner.on_next(data)
    }

    fn set_edge(&mut self, edge: Edge<S>) -> (outcome: Result<(), PipelineError>) {
        self.inner.set_edge(edge)
    }
}

/// A node that transforms requests on their way down and responses on their way up.
///
/// `O` is the operator, `D` the sink of the requests that it sends down, `U` the sink of the
/// responses that it sends up, and `W` waits for a response from below.
pub struct PipelineOperator<O, W, D, U> {
    operator: O,
    downstream: Frontend<W, D>,
    upstream: SinkEdge<U>,
}

impl<O, W, D, U> PipelineOperator<O, W, D, U> {
    /// The operator.
    pub closed spec fn spec_operator(&self) -> O {
        self.operator
    }

    /// The side that faces down.
    pub closed spec fn spec_downstream(&self) -> Frontend<W, D> {
        self.downstream
    }

    /// The sink of the side that faces up.
    pub closed spec fn spec_upstream(&self) -> Option<Arc<U>> {
        self.upstream.spec_sink()
    }

    /// A node that runs `operator`, connected to nothing.
    pub fn new(operator: O) -> (node: Self)
        ensures
            node.spec_operator() == operator,
            node.spec_downstream().spec_sink() is None,
            node.spec_downstream().spec_waiting() == Map::<Seq<char>, W>::empty(),
            node.spec_upstream() is None,
    {
        PipelineOperator {
            operator,
            downstream: Frontend::default(),
            upstream: SinkEdge::default(),
        }
    }

    /// The operator and the engine below that it may call.
    pub fn generate(&mut self) -> (parts: (&O, &mut Frontend<W, D>))
        ensures
            *parts.0 == old(self).spec_operator(),
            *parts.1 == old(self).spec_downstream(),
            final(self).spec_operator() == old(self).spec_operator(),
            final(self).spec_downstream() == *final(parts.1),
            final(self).spec_upstream() == old(self).spec_upstream(),
    {
        (&self.operator, &mut self.downstream)
    }

    /// The path of the requests.
    pub fn forward_edge(&mut self) -> (edge: PipelineOperatorForwardEdge<'_, O, W, D, U>)
        ensures
            *edge.parent == *old(self),
            *final(self) == *final(edge.parent),
    {
        PipelineOperatorForwardEdge { parent: self }
    }

    /// The path of the responses.
    pub fn backward_edge(&mut self) -> (edge: PipelineOperatorBackwardEdge<'_, O, W, D, U>)
        ensures
            *edge.parent == *old(self),
            *final(self) == *final(edge.parent),
    {
        PipelineOperatorBackwardEdge { parent: self }
    }
}

/// The path of requests through an operator: a sink of what comes from above and a source of what
/// goes down.
pub struct PipelineOperatorForwardEdge<'a, O, W, D, U> {
    pub parent: &'a mut PipelineOperator<O, W, D, U>,
}

/// The path of responses through an operator: a sink of what comes from below and a source of what
/// goes up.
pub struct PipelineOperatorBackwardEdge<'a, O, W, D, U> {
    pub parent: &'a mut PipelineOperator<O, W, D, U>,
}

impl<'a, O, W, D, U> PipelineOperatorForwardEdge<'a, O, W, D, U> {
    /// The operator node as it stands.
    pub open spec fn node(&self) -> PipelineOperator<O, W, D, U> {
        *self.parent
    }

    /// Addresses the response that the operator generated for a request to the sink above.
    pub fn on_data<T>(&self, response: T) -> (outcome: Result<Delivery<T, U>, PipelineError>)
        ensures
            passes_on(self.node().spec_upstream(), response, outcome),
    {
        self.parent.upstream.on_next(response)
    }
}

impl<'a, O, W, D, U> Source<D> for PipelineOperatorForwardEdge<'a, O, W, D, U> {
    open spec fn spec_edge(&self) -> Option<Arc<D>> {
        self.node().spec_downstream().spec_sink()
    }

    open spec fn keeps(&self, before: &Self) -> bool {
        &&& self.node().spec_operator() == before.node().spec_operator()
        &&& self.node().spec_upstream() == before.node().spec_upstream()
        &&& self.node().spec_downstream().spec_waiting()
            == before.node().spec_downstream().spec_waiting()
    }

    fn on_next<T>(&self, data: T) -> (outcome: Result<Delivery<T, D>, PipelineError>) {
        self.parent.downstream.on_next(data)
    }

    fn set_edge(&mut self, edge: Edge<D>) -> (outcome: Result<(), PipelineError>)
        ensures
            *final(final(self).parent) == *final(old(self).parent),
    {
        self.parent.downstream.set_edge(edge)
    }

    fn link(&mut self, sink: Arc<D>) -> (outcome: Result<Arc<D>, PipelineError>)
        ensures
            *final(final(self).parent) == *final(old(self).parent),
    {
        match self.set_edge(Edge::new(sink.clone())) {
            Ok(()) => Ok(sink),
            Err(error) => Err(error),
        }
    }
}

impl<'a, O, W, D, U> PipelineOperatorBackwardEdge<'a, O, W, D, U> {
    /// The operator node as it stands.
    pub open spec fn node(&self) -> PipelineOperator<O, W, D, U> {
        *self.parent
    }

    /// Finds who waits for the response of request `id` from below.
    pub fn on_data(&mut self, id: &str) -> (route: ResponseRoute<W>)
        ensures
            *final(final(self).parent) == *final(old(self).parent),
            final(self).node().spec_operator() == old(self).node().spec_operator(),
            final(self).node().spec_upstream() == old(self).node().spec_upstream(),
            final(self).node().spec_downstream().spec_sink()
                == old(self).node().spec_downstream().spec_sink(),
            final(self).node().spec_downstream().spec_waiting()
                == old(self).node().spec_downstream().spec_waiting().remove(id@),
            ({
                let waiting = old(self).node().spec_downstream().spec_waiting();
                match route {
                    ResponseRoute::Deliver(waiter) => waiting.contains_key(id@) && waiter
                        == waiting[id@],
                    ResponseRoute::StopGenerating(error) => !waiting.contains_key(id@)
                        && error is DetachedStreamReceiver,
                }
            }),
    {
        self.parent.downstream.on_data(id)
    }
}

impl<'a, O, W, D, U> Source<U> for PipelineOperatorBackwardEdge<'a, O, W, D, U> {
    open spec fn spec_edge(&self) -> Option<Arc<U>> {
        self.node().spec_upstream()
    }

    open spec fn keeps(&self, before: &Self) -> bool {
        &&& self.node().spec_operator() == before.node().spec_operator()
        &&& self.node().spec_downstream() == before.node().spec_downstream()
    }

    fn on_next<T>(&self, data: T) -> (outcome: Result<Delivery<T, U>, PipelineError>) {
        self.parent.upstream.on_next(data)
    }

    fn set_edge(&mut self, edge: Edge<U>) -> (outcome: Result<(), PipelineError>)
        ensures
            *final(final(self).parent) == *final(old(self).parent),
    {
        self.parent.upstream.set_edge(edge)
    }

    fn link(&mut self, sink: Arc<U>) -> (outcome: Result<Arc<U>, PipelineError>)
        ensures
            *final(final(self).parent) == *final(old(self).parent),
    {
        match self.set_edge(Edge::new(sink.clone())) {
            Ok(()) => Ok(sink),
            Err(error) => Err(error),
        }
    }
}

/// Data that are written to an edge are addressed to its far end.
pub proof fn law_edge_leads_to_its_sink<S, T>(
    sink: Arc<S>,
    edge: Edge<S>,
    data: T,
    delivery: Delivery<T, S>,
)
    requires
        call_ensures(Edge::<S>::new, (sink,), edge),
        call_ensures(Edge::<S>::write::<T>, (&edge, data), delivery),
    ensures
        delivery.to == sink,
        delivery.data == data,
{
}

/// The response to a request reaches the requester that sent it, once: it is found under the
/// identifier of the request whoever else waits, and a second response finds nobody.
pub proof fn law_each_requester_gets_its_response<W, S, T>(
    sending: &mut Frontend<W, S>,
    id: &str,
    waiter: W,
    request: T,
    sent: Result<Delivery<T, S>, PipelineError>,
    next: &mut Frontend<W, S>,
    other: &str,
    other_waiter: W,
    other_request: T,
    other_sent: Result<Delivery<T, S>, PipelineError>,
    first: &mut Frontend<W, S>,
    route: ResponseRoute<W>,
    second: &mut Frontend<W, S>,
    again: ResponseRoute<W>,
    third: &mut Frontend<W, S>,
    other_route: ResponseRoute<W>,
)
    requires
        call_ensures(Frontend::<W, S>::generate::<T>, (sending, id, waiter, request), sent),
        *old(next) == *final(sending),
        other@ != id@,
        call_ensures(
            Frontend::<W, S>::generate::<T>,
            (next, other, other_waiter, other_request),
            other_sent,
        ),
        *old(first) == *final(next),
        call_ensures(Frontend::<W, S>::on_data, (first, id), route),
        *old(second) == *final(first),
        call_ensures(Frontend::<W, S>::on_data, (second, id), again),
        *old(third) == *final(second),
        call_ensures(Frontend::<W, S>::on_data, (third, other), other_route),
    ensures
        route == ResponseRoute::Deliver(waiter),
        again is StopGenerating,
        again->StopGenerating_0 is DetachedStreamReceiver,
        other_route == ResponseRoute::Deliver(other_waiter),
        sent is Ok == old(sending).spec_sink() is Some,
        sent is Ok ==> sent->Ok_0.data == request && sent->Ok_0.to
            == old(sending).spec_sink()->Some_0,
        sent is Err ==> sent->Err_0 is NoEdge,
        other_sent is Ok == sent is Ok,
        other_sent is Ok ==> other_sent->Ok_0.data == other_request && other_sent->Ok_0.to
            == sent->Ok_0.to,
        final(third).spec_sink() == old(sending).spec_sink(),
        final(third).spec_waiting() == old(sending).spec_waiting().remove(id@).remove(other@),
{
    assert(final(third).spec_waiting() =~= old(sending).spec_waiting().remove(id@).remove(other@));
}

/// A response that did not come, and a requester that is gone, are told as what they are.
pub proof fn law_absent_ends_are_told<W, S, T>(
    response: T,
    came: Result<T, PipelineError>,
    absent: Result<T, PipelineError>,
    accepted: bool,
    failure: Option<PipelineError>,
)
    requires
        call_ensures(Frontend::<W, S>::generated::<T>, (Some(response),), came),
        call_ensures(Frontend::<W, S>::generated::<T>, (None::<T>,), absent),
        call_ensures(Frontend::<W, S>::delivered, (accepted,), failure),
    ensures
        came == Ok::<T, PipelineError>(response),
        absent is Err && absent->Err_0 is DetachedStreamSender,
        failure is None == accepted,
        failure is Some ==> failure->Some_0 is DetachedStreamReceiver,
{
}

/// The heads of local graphs and of segments send and find as their common part does.
pub proof fn law_heads_send_and_find<W, S, T>(
    service: &mut ServiceFrontend<W, S>,
    segment: &mut SegmentSource<W, S>,
    id: &str,
    waiter: W,
    request: T,
    service_sent: Result<Delivery<T, S>, PipelineError>,
    segment_sent: Result<Delivery<T, S>, PipelineError>,
    service_back: &mut ServiceFrontend<W, S>,
    segment_back: &mut SegmentSource<W, S>,
    service_route: ResponseRoute<W>,
    segment_route: ResponseRoute<W>,
    other: Seq<char>,
)
    requires
        call_ensures(
            ServiceFrontend::<W, S>::generate::<T>,
            (service, id, waiter, request),
            service_sent,
        ),
        call_ensures(
            SegmentSource::<W, S>::generate::<T>,
            (segment, id, waiter, request),
            segment_sent,
        ),
        *old(service_back) == *final(service),
        *old(segment_back) == *final(segment),
        call_ensures(ServiceFrontend::<W, S>::on_data, (service_back, id), service_route),
        call_ensures(SegmentSource::<W, S>::on_data, (segment_back, id), segment_route),
    ensures
        service_route == ResponseRoute::Deliver(waiter),
        segment_route == ResponseRoute::Deliver(waiter),
        service_sent is Ok == old(service).inner.spec_sink() is Some,
        service_sent is Ok ==> service_sent->Ok_0.data == request && service_sent->Ok_0.to
            == old(service).inner.spec_sink()->Some_0,
        segment_sent is Ok == old(segment).inner.spec_sink() is Some,
        segment_sent is Ok ==> segment_sent->Ok_0.data == request && segment_sent->Ok_0.to
            == old(segment).inner.spec_sink()->Some_0,
        other != id@ ==> final(service_back).inner.spec_waiting().contains_key(other) == old(
            service
        ).inner.spec_waiting().contains_key(other),
        other != id@ && old(service).inner.spec_waiting().contains_key(other) ==> final(
            service_back
        ).inner.spec_waiting()[other] == old(service).inner.spec_waiting()[other],
        other != id@ ==> final(segment_back).inner.spec_waiting().contains_key(other) == old(
            segment
        ).inner.spec_waiting().contains_key(other),
        other != id@ && old(segment).inner.spec_waiting().contains_key(other) ==> final(
            segment_back
        ).inner.spec_waiting()[other] == old(segment).inner.spec_waiting()[other],
{
}

/// A tail runs the engine that it was given; the tail of a segment runs the first that was attached,
/// and none before.
pub proof fn law_tail_runs_its_engine<E, S>(
    engine: E,
    backend: ServiceBackend<E, S>,
    runs: &E,
    empty: SegmentSink<E, S>,
    none: Result<&E, PipelineError>,
    sink: &mut SegmentSink<E, S>,
    attached: Result<(), PipelineError>,
    found: Result<&E, PipelineError>,
    later: &mut SegmentSink<E, S>,
    other: E,
    refused: Result<(), PipelineError>,
    still: Result<&E, PipelineError>,
)
    requires
        call_ensures(ServiceBackend::<E, S>::from_engine, (engine,), backend),
        call_ensures(ServiceBackend::<E, S>::on_data, (&backend,), runs),
        call_ensures(SegmentSink::<E, S>::new, (), empty),
        call_ensures(SegmentSink::<E, S>::on_data, (&empty,), none),
        *old(sink) == empty,
        call_ensures(SegmentSink::<E, S>::attach, (sink, engine), attached),
        call_ensures(SegmentSink::<E, S>::on_data, (&*final(sink),), found),
        *old(later) == *final(sink),
        call_ensures(SegmentSink::<E, S>::attach, (later, other), refused),
        call_ensures(SegmentSink::<E, S>::on_data, (&*final(later),), still),
    ensures
        *runs == engine,
        none is Err && none->Err_0 is NoNetworkEdge,
        attached is Ok,
        found is Ok && *found->Ok_0 == engine,
        refused is Err && refused->Err_0 is EdgeAlreadySet,
        still is Ok && *still->Ok_0 == engine,
        final(later).spec_sink() == old(sink).spec_sink(),
{
}

/// An edge is attached once: the first sink stays, and later ones are refused.
pub proof fn law_first_sink_stays<S>(
    before: Option<Arc<S>>,
    sink: Arc<S>,
    after: Option<Arc<S>>,
    attached: bool,
    error: Option<PipelineError>,
    later: Arc<S>,
    still: Option<Arc<S>>,
    attached_later: bool,
    later_error: Option<PipelineError>,
)
    requires
        attaches(before, sink, after, attached, error),
        attaches(after, later, still, attached_later, later_error),
    ensures
        attached <==> before is None,
        attached ==> after == Some(sink),
        !attached ==> after == before && error is Some && error->Some_0 is EdgeAlreadySet,
        !attached_later && still == after,
        later_error is Some && later_error->Some_0 is EdgeAlreadySet,
{
}

/// Attaching an edge to a node leaves everything else of the node as it was.
pub proof fn law_attaching_keeps_the_node<F, W, E, S>(
    mapping: PipelineNode<F, S>,
    mapping_before: PipelineNode<F, S>,
    frontend: Frontend<W, S>,
    frontend_before: Frontend<W, S>,
    backend: ServiceBackend<E, S>,
    backend_before: ServiceBackend<E, S>,
    sink: SegmentSink<E, S>,
    sink_before: SegmentSink<E, S>,
)
    requires
        mapping.keeps(&mapping_before),
        frontend.keeps(&frontend_before),
        backend.keeps(&backend_before),
        sink.keeps(&sink_before),
    ensures
        mapping.spec_map_fn() == mapping_before.spec_map_fn(),
        frontend.spec_waiting() == frontend_before.spec_waiting(),
        backend.spec_engine() == backend_before.spec_engine(),
        sink.spec_engine() == sink_before.spec_engine(),
{
}

/// An operator is connected to nothing at first; lending out its lower side changes neither the
/// operator nor its upper side.
pub proof fn law_operator_is_kept<O, W, D, U>(
    operator: O,
    node: PipelineOperator<O, W, D, U>,
)
    requires
        call_ensures(PipelineOperator::<O, W, D, U>::new, (operator,), node),
    ensures
        node.spec_operator() == operator,
        node.spec_upstream() is None,
        node.spec_downstream().spec_sink() is None,
        forall|id: Seq<char>| !(#[trigger] node.spec_downstream().spec_waiting().contains_key(id)),
{
}

/// A node maps what it receives and sends on what comes out, whatever that is: what its function
/// refuses goes nowhere.
pub proof fn law_node_sends_what_it_maps<F, S, In, Out, E>(
    map_fn: F,
    node: PipelineNode<F, S>,
    data: In,
    value: Out,
    refusal: E,
    outcome: Result<Delivery<Out, S>, NodeError<E>>,
    linked: PipelineNode<F, S>,
    sink: Arc<S>,
    linked_outcome: Result<Delivery<Out, S>, NodeError<E>>,
) where F: Fn(In) -> Result<Out, E>
    requires
        call_ensures(PipelineNode::<F, S>::new, (map_fn,), node),
        call_ensures(PipelineNode::<F, S>::on_data::<In, Out, E>, (&node, data), outcome),
        linked.spec_map_fn() == map_fn,
        linked.spec_sink() == Some(sink),
        call_ensures(
            PipelineNode::<F, S>::on_data::<In, Out, E>,
            (&linked, data),
            linked_outcome,
        ),
    ensures
        (forall|mapped: Result<Out, E>| #[trigger]
            call_ensures(map_fn, (data,), mapped) ==> mapped == Ok::<Out, E>(value)) ==> {
            &&& outcome is Err && outcome->Err_0 is Pipeline && outcome->Err_0->Pipeline_0 is NoEdge
            &&& linked_outcome is Ok && linked_outcome->Ok_0.data == value && linked_outcome->Ok_0.to
                == sink
        },
        (forall|mapped: Result<Out, E>| #[trigger]
            call_ensures(map_fn, (data,), mapped) ==> mapped == Err::<Out, E>(refusal)) ==> {
            &&& outcome == Err::<Delivery<Out, S>, NodeError<E>>(NodeError::Refused(refusal))
            &&& linked_outcome == Err::<Delivery<Out, S>, NodeError<E>>(
                NodeError::Refused(refusal),
            )
        },
{
}

/// Attaching an edge to a head of a graph, or to either side of an operator, leaves everything else
/// as it was: who waits, the operator, and the other side.
pub proof fn law_attaching_keeps_the_operator<'a, O, W, D, U, S>(
    service: ServiceFrontend<W, S>,
    service_before: ServiceFrontend<W, S>,
    segment: SegmentSource<W, S>,
    segment_before: SegmentSource<W, S>,
    forward: PipelineOperatorForwardEdge<'a, O, W, D, U>,
    forward_before: PipelineOperatorForwardEdge<'a, O, W, D, U>,
    backward: PipelineOperatorBackwardEdge<'a, O, W, D, U>,
    backward_before: PipelineOperatorBackwardEdge<'a, O, W, D, U>,
)
    requires
        service.keeps(&service_before),
        segment.keeps(&segment_before),
        forward.keeps(&forward_before),
        backward.keeps(&backward_before),
    ensures
        service.inner.spec_waiting() == service_before.inner.spec_waiting(),
        segment.inner.spec_waiting() == segment_before.inner.spec_waiting(),
        forward.node().spec_operator() == forward_before.node().spec_operator(),
        forward.node().spec_upstream() == forward_before.node().spec_upstream(),
        forward.node().spec_downstream().spec_waiting()
            == forward_before.node().spec_downstream().spec_waiting(),
        backward.node().spec_operator() == backward_before.node().spec_operator(),
        backward.node().spec_downstream() == backward_before.node().spec_downstream(),
{
}

/// The edge of a node leads where it was attached: data go to the sink at its far end, and nowhere
/// without one. The two sides of an operator have edges of their own.
pub proof fn law_edges_lead_to_their_sinks<'a, F, W, E, O, D, U, S, T>(
    mapping: PipelineNode<F, S>,
    frontend: Frontend<W, S>,
    service: ServiceFrontend<W, S>,
    segment: SegmentSource<W, S>,
    backend: ServiceBackend<E, S>,
    sink: SegmentSink<E, S>,
    forward: PipelineOperatorForwardEdge<'a, O, W, D, U>,
    backward: PipelineOperatorBackwardEdge<'a, O, W, D, U>,
    edge: Option<Arc<S>>,
    data: T,
    outcome: Result<Delivery<T, S>, PipelineError>,
)
    requires
        passes_on(edge, data, outcome),
    ensures
        mapping.spec_edge() == mapping.spec_sink(),
        frontend.spec_edge() == frontend.spec_sink(),
        service.spec_edge() == service.inner.spec_sink(),
        segment.spec_edge() == segment.inner.spec_sink(),
        backend.spec_edge() == backend.spec_sink(),
        sink.spec_edge() == sink.spec_sink(),
        forward.spec_edge() == forward.node().spec_downstream().spec_sink(),
        backward.spec_edge() == backward.node().spec_upstream(),
        outcome is Ok <==> edge is Some,
        outcome is Ok ==> outcome->Ok_0.data == data && outcome->Ok_0.to == edge->Some_0,
        outcome is Err ==> outcome->Err_0 is NoEdge,
{
}

} // verus!
