use vstd::prelude::*;
use crate::codegen::{MAX_CHAIN, MIN_CHAIN};
use crate::extract::{error_message, error_status, extract_all, extract_params, ExtractError, Extracted, ExtractedModel, Extractor};
use crate::http::{Request, Response, Value};

verus! {

/// A stage that wraps an endpoint.
#[derive(Debug)]
pub enum Middleware {
    /// Puts a copy of the value into each request's extensions before the
    /// inner endpoint sees it.
    AddData(Value),
    /// Records an event before and after the inner endpoint runs.
    Trace(u32),
}

/// What the trace of one call records, in order.
#[derive(Clone, Copy, PartialEq, Eq, Structural, Debug)]
pub enum Event {
    Before(u32),
    Handler,
    After(u32),
}

/// What the generated endpoint decides for a request: run the handler body
/// with the extracted arguments, or answer with the extraction error.
pub enum Dispatch {
    Invoke(Vec<Extracted>),
    Reject(Response),
}

pub enum DispatchModel {
    Invoke(Seq<ExtractedModel>),
    Reject(u16, Seq<char>),
}

impl View for Dispatch {
    type V = DispatchModel;

    open spec fn view(&self) -> DispatchModel {
        match self {
            Dispatch::Invoke(v) => DispatchModel::Invoke(v@.map_values(|e: Extracted| e@)),
            Dispatch::Reject(r) => DispatchModel::Reject(r.status, r.body@),
        }
    }
}

/// The decision of a handler with extractors `xs` on a request with
/// extensions `ext` and payload `body`.
pub open spec fn dispatch_of(xs: Seq<Extractor>, ext: Seq<Value>, body: Option<Seq<u8>>) -> DispatchModel {
    match extract_all(ext, body, xs).0 {
        Ok(vals) => DispatchModel::Invoke(vals),
        Err(e) => DispatchModel::Reject(error_status(e), error_message(e)),
    }
}

/// The trace and the decision of a handler with extractors `xs` wrapped by
/// `layers`, the first of them innermost.
pub open spec fn call_spec(xs: Seq<Extractor>, layers: Seq<Middleware>, ext: Seq<Value>, body: Option<Seq<u8>>) -> (Seq<Event>, DispatchModel)
    decreases layers.len(),
{
    if layers.len() == 0 {
        let d = dispatch_of(xs, ext, body);
        (if d is Invoke { seq![Event::Handler] } else { seq![] }, d)
    } else {
        match layers.last() {
            Middleware::AddData(v) => call_spec(xs, layers.drop_last(), ext.push(v), body),
            Middleware::Trace(id) => {
                let (ev, d) = call_spec(xs, layers.drop_last(), ext, body);
                (seq![Event::Before(id)] + ev + seq![Event::After(id)], d)
            },
        }
    }
}

/// The endpoint that the handler transform generates: it extracts each
/// parameter in declared order and hands the values to the handler body.
pub struct Handler {
    extractors: Vec<Extractor>,
}

impl Handler {
    pub closed spec fn params(&self) -> Seq<Extractor> {
        self.extractors@
    }

    pub fn new(extractors: Vec<Extractor>) -> (r: Handler)
        ensures
            r.params() == extractors@,
    {
        Handler { extractors }
    }

    /// Detaches the payload, extracts the parameters, and decides.
    pub fn call(&self, req: Request) -> (r: Dispatch)
        ensures
            r@ == dispatch_of(self.params(), req.extensions@, req.body@),
    {
        let (req, mut body) = req.split();
        match extract_params(&req, &self.extractors, &mut body) {
            Ok(vals) => Dispatch::Invoke(vals),
            Err(e) => Dispatch::Reject(e.as_response()),
        }
    }

    pub fn with(self, m: Middleware) -> (r: Endpoint)
        ensures
            r.params() == self.params(),
            r.layers() == seq![m],
    {
        let mut layers: Vec<Middleware> = Vec::new();
        layers.push(m);
        Endpoint { handler: self, layers }
    }

    pub fn into_endpoint(self) -> (r: Endpoint)
        ensures
            r.params() == self.params(),
            r.layers() == Seq::<Middleware>::empty(),
    {
        Endpoint { handler: self, layers: Vec::new() }
    }
}

/// The result of one call: the trace and the decision.
pub struct Outcome {
    pub events: Vec<Event>,
    pub dispatch: Dispatch,
}

/// A handler wrapped by middleware, the first of `layers` innermost.
pub struct Endpoint {
    handler: Handler,
    layers: Vec<Middleware>,
}

/// A sequence of two to sixteen middleware, applied as one.
pub struct MiddlewareChain {
    items: Vec<Middleware>,
}

impl MiddlewareChain {
    pub closed spec fn items(&self) -> Seq<Middleware> {
        self.items@
    }

    pub closed spec fn wf(&self) -> bool {
        MIN_CHAIN <= self.items@.len() <= MAX_CHAIN
    }

    /// A chain of `items`, or `None` where their number is out of range.
    pub fn new(items: Vec<Middleware>) -> (r: Option<MiddlewareChain>)
        ensures
            (MIN_CHAIN <= items@.len() <= MAX_CHAIN) == (r is Some),
            r matches Some(c) ==> c.wf() && c.items() == items@,
    {
        if MIN_CHAIN <= items.len() && items.len() <= MAX_CHAIN {
            Some(MiddlewareChain { items })
        } else {
            None
        }
    }

    pub fn len(&self) -> (r: usize)
        ensures
            r == self.items().len(),
    {
        self.items.len()
    }
}

impl Endpoint {
    pub closed spec fn params(&self) -> Seq<Extractor> {
        self.handler.extractors@
    }

    pub closed spec fn layers(&self) -> Seq<Middleware> {
        self.layers@
    }

    /// Wraps the endpoint in `m`, which becomes the outermost layer.
    pub fn with(self, m: Middleware) -> (r: Endpoint)
        ensures
            r.params() == self.params(),
            r.layers() == self.layers().push(m),
    {
        let mut e = self;
        e.layers.push(m);
        e
    }

    /// Applies the chain's middleware one after the other: the first is
    /// applied first, the last ends outermost.
    pub fn with_chain(self, chain: MiddlewareChain) -> (r: Endpoint)
        requires
            chain.wf(),
        ensures
            r.params() == self.params(),
            r.layers() == self.layers() + chain.items(),
    {
        let ghost items = chain.items();
        let ghost start = self.layers();
        let mut e = self;
        let mut rest = chain.items;
        proof {
            assert(e.layers() + rest@ =~= start + items);
        }
        while rest.len() > 0
            invariant
                e.params() == self.params(),
                e.layers() + rest@ == start + items,
            decreases rest@.len(),
        {
            let m = rest.remove(0);
            e = e.with(m);
            proof {
                assert(e.layers() + rest@ =~= start + items);
            }
        }
        proof {
            assert(e.layers() =~= e.layers() + rest@);
        }
        e
    }

    fn call_layers(&self, n: usize, req: Request, events: &mut Vec<Event>) -> (r: Dispatch)
        requires
            n <= self.layers@.len(),
        ensures
            ({
                let (ev, d) = call_spec(self.params(), self.layers@.take(n as int), req.extensions@, req.body@);
                &&& final(events)@ == old(events)@ + ev
                &&& r@ == d
            }),
        decreases n,
    {
        proof {
            if n > 0 {
                assert(self.layers@.take(n as int).drop_last() =~= self.layers@.take(n - 1));
            }
        }
        if n == 0 {
            let d = self.handler.call(req);
            if let Dispatch::Invoke(_) = &d {
                events.push(Event::Handler);
            }
            proof {
                assert(events@ =~= old(events)@ + call_spec(self.params(), self.layers@.take(0), req.extensions@, req.body@).0);
            }
            d
        } else {
            match &self.layers[n - 1] {
                Middleware::AddData(v) => {
                    let mut req = req;
                    req.extensions.insert(v.duplicate());
                    self.call_layers(n - 1, req, events)
                },
                Middleware::Trace(id) => {
                    events.push(Event::Before(*id));
                    let d = self.call_layers(n - 1, req, events);
                    events.push(Event::After(*id));
                    proof {
                        let (ev, _) = call_spec(self.params(), self.layers@.take(n - 1), req.extensions@, req.body@);
                        assert(events@ =~= old(events)@ + (seq![Event::Before(*id)] + ev + seq![Event::After(*id)]));
                    }
                    d
                },
            }
        }
    }

    /// Runs the request through every layer, outermost first, and the handler.
    pub fn call(&self, req: Request) -> (r: Outcome)
        ensures
            ({
                let (ev, d) = call_spec(self.params(), self.layers(), req.extensions@, req.body@);
                &&& r.events@ == ev
                &&& r.dispatch@ == d
            }),
    {
        let mut events: Vec<Event> = Vec::new();
        proof {
            assert(self.layers@.take(self.layers@.len() as int) =~= self.layers@);
        }
        let dispatch = self.call_layers(self.layers.len(), req, &mut events);
        proof {
            assert(events@ =~= Seq::<Event>::empty() + call_spec(self.params(), self.layers(), req.extensions@, req.body@).0);
        }
        Outcome { events, dispatch }
    }
}

/// How an endpoint answers, as a function of the request's extensions and payload.
pub type Behaviour = spec_fn(Seq<Value>, Option<Seq<u8>>) -> (Seq<Event>, DispatchModel);

/// The behaviour of `m` wrapped around an endpoint that behaves as `inner`.
pub open spec fn transform(m: Middleware, inner: Behaviour) -> Behaviour {
    match m {
        Middleware::AddData(v) => |ext: Seq<Value>, body: Option<Seq<u8>>| inner(ext.push(v), body),
        Middleware::Trace(id) => |ext: Seq<Value>, body: Option<Seq<u8>>| {
            let (ev, d) = inner(ext, body);
            (seq![Event::Before(id)] + ev + seq![Event::After(id)], d)
        },
    }
}

/// `ms` applied to `base` one after the other, left to right.
pub open spec fn fold_transform(ms: Seq<Middleware>, base: Behaviour) -> Behaviour
    decreases ms.len(),
{
    if ms.len() == 0 {
        base
    } else {
        transform(ms.last(), fold_transform(ms.drop_last(), base))
    }
}

/// How many times the handler body ran in a trace.
pub open spec fn handler_runs(ev: Seq<Event>) -> nat
    decreases ev.len(),
{
    if ev.len() == 0 {
        0
    } else {
        handler_runs(ev.drop_last()) + if ev.last() == Event::Handler { 1nat } else { 0nat }
    }
}

proof fn lemma_handler_runs_add(a: Seq<Event>, b: Seq<Event>)
    ensures
        handler_runs(a + b) == handler_runs(a) + handler_runs(b),
    decreases b.len(),
{
    if b.len() > 0 {
        assert((a + b).drop_last() =~= a + b.drop_last());
        lemma_handler_runs_add(a, b.drop_last());
    } else {
        assert(a + b =~= a);
    }
}

/// A handler without parameters leaves the payload alone, is always invoked
/// with no arguments, and its body runs exactly once, whatever middleware
/// wraps it.
pub proof fn lemma_no_params(layers: Seq<Middleware>, ext: Seq<Value>, body: Option<Seq<u8>>)
    ensures
        extract_all(ext, body, seq![]) == (Ok::<Seq<ExtractedModel>, ExtractError>(seq![]), body),
        call_spec(seq![], layers, ext, body).1 == DispatchModel::Invoke(seq![]),
        handler_runs(call_spec(seq![], layers, ext, body).0) == 1,
    decreases layers.len(),
{
    if layers.len() == 0 {
        assert(handler_runs(seq![Event::Handler]) == 1) by {
            assert(seq![Event::Handler].drop_last() =~= Seq::<Event>::empty());
            assert(handler_runs(Seq::<Event>::empty()) == 0);
        }
    } else {
        match layers.last() {
            Middleware::AddData(v) => {
                lemma_no_params(layers.drop_last(), ext.push(v), body);
            },
            Middleware::Trace(id) => {
                lemma_no_params(layers.drop_last(), ext, body);
                let ev = call_spec(seq![], layers.drop_last(), ext, body).0;
                lemma_handler_runs_add(seq![Event::Before(id)], ev);
                lemma_handler_runs_add(seq![Event::Before(id)] + ev, seq![Event::After(id)]);
                assert(handler_runs(seq![Event::Before(id)]) == 0) by {
                    assert(seq![Event::Before(id)].drop_last() =~= Seq::<Event>::empty());
                    assert(handler_runs(Seq::<Event>::empty()) == 0);
                }
                assert(handler_runs(seq![Event::After(id)]) == 0) by {
                    assert(seq![Event::After(id)].drop_last() =~= Seq::<Event>::empty());
                    assert(handler_runs(Seq::<Event>::empty()) == 0);
                }
            },
        }
    }
}

proof fn lemma_layers_fold(xs: Seq<Extractor>, layers: Seq<Middleware>, chain: Seq<Middleware>, ext: Seq<Value>, body: Option<Seq<u8>>)
    ensures
        call_spec(xs, layers + chain, ext, body)
            == fold_transform(chain, |e: Seq<Value>, b: Option<Seq<u8>>| call_spec(xs, layers, e, b))(ext, body),
    decreases chain.len(),
{
    if chain.len() == 0 {
        assert(layers + chain =~= layers);
    } else {
        assert((layers + chain).drop_last() =~= layers + chain.drop_last());
        match chain.last() {
            Middleware::AddData(v) => lemma_layers_fold(xs, layers, chain.drop_last(), ext.push(v), body),
            Middleware::Trace(_) => lemma_layers_fold(xs, layers, chain.drop_last(), ext, body),
        }
    }
}

/// Wrapping an endpoint in a chain of two to sixteen middleware behaves, on
/// every request, as applying each middleware's transform in turn, left to
/// right, to the endpoint it wraps.
pub proof fn lemma_chain_is_fold(xs: Seq<Extractor>, layers: Seq<Middleware>, chain: Seq<Middleware>, ext: Seq<Value>, body: Option<Seq<u8>>)
    requires
        MIN_CHAIN <= chain.len() <= MAX_CHAIN,
    ensures
        call_spec(xs, layers + chain, ext, body)
            == fold_transform(chain, |e: Seq<Value>, b: Option<Seq<u8>>| call_spec(xs, layers, e, b))(ext, body),
{
    lemma_layers_fold(xs, layers, chain, ext, body);
}

/// Two endpoints built from the same handler and the same middleware answer
/// every request alike.
pub proof fn lemma_same_construction(a: &Endpoint, b: &Endpoint, ext: Seq<Value>, body: Option<Seq<u8>>)
    requires
        a.params() == b.params(),
        a.layers() == b.layers(),
    ensures
        call_spec(a.params(), a.layers(), ext, body) == call_spec(b.params(), b.layers(), ext, body),
{
}

/// Entry events of tracing layers `ids` (innermost first), outermost first.
pub open spec fn entries_of(ids: Seq<u32>) -> Seq<Event>
    decreases ids.len(),
{
    if ids.len() == 0 {
        seq![]
    } else {
        seq![Event::Before(ids.last())] + entries_of(ids.drop_last())
    }
}

/// Exit events of tracing layers `ids` (innermost first), innermost first.
pub open spec fn exits_of(ids: Seq<u32>) -> Seq<Event>
    decreases ids.len(),
{
    if ids.len() == 0 {
        seq![]
    } else {
        exits_of(ids.drop_last()) + seq![Event::After(ids.last())]
    }
}

pub open spec fn tracing_layers(ids: Seq<u32>) -> Seq<Middleware> {
    ids.map_values(|id: u32| Middleware::Trace(id))
}

/// Around a handler, tracing layers run their entry logic from the
/// outermost (listed last) inwards, then the handler, then their exit logic
/// from the innermost (listed first) outwards.
pub proof fn lemma_nesting_order(xs: Seq<Extractor>, ids: Seq<u32>, ext: Seq<Value>, body: Option<Seq<u8>>)
    ensures
        call_spec(xs, tracing_layers(ids), ext, body) == (
            entries_of(ids) + call_spec(xs, seq![], ext, body).0 + exits_of(ids),
            call_spec(xs, seq![], ext, body).1,
        ),
    decreases ids.len(),
{
    if ids.len() == 0 {
        assert(tracing_layers(ids) =~= Seq::<Middleware>::empty());
        let ev = call_spec(xs, seq![], ext, body).0;
        assert(entries_of(ids) + ev + exits_of(ids) =~= ev);
    } else {
        assert(tracing_layers(ids).drop_last() =~= tracing_layers(ids.drop_last()));
        lemma_nesting_order(xs, ids.drop_last(), ext, body);
        let ev = call_spec(xs, seq![], ext, body).0;
        let id = ids.last();
        assert(seq![Event::Before(id)] + (entries_of(ids.drop_last()) + ev + exits_of(ids.drop_last())) + seq![Event::After(id)]
            =~= entries_of(ids) + ev + exits_of(ids));
    }
}

} // verus!
