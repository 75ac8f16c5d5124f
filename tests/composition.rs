use poem::endpoint::{Dispatch, Event, Handler, Middleware, MiddlewareChain};
use poem::extract::{extract_params, ExtractError, Extracted, Extractor};
use poem::http::{Request, RequestBody, Response, TypeTag, Value};

fn invoked(d: Dispatch) -> Vec<Extracted> {
    match d {
        Dispatch::Invoke(args) => args,
        Dispatch::Reject(r) => panic!("rejected with {} {}", r.status, r.body),
    }
}

fn rejected(d: Dispatch) -> Response {
    match d {
        Dispatch::Reject(r) => r,
        Dispatch::Invoke(_) => panic!("the handler must not run"),
    }
}

#[test]
fn zero_params_invoke_once_and_keep_body() {
    let h = Handler::new(vec![]);
    let out = h.with(Middleware::Trace(1)).call(Request::with_body(vec![9, 9]));
    assert_eq!(out.events, vec![Event::Before(1), Event::Handler, Event::After(1)]);
    assert!(invoked(out.dispatch).is_empty());

    let req = Request::default();
    let mut body = RequestBody::new(vec![4, 5]);
    let vals = extract_params(&req, &vec![], &mut body).unwrap();
    assert!(vals.is_empty());
    assert_eq!(body.take(), Some(vec![4, 5]));
}

#[test]
fn extraction_runs_in_declared_order() {
    let h = Handler::new(vec![Extractor::Body, Extractor::Data(TypeTag::I32)]);
    let ep = h.with(Middleware::AddData(Value::Int(5)));
    let args = invoked(ep.call(Request::with_body(b"payload".to_vec())).dispatch);
    assert_eq!(args.len(), 2);
    match (&args[0], &args[1]) {
        (Extracted::Body(b), Extracted::Data(Value::Int(n))) => {
            assert_eq!(b, b"payload");
            assert_eq!(*n, 5);
        }
        other => panic!("unexpected arguments {:?}", other),
    }
}

#[test]
fn first_failure_stops_extraction() {
    let req = Request::default();
    let mut body = RequestBody::new(vec![1]);
    let xs = vec![Extractor::Data(TypeTag::I32), Extractor::Body];
    let err = extract_params(&req, &xs, &mut body).err().unwrap();
    assert!(matches!(err, ExtractError::Data(_)));
    // the body extractor after the failing one never ran
    assert_eq!(body.take(), Some(vec![1]));

    let h = Handler::new(vec![Extractor::Data(TypeTag::Text), Extractor::Data(TypeTag::I32)]);
    let out = h.with(Middleware::Trace(3)).call(Request::default());
    assert_eq!(out.events, vec![Event::Before(3), Event::After(3)]);
    let r = rejected(out.dispatch);
    assert_eq!(r.status, 500);
    assert_eq!(r.body, "data of type `alloc::string::String` was not found.");
}

#[test]
fn second_body_extractor_sees_taken_body() {
    let h = Handler::new(vec![Extractor::Body, Extractor::Body]);
    let r = rejected(h.call(Request::with_body(vec![1, 2])));
    assert_eq!(r.status, 500);
    assert_eq!(r.body, "the body has been taken");
    assert_eq!(ExtractError::BodyTaken.as_response().body, "the body has been taken");
}

#[test]
fn body_extractor_consumes_payload() {
    let h = Handler::new(vec![Extractor::Body]);
    let args = invoked(h.call(Request::with_body(br#"{"name":"x"}"#.to_vec())));
    match &args[0] {
        Extracted::Body(b) => assert_eq!(b, br#"{"name":"x"}"#),
        other => panic!("unexpected argument {:?}", other),
    }
}

#[test]
fn chain_size_bounds() {
    assert!(MiddlewareChain::new(vec![Middleware::Trace(1)]).is_none());
    assert!(MiddlewareChain::new((0..17).map(Middleware::Trace).collect()).is_none());
    assert_eq!(MiddlewareChain::new((0..2).map(Middleware::Trace).collect()).unwrap().len(), 2);
    assert_eq!(MiddlewareChain::new((0..16).map(Middleware::Trace).collect()).unwrap().len(), 16);
}

#[test]
fn three_middleware_nest_in_fold_order() {
    // listed M3, M2, M1: the first listed is innermost
    let chain = MiddlewareChain::new(vec![Middleware::Trace(3), Middleware::Trace(2), Middleware::Trace(1)]).unwrap();
    let ep = Handler::new(vec![]).into_endpoint().with_chain(chain);
    let out = ep.call(Request::default());
    assert_eq!(
        out.events,
        vec![
            Event::Before(1),
            Event::Before(2),
            Event::Before(3),
            Event::Handler,
            Event::After(3),
            Event::After(2),
            Event::After(1),
        ]
    );
}

#[test]
fn chain_equals_one_by_one() {
    let make = || vec![Middleware::AddData(Value::Int(1)), Middleware::Trace(8), Middleware::AddData(Value::Int(2))];
    let chained = Handler::new(vec![Extractor::Data(TypeTag::I32)])
        .into_endpoint()
        .with_chain(MiddlewareChain::new(make()).unwrap());
    let mut stepwise = Handler::new(vec![Extractor::Data(TypeTag::I32)]).into_endpoint();
    for m in make() {
        stepwise = stepwise.with(m);
    }
    let a = chained.call(Request::default());
    let b = stepwise.call(Request::default());
    assert_eq!(a.events, b.events);
    assert_eq!(a.events, vec![Event::Before(8), Event::Handler, Event::After(8)]);
    // the data added first is the one the handler sees: it is innermost
    for out in [a, b] {
        match &invoked(out.dispatch)[0] {
            Extracted::Data(Value::Int(n)) => assert_eq!(*n, 1),
            other => panic!("unexpected argument {:?}", other),
        }
    }
}

#[test]
fn same_chain_built_twice_behaves_alike() {
    let build = || {
        Handler::new(vec![Extractor::Data(TypeTag::I32)])
            .into_endpoint()
            .with_chain(MiddlewareChain::new(vec![Middleware::Trace(1), Middleware::AddData(Value::Int(100))]).unwrap())
    };
    let (a, b) = (build(), build());
    for _ in 0..2 {
        let (x, y) = (a.call(Request::default()), b.call(Request::default()));
        assert_eq!(x.events, y.events);
        match (&invoked(x.dispatch)[0], &invoked(y.dispatch)[0]) {
            (Extracted::Data(Value::Int(m)), Extracted::Data(Value::Int(n))) => {
                assert_eq!(*m, 100);
                assert_eq!(m, n);
            }
            other => panic!("unexpected arguments {:?}", other),
        }
    }
}

#[test]
fn split_detaches_body() {
    let (req, mut body) = Request::with_body(vec![3]).split();
    let mut rest = req.body;
    assert!(rest.is_taken());
    assert_eq!(rest.take(), None);
    assert_eq!(body.take(), Some(vec![3]));
    assert_eq!(body.take(), None);
}

#[test]
fn response_take_body() {
    let mut r = Response::ok("hello");
    assert_eq!(r.status(), 200);
    assert_eq!(r.take_body(), "hello");
    assert_eq!(r.body, "");
}
