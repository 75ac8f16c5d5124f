use poem::data::{Data, GetDataError};
use poem::endpoint::{Dispatch, Handler, Middleware};
use poem::extract::{Extracted, Extractor};
use poem::http::{Request, RequestBody, TypeTag, Value, STATUS_INTERNAL_SERVER_ERROR};

#[test]
fn test_data_extractor() {
    let index = Handler::new(vec![Extractor::Data(TypeTag::I32)]);
    let app = index.with(Middleware::AddData(Value::Int(100i32)));
    let out = app.call(Request::default());
    match out.dispatch {
        Dispatch::Invoke(args) => {
            assert_eq!(args.len(), 1);
            match &args[0] {
                Extracted::Data(Value::Int(n)) => assert_eq!(n, &100),
                other => panic!("unexpected argument {:?}", other),
            }
        }
        Dispatch::Reject(_) => panic!("extraction failed"),
    }
}

#[test]
fn test_data_extractor_error() {
    let index = Handler::new(vec![Extractor::Data(TypeTag::I32)]);
    let app = index;
    match app.call(Request::default()) {
        Dispatch::Reject(mut resp) => {
            assert_eq!(resp.status(), STATUS_INTERNAL_SERVER_ERROR);
            assert_eq!(resp.take_body(), "data of type `i32` was not found.");
        }
        Dispatch::Invoke(_) => panic!("the handler must not run"),
    }
}

#[test]
fn test_data_extractor_deref() {
    let index = Handler::new(vec![Extractor::Data(TypeTag::Text)]);
    let app = index.with(Middleware::AddData(Value::Text("abc".to_string())));
    match app.call(Request::default()).dispatch {
        Dispatch::Invoke(args) => match &args[0] {
            Extracted::Data(Value::Text(s)) => {
                let value = Data(s);
                assert_eq!(value.deref().to_uppercase(), "ABC");
            }
            other => panic!("unexpected argument {:?}", other),
        },
        Dispatch::Reject(_) => panic!("extraction failed"),
    }
}

#[test]
fn data_from_request_reads_extension_and_leaves_body() {
    let mut req = Request::default();
    req.extensions.insert(Value::Int(7));
    let mut body = RequestBody::new(vec![1, 2, 3]);
    let d = Data::from_request(&req, TypeTag::I32, &mut body).unwrap();
    match d.0 {
        Value::Int(n) => assert_eq!(*n, 7),
        other => panic!("unexpected value {:?}", other),
    }
    assert!(!body.is_taken());
    assert_eq!(body.take(), Some(vec![1, 2, 3]));
}

#[test]
fn data_from_request_missing_type() {
    let mut req = Request::default();
    req.extensions.insert(Value::Int(7));
    let mut body = RequestBody::taken();
    let err = Data::from_request(&req, TypeTag::Text, &mut body).err().unwrap();
    assert_eq!(err, GetDataError(TypeTag::Text));
    assert_eq!(err.message(), "data of type `alloc::string::String` was not found.");
    let resp = err.as_response();
    assert_eq!(resp.status, 500);
}

#[test]
fn later_extension_hides_earlier_of_same_type() {
    let mut req = Request::default();
    req.extensions.insert(Value::Int(1));
    req.extensions.insert(Value::Text("t".to_string()));
    req.extensions.insert(Value::Int(2));
    match req.extensions.get(TypeTag::I32) {
        Some(Value::Int(n)) => assert_eq!(*n, 2),
        other => panic!("unexpected lookup {:?}", other),
    }
    match req.extensions.get(TypeTag::Text) {
        Some(Value::Text(s)) => assert_eq!(s, "t"),
        other => panic!("unexpected lookup {:?}", other),
    }
}

#[test]
fn type_names() {
    assert_eq!(TypeTag::I32.name(), "i32");
    assert_eq!(TypeTag::Text.name(), "alloc::string::String");
}
