use vstd::prelude::*;
use vstd::string::StringExecFns;
use crate::http::{lookup, type_name_of, Request, RequestBody, Response, TypeTag, Value, STATUS_INTERNAL_SERVER_ERROR};

verus! {

/// An extractor that reads shared data from the request's extension map.
pub struct Data<T>(pub T);

impl<T> Data<T> {
    pub fn deref(&self) -> (r: &T)
        ensures
            r == &self.0,
    {
        &self.0
    }
}

/// The diagnostic text of a missing shared value of type `tag`.
pub open spec fn missing_data_message(tag: TypeTag) -> Seq<char> {
    "data of type `"@ + type_name_of(tag) + "` was not found."@
}

/// No value of the requested type is in the extension map.
#[derive(Clone, Copy, PartialEq, Eq, Structural, Debug)]
pub struct GetDataError(pub TypeTag);

impl GetDataError {
    pub fn message(&self) -> (r: String)
        ensures
            r@ == missing_data_message(self.0),
    {
        let mut s = String::from_str("data of type `");
        s.append(self.0.name());
        s.append("` was not found.");
        s
    }

    /// An internal-error response whose body names the missing type.
    pub fn as_response(&self) -> (r: Response)
        ensures
            r.status == STATUS_INTERNAL_SERVER_ERROR,
            r.body@ == missing_data_message(self.0),
    {
        Response::new(STATUS_INTERNAL_SERVER_ERROR, self.message())
    }
}

impl<'a> Data<&'a Value> {
    /// Reads the value of type `tag` from `req`'s extensions; the payload is
    /// left as it is.
    pub fn from_request(req: &'a Request, tag: TypeTag, body: &mut RequestBody) -> (r: Result<Data<&'a Value>, GetDataError>)
        ensures
            final(body)@ == old(body)@,
            match lookup(req.extensions@, tag) {
                Some(v) => r is Ok && *(r->Ok_0).0 == v,
                None => r == Err::<Data<&'a Value>, GetDataError>(GetDataError(tag)),
            },
    {
        match req.extensions.get(tag) {
            Some(v) => Ok(Data(v)),
            None => Err(GetDataError(tag)),
        }
    }
}

} // verus!
