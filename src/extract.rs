use vstd::prelude::*;
use vstd::string::StringExecFns;
use crate::data::{missing_data_message, Data, GetDataError};
use crate::http::{lookup, Request, RequestBody, Response, TypeTag, Value, STATUS_INTERNAL_SERVER_ERROR};

verus! {

/// How one handler parameter is obtained from a request.
#[derive(Clone, Copy, PartialEq, Eq, Structural, Debug)]
pub enum Extractor {
    /// Shared data of the given type, from the extension map.
    Data(TypeTag),
    /// The whole payload; it consumes the body.
    Body,
}

/// Why an extractor failed.
#[derive(Clone, Copy, PartialEq, Eq, Structural, Debug)]
pub enum ExtractError {
    Data(GetDataError),
    /// The payload was already consumed by an earlier extractor.
    BodyTaken,
}

pub open spec fn error_status(e: ExtractError) -> u16 {
    STATUS_INTERNAL_SERVER_ERROR
}

pub open spec fn error_message(e: ExtractError) -> Seq<char> {
    match e {
        ExtractError::Data(d) => missing_data_message(d.0),
        ExtractError::BodyTaken => "the body has been taken"@,
    }
}

impl ExtractError {
    /// The response that stands in for the handler when extraction fails.
    pub fn as_response(&self) -> (r: Response)
        ensures
            r.status == error_status(*self),
            r.body@ == error_message(*self),
    {
        match self {
            ExtractError::Data(d) => d.as_response(),
            ExtractError::BodyTaken => Response::new(STATUS_INTERNAL_SERVER_ERROR, String::from_str("the body has been taken")),
        }
    }
}

/// A value produced by an extractor.
#[derive(Debug)]
pub enum Extracted {
    Data(Value),
    Body(Vec<u8>),
}

/// What an extractor produced, as plain values.
pub enum ExtractedModel {
    Data(Value),
    Body(Seq<u8>),
}

impl View for Extracted {
    type V = ExtractedModel;

    open spec fn view(&self) -> ExtractedModel {
        match self {
            Extracted::Data(v) => ExtractedModel::Data(*v),
            Extracted::Body(b) => ExtractedModel::Body(b@),
        }
    }
}

/// One extraction against the extensions `ext` and the payload `body`: its
/// result and the payload left afterwards.
pub open spec fn extract_one(ext: Seq<Value>, body: Option<Seq<u8>>, x: Extractor) -> (Result<ExtractedModel, ExtractError>, Option<Seq<u8>>) {
    match x {
        Extractor::Data(tag) => match lookup(ext, tag) {
            Some(v) => (Ok(ExtractedModel::Data(v)), body),
            None => (Err(ExtractError::Data(GetDataError(tag))), body),
        },
        Extractor::Body => match body {
            Some(b) => (Ok(ExtractedModel::Body(b)), None),
            None => (Err(ExtractError::BodyTaken), None),
        },
    }
}

/// The extractors `xs` run in order, stopping at the first failure: the
/// values, or the first error, and the payload left afterwards.
pub open spec fn extract_all(ext: Seq<Value>, body: Option<Seq<u8>>, xs: Seq<Extractor>) -> (Result<Seq<ExtractedModel>, ExtractError>, Option<Seq<u8>>)
    decreases xs.len(),
{
    if xs.len() == 0 {
        (Ok(seq![]), body)
    } else {
        let (prev, b) = extract_all(ext, body, xs.drop_last());
        match prev {
            Err(e) => (Err(e), b),
            Ok(vals) => {
                let (one, b2) = extract_one(ext, b, xs.last());
                match one {
                    Ok(v) => (Ok(vals.push(v)), b2),
                    Err(e) => (Err(e), b2),
                }
            },
        }
    }
}

/// Runs one extractor against the request's metadata and its detached payload.
pub fn extract(req: &Request, x: Extractor, body: &mut RequestBody) -> (r: Result<Extracted, ExtractError>)
    ensures
        ({
            let (res, b) = extract_one(req.extensions@, old(body)@, x);
            &&& final(body)@ == b
            &&& match res {
                Ok(v) => r is Ok && r->Ok_0@ == v,
                Err(e) => r == Err::<Extracted, ExtractError>(e),
            }
        }),
{
    match x {
        Extractor::Data(tag) => match Data::from_request(req, tag, body) {
            Ok(d) => Ok(Extracted::Data(d.0.duplicate())),
            Err(e) => Err(ExtractError::Data(e)),
        },
        Extractor::Body => match body.take() {
            Some(b) => Ok(Extracted::Body(b)),
            None => Err(ExtractError::BodyTaken),
        },
    }
}

/// Runs the extractors in declared order; the first one that fails ends the
/// extraction, and none after it runs.
pub fn extract_params(req: &Request, xs: &Vec<Extractor>, body: &mut RequestBody) -> (r: Result<Vec<Extracted>, ExtractError>)
    ensures
        ({
            let (res, b) = extract_all(req.extensions@, old(body)@, xs@);
            &&& final(body)@ == b
            &&& match res {
                Ok(vals) => r is Ok && r->Ok_0@.map_values(|e: Extracted| e@) == vals,
                Err(e) => r == Err::<Vec<Extracted>, ExtractError>(e),
            }
        }),
{
    let mut vals: Vec<Extracted> = Vec::new();
    let mut i: usize = 0;
    while i < xs.len()
        invariant
            i <= xs@.len(),
            ({
                let (res, b) = extract_all(req.extensions@, old(body)@, xs@.take(i as int));
                &&& body@ == b
                &&& res is Ok
                &&& vals@.map_values(|e: Extracted| e@) == res->Ok_0
            }),
        decreases xs@.len() - i,
    {
        proof {
            assert(xs@.take(i as int + 1).drop_last() =~= xs@.take(i as int));
        }
        match extract(req, xs[i], body) {
            Ok(v) => {
                vals.push(v);
                proof {
                    let (res, b) = extract_all(req.extensions@, old(body)@, xs@.take(i as int));
                    assert(vals@.map_values(|e: Extracted| e@) =~= res->Ok_0.push(v@));
                }
            },
            Err(e) => {
                proof {
                    lemma_failure_stops(req.extensions@, old(body)@, xs@, i as int);
                }
                return Err(e);
            },
        }
        i += 1;
    }
    proof {
        assert(xs@.take(xs@.len() as int) =~= xs@);
    }
    Ok(vals)
}

/// When extractor `k` fails after the ones before it succeeded, the outcome
/// of the whole list is that failure and the payload as it left extractor
/// `k`: the extractors after it change nothing.
pub proof fn lemma_failure_stops(ext: Seq<Value>, body: Option<Seq<u8>>, xs: Seq<Extractor>, k: int)
    requires
        0 <= k < xs.len(),
        extract_all(ext, body, xs.take(k)).0 is Ok,
        extract_one(ext, extract_all(ext, body, xs.take(k)).1, xs[k]).0 is Err,
    ensures
        extract_all(ext, body, xs) == extract_all(ext, body, xs.take(k + 1)),
        extract_all(ext, body, xs) == (
            Err::<Seq<ExtractedModel>, ExtractError>(extract_one(ext, extract_all(ext, body, xs.take(k)).1, xs[k]).0->Err_0),
            extract_one(ext, extract_all(ext, body, xs.take(k)).1, xs[k]).1,
        ),
    decreases xs.len(),
{
    if xs.len() == k + 1 {
        assert(xs.take(k + 1) =~= xs);
        assert(xs.drop_last() =~= xs.take(k));
    } else {
        assert(xs.drop_last().take(k) =~= xs.take(k));
        assert(xs.drop_last().take(k + 1) =~= xs.take(k + 1));
        lemma_failure_stops(ext, body, xs.drop_last(), k);
        assert(xs.take(k + 1).drop_last() =~= xs.take(k));
    }
}

} // verus!
