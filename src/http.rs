use vstd::prelude::*;
use vstd::string::StringExecFns;

verus! {

/// The type under which a value is kept in a request's extension map.
#[derive(Clone, Copy, PartialEq, Eq, Structural, Debug)]
pub enum TypeTag {
    I32,
    Text,
}

/// The name of the type that a tag stands for, as Rust prints it in diagnostics.
pub open spec fn type_name_of(tag: TypeTag) -> Seq<char> {
    match tag {
        TypeTag::I32 => "i32"@,
        TypeTag::Text => "alloc::string::String"@,
    }
}

impl TypeTag {
    pub fn name(&self) -> (r: &'static str)
        ensures
            r@ == type_name_of(*self),
    {
        match self {
            TypeTag::I32 => "i32",
            TypeTag::Text => "alloc::string::String",
        }
    }
}

/// A value that can be shared with handlers through the extension map.
#[derive(Debug)]
pub enum Value {
    Int(i32),
    Text(String),
}

impl Value {
    pub open spec fn tag_of(&self) -> TypeTag {
        match self {
            Value::Int(_) => TypeTag::I32,
            Value::Text(_) => TypeTag::Text,
        }
    }

    pub fn tag(&self) -> (r: TypeTag)
        ensures
            r == self.tag_of(),
    {
        match self {
            Value::Int(_) => TypeTag::I32,
            Value::Text(_) => TypeTag::Text,
        }
    }

    pub fn duplicate(&self) -> (r: Value)
        ensures
            r == *self,
    {
        match self {
            Value::Int(n) => Value::Int(*n),
            Value::Text(s) => Value::Text(s.clone()),
        }
    }
}

/// The value stored last under `tag` among `entries`, if any.
pub open spec fn lookup(entries: Seq<Value>, tag: TypeTag) -> Option<Value>
    decreases entries.len(),
{
    if entries.len() == 0 {
        None
    } else if entries.last().tag_of() == tag {
        Some(entries.last())
    } else {
        lookup(entries.drop_last(), tag)
    }
}

/// A typed map of out-of-band data: at most one visible value per type,
/// the one inserted last.
pub struct Extensions {
    entries: Vec<Value>,
}

impl View for Extensions {
    type V = Seq<Value>;

    closed spec fn view(&self) -> Seq<Value> {
        self.entries@
    }
}

impl Extensions {
    pub fn new() -> (r: Extensions)
        ensures
            r@ == Seq::<Value>::empty(),
    {
        Extensions { entries: Vec::new() }
    }

    /// Stores `value`, hiding any earlier value of its type.
    pub fn insert(&mut self, value: Value)
        ensures
            final(self)@ == old(self)@.push(value),
            lookup(final(self)@, value.tag_of()) == Some(value),
            forall|t: TypeTag| t != value.tag_of() ==> lookup(final(self)@, t) == lookup(old(self)@, t),
    {
        self.entries.push(value);
        proof {
            assert(self.entries@.drop_last() =~= old(self)@);
        }
    }

    /// The value of type `tag`, if one was inserted.
    pub fn get(&self, tag: TypeTag) -> (r: Option<&Value>)
        ensures
            match lookup(self@, tag) {
                Some(v) => r == Some(&v),
                None => r is None,
            },
    {
        let mut i: usize = self.entries.len();
        proof {
            assert(self.entries@.take(i as int) =~= self.entries@);
        }
        while i > 0
            invariant
                i <= self.entries@.len(),
                lookup(self.entries@, tag) == lookup(self.entries@.take(i as int), tag),
            decreases i,
        {
            proof {
                assert(self.entries@.take(i as int).drop_last() =~= self.entries@.take(i - 1));
            }
            if self.entries[i - 1].tag() == tag {
                return Some(&self.entries[i - 1]);
            }
            i -= 1;
        }
        None
    }
}

/// The payload of a request: it can be taken once.
pub struct RequestBody {
    data: Option<Vec<u8>>,
}

impl View for RequestBody {
    type V = Option<Seq<u8>>;

    closed spec fn view(&self) -> Option<Seq<u8>> {
        match self.data {
            Some(v) => Some(v@),
            None => None,
        }
    }
}

impl RequestBody {
    pub fn new(bytes: Vec<u8>) -> (r: RequestBody)
        ensures
            r@ == Some(bytes@),
    {
        RequestBody { data: Some(bytes) }
    }

    /// A body that holds no payload, as one already taken does.
    pub fn taken() -> (r: RequestBody)
        ensures
            r@ is None,
    {
        RequestBody { data: None }
    }

    pub fn is_taken(&self) -> (r: bool)
        ensures
            r == (self@ is None),
    {
        self.data.is_none()
    }

    /// Takes the payload; every later call gets `None`.
    pub fn take(&mut self) -> (r: Option<Vec<u8>>)
        ensures
            final(self)@ is None,
            match old(self)@ {
                Some(b) => r is Some && r->0@ == b,
                None => r is None,
            },
    {
        self.data.take()
    }
}

/// An incoming request: its extension map and its payload.
pub struct Request {
    pub extensions: Extensions,
    pub body: RequestBody,
}

impl Request {
    /// A request with no extensions and an empty payload.
    pub fn new() -> (r: Request)
        ensures
            r.extensions@ == Seq::<Value>::empty(),
            r.body@ == Some(Seq::<u8>::empty()),
    {
        Request { extensions: Extensions::new(), body: RequestBody::new(Vec::new()) }
    }

    pub fn with_body(bytes: Vec<u8>) -> (r: Request)
        ensures
            r.extensions@ == Seq::<Value>::empty(),
            r.body@ == Some(bytes@),
    {
        Request { extensions: Extensions::new(), body: RequestBody::new(bytes) }
    }

    /// Detaches the payload: the request keeps its metadata, the payload is
    /// owned by the returned body alone.
    pub fn split(self) -> (r: (Request, RequestBody))
        ensures
            r.0.extensions@ == self.extensions@,
            r.0.body@ is None,
            r.1@ == self.body@,
    {
        (Request { extensions: self.extensions, body: RequestBody::taken() }, self.body)
    }
}

impl Default for Request {
    fn default() -> (r: Request)
        ensures
            r.extensions@ == Seq::<Value>::empty(),
            r.body@ == Some(Seq::<u8>::empty()),
    {
        Request::new()
    }
}

pub const STATUS_OK: u16 = 200;
pub const STATUS_INTERNAL_SERVER_ERROR: u16 = 500;

/// What an endpoint sends back: a status code and a text body.
pub struct Response {
    pub status: u16,
    pub body: String,
}

impl Response {
    pub fn new(status: u16, body: String) -> (r: Response)
        ensures
            r.status == status,
            r.body == body,
    {
        Response { status, body }
    }

    /// A successful response carrying `text`.
    pub fn ok(text: &str) -> (r: Response)
        ensures
            r.status == STATUS_OK,
            r.body@ == text@,
    {
        Response { status: STATUS_OK, body: String::from_str(text) }
    }

    pub fn status(&self) -> (r: u16)
        ensures
            r == self.status,
    {
        self.status
    }

    /// Moves the body out, leaving an empty one.
    pub fn take_body(&mut self) -> (r: String)
        ensures
            r == old(self).body,
            final(self).body@ == Seq::<char>::empty(),
            final(self).status == old(self).status,
    {
        let mut empty = String::new();
        std::mem::swap(&mut self.body, &mut empty);
        empty
    }
}

} // verus!
