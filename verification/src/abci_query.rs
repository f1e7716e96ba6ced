//! The request that queries the application of a node, and the response to
//! it.

use vstd::prelude::*;

verus! {

/// The methods of the RPC interface that this library has requests for.
#[derive(Clone, Copy, Debug, PartialEq, Eq, Structural)]
pub enum Method {
    /// Query the application.
    AbciQuery,
}

/// The path to the data that a query asks for.
#[derive(Clone, Debug, PartialEq, Eq)]
pub struct Path(pub String);

/// The code that the application answers with: `0` for success, else the
/// application's own error number.
#[derive(Clone, Copy, Debug, PartialEq, Eq, Structural)]
pub struct Code(pub u32);

impl Code {
    /// Whether the code stands for success.
    pub fn is_ok(&self) -> (ok: bool)
        ensures
            ok == (self.0 == 0),
    {
        self.0 == 0
    }
}

/// The log line of an answer.
#[derive(Clone, Debug, PartialEq, Eq)]
pub struct Log(pub String);

/// One step of a proof that a key holds a value.
#[derive(Clone, Debug, PartialEq, Eq)]
pub struct ProofOp {
    /// The kind of the step.
    pub field_type: String,
    /// The key that the step is about.
    pub key: Vec<u8>,
    /// The encoded step.
    pub data: Vec<u8>,
}

/// A proof that a key holds a value: its steps in order.
#[derive(Clone, Debug, PartialEq, Eq)]
pub struct Proof {
    /// The steps.
    pub ops: Vec<ProofOp>,
}

/// A query to the application.
#[derive(Clone, Debug, PartialEq, Eq)]
pub struct Request {
    path: Option<Path>,
    data: Vec<u8>,
    height: Option<u64>,
    prove: bool,
}

/// What a request holds.
pub struct RequestView {
    /// The path to the data.
    pub path: Option<Seq<char>>,
    /// The data to query.
    pub data: Seq<u8>,
    /// The height of the block to query at.
    pub height: Option<u64>,
    /// Whether the response is to hold a proof.
    pub prove: bool,
}

/// The characters of an optional path.
pub open spec fn path_view(path: Option<Path>) -> Option<Seq<char>> {
    match path {
        Some(p) => Some(p.0@),
        None => None,
    }
}

impl View for Request {
    type V = RequestView;

    closed spec fn view(&self) -> RequestView {
        RequestView {
            path: path_view(self.path),
            data: self.data@,
            height: self.height,
            prove: self.prove,
        }
    }
}

impl Request {
    /// Makes a query of the data under a path, at a height, with or without
    /// proof.
    pub fn new(path: Option<Path>, data: Vec<u8>, height: Option<u64>, prove: bool) -> (r: Request)
        ensures
            r@ == (RequestView { path: path_view(path), data: data@, height, prove }),
    {
        Request { path, data, height, prove }
    }

    /// The method that the request calls.
    pub fn method(&self) -> (m: Method)
        ensures
            m == Method::AbciQuery,
    {
        Method::AbciQuery
    }

    /// The path to the data.
    pub fn path(&self) -> (p: &Option<Path>)
        ensures
            path_view(*p) == self@.path,
    {
        &self.path
    }

    /// The data to query.
    pub fn data(&self) -> (d: &Vec<u8>)
        ensures
            d@ == self@.data,
    {
        &self.data
    }

    /// The height of the block to query at.
    pub fn height(&self) -> (h: Option<u64>)
        ensures
            h == self@.height,
    {
        self.height
    }

    /// Whether the response is to hold a proof.
    pub fn prove(&self) -> (p: bool)
        ensures
            p == self@.prove,
    {
        self.prove
    }
}

/// The results of a query.
#[derive(Clone, Debug, PartialEq, Eq)]
pub struct AbciQuery {
    /// The code of the answer.
    pub code: Code,
    /// The log line.
    pub log: Log,
    /// Further information.
    pub info: Option<String>,
    /// The index of the key in the tree.
    pub index: i64,
    /// The key.
    pub key: Option<Vec<u8>>,
    /// The value.
    pub value: Option<Vec<u8>>,
    /// The proof, where one was asked for.
    pub proof: Option<Proof>,
    /// The height of the block that the answer is from.
    pub height: Option<u64>,
    /// The namespace of the code.
    pub codespace: Option<String>,
}

impl Default for Code {
    fn default() -> (c: Code)
        ensures
            c == Code(0),
    {
        Code(0)
    }
}

impl Default for Log {
    fn default() -> (l: Log)
        ensures
            l.0@ == Seq::<char>::empty(),
    {
        Log(String::new())
    }
}

impl Default for AbciQuery {
    fn default() -> (q: AbciQuery)
        ensures
            q.code == Code(0),
            q.log.0@ == Seq::<char>::empty(),
            q.info is None,
            q.index == 0,
            q.key is None,
            q.value is None,
            q.proof is None,
            q.height is None,
            q.codespace is None,
    {
        AbciQuery {
            code: Code::default(),
            log: Log::default(),
            info: None,
            index: 0,
            key: None,
            value: None,
            proof: None,
            height: None,
            codespace: None,
        }
    }
}

/// The response to a query.
#[derive(Clone, Debug, PartialEq, Eq)]
pub struct Response {
    /// The results of the query.
    pub response: AbciQuery,
}

} // verus!
