//! The operations the engine performs on the live message, and an in-memory
//! implementation that records them.
use vstd::prelude::*;
use vstd::slice::{slice_subrange, slice_to_vec};

verus! {

/// Which message an operation concerns.
#[derive(Clone, Copy, Debug, PartialEq, Eq, Structural)]
pub enum Side {
    Request,
    Response,
}

/// One operation on the live message, as contracts speak of it.
pub enum HostCall {
    SetHeader(Side, Seq<char>, Seq<u8>),
    AddHeader(Side, Seq<char>, Seq<u8>),
    RemoveHeader(Side, Seq<char>),
    ReadBody(Side, Seq<u8>),
    DrainBody(Side, nat),
    AppendBody(Side, Seq<u8>),
}

/// Access to the live request and response: headers, and the body of each.
///
/// `calls` is the sequence of operations performed so far; each method adds
/// its own operation to it.
pub trait TransformationOps {
    spec fn calls(&self) -> Seq<HostCall>;

    fn set_request_header(&mut self, key: &str, value: &[u8]) -> (r: bool)
        ensures
            final(self).calls() == old(self).calls().push(
                HostCall::SetHeader(Side::Request, key@, value@),
            ),
    ;

    fn add_request_header(&mut self, key: &str, value: &[u8]) -> (r: bool)
        ensures
            final(self).calls() == old(self).calls().push(
                HostCall::AddHeader(Side::Request, key@, value@),
            ),
    ;

    fn remove_request_header(&mut self, key: &str) -> (r: bool)
        ensures
            final(self).calls() == old(self).calls().push(
                HostCall::RemoveHeader(Side::Request, key@),
            ),
    ;

    fn set_response_header(&mut self, key: &str, value: &[u8]) -> (r: bool)
        ensures
            final(self).calls() == old(self).calls().push(
                HostCall::SetHeader(Side::Response, key@, value@),
            ),
    ;

    fn add_response_header(&mut self, key: &str, value: &[u8]) -> (r: bool)
        ensures
            final(self).calls() == old(self).calls().push(
                HostCall::AddHeader(Side::Response, key@, value@),
            ),
    ;

    fn remove_response_header(&mut self, key: &str) -> (r: bool)
        ensures
            final(self).calls() == old(self).calls().push(
                HostCall::RemoveHeader(Side::Response, key@),
            ),
    ;

    /// The whole request body received so far.
    fn request_body(&mut self) -> (r: Vec<u8>)
        ensures
            final(self).calls() == old(self).calls().push(HostCall::ReadBody(Side::Request, r@)),
    ;

    /// The whole response body received so far.
    fn response_body(&mut self) -> (r: Vec<u8>)
        ensures
            final(self).calls() == old(self).calls().push(HostCall::ReadBody(Side::Response, r@)),
    ;

    /// Discards the first `n` bytes of the request body.
    fn drain_request_body(&mut self, n: usize) -> (r: bool)
        ensures
            final(self).calls() == old(self).calls().push(HostCall::DrainBody(Side::Request, n as nat)),
    ;

    /// Discards the first `n` bytes of the response body.
    fn drain_response_body(&mut self, n: usize) -> (r: bool)
        ensures
            final(self).calls() == old(self).calls().push(HostCall::DrainBody(Side::Response, n as nat)),
    ;

    /// Appends `data` to the request body.
    fn append_request_body(&mut self, data: &[u8]) -> (r: bool)
        ensures
            final(self).calls() == old(self).calls().push(
                HostCall::AppendBody(Side::Request, data@),
            ),
    ;

    /// Appends `data` to the response body.
    fn append_response_body(&mut self, data: &[u8]) -> (r: bool)
        ensures
            final(self).calls() == old(self).calls().push(
                HostCall::AppendBody(Side::Response, data@),
            ),
    ;
}

/// A recorded operation on a message.
#[derive(Clone, Debug, PartialEq, Eq)]
pub enum HostOp {
    SetHeader { side: Side, name: String, value: Vec<u8> },
    AddHeader { side: Side, name: String, value: Vec<u8> },
    RemoveHeader { side: Side, name: String },
    ReadBody { side: Side, data: Vec<u8> },
    DrainBody { side: Side, len: usize },
    AppendBody { side: Side, data: Vec<u8> },
}

impl View for HostOp {
    type V = HostCall;

    open spec fn view(&self) -> HostCall {
        match self {
            HostOp::SetHeader { side, name, value } => HostCall::SetHeader(*side, name@, value@),
            HostOp::AddHeader { side, name, value } => HostCall::AddHeader(*side, name@, value@),
            HostOp::RemoveHeader { side, name } => HostCall::RemoveHeader(*side, name@),
            HostOp::ReadBody { side, data } => HostCall::ReadBody(*side, data@),
            HostOp::DrainBody { side, len } => HostCall::DrainBody(*side, *len as nat),
            HostOp::AppendBody { side, data } => HostCall::AppendBody(*side, data@),
        }
    }
}

/// An in-memory message that records every operation performed on it; the
/// bodies it hands out are those it was made with, as drained and appended.
pub struct RecordingOps {
    pub ops: Vec<HostOp>,
    pub request_body: Vec<u8>,
    pub response_body: Vec<u8>,
}

impl RecordingOps {
    /// A message with the given bodies and no operation recorded.
    pub fn new(request_body: Vec<u8>, response_body: Vec<u8>) -> (r: RecordingOps)
        ensures
            r.ops@.len() == 0,
            r.request_body@ == request_body@,
            r.response_body@ == response_body@,
    {
        RecordingOps { ops: Vec::new(), request_body, response_body }
    }

    fn record(&mut self, op: HostOp)
        ensures
            final(self).calls() == old(self).calls().push(op@),
            final(self).request_body == old(self).request_body,
            final(self).response_body == old(self).response_body,
    {
        self.ops.push(op);
        assert(self.calls() =~= old(self).calls().push(op@));
    }
}

/// `body` without its first `n` bytes; empty when it is shorter.
fn drained(body: &Vec<u8>, n: usize) -> (r: Vec<u8>)
    ensures
        r@ == if n <= body@.len() { body@.subrange(n as int, body@.len() as int) } else { Seq::empty() },
{
    if n <= body.len() {
        slice_to_vec(slice_subrange(body.as_slice(), n, body.len()))
    } else {
        Vec::new()
    }
}

/// `body` followed by `data`.
fn appended(body: &Vec<u8>, data: &[u8]) -> (r: Vec<u8>)
    ensures
        r@ == body@ + data@,
{
    let mut out = slice_to_vec(body.as_slice());
    let mut tail = slice_to_vec(data);
    out.append(&mut tail);
    out
}

impl TransformationOps for RecordingOps {
    open spec fn calls(&self) -> Seq<HostCall> {
        self.ops@.map_values(|op: HostOp| op@)
    }

    fn set_request_header(&mut self, key: &str, value: &[u8]) -> (r: bool) {
        self.record(HostOp::SetHeader { side: Side::Request, name: key.to_string(), value: slice_to_vec(value) });
        true
    }

    fn add_request_header(&mut self, key: &str, value: &[u8]) -> (r: bool) {
        self.record(HostOp::AddHeader { side: Side::Request, name: key.to_string(), value: slice_to_vec(value) });
        true
    }

    fn remove_request_header(&mut self, key: &str) -> (r: bool) {
        self.record(HostOp::RemoveHeader { side: Side::Request, name: key.to_string() });
        true
    }

    fn set_response_header(&mut self, key: &str, value: &[u8]) -> (r: bool) {
        self.record(HostOp::SetHeader { side: Side::Response, name: key.to_string(), value: slice_to_vec(value) });
        true
    }

    fn add_response_header(&mut self, key: &str, value: &[u8]) -> (r: bool) {
        self.record(HostOp::AddHeader { side: Side::Response, name: key.to_string(), value: slice_to_vec(value) });
        true
    }

    fn remove_response_header(&mut self, key: &str) -> (r: bool) {
        self.record(HostOp::RemoveHeader { side: Side::Response, name: key.to_string() });
        true
    }

    fn request_body(&mut self) -> (r: Vec<u8>) {
        let data = slice_to_vec(self.request_body.as_slice());
        self.record(HostOp::ReadBody { side: Side::Request, data: slice_to_vec(data.as_slice()) });
        data
    }

    fn response_body(&mut self) -> (r: Vec<u8>) {
        let data = slice_to_vec(self.response_body.as_slice());
        self.record(HostOp::ReadBody { side: Side::Response, data: slice_to_vec(data.as_slice()) });
        data
    }

    fn drain_request_body(&mut self, n: usize) -> (r: bool) {
        self.record(HostOp::DrainBody { side: Side::Request, len: n });
        self.request_body = drained(&self.request_body, n);
        true
    }

    fn drain_response_body(&mut self, n: usize) -> (r: bool) {
        self.record(HostOp::DrainBody { side: Side::Response, len: n });
        self.response_body = drained(&self.response_body, n);
        true
    }

    fn append_request_body(&mut self, data: &[u8]) -> (r: bool) {
        self.record(HostOp::AppendBody { side: Side::Request, data: slice_to_vec(data) });
        self.request_body = appended(&self.request_body, data);
        true
    }

    fn append_response_body(&mut self, data: &[u8]) -> (r: bool) {
        self.record(HostOp::AppendBody { side: Side::Response, data: slice_to_vec(data) });
        self.response_body = appended(&self.response_body, data);
        true
    }
}

} // verus!
