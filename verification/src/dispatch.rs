//! Request routing: a mapping from request paths to a registered service,
//! populated at startup, and the translation of a handler's outcome into a
//! populated response envelope.

use vstd::prelude::*;
use crate::meta::Meta;
use crate::meta::RequestMeta;
use crate::meta::RequestMetaView;
use crate::meta::ResponseMeta;
use crate::meta::ResponseMetaView;
use crate::meta::push_bytes;

verus! {

/// Fixed sentinel error code reported for any handler failure.
pub const FAILURE_ERROR_CODE: i32 = -1;

/// A request-recoverable failure: it becomes a populated error response
/// frame and the connection continues.
#[derive(Clone, Debug, PartialEq, Eq)]
pub enum HandlerError {
    /// No handler is registered under the request path; carries the path.
    Unimplemented(Vec<u8>),
    /// The handler itself failed (payload decode, business logic or result
    /// encode); carries its message.
    Failed(Vec<u8>),
}

/// What a registered handler does: turn the raw payload bytes of one
/// request into raw response payload bytes, or fail with a message. The
/// core never looks inside either; the implementations come from outside
/// (the schema compiler generates them in the surrounding system).
pub trait Service {
    fn handle(&self, path: &Vec<u8>, payload: &Vec<u8>) -> Result<Vec<u8>, Vec<u8>>;
}

/// The byte spelling a path separator (a forward slash).
pub const SLASH: u8 = 0x2f;

/// The request path a request envelope names: `/service/method`.
pub open spec fn request_path(r: RequestMetaView) -> Seq<u8> {
    seq![SLASH] + r.service_name + seq![SLASH] + r.method_name
}

/// Builds the request path of an envelope.
pub fn build_path(r: &RequestMeta) -> (p: Vec<u8>)
    ensures
        p@ == request_path(r@),
{
    let mut p = Vec::<u8>::new();
    p.push(SLASH);
    push_bytes(&mut p, &r.service_name);
    p.push(SLASH);
    push_bytes(&mut p, &r.method_name);
    assert(p@ =~= request_path(r@));
    p
}

fn bytes_eq(a: &Vec<u8>, b: &Vec<u8>) -> (r: bool)
    ensures
        r == (a@ == b@),
{
    if a.len() != b.len() {
        return false;
    }
    let mut i: usize = 0;
    while i < a.len()
        invariant
            a@.len() == b@.len(),
            i <= a@.len(),
            forall|j: int| 0 <= j < i ==> a@[j] == b@[j],
        decreases a@.len() - i,
    {
        if a[i] != b[i] {
            return false;
        }
        i = i + 1;
    }
    proof {
        assert(a@ =~= b@);
    }
    true
}

fn clone_bytes(b: &Vec<u8>) -> (r: Vec<u8>)
    ensures
        r@ == b@,
{
    let mut r = Vec::<u8>::new();
    push_bytes(&mut r, b);
    r
}

/// The outcomes `route` can hand back for a request to `path` against the
/// registered paths `table`: an unknown path is answered with exactly the
/// unimplemented error naming it, and a known path only with the handler's
/// own success or failure.
pub open spec fn valid_outcome(
    table: Seq<Seq<u8>>,
    path: Seq<u8>,
    outcome: Result<Vec<u8>, HandlerError>,
) -> bool {
    if table.contains(path) {
        match outcome {
            Ok(_) => true,
            Err(e) => e is Failed,
        }
    } else {
        outcome matches Err(HandlerError::Unimplemented(p)) && p@ == path
    }
}

/// The routing table: the set of paths registered for one service, matched
/// exactly against each request path. Its view is the sequence of
/// registered paths.
pub struct Dispatcher<S> {
    service: S,
    paths: Vec<Vec<u8>>,
}

impl<S> View for Dispatcher<S> {
    type V = Seq<Seq<u8>>;

    closed spec fn view(&self) -> Seq<Seq<u8>> {
        self.paths.deep_view()
    }
}

impl<S: Service> Dispatcher<S> {
    /// A dispatcher with no registered path.
    pub fn new(service: S) -> (r: Self)
        ensures
            r@ == Seq::<Seq<u8>>::empty(),
    {
        let r = Dispatcher { service, paths: Vec::new() };
        proof {
            assert(r@ =~= Seq::<Seq<u8>>::empty());
        }
        r
    }

    /// Registers one more path.
    pub fn register(&mut self, path: Vec<u8>)
        ensures
            final(self)@ == old(self)@.push(path@),
    {
        self.paths.push(path);
        proof {
            assert(self@ =~~= old(self)@.push(path@));
        }
    }

    /// Looks the path up in the routing table and invokes the service on a
    /// hit. An unknown path is answered with the unimplemented error naming
    /// it; a known path with the handler's own outcome, its failure message
    /// wrapped as a handler failure.
    pub fn route(&self, path: &Vec<u8>, payload: &Vec<u8>) -> (r: Result<Vec<u8>, HandlerError>)
        ensures
            valid_outcome(self@, path@, r),
    {
        let mut i: usize = 0;
        let mut found = false;
        while i < self.paths.len()
            invariant
                i <= self@.len(),
                self@.len() == self.paths@.len(),
                forall|j: int| 0 <= j < self@.len() ==> self@[j] == self.paths@[j]@,
                found ==> self@.contains(path@),
                !found ==> forall|j: int| 0 <= j < i ==> self@[j] != path@,
            ensures
                found ==> self@.contains(path@),
                !found ==> forall|j: int| 0 <= j < self@.len() ==> self@[j] != path@,
            decreases self@.len() - i,
        {
            if bytes_eq(&self.paths[i], path) {
                found = true;
                proof {
                    assert(self@[i as int] == path@);
                }
                break ;
            }
            i = i + 1;
        }
        if !found {
            proof {
                assert(forall|j: int| 0 <= j < self@.len() ==> self@[j] != path@);
                assert(!self@.contains(path@));
            }
            return Err(HandlerError::Unimplemented(clone_bytes(path)));
        }
        match self.service.handle(path, payload) {
            Ok(b) => Ok(b),
            Err(m) => Err(HandlerError::Failed(m)),
        }
    }
}

/// The error text reported for a failed request: the unimplemented error
/// names the path it rejects, a handler failure carries its own message.
pub open spec fn error_text_of(e: HandlerError) -> Seq<u8> {
    match e {
        HandlerError::Unimplemented(p) => unimplemented_prefix() + p@,
        HandlerError::Failed(m) => m@,
    }
}

/// The words put in front of the path in an unimplemented-path error text.
pub open spec fn unimplemented_prefix() -> Seq<u8> {
    seq![
        0x55u8, 0x6e, 0x69, 0x6d, 0x70, 0x6c, 0x65, 0x6d, 0x65, 0x6e, 0x74, 0x65, 0x64, 0x20,
        0x70, 0x61, 0x74, 0x68, 0x3a, 0x20,
    ]
}

fn push_unimplemented_prefix(out: &mut Vec<u8>)
    ensures
        final(out)@ == old(out)@ + unimplemented_prefix(),
{
    out.push(0x55u8);
    out.push(0x6eu8);
    out.push(0x69u8);
    out.push(0x6du8);
    out.push(0x70u8);
    out.push(0x6cu8);
    out.push(0x65u8);
    out.push(0x6du8);
    out.push(0x65u8);
    out.push(0x6eu8);
    out.push(0x74u8);
    out.push(0x65u8);
    out.push(0x64u8);
    out.push(0x20u8);
    out.push(0x70u8);
    out.push(0x61u8);
    out.push(0x74u8);
    out.push(0x68u8);
    out.push(0x3au8);
    out.push(0x20u8);
    assert(out@ =~= old(out)@ + unimplemented_prefix());
}

/// The response envelope owed for a finished request: the request field
/// cleared; on success both response fields unset, on failure the fixed
/// sentinel code and the failure's text.
pub open spec fn response_meta_of(outcome: Result<Vec<u8>, HandlerError>) -> ResponseMetaView {
    match outcome {
        Ok(_) => ResponseMetaView { error_code: None, error_text: None },
        Err(e) => ResponseMetaView {
            error_code: Some(FAILURE_ERROR_CODE),
            error_text: Some(error_text_of(e)),
        },
    }
}

/// Builds the response envelope for a finished request: clears the request
/// field, and populates the response's error fields exactly when the
/// outcome is a failure.
pub fn build_response_meta(outcome: &Result<Vec<u8>, HandlerError>) -> (r: Meta)
    ensures
        r@.request is None,
        r@.response == Some(response_meta_of(*outcome)),
{
    let response = match outcome {
        Ok(_) => ResponseMeta { error_code: None, error_text: None },
        Err(e) => {
            let mut text = Vec::<u8>::new();
            match e {
                HandlerError::Unimplemented(p) => {
                    push_unimplemented_prefix(&mut text);
                    push_bytes(&mut text, p);
                },
                HandlerError::Failed(m) => {
                    push_bytes(&mut text, m);
                },
            }
            ResponseMeta { error_code: Some(FAILURE_ERROR_CODE), error_text: Some(text) }
        },
    };
    let r = Meta { request: None, response: Some(response) };
    proof {
        assert(r@.response matches Some(rm) && rm =~= response_meta_of(*outcome));
    }
    r
}

} // verus!
