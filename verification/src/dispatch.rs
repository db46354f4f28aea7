//! Server dispatch: a table of registered method names and the decision the
//! server takes for each received message — invoke a handler, or answer one
//! of the distinguished payloads.

use vstd::prelude::*;
use crate::codec;

verus! {

/// The exact payload `"METHOD NOT FOUND"` answered when a request names no
/// registered handler.
pub open spec fn method_not_found() -> Seq<u8> {
    seq![77u8, 69u8, 84u8, 72u8, 79u8, 68u8, 32u8, 78u8, 79u8, 84u8, 32u8, 70u8, 79u8, 85u8, 78u8, 68u8]
}

/// The exact payload `"INVALID PROTOCOL"` answered when a request holds no
/// delimiter.
pub open spec fn invalid_protocol() -> Seq<u8> {
    seq![73u8, 78u8, 86u8, 65u8, 76u8, 73u8, 68u8, 32u8, 80u8, 82u8, 79u8, 84u8, 79u8, 67u8, 79u8, 76u8]
}

/// The prefix `"Handler error: "` of the payload answered when a handler
/// fails.
pub open spec fn handler_error_prefix() -> Seq<u8> {
    seq![72u8, 97u8, 110u8, 100u8, 108u8, 101u8, 114u8, 32u8, 101u8, 114u8, 114u8, 111u8, 114u8, 58u8, 32u8]
}

/// Builds the `"METHOD NOT FOUND"` payload.
pub fn method_not_found_payload() -> (r: Vec<u8>)
    ensures
        r@ == method_not_found(),
{
    let mut r: Vec<u8> = Vec::new();
    r.push(77);
    r.push(69);
    r.push(84);
    r.push(72);
    r.push(79);
    r.push(68);
    r.push(32);
    r.push(78);
    r.push(79);
    r.push(84);
    r.push(32);
    r.push(70);
    r.push(79);
    r.push(85);
    r.push(78);
    r.push(68);
    proof {
        assert(r@ =~= method_not_found());
    }
    r
}

/// Builds the `"INVALID PROTOCOL"` payload.
pub fn invalid_protocol_payload() -> (r: Vec<u8>)
    ensures
        r@ == invalid_protocol(),
{
    let mut r: Vec<u8> = Vec::new();
    r.push(73);
    r.push(78);
    r.push(86);
    r.push(65);
    r.push(76);
    r.push(73);
    r.push(68);
    r.push(32);
    r.push(80);
    r.push(82);
    r.push(79);
    r.push(84);
    r.push(79);
    r.push(67);
    r.push(79);
    r.push(76);
    proof {
        assert(r@ =~= invalid_protocol());
    }
    r
}

/// Builds the payload `"Handler error: " ‖ message` answered when a handler
/// fails with the given message bytes.
pub fn handler_error_payload(message: &Vec<u8>) -> (r: Vec<u8>)
    ensures
        r@ == handler_error_prefix() + message@,
{
    let mut r: Vec<u8> = Vec::new();
    r.push(72);
    r.push(97);
    r.push(110);
    r.push(100);
    r.push(108);
    r.push(101);
    r.push(114);
    r.push(32);
    r.push(101);
    r.push(114);
    r.push(114);
    r.push(111);
    r.push(114);
    r.push(58);
    r.push(32);
    proof {
        assert(r@ =~= handler_error_prefix());
    }
    r.extend_from_slice(message.as_slice());
    r
}

/// True when the two byte vectors hold the same bytes.
pub fn bytes_eq(a: &Vec<u8>, b: &Vec<u8>) -> (r: bool)
    ensures
        r == (a@ == b@),
{
    if a.len() != b.len() {
        return false;
    }
    let n = a.len();
    let mut i: usize = 0;
    while i < n
        invariant
            n == a@.len() == b@.len(),
            i <= n,
            forall|j: int| 0 <= j < i ==> a@[j] == b@[j],
        decreases n - i,
    {
        if a[i] != b[i] {
            return false;
        }
        i = i + 1;
    }
    proof {
        assert(a@ =~= b@);
    }
    true
}

/// The registered method names. The handler for the name at index `i` is
/// whatever the surrounding server keeps at index `i` of its own handler
/// list: registering an already-present name keeps its index, so the last
/// registration under a name wins once the server overwrites that slot.
pub struct Routes {
    pub names: Vec<Vec<u8>>,
}

impl Routes {
    /// The registered names as a sequence of byte sequences.
    pub open spec fn names_seq(self) -> Seq<Seq<u8>> {
        self.names@.map_values(|v: Vec<u8>| v@)
    }

    /// No method name is registered twice.
    pub open spec fn wf(self) -> bool {
        forall|i: int, j: int|
            0 <= i < j < self.names_seq().len() ==> self.names_seq()[i] != self.names_seq()[j]
    }

    /// `name` is registered.
    pub open spec fn spec_contains(self, name: Seq<u8>) -> bool {
        self.names_seq().contains(name)
    }

    /// An empty table.
    pub fn new() -> (r: Routes)
        ensures
            r.wf(),
            r.names_seq() == Seq::<Seq<u8>>::empty(),
    {
        let r = Routes { names: Vec::new() };
        proof {
            assert(r.names_seq() =~= Seq::<Seq<u8>>::empty());
        }
        r
    }

    /// The index under which `name` is registered, if it is.
    pub fn lookup(&self, name: &Vec<u8>) -> (r: Option<usize>)
        ensures
            r is Some <==> self.spec_contains(name@),
            r matches Some(i) ==> i < self.names_seq().len() && self.names_seq()[i as int]
                == name@,
    {
        let n = self.names.len();
        let mut i: usize = 0;
        while i < n
            invariant
                n == self.names@.len(),
                i <= n,
                forall|j: int| 0 <= j < i ==> self.names_seq()[j] != name@,
            decreases n - i,
        {
            if bytes_eq(&self.names[i], name) {
                proof {
                    assert(self.names_seq()[i as int] == name@);
                }
                return Some(i);
            }
            i = i + 1;
        }
        proof {
            assert(forall|j: int|
                0 <= j < self.names_seq().len() ==> self.names_seq()[j] != name@);
        }
        None
    }

    /// Registers `name`: a fresh name is appended, a name already present
    /// keeps its index (so the caller's handler list slot is overwritten —
    /// the last registration wins).
    pub fn register(&mut self, name: Vec<u8>) -> (idx: usize)
        requires
            old(self).wf(),
        ensures
            final(self).wf(),
            idx < final(self).names_seq().len(),
            final(self).names_seq()[idx as int] == name@,
            old(self).spec_contains(name@) ==> *final(self) == *old(self),
            !old(self).spec_contains(name@) ==> final(self).names_seq() == old(
                self,
            ).names_seq().push(name@) && idx == old(self).names_seq().len(),
    {
        let existing = self.lookup(&name);
        match existing {
            Some(i) => i,
            None => {
                let idx = self.names.len();
                self.names.push(name);
                proof {
                    assert(self.names_seq() =~= old(self).names_seq().push(name@));
                }

                idx
            },
        }
    }
}

/// What the server does with one received message.
pub enum RequestOutcome {
    /// No delimiter in the message: answer `"INVALID PROTOCOL"`.
    InvalidProtocol,
    /// The method name is not registered: answer `"METHOD NOT FOUND"`.
    MethodNotFound,
    /// Hand the payload to the handler registered at this index.
    Invoke(usize, Vec<u8>),
}

/// The method-name part of a message that holds a delimiter.
pub open spec fn request_method(data: Seq<u8>) -> Seq<u8> {
    data.subrange(0, codec::first_delim(data))
}

/// The payload part of a message that holds a delimiter.
pub open spec fn request_payload(data: Seq<u8>) -> Seq<u8> {
    data.subrange(codec::first_delim(data) + 3, data.len() as int)
}

/// Decides what one received message calls for: `"INVALID PROTOCOL"` when no
/// delimiter is present, `"METHOD NOT FOUND"` when the method is not
/// registered, else the handler to invoke together with the payload.
pub fn handle_request(routes: &Routes, data: &Vec<u8>) -> (r: RequestOutcome)
    ensures
        !codec::has_delim(data@) ==> r == RequestOutcome::InvalidProtocol,
        codec::has_delim(data@) && !routes.spec_contains(request_method(data@)) ==> r
            == RequestOutcome::MethodNotFound,
        codec::has_delim(data@) && routes.spec_contains(request_method(data@)) ==> (r matches
            RequestOutcome::Invoke(i, p) && i < routes.names_seq().len()
            && routes.names_seq()[i as int] == request_method(data@) && p@ == request_payload(
            data@,
        )),
{
    let decoded = codec::decode_request(data);
    match decoded {
        None => RequestOutcome::InvalidProtocol,
        Some((method, payload)) => {
            let found = routes.lookup(&method);
            match found {
                None => RequestOutcome::MethodNotFound,
                Some(i) => RequestOutcome::Invoke(i, payload),
            }
        },
    }
}

/// The payload the server frames for a handler's outcome: the handler's own
/// reply when it succeeded, `"Handler error: " ‖ message` when it failed.
pub fn response_payload_for(result: Result<Vec<u8>, Vec<u8>>) -> (r: Vec<u8>)
    ensures
        result matches Ok(p) ==> r@ == p@,
        result matches Err(m) ==> r@ == handler_error_prefix() + m@,
{
    match result {
        Ok(p) => p,
        Err(m) => handler_error_payload(&m),
    }
}

/// The complete frame the server writes back for a request that named no
/// registered method: exactly `"METHOD NOT FOUND"`, length-prefixed.
pub fn method_not_found_frame() -> (r: Vec<u8>)
    ensures
        r@ == codec::spec_encode_response(method_not_found()),
{
    let payload = method_not_found_payload();
    codec::encode_response(&payload)
}

/// The complete frame the server writes back for a request without a
/// delimiter: exactly `"INVALID PROTOCOL"`, length-prefixed.
pub fn invalid_protocol_frame() -> (r: Vec<u8>)
    ensures
        r@ == codec::spec_encode_response(invalid_protocol()),
{
    let payload = invalid_protocol_payload();
    codec::encode_response(&payload)
}

/// The complete frame the server writes back for a handler's outcome, or
/// nothing when the payload is longer than a four-byte length can declare
/// (such a payload cannot be framed, and the declared length always equals
/// the payload exactly — never a truncation).
pub fn handler_frame(result: Result<Vec<u8>, Vec<u8>>) -> (r: Option<Vec<u8>>)
    ensures
        result matches Ok(p) ==> {
            &&& p@.len() <= 0xffff_ffff ==> (r matches Some(f) && f@
                == codec::spec_encode_response(p@))
            &&& p@.len() > 0xffff_ffff ==> r is None
        },
        result matches Err(m) ==> {
            &&& handler_error_prefix().len() + m@.len() <= 0xffff_ffff ==> (r matches Some(f)
                && f@ == codec::spec_encode_response(handler_error_prefix() + m@))
            &&& handler_error_prefix().len() + m@.len() > 0xffff_ffff ==> r is None
        },
{
    let payload = response_payload_for(result);
    if payload.len() <= 0xffff_ffff {
        Some(codec::encode_response(&payload))
    } else {
        None
    }
}

} // verus!
