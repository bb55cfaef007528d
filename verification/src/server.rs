//! The request/response surface and the dispatcher that maps typed requests
//! onto one store.

use vstd::prelude::*;
use vstd::string::StringExecFns;

use crate::hashmap_store::KeyValueStore;
use crate::row::RowView;

verus! {

/// Coarse outcome attached to every response, independent of the detailed
/// error text.
#[derive(Debug, Clone, Copy, PartialEq, Eq, Structural)]
pub enum StatusCode {
    Okay,
    Fail,
}

/// A point lookup by key.
#[derive(Debug, PartialEq)]
pub struct GetRequest {
    pub key: String,
}

/// An idempotent write of `value` under `key`.
#[derive(Debug, PartialEq)]
pub struct SetRequest {
    pub key: String,
    pub value: String,
}

/// A removal by key.
#[derive(Debug, PartialEq)]
pub struct DeleteRequest {
    pub key: String,
}

/// The three request kinds.
#[derive(Debug, PartialEq)]
pub enum Request {
    GetRequest(GetRequest),
    SetRequest(SetRequest),
    DeleteRequest(DeleteRequest),
}

/// One generic envelope with exactly one populated request, or none.
#[derive(Debug, PartialEq)]
pub struct GenericRequest {
    pub request: Option<Request>,
}

/// The answer to a lookup: the value on success, the error text on failure.
#[derive(Debug, PartialEq)]
pub struct GetResponse {
    pub value: String,
    pub resp_msg: String,
    pub status_code: StatusCode,
}

/// The answer to a write: a confirmation message on success.
#[derive(Debug, PartialEq)]
pub struct SetResponse {
    pub message: String,
    pub resp_msg: String,
    pub status_code: StatusCode,
}

/// The answer to a removal: a deletion summary on success.
#[derive(Debug, PartialEq)]
pub struct DeleteResponse {
    pub message: String,
    pub resp_msg: String,
    pub status_code: StatusCode,
}

/// The three response kinds, mirroring the requests.
#[derive(Debug, PartialEq)]
pub enum Response {
    GetResponse(GetResponse),
    SetResponse(SetResponse),
    DeleteResponse(DeleteResponse),
}

/// One generic envelope with exactly one populated response, or none.
#[derive(Debug, PartialEq)]
pub struct GenericResponse {
    pub response: Option<Response>,
}

/// What a lookup answers over a store holding `m`: the stored value and
/// `Ok`, or an empty value, the error text and `Fail`.
pub open spec fn get_spec(m: Map<Seq<char>, RowView>, key: Seq<char>, resp: GetResponse) -> bool {
    if m.contains_key(key) {
        &&& resp.value@ == m[key].value
        &&& resp.resp_msg@ == Seq::<char>::empty()
        &&& resp.status_code == StatusCode::Okay
    } else {
        &&& resp.value@ == Seq::<char>::empty()
        &&& resp.resp_msg@ == "key '"@ + key + "' not found"@
        &&& resp.status_code == StatusCode::Fail
    }
}

/// What a write does to the store and answers: `set_or_insert` semantics
/// (an unchanged value moves no timestamp), a confirmation message, `Ok`.
pub open spec fn set_spec(
    pre: Map<Seq<char>, RowView>,
    post: Map<Seq<char>, RowView>,
    key: Seq<char>,
    value: Seq<char>,
    resp: SetResponse,
) -> bool {
    &&& resp.status_code == StatusCode::Okay
    &&& resp.message@ == "set/updated "@ + key
    &&& resp.resp_msg@ == Seq::<char>::empty()
    &&& pre.contains_key(key) && pre[key].value == value ==> post == pre
    &&& pre.contains_key(key) && pre[key].value != value ==> {
        &&& post.contains_key(key)
        &&& post == pre.insert(key, post[key])
        &&& post[key].key == key
        &&& post[key].value == value
        &&& post[key].created == pre[key].created
    }
    &&& !pre.contains_key(key) ==> {
        &&& post.contains_key(key)
        &&& post == pre.insert(key, post[key])
        &&& post[key].key == key
        &&& post[key].value == value
        &&& post[key].created == post[key].updated
    }
}

/// What a removal does and answers: the entry leaves and the summary names
/// it, or nothing changes and the error text comes back with `Fail`.
pub open spec fn delete_spec(
    pre: Map<Seq<char>, RowView>,
    post: Map<Seq<char>, RowView>,
    key: Seq<char>,
    resp: DeleteResponse,
) -> bool {
    &&& pre.contains_key(key) ==> {
        &&& post == pre.remove(key)
        &&& resp.message@ == "deleted "@ + pre[key].key + ":"@ + pre[key].value
        &&& resp.resp_msg@ == Seq::<char>::empty()
        &&& resp.status_code == StatusCode::Okay
    }
    &&& !pre.contains_key(key) ==> {
        &&& post == pre
        &&& resp.message@ == Seq::<char>::empty()
        &&& resp.resp_msg@ == "key '"@ + key + "' not found"@
        &&& resp.status_code == StatusCode::Fail
    }
}

/// The dispatcher: stateless routing from typed requests onto one store,
/// translating every store outcome into a response. It never panics on a
/// store error; every call returns a response.
pub struct StupidServer {
    pub(crate) store: KeyValueStore,
}

impl View for StupidServer {
    type V = Map<Seq<char>, RowView>;

    closed spec fn view(&self) -> Map<Seq<char>, RowView> {
        self.store@
    }
}

impl StupidServer {
    /// A server over an empty store.
    pub fn new() -> (r: Self)
        ensures
            r@ == Map::<Seq<char>, RowView>::empty(),
    {
        StupidServer { store: KeyValueStore::empty() }
    }

    /// Routes the populated request variant to the matching operation; an
    /// envelope with no variant gets an empty response back, with no
    /// operation performed and no error raised.
    pub fn request(&mut self, req: &GenericRequest) -> (r: GenericResponse)
        ensures
            req.request is None ==> r.response is None && final(self)@ == old(self)@,
            req.request matches Some(Request::GetRequest(g)) ==> ({
                &&& final(self)@ == old(self)@
                &&& r.response matches Some(Response::GetResponse(resp))
                &&& get_spec(old(self)@, g.key@, resp)
            }),
            req.request matches Some(Request::SetRequest(s)) ==> ({
                &&& r.response matches Some(Response::SetResponse(resp))
                &&& set_spec(old(self)@, final(self)@, s.key@, s.value@, resp)
            }),
            req.request matches Some(Request::DeleteRequest(d)) ==> ({
                &&& r.response matches Some(Response::DeleteResponse(resp))
                &&& delete_spec(old(self)@, final(self)@, d.key@, resp)
            }),
    {
        let inner: Response = match &req.request {
            Some(actual) => match actual {
                Request::GetRequest(get) => Response::GetResponse(self.get(get)),
                Request::SetRequest(set) => Response::SetResponse(self.set(set)),
                Request::DeleteRequest(del) => Response::DeleteResponse(self.delete(del)),
            },
            None => {
                return GenericResponse { response: None };
            },
        };
        GenericResponse { response: Some(inner) }
    }

    /// Answers a lookup.
    pub fn get(&self, req: &GetRequest) -> (r: GetResponse)
        ensures
            get_spec(self@, req.key@, r),
    {
        match self.store.get_clone(req.key.as_str()) {
            Ok(row) => GetResponse {
                value: row.value,
                resp_msg: String::new(),
                status_code: StatusCode::Okay,
            },
            Err(err) => GetResponse {
                value: String::new(),
                resp_msg: err.message(),
                status_code: StatusCode::Fail,
            },
        }
    }

    /// Performs an idempotent write. Set always uses `set_or_insert`, never
    /// the strict insert, so it reports no duplicate-key failure; an error
    /// from the store would still be plumbed to `Fail`.
    pub fn set(&mut self, req: &SetRequest) -> (r: SetResponse)
        ensures
            set_spec(old(self)@, final(self)@, req.key@, req.value@, r),
    {
        match self.store.set_or_insert(req.key.as_str(), req.value.as_str()) {
            Ok(_) => {
                let mut message = String::new();
                message.append("set/updated ");
                message.append(req.key.as_str());
                SetResponse { message, resp_msg: String::new(), status_code: StatusCode::Okay }
            },
            Err(err) => SetResponse {
                message: String::new(),
                resp_msg: err.message(),
                status_code: StatusCode::Fail,
            },
        }
    }

    /// Performs a removal.
    pub fn delete(&mut self, req: &DeleteRequest) -> (r: DeleteResponse)
        ensures
            delete_spec(old(self)@, final(self)@, req.key@, r),
    {
        match self.store.delete(req.key.as_str()) {
            Ok(deleted) => {
                let mut message = String::new();
                message.append("deleted ");
                let summary = deleted.display_string();
                message.append(summary.as_str());
                proof {
                    assert(message@ =~= "deleted "@ + old(self)@[req.key@].key + ":"@ + old(
                        self,
                    )@[req.key@].value);
                }
                DeleteResponse { message, resp_msg: String::new(), status_code: StatusCode::Okay }
            },
            Err(err) => DeleteResponse {
                message: String::new(),
                resp_msg: err.message(),
                status_code: StatusCode::Fail,
            },
        }
    }
}

} // verus!
