//! Wire-format mirrors of the Kubernetes admission API: the review envelope,
//! its request and response, and their serialized JSON form. The library
//! serializes outbound reviews itself, so the exact wire text is part of the
//! contracts: members appear in declaration order and absent options are
//! skipped.

use vstd::prelude::*;
use crate::json::Json;

verus! {

/// The kind of the object under admission.
#[derive(Debug, Clone)]
pub struct GroupVersionKind {
    pub group: String,
    pub version: String,
    pub kind: String,
}

/// The fully-qualified resource being requested.
#[derive(Debug, Clone)]
pub struct GroupVersionResource {
    pub group: String,
    pub version: String,
    pub resource: String,
}

/// The operation the request performs.
#[derive(Debug, Clone, Copy, PartialEq, Eq, Structural)]
#[allow(non_camel_case_types)]
pub enum Operation {
    CREATE,
    UPDATE,
    DELETE,
    CONNECT,
}

impl Default for Operation {
    /// The operation assumed when none is given.
    fn default() -> (r: Self)
        ensures
            r == Operation::UPDATE,
    {
        Operation::UPDATE
    }
}

/// The patch format of a mutating response; only JSON Patch exists.
#[derive(Debug, Clone, Copy, PartialEq, Eq, Structural)]
pub enum PatchType {
    JSONPatch,
}

impl Default for PatchType {
    fn default() -> (r: Self)
        ensures
            r == PatchType::JSONPatch,
    {
        PatchType::JSONPatch
    }
}

/// Extra details on the admission outcome.
#[derive(Debug, Clone)]
pub struct StatusResult {
    pub status: Option<String>,
    pub message: Option<String>,
    pub reason: Option<String>,
    pub details: Option<String>,
    pub code: Option<u16>,
}

/// One incoming admission request.
#[derive(Debug)]
pub struct AdmissionRequest {
    pub uid: String,
    pub kind: GroupVersionKind,
    pub resource: GroupVersionResource,
    pub sub_resource: Option<String>,
    pub request_kind: Option<GroupVersionKind>,
    pub request_sub_resource: Option<String>,
    pub name: Option<String>,
    pub namespace: Option<String>,
    pub operation: Operation,
    pub user_info: Json,
    pub object: Option<Json>,
    pub old_object: Option<Json>,
    pub dry_run: Option<bool>,
    pub options: Option<Json>,
}

/// One outgoing admission response.
#[derive(Debug)]
pub struct AdmissionResponse {
    pub uid: String,
    pub allowed: bool,
    pub status: Option<Vec<StatusResult>>,
    pub patch: Option<String>,
    pub patch_type: Option<PatchType>,
    pub audit_annotations: Option<Json>,
    pub warnings: Option<Vec<String>>,
}

impl Default for AdmissionResponse {
    /// An empty, not-yet-allowed response.
    fn default() -> (r: Self)
        ensures
            r.uid@ == Seq::<char>::empty(),
            r.allowed == false,
            r.status is None,
            r.patch is None,
            r.patch_type is None,
            r.audit_annotations is None,
            r.warnings is None,
    {
        AdmissionResponse {
            uid: String::new(),
            allowed: false,
            status: None,
            patch: None,
            patch_type: None,
            audit_annotations: None,
            warnings: None,
        }
    }
}

/// The envelope: an incoming review carries a request, an outgoing one a
/// response.
#[derive(Debug)]
pub struct AdmissionReview {
    pub request: Option<AdmissionRequest>,
    pub response: Option<AdmissionResponse>,
}

impl Default for AdmissionReview {
    /// An empty envelope.
    fn default() -> (r: Self)
        ensures
            r.request is None,
            r.response is None,
    {
        AdmissionReview { request: None, response: None }
    }
}

/// The serialized form of one status entry: its present fields, in
/// declaration order.
pub open spec fn status_json_matches(st: StatusResult, j: Json) -> bool {
    let n_status: int = if st.status is Some { 1 } else { 0 };
    let n_message: int = if st.message is Some { 1 } else { 0 };
    let n_reason: int = if st.reason is Some { 1 } else { 0 };
    let n_details: int = if st.details is Some { 1 } else { 0 };
    let n_code: int = if st.code is Some { 1 } else { 0 };
    &&& j is Obj
    &&& {
        let es = j->Obj_0@;
        &&& es.len() == n_status + n_message + n_reason + n_details + n_code
        &&& (st.status matches Some(s) ==> es[0].0@ == "status"@ && es[0].1 == Json::Str(s))
        &&& (st.message matches Some(s) ==> es[n_status].0@ == "message"@ && es[n_status].1
            == Json::Str(s))
        &&& (st.reason matches Some(s) ==> {
            let i = n_status + n_message;
            es[i].0@ == "reason"@ && es[i].1 == Json::Str(s)
        })
        &&& (st.details matches Some(s) ==> {
            let i = n_status + n_message + n_reason;
            es[i].0@ == "details"@ && es[i].1 == Json::Str(s)
        })
        &&& (st.code matches Some(c) ==> {
            let i = n_status + n_message + n_reason + n_details;
            es[i].0@ == "code"@ && es[i].1 == Json::UInt(c as u64)
        })
    }
}

/// The serialized form of a status list: one entry per element, in order.
pub open spec fn status_list_matches(sts: Seq<StatusResult>, j: Json) -> bool {
    &&& j is Arr
    &&& {
        let items = j->Arr_0@;
        &&& items.len() == sts.len()
        &&& forall|i: int|
            0 <= i < sts.len() ==> status_json_matches(sts[i], #[trigger] items[i])
    }
}

/// The serialized form of a warnings list: the strings, in order.
pub open spec fn warnings_matches(ws: Seq<String>, j: Json) -> bool {
    &&& j is Arr
    &&& {
        let items = j->Arr_0@;
        &&& items.len() == ws.len()
        &&& forall|i: int| 0 <= i < ws.len() ==> #[trigger] items[i] == Json::Str(ws[i])
    }
}

/// The serialized form of a response: `uid` and `allowed` always, then the
/// present options, in declaration order.
pub open spec fn response_json_matches(resp: AdmissionResponse, j: Json) -> bool {
    let n_st: int = if resp.status is Some { 1 } else { 0 };
    let n_p: int = if resp.patch is Some { 1 } else { 0 };
    let n_pt: int = if resp.patch_type is Some { 1 } else { 0 };
    let n_aa: int = if resp.audit_annotations is Some { 1 } else { 0 };
    let n_w: int = if resp.warnings is Some { 1 } else { 0 };
    &&& j is Obj
    &&& {
        let es = j->Obj_0@;
        &&& es.len() == 2 + n_st + n_p + n_pt + n_aa + n_w
        &&& es[0].0@ == "uid"@ && es[0].1 == Json::Str(resp.uid)
        &&& es[1].0@ == "allowed"@ && es[1].1 == Json::Bool(resp.allowed)
        &&& (resp.status matches Some(sts) ==> es[2].0@ == "status"@ && status_list_matches(
            sts@,
            es[2].1,
        ))
        &&& (resp.patch matches Some(p) ==> {
            let i = 2 + n_st;
            es[i].0@ == "patch"@ && es[i].1 == Json::Str(p)
        })
        &&& (resp.patch_type is Some ==> {
            let i = 2 + n_st + n_p;
            es[i].0@ == "patchType"@ && (es[i].1 matches Json::Str(s) && s@ == "JSONPatch"@)
        })
        &&& (resp.audit_annotations matches Some(a) ==> {
            let i = 2 + n_st + n_p + n_pt;
            es[i].0@ == "auditAnnotations"@ && es[i].1 == a
        })
        &&& (resp.warnings matches Some(ws) ==> {
            let i = 2 + n_st + n_p + n_pt + n_aa;
            es[i].0@ == "warnings"@ && warnings_matches(ws@, es[i].1)
        })
    }
}

/// The serialized form of an outbound review: only its response, under
/// `response`, or an empty object when there is none.
pub open spec fn review_json_matches(rev: AdmissionReview, j: Json) -> bool {
    &&& j is Obj
    &&& {
        let es = j->Obj_0@;
        match rev.response {
            Some(resp) => es.len() == 1 && es[0].0@ == "response"@ && response_json_matches(
                resp,
                es[0].1,
            ),
            None => es.len() == 0,
        }
    }
}

impl StatusResult {
    /// Serializes this status entry, exactly as `status_json_matches` says.
    pub fn to_json(self) -> (j: Json)
        ensures
            status_json_matches(self, j),
    {
        let mut es: Vec<(String, Json)> = Vec::new();
        match self.status {
            Some(s) => es.push(("status".to_owned(), Json::Str(s))),
            None => {},
        }
        match self.message {
            Some(s) => es.push(("message".to_owned(), Json::Str(s))),
            None => {},
        }
        match self.reason {
            Some(s) => es.push(("reason".to_owned(), Json::Str(s))),
            None => {},
        }
        match self.details {
            Some(s) => es.push(("details".to_owned(), Json::Str(s))),
            None => {},
        }
        match self.code {
            Some(c) => es.push(("code".to_owned(), Json::UInt(c as u64))),
            None => {},
        }
        Json::Obj(es)
    }
}

impl AdmissionResponse {
    /// Serializes this response, exactly as `response_json_matches` says.
    pub fn to_json(self) -> (j: Json)
        ensures
            response_json_matches(self, j),
    {
        let ghost me = self;
        let mut es: Vec<(String, Json)> = Vec::new();
        es.push(("uid".to_owned(), Json::Str(self.uid)));
        es.push(("allowed".to_owned(), Json::Bool(self.allowed)));
        match self.status {
            Some(sts) => {
                let mut items: Vec<Json> = Vec::new();
                let mut rest = sts;
                let ghost all = rest@;
                let n: usize = rest.len();
                let mut i: usize = 0;
                while i < n
                    invariant
                        n == all.len(),
                        0 <= i <= n,
                        rest@ == all.subrange(i as int, n as int),
                        items@.len() == i,
                        forall|k: int|
                            0 <= k < i ==> status_json_matches(all[k], #[trigger] items@[k]),
                    decreases n - i,
                {
                    proof {
                        assert(rest@[0] == all[i as int]);
                    }
                    let st = rest.remove(0);
                    items.push(st.to_json());
                    i = i + 1;
                }
                proof {
                    assert(all =~= me.status->Some_0@);
                }
                es.push(("status".to_owned(), Json::Arr(items)));
            },
            None => {},
        }
        match self.patch {
            Some(p) => es.push(("patch".to_owned(), Json::Str(p))),
            None => {},
        }
        match self.patch_type {
            Some(_) => es.push(("patchType".to_owned(), Json::Str("JSONPatch".to_owned()))),
            None => {},
        }
        match self.audit_annotations {
            Some(a) => es.push(("auditAnnotations".to_owned(), a)),
            None => {},
        }
        match self.warnings {
            Some(ws) => {
                let mut items: Vec<Json> = Vec::new();
                let mut rest = ws;
                let ghost all = rest@;
                let n: usize = rest.len();
                let mut i: usize = 0;
                while i < n
                    invariant
                        n == all.len(),
                        0 <= i <= n,
                        rest@ == all.subrange(i as int, n as int),
                        items@.len() == i,
                        forall|k: int| 0 <= k < i ==> #[trigger] items@[k] == Json::Str(all[k]),
                    decreases n - i,
                {
                    proof {
                        assert(rest@[0] == all[i as int]);
                    }
                    let w = rest.remove(0);
                    items.push(Json::Str(w));
                    i = i + 1;
                }
                proof {
                    assert(all =~= me.warnings->Some_0@);
                }
                es.push(("warnings".to_owned(), Json::Arr(items)));
            },
            None => {},
        }
        Json::Obj(es)
    }
}

impl AdmissionReview {
    /// Serializes an outbound review, exactly as `review_json_matches` says.
    /// Outbound reviews carry no request, and none is serialized.
    pub fn to_json(self) -> (j: Json)
        requires
            self.request is None,
        ensures
            review_json_matches(self, j),
    {
        let mut es: Vec<(String, Json)> = Vec::new();
        match self.response {
            Some(resp) => {
                es.push(("response".to_owned(), resp.to_json()));
            },
            None => {},
        }
        Json::Obj(es)
    }
}

} // verus!
