//! The admission decision engine: decides whether an incoming review concerns
//! a Pod, which configured target architectures every container of that Pod
//! supports, and emits the ordered JSON Patch that adds one toleration per
//! matched architecture — preceded by an operation creating the tolerations
//! array when the Pod had none, since appending into a missing array is
//! invalid. The engine never denies: every path answers `allowed`, and
//! failures only withhold the patch.

use vstd::prelude::*;
use base64::Engine as _;
use vstd::pervasive::unreached;
use vstd::utf8::encode_utf8;
use crate::json::{json_text, push_json, spec_get, Json};
use crate::manifest::strings_view;
use crate::models::{AdmissionResponse, AdmissionReview, PatchType, StatusResult};
use crate::strutil::str_eq;

verus! {

/// Ways a review that claims to be a Pod can still fail to describe one.
#[derive(Debug, Clone, Copy, PartialEq, Eq, Structural)]
pub enum PodAnomaly {
    /// The object has no `spec` member.
    MissingSpec,
    /// The spec has no `containers` array.
    MissingContainers,
    /// A container entry carries no `image` string.
    MalformedContainer,
}

/// The image string of one container entry, when it carries one.
pub open spec fn container_image(c: Json) -> Option<Seq<char>> {
    match spec_get(c, "image"@) {
        Some(v) => match v {
            Json::Str(s) => Some(s@),
            _ => None,
        },
        None => None,
    }
}

/// The images of the first `i` container entries, in order; `None` as soon
/// as one entry carries no image string.
pub open spec fn images_prefix(cs: Seq<Json>, i: int) -> Option<Seq<Seq<char>>>
    decreases i,
{
    if i <= 0 {
        Some(Seq::empty())
    } else {
        match images_prefix(cs, i - 1) {
            None => None,
            Some(acc) => match container_image(cs[i - 1]) {
                Some(im) => Some(acc.push(im)),
                None => None,
            },
        }
    }
}

/// What a Pod object's containers resolve to: their image strings, or the
/// anomaly that stops the walk.
pub open spec fn spec_pod_images(object: Json) -> Result<Seq<Seq<char>>, PodAnomaly> {
    match spec_get(object, "spec"@) {
        Some(sp) => match spec_get(sp, "containers"@) {
            Some(c) => match c {
                Json::Arr(cs) => match images_prefix(cs@, cs@.len() as int) {
                    Some(imgs) => Ok(imgs),
                    None => Err(PodAnomaly::MalformedContainer),
                },
                _ => Err(PodAnomaly::MissingContainers),
            },
            None => Err(PodAnomaly::MissingContainers),
        },
        None => Err(PodAnomaly::MissingSpec),
    }
}

/// Whether the Pod spec already has a `tolerations` member.
pub open spec fn spec_pod_has_tolerations(object: Json) -> bool {
    match spec_get(object, "spec"@) {
        Some(sp) => spec_get(sp, "tolerations"@) is Some,
        None => false,
    }
}

/// The container images of a Pod object, or the anomaly found instead.
#[derive(Debug)]
pub enum PodImages {
    Images(Vec<String>),
    Anomaly(PodAnomaly),
}

proof fn lemma_images_prefix_none(cs: Seq<Json>, i: int, n: int)
    requires
        0 <= i <= n,
        images_prefix(cs, i) is None,
    ensures
        images_prefix(cs, n) is None,
    decreases n - i,
{
    if n > i {
        lemma_images_prefix_none(cs, i, n - 1);
    }
}

/// Walks a Pod object's `spec.containers` and collects each entry's `image`
/// string, exactly as `spec_pod_images` says.
pub fn extract_pod_images(object: &Json) -> (r: PodImages)
    ensures
        match spec_pod_images(*object) {
            Ok(imgs) => r matches PodImages::Images(v) && strings_view(v) == imgs,
            Err(a) => r == PodImages::Anomaly(a),
        },
{
    let sp = match object.get("spec") {
        Some(sp) => sp,
        None => {
            return PodImages::Anomaly(PodAnomaly::MissingSpec);
        },
    };
    let cs: &Vec<Json> = match sp.get("containers") {
        Some(c) => match c.as_array() {
            Some(cs) => cs,
            None => {
                return PodImages::Anomaly(PodAnomaly::MissingContainers);
            },
        },
        None => {
            return PodImages::Anomaly(PodAnomaly::MissingContainers);
        },
    };
    let n: usize = cs.len();
    let mut images: Vec<String> = Vec::new();
    proof {
        assert(strings_view(images) =~= Seq::<Seq<char>>::empty());
    }
    let mut i: usize = 0;
    while i < n
        invariant
            n == cs@.len(),
            0 <= i <= n,
            spec_pod_images(*object) == (match images_prefix(cs@, n as int) {
                Some(imgs) => Result::<Seq<Seq<char>>, PodAnomaly>::Ok(imgs),
                None => Result::<Seq<Seq<char>>, PodAnomaly>::Err(
                    PodAnomaly::MalformedContainer,
                ),
            }),
            images_prefix(cs@, i as int) == Some(strings_view(images)),
        decreases n - i,
    {
        let image: &String = match cs[i].get("image") {
            Some(v) => match v.as_str() {
                Some(s) => s,
                None => {
                    proof {
                        lemma_images_prefix_none(cs@, i as int + 1, n as int);
                    }
                    return PodImages::Anomaly(PodAnomaly::MalformedContainer);
                },
            },
            None => {
                proof {
                    lemma_images_prefix_none(cs@, i as int + 1, n as int);
                }
                return PodImages::Anomaly(PodAnomaly::MalformedContainer);
            },
        };
        let ghost before = strings_view(images);
        images.push(image.clone());
        proof {
            assert(strings_view(images) =~= before.push(image@));
        }
        i = i + 1;
    }
    PodImages::Images(images)
}

/// Whether the Pod spec already carries a `tolerations` member.
pub fn pod_has_tolerations(object: &Json) -> (r: bool)
    ensures
        r == spec_pod_has_tolerations(*object),
{
    match object.get("spec") {
        Some(sp) => sp.get("tolerations").is_some(),
        None => false,
    }
}

/// Whether every container's resolved architecture set holds `arch`; an
/// unresolved set supports nothing.
pub open spec fn spec_all_support(sets: Seq<Option<Vec<String>>>, arch: Seq<char>) -> bool {
    forall|i: int|
        0 <= i < sets.len() ==> match #[trigger] sets[i] {
            Some(s) => strings_view(s).contains(arch),
            None => false,
        }
}

/// The targets of the first `i` configured architectures that every
/// container supports, in configuration order.
pub open spec fn matched_prefix(
    targets: Seq<String>,
    sets: Seq<Option<Vec<String>>>,
    i: int,
) -> Seq<Seq<char>>
    decreases i,
{
    if i <= 0 {
        Seq::empty()
    } else {
        matched_prefix(targets, sets, i - 1) + if spec_all_support(sets, targets[i - 1]@) {
            seq![targets[i - 1]@]
        } else {
            Seq::<Seq<char>>::empty()
        }
    }
}

/// All configured architectures that every container supports.
pub open spec fn spec_matched(targets: Seq<String>, sets: Seq<Option<Vec<String>>>) -> Seq<
    Seq<char>,
> {
    matched_prefix(targets, sets, targets.len() as int)
}

/// Checks `spec_all_support`.
fn supports_all(sets: &Vec<Option<Vec<String>>>, arch: &str) -> (r: bool)
    ensures
        r == spec_all_support(sets@, arch@),
{
    let n: usize = sets.len();
    let mut i: usize = 0;
    while i < n
        invariant
            n == sets@.len(),
            0 <= i <= n,
            forall|j: int|
                0 <= j < i ==> match #[trigger] sets@[j] {
                    Some(s) => strings_view(s).contains(arch@),
                    None => false,
                },
        decreases n - i,
    {
        match &sets[i] {
            Some(s) => {
                if !crate::manifest::vec_contains_str(s, arch) {
                    return false;
                }
            },
            None => {
                return false;
            },
        }
        i = i + 1;
    }
    true
}

/// Collects the configured target architectures that every container
/// supports, in configuration order, exactly as `spec_matched` says.
pub fn matched_architectures(targets: &Vec<String>, sets: &Vec<Option<Vec<String>>>) -> (r: Vec<
    String,
>)
    ensures
        strings_view(r) == spec_matched(targets@, sets@),
{
    let n: usize = targets.len();
    let mut matched: Vec<String> = Vec::new();
    proof {
        assert(strings_view(matched) =~= matched_prefix(targets@, sets@, 0));
    }
    let mut i: usize = 0;
    while i < n
        invariant
            n == targets@.len(),
            0 <= i <= n,
            strings_view(matched) == matched_prefix(targets@, sets@, i as int),
        decreases n - i,
    {
        let ghost before = strings_view(matched);
        if supports_all(sets, targets[i].as_str()) {
            matched.push(targets[i].clone());
            proof {
                assert(strings_view(matched) =~= before.push(targets@[i as int]@));
                assert(matched_prefix(targets@, sets@, i + 1) =~= before.push(
                    targets@[i as int]@,
                ));
            }
        } else {
            proof {
                assert(matched_prefix(targets@, sets@, i + 1) =~= before);
            }
        }
        i = i + 1;
    }
    matched
}

/// The matching law: an architecture stands among the matched ones exactly
/// when it is one of the first `i` configured targets and every container's
/// resolved set supports it.
pub proof fn lemma_matched_characterization(
    targets: Seq<String>,
    sets: Seq<Option<Vec<String>>>,
    i: int,
)
    requires
        0 <= i <= targets.len(),
    ensures
        forall|a: Seq<char>|
            matched_prefix(targets, sets, i).contains(a) <==> exists|k: int|
                0 <= k < i && (#[trigger] targets[k])@ == a && spec_all_support(sets, a),
    decreases i,
{
    if i > 0 {
        lemma_matched_characterization(targets, sets, i - 1);
        let prev = matched_prefix(targets, sets, i - 1);
        let cur = matched_prefix(targets, sets, i);
        assert forall|a: Seq<char>| cur.contains(a) implies exists|k: int|
            0 <= k < i && (#[trigger] targets[k])@ == a && spec_all_support(sets, a) by {
            let idx = choose|idx: int| 0 <= idx < cur.len() && cur[idx] == a;
            if idx < prev.len() {
                assert(prev[idx] == cur[idx]);
                assert(prev.contains(a));
            } else {
                assert(spec_all_support(sets, targets[i - 1]@));
                assert(targets[i - 1]@ == a);
            }
        }
        assert forall|k: int|
            0 <= k < i && spec_all_support(sets, (#[trigger] targets[k])@) implies cur.contains(
            targets[k]@,
        ) by {
            if k < i - 1 {
                assert(prev.contains(targets[k]@));
                let idx = choose|idx: int| 0 <= idx < prev.len() && prev[idx] == targets[k]@;
                assert(cur[idx] == targets[k]@);
            } else {
                assert(cur[prev.len() as int] == targets[k]@);
            }
        }
    }
}

/// Whether the toleration template already has a `value` key.
pub open spec fn tol_has_value_key(tol: Seq<(String, String)>) -> bool {
    exists|i: int| 0 <= i < tol.len() && (#[trigger] tol[i]).0@ == "value"@
}

/// The toleration object for one matched architecture: the template's
/// entries in order, each value a string, with the `value` entry overridden
/// to the architecture — appended when the template had none.
pub open spec fn tol_value_matches(tol: Seq<(String, String)>, arch: Seq<char>, j: Json) -> bool {
    &&& j is Obj
    &&& {
        let es = j->Obj_0@;
        &&& es.len() == tol.len() + if tol_has_value_key(tol) {
            0int
        } else {
            1int
        }
        &&& forall|i: int|
            0 <= i < tol.len() ==> {
                let e = #[trigger] es[i];
                e.0@ == tol[i].0@ && (e.1 matches Json::Str(s) && s@ == (if tol[i].0@
                    == "value"@ {
                    arch
                } else {
                    tol[i].1@
                }))
            }
        &&& (!tol_has_value_key(tol) ==> {
            let e = es[tol.len() as int];
            e.0@ == "value"@ && (e.1 matches Json::Str(s) && s@ == arch)
        })
    }
}

/// A JSON Patch `add` operation at `path`: `op`, `path`, `value`, in order.
pub open spec fn add_op_matches(path: Seq<char>, j: Json) -> bool {
    &&& j is Obj
    &&& {
        let es = j->Obj_0@;
        &&& es.len() == 3
        &&& es[0].0@ == "op"@ && (es[0].1 matches Json::Str(s) && s@ == "add"@)
        &&& es[1].0@ == "path"@ && (es[1].1 matches Json::Str(s) && s@ == path)
        &&& es[2].0@ == "value"@
    }
}

/// The operation appending one toleration for `arch`.
pub open spec fn toleration_op_matches(tol: Seq<(String, String)>, arch: Seq<char>, j: Json) -> bool {
    &&& add_op_matches("/spec/tolerations/-"@, j)
    &&& tol_value_matches(tol, arch, j->Obj_0@[2].1)
}

/// The operation creating an empty tolerations array.
pub open spec fn init_op_matches(j: Json) -> bool {
    &&& add_op_matches("/spec/tolerations"@, j)
    &&& (j->Obj_0@[2].1 matches Json::Arr(v) && v@.len() == 0)
}

/// The whole queued patch: one toleration append per matched architecture in
/// order, preceded by the array-creating operation exactly when the Pod had
/// no tolerations member and something is appended.
pub open spec fn patch_list_matches(
    tol: Seq<(String, String)>,
    matched: Seq<Seq<char>>,
    had_tolerations: bool,
    ops: Seq<Json>,
) -> bool {
    let init: int = if !had_tolerations && matched.len() > 0 {
        1
    } else {
        0
    };
    &&& ops.len() == matched.len() + init
    &&& (init == 1 ==> init_op_matches(ops[0]))
    &&& forall|i: int|
        0 <= i < matched.len() ==> toleration_op_matches(tol, matched[i], #[trigger] ops[init + i])
}

/// Builds the toleration object for one matched architecture, exactly as
/// `tol_value_matches` says.
pub fn toleration_value(tol: &Vec<(String, String)>, arch: &str) -> (r: Json)
    ensures
        tol_value_matches(tol@, arch@, r),
{
    let n: usize = tol.len();
    let mut es: Vec<(String, Json)> = Vec::new();
    let mut has_value = false;
    let mut i: usize = 0;
    while i < n
        invariant
            n == tol@.len(),
            0 <= i <= n,
            es@.len() == i,
            has_value == exists|k: int| 0 <= k < i && (#[trigger] tol@[k]).0@ == "value"@,
            forall|k: int|
                0 <= k < i ==> {
                    let e = #[trigger] es@[k];
                    e.0@ == tol@[k].0@ && (e.1 matches Json::Str(s) && s@ == (if tol@[k].0@
                        == "value"@ {
                        arch@
                    } else {
                        tol@[k].1@
                    }))
                },
        decreases n - i,
    {
        let key = tol[i].0.clone();
        if str_eq(key.as_str(), "value") {
            has_value = true;
            es.push((key, Json::Str(arch.to_owned())));
        } else {
            es.push((key, Json::Str(tol[i].1.clone())));
        }
        i = i + 1;
    }
    if !has_value {
        es.push(("value".to_owned(), Json::Str(arch.to_owned())));
    }
    Json::Obj(es)
}

/// Builds the patch operation appending one toleration, exactly as
/// `toleration_op_matches` says.
fn toleration_op(tol: &Vec<(String, String)>, arch: &str) -> (r: Json)
    ensures
        toleration_op_matches(tol@, arch@, r),
{
    let mut es: Vec<(String, Json)> = Vec::new();
    es.push(("op".to_owned(), Json::Str("add".to_owned())));
    es.push(("path".to_owned(), Json::Str("/spec/tolerations/-".to_owned())));
    es.push(("value".to_owned(), toleration_value(tol, arch)));
    Json::Obj(es)
}

/// Builds the patch operation creating an empty tolerations array, exactly
/// as `init_op_matches` says.
fn init_op() -> (r: Json)
    ensures
        init_op_matches(r),
{
    let mut es: Vec<(String, Json)> = Vec::new();
    es.push(("op".to_owned(), Json::Str("add".to_owned())));
    es.push(("path".to_owned(), Json::Str("/spec/tolerations".to_owned())));
    es.push(("value".to_owned(), Json::Arr(Vec::new())));
    Json::Obj(es)
}

/// Builds the queued patch for the matched architectures, exactly as
/// `patch_list_matches` says.
pub fn build_patches(matched: &Vec<String>, tol: &Vec<(String, String)>, had_tolerations: bool) -> (r:
    Vec<Json>)
    ensures
        patch_list_matches(tol@, strings_view(*matched), had_tolerations, r@),
{
    let mut ops: Vec<Json> = Vec::new();
    let n: usize = matched.len();
    let ghost init: int = if !had_tolerations && n > 0 {
        1int
    } else {
        0int
    };
    if !had_tolerations && n > 0 {
        ops.push(init_op());
    }
    let mut i: usize = 0;
    while i < n
        invariant
            n == matched@.len(),
            0 <= i <= n,
            init == (if !had_tolerations && n > 0 {
                1int
            } else {
                0int
            }),
            ops@.len() == i + init,
            init == 1 ==> init_op_matches(ops@[0]),
            forall|k: int|
                0 <= k < i ==> toleration_op_matches(
                    tol@,
                    strings_view(*matched)[k],
                    #[trigger] ops@[init + k],
                ),
        decreases n - i,
    {
        ops.push(toleration_op(tol, matched[i].as_str()));
        proof {
            assert(strings_view(*matched)[i as int] == matched@[i as int]@);
        }
        i = i + 1;
    }
    ops
}

/// What a standard base64 encoding of some bytes reads as.
pub uninterp spec fn base64_of(bytes: Seq<u8>) -> Seq<char>;

/// Relies on base64's `Engine::encode` with the standard alphabet: the
/// padded RFC 4648 text of the input bytes, a function of the bytes alone.
#[verifier::external_body]
fn b64_encode(s: &str) -> (r: String)
    ensures
        r@ == base64_of(encode_utf8(s@)),
{
    base64::engine::general_purpose::STANDARD.encode(s.as_bytes())
}

/// The serialized text of the queued patch: the operations as one JSON
/// array, exactly as `json_text` states it.
pub fn patches_text(ops: &Vec<Json>) -> (r: String)
    ensures
        r@ == json_text(Json::Arr(*ops)),
{
    let mut out = String::from_str("[");
    let n: usize = ops.len();
    let mut i: usize = 0;
    while i < n
        invariant
            n == ops@.len(),
            0 <= i <= n,
            out@ == "["@ + crate::json::arr_prefix_text(ops@, i as int),
        decreases n - i,
    {
        if i > 0 {
            out.append(",");
        }
        push_json(&ops[i], &mut out);
        proof {
            reveal_strlit(",");
            assert(","@ =~= seq![',']);
            assert(out@ =~= "["@ + crate::json::arr_prefix_text(ops@, i + 1));
        }
        i = i + 1;
    }
    out.append("]");
    proof {
        reveal_strlit("[");
        reveal_strlit("]");
        assert("["@ =~= seq!['[']);
        assert("]"@ =~= seq![']']);
        assert(out@ =~= json_text(Json::Arr(*ops)));
    }
    out
}

/// Encodes the queued patch for the wire: base64 of its serialized text.
pub fn encode_patches(ops: &Vec<Json>) -> (r: String)
    ensures
        r@ == base64_of(encode_utf8(json_text(Json::Arr(*ops)))),
{
    let text = patches_text(ops);
    b64_encode(text.as_str())
}

/// An anomaly report: one status entry carrying the message under `status`,
/// `message` and `reason`, with code 400.
pub open spec fn error_status_matches(resp: AdmissionResponse, msg: Seq<char>) -> bool {
    &&& resp.status matches Some(sts) && sts@.len() == 1 && {
        let st = sts@[0];
        &&& st.code == Some(400u16)
        &&& (st.message matches Some(m) && m@ == msg)
        &&& (st.reason matches Some(m) && m@ == msg)
        &&& (st.status matches Some(m) && m@ == msg)
        &&& st.details is None
    }
}

/// Builds the review answering a structurally anomalous request: still
/// allowed — the engine never denies — but with a status entry that explains
/// the anomaly.
pub fn generate_error_response(uid: String, msg: &str) -> (r: AdmissionReview)
    ensures
        r.request is None,
        r.response matches Some(resp) && {
            &&& resp.uid == uid
            &&& resp.allowed == true
            &&& error_status_matches(resp, msg@)
            &&& resp.patch is None
            &&& resp.patch_type is None
            &&& resp.audit_annotations is None
            &&& resp.warnings is None
        },
{
    let message = StatusResult {
        status: Some(msg.to_owned()),
        message: Some(msg.to_owned()),
        reason: Some(msg.to_owned()),
        details: None,
        code: Some(400),
    };
    let mut messages: Vec<StatusResult> = Vec::new();
    messages.push(message);
    let mut response = AdmissionResponse::default();
    response.uid = uid;
    response.allowed = true;
    response.status = Some(messages);
    let mut review = AdmissionReview::default();
    review.response = Some(response);
    review
}


/// Whether a request concerns a Pod.
pub open spec fn spec_is_pod(kind: Seq<char>) -> bool {
    kind == "Pod"@
}

/// Answers one admission review, and hands back the patch operations it
/// queued. The answer always allows. A non-Pod object gets no patch and no
/// status, whatever its body holds. A Pod whose object lacks a spec or a
/// containers array gets a status entry naming the anomaly. A Pod reviewed
/// without configuration passes unpatched. Otherwise one toleration append
/// is queued per configured architecture that every container supports,
/// after an array-creating operation exactly when the Pod had no
/// tolerations; a nonempty patch travels base64-encoded as a JSON Patch.
///
/// `resolutions` holds the resolved architecture set of each container's
/// image, in container order; a failed resolution is `None` and supports
/// nothing.
pub fn mutate_review(
    review: &AdmissionReview,
    resolutions: &Vec<Option<Vec<String>>>,
    config: Option<&MutationConfig>,
) -> (r: (AdmissionReview, Vec<Json>))
    requires
        review.request is Some,
        spec_is_pod(review.request->Some_0.kind.kind@) ==> review.request->Some_0.object is Some
            && (match spec_pod_images(review.request->Some_0.object->Some_0) {
            Ok(imgs) => resolutions@.len() == imgs.len(),
            Err(a) => a != PodAnomaly::MalformedContainer,
        }),
    ensures
        r.0.request is None,
        r.0.response matches Some(resp) && {
            let req = review.request->Some_0;
            &&& resp.uid@ == req.uid@
            &&& resp.allowed == true
            &&& resp.audit_annotations is None
            &&& resp.warnings is None
            &&& if !spec_is_pod(req.kind.kind@) {
                resp.patch is None && resp.patch_type is None && resp.status is None
                    && r.1@.len() == 0
            } else {
                match spec_pod_images(req.object->Some_0) {
                    Err(PodAnomaly::MissingSpec) => error_status_matches(resp, "Pod has no spec?"@)
                        && resp.patch is None && resp.patch_type is None && r.1@.len() == 0,
                    Err(PodAnomaly::MissingContainers) => error_status_matches(
                        resp,
                        "PodSpec has no containers?"@,
                    ) && resp.patch is None && resp.patch_type is None && r.1@.len() == 0,
                    Err(PodAnomaly::MalformedContainer) => true,
                    Ok(_) => match config {
                        None => resp.patch is None && resp.patch_type is None && resp.status
                            is None && r.1@.len() == 0,
                        Some(cfg) => {
                            let matched = spec_matched(
                                cfg.supported_architectures@,
                                resolutions@,
                            );
                            let had = spec_pod_has_tolerations(req.object->Some_0);
                            &&& resp.status is None
                            &&& patch_list_matches(cfg.tolerations@, matched, had, r.1@)
                            &&& if r.1@.len() > 0 {
                                (resp.patch matches Some(p) && p@ == base64_of(
                                    encode_utf8(json_text(Json::Arr(r.1))),
                                )) && resp.patch_type == Some(PatchType::JSONPatch)
                            } else {
                                resp.patch is None && resp.patch_type is None
                            }
                        },
                    },
                }
            }
        },
{
    let req = match &review.request {
        Some(rq) => rq,
        None => unreached(),
    };
    let mut response = AdmissionResponse::default();
    response.uid = req.uid.clone();
    response.allowed = true;
    let mut ops: Vec<Json> = Vec::new();
    if str_eq(req.kind.kind.as_str(), "Pod") {
        let object = match &req.object {
            Some(o) => o,
            None => unreached(),
        };
        match extract_pod_images(object) {
            PodImages::Anomaly(PodAnomaly::MissingSpec) => {
                return (generate_error_response(req.uid.clone(), "Pod has no spec?"), ops);
            },
            PodImages::Anomaly(PodAnomaly::MissingContainers) => {
                return (
                    generate_error_response(req.uid.clone(), "PodSpec has no containers?"),
                    ops,
                );
            },
            PodImages::Anomaly(PodAnomaly::MalformedContainer) => {
                return unreached();
            },
            PodImages::Images(_images) => {
                match config {
                    None => {},
                    Some(cfg) => {
                        let matched = matched_architectures(
                            &cfg.supported_architectures,
                            resolutions,
                        );
                        let had = pod_has_tolerations(object);
                        ops = build_patches(&matched, &cfg.tolerations, had);
                        if ops.len() > 0 {
                            response.patch = Some(encode_patches(&ops));
                            response.patch_type = Some(PatchType::JSONPatch);
                        }
                    },
                }
            },
        }
    }
    let mut review_out = AdmissionReview::default();
    review_out.response = Some(response);
    (review_out, ops)
}

/// The configuration the engine works against: the target architectures and
/// the toleration template. A deployment missing either hands the engine
/// nothing, and every Pod passes unpatched.
#[derive(Debug, Clone)]
pub struct MutationConfig {
    pub supported_architectures: Vec<String>,
    pub tolerations: Vec<(String, String)>,
}

} // verus!
