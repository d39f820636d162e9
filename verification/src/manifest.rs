//! Manifest fetching support and schema normalization: building the manifest
//! URL for an image reference, locating the credential resource for a
//! registry, and recovering the architecture list from either manifest schema
//! version. The network fetch itself happens outside the library; the
//! decisions and the document reading live here.

use vstd::prelude::*;
use crate::image::{
    spec_effective_host, spec_effective_tag, spec_logical_registry, spec_parse_image,
    ImageReference, ImageRefView,
};
use crate::json::{spec_get, Json};
use crate::strutil::str_eq;

verus! {

/// Basic-auth material for one registry, loaded fresh on every resolution
/// attempt and never cached.
#[derive(Debug, Clone)]
pub struct RegistryCredential {
    pub user: String,
    pub secret: String,
}

/// The views of a vector of strings.
pub open spec fn strings_view(v: Vec<String>) -> Seq<Seq<char>> {
    v@.map_values(|s: String| s@)
}

/// Whether one of the strings in `v` reads `x`.
pub fn vec_contains_str(v: &Vec<String>, x: &str) -> (r: bool)
    ensures
        r == strings_view(*v).contains(x@),
{
    let n: usize = v.len();
    let mut i: usize = 0;
    while i < n
        invariant
            n == v@.len(),
            0 <= i <= n,
            forall|j: int| 0 <= j < i ==> (#[trigger] v@[j])@ != x@,
        decreases n - i,
    {
        if str_eq(v[i].as_str(), x) {
            proof {
                assert(strings_view(*v)[i as int] == x@);
            }
            return true;
        }
        i = i + 1;
    }
    proof {
        assert forall|k: int| 0 <= k < strings_view(*v).len() implies strings_view(*v)[k]
            != x@ by {
            assert(strings_view(*v)[k] == v@[k]@);
        }
    }
    false
}

/// The manifest endpoint for a parsed reference:
/// `https://<host>[:<port>]/v2/<repository>/manifests/<tag>`.
pub open spec fn spec_manifest_url(v: ImageRefView) -> Seq<char> {
    let hostport = spec_effective_host(v) + (match v.port {
        Some(p) => seq![':'] + p,
        None => Seq::<char>::empty(),
    });
    "https://"@ + hostport + "/v2/"@ + v.repository + "/manifests/"@ + spec_effective_tag(v)
}

impl ImageReference {
    /// Builds the manifest URL for this reference, exactly as
    /// `spec_manifest_url` states it.
    pub fn manifest_url(&self) -> (r: String)
        ensures
            r@ == spec_manifest_url(self@),
    {
        let mut url = String::from_str("https://");
        url.append(self.effective_host());
        match &self.port {
            Some(p) => {
                url.append(":");
                url.append(p.as_str());
            },
            None => {},
        }
        url.append("/v2/");
        url.append(self.repository.as_str());
        url.append("/manifests/");
        url.append(self.effective_tag());
        proof {
            reveal_strlit(":");
            assert(":"@ =~= seq![':']);
            assert(url@ =~= spec_manifest_url(self@));
        }
        url
    }
}

/// Where a manifest fetch for `image` goes, and which registry name its
/// credentials are filed under.
#[derive(Debug, Clone)]
pub struct ManifestTarget {
    pub url: String,
    pub credential_registry: String,
}

/// The pure head of a resolution: parses the image string and fixes the
/// manifest URL and the credential registry. `None` exactly on strings the
/// reference grammar rejects.
pub fn manifest_target(image: &str) -> (r: Option<ManifestTarget>)
    ensures
        match spec_parse_image(image@) {
            Some(v) => r matches Some(t) && t.url@ == spec_manifest_url(v)
                && t.credential_registry@ == spec_logical_registry(v),
            None => r is None,
        },
{
    match crate::image::parse(image) {
        Ok(img) => {
            let url = img.manifest_url();
            let credential_registry = img.logical_registry().to_owned();
            Some(ManifestTarget { url, credential_registry })
        },
        Err(_) => None,
    }
}

/// The credential resource for a registry: `<base>/<registry>.toml`.
pub fn credential_file_path(base: &str, registry: &str) -> (r: String)
    ensures
        r@ == base@ + "/"@ + registry@ + ".toml"@,
{
    let mut path = base.to_owned();
    path.append("/");
    path.append(registry);
    path.append(".toml");
    path
}

/// The architecture named by one entry of a schema-2 manifest list: the
/// string under `platform.architecture`, when the entry carries one.
pub open spec fn arch_of_entry(m: Json) -> Option<Seq<char>> {
    match spec_get(m, "platform"@) {
        Some(p) => match spec_get(p, "architecture"@) {
            Some(a) => match a {
                Json::Str(s) => Some(s@),
                _ => None,
            },
            _ => None,
        },
        None => None,
    }
}

/// The distinct architectures of the first `i` entries, order of first
/// appearance; `None` as soon as one entry names no architecture.
pub open spec fn v2_arches_prefix(ms: Seq<Json>, i: int) -> Option<Seq<Seq<char>>>
    decreases i,
{
    if i <= 0 {
        Some(Seq::empty())
    } else {
        match v2_arches_prefix(ms, i - 1) {
            None => None,
            Some(acc) => match arch_of_entry(ms[i - 1]) {
                Some(a) => Some(
                    if acc.contains(a) {
                        acc
                    } else {
                        acc.push(a)
                    },
                ),
                None => None,
            },
        }
    }
}

proof fn lemma_v2_prefix_none(ms: Seq<Json>, i: int, n: int)
    requires
        0 <= i <= n,
        v2_arches_prefix(ms, i) is None,
    ensures
        v2_arches_prefix(ms, n) is None,
    decreases n - i,
{
    if n > i {
        lemma_v2_prefix_none(ms, i, n - 1);
    }
}

/// What a schema-1 manifest resolves to: the single architecture it names.
pub open spec fn spec_v1_arches(j: Json) -> Option<Seq<Seq<char>>> {
    match spec_get(j, "architecture"@) {
        Some(a) => match a {
            Json::Str(s) => Some(seq![s@]),
            _ => None,
        },
        None => None,
    }
}

/// What a schema-2 manifest list resolves to: the distinct architectures of
/// its `manifests` entries.
pub open spec fn spec_v2_arches(j: Json) -> Option<Seq<Seq<char>>> {
    match spec_get(j, "manifests"@) {
        Some(m) => match m {
            Json::Arr(ms) => v2_arches_prefix(ms@, ms@.len() as int),
            _ => None,
        },
        None => None,
    }
}

/// What any manifest document resolves to, by its `schemaVersion`.
pub open spec fn spec_manifest_arches(j: Json) -> Option<Seq<Seq<char>>> {
    match spec_get(j, "schemaVersion"@) {
        Some(v) => match v {
            Json::UInt(n) => if n == 1 {
                spec_v1_arches(j)
            } else if n == 2 {
                spec_v2_arches(j)
            } else {
                None
            },
            _ => None,
        },
        None => None,
    }
}

/// Reads the architecture set out of a schema-1 manifest: the one string
/// under `architecture`, or `None` on a document that lacks it.
pub fn get_version_1_arches(json: &Json) -> (r: Option<Vec<String>>)
    ensures
        match spec_v1_arches(*json) {
            Some(a) => r matches Some(v) && strings_view(v) == a,
            None => r is None,
        },
{
    match json.get("architecture") {
        Some(a) => match a.as_str() {
            Some(s) => {
                let arches = vec![s.clone()];
                proof {
                    assert(strings_view(arches) =~= spec_v1_arches(*json)->Some_0);
                }
                Some(arches)
            },
            None => None,
        },
        None => None,
    }
}

/// Reads the architecture set out of a schema-2 manifest list: the distinct
/// `platform.architecture` strings across the `manifests` entries, in order
/// of first appearance; `None` as soon as one entry names no architecture.
pub fn get_version_2_arches(json: &Json) -> (r: Option<Vec<String>>)
    ensures
        match spec_v2_arches(*json) {
            Some(a) => r matches Some(v) && strings_view(v) == a,
            None => r is None,
        },
{
    let ms: &Vec<Json> = match json.get("manifests") {
        Some(m) => match m.as_array() {
            Some(ms) => ms,
            None => {
                return None;
            },
        },
        None => {
            return None;
        },
    };
    let n: usize = ms.len();
    let mut arches: Vec<String> = Vec::new();
    proof {
        assert(strings_view(arches) =~= Seq::<Seq<char>>::empty());
    }
    let mut i: usize = 0;
    while i < n
        invariant
            n == ms@.len(),
            0 <= i <= n,
            spec_v2_arches(*json) == v2_arches_prefix(ms@, n as int),
            v2_arches_prefix(ms@, i as int) == Some(strings_view(arches)),
        decreases n - i,
    {
        let entry = &ms[i];
        let arch: &String = match entry.get("platform") {
            Some(p) => match p.get("architecture") {
                Some(a) => match a.as_str() {
                    Some(s) => s,
                    None => {
                        proof {
                            assert(arch_of_entry(ms@[i as int]) is None);
                            lemma_v2_prefix_none(ms@, i as int + 1, n as int);
                        }
                        return None;
                    },
                },
                None => {
                    proof {
                        assert(arch_of_entry(ms@[i as int]) is None);
                        lemma_v2_prefix_none(ms@, i as int + 1, n as int);
                    }
                    return None;
                },
            },
            None => {
                proof {
                    assert(arch_of_entry(ms@[i as int]) is None);
                    lemma_v2_prefix_none(ms@, i as int + 1, n as int);
                }
                return None;
            },
        };
        proof {
            assert(arch_of_entry(ms@[i as int]) == Some(arch@));
        }
        if !vec_contains_str(&arches, arch.as_str()) {
            let ghost before = strings_view(arches);
            arches.push(arch.clone());
            proof {
                assert(strings_view(arches) =~= before.push(arch@));
            }
        }
        i = i + 1;
    }
    Some(arches)
}

/// Reads the architecture set out of any manifest document, branching on its
/// numeric `schemaVersion`; documents with a missing, non-numeric or
/// unexpected version resolve to `None`.
pub fn manifest_arches(json: &Json) -> (r: Option<Vec<String>>)
    ensures
        match spec_manifest_arches(*json) {
            Some(a) => r matches Some(v) && strings_view(v) == a,
            None => r is None,
        },
{
    let version: u64 = match json.get("schemaVersion") {
        Some(v) => match v.as_u64() {
            Some(n) => n,
            None => {
                return None;
            },
        },
        None => {
            return None;
        },
    };
    if version == 1 {
        get_version_1_arches(json)
    } else if version == 2 {
        get_version_2_arches(json)
    } else {
        None
    }
}

/// The schema-2 normalization is a set without duplicates, and holds an
/// architecture exactly when some manifest entry names it.
pub proof fn lemma_v2_arches_distinct(ms: Seq<Json>, i: int)
    requires
        0 <= i <= ms.len(),
        v2_arches_prefix(ms, i) is Some,
    ensures
        forall|a: Seq<char>|
            (v2_arches_prefix(ms, i)->Some_0).contains(a) <==> exists|k: int|
                0 <= k < i && arch_of_entry(#[trigger] ms[k]) == Some(a),
        forall|x: int, y: int|
            0 <= x < y < (v2_arches_prefix(ms, i)->Some_0).len() ==> (v2_arches_prefix(
                ms,
                i,
            )->Some_0)[x] != (v2_arches_prefix(ms, i)->Some_0)[y],
    decreases i,
{
    if i > 0 {
        lemma_v2_arches_distinct(ms, i - 1);
        let prev = v2_arches_prefix(ms, i - 1)->Some_0;
        let cur = v2_arches_prefix(ms, i)->Some_0;
        let a = arch_of_entry(ms[i - 1])->Some_0;
        if prev.contains(a) {
            assert(cur == prev);
        } else {
            assert(cur == prev.push(a));
            assert forall|b: Seq<char>| cur.contains(b) implies (exists|k: int|
                0 <= k < i && arch_of_entry(#[trigger] ms[k]) == Some(b)) by {
                let idx = choose|idx: int| 0 <= idx < cur.len() && cur[idx] == b;
                if idx < prev.len() {
                    assert(prev.contains(b));
                } else {
                    assert(b == a);
                    assert(arch_of_entry(ms[i - 1]) == Some(b));
                }
            }
            assert forall|k: int|
                0 <= k < i && arch_of_entry(#[trigger] ms[k]) is Some implies cur.contains(
                arch_of_entry(ms[k])->Some_0,
            ) by {
                let b = arch_of_entry(ms[k])->Some_0;
                if k < i - 1 {
                    assert(prev.contains(b));
                    let idx = choose|idx: int| 0 <= idx < prev.len() && prev[idx] == b;
                    assert(cur[idx] == b);
                } else {
                    assert(cur[prev.len() as int] == b);
                }
            }
            assert forall|x: int, y: int| 0 <= x < y < cur.len() implies cur[x] != cur[y] by {
                if y == cur.len() - 1 {
                    assert(cur[y] == a);
                    assert(prev[x] == cur[x]);
                    if cur[x] == a {
                        assert(prev.contains(a));
                    }
                }
            }
        }
    }
}

} // verus!
