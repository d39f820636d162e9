//! The image reference parser: splits a Docker-style image string into
//! registry host, optional port, repository path and tag, and applies the
//! default-registry name normalization (`nginx` becomes `library/nginx`).
//!
//! Accepted strings have the shape `[registry[:port]/]repository[:tag]`.
//! The leading component counts as a registry only when it contains a dot,
//! carries a port, or is followed by at least two further path segments;
//! a single bare word is always a repository under the default registry.

use vstd::prelude::*;
use crate::strutil::{
    all_digits, contains, contains_char, find_first, find_last, first_index_of, is_all_digits,
    last_index_of, str_eq,
};

verus! {

/// The error a string that matches no recognized grammar is rejected with.
#[derive(Debug, Clone, Copy, PartialEq, Eq, Structural)]
pub enum ParseError {
    Malformed,
}

/// A parsed image reference. `registry`, `port` and `tag` keep exactly what
/// the source string carried; a missing tag means `latest` at use sites.
#[derive(Debug, Clone)]
pub struct ImageReference {
    pub registry: Option<String>,
    pub port: Option<String>,
    pub repository: String,
    pub tag: Option<String>,
}

/// The mathematical shape of a parsed reference.
pub struct ImageRefView {
    pub registry: Option<Seq<char>>,
    pub port: Option<Seq<char>>,
    pub repository: Seq<char>,
    pub tag: Option<Seq<char>>,
}

impl View for ImageReference {
    type V = ImageRefView;

    open spec fn view(&self) -> ImageRefView {
        ImageRefView {
            registry: match self.registry {
                Some(r) => Some(r@),
                None => None,
            },
            port: match self.port {
                Some(p) => Some(p@),
                None => None,
            },
            repository: self.repository@,
            tag: match self.tag {
                Some(t) => Some(t@),
                None => None,
            },
        }
    }
}

/// Splits off the registry component: the part before the first slash, when
/// that part holds a dot or a colon or at least two more segments follow.
/// Yields the registry-and-port text, if any, and the remaining path.
pub open spec fn split_registry(s: Seq<char>) -> (Option<Seq<char>>, Seq<char>) {
    match first_index_of(s, '/') {
        Some(i) => {
            let head = s.subrange(0, i);
            let rest = s.subrange(i + 1, s.len() as int);
            if contains_char(head, '.') || contains_char(head, ':') || contains_char(rest, '/') {
                (Some(head), rest)
            } else {
                (None, s)
            }
        },
        None => (None, s),
    }
}

/// Splits a registry component at its colon into host and port. A present
/// component must be nonempty, and a port nonempty and all digits; anything
/// else is malformed.
pub open spec fn split_reg_port(rp: Option<Seq<char>>) -> Option<(Option<Seq<char>>, Option<
    Seq<char>,
>)> {
    match rp {
        None => Some((None, None)),
        Some(head) => match first_index_of(head, ':') {
            None => if head.len() == 0 {
                None
            } else {
                Some((Some(head), None))
            },
            Some(j) => {
                let reg = head.subrange(0, j);
                let port = head.subrange(j + 1, head.len() as int);
                if reg.len() == 0 || port.len() == 0 || !all_digits(port) {
                    None
                } else {
                    Some((Some(reg), Some(port)))
                }
            },
        },
    }
}

/// A well-formed repository path: nonempty slash-separated segments, no colon.
pub open spec fn valid_repo(r: Seq<char>) -> bool {
    &&& r.len() > 0
    &&& r[0] != '/'
    &&& r[r.len() - 1] != '/'
    &&& !contains_char(r, ':')
    &&& forall|i: int| 0 < i < r.len() ==> !(#[trigger] r[i] == '/' && r[i - 1] == '/')
}

/// Splits the path at the last colon into repository and tag. The tag must be
/// nonempty and slash-free, and the repository well-formed.
pub open spec fn split_tag(p: Seq<char>) -> Option<(Seq<char>, Option<Seq<char>>)> {
    match last_index_of(p, ':') {
        None => if valid_repo(p) {
            Some((p, None))
        } else {
            None
        },
        Some(k) => {
            let repo = p.subrange(0, k);
            let tag = p.subrange(k + 1, p.len() as int);
            if tag.len() == 0 || contains_char(tag, '/') || !valid_repo(repo) {
                None
            } else {
                Some((repo, Some(tag)))
            }
        },
    }
}

/// The whole grammar: registry split, port split, tag split, and the
/// default-registry normalization that puts bare names under `library/`.
pub open spec fn spec_parse_image(s: Seq<char>) -> Option<ImageRefView> {
    let (reg_part, path) = split_registry(s);
    match split_reg_port(reg_part) {
        None => None,
        Some((registry, port)) => match split_tag(path) {
            None => None,
            Some((repo, tag)) => Some(
                ImageRefView {
                    registry,
                    port,
                    repository: if registry is None && !contains_char(repo, '/') {
                        "library/"@ + repo
                    } else {
                        repo
                    },
                    tag,
                },
            ),
        },
    }
}

/// Checks `valid_repo`.
fn is_valid_repo(r: &str) -> (b: bool)
    ensures
        b == valid_repo(r@),
{
    let n: usize = r.unicode_len();
    if n == 0 {
        return false;
    }
    if r.get_char(0) == '/' || r.get_char(n - 1) == '/' {
        return false;
    }
    if contains(r, ':') {
        return false;
    }
    let mut i: usize = 1;
    while i < n
        invariant
            n == r@.len(),
            1 <= i <= n,
            forall|j: int| 0 < j < i ==> !(#[trigger] r@[j] == '/' && r@[j - 1] == '/'),
        decreases n - i,
    {
        if r.get_char(i) == '/' && r.get_char(i - 1) == '/' {
            return false;
        }
        i = i + 1;
    }
    true
}

/// Parses an image string, exactly as `spec_parse_image` describes it.
/// Fails with `Malformed` when the string matches no recognized grammar.
/// A parsed reference never has an empty repository, and a bare name under
/// the default registry comes back normalized to `library/<name>`.
pub fn parse(raw: &str) -> (r: Result<ImageReference, ParseError>)
    ensures
        match r {
            Ok(img) => spec_parse_image(raw@) == Some(img@) && img@.repository.len() > 0,
            Err(_) => spec_parse_image(raw@) is None,
        },
{
    let n: usize = raw.unicode_len();
    let mut registry: Option<String> = None;
    let mut port: Option<String> = None;
    let path: &str;
    match find_first(raw, '/') {
        Some(i) => {
            let head = raw.substring_char(0, i);
            let rest = raw.substring_char(i + 1, n);
            if contains(head, '.') || contains(head, ':') || contains(rest, '/') {
                path = rest;
                match find_first(head, ':') {
                    None => {
                        if head.unicode_len() == 0 {
                            return Err(ParseError::Malformed);
                        }
                        registry = Some(head.to_owned());
                    },
                    Some(j) => {
                        let hn: usize = head.unicode_len();
                        let reg = head.substring_char(0, j);
                        let p = head.substring_char(j + 1, hn);
                        if reg.unicode_len() == 0 || p.unicode_len() == 0 || !is_all_digits(p) {
                            return Err(ParseError::Malformed);
                        }
                        registry = Some(reg.to_owned());
                        port = Some(p.to_owned());
                    },
                }
            } else {
                path = raw;
            }
        },
        None => {
            path = raw;
        },
    }
    let repo: &str;
    let mut tag: Option<String> = None;
    let pn: usize = path.unicode_len();
    match find_last(path, ':') {
        None => {
            if !is_valid_repo(path) {
                return Err(ParseError::Malformed);
            }
            repo = path;
        },
        Some(k) => {
            let rp = path.substring_char(0, k);
            let tg = path.substring_char(k + 1, pn);
            if tg.unicode_len() == 0 || contains(tg, '/') || !is_valid_repo(rp) {
                return Err(ParseError::Malformed);
            }
            repo = rp;
            tag = Some(tg.to_owned());
        },
    }
    let repository: String = if registry.is_none() && !contains(repo, '/') {
        let prefixed = String::from_str("library/");
        prefixed.concat(repo)
    } else {
        repo.to_owned()
    };
    Ok(ImageReference { registry, port, repository, tag })
}

impl ImageReference {
    /// The tag to fetch: the parsed one, or `latest` when none was given.
    pub fn effective_tag(&self) -> (r: &str)
        ensures
            r@ == spec_effective_tag(self@),
    {
        match &self.tag {
            Some(t) => t.as_str(),
            None => "latest",
        }
    }

    /// The registry name credentials are filed under: the user-facing name,
    /// with the default registry called by its conventional name.
    pub fn logical_registry(&self) -> (r: &str)
        ensures
            r@ == spec_logical_registry(self@),
    {
        match &self.registry {
            Some(r) => r.as_str(),
            None => "docker.io",
        }
    }

    /// The DNS host to contact: the default registry's conventional name is
    /// rewritten to its documented real endpoint before any network use.
    pub fn effective_host(&self) -> (r: &str)
        ensures
            r@ == spec_effective_host(self@),
    {
        match &self.registry {
            Some(r) => {
                if str_eq(r.as_str(), "docker.io") {
                    "registry-1.docker.io"
                } else {
                    r.as_str()
                }
            },
            None => "registry-1.docker.io",
        }
    }
}

pub open spec fn spec_effective_tag(v: ImageRefView) -> Seq<char> {
    match v.tag {
        Some(t) => t,
        None => "latest"@,
    }
}

pub open spec fn spec_logical_registry(v: ImageRefView) -> Seq<char> {
    match v.registry {
        Some(r) => r,
        None => "docker.io"@,
    }
}

pub open spec fn spec_effective_host(v: ImageRefView) -> Seq<char> {
    match v.registry {
        Some(r) => if r == "docker.io"@ {
            "registry-1.docker.io"@
        } else {
            r
        },
        None => "registry-1.docker.io"@,
    }
}

/// Default-registry legacy-name normalization: an image string with no
/// registry component and no slash in its path parses to a repository that
/// reads `library/` followed by the bare name.
pub proof fn lemma_default_registry_normalization(s: Seq<char>)
    requires
        spec_parse_image(s) is Some,
        !contains_char(s, '/'),
    ensures
        (spec_parse_image(s)->Some_0).registry is None,
        (spec_parse_image(s)->Some_0).repository == "library/"@ + (split_tag(s)->Some_0).0,
{
    crate::strutil::lemma_first_index_of_properties(s, '/');
    crate::strutil::lemma_last_index_of_properties(s, ':');
    let (reg_part, path) = split_registry(s);
    assert(reg_part is None && path == s);
    assert(split_reg_port(reg_part) == Some((None::<Seq<char>>, None::<Seq<char>>)));
    assert(split_tag(s) is Some);
    let repo = (split_tag(s)->Some_0).0;
    match last_index_of(s, ':') {
        Some(k) => {
            assert(repo == s.subrange(0, k));
            assert forall|i: int| 0 <= i < repo.len() implies repo[i] != '/' by {
                assert(s.subrange(0, k)[i] == s[i]);
            }
        },
        None => {
            assert(repo == s);
        },
    }
    assert(!contains_char(repo, '/'));
}

} // verus!
